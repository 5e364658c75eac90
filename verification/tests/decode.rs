use snapshot_storage::error::DecodeError;
use snapshot_storage::snapshot_manager::{
    decode_pairs, deserialize_snapshot_path, LocalPath, S3Config, SnapshotStorage,
};
use snapshot_storage::value::ConfigValue;

fn text(s: &str) -> ConfigValue {
    ConfigValue::Str(s.to_string())
}

fn map(pairs: Vec<(&str, ConfigValue)>) -> ConfigValue {
    ConfigValue::Mapping(pairs.into_iter().map(|(k, v)| (k.to_string(), v)).collect())
}

fn remote(bucket: &str, region: &str) -> SnapshotStorage {
    SnapshotStorage::S3(S3Config::new(bucket.to_string(), region.to_string()))
}

fn local(path: &str) -> SnapshotStorage {
    SnapshotStorage::LocalPath(LocalPath::new(path.to_string()))
}

#[test]
fn string_decodes_to_local_path() {
    assert_eq!(deserialize_snapshot_path(&text("/data/snaps")), Ok(local("/data/snaps")));
}

#[test]
fn string_is_kept_verbatim() {
    let got = deserialize_snapshot_path(&text("  ./Snaps/../x y\t ")).unwrap();
    match got {
        SnapshotStorage::LocalPath(p) => assert_eq!(p.path(), "  ./Snaps/../x y\t "),
        SnapshotStorage::S3(_) => panic!("a string decoded to a remote store"),
    }
}

#[test]
fn empty_string_is_a_local_path() {
    assert_eq!(deserialize_snapshot_path(&text("")), Ok(local("")));
}

#[test]
fn string_that_names_a_key_is_still_a_path() {
    assert_eq!(deserialize_snapshot_path(&text("bucket")), Ok(local("bucket")));
}

#[test]
fn bucket_and_region_decode_to_remote_store() {
    let v = map(vec![("bucket", text("my-bucket")), ("region", text("eu-west-1"))]);
    assert_eq!(deserialize_snapshot_path(&v), Ok(remote("my-bucket", "eu-west-1")));
}

#[test]
fn remote_store_fields_are_read_back() {
    let v = map(vec![("bucket", text("b")), ("region", text("r"))]);
    match deserialize_snapshot_path(&v).unwrap() {
        SnapshotStorage::S3(cfg) => {
            assert_eq!(cfg.bucket(), "b");
            assert_eq!(cfg.region(), "r");
        }
        SnapshotStorage::LocalPath(_) => panic!("a map decoded to a local path"),
    }
}

#[test]
fn key_order_does_not_matter() {
    let v = map(vec![("region", text("eu-west-1")), ("bucket", text("my-bucket"))]);
    assert_eq!(deserialize_snapshot_path(&v), Ok(remote("my-bucket", "eu-west-1")));
}

#[test]
fn empty_bucket_and_region_are_accepted() {
    let v = map(vec![("bucket", text("")), ("region", text(""))]);
    assert_eq!(deserialize_snapshot_path(&v), Ok(remote("", "")));
}

#[test]
fn extra_key_is_unknown_field() {
    let v = map(vec![("bucket", text("b")), ("region", text("r")), ("extra", text("x"))]);
    assert_eq!(
        deserialize_snapshot_path(&v),
        Err(DecodeError::UnknownField("extra".to_string()))
    );
}

#[test]
fn extra_key_is_unknown_field_whatever_its_value() {
    let values = vec![
        ConfigValue::Number,
        ConfigValue::Bool(true),
        ConfigValue::Null,
        ConfigValue::List(vec![text("a")]),
        map(vec![("bucket", text("b"))]),
    ];
    for x in values {
        let v = map(vec![("bucket", text("b")), ("region", text("r")), ("extra", x)]);
        assert_eq!(
            deserialize_snapshot_path(&v),
            Err(DecodeError::UnknownField("extra".to_string()))
        );
    }
}

#[test]
fn unknown_key_is_reported_before_missing_fields() {
    let v = map(vec![("endpoint", text("x"))]);
    assert_eq!(
        deserialize_snapshot_path(&v),
        Err(DecodeError::UnknownField("endpoint".to_string()))
    );
}

#[test]
fn keys_match_case_sensitively() {
    let v = map(vec![("Bucket", text("b")), ("region", text("r"))]);
    assert_eq!(
        deserialize_snapshot_path(&v),
        Err(DecodeError::UnknownField("Bucket".to_string()))
    );
    let v = map(vec![("bucket", text("b")), ("REGION", text("r"))]);
    assert_eq!(
        deserialize_snapshot_path(&v),
        Err(DecodeError::UnknownField("REGION".to_string()))
    );
}

#[test]
fn keys_are_not_trimmed() {
    let v = map(vec![("bucket ", text("b")), ("region", text("r"))]);
    assert_eq!(
        deserialize_snapshot_path(&v),
        Err(DecodeError::UnknownField("bucket ".to_string()))
    );
}

#[test]
fn region_alone_misses_bucket() {
    let v = map(vec![("region", text("r"))]);
    assert_eq!(deserialize_snapshot_path(&v), Err(DecodeError::MissingField("bucket")));
}

#[test]
fn bucket_alone_misses_region() {
    let v = map(vec![("bucket", text("b"))]);
    assert_eq!(deserialize_snapshot_path(&v), Err(DecodeError::MissingField("region")));
}

#[test]
fn empty_map_misses_bucket_first() {
    let v = map(vec![]);
    assert_eq!(deserialize_snapshot_path(&v), Err(DecodeError::MissingField("bucket")));
}

#[test]
fn list_is_type_mismatch() {
    let v = ConfigValue::List(vec![text("a"), text("b")]);
    assert_eq!(deserialize_snapshot_path(&v), Err(DecodeError::TypeMismatch));
}

#[test]
fn number_bool_and_null_are_type_mismatch() {
    assert_eq!(deserialize_snapshot_path(&ConfigValue::Number), Err(DecodeError::TypeMismatch));
    assert_eq!(deserialize_snapshot_path(&ConfigValue::Bool(false)), Err(DecodeError::TypeMismatch));
    assert_eq!(deserialize_snapshot_path(&ConfigValue::Null), Err(DecodeError::TypeMismatch));
    assert_eq!(deserialize_snapshot_path(&ConfigValue::List(vec![])), Err(DecodeError::TypeMismatch));
}

#[test]
fn duplicate_bucket_last_write_wins() {
    let v = map(vec![("bucket", text("b1")), ("bucket", text("b2")), ("region", text("r"))]);
    assert_eq!(deserialize_snapshot_path(&v), Ok(remote("b2", "r")));
}

#[test]
fn duplicate_region_last_write_wins() {
    let v = map(vec![
        ("region", text("r1")),
        ("bucket", text("b")),
        ("region", text("r2")),
        ("region", text("r3")),
    ]);
    assert_eq!(deserialize_snapshot_path(&v), Ok(remote("b", "r3")));
}

#[test]
fn non_string_value_is_value_type_error() {
    let v = map(vec![("bucket", ConfigValue::Number), ("region", text("r"))]);
    assert_eq!(deserialize_snapshot_path(&v), Err(DecodeError::ValueTypeError));
    let v = map(vec![("bucket", text("b")), ("region", ConfigValue::List(vec![text("r")]))]);
    assert_eq!(deserialize_snapshot_path(&v), Err(DecodeError::ValueTypeError));
}

#[test]
fn non_string_value_is_not_healed_by_a_later_pair() {
    let v = map(vec![
        ("bucket", ConfigValue::Null),
        ("bucket", text("b")),
        ("region", text("r")),
    ]);
    assert_eq!(deserialize_snapshot_path(&v), Err(DecodeError::ValueTypeError));
}

#[test]
fn first_faulty_pair_decides() {
    let v = map(vec![("bucket", ConfigValue::Bool(true)), ("extra", text("x"))]);
    assert_eq!(deserialize_snapshot_path(&v), Err(DecodeError::ValueTypeError));
    let v = map(vec![("extra", text("x")), ("bucket", ConfigValue::Bool(true))]);
    assert_eq!(
        deserialize_snapshot_path(&v),
        Err(DecodeError::UnknownField("extra".to_string()))
    );
    let v = map(vec![("one", text("x")), ("two", text("y"))]);
    assert_eq!(deserialize_snapshot_path(&v), Err(DecodeError::UnknownField("one".to_string())));
}

#[test]
fn decode_pairs_gives_the_remote_store() {
    let pairs = vec![
        ("region".to_string(), text("r")),
        ("bucket".to_string(), text("b")),
    ];
    assert_eq!(decode_pairs(&pairs), Ok(S3Config::new("b".to_string(), "r".to_string())));
    assert_eq!(decode_pairs(&Vec::new()), Err(DecodeError::MissingField("bucket")));
}

#[test]
fn decoding_is_idempotent() {
    let inputs = vec![
        text("/data/snaps"),
        text(""),
        map(vec![("bucket", text("b")), ("region", text("r"))]),
        map(vec![("region", text("r")), ("bucket", text("b1")), ("bucket", text("b2"))]),
    ];
    for v in inputs {
        let first = deserialize_snapshot_path(&v).unwrap();
        let second = deserialize_snapshot_path(&first.to_value()).unwrap();
        assert_eq!(first, second);
    }
}

#[test]
fn to_value_writes_string_or_map() {
    assert_eq!(local("/p").to_value(), text("/p"));
    assert_eq!(
        remote("b", "r").to_value(),
        map(vec![("bucket", text("b")), ("region", text("r"))])
    );
}
