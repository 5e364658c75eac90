//! The storage location types and the decoder.

use vstd::prelude::*;
use crate::error::{DecodeError, DecodeErrorView};
use crate::laws::{bucket_entry, encode, law_decode_of_encode, region_entry};
use crate::model::{
    bucket_key, decode, decode_entries, is_recognized, last_text, lemma_keys_differ,
    lemma_push, lemma_rejected_prefix, region_key, scan_error, StorageView,
};
use crate::value::{entries_of, ConfigValue, Entry};

verus! {

/// A remote object store: a bucket in a region.
#[derive(Debug, Clone, PartialEq, Eq)]
pub struct S3Config {
    bucket: String,
    region: String,
}

impl S3Config {
    /// The text of the bucket's name.
    pub closed spec fn bucket_view(&self) -> Seq<char> {
        self.bucket@
    }

    /// The text of the region's name.
    pub closed spec fn region_view(&self) -> Seq<char> {
        self.region@
    }

    /// A remote object store with the given bucket and region, kept as they are.
    pub fn new(bucket: String, region: String) -> (r: Self)
        ensures
            r.bucket_view() == bucket@,
            r.region_view() == region@,
    {
        Self { bucket, region }
    }

    /// The bucket's name.
    pub fn bucket(&self) -> (r: &str)
        ensures
            r@ == self.bucket_view(),
    {
        self.bucket.as_str()
    }

    /// The region's name.
    pub fn region(&self) -> (r: &str)
        ensures
            r@ == self.region_view(),
    {
        self.region.as_str()
    }
}

/// A directory of the local file system.
#[derive(Debug, Clone, PartialEq, Eq)]
pub struct LocalPath {
    snapshots_path: String,
}

impl LocalPath {
    /// The text of the path.
    pub closed spec fn path_view(&self) -> Seq<char> {
        self.snapshots_path@
    }

    /// A local path with the given text, kept as it is.
    pub fn new(snapshots_path: String) -> (r: Self)
        ensures
            r.path_view() == snapshots_path@,
    {
        Self { snapshots_path }
    }

    /// The path.
    pub fn path(&self) -> (r: &str)
        ensures
            r@ == self.path_view(),
    {
        self.snapshots_path.as_str()
    }
}

/// Where snapshots are stored.
#[derive(Debug, Clone, PartialEq, Eq)]
pub enum SnapshotStorage {
    /// In a directory of the local file system.
    LocalPath(LocalPath),
    /// In a remote object store.
    S3(S3Config),
}

impl View for SnapshotStorage {
    type V = StorageView;

    open spec fn view(&self) -> StorageView {
        match self {
            SnapshotStorage::LocalPath(local) => StorageView::LocalPath { path: local.path_view() },
            SnapshotStorage::S3(remote) => StorageView::RemoteObjectStore {
                bucket: remote.bucket_view(),
                region: remote.region_view(),
            },
        }
    }
}

/// The outcome of a decode with its strings as sequences of characters.
pub open spec fn outcome_view(r: Result<SnapshotStorage, DecodeError>) -> Result<
    StorageView,
    DecodeErrorView,
> {
    match r {
        Ok(storage) => Ok(storage@),
        Err(e) => Err(e@),
    }
}

/// The outcome of decoding a map with its strings as sequences of
/// characters.
pub open spec fn remote_outcome_view(r: Result<S3Config, DecodeError>) -> Result<
    StorageView,
    DecodeErrorView,
> {
    match r {
        Ok(remote) => Ok(
            StorageView::RemoteObjectStore {
                bucket: remote.bucket_view(),
                region: remote.region_view(),
            },
        ),
        Err(e) => Err(e@),
    }
}

/// One of the two recognized keys of a map.
#[derive(Debug, Clone, Copy, PartialEq, Eq)]
pub enum Field {
    Bucket,
    Region,
}

impl Field {
    /// The key as it is written in a map.
    pub open spec fn key(&self) -> Seq<char> {
        match self {
            Field::Bucket => bucket_key(),
            Field::Region => region_key(),
        }
    }

    /// The key as it is written in a map.
    pub fn name(&self) -> (r: &'static str)
        ensures
            r@ == self.key(),
    {
        match self {
            Field::Bucket => "bucket",
            Field::Region => "region",
        }
    }
}

/// Decides what a key of a map asks for: the field that its value belongs
/// to, or the rejection of the map where the key is not recognized.
pub fn classify(key: &str) -> (r: Result<Field, DecodeError>)
    ensures
        match r {
            Ok(field) => field.key() == key@,
            Err(e) => !is_recognized(key@) && e@ == DecodeErrorView::UnknownField(key@),
        },
{
    let text = key.to_owned();
    if text == Field::Bucket.name().to_owned() {
        Ok(Field::Bucket)
    } else if text == Field::Region.name().to_owned() {
        Ok(Field::Region)
    } else {
        Err(DecodeError::UnknownField(text))
    }
}

/// The texts recorded so far while the pairs of a map are consumed.
#[derive(Debug, Clone, PartialEq, Eq)]
pub struct FieldScan {
    bucket: Option<String>,
    region: Option<String>,
}

impl FieldScan {
    /// The text recorded for the bucket, if any.
    pub closed spec fn bucket_view(&self) -> Option<Seq<char>> {
        match self.bucket {
            Some(text) => Some(text@),
            None => None,
        }
    }

    /// The text recorded for the region, if any.
    pub closed spec fn region_view(&self) -> Option<Seq<char>> {
        match self.region {
            Some(text) => Some(text@),
            None => None,
        }
    }

    /// Whether the scan stands where it does after the given pairs, none of
    /// which raised an error.
    pub open spec fn stands_after(&self, entries: Seq<Entry>) -> bool {
        &&& scan_error(entries) is None
        &&& self.bucket_view() == last_text(entries, bucket_key())
        &&& self.region_view() == last_text(entries, region_key())
    }

    /// The scan before any pair.
    pub fn new() -> (r: Self)
        ensures
            r.bucket_view() is None,
            r.region_view() is None,
            r.stands_after(Seq::empty()),
    {
        Self { bucket: None, region: None }
    }

    /// Records the text under a recognized key. A text recorded earlier for
    /// the same field is replaced.
    pub fn record(&mut self, field: Field, text: String)
        ensures
            final(self).bucket_view() == (if field == Field::Bucket {
                Some(text@)
            } else {
                old(self).bucket_view()
            }),
            final(self).region_view() == (if field == Field::Region {
                Some(text@)
            } else {
                old(self).region_view()
            }),
            forall|entries: Seq<Entry>| #[trigger]
                old(self).stands_after(entries) ==> final(self).stands_after(
                    entries.push(Entry { key: field.key(), text: Some(text@) }),
                ),
    {
        match field {
            Field::Bucket => {
                self.bucket = Some(text);
            },
            Field::Region => {
                self.region = Some(text);
            },
        }
        proof {
            lemma_keys_differ();
            let entry = Entry { key: field.key(), text: Some(text@) };
            assert forall|entries: Seq<Entry>| #[trigger]
                old(self).stands_after(entries) implies self.stands_after(
                entries.push(entry),
            ) by {
                lemma_push(entries, entry, bucket_key());
                lemma_push(entries, entry, region_key());
            }
        }
    }

    /// Ends the scan: the remote object store where both fields were
    /// recorded, else the first missing field, the bucket before the region.
    pub fn finish(self) -> (r: Result<S3Config, DecodeError>)
        ensures
            match r {
                Ok(remote) => self.bucket_view() == Some(remote.bucket_view())
                    && self.region_view() == Some(remote.region_view()),
                Err(e) => if self.bucket_view() is None {
                    e@ == DecodeErrorView::MissingField(bucket_key())
                } else {
                    self.region_view() is None && e@ == DecodeErrorView::MissingField(
                        region_key(),
                    )
                },
            },
            forall|entries: Seq<Entry>| #[trigger]
                self.stands_after(entries) ==> remote_outcome_view(r) == decode_entries(entries),
    {
        match self.bucket {
            None => Err(DecodeError::MissingField(Field::Bucket.name())),
            Some(bucket) => match self.region {
                None => Err(DecodeError::MissingField(Field::Region.name())),
                Some(region) => Ok(S3Config::new(bucket, region)),
            },
        }
    }
}

/// Decodes the pairs of a map, in source order: the first pair with an
/// unrecognized key or with a value that is not a string rejects the map;
/// of several pairs with one key the last one counts; then both fields
/// must be there.
pub fn decode_pairs(pairs: &Vec<(String, ConfigValue)>) -> (r: Result<S3Config, DecodeError>)
    ensures
        remote_outcome_view(r) == decode_entries(entries_of(pairs@)),
{
    let ghost entries = entries_of(pairs@);
    let mut scan = FieldScan::new();
    let mut i: usize = 0;
    while i < pairs.len()
        invariant
            i <= pairs.len(),
            entries == entries_of(pairs@),
            scan.stands_after(entries.take(i as int)),
        decreases pairs.len() - i,
    {
        let pair = &pairs[i];
        proof {
            assert(entries.take(i + 1) == entries.take(i as int).push(entries[i as int]));
            lemma_push(entries.take(i as int), entries[i as int], bucket_key());
        }
        match classify(pair.0.as_str()) {
            Err(e) => {
                proof {
                    lemma_rejected_prefix(entries, i + 1);
                }
                return Err(e);
            },
            Ok(field) => match &pair.1 {
                ConfigValue::Str(text) => {
                    scan.record(field, text.clone());
                },
                _ => {
                    proof {
                        lemma_rejected_prefix(entries, i + 1);
                    }
                    return Err(DecodeError::ValueTypeError);
                },
            },
        }
        i += 1;
    }
    proof {
        assert(entries.take(i as int) == entries);
    }
    scan.finish()
}

/// Decodes the snapshot storage setting from a configuration value.
///
/// A string is a local path and is taken as it is. A map is a remote object
/// store and is decoded pair by pair. Every other value is rejected.
pub fn deserialize_snapshot_path(value: &ConfigValue) -> (r: Result<SnapshotStorage, DecodeError>)
    ensures
        outcome_view(r) == decode(value@),
{
    match value {
        ConfigValue::Str(path) => Ok(SnapshotStorage::LocalPath(LocalPath::new(path.clone()))),
        ConfigValue::Mapping(pairs) => match decode_pairs(pairs) {
            Ok(remote) => Ok(SnapshotStorage::S3(remote)),
            Err(e) => Err(e),
        },
        _ => Err(DecodeError::TypeMismatch),
    }
}

impl SnapshotStorage {
    /// The configuration value that this location is written as: a string
    /// for a local path, a map of bucket and region for a remote object
    /// store. Decoding it gives the location back.
    pub fn to_value(&self) -> (r: ConfigValue)
        ensures
            r@ == encode(self@),
            decode(r@) == Ok::<StorageView, DecodeErrorView>(self@),
    {
        proof {
            law_decode_of_encode(self@);
        }
        match self {
            SnapshotStorage::LocalPath(local) => ConfigValue::Str(local.snapshots_path.clone()),
            SnapshotStorage::S3(remote) => {
                let mut pairs: Vec<(String, ConfigValue)> = Vec::new();
                pairs.push((Field::Bucket.name().to_owned(), ConfigValue::Str(remote.bucket.clone())));
                pairs.push((Field::Region.name().to_owned(), ConfigValue::Str(remote.region.clone())));
                assert(entries_of(pairs@) == seq![
                    bucket_entry(remote.bucket_view()),
                    region_entry(remote.region_view()),
                ]);
                ConfigValue::Mapping(pairs)
            },
        }
    }
}

} // verus!
