//! Laws of the decoder, each stated over what a configuration value decodes
//! to and proved for every input.

use vstd::prelude::*;
use crate::error::DecodeErrorView;
use crate::model::{
    bucket_key, decode, decode_entries, entry_error, is_recognized, last_text,
    lemma_error_is_first, lemma_keys_differ, lemma_last_text_absent,
    lemma_last_text_is_last_occurrence, lemma_no_error_iff_each_pair_fine, lemma_push,
    region_key, scan_error, StorageView,
};
use crate::value::{Entry, Shape};

verus! {

/// A pair that holds a string under the bucket key.
pub open spec fn bucket_entry(text: Seq<char>) -> Entry {
    Entry { key: bucket_key(), text: Some(text) }
}

/// A pair that holds a string under the region key.
pub open spec fn region_entry(text: Seq<char>) -> Entry {
    Entry { key: region_key(), text: Some(text) }
}

/// The configuration value that a storage location is written as: a string
/// for a local path, a map of bucket and region for a remote object store.
pub open spec fn encode(storage: StorageView) -> Shape {
    match storage {
        StorageView::LocalPath { path } => Shape::Scalar(path),
        StorageView::RemoteObjectStore { bucket, region } => Shape::Assoc(
            seq![bucket_entry(bucket), region_entry(region)],
        ),
    }
}

/// A string decodes to the local path with the same text, whatever the text
/// is, the empty text included.
pub proof fn law_string_is_local_path(text: Seq<char>)
    ensures
        decode(Shape::Scalar(text)) == Ok::<StorageView, DecodeErrorView>(
            StorageView::LocalPath { path: text },
        ),
{
}

/// A value that is neither a string nor a map is rejected as a type
/// mismatch.
pub proof fn law_other_shape_is_type_mismatch()
    ensures
        decode(Shape::Other) == Err::<StorageView, DecodeErrorView>(
            DecodeErrorView::TypeMismatch,
        ),
{
}

/// A map of one bucket and one region, in either order, decodes to the
/// remote object store with that bucket and region.
pub proof fn law_bucket_and_region(bucket: Seq<char>, region: Seq<char>)
    ensures
        decode(Shape::Assoc(seq![bucket_entry(bucket), region_entry(region)])) == Ok::<
            StorageView,
            DecodeErrorView,
        >(StorageView::RemoteObjectStore { bucket, region }),
        decode(Shape::Assoc(seq![region_entry(region), bucket_entry(bucket)])) == Ok::<
            StorageView,
            DecodeErrorView,
        >(StorageView::RemoteObjectStore { bucket, region }),
{
    lemma_keys_differ();
    let none = Seq::<Entry>::empty();
    let b = bucket_entry(bucket);
    let r = region_entry(region);
    lemma_push(none, b, bucket_key());
    lemma_push(none, b, region_key());
    lemma_push(none.push(b), r, bucket_key());
    lemma_push(none.push(b), r, region_key());
    assert(seq![b, r] == none.push(b).push(r));
    lemma_push(none, r, bucket_key());
    lemma_push(none, r, region_key());
    lemma_push(none.push(r), b, bucket_key());
    lemma_push(none.push(r), b, region_key());
    assert(seq![r, b] == none.push(r).push(b));
}

/// A map in which every key is recognized and every value is a string
/// decodes by the last pair of each key: to the remote object store of the
/// last bucket and the last region.
pub proof fn law_last_pair_wins(entries: Seq<Entry>, b: int, r: int)
    requires
        forall|i: int| 0 <= i < entries.len() ==> (#[trigger] entry_error(entries[i])) is None,
        0 <= b < entries.len(),
        entries[b].key == bucket_key(),
        forall|j: int| b < j < entries.len() ==> (#[trigger] entries[j]).key != bucket_key(),
        0 <= r < entries.len(),
        entries[r].key == region_key(),
        forall|j: int| r < j < entries.len() ==> (#[trigger] entries[j]).key != region_key(),
    ensures
        decode(Shape::Assoc(entries)) == Ok::<StorageView, DecodeErrorView>(
            StorageView::RemoteObjectStore {
                bucket: entries[b].text->0,
                region: entries[r].text->0,
            },
        ),
{
    lemma_no_error_iff_each_pair_fine(entries);
    lemma_last_text_is_last_occurrence(entries, bucket_key(), b);
    lemma_last_text_is_last_occurrence(entries, region_key(), r);
    assert(entry_error(entries[b]) is None);
    assert(entry_error(entries[r]) is None);
}

/// Of two buckets in one map the later one is kept.
pub proof fn law_later_bucket_replaces_earlier(
    first: Seq<char>,
    second: Seq<char>,
    region: Seq<char>,
)
    ensures
        decode(
            Shape::Assoc(seq![bucket_entry(first), bucket_entry(second), region_entry(region)]),
        ) == Ok::<StorageView, DecodeErrorView>(
            StorageView::RemoteObjectStore { bucket: second, region },
        ),
{
    lemma_keys_differ();
    let entries = seq![bucket_entry(first), bucket_entry(second), region_entry(region)];
    assert(entry_error(entries[0]) is None);
    assert(entry_error(entries[1]) is None);
    assert(entry_error(entries[2]) is None);
    law_last_pair_wins(entries, 1, 2);
}

/// A map whose first faulty pair has an unrecognized key is rejected with
/// that key as an unknown field, whatever the key's value is and whatever
/// follows.
pub proof fn law_unknown_key_is_rejected(entries: Seq<Entry>, i: int)
    requires
        0 <= i < entries.len(),
        !is_recognized(entries[i].key),
        forall|j: int| 0 <= j < i ==> (#[trigger] entry_error(entries[j])) is None,
    ensures
        decode(Shape::Assoc(entries)) == Err::<StorageView, DecodeErrorView>(
            DecodeErrorView::UnknownField(entries[i].key),
        ),
{
    lemma_error_is_first(entries, i);
}

/// A map whose first faulty pair holds a value that is not a string under a
/// recognized key is rejected with a value type error.
pub proof fn law_non_string_value_is_rejected(entries: Seq<Entry>, i: int)
    requires
        0 <= i < entries.len(),
        is_recognized(entries[i].key),
        entries[i].text is None,
        forall|j: int| 0 <= j < i ==> (#[trigger] entry_error(entries[j])) is None,
    ensures
        decode(Shape::Assoc(entries)) == Err::<StorageView, DecodeErrorView>(
            DecodeErrorView::ValueTypeError,
        ),
{
    lemma_error_is_first(entries, i);
}

/// A bucket, a region and a third pair under the key `extra`: the map is
/// rejected with `extra` as an unknown field, whatever the third value is.
pub proof fn law_extra_key_is_unknown_field(
    bucket: Seq<char>,
    region: Seq<char>,
    text: Option<Seq<char>>,
)
    ensures
        decode(
            Shape::Assoc(
                seq![bucket_entry(bucket), region_entry(region), Entry { key: "extra"@, text }],
            ),
        ) == Err::<StorageView, DecodeErrorView>(DecodeErrorView::UnknownField("extra"@)),
{
    lemma_keys_differ();
    reveal_strlit("bucket");
    reveal_strlit("region");
    reveal_strlit("extra");
    assert("extra"@.len() == 5 && bucket_key().len() == 6 && region_key().len() == 6);
    let entries = seq![bucket_entry(bucket), region_entry(region), Entry { key: "extra"@, text }];
    assert(entry_error(entries[0]) is None);
    assert(entry_error(entries[1]) is None);
    assert(!is_recognized(entries[2].key));
    law_unknown_key_is_rejected(entries, 2);
}

/// A map free of faulty pairs that holds no bucket is rejected with the
/// bucket as the missing field, whether or not it holds a region.
pub proof fn law_missing_bucket(entries: Seq<Entry>)
    requires
        forall|i: int| 0 <= i < entries.len() ==> (#[trigger] entry_error(entries[i])) is None,
        forall|i: int| 0 <= i < entries.len() ==> (#[trigger] entries[i]).key != bucket_key(),
    ensures
        decode(Shape::Assoc(entries)) == Err::<StorageView, DecodeErrorView>(
            DecodeErrorView::MissingField(bucket_key()),
        ),
{
    lemma_no_error_iff_each_pair_fine(entries);
    lemma_last_text_absent(entries, bucket_key());
}

/// A map free of faulty pairs that holds a bucket and no region is rejected
/// with the region as the missing field.
pub proof fn law_missing_region(entries: Seq<Entry>, b: int)
    requires
        forall|i: int| 0 <= i < entries.len() ==> (#[trigger] entry_error(entries[i])) is None,
        0 <= b < entries.len(),
        entries[b].key == bucket_key(),
        forall|i: int| 0 <= i < entries.len() ==> (#[trigger] entries[i]).key != region_key(),
    ensures
        decode(Shape::Assoc(entries)) == Err::<StorageView, DecodeErrorView>(
            DecodeErrorView::MissingField(region_key()),
        ),
{
    lemma_no_error_iff_each_pair_fine(entries);
    lemma_last_text_absent(entries, region_key());
    lemma_text_found(entries, bucket_key(), b);
}

/// In a map free of faulty pairs a text is found under each recognized key
/// that some pair has.
pub proof fn lemma_text_found(entries: Seq<Entry>, key: Seq<char>, at: int)
    requires
        forall|i: int| 0 <= i < entries.len() ==> (#[trigger] entry_error(entries[i])) is None,
        0 <= at < entries.len(),
        entries[at].key == key,
    ensures
        last_text(entries, key) is Some,
    decreases entries.len(),
{
    let last = entries.len() - 1;
    assert(entry_error(entries[last]) is None);
    if entries[last].key != key {
        let front = entries.drop_last();
        assert forall|i: int| 0 <= i < front.len() implies (#[trigger] entry_error(
            front[i],
        )) is None by {
            assert(front[i] == entries[i]);
        }
        assert(front[at] == entries[at]);
        lemma_text_found(front, key, at);
    }
}

/// A map is accepted exactly when none of its pairs is faulty and both a
/// bucket and a region are among them, wherever they stand.
pub proof fn law_accepted_exactly_when(entries: Seq<Entry>)
    ensures
        decode(Shape::Assoc(entries)) is Ok <==> {
            &&& forall|i: int|
                0 <= i < entries.len() ==> (#[trigger] entry_error(entries[i])) is None
            &&& exists|i: int|
                0 <= i < entries.len() && (#[trigger] entries[i]).key == bucket_key()
            &&& exists|i: int|
                0 <= i < entries.len() && (#[trigger] entries[i]).key == region_key()
        },
{
    lemma_no_error_iff_each_pair_fine(entries);
    if scan_error(entries) is None {
        if exists|i: int| 0 <= i < entries.len() && (#[trigger] entries[i]).key == bucket_key() {
            let i = choose|i: int|
                0 <= i < entries.len() && (#[trigger] entries[i]).key == bucket_key();
            lemma_text_found(entries, bucket_key(), i);
        } else {
            lemma_last_text_absent(entries, bucket_key());
        }
        if exists|i: int| 0 <= i < entries.len() && (#[trigger] entries[i]).key == region_key() {
            let i = choose|i: int|
                0 <= i < entries.len() && (#[trigger] entries[i]).key == region_key();
            lemma_text_found(entries, region_key(), i);
        } else {
            lemma_last_text_absent(entries, region_key());
        }
    }
}

/// A map of a region alone is rejected with the bucket as the missing
/// field.
pub proof fn law_region_alone(region: Seq<char>)
    ensures
        decode(Shape::Assoc(seq![region_entry(region)])) == Err::<StorageView, DecodeErrorView>(
            DecodeErrorView::MissingField(bucket_key()),
        ),
{
    lemma_keys_differ();
    let entries = seq![region_entry(region)];
    assert(entry_error(entries[0]) is None);
    law_missing_bucket(entries);
}

/// A map of a bucket alone is rejected with the region as the missing
/// field.
pub proof fn law_bucket_alone(bucket: Seq<char>)
    ensures
        decode(Shape::Assoc(seq![bucket_entry(bucket)])) == Err::<StorageView, DecodeErrorView>(
            DecodeErrorView::MissingField(region_key()),
        ),
{
    lemma_keys_differ();
    let entries = seq![bucket_entry(bucket)];
    assert(entry_error(entries[0]) is None);
    law_missing_region(entries, 0);
}

/// The empty map is rejected with the bucket as the missing field: the
/// bucket is looked for before the region.
pub proof fn law_empty_map_misses_bucket()
    ensures
        decode(Shape::Assoc(Seq::empty())) == Err::<StorageView, DecodeErrorView>(
            DecodeErrorView::MissingField(bucket_key()),
        ),
{
    law_missing_bucket(Seq::empty());
}

/// A map decodes to a remote object store or is rejected; it never decodes
/// to a local path, and a string never decodes to anything else.
pub proof fn law_one_shape_one_variant(shape: Shape)
    ensures
        shape is Scalar <==> (decode(shape) is Ok && decode(shape)->Ok_0 is LocalPath),
        decode(shape) is Ok && decode(shape)->Ok_0 is RemoteObjectStore ==> shape is Assoc,
        shape is Other ==> decode(shape) is Err,
{
}

/// Decoding what a storage location is written as gives the location back.
pub proof fn law_decode_of_encode(storage: StorageView)
    ensures
        decode(encode(storage)) == Ok::<StorageView, DecodeErrorView>(storage),
{
    match storage {
        StorageView::LocalPath { path } => {},
        StorageView::RemoteObjectStore { bucket, region } => {
            law_bucket_and_region(bucket, region);
        },
    }
}

/// Decoding is idempotent: what a value decodes to, written out again,
/// decodes to the same location.
pub proof fn law_decode_is_idempotent(shape: Shape)
    requires
        decode(shape) is Ok,
    ensures
        decode(encode(decode(shape)->Ok_0)) == decode(shape),
{
    law_decode_of_encode(decode(shape)->Ok_0);
}

/// A map is rejected by its pairs alone: the first faulty pair decides, and
/// only a map free of faulty pairs is asked for its fields.
pub proof fn law_faulty_pair_goes_first(entries: Seq<Entry>)
    ensures
        scan_error(entries) is Some ==> decode_entries(entries) == Err::<
            StorageView,
            DecodeErrorView,
        >(scan_error(entries)->0),
        decode_entries(entries) is Ok ==> (forall|i: int|
            0 <= i < entries.len() ==> (#[trigger] entry_error(entries[i])) is None),
{
    lemma_no_error_iff_each_pair_fine(entries);
}

} // verus!
