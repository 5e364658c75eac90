//! The decoder as a mathematical function of what it reads.

use vstd::prelude::*;
use crate::error::DecodeErrorView;
use crate::value::{Entry, Shape};

verus! {

/// A decoded storage location with its strings as sequences of characters.
pub enum StorageView {
    /// A local directory.
    LocalPath { path: Seq<char> },
    /// A remote object store.
    RemoteObjectStore { bucket: Seq<char>, region: Seq<char> },
}

/// The key that names the bucket.
pub open spec fn bucket_key() -> Seq<char> {
    "bucket"@
}

/// The key that names the region.
pub open spec fn region_key() -> Seq<char> {
    "region"@
}

/// Whether a key is one of the recognized keys. The match is exact, so it
/// distinguishes upper and lower case.
pub open spec fn is_recognized(key: Seq<char>) -> bool {
    key == bucket_key() || key == region_key()
}

/// The error that one pair raises by itself: an unrecognized key, or a
/// recognized key whose value is not a string.
pub open spec fn entry_error(entry: Entry) -> Option<DecodeErrorView> {
    if !is_recognized(entry.key) {
        Some(DecodeErrorView::UnknownField(entry.key))
    } else if entry.text is None {
        Some(DecodeErrorView::ValueTypeError)
    } else {
        None
    }
}

/// The error of the first pair that raises one, in source order.
pub open spec fn scan_error(entries: Seq<Entry>) -> Option<DecodeErrorView>
    decreases entries.len(),
{
    if entries.len() == 0 {
        None
    } else {
        match scan_error(entries.drop_last()) {
            Some(e) => Some(e),
            None => entry_error(entries.last()),
        }
    }
}

/// The text under the last pair with the given key, if any pair has it.
pub open spec fn last_text(entries: Seq<Entry>, key: Seq<char>) -> Option<Seq<char>>
    decreases entries.len(),
{
    if entries.len() == 0 {
        None
    } else if entries.last().key == key {
        entries.last().text
    } else {
        last_text(entries.drop_last(), key)
    }
}

/// What the pairs of a map decode to.
pub open spec fn decode_entries(entries: Seq<Entry>) -> Result<StorageView, DecodeErrorView> {
    match scan_error(entries) {
        Some(e) => Err(e),
        None => match last_text(entries, bucket_key()) {
            None => Err(DecodeErrorView::MissingField(bucket_key())),
            Some(bucket) => match last_text(entries, region_key()) {
                None => Err(DecodeErrorView::MissingField(region_key())),
                Some(region) => Ok(StorageView::RemoteObjectStore { bucket, region }),
            },
        },
    }
}

/// What a configuration value decodes to.
pub open spec fn decode(shape: Shape) -> Result<StorageView, DecodeErrorView> {
    match shape {
        Shape::Scalar(path) => Ok(StorageView::LocalPath { path }),
        Shape::Assoc(entries) => decode_entries(entries),
        Shape::Other => Err(DecodeErrorView::TypeMismatch),
    }
}

/// The two recognized keys are different keys.
pub proof fn lemma_keys_differ()
    ensures
        bucket_key() != region_key(),
{
    reveal_strlit("bucket");
    reveal_strlit("region");
    assert(bucket_key()[0] == 'b');
    assert(region_key()[0] == 'r');
}

/// An error among the first pairs of a map is the error of the whole map.
pub proof fn lemma_rejected_prefix(entries: Seq<Entry>, n: int)
    requires
        0 <= n <= entries.len(),
        scan_error(entries.take(n)) is Some,
    ensures
        scan_error(entries) == scan_error(entries.take(n)),
    decreases entries.len() - n,
{
    if n < entries.len() {
        assert(entries.take(n + 1).drop_last() == entries.take(n));
        lemma_rejected_prefix(entries, n + 1);
    } else {
        assert(entries.take(n) == entries);
    }
}

/// What one more pair at the end of a map does to its error and to the
/// texts found under the two keys.
pub proof fn lemma_push(entries: Seq<Entry>, entry: Entry, key: Seq<char>)
    ensures
        scan_error(entries.push(entry)) == (match scan_error(entries) {
            Some(e) => Some(e),
            None => entry_error(entry),
        }),
        last_text(entries.push(entry), key) == (if entry.key == key {
            entry.text
        } else {
            last_text(entries, key)
        }),
{
    assert(entries.push(entry).drop_last() == entries);
    assert(entries.push(entry).last() == entry);
}

/// A map is free of errors exactly when each of its pairs is.
pub proof fn lemma_no_error_iff_each_pair_fine(entries: Seq<Entry>)
    ensures
        scan_error(entries) is None <==> (forall|i: int|
            0 <= i < entries.len() ==> (#[trigger] entry_error(entries[i])) is None),
    decreases entries.len(),
{
    if entries.len() > 0 {
        let front = entries.drop_last();
        lemma_no_error_iff_each_pair_fine(front);
        if scan_error(entries) is None {
            assert forall|i: int| 0 <= i < entries.len() implies (#[trigger] entry_error(
                entries[i],
            )) is None by {
                if i < front.len() {
                    assert(entries[i] == front[i]);
                }
            }
        } else if scan_error(front) is Some {
            let j = choose|j: int| 0 <= j < front.len() && entry_error(front[j]) is Some;
            assert(entries[j] == front[j]);
        }
    }
}

/// The error of a map is the error of its first faulty pair.
pub proof fn lemma_error_is_first(entries: Seq<Entry>, i: int)
    requires
        0 <= i < entries.len(),
        entry_error(entries[i]) is Some,
        forall|j: int| 0 <= j < i ==> (#[trigger] entry_error(entries[j])) is None,
    ensures
        scan_error(entries) == entry_error(entries[i]),
{
    let front = entries.take(i);
    assert forall|j: int| 0 <= j < front.len() implies (#[trigger] entry_error(front[j])) is None by {
        assert(front[j] == entries[j]);
    }
    lemma_no_error_iff_each_pair_fine(front);
    assert(entries.take(i + 1).drop_last() == front);
    assert(entries.take(i + 1).last() == entries[i]);
    lemma_rejected_prefix(entries, i + 1);
}

/// The text found under a key is that of the last pair with the key; no
/// text is found exactly when no pair has the key or the last such pair
/// holds no string.
pub proof fn lemma_last_text_is_last_occurrence(entries: Seq<Entry>, key: Seq<char>, i: int)
    requires
        0 <= i < entries.len(),
        entries[i].key == key,
        forall|j: int| i < j < entries.len() ==> (#[trigger] entries[j]).key != key,
    ensures
        last_text(entries, key) == entries[i].text,
    decreases entries.len(),
{
    if i < entries.len() - 1 {
        let front = entries.drop_last();
        assert(entries[entries.len() - 1].key != key);
        assert(front[i] == entries[i]);
        assert forall|j: int| i < j < front.len() implies (#[trigger] front[j]).key != key by {
            assert(front[j] == entries[j]);
        }
        lemma_last_text_is_last_occurrence(front, key, i);
    }
}

/// No text is found under a key that no pair has.
pub proof fn lemma_last_text_absent(entries: Seq<Entry>, key: Seq<char>)
    requires
        forall|j: int| 0 <= j < entries.len() ==> (#[trigger] entries[j]).key != key,
    ensures
        last_text(entries, key) is None,
    decreases entries.len(),
{
    if entries.len() > 0 {
        let front = entries.drop_last();
        assert(entries[entries.len() - 1].key != key);
        assert forall|j: int| 0 <= j < front.len() implies (#[trigger] front[j]).key != key by {
            assert(front[j] == entries[j]);
        }
        lemma_last_text_absent(front, key);
    }
}

} // verus!
