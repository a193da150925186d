//! The keys under which the Raft log stands in a sorted key-value store.
//!
//! The store orders keys byte by byte. A log index is stored as eight bytes,
//! the most significant first, so that the order of the keys is the order of
//! the log.

use crate::big_endian::{be_bytes, be_value, bytes_less, lemma_be_order, lemma_be_ranges, put_be};
use crate::big_endian::{get_be, lemma_be_reads_back, lemma_be_writes_back};
use vstd::prelude::*;

verus! {

/// One end of a range of log indices.
#[derive(Debug, Clone, Copy, PartialEq, Eq, Structural)]
pub enum IndexBound {
    Included(u64),
    Excluded(u64),
    Unbounded,
}

/// One end of a range of keys.
#[derive(Debug)]
pub enum KeyBound {
    Included(Vec<u8>),
    Excluded(Vec<u8>),
    Unbounded,
}

/// The key of a log index.
pub open spec fn key_of(index: u64) -> Seq<u8> {
    be_bytes(index as int, 8)
}

/// Whether a log index lies between two bounds.
pub open spec fn index_within(i: u64, lo: IndexBound, hi: IndexBound) -> bool {
    &&& match lo {
        IndexBound::Included(n) => n <= i,
        IndexBound::Excluded(n) => n < i,
        IndexBound::Unbounded => true,
    }
    &&& match hi {
        IndexBound::Included(n) => i <= n,
        IndexBound::Excluded(n) => i < n,
        IndexBound::Unbounded => true,
    }
}

/// Whether a key lies between two bounds, in the order of byte strings.
pub open spec fn key_within(k: Seq<u8>, lo: KeyBound, hi: KeyBound) -> bool {
    &&& match lo {
        KeyBound::Included(n) => k == n@ || bytes_less(n@, k),
        KeyBound::Excluded(n) => bytes_less(n@, k),
        KeyBound::Unbounded => true,
    }
    &&& match hi {
        KeyBound::Included(n) => k == n@ || bytes_less(k, n@),
        KeyBound::Excluded(n) => bytes_less(k, n@),
        KeyBound::Unbounded => true,
    }
}

/// Whether a bound on keys is the key of a bound on indices.
pub open spec fn is_key_bound(k: KeyBound, b: IndexBound) -> bool {
    match b {
        IndexBound::Included(n) => k matches KeyBound::Included(s) && s@ == key_of(n),
        IndexBound::Excluded(n) => k matches KeyBound::Excluded(s) && s@ == key_of(n),
        IndexBound::Unbounded => k is Unbounded,
    }
}

/// The key of a log index: eight bytes, the most significant first.
pub fn idx_key(index: u64) -> (r: Vec<u8>)
    ensures
        r@ == key_of(index),
{
    let mut out: Vec<u8> = Vec::new();
    put_be(&mut out, index, 8);
    assert(out@ =~= key_of(index));
    out
}

/// The log index of a key, if it has the length of one.
pub fn key_index(key: &[u8]) -> (r: Option<u64>)
    ensures
        r is Some <==> key@.len() == 8,
        r matches Some(i) ==> i == be_value(key@),
{
    if key.len() == 8 {
        assert(key@.subrange(0, 8) =~= key@);
        Some(get_be(key, 0, 8))
    } else {
        None
    }
}

/// The key of a bound.
pub fn to_key_bound(b: IndexBound) -> (r: KeyBound)
    ensures
        is_key_bound(r, b),
{
    match b {
        IndexBound::Included(n) => KeyBound::Included(idx_key(n)),
        IndexBound::Excluded(n) => KeyBound::Excluded(idx_key(n)),
        IndexBound::Unbounded => KeyBound::Unbounded,
    }
}

/// The keys of the log indices between two bounds.
pub fn key_range(lo: IndexBound, hi: IndexBound) -> (r: (KeyBound, KeyBound))
    ensures
        is_key_bound(r.0, lo),
        is_key_bound(r.1, hi),
        forall|i: u64|
            #![trigger key_of(i)]
            key_within(key_of(i), r.0, r.1) <==> index_within(i, lo, hi),
{
    let r = (to_key_bound(lo), to_key_bound(hi));
    proof {
        assert forall|i: u64|
            #![trigger key_of(i)]
            key_within(key_of(i), r.0, r.1) <==> index_within(i, lo, hi) by {
            lemma_range_selects(i, lo, hi, r.0, r.1);
        }
    }
    r
}

/// The keys that go when the log is cut off from `index` on.
pub fn truncated_keys(index: u64) -> (r: (KeyBound, KeyBound))
    ensures
        forall|i: u64|
            #![trigger key_of(i)]
            key_within(key_of(i), r.0, r.1) <==> i >= index,
{
    key_range(IndexBound::Included(index), IndexBound::Unbounded)
}

/// The keys that go when the log is purged up to and including `index`.
pub fn purged_keys(index: u64) -> (r: (KeyBound, KeyBound))
    ensures
        forall|i: u64|
            #![trigger key_of(i)]
            key_within(key_of(i), r.0, r.1) <==> i <= index,
{
    key_range(IndexBound::Unbounded, IndexBound::Included(index))
}

// ── Laws ─────────────────────────────────────────────────────────────────────

/// Keys are ordered as the log indices are.
pub proof fn lemma_key_order(a: u64, b: u64)
    ensures
        bytes_less(key_of(a), key_of(b)) <==> a < b,
{
    lemma_be_ranges();
    lemma_be_order(a as int, b as int, 8);
}

/// Different log indices have different keys, and a key gives back its index.
pub proof fn lemma_key_reads_back(a: u64)
    ensures
        be_value(key_of(a)) == a,
        key_of(a).len() == 8,
{
    lemma_be_ranges();
    lemma_be_reads_back(a as int, 8);
}

/// Every key of eight bytes is the key of the index that it gives back.
pub proof fn lemma_key_writes_back(key: Seq<u8>)
    requires
        key.len() == 8,
    ensures
        0 <= be_value(key) <= u64::MAX,
        key_of(be_value(key) as u64) == key,
{
    lemma_be_ranges();
    lemma_be_writes_back(key);
}

/// A range of keys selects exactly the log indices in the range.
pub proof fn lemma_range_selects(
    i: u64,
    lo: IndexBound,
    hi: IndexBound,
    key_lo: KeyBound,
    key_hi: KeyBound,
)
    requires
        is_key_bound(key_lo, lo),
        is_key_bound(key_hi, hi),
    ensures
        key_within(key_of(i), key_lo, key_hi) <==> index_within(i, lo, hi),
{
    lemma_key_reads_back(i);
    match lo {
        IndexBound::Included(n) | IndexBound::Excluded(n) => {
            lemma_key_order(n, i);
            lemma_key_reads_back(n);
        },
        IndexBound::Unbounded => {},
    }
    match hi {
        IndexBound::Included(n) | IndexBound::Excluded(n) => {
            lemma_key_order(i, n);
            lemma_key_reads_back(n);
        },
        IndexBound::Unbounded => {},
    }
}

} // verus!
