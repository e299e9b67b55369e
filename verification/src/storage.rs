//! Cached answers and their on-disk byte layout.
//!
//! A cache entry is stored as the bincode (version 1, default options) encoding
//! of its three fields: the length of `data` as a little-endian `u64`, the bytes
//! of `data`, `expires_at` as a little-endian `u64`, `original_ttl` as a
//! little-endian `u32`.
use crate::text::{parse_u64, u64_of_text};
use vstd::prelude::*;
use vstd::string::StringExecFns;

verus! {

/// `n` bytes holding `v` in little-endian order (the high part of `v` beyond
/// `n` bytes is dropped).
pub open spec fn le_bytes(v: nat, n: nat) -> Seq<u8>
    decreases n,
{
    if n == 0 {
        Seq::empty()
    } else {
        seq![(v % 256) as u8] + le_bytes(v / 256, (n - 1) as nat)
    }
}

/// The number that a little-endian byte string denotes.
pub open spec fn le_value(s: Seq<u8>) -> nat
    decreases s.len(),
{
    if s.len() == 0 {
        0
    } else {
        s[0] as nat + 256 * le_value(s.drop_first())
    }
}

/// `256` to the power `n`.
pub open spec fn pow256(n: nat) -> nat
    decreases n,
{
    if n == 0 {
        1
    } else {
        256 * pow256((n - 1) as nat)
    }
}

/// Reading back `n` little-endian bytes gives the value written, when it fits.
pub proof fn lemma_le_roundtrip(v: nat, n: nat)
    requires
        v < pow256(n),
    ensures
        le_bytes(v, n).len() == n,
        le_value(le_bytes(v, n)) == v,
    decreases n,
{
    if n > 0 {
        let q = v / 256;
        assert(v == 256 * q + v % 256);
        assert(q < pow256((n - 1) as nat)) by (nonlinear_arith)
            requires
                v == 256 * q + v % 256,
                v < 256 * pow256((n - 1) as nat),
                0 <= v % 256,
        ;
        lemma_le_roundtrip(q, (n - 1) as nat);
        let s = le_bytes(v, n);
        assert(s.drop_first() =~= le_bytes(q, (n - 1) as nat));
        assert(s[0] as nat == v % 256);
    }
}

/// The powers of 256 that bound `u32` and `u64`.
pub proof fn lemma_pow256_values()
    ensures
        pow256(4) == 0x1_0000_0000,
        pow256(8) == 0x1_0000_0000_0000_0000,
{
    reveal_with_fuel(pow256, 9);
}

/// The stored form of an entry with the given fields.
pub open spec fn entry_bytes(data: Seq<u8>, expires_at: u64, original_ttl: u32) -> Seq<u8> {
    le_bytes(data.len(), 8) + data + le_bytes(expires_at as nat, 8) + le_bytes(
        original_ttl as nat,
        4,
    )
}

/// The fields that a stored form begins with, if it begins with a complete
/// entry; bytes after the entry are ignored.
pub open spec fn entry_fields(b: Seq<u8>) -> Option<(Seq<u8>, u64, u32)> {
    if b.len() < 8 {
        None
    } else {
        let n = le_value(b.subrange(0, 8));
        if b.len() < 8 + n + 12 {
            None
        } else {
            Some(
                (
                    b.subrange(8, 8 + n as int),
                    le_value(b.subrange(8 + n as int, 16 + n as int)) as u64,
                    le_value(b.subrange(16 + n as int, 20 + n as int)) as u32,
                ),
            )
        }
    }
}

/// Encodes the three fields of a cache entry with `bincode::serialize`.
///
/// The contract claims that bincode 1 with its default function options
/// (fixed-width little-endian integers, sequences prefixed by a `u64` length)
/// writes exactly `entry_bytes`, and that it does not fail for these field
/// types (no size limit is set, and a `Vec<u8>` always reports its length).
#[verifier::external_body]
fn bincode_encode_entry(data: &Vec<u8>, expires_at: u64, original_ttl: u32) -> (r: Option<
    Vec<u8>,
>)
    ensures
        r is Some,
        r.unwrap()@ == entry_bytes(data@, expires_at, original_ttl),
{
    bincode::serialize(&(data, expires_at, original_ttl)).ok()
}

/// Decodes the three fields of a cache entry with `bincode::deserialize`.
///
/// The contract claims that bincode 1 with its default function options reads a
/// little-endian `u64` length, that many bytes, a little-endian `u64` and a
/// little-endian `u32`, fails exactly when the input ends too early, and
/// accepts trailing bytes.
#[verifier::external_body]
fn bincode_decode_entry(bytes: &[u8]) -> (r: Option<(Vec<u8>, u64, u32)>)
    ensures
        match r {
            Some((d, e, t)) => entry_fields(bytes@) == Some((d@, e, t)),
            None => entry_fields(bytes@) is None,
        },
{
    bincode::deserialize::<(Vec<u8>, u64, u32)>(bytes).ok()
}

/// A DNS answer kept in the cache: the wire-format message, the Unix time in
/// seconds at which it stops being fresh, and the TTL it was stored with.
#[derive(Clone, Debug)]
pub struct CacheEntry {
    pub data: Vec<u8>,
    pub expires_at: u64,
    pub original_ttl: u32,
}

/// The mathematical value of a cache entry.
pub struct CacheEntryView {
    pub data: Seq<u8>,
    pub expires_at: u64,
    pub original_ttl: u32,
}

impl View for CacheEntry {
    type V = CacheEntryView;

    open spec fn view(&self) -> CacheEntryView {
        CacheEntryView { data: self.data@, expires_at: self.expires_at, original_ttl: self.original_ttl }
    }
}

/// The stored form of an entry.
pub open spec fn encoded(e: CacheEntryView) -> Seq<u8> {
    entry_bytes(e.data, e.expires_at, e.original_ttl)
}

/// The entry that stored bytes hold, if any.
pub open spec fn decoded(b: Seq<u8>) -> Option<CacheEntryView> {
    match entry_fields(b) {
        Some((d, e, t)) => Some(CacheEntryView { data: d, expires_at: e, original_ttl: t }),
        None => None,
    }
}

/// The entry that a stored value holds, where a missing value holds none.
pub open spec fn decoded_opt(b: Option<Seq<u8>>) -> Option<CacheEntryView> {
    match b {
        Some(bytes) => decoded(bytes),
        None => None,
    }
}

/// The bytes of a value read from the store, if any.
pub open spec fn bytes_of(o: Option<Vec<u8>>) -> Option<Seq<u8>> {
    match o {
        Some(b) => Some(b@),
        None => None,
    }
}

/// Reading back an encoded entry gives the entry, whatever follows it.
pub proof fn lemma_decode_encode(e: CacheEntryView, trailing: Seq<u8>)
    requires
        e.data.len() <= u64::MAX,
    ensures
        decoded(encoded(e) + trailing) == Some(e),
{
    lemma_pow256_values();
    let n = e.data.len();
    lemma_le_roundtrip(n, 8);
    lemma_le_roundtrip(e.expires_at as nat, 8);
    lemma_le_roundtrip(e.original_ttl as nat, 4);
    let b = encoded(e) + trailing;
    let l = le_bytes(n, 8);
    let x = le_bytes(e.expires_at as nat, 8);
    let t = le_bytes(e.original_ttl as nat, 4);
    assert(b.subrange(0, 8) =~= l);
    assert(b.subrange(8, 8 + n as int) =~= e.data);
    assert(b.subrange(8 + n as int, 16 + n as int) =~= x);
    assert(b.subrange(16 + n as int, 20 + n as int) =~= t);
}

impl CacheEntry {
    /// The stored form of this entry.
    pub fn to_bytes(&self) -> (r: Vec<u8>)
        ensures
            r@ == encoded(self@),
    {
        match bincode_encode_entry(&self.data, self.expires_at, self.original_ttl) {
            Some(b) => b,
            None => Vec::new(),
        }
    }

    /// The entry that stored bytes hold; `None` when they are too short.
    pub fn from_bytes(bytes: &[u8]) -> (r: Option<CacheEntry>)
        ensures
            match r {
                Some(e) => decoded(bytes@) == Some(e@),
                None => decoded(bytes@) is None,
            },
    {
        match bincode_decode_entry(bytes) {
            Some((data, expires_at, original_ttl)) => Some(
                CacheEntry { data, expires_at, original_ttl },
            ),
            None => None,
        }
    }
}

/// The entry count that the database reports through its key-estimate
/// property: the property's value read as a decimal `u64`, and 0 when the
/// property could not be read, is absent, or is not such a number.
pub open spec fn key_count_of(reading: Option<Option<Seq<char>>>) -> u64 {
    match reading {
        Some(Some(text)) => match u64_of_text(text) {
            Some(v) => v,
            None => 0,
        },
        _ => 0,
    }
}

/// The entry count from a reading of the database's key-estimate property
/// (`None` where reading it failed, `Some(None)` where it is absent).
pub fn key_count_from_property(reading: Option<Option<String>>) -> (r: u64)
    ensures
        r == key_count_of(match reading {
            Some(Some(s)) => Some(Some(s@)),
            Some(None) => Some(None),
            None => None,
        }),
{
    proof {
        reveal_strlit("0");
    }
    let text: String = match reading {
        Some(Some(s)) => s,
        _ => {
            let z = String::from_str("0");
            proof {
                let t = z@;
                assert(t =~= seq!['0']);
                assert(t.drop_last() =~= Seq::<char>::empty());
                assert(crate::text::decimal_value(Seq::<char>::empty()) == 0);
                assert(t.last() == '0');
                assert(crate::text::decimal_value(t) == 0);
                assert(crate::text::all_digits(t));
                assert(u64_of_text(t) == Some(0u64));
            }
            z
        },
    };
    match parse_u64(text.as_str()) {
        Some(v) => v,
        None => 0,
    }
}

} // verus!
