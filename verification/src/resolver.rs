//! The caching resolver: when a cached answer is served, when it is refreshed
//! in the background, when the network is asked, and what is stored.
//!
//! The resolver is driven from outside: the caller reads the store under
//! `lookup_key`, hands the read to `lookup_cached`, and performs what the
//! returned step says (serve, resolve upstream, or give up); answers obtained
//! upstream are turned into cache entries by `resolved_entry`,
//! `refreshed_entry` and `zone_metadata_entry`.
use crate::names::{store_key, store_key_for, DomainName, TYPE_NS, TYPE_SOA};
use crate::storage::{
    bytes_of, decoded_opt, encoded, lemma_decode_encode, CacheEntry, CacheEntryView,
};
use crate::wire::{answer_ttls, message_answer_ttls};
use vstd::prelude::*;

verus! {

/// TTL stored with an upstream answer that carries no answer record.
pub const DEFAULT_TTL: u32 = 300;

/// Lifetime, in seconds, of the SOA and NS data fetched in the background.
pub const ZONE_METADATA_LIFETIME: u64 = 86400;

/// TTL recorded with the SOA and NS data fetched in the background.
pub const ZONE_METADATA_TTL: u32 = 3600;

/// A cached answer younger than this many seconds before expiry is refreshed
/// even when a third of its TTL is shorter.
pub const MIN_REFRESH_WINDOW: u64 = 30;

/// `a - b`, or 0 when `b` exceeds `a`.
pub open spec fn sat_sub(a: u64, b: u64) -> u64 {
    if a >= b {
        (a - b) as u64
    } else {
        0
    }
}

/// The larger of two numbers.
pub open spec fn max_u64(a: u64, b: u64) -> u64 {
    if a >= b {
        a
    } else {
        b
    }
}

/// Whether serving a cached entry should also start a background refresh:
/// only online, and only when the entry has expired or expires within a third
/// of its original TTL (but at least `MIN_REFRESH_WINDOW` seconds).
pub open spec fn needs_refresh(e: CacheEntryView, now: u64, offline: bool) -> bool {
    !offline && (e.expires_at <= now || sat_sub(e.expires_at, now) < max_u64(
        (e.original_ttl / 3) as u64,
        MIN_REFRESH_WINDOW,
    ))
}

/// The TTL stored with an upstream answer: the TTL of its first answer record,
/// or `DEFAULT_TTL` when the message has no answer or does not decode.
pub open spec fn stored_ttl(wire: Seq<u8>) -> u32 {
    match message_answer_ttls(wire) {
        Some(ts) => if ts.len() > 0 {
            ts[0]
        } else {
            DEFAULT_TTL
        },
        None => DEFAULT_TTL,
    }
}

/// What to do after reading the store for a lookup.
pub enum CachedLookup {
    /// Return `data`; when `refresh_ttl` holds a TTL, also resolve the name
    /// again in the background and store the answer with that TTL.
    Serve { data: Vec<u8>, refresh_ttl: Option<u32> },
    /// Ask the upstream resolver.
    Resolve,
    /// Nothing is known and the network may not be used.
    Miss,
}

/// What to do once the upstream resolver has been asked.
pub enum UpstreamStep {
    /// Store `entry` under the lookup key, fetch the record types in
    /// `background` for the same name in the background, and answer with the
    /// entry's data.
    Store { entry: CacheEntry, background: Vec<u16> },
    /// Upstream gave nothing: the lookup has no answer.
    NotFound,
    /// The entry's expiry time does not fit in a `u64`.
    ClockOverflow,
}

/// The resolver's own state: whether it works offline.
pub struct CachedResolver {
    pub offline_mode: bool,
}

impl CachedResolver {
    /// A resolver that starts online.
    pub fn new() -> (r: CachedResolver)
        ensures
            !r.offline_mode,
    {
        CachedResolver { offline_mode: false }
    }

    /// Switches between offline and online work.
    pub fn set_offline(&mut self, offline: bool)
        ensures
            final(self).offline_mode == offline,
    {
        self.offline_mode = offline;
    }

    /// The store key that a lookup of `name` and record type `qtype` reads.
    pub fn lookup_key(name: &DomainName, qtype: u16) -> (r: Vec<u8>)
        ensures
            r@ == store_key(name@, qtype),
    {
        store_key_for(name, qtype)
    }

    /// Decides a lookup from what the store holds under `lookup_key` (`None`
    /// when nothing could be read): a decodable entry is served, and refreshed
    /// when `needs_refresh` says so; otherwise the upstream resolver is asked,
    /// unless the resolver is offline.
    pub fn lookup_cached(&self, stored: Option<Vec<u8>>, now: u64) -> (r: CachedLookup)
        ensures
            match decoded_opt(bytes_of(stored)) {
                Some(e) => r matches CachedLookup::Serve { data, refresh_ttl } && data@ == e.data && (
                refresh_ttl == if needs_refresh(e, now, self.offline_mode) {
                    Some(e.original_ttl)
                } else {
                    None
                }),
                None => if self.offline_mode {
                    r is Miss
                } else {
                    r is Resolve
                },
            },
    {
        let entry = match stored {
            Some(b) => CacheEntry::from_bytes(b.as_slice()),
            None => None,
        };
        match entry {
            Some(e) => {
                let is_stale = e.expires_at <= now;
                let left = if e.expires_at >= now {
                    e.expires_at - now
                } else {
                    0
                };
                let third = (e.original_ttl / 3) as u64;
                let window = if third >= MIN_REFRESH_WINDOW {
                    third
                } else {
                    MIN_REFRESH_WINDOW
                };
                let refresh = !self.offline_mode && (is_stale || left < window);
                let refresh_ttl = if refresh {
                    Some(e.original_ttl)
                } else {
                    None
                };
                CachedLookup::Serve { data: e.data, refresh_ttl }
            },
            None => {
                if self.offline_mode {
                    CachedLookup::Miss
                } else {
                    CachedLookup::Resolve
                }
            },
        }
    }

    /// The entry stored for an answer resolved upstream at time `now`: it
    /// keeps `stored_ttl(wire)` and expires that many seconds after `now`;
    /// `None` when that time does not fit in a `u64`.
    pub fn resolved_entry(wire: Vec<u8>, now: u64) -> (r: Option<CacheEntry>)
        ensures
            match r {
                Some(e) => e@.data == wire@ && e.original_ttl == stored_ttl(wire@)
                    && e.expires_at == now + stored_ttl(wire@),
                None => now + stored_ttl(wire@) > u64::MAX,
            },
            r matches Some(e) ==> match message_answer_ttls(wire@) {
                Some(ts) => if ts.len() > 0 {
                    e.original_ttl == ts[0] && e.expires_at == now + ts[0]
                } else {
                    e.original_ttl == 300 && e.expires_at == now + 300
                },
                None => e.original_ttl == 300 && e.expires_at == now + 300,
            },
    {
        let ttl: u32 = match answer_ttls(wire.as_slice()) {
            Some(ts) => if ts.len() > 0 {
                ts[0]
            } else {
                DEFAULT_TTL
            },
            None => DEFAULT_TTL,
        };
        match now.checked_add(ttl as u64) {
            Some(expires_at) => Some(CacheEntry { data: wire, expires_at, original_ttl: ttl }),
            None => None,
        }
    }

    /// Decides what follows the upstream query of a lookup made at `now`, from
    /// its answer (`None` when it failed): the answer is stored as
    /// `resolved_entry` says and the name's SOA and NS records are fetched in
    /// the background; without an answer there is nothing to do.
    pub fn after_upstream(wire: Option<Vec<u8>>, now: u64) -> (r: UpstreamStep)
        ensures
            match wire {
                None => r is NotFound,
                Some(w) => if now + stored_ttl(w@) > u64::MAX {
                    r is ClockOverflow
                } else {
                    r matches UpstreamStep::Store { entry, background } && entry@.data == w@
                        && entry.original_ttl == stored_ttl(w@) && entry.expires_at == now
                        + stored_ttl(w@) && background@ == seq![TYPE_SOA, TYPE_NS]
                },
            },
    {
        match wire {
            None => UpstreamStep::NotFound,
            Some(w) => match CachedResolver::resolved_entry(w, now) {
                Some(entry) => {
                    let mut background: Vec<u16> = Vec::new();
                    background.push(TYPE_SOA);
                    background.push(TYPE_NS);
                    UpstreamStep::Store { entry, background }
                },
                None => UpstreamStep::ClockOverflow,
            },
        }
    }

    /// The entry stored when a background refresh brings `data` at time
    /// `now`: it keeps the original TTL and expires that many seconds after
    /// `now`; `None` when that time does not fit in a `u64`.
    pub fn refreshed_entry(data: Vec<u8>, now: u64, original_ttl: u32) -> (r: Option<CacheEntry>)
        ensures
            match r {
                Some(e) => e@.data == data@ && e.original_ttl == original_ttl && e.expires_at
                    == now + original_ttl,
                None => now + original_ttl > u64::MAX,
            },
    {
        match now.checked_add(original_ttl as u64) {
            Some(expires_at) => Some(CacheEntry { data, expires_at, original_ttl }),
            None => None,
        }
    }

    /// The entry stored for SOA or NS data fetched in the background at time
    /// `now`: it lives `ZONE_METADATA_LIFETIME` seconds and records
    /// `ZONE_METADATA_TTL`; `None` when the expiry does not fit in a `u64`.
    pub fn zone_metadata_entry(data: Vec<u8>, now: u64) -> (r: Option<CacheEntry>)
        ensures
            match r {
                Some(e) => e@.data == data@ && e.original_ttl == ZONE_METADATA_TTL && e.expires_at
                    == now + ZONE_METADATA_LIFETIME,
                None => now + ZONE_METADATA_LIFETIME > u64::MAX,
            },
    {
        match now.checked_add(ZONE_METADATA_LIFETIME) {
            Some(expires_at) => Some(
                CacheEntry { data, expires_at, original_ttl: ZONE_METADATA_TTL },
            ),
            None => None,
        }
    }
}

/// An offline resolver never refreshes in the background.
pub proof fn lemma_offline_never_refreshes(e: CacheEntryView, now: u64)
    ensures
        !needs_refresh(e, now, true),
{
}

/// An online resolver always refreshes an entry that has expired.
pub proof fn lemma_expired_entries_refresh(e: CacheEntryView, now: u64)
    requires
        e.expires_at <= now,
    ensures
        needs_refresh(e, now, false),
{
}

/// An answer just resolved and stored is read back unchanged, and is served
/// without a refresh unless the server is online and its TTL is under
/// `MIN_REFRESH_WINDOW` seconds.
pub proof fn lemma_resolved_answer_served_back(wire: Seq<u8>, now: u64, offline: bool)
    requires
        now + stored_ttl(wire) <= u64::MAX,
        wire.len() <= u64::MAX,
    ensures
        ({
            let e = CacheEntryView {
                data: wire,
                expires_at: (now + stored_ttl(wire)) as u64,
                original_ttl: stored_ttl(wire),
            };
            &&& decoded_opt(Some(encoded(e))) == Some(e)
            &&& needs_refresh(e, now, offline) == (!offline && stored_ttl(wire) < MIN_REFRESH_WINDOW)
        }),
{
    let e = CacheEntryView {
        data: wire,
        expires_at: (now + stored_ttl(wire)) as u64,
        original_ttl: stored_ttl(wire),
    };
    lemma_decode_encode(e, Seq::empty());
    assert(encoded(e) + Seq::<u8>::empty() =~= encoded(e));
}

/// An answer stored from upstream keeps the TTL of its first answer record
/// and expires that many seconds after it was resolved; an answer without
/// answer records, or that does not decode, is kept for 300 seconds.
pub proof fn lemma_stored_ttl_is_first_answer_ttl(wire: Seq<u8>, now: u64)
    ensures
        forall|ts: Seq<u32>|
            message_answer_ttls(wire) == Some(ts) && ts.len() > 0 ==> stored_ttl(wire) == ts[0],
        forall|ts: Seq<u32>|
            message_answer_ttls(wire) == Some(ts) && ts.len() == 0 ==> stored_ttl(wire) == 300,
        message_answer_ttls(wire) is None ==> stored_ttl(wire) == 300,
{
}

} // verus!
