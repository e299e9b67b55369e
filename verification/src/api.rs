//! The control interface: switching between offline and online work,
//! freezing zones, reporting state, and adding A records by hand.
use crate::handler::{
    answering_depth, decide, deep_key, read, stored_reply, usable_entry, Query, StepView,
};
use crate::ipv4::{ipv4_of_text, parse_ipv4};
use crate::names::{
    ancestor, parse_name, parsed_name, store_key, store_key_for, DomainNameView, TYPE_A,
};
use crate::resolver::CachedResolver;
use crate::storage::{encoded, lemma_decode_encode, CacheEntry, CacheEntryView};
use crate::wire::{a_response_bytes, a_response_wire, message_answer_ttls};
use vstd::prelude::*;
use vstd::string::StringExecFns;

verus! {

/// The texts of a sequence of strings.
pub open spec fn texts(v: Seq<String>) -> Seq<Seq<char>> {
    v.map_values(|s: String| s@)
}

/// A set of zone names, kept in the order they were added, without repeats.
pub struct ZoneSet {
    names: Vec<String>,
}

impl ZoneSet {
    /// The zone names held.
    pub closed spec fn view(&self) -> Set<Seq<char>> {
        texts(self.names@).to_set()
    }

    /// No name is held twice.
    #[verifier::type_invariant]
    closed spec fn no_repeats(&self) -> bool {
        texts(self.names@).no_duplicates()
    }

    /// An empty set.
    pub fn new() -> (r: ZoneSet)
        ensures
            r.view() == Set::<Seq<char>>::empty(),
    {
        let r = ZoneSet { names: Vec::new() };
        assert(texts(r.names@) =~= Seq::<Seq<char>>::empty());
        r
    }

    /// Whether `zone` is held.
    pub fn contains(&self, zone: &String) -> (r: bool)
        ensures
            r == self.view().contains(zone@),
    {
        let n = self.names.len();
        let mut i: usize = 0;
        while i < n
            invariant
                n == self.names@.len(),
                i <= n,
                forall|k: int| 0 <= k < i ==> (#[trigger] self.names@[k])@ != zone@,
            decreases n - i,
        {
            if self.names[i] == *zone {
                assert(texts(self.names@)[i as int] == zone@);
                return true;
            }
            i = i + 1;
        }
        assert(!texts(self.names@).contains(zone@)) by {
            if texts(self.names@).contains(zone@) {
                let k = choose|k: int|
                    0 <= k < self.names@.len() && #[trigger] texts(self.names@)[k] == zone@;
                assert(self.names@[k]@ == zone@);
            }
        }
        false
    }

    /// Adds `zone`; nothing changes when it is already held.
    pub fn insert(&mut self, zone: String)
        ensures
            final(self).view() == old(self).view().insert(zone@),
    {
        proof {
            use_type_invariant(&*self);
        }
        if self.contains(&zone) {
            assert(old(self).view().insert(zone@) =~= old(self).view());
            return;
        }
        let ghost before = texts(self.names@);
        let ghost after = before.push(zone@);
        proof {
            assert(!before.contains(zone@));
            assert forall|i: int, j: int|
                0 <= i < after.len() && 0 <= j < after.len() && i != j implies after[i]
                != after[j] by {
                if i < before.len() && j < before.len() {
                } else if i == before.len() {
                    assert(before.contains(after[j]) || j == i);
                } else {
                    assert(before.contains(after[i]) || j == i);
                }
            }
            before.lemma_push_to_set_commute(zone@);
        }
        let mut names = self.names.clone();
        assert(texts(names@) =~= before);
        names.push(zone);
        assert(texts(names@) =~= after);
        *self = ZoneSet { names };
    }

    /// The names held, in the order they were added.
    pub fn to_vec(&self) -> (r: Vec<String>)
        ensures
            texts(r@).to_set() == self.view(),
            texts(r@).no_duplicates(),
    {
        proof {
            use_type_invariant(self);
        }
        let r = self.names.clone();
        proof {
            assert(texts(r@) =~= texts(self.names@));
        }
        r
    }
}

/// The zone state of the DNS handler: the zones answered from the local
/// database, and the zones marked insecure.
pub struct BunkerHandler {
    pub rocksdb_zones: ZoneSet,
    pub zones_insecure: ZoneSet,
}

impl BunkerHandler {
    /// A handler with no zones.
    pub fn new() -> (r: BunkerHandler)
        ensures
            r.rocksdb_zones.view() == Set::<Seq<char>>::empty(),
            r.zones_insecure.view() == Set::<Seq<char>>::empty(),
    {
        BunkerHandler { rocksdb_zones: ZoneSet::new(), zones_insecure: ZoneSet::new() }
    }
}

/// The state that the control interface reads and changes.
pub struct ApiState {
    pub resolver: CachedResolver,
    pub handler: BunkerHandler,
}

impl ApiState {
    /// An online server with no zones.
    pub fn new() -> (r: ApiState)
        ensures
            !r.resolver.offline_mode,
            r.handler.rocksdb_zones.view() == Set::<Seq<char>>::empty(),
            r.handler.zones_insecure.view() == Set::<Seq<char>>::empty(),
    {
        ApiState { resolver: CachedResolver::new(), handler: BunkerHandler::new() }
    }
}

/// Switches the server to offline (`true`) or online (`false`) work and
/// returns the mode now in force; the zones are untouched.
pub fn set_mode(state: &mut ApiState, offline: bool) -> (r: bool)
    ensures
        r == offline,
        final(state).resolver.offline_mode == offline,
        final(state).handler.rocksdb_zones.view() == old(state).handler.rocksdb_zones.view(),
        final(state).handler.zones_insecure.view() == old(state).handler.zones_insecure.view(),
{
    state.resolver.set_offline(offline);
    offline
}

/// Marks `zone` as answered from the local database; an empty name changes
/// nothing. Returns the zone name as given.
pub fn freeze_zone(state: &mut ApiState, zone: String) -> (r: String)
    ensures
        r@ == zone@,
        final(state).handler.rocksdb_zones.view() == if zone@.len() > 0 {
            old(state).handler.rocksdb_zones.view().insert(zone@)
        } else {
            old(state).handler.rocksdb_zones.view()
        },
        final(state).handler.zones_insecure.view() == old(state).handler.zones_insecure.view(),
        final(state).resolver.offline_mode == old(state).resolver.offline_mode,
{
    if !zone.as_str().is_empty() {
        let z = zone.clone();
        state.handler.rocksdb_zones.insert(z);
    }
    zone
}

/// Freezing a zone twice leaves the same zones as freezing it once.
pub proof fn lemma_freeze_idempotent(zones: Set<Seq<char>>, zone: Seq<char>)
    ensures
        zones.insert(zone).insert(zone) == zones.insert(zone),
{
    assert(zones.insert(zone).insert(zone) =~= zones.insert(zone));
}

/// A zone frozen by name is listed by `stats` afterwards.
pub proof fn lemma_frozen_zone_is_listed(zones: Set<Seq<char>>, zone: Seq<char>, listed: Seq<Seq<char>>)
    requires
        zone.len() > 0,
        listed.to_set() == zones.insert(zone),
    ensures
        listed.contains(zone),
{
    assert(listed.to_set().contains(zone));
}

/// What the control interface reports: the mode and the frozen zones.
pub struct Stats {
    pub offline_mode: bool,
    pub rocksdb_zones: Vec<String>,
}

/// The mode and the frozen zones, each zone listed once.
pub fn stats(state: &ApiState) -> (r: Stats)
    ensures
        r.offline_mode == state.resolver.offline_mode,
        texts(r.rocksdb_zones@).to_set() == state.handler.rocksdb_zones.view(),
        texts(r.rocksdb_zones@).no_duplicates(),
{
    Stats {
        offline_mode: state.resolver.offline_mode,
        rocksdb_zones: state.handler.rocksdb_zones.to_vec(),
    }
}

/// Why a record could not be added.
#[derive(Clone, Copy, Debug, PartialEq, Eq, Structural)]
pub enum AddRecordError {
    /// The name or the address is empty.
    MissingField,
    /// The name is not a domain name.
    InvalidName,
    /// The address is not a dotted-decimal IPv4 address.
    InvalidAddress,
    /// The answer message could not be written.
    SerializationFailed,
}

impl AddRecordError {
    /// The message that the control interface reports for the error.
    pub fn message(&self) -> (r: &'static str)
        ensures
            *self == AddRecordError::MissingField ==> r@ == "name and ip required"@,
            *self == AddRecordError::InvalidName ==> r@ == "invalid domain name"@,
            *self == AddRecordError::InvalidAddress ==> r@ == "invalid ipv4 address"@,
            *self == AddRecordError::SerializationFailed ==> r@ == "serialization failed"@,
    {
        match self {
            AddRecordError::MissingField => "name and ip required",
            AddRecordError::InvalidName => "invalid domain name",
            AddRecordError::InvalidAddress => "invalid ipv4 address",
            AddRecordError::SerializationFailed => "serialization failed",
        }
    }
}

/// TTL of the A records added by hand.
pub const MANUAL_TTL: u32 = 3600;

/// Expiry of the A records added by hand: half of the `u64` range, so they
/// never go stale.
pub const MANUAL_EXPIRY: u64 = 0x7fff_ffff_ffff_ffff;

/// The store write that adds an A record by hand, and the zone to freeze.
pub struct RecordWrite {
    pub key: Vec<u8>,
    pub entry: CacheEntry,
    pub zone: String,
}

/// The fully qualified form of a name: a final dot is added when missing.
pub open spec fn fqdn_text(name: Seq<char>) -> Seq<char> {
    if name.len() > 0 && name.last() == '.' {
        name
    } else {
        name + seq!['.']
    }
}

/// What adding an A record for `name` and `ip` gives: the error, or the key,
/// the entry, and the zone.
pub open spec fn add_record_outcome(name: Seq<char>, ip: Seq<char>) -> Result<
    (Seq<u8>, CacheEntryView, Seq<char>),
    AddRecordError,
> {
    if name.len() == 0 || ip.len() == 0 {
        Err(AddRecordError::MissingField)
    } else {
        match parsed_name(fqdn_text(name)) {
            None => Err(AddRecordError::InvalidName),
            Some(n) => match ipv4_of_text(ip) {
                None => Err(AddRecordError::InvalidAddress),
                Some(octets) => match a_response_wire(fqdn_text(name), MANUAL_TTL, octets, true) {
                    None => Err(AddRecordError::SerializationFailed),
                    Some(wire) => Ok(
                        (
                            store_key(n, TYPE_A),
                            CacheEntryView {
                                data: wire,
                                expires_at: MANUAL_EXPIRY,
                                original_ttl: MANUAL_TTL,
                            },
                            name,
                        ),
                    ),
                },
            },
        }
    }
}

/// Prepares an A record for `name` pointing at `ip`: the name is made fully
/// qualified and parsed, the address is read, and an authoritative response
/// message with one A record (TTL `MANUAL_TTL`) is written. The caller stores
/// the entry under the key and then freezes the zone.
pub fn add_record(name: &str, ip: &str) -> (r: Result<RecordWrite, AddRecordError>)
    ensures
        match r {
            Ok(w) => add_record_outcome(name@, ip@) == Ok::<
                (Seq<u8>, CacheEntryView, Seq<char>),
                AddRecordError,
            >((w.key@, w.entry@, w.zone@)),
            Err(e) => add_record_outcome(name@, ip@) == Err::<
                (Seq<u8>, CacheEntryView, Seq<char>),
                AddRecordError,
            >(e),
        },
        r matches Ok(w) ==> ipv4_of_text(ip@) is Some && a_response_wire(
            fqdn_text(name@),
            3600,
            ipv4_of_text(ip@).unwrap(),
            true,
        ) == Some(w.entry.data@) && w.entry.original_ttl == 3600,
{
    proof {
        reveal_strlit(".");
    }
    if name.is_empty() || ip.is_empty() {
        return Err(AddRecordError::MissingField);
    }
    let chars = crate::text::chars_of(name);
    let fqdn: String = if chars.len() > 0 && chars[chars.len() - 1] == '.' {
        String::from_str(name)
    } else {
        let mut s = String::from_str(name);
        s.append(".");
        s
    };
    assert(fqdn@ == fqdn_text(name@));
    let parsed = match parse_name(fqdn.as_str()) {
        Some(n) => n,
        None => return Err(AddRecordError::InvalidName),
    };
    let octets = match parse_ipv4(ip) {
        Some(o) => o,
        None => return Err(AddRecordError::InvalidAddress),
    };
    let wire = match a_response_bytes(fqdn.as_str(), MANUAL_TTL, octets, true) {
        Some(b) => b,
        None => return Err(AddRecordError::SerializationFailed),
    };
    let key = store_key_for(&parsed, TYPE_A);
    let entry = CacheEntry { data: wire, expires_at: MANUAL_EXPIRY, original_ttl: MANUAL_TTL };
    Ok(RecordWrite { key, entry, zone: String::from_str(name) })
}

/// A record added by hand carries, in order, the four octets read from the
/// address text: its stored message is the authoritative A response for the
/// fully qualified name with TTL 3600 and exactly the parsed address, and it
/// never expires within the range of a `u64` clock's first half.
pub proof fn lemma_added_record_points_at_given_address(name: Seq<char>, ip: Seq<char>)
    requires
        add_record_outcome(name, ip) is Ok,
    ensures
        ipv4_of_text(ip) is Some,
        a_response_wire(fqdn_text(name), 3600, ipv4_of_text(ip).unwrap(), true) == Some(
            add_record_outcome(name, ip).unwrap().1.data,
        ),
        add_record_outcome(name, ip).unwrap().1.original_ttl == 3600,
        add_record_outcome(name, ip).unwrap().1.expires_at == 0x7fff_ffff_ffff_ffff,
        add_record_outcome(name, ip).unwrap().2 == name,
{
}

/// A record added by hand is stored under the first key that an A query for
/// the same name reads.
pub proof fn lemma_added_record_key_is_read_first(
    name: Seq<char>,
    ip: Seq<char>,
    q: Query,
)
    requires
        add_record_outcome(name, ip) is Ok,
        parsed_name(fqdn_text(name)) == Some(q.qname),
        q.qtype == TYPE_A,
    ensures
        add_record_outcome(name, ip).unwrap().0 == deep_key(q, 0),
{
    assert(ancestor(q.qname, 0).labels =~= q.qname.labels);
    assert(ancestor(q.qname, 0) =~= q.qname);
}

/// A record added by hand and stored is what an A query for the same name is
/// answered with: authoritatively, from the store, under the query name,
/// provided that the stored message decodes.
pub proof fn lemma_added_record_is_served(
    name: Seq<char>,
    ip: Seq<char>,
    q: Query,
    store: Map<Seq<u8>, Seq<u8>>,
)
    requires
        add_record_outcome(name, ip) is Ok,
        parsed_name(fqdn_text(name)) == Some(q.qname),
        q.qtype == TYPE_A,
        q.qname.labels.len() <= usize::MAX,
        store.contains_key(add_record_outcome(name, ip).unwrap().0),
        store[add_record_outcome(name, ip).unwrap().0] == encoded(add_record_outcome(name, ip).unwrap().1),
        add_record_outcome(name, ip).unwrap().1.data.len() <= u64::MAX,
        message_answer_ttls(add_record_outcome(name, ip).unwrap().1.data) is Some,
    ensures
        decide(q, store) == (StepView::Respond {
            reply: stored_reply(q, 0, add_record_outcome(name, ip).unwrap().1),
        }),
{
    let (k, e, z) = add_record_outcome(name, ip).unwrap();
    lemma_added_record_key_is_read_first(name, ip, q);
    lemma_decode_encode(e, Seq::empty());
    assert(encoded(e) + Seq::<u8>::empty() =~= encoded(e));
    assert(read(store, deep_key(q, 0)) == Some(encoded(e)));
    assert(usable_entry(read(store, deep_key(q, 0))) == Some(e));
    assert(answering_depth(q, store, 0));
    let d = choose|d: int| answering_depth(q, store, d);
    if d > 0 {
        assert(usable_entry(read(store, deep_key(q, 0))) is None);
    }
    assert(d == 0);
}

} // verus!
