//! How a DNS query is answered.
//!
//! The answer is decided in this order:
//! 1. the query name and then each of its ancestors (up to a one-label name)
//!    is looked up in the store under the query's record type; the first
//!    decodable entry whose message decodes is served, authoritatively, with
//!    its owner name rewritten to the query name (and refreshed in the
//!    background when online and expired);
//! 2. otherwise, when the store holds a decodable entry for the query name
//!    under any record type, an empty authoritative NOERROR answer says that
//!    the name exists;
//! 3. otherwise, offline, connectivity-check names get a loopback address (for
//!    A queries) or an empty answer;
//! 4. otherwise, offline, noisy queries (AAAA, HTTPS, PTR, reverse zones) get an
//!    empty NOERROR answer and everything else SERVFAIL;
//! 5. otherwise the upstream resolver is asked, and its answer is relayed;
//! 6. when that fails, SERVFAIL.
//!
//! The store is read by the caller: a `RequestPlan` asks for one key at a time
//! (`Step::Read`), for every value stored under the query name's key prefix
//! (`Step::Scan`), for the upstream answer (`Step::Resolve`), or gives the
//! reply (`Step::Respond`).
use crate::names::{
    ancestor, last_depth, name_text, store_key, store_key_for, DomainName, DomainNameView, TYPE_A,
    TYPE_AAAA, TYPE_HTTPS, TYPE_PTR,
};
use crate::storage::{bytes_of, decoded, decoded_opt, CacheEntry, CacheEntryView};
use crate::text::{contains, contains_text, lowercase_text, to_lowercase};
use crate::wire::{answer_ttls, message_answer_ttls};
use vstd::prelude::*;

verus! {

/// Response code of a reply.
#[derive(Clone, Copy, Debug, PartialEq, Eq, Structural)]
pub enum Rcode {
    NoError,
    ServFail,
}

/// The content of a reply.
#[derive(Clone, Debug)]
pub enum Answer {
    /// The answers of a stored message, with those owned by `owner` rewritten
    /// to the query name, and the stored message's response code.
    Stored { data: Vec<u8>, owner: DomainName },
    /// No answer record, with the given response code.
    Empty { rcode: Rcode },
    /// One A record for the query name pointing at 127.0.0.1, TTL 30.
    Loopback,
    /// The answers of a message obtained upstream.
    Upstream { data: Vec<u8> },
}

/// A reply to a query: its content, whether it is authoritative, the time at
/// which it expires (from which its TTL is computed), and whether the query
/// should also be resolved again in the background.
#[derive(Clone, Debug)]
pub struct Reply {
    pub answer: Answer,
    pub authoritative: bool,
    pub expires_at: u64,
    pub refresh: bool,
}

/// What the caller does next for a query.
#[derive(Clone, Debug)]
pub enum Step {
    /// Read the store under `key` and hand the value to `on_read`.
    Read { key: Vec<u8> },
    /// Read every value stored under a key that begins with `prefix` and hand
    /// them to `on_scan`.
    Scan { prefix: Vec<u8> },
    /// Ask the upstream resolver and hand its answer to `on_resolved`.
    Resolve,
    /// Send the reply.
    Respond { reply: Reply },
}

/// The mathematical value of an `Answer`.
pub enum AnswerView {
    Stored { data: Seq<u8>, owner: DomainNameView },
    Empty { rcode: Rcode },
    Loopback,
    Upstream { data: Seq<u8> },
}

/// The mathematical value of a `Reply`.
pub struct ReplyView {
    pub answer: AnswerView,
    pub authoritative: bool,
    pub expires_at: u64,
    pub refresh: bool,
}

/// The mathematical value of a `Step`.
pub enum StepView {
    Read { key: Seq<u8> },
    Scan { prefix: Seq<u8> },
    Resolve,
    Respond { reply: ReplyView },
}

impl View for Answer {
    type V = AnswerView;

    open spec fn view(&self) -> AnswerView {
        match self {
            Answer::Stored { data, owner } => AnswerView::Stored { data: data@, owner: owner@ },
            Answer::Empty { rcode } => AnswerView::Empty { rcode: *rcode },
            Answer::Loopback => AnswerView::Loopback,
            Answer::Upstream { data } => AnswerView::Upstream { data: data@ },
        }
    }
}

impl View for Reply {
    type V = ReplyView;

    open spec fn view(&self) -> ReplyView {
        ReplyView {
            answer: self.answer@,
            authoritative: self.authoritative,
            expires_at: self.expires_at,
            refresh: self.refresh,
        }
    }
}

impl View for Step {
    type V = StepView;

    open spec fn view(&self) -> StepView {
        match self {
            Step::Read { key } => StepView::Read { key: key@ },
            Step::Scan { prefix } => StepView::Scan { prefix: prefix@ },
            Step::Resolve => StepView::Resolve,
            Step::Respond { reply } => StepView::Respond { reply: reply@ },
        }
    }
}

/// A query: the name asked for, the record type code, the time it arrived
/// (Unix seconds), and whether the server is offline.
pub struct Query {
    pub qname: DomainNameView,
    pub qtype: u16,
    pub now: u64,
    pub offline: bool,
}

/// Where a query's resolution stands.
#[derive(Clone, Copy, Debug, PartialEq, Eq, Structural)]
pub enum Phase {
    /// Looking in the store for the ancestor `depth` labels above the query name.
    Deep { depth: usize },
    /// Checking whether the query name has an entry of any record type.
    Exists,
    /// Waiting for the upstream resolver.
    Upstream,
}

/// The store key of the ancestor `depth` labels above the query name.
pub open spec fn deep_key(q: Query, depth: int) -> Seq<u8> {
    store_key(ancestor(q.qname, depth), q.qtype)
}

/// The store key read in a phase.
pub open spec fn phase_key(q: Query, phase: Phase) -> Seq<u8> {
    match phase {
        Phase::Deep { depth } => deep_key(q, depth as int),
        _ => Seq::empty(),
    }
}

/// The prefix shared by the keys of every record type of the query name:
/// the name's presentation form followed by `:`.
pub open spec fn name_prefix(q: Query) -> Seq<u8> {
    vstd::utf8::encode_utf8(name_text(q.qname) + seq![':'])
}

/// `k` begins with `p`.
pub open spec fn has_prefix(k: Seq<u8>, p: Seq<u8>) -> bool {
    p.len() <= k.len() && k.subrange(0, p.len() as int) == p
}

/// Some value of the list decodes as a cache entry.
pub open spec fn any_decodes(values: Seq<Seq<u8>>) -> bool {
    exists|i: int| 0 <= i < values.len() && decoded(#[trigger] values[i]) is Some
}

/// `values` lists exactly the values that `store` holds under keys beginning
/// with `prefix` (in any order, repeats allowed).
pub open spec fn lists_prefixed(
    store: Map<Seq<u8>, Seq<u8>>,
    prefix: Seq<u8>,
    values: Seq<Seq<u8>>,
) -> bool {
    &&& forall|k: Seq<u8>|
        #[trigger] store.dom().contains(k) && has_prefix(k, prefix) ==> values.contains(store[k])
    &&& forall|i: int|
        0 <= i < values.len() ==> exists|k: Seq<u8>|
            #[trigger] store.dom().contains(k) && has_prefix(k, prefix) && #[trigger] values[i]
                == store[k]
}

/// The byte strings of a list of vectors.
pub open spec fn byte_strings(v: Seq<Vec<u8>>) -> Seq<Seq<u8>> {
    v.map_values(|b: Vec<u8>| b@)
}

/// A stored value that can answer a query: it decodes as a cache entry whose
/// message decodes.
pub open spec fn usable_entry(stored: Option<Seq<u8>>) -> Option<CacheEntryView> {
    match decoded_opt(stored) {
        Some(e) => if message_answer_ttls(e.data) is Some {
            Some(e)
        } else {
            None
        },
        None => None,
    }
}

/// The reply served from the entry stored for the ancestor at `depth`.
pub open spec fn stored_reply(q: Query, depth: int, e: CacheEntryView) -> ReplyView {
    ReplyView {
        answer: AnswerView::Stored { data: e.data, owner: ancestor(q.qname, depth) },
        authoritative: true,
        expires_at: e.expires_at,
        refresh: !q.offline && e.expires_at <= q.now,
    }
}

/// The reply saying that the name exists but has no record of the type asked.
pub open spec fn nodata_reply(q: Query) -> ReplyView {
    ReplyView {
        answer: AnswerView::Empty { rcode: Rcode::NoError },
        authoritative: true,
        expires_at: (q.now + 60) as u64,
        refresh: false,
    }
}

/// The lowercase presentation form of the query name.
pub open spec fn query_text(q: Query) -> Seq<char> {
    lowercase_text(name_text(q.qname))
}

/// A name that operating systems look up to detect a captive portal.
pub open spec fn is_connectivity_check(text: Seq<char>) -> bool {
    ||| contains_text(text, "detectportal"@)
    ||| contains_text(text, "connectivitycheck"@)
    ||| contains_text(text, "msftconnecttest"@)
    ||| contains_text(text, "captive.apple.com"@)
    ||| contains_text(text, "gstatic.com/generate_204"@)
}

/// A query that browsers send in the background and that is silenced offline.
pub open spec fn is_noisy(qtype: u16, text: Seq<char>) -> bool {
    qtype == TYPE_AAAA || qtype == TYPE_HTTPS || qtype == TYPE_PTR || contains_text(text, "arpa"@)
}

/// What happens when the store does not answer: the offline rules, or the
/// upstream resolver.
pub open spec fn fallback(q: Query) -> StepView {
    let text = query_text(q);
    if q.offline && is_connectivity_check(text) {
        StepView::Respond {
            reply: ReplyView {
                answer: if q.qtype == TYPE_A {
                    AnswerView::Loopback
                } else {
                    AnswerView::Empty { rcode: Rcode::NoError }
                },
                authoritative: true,
                expires_at: (q.now + 30) as u64,
                refresh: false,
            },
        }
    } else if q.offline {
        StepView::Respond {
            reply: ReplyView {
                answer: AnswerView::Empty {
                    rcode: if is_noisy(q.qtype, text) {
                        Rcode::NoError
                    } else {
                        Rcode::ServFail
                    },
                },
                authoritative: true,
                expires_at: (q.now + 30) as u64,
                refresh: false,
            },
        }
    } else {
        StepView::Resolve
    }
}

/// The reply once the upstream resolver has answered (`None` when it failed or
/// timed out): its message is relayed when it decodes, otherwise SERVFAIL.
pub open spec fn upstream_reply(q: Query, upstream: Option<Seq<u8>>) -> ReplyView {
    match upstream {
        Some(d) => if message_answer_ttls(d) is Some {
            ReplyView {
                answer: AnswerView::Upstream { data: d },
                authoritative: false,
                expires_at: (q.now + 300) as u64,
                refresh: false,
            }
        } else {
            ReplyView {
                answer: AnswerView::Empty { rcode: Rcode::ServFail },
                authoritative: false,
                expires_at: q.now,
                refresh: false,
            }
        },
        None => ReplyView {
            answer: AnswerView::Empty { rcode: Rcode::ServFail },
            authoritative: false,
            expires_at: q.now,
            refresh: false,
        },
    }
}

/// The next phase and step after the store answered `stored` in `phase`.
pub open spec fn after_read(q: Query, phase: Phase, stored: Option<Seq<u8>>) -> (Phase, StepView) {
    match phase {
        Phase::Deep { depth } => match usable_entry(stored) {
            Some(e) => (phase, StepView::Respond { reply: stored_reply(q, depth as int, e) }),
            None => if depth < last_depth(q.qname) {
                let next = Phase::Deep { depth: (depth + 1) as usize };
                (next, StepView::Read { key: phase_key(q, next) })
            } else {
                (Phase::Exists, StepView::Scan { prefix: name_prefix(q) })
            },
        },
        _ => (phase, StepView::Resolve),
    }
}

/// The next phase and step once the values under the name's prefix are known:
/// NODATA when one of them decodes, otherwise the offline rules or the
/// upstream resolver.
pub open spec fn after_scan(q: Query, values: Seq<Seq<u8>>) -> (Phase, StepView) {
    if any_decodes(values) {
        (Phase::Exists, StepView::Respond { reply: nodata_reply(q) })
    } else {
        (Phase::Upstream, fallback(q))
    }
}

/// How the existence check ends on a store.
pub open spec fn scan_outcome(q: Query, store: Map<Seq<u8>, Seq<u8>>) -> StepView {
    if name_exists(q, store) {
        StepView::Respond { reply: nodata_reply(q) }
    } else {
        fallback(q)
    }
}

/// The value a store holds under a key.
pub open spec fn read(store: Map<Seq<u8>, Seq<u8>>, key: Seq<u8>) -> Option<Seq<u8>> {
    if store.contains_key(key) {
        Some(store[key])
    } else {
        None
    }
}

/// How far a phase is from the end of the store reads.
pub open spec fn phase_measure(q: Query, phase: Phase) -> nat {
    match phase {
        Phase::Deep { depth } => (last_depth(q.qname) - depth + 2) as nat,
        Phase::Exists => 1,
        Phase::Upstream => 0,
    }
}

/// A phase that a query can be in.
pub open spec fn phase_ok(q: Query, phase: Phase) -> bool {
    match phase {
        Phase::Deep { depth } => depth <= last_depth(q.qname),
        Phase::Exists => true,
        Phase::Upstream => true,
    }
}

/// The step a query ends with when every read is answered from `store`:
/// a reply, or the request to ask upstream.
pub open spec fn run(q: Query, store: Map<Seq<u8>, Seq<u8>>, phase: Phase) -> StepView
    decreases phase_measure(q, phase),
{
    if !phase_ok(q, phase) || phase is Upstream {
        StepView::Resolve
    } else if phase is Exists {
        scan_outcome(q, store)
    } else {
        let (next, step) = after_read(q, phase, read(store, phase_key(q, phase)));
        match step {
            StepView::Read { .. } => if phase_measure(q, next) < phase_measure(q, phase) {
                run(q, store, next)
            } else {
                StepView::Resolve
            },
            StepView::Scan { .. } => scan_outcome(q, store),
            _ => step,
        }
    }
}

/// The ancestor depth that answers a query from `store`: the smallest depth
/// whose entry is usable.
pub open spec fn answering_depth(q: Query, store: Map<Seq<u8>, Seq<u8>>, d: int) -> bool {
    &&& 0 <= d <= last_depth(q.qname)
    &&& usable_entry(read(store, deep_key(q, d))) is Some
    &&& forall|k: int|
        0 <= k < d ==> usable_entry(
            #[trigger] read(store, deep_key(q, k)),
        ) is None
}

/// The store holds a decodable entry for the query name under some record
/// type: under some key that begins with the name's prefix.
pub open spec fn name_exists(q: Query, store: Map<Seq<u8>, Seq<u8>>) -> bool {
    exists|k: Seq<u8>|
        #[trigger] store.dom().contains(k) && has_prefix(k, name_prefix(q)) && decoded(store[k])
            is Some
}

/// How a query is answered from a store, stated directly: from the nearest
/// ancestor with a usable entry; else NODATA when the name exists; else the
/// offline rules or the upstream resolver.
pub open spec fn decide(q: Query, store: Map<Seq<u8>, Seq<u8>>) -> StepView {
    if exists|d: int| answering_depth(q, store, d) {
        let d = choose|d: int| answering_depth(q, store, d);
        StepView::Respond {
            reply: stored_reply(
                q,
                d,
                usable_entry(read(store, deep_key(q, d))).unwrap(),
            ),
        }
    } else if name_exists(q, store) {
        StepView::Respond { reply: nodata_reply(q) }
    } else {
        fallback(q)
    }
}

/// The ancestor lookups from `depth` on end as `decide` says.
proof fn lemma_run_deep(q: Query, store: Map<Seq<u8>, Seq<u8>>, depth: int)
    requires
        q.qname.labels.len() <= usize::MAX,
        0 <= depth <= last_depth(q.qname),
        forall|k: int|
            0 <= k < depth ==> usable_entry(
                #[trigger] read(store, deep_key(q, k)),
            ) is None,
    ensures
        run(q, store, Phase::Deep { depth: depth as usize }) == decide(q, store),
    decreases last_depth(q.qname) - depth,
{
    let p = Phase::Deep { depth: depth as usize };
    let v = read(store, phase_key(q, p));
    if usable_entry(v) is Some {
        assert(answering_depth(q, store, depth));
        let d = choose|d: int| answering_depth(q, store, d);
        if d < depth {
        } else if d > depth {
            assert(usable_entry(
                read(store, deep_key(q, depth)),
            ) is None);
        }
        assert(d == depth);
    } else {
        if depth < last_depth(q.qname) {
            lemma_run_deep(q, store, depth + 1);
        } else {
            assert forall|d: int| !answering_depth(q, store, d) by {
                if answering_depth(q, store, d) && d < depth {
                    assert(usable_entry(#[trigger] read(store, deep_key(q, d))) is None);
                }
            }
        }
    }
}

/// Answering a query step by step from a store gives the answer that `decide`
/// states: the nearest ancestor with a usable entry wins, then NODATA, then the
/// offline rules, then the upstream resolver.
pub proof fn lemma_query_answered_as_decided(q: Query, store: Map<Seq<u8>, Seq<u8>>)
    requires
        q.qname.labels.len() <= usize::MAX,
    ensures
        run(q, store, Phase::Deep { depth: 0 }) == decide(q, store),
{
    lemma_run_deep(q, store, 0);
}

/// The existence step, answered with the values stored under the name's
/// prefix, ends as `decide` says it does.
pub proof fn lemma_scan_answers_existence(
    q: Query,
    store: Map<Seq<u8>, Seq<u8>>,
    values: Seq<Seq<u8>>,
)
    requires
        lists_prefixed(store, name_prefix(q), values),
    ensures
        after_scan(q, values).1 == scan_outcome(q, store),
{
    if any_decodes(values) {
        let i = choose|i: int| 0 <= i < values.len() && decoded(#[trigger] values[i]) is Some;
        let k = choose|k: Seq<u8>|
            #[trigger] store.dom().contains(k) && has_prefix(k, name_prefix(q)) && values[i]
                == store[k];
        assert(name_exists(q, store));
    } else if name_exists(q, store) {
        let k = choose|k: Seq<u8>|
            #[trigger] store.dom().contains(k) && has_prefix(k, name_prefix(q)) && decoded(
                store[k],
            ) is Some;
        assert(values.contains(store[k]));
        let i = choose|i: int| 0 <= i < values.len() && values[i] == store[k];
        assert(decoded(values[i]) is Some);
    }
}

/// UTF-8 encoding maps concatenation to concatenation.
proof fn lemma_encode_concat(a: Seq<char>, b: Seq<char>)
    ensures
        vstd::utf8::encode_utf8(a + b) == vstd::utf8::encode_utf8(a) + vstd::utf8::encode_utf8(b),
    decreases a.len(),
{
    if a.len() == 0 {
        assert(a + b =~= b);
        assert(vstd::utf8::encode_utf8(a) =~= Seq::<u8>::empty());
        assert(Seq::<u8>::empty() + vstd::utf8::encode_utf8(b) =~= vstd::utf8::encode_utf8(b));
    } else {
        assert((a + b).drop_first() =~= a.drop_first() + b);
        assert((a + b)[0] == a[0]);
        lemma_encode_concat(a.drop_first(), b);
        assert(vstd::utf8::encode_utf8(a + b) =~= vstd::utf8::encode_utf8(a)
            + vstd::utf8::encode_utf8(b));
    }
}

/// Every record type counts for existence: a decodable entry stored for the
/// query name under any record type makes the name exist.
pub proof fn lemma_any_type_shows_existence(q: Query, store: Map<Seq<u8>, Seq<u8>>, t: u16)
    requires
        decoded_opt(read(store, store_key(q.qname, t))) is Some,
    ensures
        name_exists(q, store),
{
    let k = store_key(q.qname, t);
    let a = name_text(q.qname) + seq![':'];
    assert(crate::names::key_text(q.qname, t) =~= a + crate::names::record_type_name(t));
    lemma_encode_concat(a, crate::names::record_type_name(t));
    let p = name_prefix(q);
    assert(k.subrange(0, p.len() as int) =~= p);
    assert(store.dom().contains(k) && has_prefix(k, p) && decoded(store[k]) is Some);
}

/// No ancestor of the query name (the name itself included) holds a usable
/// entry for the query's record type.
pub open spec fn no_ancestor_answers(q: Query, store: Map<Seq<u8>, Seq<u8>>) -> bool {
    forall|d: int|
        0 <= d <= last_depth(q.qname) ==> usable_entry(#[trigger] read(store, deep_key(q, d)))
            is None
}

/// When no ancestor answers, no depth is an answering depth.
proof fn lemma_no_answering_depth(q: Query, store: Map<Seq<u8>, Seq<u8>>)
    requires
        no_ancestor_answers(q, store),
    ensures
        !(exists|d: int| answering_depth(q, store, d)),
{
    assert forall|d: int| !answering_depth(q, store, d) by {
        if 0 <= d <= last_depth(q.qname) {
            assert(usable_entry(read(store, deep_key(q, d))) is None);
        }
    }
}

/// Online, a query that no stored entry answers and whose name does not exist
/// in the store is sent to the upstream resolver, whatever its record type or
/// name.
pub proof fn lemma_online_unanswered_goes_upstream(q: Query, store: Map<Seq<u8>, Seq<u8>>)
    requires
        !q.offline,
        no_ancestor_answers(q, store),
        !name_exists(q, store),
    ensures
        decide(q, store) == StepView::Resolve,
{
    lemma_no_answering_depth(q, store);
}

/// Offline, a query that the store does not answer, for a name whose lowercase
/// form contains one of the connectivity-check markers, is answered
/// authoritatively for 30 seconds: with the loopback address for an A query,
/// and with an empty NOERROR answer for any other record type.
pub proof fn lemma_offline_portal_probe_answered(q: Query, store: Map<Seq<u8>, Seq<u8>>)
    requires
        q.offline,
        no_ancestor_answers(q, store),
        !name_exists(q, store),
        ({
            let t = lowercase_text(name_text(q.qname));
            ||| contains_text(t, "detectportal"@)
            ||| contains_text(t, "connectivitycheck"@)
            ||| contains_text(t, "msftconnecttest"@)
            ||| contains_text(t, "captive.apple.com"@)
            ||| contains_text(t, "gstatic.com/generate_204"@)
        }),
    ensures
        decide(q, store) == (StepView::Respond {
            reply: ReplyView {
                answer: if q.qtype == 1 {
                    AnswerView::Loopback
                } else {
                    AnswerView::Empty { rcode: Rcode::NoError }
                },
                authoritative: true,
                expires_at: (q.now + 30) as u64,
                refresh: false,
            },
        }),
{
    lemma_no_answering_depth(q, store);
}

/// Offline, a query that the store does not answer and that is no
/// connectivity check is answered authoritatively for 30 seconds with an empty
/// answer: NOERROR for AAAA (28), HTTPS (65) and PTR (12) queries and for names
/// containing "arpa", SERVFAIL for everything else.
pub proof fn lemma_offline_unanswered_is_silenced_or_fails(q: Query, store: Map<Seq<u8>, Seq<u8>>)
    requires
        q.offline,
        no_ancestor_answers(q, store),
        !name_exists(q, store),
        ({
            let t = lowercase_text(name_text(q.qname));
            &&& !contains_text(t, "detectportal"@)
            &&& !contains_text(t, "connectivitycheck"@)
            &&& !contains_text(t, "msftconnecttest"@)
            &&& !contains_text(t, "captive.apple.com"@)
            &&& !contains_text(t, "gstatic.com/generate_204"@)
        }),
    ensures
        decide(q, store) == (StepView::Respond {
            reply: ReplyView {
                answer: AnswerView::Empty {
                    rcode: if q.qtype == 28 || q.qtype == 65 || q.qtype == 12 || contains_text(
                        lowercase_text(name_text(q.qname)),
                        "arpa"@,
                    ) {
                        Rcode::NoError
                    } else {
                        Rcode::ServFail
                    },
                },
                authoritative: true,
                expires_at: (q.now + 30) as u64,
                refresh: false,
            },
        }),
{
    lemma_no_answering_depth(q, store);
}

/// The TTL of a reply's records: 30 seconds offline; online, 10 seconds once
/// `expires_at` has passed, and otherwise the time left, capped at an hour.
pub proof fn lemma_reply_ttl_is_time_left(offline: bool, expires_at: u64, now: u64)
    ensures
        offline ==> reply_ttl(offline, expires_at, now) == 30,
        !offline && expires_at <= now ==> reply_ttl(offline, expires_at, now) == 10,
        !offline && now < expires_at && expires_at - now <= 3600 ==> reply_ttl(
            offline,
            expires_at,
            now,
        ) == expires_at - now,
        !offline && now < expires_at && expires_at - now > 3600 ==> reply_ttl(
            offline,
            expires_at,
            now,
        ) == 3600,
{
}

/// Offline, a query is never sent upstream.
pub proof fn lemma_offline_never_resolves(q: Query, store: Map<Seq<u8>, Seq<u8>>)
    requires
        q.offline,
    ensures
        !(decide(q, store) is Resolve),
{
}

/// The TTL given to the records of a reply: 30 seconds offline; online, the
/// time left until `expires_at`, at most an hour, and 10 seconds when that time
/// has passed.
pub open spec fn reply_ttl(offline: bool, expires_at: u64, now: u64) -> u32 {
    if offline {
        30
    } else if expires_at <= now {
        10
    } else if expires_at - now <= 3600 {
        (expires_at - now) as u32
    } else {
        3600
    }
}

/// The TTL given to the records of a reply sent at time `now`.
pub fn response_ttl(offline: bool, expires_at: u64, now: u64) -> (r: u32)
    ensures
        r == reply_ttl(offline, expires_at, now),
        r <= 3600,
        offline ==> r == 30,
        !offline && expires_at <= now ==> r == 10,
        !offline && now < expires_at && expires_at - now <= 3600 ==> r == expires_at - now,
        !offline && now < expires_at && expires_at - now > 3600 ==> r == 3600,
{
    if offline {
        30
    } else if expires_at <= now {
        10
    } else {
        let left = expires_at - now;
        if left <= 3600 {
            left as u32
        } else {
            3600
        }
    }
}

/// A query being answered.
pub struct RequestPlan {
    pub qname: DomainName,
    pub qtype: u16,
    pub now: u64,
    pub offline: bool,
    pub lower: String,
    pub phase: Phase,
}

impl RequestPlan {
    /// The query this plan answers.
    pub open spec fn query(&self) -> Query {
        Query { qname: self.qname@, qtype: self.qtype, now: self.now, offline: self.offline }
    }

    /// The plan's invariant: the lowercase text is that of the query name, the
    /// phase is one the query can be in, and the clock leaves room for the
    /// reply lifetimes.
    pub open spec fn wf(&self) -> bool {
        &&& self.lower@ == query_text(self.query())
        &&& phase_ok(self.query(), self.phase)
        &&& self.now <= u64::MAX - 300
    }

    /// Starts answering a query for `qname` and record type `qtype` that
    /// arrived at `now`; the first step reads the store under the query name.
    pub fn begin(qname: DomainName, qtype: u16, now: u64, offline: bool) -> (r: (
        RequestPlan,
        Step,
    ))
        requires
            now <= u64::MAX - 300,
        ensures
            r.0.wf(),
            r.0.qname@ == qname@,
            r.0.qtype == qtype,
            r.0.now == now,
            r.0.offline == offline,
            r.0.phase == (Phase::Deep { depth: 0 }),
            r.1@ == (StepView::Read { key: phase_key(r.0.query(), Phase::Deep { depth: 0 }) }),
    {
        let text = qname.to_text();
        let lower = to_lowercase(text.as_str());
        let key = store_key_for(&qname, qtype);
        let plan = RequestPlan { qname, qtype, now, offline, lower, phase: Phase::Deep { depth: 0 } };
        assert(plan.query().qname.labels.skip(0) =~= plan.query().qname.labels);
        (plan, Step::Read { key })
    }

    /// The key read in the current phase.
    fn current_key(&self) -> (r: Vec<u8>)
        requires
            self.wf(),
            !(self.phase is Upstream),
        ensures
            r@ == phase_key(self.query(), self.phase),
    {
        match self.phase {
            Phase::Deep { depth } => {
                let a = self.qname.ancestor(depth);
                store_key_for(&a, self.qtype)
            },
            _ => Vec::new(),
        }
    }

    /// The prefix shared by the keys of the query name.
    fn name_prefix(&self) -> (r: Vec<u8>)
        ensures
            r@ == name_prefix(self.query()),
    {
        proof {
            reveal_strlit(":");
        }
        let mut text = self.qname.to_text();
        text.append(":");
        assert(text@ =~= name_text(self.qname@) + seq![':']);
        text.as_str().as_bytes_vec()
    }

    /// The steps once the store has nothing for the query: the offline rules,
    /// or the upstream resolver.
    fn fallback_step(&self) -> (r: Step)
        requires
            self.wf(),
        ensures
            r@ == fallback(self.query()),
    {
        proof {
            reveal_strlit("detectportal");
        }
        let text = self.lower.as_str();
        let portal = contains(text, "detectportal") || contains(text, "connectivitycheck")
            || contains(text, "msftconnecttest") || contains(text, "captive.apple.com")
            || contains(text, "gstatic.com/generate_204");
        if self.offline && portal {
            let answer = if self.qtype == TYPE_A {
                Answer::Loopback
            } else {
                Answer::Empty { rcode: Rcode::NoError }
            };
            Step::Respond {
                reply: Reply { answer, authoritative: true, expires_at: self.now + 30, refresh: false },
            }
        } else if self.offline {
            let noisy = self.qtype == TYPE_AAAA || self.qtype == TYPE_HTTPS || self.qtype == TYPE_PTR
                || contains(text, "arpa");
            let rcode = if noisy {
                Rcode::NoError
            } else {
                Rcode::ServFail
            };
            Step::Respond {
                reply: Reply {
                    answer: Answer::Empty { rcode },
                    authoritative: true,
                    expires_at: self.now + 30,
                    refresh: false,
                },
            }
        } else {
            Step::Resolve
        }
    }

    /// Takes what the store holds under the key of the last `Read` step
    /// (`None` when nothing could be read) and gives the next step.
    pub fn on_read(&mut self, stored: Option<Vec<u8>>) -> (r: Step)
        requires
            old(self).wf(),
            old(self).phase is Deep,
        ensures
            final(self).wf(),
            final(self).query() == old(self).query(),
            (final(self).phase, r@) == after_read(
                old(self).query(),
                old(self).phase,
                bytes_of(stored),
            ),
    {
        match self.phase {
            Phase::Deep { depth } => {
                let entry = match stored {
                    Some(b) => CacheEntry::from_bytes(b.as_slice()),
                    None => None,
                };
                let usable = match entry {
                    Some(e) => match answer_ttls(e.data.as_slice()) {
                        Some(_) => Some(e),
                        None => None,
                    },
                    None => None,
                };
                match usable {
                    Some(e) => {
                        let owner = self.qname.ancestor(depth);
                        let refresh = !self.offline && e.expires_at <= self.now;
                        Step::Respond {
                            reply: Reply {
                                answer: Answer::Stored { data: e.data, owner },
                                authoritative: true,
                                expires_at: e.expires_at,
                                refresh,
                            },
                        }
                    },
                    None => {
                        let n = self.qname.label_count();
                        let last: usize = if n <= 1 {
                            0
                        } else {
                            n - 1
                        };
                        if depth < last {
                            self.phase = Phase::Deep { depth: depth + 1 };
                            let key = self.current_key();
                            Step::Read { key }
                        } else {
                            self.phase = Phase::Exists;
                            let prefix = self.name_prefix();
                            Step::Scan { prefix }
                        }
                    },
                }
            },
            _ => Step::Resolve,
        }
    }

    /// Takes every value stored under the prefix of the last `Scan` step and
    /// gives the next step: NODATA when one of them decodes as a cache entry,
    /// otherwise the offline rules or the upstream resolver.
    pub fn on_scan(&mut self, values: Vec<Vec<u8>>) -> (r: Step)
        requires
            old(self).wf(),
            old(self).phase is Exists,
        ensures
            final(self).wf(),
            final(self).query() == old(self).query(),
            (final(self).phase, r@) == after_scan(old(self).query(), byte_strings(values@)),
    {
        let n = values.len();
        let mut i: usize = 0;
        while i < n
            invariant
                n == values@.len(),
                i <= n,
                self.wf(),
                self.phase is Exists,
                self.query() == old(self).query(),
                forall|j: int| 0 <= j < i ==> decoded(#[trigger] byte_strings(values@)[j]) is None,
            decreases n - i,
        {
            let found = CacheEntry::from_bytes(values[i].as_slice());
            if found.is_some() {
                assert(decoded(byte_strings(values@)[i as int]) is Some);
                return Step::Respond {
                    reply: Reply {
                        answer: Answer::Empty { rcode: Rcode::NoError },
                        authoritative: true,
                        expires_at: self.now + 60,
                        refresh: false,
                    },
                };
            }
            i = i + 1;
        }
        self.phase = Phase::Upstream;
        self.fallback_step()
    }

    /// The reply once the upstream resolver has answered (`None` when it
    /// failed or timed out).
    pub fn on_resolved(&self, upstream: Option<Vec<u8>>) -> (r: Reply)
        requires
            self.wf(),
        ensures
            r@ == upstream_reply(
                self.query(),
                bytes_of(upstream),
            ),
    {
        match upstream {
            Some(d) => {
                if answer_ttls(d.as_slice()).is_some() {
                    Reply {
                        answer: Answer::Upstream { data: d },
                        authoritative: false,
                        expires_at: self.now + 300,
                        refresh: false,
                    }
                } else {
                    Reply {
                        answer: Answer::Empty { rcode: Rcode::ServFail },
                        authoritative: false,
                        expires_at: self.now,
                        refresh: false,
                    }
                }
            },
            None => Reply {
                answer: Answer::Empty { rcode: Rcode::ServFail },
                authoritative: false,
                expires_at: self.now,
                refresh: false,
            },
        }
    }
}

} // verus!
