//! Subscription tracking for reconnect replay and response correlation.
//!
//! Every live subscription is tracked once, by identity (`(kind, contract)`
//! per contract, `(kind, security type)` for a full stream); the tracked
//! lists are what a reconnect replays. A subscribe that adds a tracked entry
//! also records a correlation from its request id to that identity, so a
//! server rejection of that request untracks exactly that entry. A repeated
//! subscribe shares the live entry and records no correlation; an
//! unsubscribe removes the entry and evicts its correlation, so a late
//! rejection of a superseded request can never untrack a re-subscription.

use vstd::prelude::*;
use vstd::std_specs::iter::IteratorSpec;
use vstd::string::StringExecFns;

use std::collections::HashMap;

use crate::contract::{contract_key, Contract, ContractKey};
use crate::enums::{SecType, StreamMsgType, StreamResponseType};
use crate::error::{Error, StreamErrorKind};
use crate::builder::{at_least_one, clamp_burst};
use crate::subscription::{
    full_as_kind, full_stream_sec_type_supported, spec_subscribe_code, spec_unsubscribe_code,
    FullSubscriptionKind, SubscriptionKind,
};
use crate::text::{nat_digits, unsigned_decimal_string};

verus! {

broadcast use vstd::std_specs::hash::group_hash_axioms;

/// Capacity of the bounded command queue from the client API to the I/O
/// thread; a send into a full queue fails instead of growing it.
pub const CMD_CHANNEL_CAPACITY: usize = 16_384;

/// A command for the I/O thread.
#[derive(Debug)]
pub enum IoCommand {
    /// Write one frame with this code and payload.
    WriteFrame { code: StreamMsgType, payload: Vec<u8> },
    /// Stop the I/O loop.
    Shutdown,
}

/// The wire request id of allocation counter value `counter`: the counter
/// modulo `2^31`, always a non-negative `i32`.
pub open spec fn spec_wire_req_id(counter: i64) -> i32 {
    (counter as int % 0x8000_0000) as i32
}

/// Mask the request counter down to the positive 31-bit wire id space.
pub fn wire_req_id(counter_value: i64) -> (r: i32)
    ensures
        r == spec_wire_req_id(counter_value),
        r >= 0,
{
    let masked: i64 = counter_value & 0x7FFF_FFFFi64;
    assert(masked == counter_value % 0x8000_0000i64 && 0 <= masked < 0x8000_0000i64) by (bit_vector)
        requires
            masked == counter_value & 0x7FFF_FFFFi64,
    ;
    masked as i32
}

/// An in-flight subscribe awaiting its response.
#[derive(Debug)]
pub enum PendingSub {
    Contract(SubscriptionKind, Contract),
    Full(SubscriptionKind, SecType),
}

/// The identity a correlation untracks.
pub enum SubKey {
    Contract(SubscriptionKind, ContractKey),
    Full(SubscriptionKind, SecType),
}

/// The identity of an in-flight subscribe.
pub open spec fn pending_key(p: PendingSub) -> SubKey {
    match p {
        PendingSub::Contract(kind, c) => SubKey::Contract(kind, contract_key(c)),
        PendingSub::Full(kind, s) => SubKey::Full(kind, s),
    }
}

/// The abstract state of a registry.
pub struct RegistryModel {
    /// Tracked per-contract subscriptions, in subscription order.
    pub live: Seq<(SubscriptionKind, ContractKey)>,
    /// Tracked full-stream subscriptions, in subscription order.
    pub live_full: Seq<(SubscriptionKind, SecType)>,
    /// Request id to identity, for subscribes awaiting their response.
    pub correlations: Map<i32, SubKey>,
    /// The request-id counter value the next allocation uses.
    pub next_req_id: i64,
}

/// `m` after a request id was allocated: the counter moves on by one.
pub open spec fn model_allocate(m: RegistryModel) -> RegistryModel {
    RegistryModel { next_req_id: m.next_req_id.wrapping_add(1), ..m }
}

/// `s` without its element `x` (unchanged when `x` is absent).
pub open spec fn seq_without<T>(s: Seq<T>, x: T) -> Seq<T> {
    if s.contains(x) {
        s.remove(choose|i: int| 0 <= i < s.len() && s[i] == x)
    } else {
        s
    }
}

/// Whether some correlation is keyed by `req_id`.
pub open spec fn has_req(c: Map<i32, SubKey>, req_id: i32) -> bool {
    c.contains_key(req_id)
}

/// The correlations without the one keyed by `req_id`.
pub open spec fn without_req(c: Map<i32, SubKey>, req_id: i32) -> Map<i32, SubKey> {
    c.remove(req_id)
}

/// Whether some correlation names identity `k`.
pub open spec fn has_key(c: Map<i32, SubKey>, k: SubKey) -> bool {
    exists|r: i32| c.contains_key(r) && #[trigger] c[r] == k
}

/// The correlations without the one naming identity `k`.
pub open spec fn without_key(c: Map<i32, SubKey>, k: SubKey) -> Map<i32, SubKey> {
    if has_key(c, k) {
        c.remove(choose|r: i32| c.contains_key(r) && c[r] == k)
    } else {
        c
    }
}

/// Whether identity `k` is tracked.
pub open spec fn key_live(m: RegistryModel, k: SubKey) -> bool {
    match k {
        SubKey::Contract(kind, ck) => m.live.contains((kind, ck)),
        SubKey::Full(kind, s) => m.live_full.contains((kind, s)),
    }
}

/// The registry invariant: nothing is tracked twice, every correlation
/// names a tracked identity, and no two correlations name the same
/// identity (a request id holds one correlation at most, being a key).
pub open spec fn model_wf(m: RegistryModel) -> bool {
    &&& m.live.no_duplicates()
    &&& m.live_full.no_duplicates()
    &&& forall|r: i32| #[trigger] m.correlations.contains_key(r) ==> key_live(m, m.correlations[r])
    &&& correlations_distinct(m.correlations)
}

/// Subscribe to identity `k` under request `req_id`: a new identity is
/// tracked and correlated; an already-tracked one changes nothing.
pub open spec fn model_track(m: RegistryModel, k: SubKey, req_id: i32) -> RegistryModel {
    if key_live(m, k) {
        m
    } else {
        let correlations = m.correlations.insert(req_id, k);
        match k {
            SubKey::Contract(kind, ck) => RegistryModel { live: m.live.push((kind, ck)), correlations, ..m },
            SubKey::Full(kind, s) => RegistryModel {
                live_full: m.live_full.push((kind, s)),
                correlations,
                ..m
            },
        }
    }
}

/// `m` with identity `k` no longer tracked.
pub open spec fn model_untrack(m: RegistryModel, k: SubKey) -> RegistryModel {
    match k {
        SubKey::Contract(kind, ck) => RegistryModel { live: seq_without(m.live, (kind, ck)), ..m },
        SubKey::Full(kind, s) => RegistryModel { live_full: seq_without(m.live_full, (kind, s)), ..m },
    }
}

/// Unsubscribe identity `k`: untrack it and evict its correlation.
pub open spec fn model_forget(m: RegistryModel, k: SubKey) -> RegistryModel {
    let u = model_untrack(m, k);
    RegistryModel { correlations: without_key(m.correlations, k), ..u }
}

/// Undo a subscribe whose frame never left: drop correlation `req_id`,
/// untrack `k` and evict any correlation still naming it.
pub open spec fn model_rollback(m: RegistryModel, req_id: i32, k: SubKey) -> RegistryModel {
    let u = model_untrack(m, k);
    RegistryModel { correlations: without_key(without_req(m.correlations, req_id), k), ..u }
}

/// The correlation keyed by `req_id` (meaningful when `has_req`).
pub open spec fn req_key(c: Map<i32, SubKey>, req_id: i32) -> SubKey {
    c[req_id]
}

/// The server answered request `req_id`: its correlation resolves, and a
/// refusal untracks the identity it names. A response with no resident
/// correlation changes nothing.
pub open spec fn model_response(m: RegistryModel, req_id: i32, result: StreamResponseType) -> RegistryModel {
    if !has_req(m.correlations, req_id) {
        m
    } else {
        let k = req_key(m.correlations, req_id);
        let resolved = RegistryModel { correlations: without_req(m.correlations, req_id), ..m };
        if result == StreamResponseType::Subscribed {
            resolved
        } else {
            model_untrack(resolved, k)
        }
    }
}

/// Removing a present element from a duplicate-free sequence removes
/// exactly that element.
pub proof fn lemma_seq_without<T>(s: Seq<T>, x: T)
    requires
        s.no_duplicates(),
    ensures
        seq_without(s, x).no_duplicates(),
        !seq_without(s, x).contains(x),
        forall|y: T| y != x ==> (seq_without(s, x).contains(y) <==> s.contains(y)),
{
    if s.contains(x) {
        let i = choose|i: int| 0 <= i < s.len() && s[i] == x;
        let r = s.remove(i);
        assert forall|a: int, b: int| 0 <= a < b < r.len() implies r[a] != r[b] by {
            let a2 = if a < i { a } else { a + 1 };
            let b2 = if b < i { b } else { b + 1 };
            assert(r[a] == s[a2] && r[b] == s[b2]);
        }
        assert forall|y: T| y != x implies (r.contains(y) <==> s.contains(y)) by {
            if s.contains(y) {
                let j = choose|j: int| 0 <= j < s.len() && s[j] == y;
                if j < i {
                    assert(r[j] == y);
                } else {
                    assert(j != i);
                    assert(r[j - 1] == y);
                }
            }
            if r.contains(y) {
                let j = choose|j: int| 0 <= j < r.len() && r[j] == y;
                if j < i {
                    assert(s[j] == y);
                } else {
                    assert(s[j + 1] == y);
                }
            }
        }
        if r.contains(x) {
            let j = choose|j: int| 0 <= j < r.len() && r[j] == x;
            if j < i {
                assert(s[j] == x);
            } else {
                assert(s[j + 1] == x);
            }
        }
    }
}

/// Whether the correlations name distinct identities.
pub open spec fn correlations_distinct(c: Map<i32, SubKey>) -> bool {
    forall|r1: i32, r2: i32|
        #[trigger] c.contains_key(r1) && #[trigger] c.contains_key(r2) && r1 != r2 ==> c[r1] != c[r2]
}

/// `without_req` removes exactly the correlation keyed by `req_id`.
pub proof fn lemma_without_req(c: Map<i32, SubKey>, req_id: i32)
    requires
        correlations_distinct(c),
    ensures
        correlations_distinct(without_req(c, req_id)),
        !has_req(without_req(c, req_id), req_id),
        forall|r: i32| #[trigger] without_req(c, req_id).contains_key(r) <==> (c.contains_key(r) && r != req_id),
        forall|r: i32| #[trigger] without_req(c, req_id).contains_key(r) ==> without_req(c, req_id)[r] == c[r],
{
}

/// `without_key` removes exactly the correlation naming identity `k`.
pub proof fn lemma_without_key(c: Map<i32, SubKey>, k: SubKey)
    requires
        correlations_distinct(c),
    ensures
        correlations_distinct(without_key(c, k)),
        !has_key(without_key(c, k), k),
        forall|r: i32| #[trigger] without_key(c, k).contains_key(r) <==> (c.contains_key(r) && c[r] != k),
        forall|r: i32| #[trigger] without_key(c, k).contains_key(r) ==> without_key(c, k)[r] == c[r],
{
    if has_key(c, k) {
        let r0 = choose|r: i32| c.contains_key(r) && c[r] == k;
        let w = c.remove(r0);
        assert forall|r: i32| #[trigger] w.contains_key(r) <==> (c.contains_key(r) && c[r] != k) by {
            if c.contains_key(r) && r != r0 && c[r] == k {
                assert(c[r] != c[r0]);
            }
        }
        if has_key(w, k) {
            let r1 = choose|r: i32| w.contains_key(r) && w[r] == k;
            assert(c[r1] != c[r0]);
        }
    }
}

/// Appending an absent element keeps a sequence duplicate-free.
pub proof fn lemma_push_no_dup<T>(s: Seq<T>, x: T)
    requires
        s.no_duplicates(),
        !s.contains(x),
    ensures
        s.push(x).no_duplicates(),
        forall|y: T| #[trigger] s.push(x).contains(y) <==> (s.contains(y) || y == x),
{
    let p = s.push(x);
    assert forall|a: int, b: int| 0 <= a < b < p.len() implies p[a] != p[b] by {
        if b == s.len() {
            assert(p[a] == s[a]);
        } else {
            assert(p[a] == s[a] && p[b] == s[b]);
        }
    }
    assert forall|y: T| #[trigger] p.contains(y) <==> (s.contains(y) || y == x) by {
        if p.contains(y) {
            let j = choose|j: int| 0 <= j < p.len() && p[j] == y;
            if j < s.len() {
                assert(s[j] == y);
            }
        }
        if s.contains(y) {
            let j = choose|j: int| 0 <= j < s.len() && s[j] == y;
            assert(p[j] == y);
        }
        if y == x {
            assert(p[s.len() as int] == y);
        }
    }
}

/// Subscribing keeps the registry invariant.
pub proof fn track_preserves_wf(m: RegistryModel, k: SubKey, req_id: i32)
    requires
        model_wf(m),
    ensures
        model_wf(model_track(m, k, req_id)),
{
    if !key_live(m, k) {
        let m2 = model_track(m, k, req_id);
        match k {
            SubKey::Contract(kind, ck) => lemma_push_no_dup(m.live, (kind, ck)),
            SubKey::Full(kind, st) => lemma_push_no_dup(m.live_full, (kind, st)),
        }
        let c = m.correlations;
        let c2 = m2.correlations;
        assert(c2 == c.insert(req_id, k));
        assert forall|r: i32| #[trigger] c.contains_key(r) implies c[r] != k by {
            assert(key_live(m, c[r]));
        }
        assert forall|r: i32| #[trigger] c2.contains_key(r) implies key_live(m2, c2[r]) by {
            if r != req_id {
                assert(key_live(m, c[r]));
            }
        }
        assert forall|r1: i32, r2: i32|
            #[trigger] c2.contains_key(r1) && #[trigger] c2.contains_key(r2) && r1 != r2 implies c2[r1] != c2[r2] by {
            if r1 != req_id && r2 != req_id {
                assert(c[r1] != c[r2]);
            } else if r1 == req_id {
                assert(c.contains_key(r2));
            } else {
                assert(c.contains_key(r1));
            }
        }
    }
}

/// Untracking keeps every other identity live and the lists duplicate-free.
pub proof fn lemma_untrack(m: RegistryModel, k: SubKey)
    requires
        m.live.no_duplicates(),
        m.live_full.no_duplicates(),
    ensures
        model_untrack(m, k).live.no_duplicates(),
        model_untrack(m, k).live_full.no_duplicates(),
        !key_live(model_untrack(m, k), k),
        forall|j: SubKey| j != k ==> (key_live(model_untrack(m, k), j) <==> key_live(m, j)),
        model_untrack(m, k).correlations == m.correlations,
{
    match k {
        SubKey::Contract(kind, ck) => {
            lemma_seq_without(m.live, (kind, ck));
        },
        SubKey::Full(kind, st) => {
            lemma_seq_without(m.live_full, (kind, st));
        },
    }
}

/// Unsubscribing keeps the registry invariant.
pub proof fn forget_preserves_wf(m: RegistryModel, k: SubKey)
    requires
        model_wf(m),
    ensures
        model_wf(model_forget(m, k)),
{
    lemma_untrack(m, k);
    lemma_without_key(m.correlations, k);
    let m2 = model_forget(m, k);
    assert forall|r: i32| #[trigger] m2.correlations.contains_key(r) implies key_live(m2, m2.correlations[r]) by {
        assert(key_live(m, m.correlations[r]));
    }
}

/// Rolling back a subscribe keeps the registry invariant.
pub proof fn rollback_preserves_wf(m: RegistryModel, req_id: i32, k: SubKey)
    requires
        model_wf(m),
    ensures
        model_wf(model_rollback(m, req_id, k)),
{
    lemma_untrack(m, k);
    lemma_without_req(m.correlations, req_id);
    let w = without_req(m.correlations, req_id);
    lemma_without_key(w, k);
    let m2 = model_rollback(m, req_id, k);
    assert forall|r: i32| #[trigger] m2.correlations.contains_key(r) implies key_live(m2, m2.correlations[r]) by {
        assert(w.contains_key(r));
        assert(key_live(m, m.correlations[r]));
    }
}

/// A server response keeps the registry invariant.
pub proof fn response_preserves_wf(m: RegistryModel, req_id: i32, result: StreamResponseType)
    requires
        model_wf(m),
    ensures
        model_wf(model_response(m, req_id, result)),
{
    if has_req(m.correlations, req_id) {
        let k = req_key(m.correlations, req_id);
        lemma_without_req(m.correlations, req_id);
        let resolved = RegistryModel { correlations: without_req(m.correlations, req_id), ..m };
        assert forall|r: i32| #[trigger] resolved.correlations.contains_key(r) implies key_live(
            resolved,
            resolved.correlations[r],
        ) by {
            assert(key_live(m, m.correlations[r]));
        }
        if result != StreamResponseType::Subscribed {
            lemma_untrack(resolved, k);
            let m2 = model_untrack(resolved, k);
            assert forall|r: i32| #[trigger] m2.correlations.contains_key(r) implies key_live(
                m2,
                m2.correlations[r],
            ) by {
                assert(m.correlations[r] != m.correlations[req_id]);
                assert(key_live(resolved, resolved.correlations[r]));
            }
        }
    }
}

/// A repeated subscribe of an identity that is already live changes
/// nothing: it is neither tracked twice nor given a correlation.
pub proof fn repeat_subscribe_is_idempotent(m: RegistryModel, k: SubKey, req_id: i32)
    requires
        model_wf(m),
        key_live(m, k),
    ensures
        model_track(m, k, req_id) == m,
{
}

/// Subscribing a new identity makes it live and correlates it with exactly
/// its request.
pub proof fn new_subscribe_is_live_and_correlated(m: RegistryModel, k: SubKey, req_id: i32)
    requires
        model_wf(m),
        !key_live(m, k),
    ensures
        key_live(model_track(m, k, req_id), k),
        has_req(model_track(m, k, req_id).correlations, req_id),
        req_key(model_track(m, k, req_id).correlations, req_id) == k,
{
    track_preserves_wf(m, k, req_id);
    match k {
        SubKey::Contract(kind, ck) => lemma_push_no_dup(m.live, (kind, ck)),
        SubKey::Full(kind, st) => lemma_push_no_dup(m.live_full, (kind, st)),
    }
}

/// After an unsubscribe the identity is neither live nor correlated, so no
/// late response can act on it.
pub proof fn unsubscribe_forgets(m: RegistryModel, k: SubKey)
    requires
        model_wf(m),
    ensures
        !key_live(model_forget(m, k), k),
        !has_key(model_forget(m, k).correlations, k),
{
    lemma_untrack(m, k);
    lemma_without_key(m.correlations, k);
}

/// A refusal of a duplicate subscribe's request leaves the first subscription
/// live.
pub proof fn refused_duplicate_keeps_first_subscription(
    m0: RegistryModel,
    k: SubKey,
    first: i32,
    duplicate: i32,
    result: StreamResponseType,
)
    requires
        model_wf(m0),
        !key_live(m0, k),
        first != duplicate,
    ensures
        key_live(model_response(model_track(model_track(m0, k, first), k, duplicate), duplicate, result), k),
{
    let m1 = model_track(m0, k, first);
    track_preserves_wf(m0, k, first);
    new_subscribe_is_live_and_correlated(m0, k, first);
    assert(model_track(m1, k, duplicate) == m1);
    if has_req(m1.correlations, duplicate) {
        let other = m1.correlations[duplicate];
        assert(m1.correlations[first] == k);
        assert(other != k);
        let resolved = RegistryModel { correlations: without_req(m1.correlations, duplicate), ..m1 };
        assert(key_live(resolved, k));
        lemma_untrack(resolved, other);
        assert(key_live(model_untrack(resolved, other), k));
    }
}

/// Subscribe, unsubscribe, re-subscribe: a late refusal of the superseded
/// first request finds no correlation and leaves the re-subscription live.
pub proof fn refused_superseded_request_keeps_resubscription(
    m0: RegistryModel,
    k: SubKey,
    first: i32,
    again: i32,
    result: StreamResponseType,
)
    requires
        model_wf(m0),
        !key_live(m0, k),
        first != again,
    ensures
        ({
            let m3 = model_track(model_forget(model_track(m0, k, first), k), k, again);
            &&& key_live(m3, k)
            &&& model_response(m3, first, result) == m3
        }),
{
    let m1 = model_track(m0, k, first);
    track_preserves_wf(m0, k, first);
    new_subscribe_is_live_and_correlated(m0, k, first);
    let m2 = model_forget(m1, k);
    forget_preserves_wf(m1, k);
    unsubscribe_forgets(m1, k);
    lemma_without_key(m1.correlations, k);
    assert(m1.correlations[first] == k);
    assert(!m2.correlations.contains_key(first));
    let m3 = model_track(m2, k, again);
    new_subscribe_is_live_and_correlated(m2, k, again);
    assert(!m3.correlations.contains_key(first));
}

/// The live view of per-contract entries.
pub open spec fn live_view(active: Seq<(SubscriptionKind, Contract)>) -> Seq<(SubscriptionKind, ContractKey)> {
    active.map_values(|e: (SubscriptionKind, Contract)| (e.0, contract_key(e.1)))
}

/// The correlation view of in-flight subscribes.
pub open spec fn corr_view(pending: Map<i32, PendingSub>) -> Map<i32, SubKey> {
    pending.map_values(|p: PendingSub| pending_key(p))
}

/// Tracked subscriptions and in-flight subscribe correlations of one
/// streaming client, with its request-id counter.
pub struct SubscriptionRegistry {
    next_req_id: i64,
    active: Vec<(SubscriptionKind, Contract)>,
    active_full: Vec<(SubscriptionKind, SecType)>,
    pending: HashMap<i32, PendingSub>,
}

impl View for SubscriptionRegistry {
    type V = RegistryModel;

    closed spec fn view(&self) -> RegistryModel {
        RegistryModel {
            live: live_view(self.active@),
            live_full: self.active_full@,
            correlations: corr_view(self.pending@),
            next_req_id: self.next_req_id,
        }
    }
}

fn find_contract(active: &Vec<(SubscriptionKind, Contract)>, kind: SubscriptionKind, contract: &Contract) -> (r: Option<usize>)
    ensures
        r matches Some(i) ==> i < active@.len() && live_view(active@)[i as int] == (kind, contract_key(*contract)),
        r is None ==> !live_view(active@).contains((kind, contract_key(*contract))),
{
    let ghost v = live_view(active@);
    let mut i: usize = 0;
    while i < active.len()
        invariant
            i <= active@.len(),
            v == live_view(active@),
            forall|j: int| 0 <= j < i ==> v[j] != (kind, contract_key(*contract)),
        decreases active@.len() - i,
    {
        if active[i].0 == kind && active[i].1.same_as(contract) {
            return Some(i);
        }
        i = i + 1;
    }
    None
}

fn find_full(active_full: &Vec<(SubscriptionKind, SecType)>, kind: SubscriptionKind, sec_type: SecType) -> (r: Option<usize>)
    ensures
        r matches Some(i) ==> i < active_full@.len() && active_full@[i as int] == (kind, sec_type),
        r is None ==> !active_full@.contains((kind, sec_type)),
{
    let mut i: usize = 0;
    while i < active_full.len()
        invariant
            i <= active_full@.len(),
            forall|j: int| 0 <= j < i ==> active_full@[j] != (kind, sec_type),
        decreases active_full@.len() - i,
    {
        if active_full[i].0 == kind && active_full[i].1 == sec_type {
            return Some(i);
        }
        i = i + 1;
    }
    None
}

fn find_pending(pending: &HashMap<i32, PendingSub>, target: &PendingSub) -> (r: Option<i32>)
    ensures
        r matches Some(id) ==> pending@.contains_key(id) && pending_key(pending@[id]) == pending_key(*target),
        r is None ==> !has_key(corr_view(pending@), pending_key(*target)),
{
    let ghost vs = IteratorSpec::remaining(&vstd::std_specs::hash::spec_hash_map_iter(pending));
    let ghost mut count: int = 0;
    for (id, sub) in it: pending.iter()
        invariant
            it.seq() == vs,
            count == it.index(),
            forall|j: int| 0 <= j < count ==> pending_key(*vs[j].1) != pending_key(*target),
    {
        let same = match (sub, target) {
            (PendingSub::Contract(k1, c1), PendingSub::Contract(k2, c2)) => *k1 == *k2 && c1.same_as(c2),
            (PendingSub::Full(k1, s1), PendingSub::Full(k2, s2)) => *k1 == *k2 && *s1 == *s2,
            _ => false,
        };
        if same {
            proof {
                assert(pending@.contains_key(*vs[count].0));
            }
            return Some(*id);
        }
        proof {
            count = count + 1;
        }
    }
    proof {
        let key = pending_key(*target);
        if has_key(corr_view(pending@), key) {
            let r = choose|r: i32| corr_view(pending@).contains_key(r) && corr_view(pending@)[r] == key;
            assert(pending@.contains_key(r));
            assert(vs.contains((&r, &pending@[r])));
            let j = choose|j: int| 0 <= j < vs.len() && vs[j] == (&r, &pending@[r]);
            assert(pending_key(*vs[j].1) != key);
        }
    }
    None
}

/// A duplicate-free sequence holds a present element at exactly one index.
proof fn lemma_unique_index<T>(s: Seq<T>, i: int)
    requires
        s.no_duplicates(),
        0 <= i < s.len(),
    ensures
        seq_without(s, s[i]) == s.remove(i),
{
    let j = choose|j: int| 0 <= j < s.len() && s[j] == s[i];
    assert(s.contains(s[i]));
    if j != i {
        assert(s[j] == s[i]);
    }
}

/// Distinct correlations hold a present identity under exactly one id.
proof fn lemma_key_id(c: Map<i32, SubKey>, id: i32)
    requires
        correlations_distinct(c),
        c.contains_key(id),
    ensures
        has_key(c, c[id]),
        without_key(c, c[id]) == c.remove(id),
{
    let r = choose|r: i32| c.contains_key(r) && c[r] == c[id];
    if r != id {
        assert(c[r] != c[id]);
    }
}

impl SubscriptionRegistry {
    /// Request-id counter value the next allocation uses.
    pub open spec fn counter(&self) -> i64 {
        self@.next_req_id
    }

    /// An empty registry whose first request id is 1.
    pub fn new() -> (r: SubscriptionRegistry)
        ensures
            model_wf(r@),
            r@.live == Seq::<(SubscriptionKind, ContractKey)>::empty(),
            r@.live_full == Seq::<(SubscriptionKind, SecType)>::empty(),
            r@.correlations == Map::<i32, SubKey>::empty(),
            r@.next_req_id == 1,
            r.counter() == 1,
    {
        let r = SubscriptionRegistry {
            next_req_id: 1,
            active: Vec::new(),
            active_full: Vec::new(),
            pending: HashMap::new(),
        };
        assert(r@.live =~= Seq::<(SubscriptionKind, ContractKey)>::empty());
        assert(r@.correlations =~= Map::<i32, SubKey>::empty());
        r
    }

    /// Allocate the next wire request id.
    pub fn allocate_req_id(&mut self) -> (r: i32)
        ensures
            r == spec_wire_req_id(old(self).counter()),
            final(self).counter() == old(self).counter().wrapping_add(1),
            final(self)@ == model_allocate(old(self)@),
    {
        let id = wire_req_id(self.next_req_id);
        self.next_req_id = self.next_req_id.wrapping_add(1);
        id
    }

    fn drop_req(&mut self, req_id: i32)
        requires
            correlations_distinct(old(self)@.correlations),
        ensures
            final(self)@.live == old(self)@.live,
            final(self)@.live_full == old(self)@.live_full,
            final(self)@.correlations == without_req(old(self)@.correlations, req_id),
            final(self).counter() == old(self).counter(),
    {
        let ghost before = self.pending@;
        self.pending.remove(&req_id);
        assert(corr_view(self.pending@) =~= corr_view(before).remove(req_id));
    }

    fn drop_key(&mut self, target: &PendingSub)
        requires
            correlations_distinct(old(self)@.correlations),
        ensures
            final(self)@.live == old(self)@.live,
            final(self)@.live_full == old(self)@.live_full,
            final(self)@.correlations == without_key(old(self)@.correlations, pending_key(*target)),
            final(self).counter() == old(self).counter(),
    {
        if let Some(id) = find_pending(&self.pending, target) {
            let ghost before = self.pending@;
            proof {
                lemma_key_id(corr_view(before), id);
            }
            self.pending.remove(&id);
            assert(corr_view(self.pending@) =~= corr_view(before).remove(id));
        }
    }

    /// Track a per-contract subscribe sent under `req_id`. Returns whether
    /// it added a new entry (and its correlation); a subscribe of a live
    /// `(kind, contract)` changes nothing.
    pub fn track_contract(&mut self, kind: SubscriptionKind, contract: &Contract, req_id: i32) -> (newly: bool)
        requires
            model_wf(old(self)@),
        ensures
            model_wf(final(self)@),
            final(self)@ == model_track(old(self)@, SubKey::Contract(kind, contract_key(*contract)), req_id),
            newly == !key_live(old(self)@, SubKey::Contract(kind, contract_key(*contract))),
            final(self).counter() == old(self).counter(),
    {
        let ghost k = SubKey::Contract(kind, contract_key(*contract));
        proof {
            track_preserves_wf(self@, k, req_id);
        }
        match find_contract(&self.active, kind, contract) {
            Some(i) => {
                assert(self@.live.contains(self@.live[i as int]));
                false
            },
            None => {
                let ghost mid_active = self.active@;
                let ghost mid_pending = self.pending@;
                self.active.push((kind, contract.copy()));
                self.pending.insert(req_id, PendingSub::Contract(kind, contract.copy()));
                assert(live_view(self.active@) =~= live_view(mid_active).push((kind, contract_key(*contract))));
                assert(corr_view(self.pending@) =~= corr_view(mid_pending).insert(req_id, k));
                true
            },
        }
    }

    /// Track a full-stream subscribe sent under `req_id`. Returns whether it
    /// added a new entry (and its correlation).
    pub fn track_full(&mut self, kind: SubscriptionKind, sec_type: SecType, req_id: i32) -> (newly: bool)
        requires
            model_wf(old(self)@),
        ensures
            model_wf(final(self)@),
            final(self)@ == model_track(old(self)@, SubKey::Full(kind, sec_type), req_id),
            newly == !key_live(old(self)@, SubKey::Full(kind, sec_type)),
            final(self).counter() == old(self).counter(),
    {
        let ghost k = SubKey::Full(kind, sec_type);
        proof {
            track_preserves_wf(self@, k, req_id);
        }
        match find_full(&self.active_full, kind, sec_type) {
            Some(i) => {
                assert(self@.live_full.contains(self@.live_full[i as int]));
                false
            },
            None => {
                let ghost mid_pending = self.pending@;
                self.active_full.push((kind, sec_type));
                self.pending.insert(req_id, PendingSub::Full(kind, sec_type));
                assert(corr_view(self.pending@) =~= corr_view(mid_pending).insert(req_id, k));
                true
            },
        }
    }

    /// An unsubscribe of `(kind, contract)` went out: untrack it and evict
    /// its correlation.
    pub fn forget_contract(&mut self, kind: SubscriptionKind, contract: &Contract)
        requires
            model_wf(old(self)@),
        ensures
            model_wf(final(self)@),
            final(self)@ == model_forget(old(self)@, SubKey::Contract(kind, contract_key(*contract))),
            final(self).counter() == old(self).counter(),
    {
        let ghost k = SubKey::Contract(kind, contract_key(*contract));
        proof {
            forget_preserves_wf(self@, k);
        }
        let target = PendingSub::Contract(kind, contract.copy());
        self.drop_key(&target);
        self.untrack_contract(kind, contract);
    }

    /// A full-stream unsubscribe went out: untrack it and evict its
    /// correlation.
    pub fn forget_full(&mut self, kind: SubscriptionKind, sec_type: SecType)
        requires
            model_wf(old(self)@),
        ensures
            model_wf(final(self)@),
            final(self)@ == model_forget(old(self)@, SubKey::Full(kind, sec_type)),
            final(self).counter() == old(self).counter(),
    {
        proof {
            forget_preserves_wf(self@, SubKey::Full(kind, sec_type));
        }
        let target = PendingSub::Full(kind, sec_type);
        self.drop_key(&target);
        self.untrack_full(kind, sec_type);
    }

    /// The subscribe frame sent under `req_id` never left: undo its
    /// registration.
    pub fn rollback_contract(&mut self, req_id: i32, kind: SubscriptionKind, contract: &Contract)
        requires
            model_wf(old(self)@),
        ensures
            model_wf(final(self)@),
            final(self)@ == model_rollback(old(self)@, req_id, SubKey::Contract(kind, contract_key(*contract))),
            final(self).counter() == old(self).counter(),
    {
        proof {
            rollback_preserves_wf(self@, req_id, SubKey::Contract(kind, contract_key(*contract)));
            lemma_without_req(self@.correlations, req_id);
        }
        self.drop_req(req_id);
        let target = PendingSub::Contract(kind, contract.copy());
        self.drop_key(&target);
        self.untrack_contract(kind, contract);
    }

    /// The full-stream subscribe frame sent under `req_id` never left: undo
    /// its registration.
    pub fn rollback_full(&mut self, req_id: i32, kind: SubscriptionKind, sec_type: SecType)
        requires
            model_wf(old(self)@),
        ensures
            model_wf(final(self)@),
            final(self)@ == model_rollback(old(self)@, req_id, SubKey::Full(kind, sec_type)),
            final(self).counter() == old(self).counter(),
    {
        proof {
            rollback_preserves_wf(self@, req_id, SubKey::Full(kind, sec_type));
            lemma_without_req(self@.correlations, req_id);
        }
        self.drop_req(req_id);
        let target = PendingSub::Full(kind, sec_type);
        self.drop_key(&target);
        self.untrack_full(kind, sec_type);
    }

    /// The server answered request `req_id` with `result`.
    pub fn apply_req_response(&mut self, req_id: i32, result: StreamResponseType)
        requires
            model_wf(old(self)@),
        ensures
            model_wf(final(self)@),
            final(self)@ == model_response(old(self)@, req_id, result),
            final(self).counter() == old(self).counter(),
    {
        proof {
            response_preserves_wf(self@, req_id, result);
        }
        let ghost before = self.pending@;
        let ghost m0 = self@;
        let removed = self.pending.remove(&req_id);
        assert(corr_view(self.pending@) =~= corr_view(before).remove(req_id));
        if let Some(sub) = removed {
            proof {
                lemma_without_req(m0.correlations, req_id);
            }
            assert(pending_key(sub) == req_key(m0.correlations, req_id));
            let refused = match result {
                StreamResponseType::Subscribed => false,
                _ => true,
            };
            assert(self@ == RegistryModel { correlations: without_req(m0.correlations, req_id), ..m0 });
            if refused {
                match sub {
                    PendingSub::Contract(kind, contract) => {
                        proof {
                            lemma_untrack(self@, pending_key(sub));
                        }
                        self.untrack_contract(kind, &contract);
                    },
                    PendingSub::Full(kind, sec_type) => {
                        self.untrack_full(kind, sec_type);
                    },
                }
            }
        } else {
            assert(corr_view(self.pending@) =~= corr_view(before));
        }
    }

    fn untrack_contract(&mut self, kind: SubscriptionKind, contract: &Contract)
        requires
            old(self)@.live.no_duplicates(),
        ensures
            final(self)@ == model_untrack(old(self)@, SubKey::Contract(kind, contract_key(*contract))),
            final(self).counter() == old(self).counter(),
    {
        if let Some(i) = find_contract(&self.active, kind, contract) {
            let ghost before = self.active@;
            proof {
                lemma_unique_index(live_view(before), i as int);
            }
            self.active.remove(i);
            assert(live_view(self.active@) =~= live_view(before).remove(i as int));
        }
    }

    fn untrack_full(&mut self, kind: SubscriptionKind, sec_type: SecType)
        requires
            old(self)@.live_full.no_duplicates(),
        ensures
            final(self)@ == model_untrack(old(self)@, SubKey::Full(kind, sec_type)),
            final(self).counter() == old(self).counter(),
    {
        if let Some(i) = find_full(&self.active_full, kind, sec_type) {
            proof {
                lemma_unique_index(self.active_full@, i as int);
            }
            self.active_full.remove(i);
        }
    }

    /// The tracked per-contract subscriptions, in subscription order (what a
    /// reconnect replays).
    pub fn active_subscriptions(&self) -> (r: Vec<(SubscriptionKind, Contract)>)
        ensures
            live_view(r@) == self@.live,
    {
        let mut out: Vec<(SubscriptionKind, Contract)> = Vec::new();
        let mut i: usize = 0;
        while i < self.active.len()
            invariant
                i <= self.active@.len(),
                live_view(out@) == live_view(self.active@).take(i as int),
            decreases self.active@.len() - i,
        {
            let ghost before = out@;
            out.push((self.active[i].0, self.active[i].1.copy()));
            assert(live_view(out@) =~= live_view(before).push(live_view(self.active@)[i as int]));
            assert(live_view(self.active@).take(i + 1) =~= live_view(self.active@).take(i as int).push(
                live_view(self.active@)[i as int],
            ));
            i = i + 1;
        }
        assert(live_view(self.active@).take(i as int) =~= live_view(self.active@));
        out
    }

    /// The tracked full-stream subscriptions, in subscription order.
    pub fn active_full_subscriptions(&self) -> (r: Vec<(SubscriptionKind, SecType)>)
        ensures
            r@ == self@.live_full,
    {
        let mut out: Vec<(SubscriptionKind, SecType)> = Vec::new();
        let mut i: usize = 0;
        while i < self.active_full.len()
            invariant
                i <= self.active_full@.len(),
                out@ == self.active_full@.take(i as int),
            decreases self.active_full@.len() - i,
        {
            out.push(self.active_full[i]);
            assert(self.active_full@.take(i + 1) =~= self.active_full@.take(i as int).push(self.active_full@[i as int]));
            i = i + 1;
        }
        assert(self.active_full@.take(i as int) =~= self.active_full@);
        out
    }

    /// Number of subscribes awaiting a response that could untrack them.
    pub fn pending_len(&self) -> (r: usize)
        ensures
            r == self@.correlations.len(),
    {
        assert(corr_view(self.pending@).dom() =~= self.pending@.dom());
        self.pending.len()
    }
}

/// Wire code and tracked kind of a full-stream subscribe or unsubscribe:
/// full trades travel as the trade codes, full open interest as the
/// open-interest codes.
pub fn full_stream_request(kind: FullSubscriptionKind, unsubscribe: bool) -> (r: (StreamMsgType, SubscriptionKind))
    ensures
        r.1 == full_as_kind(kind),
        r.0 == if unsubscribe {
            spec_unsubscribe_code(r.1)
        } else {
            spec_subscribe_code(r.1)
        },
{
    match (kind, unsubscribe) {
        (FullSubscriptionKind::Trades, false) => (StreamMsgType::Trade, SubscriptionKind::Trade),
        (FullSubscriptionKind::Trades, true) => (StreamMsgType::RemoveTrade, SubscriptionKind::Trade),
        (FullSubscriptionKind::OpenInterest, false) => (StreamMsgType::OpenInterest, SubscriptionKind::OpenInterest),
        (FullSubscriptionKind::OpenInterest, true) => (
            StreamMsgType::RemoveOpenInterest,
            SubscriptionKind::OpenInterest,
        ),
    }
}

/// The guard applied before any subscribe or unsubscribe is sent: the client
/// must be running and logged in.
pub fn check_connected(shutting_down: bool, authenticated: bool) -> (r: Result<(), Error>)
    ensures
        shutting_down ==> (r matches Err(Error::Stream { kind, message }) && kind == StreamErrorKind::Disconnected
            && message@ == "client is shut down"@),
        !shutting_down && !authenticated ==> (r matches Err(Error::Stream { kind, message }) && kind
            == StreamErrorKind::Disconnected && message@ == "not authenticated"@),
        !shutting_down && authenticated ==> r is Ok,
{
    if shutting_down {
        return Err(Error::Stream { kind: StreamErrorKind::Disconnected, message: "client is shut down".to_owned() });
    }
    if !authenticated {
        return Err(Error::Stream { kind: StreamErrorKind::Disconnected, message: "not authenticated".to_owned() });
    }
    Ok(())
}

/// The name `{:?}` prints for a security type.
pub open spec fn sec_type_debug_name(t: SecType) -> Seq<char> {
    match t {
        SecType::Stock => "Stock"@,
        SecType::Option => "Option"@,
        SecType::Index => "Index"@,
        SecType::Rate => "Rate"@,
        SecType::Unknown => "Unknown"@,
    }
}

fn sec_type_debug_str(t: SecType) -> (r: &'static str)
    ensures
        r@ == sec_type_debug_name(t),
{
    match t {
        SecType::Stock => "Stock",
        SecType::Option => "Option",
        SecType::Index => "Index",
        SecType::Rate => "Rate",
        SecType::Unknown => "Unknown",
    }
}

/// Whether `e` is the refusal of a full-stream subscription on `sec_type`.
pub open spec fn full_stream_refusal(e: Error, sec_type: SecType) -> bool {
    e matches Error::Config { field, message } && field@ == "Subscription::full"@ && message@
        == "full-stream subscriptions are supported only for Stock and Option; "@
        + sec_type_debug_name(sec_type)
        + " has no full broadcast upstream \u{2014} subscribe per-contract instead (for example Contract::index(\"VIX\").trade())"@
}

/// The refusal of a full-stream subscription on a security type with no
/// full-stream broadcast (anything but stocks and options); `Ok` for
/// stocks and options.
pub fn check_full_stream_sec_type(sec_type: SecType) -> (r: Result<(), Error>)
    ensures
        full_stream_sec_type_supported_spec(sec_type) <==> r is Ok,
        r matches Err(e) ==> full_stream_refusal(e, sec_type),
{
    if full_stream_sec_type_supported(sec_type) {
        return Ok(());
    }
    let mut message = "full-stream subscriptions are supported only for Stock and Option; ".to_owned();
    message.append(sec_type_debug_str(sec_type));
    message.append(" has no full broadcast upstream \u{2014} subscribe per-contract instead (for example Contract::index(\"VIX\").trade())");
    Err(Error::Config { field: "Subscription::full".to_owned(), message })
}

/// Whether a security type has a full-stream broadcast.
pub open spec fn full_stream_sec_type_supported_spec(sec_type: SecType) -> bool {
    sec_type == SecType::Stock || sec_type == SecType::Option
}

/// The error a command send into the I/O queue reports: a full queue asks
/// the caller to retry, a closed one means the I/O thread is gone.
pub fn command_send_error(queue_full: bool) -> (r: Error)
    ensures
        queue_full ==> (r matches Error::Stream { kind, message } && kind == StreamErrorKind::Disconnected
            && message@ == "command queue full ("@ + nat_digits(CMD_CHANNEL_CAPACITY as nat)
            + " pending); the I/O thread is draining slower than commands arrive \u{2014} retry shortly"@),
        !queue_full ==> (r matches Error::Stream { kind, message } && kind == StreamErrorKind::Disconnected
            && message@ == "I/O thread has exited"@),
{
    if queue_full {
        let mut message = "command queue full (".to_owned();
        let cap = unsigned_decimal_string(CMD_CHANNEL_CAPACITY as u64);
        message.append(cap.as_str());
        message.append(
            " pending); the I/O thread is draining slower than commands arrive \u{2014} retry shortly",
        );
        Error::Stream { kind: StreamErrorKind::Disconnected, message }
    } else {
        Error::Stream { kind: StreamErrorKind::Disconnected, message: "I/O thread has exited".to_owned() }
    }
}

/// Prepare a full-stream subscribe or unsubscribe: check the client is
/// running and logged in and that `sec_type` has a full-stream broadcast,
/// then allocate the request id and pick the wire code. A refused request
/// allocates nothing and tracks nothing. A subscribe is tracked here, before
/// its frame is sent, so that a refusal answered before the send returns
/// finds its correlation; if the send then fails the caller undoes it with
/// [`SubscriptionRegistry::rollback_full`]. An unsubscribe changes nothing
/// here; once its frame is sent the caller untracks it with
/// [`SubscriptionRegistry::forget_full`].
pub fn full_stream_command(
    reg: &mut SubscriptionRegistry,
    shutting_down: bool,
    authenticated: bool,
    kind: FullSubscriptionKind,
    sec_type: SecType,
    unsubscribe: bool,
) -> (r: Result<(StreamMsgType, i32), Error>)
    requires
        model_wf(old(reg)@),
    ensures
        model_wf(final(reg)@),
        r is Err <==> (shutting_down || !authenticated || !full_stream_sec_type_supported_spec(sec_type)),
        shutting_down ==> (r matches Err(Error::Stream { kind, message }) && kind
            == StreamErrorKind::Disconnected && message@ == "client is shut down"@),
        !shutting_down && !authenticated ==> (r matches Err(Error::Stream { kind, message }) && kind
            == StreamErrorKind::Disconnected && message@ == "not authenticated"@),
        !shutting_down && authenticated && !full_stream_sec_type_supported_spec(sec_type) ==> (r matches Err(
            e,
        ) && full_stream_refusal(e, sec_type)),
        r is Err ==> final(reg)@ == old(reg)@ && final(reg).counter() == old(reg).counter(),
        r matches Ok((code, req_id)) ==> {
            &&& req_id == spec_wire_req_id(old(reg).counter())
            &&& final(reg).counter() == old(reg).counter().wrapping_add(1)
            &&& code == if unsubscribe {
                spec_unsubscribe_code(full_as_kind(kind))
            } else {
                spec_subscribe_code(full_as_kind(kind))
            }
            &&& unsubscribe ==> final(reg)@ == model_allocate(old(reg)@)
            &&& !unsubscribe ==> final(reg)@ == model_track(
                model_allocate(old(reg)@),
                SubKey::Full(full_as_kind(kind), sec_type),
                req_id,
            )
        },
{
    match check_connected(shutting_down, authenticated) {
        Ok(()) => {},
        Err(e) => {
            return Err(e);
        },
    }
    match check_full_stream_sec_type(sec_type) {
        Ok(()) => {},
        Err(e) => {
            return Err(e);
        },
    }
    let req_id = reg.allocate_req_id();
    let (code, tracked_kind) = full_stream_request(kind, unsubscribe);
    if !unsubscribe {
        reg.track_full(tracked_kind, sec_type, req_id);
    }
    Ok((code, req_id))
}

/// Whether subscription replay pauses after its `sent`-th frame: it sends
/// `burst` frames at a time (at least one) and pauses `pace_ms` between
/// bursts; a pace of zero never pauses.
pub fn replay_pause_due(sent: u64, burst: u32, pace_ms: u64) -> (r: bool)
    ensures
        r == (pace_ms > 0 && sent > 0 && sent % (at_least_one(burst) as u64) == 0),
{
    let b = clamp_burst(burst) as u64;
    pace_ms > 0 && sent > 0 && sent % b == 0
}


/// A response other than `Subscribed` to a request with a resident
/// correlation untracks the identity that correlation names, so a refused
/// subscription is neither replayed nor reported live; `Subscribed` keeps
/// it live. Either way the correlation is resolved.
pub proof fn refusal_untracks_the_correlated_subscription(
    m: RegistryModel,
    req_id: i32,
    result: StreamResponseType,
)
    requires
        model_wf(m),
        has_req(m.correlations, req_id),
    ensures
        result != StreamResponseType::Subscribed ==> !key_live(
            model_response(m, req_id, result),
            m.correlations[req_id],
        ),
        result == StreamResponseType::Subscribed ==> key_live(
            model_response(m, req_id, result),
            m.correlations[req_id],
        ),
        !model_response(m, req_id, result).correlations.contains_key(req_id),
{
    let k = m.correlations[req_id];
    assert(key_live(m, k));
    let resolved = RegistryModel { correlations: without_req(m.correlations, req_id), ..m };
    lemma_untrack(resolved, k);
}

} // verus!
