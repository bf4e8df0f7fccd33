//! The arbiter: issues correlation identifiers, keeps one pending slot per
//! identifier, and hands each fulfillment to its waiter at most once.

use crate::table::KeyedTable;
use tokio::sync::oneshot::{Receiver, Sender};
use vstd::prelude::*;

verus! {

/// `serde_json::Value`, carried through as it is: a JSON document.
#[verifier::external_type_specification]
#[verifier::external_body]
pub struct ExJsonValue(serde_json::Value);

/// The sending end of a `tokio::sync::oneshot` channel: a pending slot.
#[verifier::external_type_specification]
#[verifier::external_body]
#[verifier::reject_recursive_types(T)]
pub struct ExOneshotSender<T>(Sender<T>);

/// The receiving end of a `tokio::sync::oneshot` channel: what a waiter
/// holds.
#[verifier::external_type_specification]
#[verifier::external_body]
#[verifier::reject_recursive_types(T)]
pub struct ExOneshotReceiver<T>(Receiver<T>);

/// The error of a `tokio::sync::oneshot` receiver whose sender is gone.
/// Nothing here reads it; it is declared because the receiver's `Future`
/// impl names it, and Verus refuses the receiver until it is declared.
#[verifier::external_type_specification]
#[verifier::external_body]
pub struct ExOneshotRecvError(tokio::sync::oneshot::error::RecvError);

/// Relies on the `Clone` that `serde_json::Value` derives: a deep copy.
pub assume_specification[ <serde_json::Value as Clone>::clone ](v: &serde_json::Value) -> (r: serde_json::Value);

/// What a fulfiller reports for a request: an HTTP status code and a JSON
/// body.
#[derive(Debug, Clone, PartialEq, Default)]
pub struct ForHttpResponse {
    pub code: u32,
    pub data: serde_json::Value,
}

/// What the waiter of a request finally receives.
#[derive(Debug, PartialEq)]
pub enum FrontResponse {
    BackMsg(ForHttpResponse),
    InternalError,
}

/// Relies on `tokio::sync::oneshot::channel`: a fresh pair of ends of a
/// channel that carries one value.
#[verifier::external_body]
pub(crate) fn new_slot() -> (Sender<FrontResponse>, Receiver<FrontResponse>) {
    tokio::sync::oneshot::channel()
}

/// Relies on `tokio::sync::oneshot::Sender::send`: writes the value for the
/// receiver; `false` where the receiver is already gone.
#[verifier::external_body]
pub(crate) fn deliver<T>(slot: Sender<T>, value: T) -> (r: bool) {
    slot.send(value).is_ok()
}

/// Relies on `uuid::Uuid::new_v4` and its `Display`: a random identifier,
/// written as 36 characters (32 hexadecimal digits and four hyphens).
#[verifier::external_body]
pub(crate) fn fresh_request_id() -> (r: String)
    ensures
        r@.len() == 36,
{
    uuid::Uuid::new_v4().to_string()
}

/// How long a registered request waits for its fulfillment before the
/// arbiter gives up on it, in milliseconds.
pub const PENDING_TIMEOUT_MS: u64 = 40000;

/// A fresh correlation identifier, of 36 characters.
pub fn new_request_id() -> (r: String)
    ensures
        r@.len() == 36,
{
    fresh_request_id()
}

/// The messages of the arbiter's mailbox.
pub enum ProxyMsg {
    /// Keep `respond_to` as the slot of `request_id`.
    AddSubscriber { request_id: String, timeout: u64, respond_to: Sender<FrontResponse> },
    /// Hand `response_payload` to the waiter of `request_id`, and tell
    /// `respond_to` whether it was pending.
    FulfillRequest {
        request_id: String,
        response_payload: ForHttpResponse,
        respond_to: Sender<bool>,
    },
    /// Give up on `request_id`, whose waiter then receives an internal
    /// error.
    ExpireRequest { request_id: String },
}

/// The table after a fulfillment for `id`, and whether it matched.
pub open spec fn fulfill_step(pending: Set<Seq<char>>, id: Seq<char>) -> (Set<Seq<char>>, bool) {
    (pending.remove(id), pending.contains(id))
}

/// The outcomes of a run of fulfillments, in order, starting from the
/// pending identifiers `pending`.
pub open spec fn fulfill_outcomes(pending: Set<Seq<char>>, ids: Seq<Seq<char>>) -> Seq<bool>
    decreases ids.len(),
{
    if ids.len() == 0 {
        Seq::<bool>::empty()
    } else {
        let (next, matched) = fulfill_step(pending, ids[0]);
        seq![matched] + fulfill_outcomes(next, ids.drop_first())
    }
}

/// How many of a run of fulfillments name `id` and matched.
pub open spec fn matched_count(ids: Seq<Seq<char>>, outcomes: Seq<bool>, id: Seq<char>) -> nat
    decreases ids.len(),
{
    if ids.len() == 0 || outcomes.len() == 0 {
        0
    } else {
        (if ids[0] == id && outcomes[0] {
            1nat
        } else {
            0nat
        }) + matched_count(ids.drop_first(), outcomes.drop_first(), id)
    }
}

/// Fulfillments (and expiries, which take the same step) are applied one
/// at a time under the table's lock, in some order. Whatever that order,
/// and whatever other identifiers the run names, exactly one of those that
/// name a pending identifier matches, and none matches for an identifier
/// that is not pending.
pub proof fn lemma_at_most_once(pending: Set<Seq<char>>, ids: Seq<Seq<char>>, id: Seq<char>)
    ensures
        matched_count(ids, fulfill_outcomes(pending, ids), id) == (if pending.contains(id)
            && ids.contains(id) {
            1nat
        } else {
            0nat
        }),
    decreases ids.len(),
{
    if ids.len() > 0 {
        let (next, matched) = fulfill_step(pending, ids[0]);
        let rest = ids.drop_first();
        lemma_at_most_once(next, rest, id);
        let outs = fulfill_outcomes(pending, ids);
        assert(outs.drop_first() =~= fulfill_outcomes(next, rest));
        assert(ids.contains(id) <==> (ids[0] == id || rest.contains(id))) by {
            if ids.contains(id) && ids[0] != id {
                let k = choose|k: int| 0 <= k < ids.len() && ids[k] == id;
                assert(rest[k - 1] == id);
            }
            if rest.contains(id) {
                let k = choose|k: int| 0 <= k < rest.len() && rest[k] == id;
                assert(ids[k + 1] == id);
            }
        }
        if ids[0] == id {
            assert(!next.contains(id));
        } else {
            assert(next.contains(id) == pending.contains(id));
        }
    }
}

/// The values sent to waiters' slots by a run of fulfillments
/// `(identifier, payload)`, applied in order from the slots `slots`, that
/// name `id`.
pub open spec fn run_sends<S, V>(slots: Map<Seq<char>, S>, reqs: Seq<(Seq<char>, V)>, id: Seq<char>) -> Seq<
    (S, V),
>
    decreases reqs.len(),
{
    if reqs.len() == 0 {
        Seq::<(S, V)>::empty()
    } else {
        let rid = reqs[0].0;
        let mine = if rid == id && slots.contains_key(rid) {
            seq![(slots[rid], reqs[0].1)]
        } else {
            Seq::<(S, V)>::empty()
        };
        mine + run_sends(slots.remove(rid), reqs.drop_first(), id)
    }
}

/// Whether a run of fulfillments names `id`.
pub open spec fn run_names<V>(reqs: Seq<(Seq<char>, V)>, id: Seq<char>) -> bool
    decreases reqs.len(),
{
    reqs.len() > 0 && (reqs[0].0 == id || run_names(reqs.drop_first(), id))
}

/// The payload of the first fulfillment of a run that names `id`.
pub open spec fn first_payload<V>(reqs: Seq<(Seq<char>, V)>, id: Seq<char>) -> V
    recommends
        run_names(reqs, id),
    decreases reqs.len(),
{
    if reqs.len() == 0 {
        arbitrary()
    } else if reqs[0].0 == id {
        reqs[0].1
    } else {
        first_payload(reqs.drop_first(), id)
    }
}

/// Whatever order concurrent fulfillments take under the table's lock, the
/// waiter of a pending identifier is sent exactly one value: the payload
/// of the first fulfillment that names it, on the slot registered under
/// it. The waiter of an identifier that is not pending is sent nothing.
pub proof fn lemma_winner_payload_delivered<S, V>(
    slots: Map<Seq<char>, S>,
    reqs: Seq<(Seq<char>, V)>,
    id: Seq<char>,
)
    ensures
        run_sends(slots, reqs, id) == (if slots.contains_key(id) && run_names(reqs, id) {
            seq![(slots[id], first_payload(reqs, id))]
        } else {
            Seq::<(S, V)>::empty()
        }),
    decreases reqs.len(),
{
    if reqs.len() > 0 {
        let rid = reqs[0].0;
        let rest = reqs.drop_first();
        lemma_winner_payload_delivered(slots.remove(rid), rest, id);
        if rid == id {
            lemma_names_nothing_after_removal(slots.remove(rid), rest, id);
            if slots.contains_key(rid) {
                assert(seq![(slots[rid], reqs[0].1)] + Seq::<(S, V)>::empty() =~= seq![
                    (slots[rid], reqs[0].1),
                ]);
            }
        } else {
            assert(slots.remove(rid).contains_key(id) == slots.contains_key(id));
            if slots.contains_key(id) {
                assert(slots.remove(rid)[id] == slots[id]);
            }
        }
        assert(Seq::<(S, V)>::empty() + run_sends(slots.remove(rid), rest, id) =~= run_sends(
            slots.remove(rid),
            rest,
            id,
        ));
    }
}

/// Once `id` has no slot, a run sends nothing for it.
proof fn lemma_names_nothing_after_removal<S, V>(
    slots: Map<Seq<char>, S>,
    reqs: Seq<(Seq<char>, V)>,
    id: Seq<char>,
)
    requires
        !slots.contains_key(id),
    ensures
        run_sends(slots, reqs, id) == Seq::<(S, V)>::empty(),
    decreases reqs.len(),
{
    if reqs.len() > 0 {
        let rid = reqs[0].0;
        lemma_names_nothing_after_removal(slots.remove(rid), reqs.drop_first(), id);
        assert(Seq::<(S, V)>::empty() + Seq::<(S, V)>::empty() =~= Seq::<(S, V)>::empty());
    }
}

/// Registering an identifier with a slot and then fulfilling it matches,
/// sends the fulfillment's payload to that very slot, and leaves the table
/// as it was before the registration, where the identifier was not already
/// pending.
pub proof fn lemma_register_then_fulfill<S, V>(
    slots: Map<Seq<char>, S>,
    id: Seq<char>,
    slot: S,
    payload: V,
)
    ensures
        fulfill_step(slots.insert(id, slot).dom(), id).1,
        run_sends(slots.insert(id, slot), seq![(id, payload)], id) == seq![(slot, payload)],
        fulfill_step(slots.insert(id, slot).dom(), id).0 == slots.remove(id).dom(),
        !slots.contains_key(id) ==> slots.insert(id, slot).remove(id) == slots,
{
    let reqs = seq![(id, payload)];
    lemma_winner_payload_delivered(slots.insert(id, slot), reqs, id);
    assert(reqs.drop_first().len() == 0);
    assert(slots.insert(id, slot).dom().remove(id) =~= slots.remove(id).dom());
    if !slots.contains_key(id) {
        assert(slots.insert(id, slot).remove(id) =~= slots);
    }
}

/// A fulfillment for an identifier that is not pending leaves the table as
/// it was, and so its size too.
pub proof fn lemma_no_match_keeps_table(pending: Set<Seq<char>>, id: Seq<char>)
    requires
        !pending.contains(id),
    ensures
        fulfill_step(pending, id).0 == pending,
        fulfill_step(pending, id).0.len() == pending.len(),
        !fulfill_step(pending, id).1,
{
    assert(pending.remove(id) =~= pending);
}

/// The correlation table: one pending slot per identifier, from its
/// registration until the first fulfillment that names it. Beside the
/// table it keeps, as ghost records, every value sent to a waiter's slot
/// and every answer sent to a fulfiller, in order.
pub struct Arbiter {
    subscriptions: KeyedTable<Sender<FrontResponse>>,
    sent: Ghost<Seq<(Sender<FrontResponse>, FrontResponse)>>,
    replies: Ghost<Seq<(Sender<bool>, bool)>>,
}

impl View for Arbiter {
    type V = Set<Seq<char>>;

    /// The identifiers that are pending.
    open spec fn view(&self) -> Set<Seq<char>> {
        self.slots().dom()
    }
}

impl Arbiter {
    pub closed spec fn wf(&self) -> bool {
        self.subscriptions.wf()
    }

    /// The slot kept under each pending identifier.
    pub closed spec fn slots(&self) -> Map<Seq<char>, Sender<FrontResponse>> {
        self.subscriptions@
    }

    /// Each value sent to a waiter's slot, with the slot, in order.
    pub closed spec fn sent(&self) -> Seq<(Sender<FrontResponse>, FrontResponse)> {
        self.sent@
    }

    /// Each answer sent to a fulfiller, with its reply slot, in order.
    pub closed spec fn replies(&self) -> Seq<(Sender<bool>, bool)> {
        self.replies@
    }

    /// An arbiter with nothing pending and nothing sent.
    pub fn new() -> (r: Self)
        ensures
            r.wf(),
            r.slots() == Map::<Seq<char>, Sender<FrontResponse>>::empty(),
            r@ == Set::<Seq<char>>::empty(),
            r.sent().len() == 0,
            r.replies().len() == 0,
    {
        let r = Arbiter {
            subscriptions: KeyedTable::new(),
            sent: Ghost(Seq::empty()),
            replies: Ghost(Seq::empty()),
        };
        assert(r.slots().dom() =~= Set::<Seq<char>>::empty());
        r
    }

    /// The number of pending identifiers.
    pub fn pending_count(&self) -> (r: usize)
        requires
            self.wf(),
        ensures
            r == self@.len(),
    {
        self.subscriptions.len()
    }

    /// Whether `request_id` is pending.
    pub fn is_pending(&self, request_id: &str) -> (r: bool)
        requires
            self.wf(),
        ensures
            r == self@.contains(request_id@),
    {
        self.subscriptions.contains(request_id)
    }

    /// Keeps `respond_to` as the slot of `request_id`; nothing is sent.
    pub fn add_subscriber(&mut self, request_id: String, respond_to: Sender<FrontResponse>)
        requires
            old(self).wf(),
        ensures
            final(self).wf(),
            final(self).slots() == old(self).slots().insert(request_id@, respond_to),
            final(self).sent() == old(self).sent(),
            final(self).replies() == old(self).replies(),
    {
        self.subscriptions.insert(request_id, respond_to);
    }

    /// Registers a new request: a fresh identifier, with a new slot whose
    /// receiving end is handed back with it; nothing is sent.
    pub fn add_request(&mut self) -> (r: (Receiver<FrontResponse>, String))
        requires
            old(self).wf(),
        ensures
            final(self).wf(),
            final(self).slots() == old(self).slots().insert(r.1@, final(self).slots()[r.1@]),
            final(self)@ == old(self)@.insert(r.1@),
            r.1@.len() == 36,
            final(self).sent() == old(self).sent(),
            final(self).replies() == old(self).replies(),
    {
        let (tx, rx) = new_slot();
        let unique = new_request_id();
        self.add_subscriber(unique.clone(), tx);
        assert(self.slots().dom() =~= old(self).slots().dom().insert(unique@));
        (rx, unique)
    }

    /// Removes `request_id`, and sends `value` to the slot it had; `true`
    /// exactly where it was pending.
    fn resolve(&mut self, request_id: &str, value: FrontResponse) -> (r: bool)
        requires
            old(self).wf(),
        ensures
            final(self).wf(),
            r == old(self).slots().contains_key(request_id@),
            final(self).slots() == old(self).slots().remove(request_id@),
            final(self).sent() == (if r {
                old(self).sent().push((old(self).slots()[request_id@], value))
            } else {
                old(self).sent()
            }),
            final(self).replies() == old(self).replies(),
    {
        match self.subscriptions.take(request_id) {
            Some(tx) => {
                let ghost slot = tx;
                let _ = deliver(tx, value);
                self.sent = Ghost(self.sent@.push((slot, value)));
                true
            },
            None => false,
        }
    }

    /// Hands `payload` to the waiter of `request_id` and forgets the
    /// identifier; `true` exactly where it was pending.
    pub fn fulfill_request(&mut self, request_id: &str, payload: ForHttpResponse) -> (r: bool)
        requires
            old(self).wf(),
        ensures
            final(self).wf(),
            (final(self)@, r) == fulfill_step(old(self)@, request_id@),
            final(self).slots() == old(self).slots().remove(request_id@),
            final(self).sent() == (if r {
                old(self).sent().push(
                    (old(self).slots()[request_id@], FrontResponse::BackMsg(payload)),
                )
            } else {
                old(self).sent()
            }),
            final(self).replies() == old(self).replies(),
    {
        let r = self.resolve(request_id, FrontResponse::BackMsg(payload));
        assert(self@ =~= old(self)@.remove(request_id@));
        r
    }

    /// Gives up on `request_id`: its waiter receives an internal error and
    /// the identifier is forgotten, exactly as a fulfillment would; `true`
    /// exactly where it was still pending.
    pub fn expire_request(&mut self, request_id: &str) -> (r: bool)
        requires
            old(self).wf(),
        ensures
            final(self).wf(),
            (final(self)@, r) == fulfill_step(old(self)@, request_id@),
            final(self).slots() == old(self).slots().remove(request_id@),
            final(self).sent() == (if r {
                old(self).sent().push((old(self).slots()[request_id@], FrontResponse::InternalError))
            } else {
                old(self).sent()
            }),
            final(self).replies() == old(self).replies(),
    {
        let r = self.resolve(request_id, FrontResponse::InternalError);
        assert(self@ =~= old(self)@.remove(request_id@));
        r
    }

    /// Handles one message of the mailbox. A subscription is kept and
    /// nothing is sent. A fulfillment hands its payload to the slot kept
    /// under its identifier, if there is one, and then tells its reply slot
    /// whether it matched. An expiry sends an internal error to that slot.
    pub fn handle_message(&mut self, msg: ProxyMsg)
        requires
            old(self).wf(),
        ensures
            final(self).wf(),
            match msg {
                ProxyMsg::AddSubscriber { request_id, respond_to, .. } => {
                    &&& final(self).slots() == old(self).slots().insert(request_id@, respond_to)
                    &&& final(self).sent() == old(self).sent()
                    &&& final(self).replies() == old(self).replies()
                },
                ProxyMsg::FulfillRequest { request_id, response_payload, respond_to } => {
                    let matched = old(self).slots().contains_key(request_id@);
                    &&& final(self).slots() == old(self).slots().remove(request_id@)
                    &&& final(self).sent() == (if matched {
                        old(self).sent().push(
                            (
                                old(self).slots()[request_id@],
                                FrontResponse::BackMsg(response_payload),
                            ),
                        )
                    } else {
                        old(self).sent()
                    })
                    &&& final(self).replies() == old(self).replies().push((respond_to, matched))
                },
                ProxyMsg::ExpireRequest { request_id } => {
                    &&& final(self).slots() == old(self).slots().remove(request_id@)
                    &&& final(self).sent() == (if old(self).slots().contains_key(request_id@) {
                        old(self).sent().push(
                            (old(self).slots()[request_id@], FrontResponse::InternalError),
                        )
                    } else {
                        old(self).sent()
                    })
                    &&& final(self).replies() == old(self).replies()
                },
            },
    {
        match msg {
            ProxyMsg::AddSubscriber { request_id, timeout: _, respond_to } => {
                self.add_subscriber(request_id, respond_to);
            },
            ProxyMsg::FulfillRequest { request_id, response_payload, respond_to } => {
                let matched = self.fulfill_request(request_id.as_str(), response_payload);
                let ghost reply = respond_to;
                let _ = deliver(respond_to, matched);
                self.replies = Ghost(self.replies@.push((reply, matched)));
            },
            ProxyMsg::ExpireRequest { request_id } => {
                let _ = self.expire_request(request_id.as_str());
            },
        }
    }

    /// Opens a slot, sends `value` to it at once, and hands back its
    /// receiving end; no identifier is registered.
    pub fn resolved_now(&mut self, value: FrontResponse) -> (r: Receiver<FrontResponse>)
        requires
            old(self).wf(),
        ensures
            final(self).wf(),
            final(self).slots() == old(self).slots(),
            final(self).sent().len() == old(self).sent().len() + 1,
            final(self).sent().drop_last() == old(self).sent(),
            final(self).sent().last().1 == value,
            final(self).replies() == old(self).replies(),
    {
        let (tx, rx) = new_slot();
        let ghost slot = tx;
        let ghost v = value;
        let _ = deliver(tx, value);
        self.sent = Ghost(self.sent@.push((slot, v)));
        assert(self.sent@.drop_last() =~= old(self).sent@);
        rx
    }
}

} // verus!
