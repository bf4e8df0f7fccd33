//! The dispatch coordinator: routes each inbound request, registers it with
//! the arbiter, and says which process, if any, is to produce its result.

use crate::arbiter::{fulfill_step, Arbiter, ForHttpResponse, FrontResponse};
use crate::procenv::ProcEnv;
use crate::restmessage::RestMessage;
use crate::serviceconf::{opt_proc_view, route_action, ServiceConf, ServiceConfView};
use tokio::sync::oneshot::{Receiver, Sender};
use vstd::prelude::*;

verus! {

/// What registering a request gives: the receiving end of its slot, its
/// identifier (empty where no route matched), and the template of the
/// process to run for it, if its route names one.
pub struct Registration {
    pub receiver: Receiver<FrontResponse>,
    pub request_id: String,
    pub dispatch: Option<ProcEnv>,
}

/// The coordinator's state: the arbiter and the route configuration.
pub struct RequestsVisorActor {
    arbiter: Arbiter,
    config: ServiceConf,
}

impl RequestsVisorActor {
    pub closed spec fn wf(&self) -> bool {
        self.arbiter.wf()
    }

    /// The identifiers that are pending.
    pub closed spec fn pending(&self) -> Set<Seq<char>> {
        self.arbiter@
    }

    /// The slot kept under each pending identifier.
    pub closed spec fn slots(&self) -> Map<Seq<char>, Sender<FrontResponse>> {
        self.arbiter.slots()
    }

    /// Each value sent to a waiter's slot, with the slot, in order.
    pub closed spec fn sent(&self) -> Seq<(Sender<FrontResponse>, FrontResponse)> {
        self.arbiter.sent()
    }

    /// The route configuration.
    pub closed spec fn config(&self) -> ServiceConfView {
        self.config@
    }

    /// A coordinator with nothing pending and the routes of `conf`.
    pub fn new(conf: &ServiceConf) -> (r: Self)
        ensures
            r.wf(),
            r.pending() == Set::<Seq<char>>::empty(),
            r.slots() == Map::<Seq<char>, Sender<FrontResponse>>::empty(),
            r.sent().len() == 0,
            r.config() == conf@,
    {
        RequestsVisorActor { arbiter: Arbiter::new(), config: conf.clone() }
    }

    /// The number of pending identifiers.
    pub fn pending_count(&self) -> (r: usize)
        requires
            self.wf(),
        ensures
            r == self.pending().len(),
    {
        self.arbiter.pending_count()
    }

    /// Routes `req`. Where no route matches, the request is resolved at
    /// once: a new slot, whose receiving end is handed back, is sent an
    /// internal error, under the empty identifier, and nothing is
    /// registered. Otherwise it is registered under a fresh identifier with
    /// a new slot, nothing is sent, and the route's template, if any, is
    /// handed back to be run.
    pub fn register_pending(&mut self, req: &RestMessage) -> (r: Registration)
        requires
            old(self).wf(),
        ensures
            final(self).wf(),
            final(self).config() == old(self).config(),
            match route_action(old(self).config(), req@.method, req@.uri) {
                None => {
                    &&& r.request_id@.len() == 0
                    &&& r.dispatch is None
                    &&& final(self).pending() == old(self).pending()
                    &&& final(self).slots() == old(self).slots()
                    &&& final(self).sent().len() == old(self).sent().len() + 1
                    &&& final(self).sent().drop_last() == old(self).sent()
                    &&& final(self).sent().last().1 == FrontResponse::InternalError
                },
                Some(va) => {
                    &&& r.request_id@.len() == 36
                    &&& opt_proc_view(r.dispatch) == va.inject
                    &&& final(self).pending() == old(self).pending().insert(r.request_id@)
                    &&& final(self).slots() == old(self).slots().insert(
                        r.request_id@,
                        final(self).slots()[r.request_id@],
                    )
                    &&& final(self).sent() == old(self).sent()
                },
            },
    {
        match self.config.match_request(req) {
            Some(va) => {
                let (receiver, request_id) = self.arbiter.add_request();
                Registration { receiver, request_id, dispatch: va.inject }
            },
            None => {
                let receiver = self.arbiter.resolved_now(FrontResponse::InternalError);
                Registration { receiver, request_id: String::new(), dispatch: None }
            },
        }
    }

    /// Hands `response` to the slot kept under `req_id` and forgets the
    /// identifier; `true` exactly where it was pending.
    pub fn fulfill_pending(&mut self, req_id: &str, response: ForHttpResponse) -> (r: bool)
        requires
            old(self).wf(),
        ensures
            final(self).wf(),
            final(self).config() == old(self).config(),
            (final(self).pending(), r) == fulfill_step(old(self).pending(), req_id@),
            final(self).slots() == old(self).slots().remove(req_id@),
            final(self).sent() == (if r {
                old(self).sent().push((old(self).slots()[req_id@], FrontResponse::BackMsg(response)))
            } else {
                old(self).sent()
            }),
    {
        self.arbiter.fulfill_request(req_id, response)
    }

    /// Gives up on `req_id`: the slot kept under it is sent an internal
    /// error; `true` exactly where it was still pending.
    pub fn expire_pending(&mut self, req_id: &str) -> (r: bool)
        requires
            old(self).wf(),
        ensures
            final(self).wf(),
            final(self).config() == old(self).config(),
            (final(self).pending(), r) == fulfill_step(old(self).pending(), req_id@),
            final(self).slots() == old(self).slots().remove(req_id@),
            final(self).sent() == (if r {
                old(self).sent().push((old(self).slots()[req_id@], FrontResponse::InternalError))
            } else {
                old(self).sent()
            }),
    {
        self.arbiter.expire_request(req_id)
    }
}

} // verus!
