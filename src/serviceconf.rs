//! Route configuration: for each path and verb, whether and how a process
//! is run to fulfill a request.

use crate::procenv::{ProcEnv, ProcEnvView};
use crate::restmessage::RestMessage;
use vstd::prelude::*;

verus! {

/// What one verb of one path asks for: validation and logging flags, and
/// the process to run, if any.
#[derive(Debug)]
pub struct VerbAction {
    pub validatein: bool,
    pub validateout: bool,
    pub logstdout: bool,
    pub inject: Option<ProcEnv>,
}

pub struct VerbActionView {
    pub validatein: bool,
    pub validateout: bool,
    pub logstdout: bool,
    pub inject: Option<ProcEnvView>,
}

/// The view of an optional process template.
pub open spec fn opt_proc_view(p: Option<ProcEnv>) -> Option<ProcEnvView> {
    match p {
        Some(e) => Some(e@),
        None => None,
    }
}

impl View for VerbAction {
    type V = VerbActionView;

    open spec fn view(&self) -> VerbActionView {
        VerbActionView {
            validatein: self.validatein,
            validateout: self.validateout,
            logstdout: self.logstdout,
            inject: opt_proc_view(self.inject),
        }
    }
}

/// The view of an optional action.
pub open spec fn opt_action_view(a: Option<VerbAction>) -> Option<VerbActionView> {
    match a {
        Some(v) => Some(v@),
        None => None,
    }
}

/// A copy of an optional action.
fn clone_opt_action(a: &Option<VerbAction>) -> (r: Option<VerbAction>)
    ensures
        opt_action_view(r) == opt_action_view(*a),
{
    match a {
        Some(v) => Some(v.clone()),
        None => None,
    }
}

impl Clone for VerbAction {
    fn clone(&self) -> (r: Self)
        ensures
            r@ == self@,
    {
        let inject = match &self.inject {
            Some(p) => Some(p.clone()),
            None => None,
        };
        VerbAction {
            validatein: self.validatein,
            validateout: self.validateout,
            logstdout: self.logstdout,
            inject,
        }
    }
}

impl Default for VerbAction {
    fn default() -> (r: Self)
        ensures
            r@ == (VerbActionView {
                validatein: false,
                validateout: false,
                logstdout: false,
                inject: None,
            }),
    {
        VerbAction { validatein: false, validateout: false, logstdout: false, inject: None }
    }
}

/// The actions of one path, by verb.
#[derive(Debug)]
pub struct PathVerb {
    pub get: Option<VerbAction>,
    pub post: Option<VerbAction>,
}

pub struct PathVerbView {
    pub get: Option<VerbActionView>,
    pub post: Option<VerbActionView>,
}

impl View for PathVerb {
    type V = PathVerbView;

    open spec fn view(&self) -> PathVerbView {
        PathVerbView { get: opt_action_view(self.get), post: opt_action_view(self.post) }
    }
}

impl Clone for PathVerb {
    fn clone(&self) -> (r: Self)
        ensures
            r@ == self@,
    {
        PathVerb { get: clone_opt_action(&self.get), post: clone_opt_action(&self.post) }
    }
}

/// A path that only answers `GET`.
#[derive(Debug)]
pub struct PathVerbT {
    get: VerbAction,
}

/// The configuration of the service: its name, the socket of the back
/// listener, the port of the front one, and the routes by path.
#[derive(Debug)]
pub struct ServiceConf {
    pub servicename: String,
    pub socketpath: String,
    pub port: String,
    pub paths: Vec<(String, PathVerb)>,
}

pub struct ServiceConfView {
    pub servicename: Seq<char>,
    pub socketpath: Seq<char>,
    pub port: Seq<char>,
    pub paths: Seq<(Seq<char>, PathVerbView)>,
}

/// The views of a list of routes.
pub open spec fn routes_view(paths: Seq<(String, PathVerb)>) -> Seq<(Seq<char>, PathVerbView)> {
    paths.map_values(|p: (String, PathVerb)| (p.0@, p.1@))
}

impl View for ServiceConf {
    type V = ServiceConfView;

    open spec fn view(&self) -> ServiceConfView {
        ServiceConfView {
            servicename: self.servicename@,
            socketpath: self.socketpath@,
            port: self.port@,
            paths: routes_view(self.paths@),
        }
    }
}

/// The actions of the first route whose path is `uri`.
pub open spec fn route_lookup(paths: Seq<(Seq<char>, PathVerbView)>, uri: Seq<char>) -> Option<
    PathVerbView,
>
    decreases paths.len(),
{
    if paths.len() == 0 {
        None
    } else if paths[0].0 == uri {
        Some(paths[0].1)
    } else {
        route_lookup(paths.drop_first(), uri)
    }
}

/// The action configured for a request with this method and path: that of
/// `GET` or `POST` on its path; none for another method or an unknown path.
pub open spec fn route_action(conf: ServiceConfView, method: Seq<char>, uri: Seq<char>) -> Option<
    VerbActionView,
> {
    match route_lookup(conf.paths, uri) {
        None => None,
        Some(pv) => if method == "GET"@ {
            pv.get
        } else if method == "POST"@ {
            pv.post
        } else {
            None
        },
    }
}

impl ServiceConf {
    /// No path has two routes.
    pub open spec fn wf(&self) -> bool {
        forall|i: int, j: int|
            0 <= i < j < self.paths@.len() ==> #[trigger] self.paths@[i].0@ != #[trigger] self.paths@[j].0@
    }

    /// Sets the actions of `path`, replacing those it had.
    pub fn add_path(&mut self, path: String, actions: PathVerb)
        requires
            old(self).wf(),
        ensures
            final(self).wf(),
            final(self)@.servicename == old(self)@.servicename,
            final(self)@.socketpath == old(self)@.socketpath,
            final(self)@.port == old(self)@.port,
            forall|uri: Seq<char>|
                #[trigger] route_lookup(final(self)@.paths, uri) == if uri == path@ {
                    Some(actions@)
                } else {
                    route_lookup(old(self)@.paths, uri)
                },
    {
        let ghost old_routes = routes_view(self.paths@);
        let mut found: Option<usize> = None;
        let mut i: usize = 0;
        while i < self.paths.len()
            invariant
                i <= self.paths@.len(),
                self.paths@ == old(self).paths@,
                old_routes == routes_view(self.paths@),
                match found {
                    None => forall|j: int| 0 <= j < i ==> self.paths@[j].0@ != path@,
                    Some(k) => {
                        &&& k < self.paths@.len()
                        &&& self.paths@[k as int].0@ == path@
                        &&& forall|j: int| 0 <= j < k ==> self.paths@[j].0@ != path@
                    },
                },
            decreases self.paths@.len() - i,
        {
            if found.is_none() && crate::table::same_text(self.paths[i].0.as_str(), path.as_str()) {
                found = Some(i);
            }
            i = i + 1;
        }
        assert forall|j: int| 0 <= j < old_routes.len() implies old_routes[j].0
            == self.paths@[j].0@ by {}
        let ghost pv = actions@;
        let ghost p = path@;
        match found {
            Some(k) => {
                assert(old_routes[k as int].0 == p);
                self.paths.set(k, (path, actions));
                proof {
                    let newr = routes_view(self.paths@);
                    assert(newr =~= old_routes.update(k as int, (p, pv)));
                    assert forall|uri: Seq<char>| #[trigger]
                        route_lookup(newr, uri) == if uri == p {
                            Some(pv)
                        } else {
                            route_lookup(old_routes, uri)
                        } by {
                        lemma_lookup_update(old_routes, k as int, pv, uri);
                    }
                    assert forall|a: int, b: int|
                        0 <= a < b < self.paths@.len() implies #[trigger] self.paths@[a].0@
                            != #[trigger] self.paths@[b].0@ by {
                        assert(newr[a].0 == self.paths@[a].0@);
                        assert(newr[b].0 == self.paths@[b].0@);
                        assert(old_routes[a].0 == old(self).paths@[a].0@);
                        assert(old_routes[b].0 == old(self).paths@[b].0@);
                    }
                }
            },
            None => {
                self.paths.push((path, actions));
                proof {
                    let newr = routes_view(self.paths@);
                    assert(newr =~= old_routes.push((p, pv)));
                    assert forall|uri: Seq<char>| #[trigger]
                        route_lookup(newr, uri) == if uri == p {
                            Some(pv)
                        } else {
                            route_lookup(old_routes, uri)
                        } by {
                        lemma_lookup_push(old_routes, p, pv, uri);
                    }
                    assert forall|a: int, b: int|
                        0 <= a < b < self.paths@.len() implies #[trigger] self.paths@[a].0@
                            != #[trigger] self.paths@[b].0@ by {
                        if b < old(self).paths@.len() {
                            assert(self.paths@[a] == old(self).paths@[a]);
                            assert(self.paths@[b] == old(self).paths@[b]);
                        } else {
                            assert(self.paths@[a] == old(self).paths@[a]);
                        }
                    }
                }
            },
        }
    }

    /// The action configured for the request's method and path.
    pub fn match_request(&self, rm: &RestMessage) -> (r: Option<VerbAction>)
        ensures
            opt_action_view(r) == route_action(self@, rm@.method, rm@.uri),
    {
        let uri = rm.uri();
        let ghost all = routes_view(self.paths@);
        let mut i: usize = 0;
        assert(all.skip(0) =~= all);
        while i < self.paths.len()
            invariant
                i <= self.paths@.len(),
                all == routes_view(self.paths@),
                uri@ == rm@.uri,
                route_lookup(all, uri@) == route_lookup(all.skip(i as int), uri@),
            decreases self.paths@.len() - i,
        {
            assert(all.skip(i as int).drop_first() =~= all.skip(i + 1));
            if crate::table::same_text(self.paths[i].0.as_str(), uri) {
                let pv = &self.paths[i].1;
                assert(all[i as int] == (self.paths@[i as int].0@, pv@));
                assert(all.skip(i as int)[0] == all[i as int]);
                assert(route_lookup(all, uri@) == Some(pv@));
                let method = rm.method();
                if crate::table::same_text(method, "GET") {
                    return clone_opt_action(&pv.get);
                } else if crate::table::same_text(method, "POST") {
                    return clone_opt_action(&pv.post);
                } else {
                    return None;
                }
            }
            i = i + 1;
        }
        None
    }
}

/// Looking up a route after one entry's actions were replaced, where no
/// earlier entry has that entry's path.
proof fn lemma_lookup_update(
    routes: Seq<(Seq<char>, PathVerbView)>,
    k: int,
    pv: PathVerbView,
    uri: Seq<char>,
)
    requires
        0 <= k < routes.len(),
        forall|j: int| 0 <= j < k ==> routes[j].0 != routes[k].0,
    ensures
        route_lookup(routes.update(k, (routes[k].0, pv)), uri) == if uri == routes[k].0 {
            Some(pv)
        } else {
            route_lookup(routes, uri)
        },
    decreases k,
{
    let updated = routes.update(k, (routes[k].0, pv));
    assert(updated[0] == if k == 0 {
        (routes[k].0, pv)
    } else {
        routes[0]
    });
    if k == 0 {
        assert(updated.drop_first() =~= routes.drop_first());
    }
    if k > 0 {
        lemma_lookup_update(routes.drop_first(), k - 1, pv, uri);
        assert(updated.drop_first() =~= routes.drop_first().update(
            k - 1,
            (routes[k].0, pv),
        ));
    }
}

/// Looking up a route after an entry for a new path was added at the end.
proof fn lemma_lookup_push(
    routes: Seq<(Seq<char>, PathVerbView)>,
    p: Seq<char>,
    pv: PathVerbView,
    uri: Seq<char>,
)
    requires
        forall|j: int| 0 <= j < routes.len() ==> routes[j].0 != p,
    ensures
        route_lookup(routes.push((p, pv)), uri) == if uri == p {
            Some(pv)
        } else {
            route_lookup(routes, uri)
        },
    decreases routes.len(),
{
    if routes.len() > 0 {
        assert(routes.push((p, pv))[0] == routes[0]);
        assert(routes[0].0 != p);
        lemma_lookup_push(routes.drop_first(), p, pv, uri);
        assert(routes.push((p, pv)).drop_first() =~= routes.drop_first().push((p, pv)));
    } else {
        assert(routes.push((p, pv))[0] == (p, pv));
        assert(routes.push((p, pv)).drop_first() =~= Seq::<(Seq<char>, PathVerbView)>::empty());
        assert(route_lookup(routes, uri) is None);
        assert(route_lookup(Seq::<(Seq<char>, PathVerbView)>::empty(), uri) is None);
    }
}

impl Clone for ServiceConf {
    fn clone(&self) -> (r: Self)
        ensures
            r@ == self@,
            self.wf() ==> r.wf(),
    {
        let mut paths: Vec<(String, PathVerb)> = Vec::new();
        for i in 0..self.paths.len()
            invariant
                routes_view(paths@) == routes_view(self.paths@).take(i as int),
        {
            let p = (self.paths[i].0.clone(), self.paths[i].1.clone());
            proof {
                assert(routes_view(paths@.push(p)) =~= routes_view(paths@).push((p.0@, p.1@)));
                assert(routes_view(self.paths@).take(i + 1) =~= routes_view(self.paths@).take(
                    i as int,
                ).push((p.0@, p.1@)));
            }
            paths.push(p);
        }
        assert(routes_view(self.paths@).take(self.paths@.len() as int) =~= routes_view(
            self.paths@,
        ));
        proof {
            if self.wf() {
                assert forall|a: int, b: int|
                    0 <= a < b < paths@.len() implies #[trigger] paths@[a].0@
                        != #[trigger] paths@[b].0@ by {
                    assert(routes_view(paths@)[a].0 == paths@[a].0@);
                    assert(routes_view(paths@)[b].0 == paths@[b].0@);
                    assert(routes_view(self.paths@)[a].0 == self.paths@[a].0@);
                    assert(routes_view(self.paths@)[b].0 == self.paths@[b].0@);
                }
            }
        }
        ServiceConf {
            servicename: self.servicename.clone(),
            socketpath: self.socketpath.clone(),
            port: self.port.clone(),
            paths,
        }
    }
}

impl Default for ServiceConf {
    fn default() -> (r: Self)
        ensures
            r@.servicename.len() == 0,
            r@.socketpath.len() == 0,
            r@.port.len() == 0,
            r@.paths.len() == 0,
            r.wf(),
    {
        ServiceConf {
            servicename: String::new(),
            socketpath: String::new(),
            port: String::new(),
            paths: Vec::new(),
        }
    }
}

} // verus!
