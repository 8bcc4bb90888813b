//! The decisions behind the daemon's HTTP API: which service a request
//! names, what a control action does, what "apply" starts, and how routes
//! are created and deleted.
use vstd::prelude::*;

use crate::config_gen::GeneratedPaths;
use crate::ids::{is_uuid_v4, new_uuid, uuid_string, uuid_text};
use crate::process::ServiceKind;
use crate::state::{copy_route, RouteEntry, RouteTarget};
use crate::text::{owned, push_str, str_eq};

verus! {

/// An API error and the status it is answered with: 404, 400, or 500 for
/// anything that failed inside the daemon.
#[derive(Debug, Clone)]
pub enum AppError {
    NotFound(String),
    BadRequest(String),
    Internal(String),
}

/// The service a path segment names: `rpxy`, `rpxy-l4` or `rpxy_l4`, and
/// `stalwart`.
pub open spec fn kind_named(name: Seq<char>) -> Option<ServiceKind> {
    if name == "rpxy"@ {
        Some(ServiceKind::Rpxy)
    } else if name == "rpxy-l4"@ || name == "rpxy_l4"@ {
        Some(ServiceKind::RpxyL4)
    } else if name == "stalwart"@ {
        Some(ServiceKind::Stalwart)
    } else {
        None
    }
}

/// Parses a service name; any other name is a bad request
/// "unknown service <name>".
pub fn parse_kind(name: &str) -> (r: Result<ServiceKind, AppError>)
    ensures
        r is Ok <==> kind_named(name@) is Some,
        r matches Ok(k) ==> kind_named(name@) == Some(k),
        r matches Err(e) ==> e matches AppError::BadRequest(msg) && msg@ == "unknown service "@
            + name@,
{
    if str_eq(name, "rpxy") {
        Ok(ServiceKind::Rpxy)
    } else if str_eq(name, "rpxy-l4") || str_eq(name, "rpxy_l4") {
        Ok(ServiceKind::RpxyL4)
    } else if str_eq(name, "stalwart") {
        Ok(ServiceKind::Stalwart)
    } else {
        let mut msg = owned("unknown service ");
        push_str(&mut msg, name);
        Err(AppError::BadRequest(msg))
    }
}

/// Every service's own executable name parses back to that service.
pub proof fn lemma_binary_name_parses(kind: ServiceKind)
    ensures
        kind_named(crate::process::binary_name_of(kind)) == Some(kind),
{
    reveal_strlit("rpxy");
    reveal_strlit("rpxy-l4");
    reveal_strlit("rpxy_l4");
    reveal_strlit("stalwart");
    assert("rpxy-l4"@ != "rpxy"@) by {
        assert("rpxy-l4"@.len() != "rpxy"@.len());
    }
    assert("stalwart"@ != "rpxy"@) by {
        assert("stalwart"@.len() != "rpxy"@.len());
    }
    assert("stalwart"@ != "rpxy-l4"@) by {
        assert("stalwart"@[0] != "rpxy-l4"@[0]);
    }
    assert("stalwart"@ != "rpxy_l4"@) by {
        assert("stalwart"@[0] != "rpxy_l4"@[0]);
    }
}

/// What a service control request does.
#[derive(Debug, Clone, Copy, PartialEq, Eq)]
pub enum ControlAction {
    Stop,
    Start,
    Restart,
}

/// The action a path segment names.
pub open spec fn action_named(action: Seq<char>) -> Option<ControlAction> {
    if action == "stop"@ {
        Some(ControlAction::Stop)
    } else if action == "start"@ {
        Some(ControlAction::Start)
    } else if action == "restart"@ {
        Some(ControlAction::Restart)
    } else {
        None
    }
}

/// Reads a `/api/services/<name>/<action>` request: the service is checked
/// first, then the action, each refused as a bad request when unknown.
pub fn plan_control(name: &str, action: &str) -> (r: Result<(ServiceKind, ControlAction), AppError>)
    ensures
        r is Ok <==> kind_named(name@) is Some && action_named(action@) is Some,
        r matches Ok((k, a)) ==> kind_named(name@) == Some(k) && action_named(action@) == Some(a),
        kind_named(name@) is None ==> (r matches Err(AppError::BadRequest(msg)) && msg@
            == "unknown service "@ + name@),
        kind_named(name@) is Some && action_named(action@) is None ==> (r matches Err(
            AppError::BadRequest(msg),
        ) && msg@ == "unknown action "@ + action@),
{
    let kind = match parse_kind(name) {
        Ok(k) => k,
        Err(e) => return Err(e),
    };
    if str_eq(action, "stop") {
        Ok((kind, ControlAction::Stop))
    } else if str_eq(action, "start") {
        Ok((kind, ControlAction::Start))
    } else if str_eq(action, "restart") {
        Ok((kind, ControlAction::Restart))
    } else {
        let mut msg = owned("unknown action ");
        push_str(&mut msg, action);
        Err(AppError::BadRequest(msg))
    }
}

/// One step a control request takes on a service's child process.
#[derive(Debug, Clone, Copy, PartialEq, Eq, Structural)]
pub enum ChildStep {
    /// Kill the child, if any, and forget it.
    StopChild,
    /// Check that no child is running, then spawn one.
    StartChild,
}

/// The steps a control action takes, in order: stop stops, start starts,
/// restart stops and then starts, so its start always finds the service
/// stopped.
pub fn control_steps(action: ControlAction) -> (v: Vec<ChildStep>)
    ensures
        v@ == (match action {
            ControlAction::Stop => seq![ChildStep::StopChild],
            ControlAction::Start => seq![ChildStep::StartChild],
            ControlAction::Restart => seq![ChildStep::StopChild, ChildStep::StartChild],
        }),
{
    let mut v = Vec::new();
    match action {
        ControlAction::Stop => v.push(ChildStep::StopChild),
        ControlAction::Start => v.push(ChildStep::StartChild),
        ControlAction::Restart => {
            v.push(ChildStep::StopChild);
            v.push(ChildStep::StartChild);
        },
    }
    assert(v@ =~= match action {
        ControlAction::Stop => seq![ChildStep::StopChild],
        ControlAction::Start => seq![ChildStep::StartChild],
        ControlAction::Restart => seq![ChildStep::StopChild, ChildStep::StartChild],
    });
    v
}

/// The generated config file a service is started with.
pub fn path_for(paths: &GeneratedPaths, kind: ServiceKind) -> (p: &String)
    ensures
        p == (match kind {
            ServiceKind::Rpxy => &paths.rpxy,
            ServiceKind::RpxyL4 => &paths.rpxy_l4,
            ServiceKind::Stalwart => &paths.stalwart,
        }),
{
    match kind {
        ServiceKind::Rpxy => &paths.rpxy,
        ServiceKind::RpxyL4 => &paths.rpxy_l4,
        ServiceKind::Stalwart => &paths.stalwart,
    }
}

/// A static-folder route whose file server must be running.
#[derive(Debug, Clone)]
pub struct StaticServe {
    pub id: u128,
    pub port: u16,
    pub path: String,
}

/// What "apply" does before regenerating configs: which static file servers
/// to keep running, and the ids of all routes that still exist.
#[derive(Debug, Clone)]
pub struct ApplyPlan {
    pub serve: Vec<StaticServe>,
    pub live_ids: Vec<u128>,
}

/// The static file server a route needs, if it is a static-folder route
/// with an assigned port.
pub open spec fn serve_of(r: RouteEntry) -> Option<(u128, u16, Seq<char>)> {
    match r.target {
        RouteTarget::Static { path, .. } => match r.internal_port {
            Some(port) => Some((r.id, port, path@)),
            None => None,
        },
        RouteTarget::Port { .. } => None,
    }
}

/// The file servers of the routes, in route order.
pub open spec fn serves_of(routes: Seq<RouteEntry>) -> Seq<(u128, u16, Seq<char>)>
    decreases routes.len(),
{
    if routes.len() == 0 {
        Seq::empty()
    } else {
        let rest = serves_of(routes.drop_last());
        match serve_of(routes.last()) {
            Some(s) => rest.push(s),
            None => rest,
        }
    }
}

/// The model of a list of file servers.
pub open spec fn serve_views(v: Seq<StaticServe>) -> Seq<(u128, u16, Seq<char>)> {
    v.map_values(|s: StaticServe| (s.id, s.port, s.path@))
}

/// Whether `e` is (id, internal port, folder) of some static-folder route
/// of `routes` that has an internal port.
pub open spec fn is_served_by(routes: Seq<RouteEntry>, e: (u128, u16, Seq<char>)) -> bool {
    exists|i: int|
        #![trigger routes[i]]
        0 <= i < routes.len() && routes[i].target is Static && routes[i].internal_port is Some
            && e == (routes[i].id, routes[i].internal_port->0, routes[i].target->path@)
}

proof fn lemma_serve_source(routes: Seq<RouteEntry>, k: int)
    requires
        0 <= k < serves_of(routes).len(),
    ensures
        is_served_by(routes, serves_of(routes)[k]),
    decreases routes.len(),
{
    let init = routes.drop_last();
    let rest = serves_of(init);
    let n = routes.len() - 1;
    let r = routes.last();
    assert(routes[n] == r);
    if k < rest.len() {
        assert(serves_of(routes)[k] == rest[k]) by {
            match serve_of(r) {
                Some(e) => assert(serves_of(routes) == rest.push(e)),
                None => assert(serves_of(routes) == rest),
            }
        }
        lemma_serve_source(init, k);
        let i = choose|i: int|
            #![trigger init[i]]
            0 <= i < init.len() && init[i].target is Static && init[i].internal_port is Some
                && rest[k] == (init[i].id, init[i].internal_port->0, init[i].target->path@);
        assert(init[i] == routes[i]);
    } else {
        assert(serve_of(r) is Some);
        assert(serves_of(routes) == rest.push(serve_of(r)->0));
        assert(serves_of(routes)[k] == (routes[n].id, routes[n].internal_port->0, routes[n].target->path@));
    }
}

/// The file servers "apply" keeps are exactly those of the static-folder
/// routes with an assigned port, each as (route id, that port, the folder):
/// every such route has its server whatever its other fields (TLS,
/// subdomain, hot reload), and no other route gets one.
pub proof fn lemma_serves_exactly_static_with_port(routes: Seq<RouteEntry>)
    ensures
        forall|i: int|
            #![trigger routes[i]]
            0 <= i < routes.len() && routes[i].target is Static && routes[i].internal_port is Some
                ==> serves_of(routes).contains(
                (routes[i].id, routes[i].internal_port->0, routes[i].target->path@),
            ),
        forall|k: int|
            0 <= k < serves_of(routes).len() ==> is_served_by(
                routes,
                #[trigger] serves_of(routes)[k],
            ),
    decreases routes.len(),
{
    if routes.len() > 0 {
        let init = routes.drop_last();
        lemma_serves_exactly_static_with_port(init);
        let rest = serves_of(init);
        let n = routes.len() - 1;
        assert forall|i: int| 0 <= i < init.len() implies #[trigger] init[i] == routes[i] by {}
        assert forall|i: int|
            #![trigger routes[i]]
            0 <= i < routes.len() && routes[i].target is Static && routes[i].internal_port is Some
                implies serves_of(routes).contains(
                (routes[i].id, routes[i].internal_port->0, routes[i].target->path@),
            ) by {
            let e = (routes[i].id, routes[i].internal_port->0, routes[i].target->path@);
            if i < n {
                assert(init[i] == routes[i]);
                assert(rest.contains(e));
                let k = choose|k: int| 0 <= k < rest.len() && rest[k] == e;
                assert(serves_of(routes)[k] == rest[k]);
            } else {
                assert(routes[i] == routes.last());
                assert(serves_of(routes) == rest.push(e));
                assert(serves_of(routes)[rest.len() as int] == e);
            }
        }
        assert forall|k: int|
            0 <= k < serves_of(routes).len() implies is_served_by(
                routes,
                #[trigger] serves_of(routes)[k],
            ) by {
            lemma_serve_source(routes, k);
        }
    } else {
        assert(serves_of(routes).len() == 0);
    }
}

/// Plans "apply": every static-folder route with a port gets its file
/// server, and every route id, in order, is kept.
pub fn plan_apply(routes: &Vec<RouteEntry>) -> (p: ApplyPlan)
    ensures
        serve_views(p.serve@) == serves_of(routes@),
        p.live_ids@ == routes@.map_values(|r: RouteEntry| r.id),
{
    let mut serve: Vec<StaticServe> = Vec::new();
    let mut live_ids: Vec<u128> = Vec::new();
    let n = routes.len();
    for i in 0..n
        invariant
            n == routes@.len(),
            serve_views(serve@) == serves_of(routes@.take(i as int)),
            live_ids@ == routes@.take(i as int).map_values(|r: RouteEntry| r.id),
    {
        let route = &routes[i];
        let ghost before = serve@;
        if let RouteTarget::Static { path, .. } = &route.target {
            if let Some(port) = route.internal_port {
                serve.push(StaticServe { id: route.id, port, path: path.clone() });
            }
        }
        live_ids.push(route.id);
        assert(routes@.take(i + 1).drop_last() =~= routes@.take(i as int));
        assert(serve_views(serve@) =~= serves_of(routes@.take(i + 1))) by {
            assert(serve_views(before) == serves_of(routes@.take(i as int)));
        }
        assert(live_ids@ =~= routes@.take(i + 1).map_values(|r: RouteEntry| r.id));
    }
    assert(routes@.take(n as int) =~= routes@);
    ApplyPlan { serve, live_ids }
}

/// The services "apply" restarts, in order, each with the name its result is
/// reported under and the config file it is given.
pub fn service_restarts(paths: &GeneratedPaths) -> (v: Vec<(String, ServiceKind, String)>)
    ensures
        v@.len() == 3,
        v@[0].0@ == "rpxy"@ && v@[0].1 == ServiceKind::Rpxy && v@[0].2@ == paths.rpxy@,
        v@[1].0@ == "rpxy_l4"@ && v@[1].1 == ServiceKind::RpxyL4 && v@[1].2@ == paths.rpxy_l4@,
        v@[2].0@ == "stalwart"@ && v@[2].1 == ServiceKind::Stalwart && v@[2].2@
            == paths.stalwart@,
{
    let mut v = Vec::new();
    v.push((owned("rpxy"), ServiceKind::Rpxy, paths.rpxy.clone()));
    v.push((owned("rpxy_l4"), ServiceKind::RpxyL4, paths.rpxy_l4.clone()));
    v.push((owned("stalwart"), ServiceKind::Stalwart, paths.stalwart.clone()));
    v
}

/// How one service's restart went, as the apply answer reports it.
#[derive(Debug, Clone)]
pub struct ServiceReport {
    pub name: String,
    pub ok: bool,
    pub error: Option<String>,
}

/// The apply answer's per-service part: for each restarted service, in
/// order, its name and whether the restart went through, with the error's
/// text when it did not. A failed restart is reported, not raised.
pub fn service_reports(results: &Vec<(String, Result<(), String>)>) -> (v: Vec<ServiceReport>)
    ensures
        v@.len() == results@.len(),
        forall|i: int|
            0 <= i < results@.len() ==> {
                &&& (#[trigger] v@[i]).name == results@[i].0
                &&& v@[i].ok == results@[i].1 is Ok
                &&& v@[i].error == match results@[i].1 {
                    Ok(_) => None,
                    Err(e) => Some(e),
                }
            },
{
    let mut v: Vec<ServiceReport> = Vec::new();
    let n = results.len();
    for i in 0..n
        invariant
            n == results@.len(),
            v@.len() == i,
            forall|j: int|
                0 <= j < i ==> {
                    &&& (#[trigger] v@[j]).name == results@[j].0
                    &&& v@[j].ok == results@[j].1 is Ok
                    &&& v@[j].error == match results@[j].1 {
                        Ok(_) => None,
                        Err(e) => Some(e),
                    }
                },
    {
        let (name, result) = &results[i];
        let report = match result {
            Ok(()) => ServiceReport { name: name.clone(), ok: true, error: None },
            Err(e) => ServiceReport { name: name.clone(), ok: false, error: Some(e.clone()) },
        };
        v.push(report);
    }
    v
}

/// A route creation request.
#[derive(Debug, Clone)]
pub struct NewRoute {
    pub subdomain: String,
    pub target: RouteTarget,
    pub tls: bool,
}

/// Whether a new route needs a local port for its static file server: only
/// static-folder routes do.
pub fn needs_internal_port(target: &RouteTarget) -> (b: bool)
    ensures
        b == (target is Static),
{
    match target {
        RouteTarget::Static { .. } => true,
        RouteTarget::Port { .. } => false,
    }
}

/// The entry for a new route under a fresh random version-4 UUID (that it
/// differs from the ids already in use rests on chance and is not stated); a
/// folder route gets the static file server's port `free_port`, a port
/// route none.
pub fn create_route_entry(req: NewRoute, free_port: Option<u16>) -> (e: RouteEntry)
    ensures
        is_uuid_v4(e.id),
        e.subdomain == req.subdomain,
        e.target == req.target,
        e.tls == req.tls,
        e.internal_port == (if req.target is Static {
            free_port
        } else {
            None
        }),
{
    let internal_port = if needs_internal_port(&req.target) {
        free_port
    } else {
        None
    };
    RouteEntry {
        id: new_uuid(),
        subdomain: req.subdomain,
        target: req.target,
        tls: req.tls,
        internal_port,
    }
}

/// The routes without the one(s) carrying `id`.
pub open spec fn routes_without(routes: Seq<RouteEntry>, id: u128) -> Seq<RouteEntry>
    decreases routes.len(),
{
    if routes.len() == 0 {
        Seq::empty()
    } else {
        let rest = routes_without(routes.drop_last(), id);
        if routes.last().id == id {
            rest
        } else {
            rest.push(routes.last())
        }
    }
}

/// Deleting by id never adds a route, and leaves the list as long as it was
/// exactly when no route carries that id.
pub proof fn lemma_routes_without_len(routes: Seq<RouteEntry>, id: u128)
    ensures
        routes_without(routes, id).len() <= routes.len(),
        routes_without(routes, id).len() == routes.len() <==> forall|i: int|
            0 <= i < routes.len() ==> #[trigger] routes[i].id != id,
    decreases routes.len(),
{
    if routes.len() > 0 {
        lemma_routes_without_len(routes.drop_last(), id);
        assert forall|i: int| 0 <= i < routes.len() - 1 implies #[trigger] routes[i]
            == routes.drop_last()[i] by {}
    }
}

proof fn lemma_routes_without_absent(routes: Seq<RouteEntry>, id: u128)
    requires
        forall|i: int| 0 <= i < routes.len() ==> #[trigger] routes[i].id != id,
    ensures
        routes_without(routes, id) == routes,
    decreases routes.len(),
{
    if routes.len() > 0 {
        let init = routes.drop_last();
        assert forall|i: int| 0 <= i < init.len() implies #[trigger] init[i].id != id by {
            assert(init[i] == routes[i]);
        }
        lemma_routes_without_absent(init, id);
        assert(routes.last() == routes[routes.len() - 1]);
        assert(init.push(routes.last()) =~= routes);
    } else {
        assert(routes_without(routes, id) =~= routes);
    }
}

proof fn lemma_routes_without_gone(routes: Seq<RouteEntry>, id: u128)
    ensures
        forall|i: int|
            0 <= i < routes_without(routes, id).len() ==> #[trigger] routes_without(
                routes,
                id,
            )[i].id != id,
    decreases routes.len(),
{
    if routes.len() > 0 {
        lemma_routes_without_gone(routes.drop_last(), id);
        let rest = routes_without(routes.drop_last(), id);
        assert forall|i: int|
            0 <= i < routes_without(routes, id).len() implies #[trigger] routes_without(
            routes,
            id,
        )[i].id != id by {
            if i < rest.len() {
                assert(routes_without(routes, id)[i] == rest[i]);
            }
        }
    }
}

/// After a delete no route carries the id, so deleting it again is "not
/// found"; and deleting a route that was just appended under an id no other
/// route carries gives back the list as it was before.
pub proof fn lemma_delete_undoes_create(routes: Seq<RouteEntry>, e: RouteEntry)
    ensures
        forall|i: int|
            0 <= i < routes_without(routes, e.id).len() ==> #[trigger] routes_without(
                routes,
                e.id,
            )[i].id != e.id,
        (forall|i: int| 0 <= i < routes.len() ==> #[trigger] routes[i].id != e.id)
            ==> routes_without(routes.push(e), e.id) == routes,
{
    lemma_routes_without_gone(routes, e.id);
    assert(routes.push(e).drop_last() =~= routes);
    if forall|i: int| 0 <= i < routes.len() ==> #[trigger] routes[i].id != e.id {
        lemma_routes_without_absent(routes, e.id);
    }
}

/// Deletes the route with `id`; a route that does not exist is "not found"
/// and leaves the list as it was.
pub fn remove_route(routes: &mut Vec<RouteEntry>, id: u128) -> (r: Result<(), AppError>)
    ensures
        final(routes)@ == routes_without(old(routes)@, id),
        r is Ok <==> exists|i: int| 0 <= i < old(routes)@.len() && #[trigger] old(routes)@[i].id
            == id,
        r matches Err(e) ==> e matches AppError::NotFound(msg) && msg@ == "route "@ + uuid_text(
            id,
        ),
{
    let ghost orig = routes@;
    let mut kept: Vec<RouteEntry> = Vec::new();
    let n = routes.len();
    let mut i: usize = 0;
    while i < n
        invariant
            i <= n,
            n == orig.len(),
            routes@ == orig,
            kept@ == routes_without(orig.take(i as int), id),
        decreases n - i,
    {
        if routes[i].id != id {
            kept.push(copy_route(&routes[i]));
        }
        assert(orig.take(i + 1).drop_last() =~= orig.take(i as int));
        i = i + 1;
    }
    assert(orig.take(n as int) =~= orig);
    proof {
        lemma_routes_without_len(orig, id);
    }
    let before = routes.len();
    *routes = kept;
    if routes.len() == before {
        let mut msg = owned("route ");
        let text = uuid_string(id);
        push_str(&mut msg, text.as_str());
        Err(AppError::NotFound(msg))
    } else {
        Ok(())
    }
}

} // verus!
