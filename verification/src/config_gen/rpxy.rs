//! rpxy's TOML config: one app per routed subdomain, reverse-proxying to the
//! route's local port, with TLS paths under the certificate directory.
use vstd::prelude::*;

use crate::state::{PersistedState, RouteEntry, RouteTarget};
use crate::text::{dec, owned, push_dec, push_str};
use crate::toml_doc::{
    array_value, boolean_value, contents_all, empty_table, integer_value, new_table, render, rendered_or_empty,
    string_value, table_contents, table_insert, table_value, value_contents, TomlDoc,
};

verus! {

/// The local port a route's traffic is proxied to: its own port for a
/// `Port` target, the static server's port for a `Static` one (none yet if
/// it was never assigned).
pub open spec fn upstream_port(r: RouteEntry) -> Option<u16> {
    match r.target {
        RouteTarget::Port { port } => Some(port),
        RouteTarget::Static { .. } => r.internal_port,
    }
}

/// `127.0.0.1:<port>`.
pub open spec fn loopback(port: u16) -> Seq<char> {
    "127.0.0.1:"@ + dec(port as nat)
}

/// The `tls` table of an app.
pub open spec fn tls_doc(subdomain: Seq<char>, cert_dir: Seq<char>) -> TomlDoc {
    TomlDoc::Table(
        empty_table().insert(
            "tls_cert_path"@,
            TomlDoc::Str(cert_dir + "/"@ + subdomain + "/fullchain.pem"@),
        ).insert(
            "tls_cert_key_path"@,
            TomlDoc::Str(cert_dir + "/"@ + subdomain + "/privkey.pem"@),
        ).insert("https_redirection"@, TomlDoc::Boolean(true)).insert(
            "acme"@,
            TomlDoc::Boolean(true),
        ),
    )
}

/// The app entry of a route whose traffic goes to `port`.
pub open spec fn app_doc(r: RouteEntry, port: u16, cert_dir: Seq<char>) -> TomlDoc {
    let upstream_entry = TomlDoc::Table(
        empty_table().insert("location"@, TomlDoc::Str(loopback(port))),
    );
    let reverse_proxy_entry = TomlDoc::Table(
        empty_table().insert("upstream"@, TomlDoc::Array(seq![upstream_entry])),
    );
    let base = empty_table().insert("server_name"@, TomlDoc::Str(r.subdomain@)).insert(
        "reverse_proxy"@,
        TomlDoc::Array(seq![reverse_proxy_entry]),
    );
    if r.tls {
        TomlDoc::Table(base.insert("tls"@, tls_doc(r.subdomain@, cert_dir)))
    } else {
        TomlDoc::Table(base)
    }
}

/// The `apps` table: the routes in order, keyed by subdomain (a later route
/// replaces an earlier one with the same subdomain); routes without an
/// upstream port are left out.
pub open spec fn apps_table(routes: Seq<RouteEntry>, cert_dir: Seq<char>) -> Map<Seq<char>, TomlDoc>
    decreases routes.len(),
{
    if routes.len() == 0 {
        empty_table()
    } else {
        let t = apps_table(routes.drop_last(), cert_dir);
        let r = routes.last();
        match upstream_port(r) {
            Some(p) => t.insert(r.subdomain@, app_doc(r, p, cert_dir)),
            None => t,
        }
    }
}

/// The whole rpxy document.
pub open spec fn rpxy_doc(state: PersistedState, cert_dir: Seq<char>) -> TomlDoc {
    TomlDoc::Table(
        empty_table().insert("listen_port"@, TomlDoc::Integer(80)).insert(
            "listen_port_tls"@,
            TomlDoc::Integer(443),
        ).insert("apps"@, TomlDoc::Table(apps_table(state.routes@, cert_dir))),
    )
}

fn loopback_text(port: u16) -> (s: String)
    ensures
        s@ == loopback(port),
{
    let mut s = owned("127.0.0.1:");
    push_dec(&mut s, port as u64);
    s
}

fn cert_file(cert_dir: &str, subdomain: &String, file: &str) -> (s: String)
    ensures
        s@ == cert_dir@ + "/"@ + subdomain@ + file@,
{
    let mut s = owned(cert_dir);
    push_str(&mut s, "/");
    push_str(&mut s, subdomain.as_str());
    push_str(&mut s, file);
    s
}

fn tls_value(subdomain: &String, cert_dir: &str) -> (v: toml::Value)
    ensures
        value_contents(v) == tls_doc(subdomain@, cert_dir@),
{
    let mut tls = new_table();
    table_insert(
        &mut tls,
        owned("tls_cert_path"),
        string_value(cert_file(cert_dir, subdomain, "/fullchain.pem")),
    );
    table_insert(
        &mut tls,
        owned("tls_cert_key_path"),
        string_value(cert_file(cert_dir, subdomain, "/privkey.pem")),
    );
    table_insert(&mut tls, owned("https_redirection"), boolean_value(true));
    table_insert(&mut tls, owned("acme"), boolean_value(true));
    table_value(tls)
}

/// A one-item array.
fn single(v: toml::Value) -> (a: toml::Value)
    ensures
        value_contents(a) == TomlDoc::Array(seq![value_contents(v)]),
{
    let ghost d = value_contents(v);
    let mut items: Vec<toml::Value> = Vec::new();
    items.push(v);
    assert(contents_all(items@) =~= seq![d]);
    array_value(items)
}

fn app_value(route: &RouteEntry, port: u16, cert_dir: &str) -> (v: toml::Value)
    ensures
        value_contents(v) == app_doc(*route, port, cert_dir@),
{
    let mut upstream_entry = new_table();
    table_insert(&mut upstream_entry, owned("location"), string_value(loopback_text(port)));
    let mut reverse_proxy_entry = new_table();
    table_insert(&mut reverse_proxy_entry, owned("upstream"), single(table_value(upstream_entry)));

    let mut app = new_table();
    table_insert(&mut app, owned("server_name"), string_value(route.subdomain.clone()));
    table_insert(&mut app, owned("reverse_proxy"), single(table_value(reverse_proxy_entry)));
    if route.tls {
        table_insert(&mut app, owned("tls"), tls_value(&route.subdomain, cert_dir));
    }
    table_value(app)
}

/// The rpxy document for the current routes.
pub fn document(state: &PersistedState, cert_dir: &str) -> (v: toml::Value)
    ensures
        value_contents(v) == rpxy_doc(*state, cert_dir@),
{
    let mut doc = new_table();
    table_insert(&mut doc, owned("listen_port"), integer_value(80));
    table_insert(&mut doc, owned("listen_port_tls"), integer_value(443));

    let mut apps = new_table();
    let n = state.routes.len();
    for i in 0..n
        invariant
            n == state.routes@.len(),
            table_contents(apps) == apps_table(state.routes@.take(i as int), cert_dir@),
    {
        let route = &state.routes[i];
        let upstream = match &route.target {
            RouteTarget::Port { port } => Some(*port),
            RouteTarget::Static { .. } => route.internal_port,
        };
        if let Some(port) = upstream {
            let app = app_value(route, port, cert_dir);
            table_insert(&mut apps, route.subdomain.clone(), app);
        }
        assert(state.routes@.take(i + 1).drop_last() =~= state.routes@.take(i as int));
    }
    assert(state.routes@.take(n as int) =~= state.routes@);
    table_insert(&mut doc, owned("apps"), table_value(apps));
    table_value(doc)
}

/// Generates rpxy's TOML config from the current routes; the empty string
/// where the serializer reports an error.
pub fn generate(state: &PersistedState, cert_dir: &str) -> (s: String)
    ensures
        s@ == rendered_or_empty(rpxy_doc(*state, cert_dir@)),
{
    let doc = document(state, cert_dir);
    render(&doc)
}

/// Every route that has an upstream port gets an app under its subdomain,
/// built from the last such route with that subdomain; a subdomain none of
/// whose routes has an upstream port gets no app.
pub proof fn lemma_apps_lookup(routes: Seq<RouteEntry>, cert_dir: Seq<char>, sub: Seq<char>)
    ensures
        (forall|i: int|
            0 <= i < routes.len() && #[trigger] routes[i].subdomain@ == sub ==> upstream_port(
                routes[i],
            ) is None) ==> !apps_table(routes, cert_dir).dom().contains(sub),
        forall|i: int|
            #![trigger routes[i]]
            0 <= i < routes.len() && routes[i].subdomain@ == sub && upstream_port(routes[i]) is Some
                && (forall|j: int|
                i < j < routes.len() && #[trigger] routes[j].subdomain@ == sub ==> upstream_port(
                    routes[j],
                ) is None) ==> apps_table(routes, cert_dir).dom().contains(sub) && apps_table(
                routes,
                cert_dir,
            )[sub] == app_doc(routes[i], upstream_port(routes[i])->0, cert_dir),
    decreases routes.len(),
{
    if routes.len() > 0 {
        let init = routes.drop_last();
        let r = routes.last();
        let n = routes.len() - 1;
        lemma_apps_lookup(init, cert_dir, sub);
        assert forall|i: int| 0 <= i < init.len() implies #[trigger] init[i] == routes[i] by {}
        assert(routes[n] == r);
        assert forall|i: int|
            #![trigger routes[i]]
            0 <= i < routes.len() && routes[i].subdomain@ == sub && upstream_port(routes[i]) is Some
                && (forall|j: int|
                i < j < routes.len() && #[trigger] routes[j].subdomain@ == sub ==> upstream_port(
                    routes[j],
                ) is None) implies apps_table(routes, cert_dir).dom().contains(sub) && apps_table(
            routes,
            cert_dir,
        )[sub] == app_doc(routes[i], upstream_port(routes[i])->0, cert_dir) by {
            if i < n {
                assert(init[i] == routes[i]);
                assert forall|j: int|
                    i < j < init.len() && #[trigger] init[j].subdomain@ == sub implies upstream_port(
                    init[j],
                ) is None by {
                    assert(init[j] == routes[j]);
                }
            }
        }
        if forall|i: int|
            0 <= i < routes.len() && #[trigger] routes[i].subdomain@ == sub ==> upstream_port(
                routes[i],
            ) is None {
            assert forall|i: int|
                0 <= i < init.len() && #[trigger] init[i].subdomain@ == sub implies upstream_port(
                init[i],
            ) is None by {
                assert(init[i] == routes[i]);
            }
        }
    }
}

/// The app rpxy gets for a routed subdomain, read off the whole document:
/// for the last route of that subdomain with an upstream port, the app is
/// named after the subdomain, proxies to that port on the loopback address,
/// and has a `tls` table exactly when the route has TLS on (whether it
/// points at a port or at a static folder), holding the certificate and
/// key paths `<cert_dir>/<subdomain>/fullchain.pem` and `.../privkey.pem`
/// with HTTPS redirection and ACME on.
pub proof fn lemma_app_of_route(state: PersistedState, cert_dir: Seq<char>, i: int)
    requires
        0 <= i < state.routes@.len(),
        upstream_port(state.routes@[i]) is Some,
        forall|j: int|
            i < j < state.routes@.len() && #[trigger] state.routes@[j].subdomain@
                == state.routes@[i].subdomain@ ==> upstream_port(state.routes@[j]) is None,
    ensures
        ({
            let r = state.routes@[i];
            let sub = r.subdomain@;
            let port = upstream_port(r)->0;
            let apps = rpxy_doc(state, cert_dir)->Table_0["apps"@];
            let app = apps->Table_0[sub];
            &&& rpxy_doc(state, cert_dir) is Table
            &&& rpxy_doc(state, cert_dir)->Table_0.dom().contains("apps"@)
            &&& apps is Table
            &&& apps->Table_0.dom().contains(sub)
            &&& app is Table
            &&& app->Table_0["server_name"@] == TomlDoc::Str(sub)
            &&& app->Table_0["reverse_proxy"@] == TomlDoc::Array(
                seq![
                    TomlDoc::Table(
                        empty_table().insert(
                            "upstream"@,
                            TomlDoc::Array(
                                seq![
                                    TomlDoc::Table(
                                        empty_table().insert(
                                            "location"@,
                                            TomlDoc::Str("127.0.0.1:"@ + dec(port as nat)),
                                        ),
                                    ),
                                ],
                            ),
                        ),
                    ),
                ],
            )
            &&& (app->Table_0.dom().contains("tls"@) <==> r.tls)
            &&& r.tls ==> app->Table_0["tls"@] is Table
            &&& r.tls ==> {
                let tls = app->Table_0["tls"@]->Table_0;
                &&& tls["tls_cert_path"@] == TomlDoc::Str(cert_dir + "/"@ + sub + "/fullchain.pem"@)
                &&& tls["tls_cert_key_path"@] == TomlDoc::Str(
                    cert_dir + "/"@ + sub + "/privkey.pem"@,
                )
                &&& tls["https_redirection"@] == TomlDoc::Boolean(true)
                &&& tls["acme"@] == TomlDoc::Boolean(true)
            }
        }),
{
    let routes = state.routes@;
    let r = routes[i];
    let sub = r.subdomain@;
    lemma_apps_lookup(routes, cert_dir, sub);
    assert(routes[i] == r);
    reveal_strlit("apps");
    reveal_strlit("listen_port");
    reveal_strlit("listen_port_tls");
    reveal_strlit("tls");
    reveal_strlit("server_name");
    reveal_strlit("reverse_proxy");
    reveal_strlit("tls_cert_path");
    reveal_strlit("tls_cert_key_path");
    reveal_strlit("https_redirection");
    reveal_strlit("acme");
    assert("apps"@ != "listen_port"@ && "apps"@ != "listen_port_tls"@) by {
        assert("apps"@.len() != "listen_port"@.len());
        assert("apps"@.len() != "listen_port_tls"@.len());
    }
    assert("tls"@ != "server_name"@ && "tls"@ != "reverse_proxy"@) by {
        assert("tls"@.len() != "server_name"@.len());
        assert("tls"@.len() != "reverse_proxy"@.len());
    }
    assert("server_name"@ != "reverse_proxy"@) by {
        assert("server_name"@.len() != "reverse_proxy"@.len());
    }
    assert("tls_cert_path"@ != "tls_cert_key_path"@) by {
        assert("tls_cert_path"@.len() != "tls_cert_key_path"@.len());
    }
    assert("tls_cert_path"@ != "https_redirection"@ && "tls_cert_path"@ != "acme"@) by {
        assert("tls_cert_path"@.len() != "https_redirection"@.len());
        assert("tls_cert_path"@.len() != "acme"@.len());
    }
    assert("tls_cert_key_path"@ != "https_redirection"@ && "tls_cert_key_path"@ != "acme"@) by {
        assert("tls_cert_key_path"@[0] != "https_redirection"@[0]);
        assert("tls_cert_key_path"@.len() != "acme"@.len());
    }
    assert("https_redirection"@ != "acme"@) by {
        assert("https_redirection"@.len() != "acme"@.len());
    }
}

} // verus!
