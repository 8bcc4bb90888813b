use pocketserver::config_gen::{path_join, render_all, rpxy, rpxy_l4, stalwart};
use pocketserver::state::{
    Dynv6Config, L4Protocol, L4Rule, MailAccount, MailConfig, PersistedState, RouteEntry,
    RouteTarget, SecurityConfig,
};

fn empty_state() -> PersistedState {
    PersistedState {
        dynv6: Dynv6Config { enabled: false, token: None, interface: None, domains: vec![] },
        routes: vec![],
        security: SecurityConfig { l4_rules: vec![], blocked_ips: vec![] },
        mail: MailConfig { domain: None, accounts: vec![] },
    }
}

fn route(id: u128, sub: &str, target: RouteTarget, tls: bool, port: Option<u16>) -> RouteEntry {
    RouteEntry { id, subdomain: sub.to_string(), target, tls, internal_port: port }
}

fn parse(text: &str) -> toml::Value {
    toml::from_str::<toml::Value>(text).expect("generated config parses as TOML")
}

#[test]
fn rpxy_empty_state_has_ports_and_no_apps() {
    let v = parse(&rpxy::generate(&empty_state(), "/cfg/certs"));
    assert_eq!(v["listen_port"].as_integer(), Some(80));
    assert_eq!(v["listen_port_tls"].as_integer(), Some(443));
    assert_eq!(v["apps"].as_table().map(|t| t.len()), Some(0));
}

#[test]
fn rpxy_routes_to_ports_and_static_servers() {
    let mut st = empty_state();
    st.routes = vec![
        route(1, "app", RouteTarget::Port { port: 3000 }, false, None),
        route(
            2,
            "site",
            RouteTarget::Static { path: "/srv/site".into(), hot_reload: true },
            true,
            Some(4000),
        ),
        route(
            3,
            "draft",
            RouteTarget::Static { path: "/srv/draft".into(), hot_reload: false },
            false,
            None,
        ),
    ];
    let v = parse(&rpxy::generate(&st, "/cfg/certs"));
    let apps = v["apps"].as_table().unwrap();
    assert_eq!(apps.len(), 2);
    assert!(apps.get("draft").is_none());
    let app = &apps["app"];
    assert_eq!(app["server_name"].as_str(), Some("app"));
    assert_eq!(
        app["reverse_proxy"][0]["upstream"][0]["location"].as_str(),
        Some("127.0.0.1:3000")
    );
    assert!(app.get("tls").is_none());
    let site = &apps["site"];
    assert_eq!(
        site["reverse_proxy"][0]["upstream"][0]["location"].as_str(),
        Some("127.0.0.1:4000")
    );
    assert_eq!(site["tls"]["tls_cert_path"].as_str(), Some("/cfg/certs/site/fullchain.pem"));
    assert_eq!(site["tls"]["tls_cert_key_path"].as_str(), Some("/cfg/certs/site/privkey.pem"));
    assert_eq!(site["tls"]["https_redirection"].as_bool(), Some(true));
    assert_eq!(site["tls"]["acme"].as_bool(), Some(true));
}

#[test]
fn rpxy_later_route_replaces_same_subdomain() {
    let mut st = empty_state();
    st.routes = vec![
        route(1, "dup", RouteTarget::Port { port: 1111 }, false, None),
        route(2, "dup", RouteTarget::Port { port: 2222 }, false, None),
    ];
    let v = parse(&rpxy::generate(&st, "/c"));
    let apps = v["apps"].as_table().unwrap();
    assert_eq!(apps.len(), 1);
    assert_eq!(
        apps["dup"]["reverse_proxy"][0]["upstream"][0]["location"].as_str(),
        Some("127.0.0.1:2222")
    );
}

#[test]
fn rpxy_document_shape() {
    let mut st = empty_state();
    st.routes = vec![route(1, "a", RouteTarget::Port { port: 8080 }, false, None)];
    let doc = rpxy::document(&st, "/c");
    let table = doc.as_table().expect("a table");
    let keys: Vec<&str> = table.keys().map(|k| k.as_str()).collect();
    assert_eq!(keys, vec!["apps", "listen_port", "listen_port_tls"]);
    assert_eq!(doc["apps"]["a"]["server_name"].as_str(), Some("a"));
    assert_eq!(parse(&rpxy::generate(&st, "/c")), doc);
}

fn rule(id: u128, name: &str, listen: u16, protocol: L4Protocol, upstream: u16) -> L4Rule {
    L4Rule { id, name: name.to_string(), listen_port: listen, protocol, upstream_port: upstream }
}

#[test]
fn rpxy_l4_splits_rules_by_protocol() {
    let mut st = empty_state();
    st.security.l4_rules = vec![
        rule(1, "minecraft", 25565, L4Protocol::Tcp, 25566),
        rule(2, "voice", 9987, L4Protocol::Udp, 9988),
        rule(3, "ssh", 2222, L4Protocol::Tcp, 22),
    ];
    st.security.blocked_ips = vec!["10.0.0.9".into(), "192.168.1.7".into()];
    let v = parse(&rpxy_l4::generate(&st));
    let tcp = v["tcp"].as_array().unwrap();
    assert_eq!(tcp.len(), 2);
    assert_eq!(tcp[0]["name"].as_str(), Some("minecraft"));
    assert_eq!(tcp[0]["listen_port"].as_integer(), Some(25565));
    assert_eq!(tcp[0]["upstream"].as_str(), Some("127.0.0.1:25566"));
    assert_eq!(tcp[1]["name"].as_str(), Some("ssh"));
    assert_eq!(tcp[1]["upstream"].as_str(), Some("127.0.0.1:22"));
    let udp = v["udp"].as_array().unwrap();
    assert_eq!(udp.len(), 1);
    assert_eq!(udp[0]["name"].as_str(), Some("voice"));
    let ips: Vec<&str> = v["blocked_ips"].as_array().unwrap().iter().map(|x| x.as_str().unwrap()).collect();
    assert_eq!(ips, vec!["10.0.0.9", "192.168.1.7"]);
}

#[test]
fn rpxy_l4_leaves_out_empty_sections() {
    let v = parse(&rpxy_l4::generate(&empty_state()));
    assert_eq!(v.as_table().unwrap().len(), 0);
    let mut st = empty_state();
    st.security.l4_rules = vec![rule(1, "dns", 53, L4Protocol::Udp, 5353)];
    let v = parse(&rpxy_l4::generate(&st));
    assert!(v.get("tcp").is_none());
    assert!(v.get("blocked_ips").is_none());
    assert_eq!(v["udp"].as_array().unwrap().len(), 1);
}

#[test]
fn stalwart_domain_and_accounts() {
    let mut st = empty_state();
    st.mail = MailConfig {
        domain: Some("example.org".into()),
        accounts: vec![
            MailAccount { address: "alice@example.org".into(), display_name: "Alice".into() },
            MailAccount { address: "bob@example.org".into(), display_name: "Bob B".into() },
        ],
    };
    let v = parse(&stalwart::generate(&st));
    assert_eq!(v["server"]["hostname"].as_str(), Some("example.org"));
    let internal = &v["directory"]["internal"];
    assert_eq!(internal["type"].as_str(), Some("internal"));
    let p = internal["principals"].as_array().unwrap();
    assert_eq!(p.len(), 2);
    assert_eq!(p[0]["type"].as_str(), Some("individual"));
    assert_eq!(p[0]["name"].as_str(), Some("alice@example.org"));
    assert_eq!(p[1]["description"].as_str(), Some("Bob B"));
}

#[test]
fn stalwart_without_domain_or_accounts() {
    let v = parse(&stalwart::generate(&empty_state()));
    assert!(v.get("server").is_none());
    let internal = &v["directory"]["internal"];
    assert_eq!(internal["type"].as_str(), Some("internal"));
    assert!(internal.get("principals").is_none());
}

#[test]
fn render_all_paths_under_generated() {
    let r = render_all(&empty_state(), "/home/u/.config/pocketserver");
    assert_eq!(r.out_dir, "/home/u/.config/pocketserver/generated");
    assert_eq!(r.cert_dir, "/home/u/.config/pocketserver/certs");
    assert_eq!(r.paths.rpxy, "/home/u/.config/pocketserver/generated/rpxy.toml");
    assert_eq!(r.paths.rpxy_l4, "/home/u/.config/pocketserver/generated/rpxy-l4.toml");
    assert_eq!(r.paths.stalwart, "/home/u/.config/pocketserver/generated/stalwart.toml");
    assert_eq!(r.rpxy, rpxy::generate(&empty_state(), "/home/u/.config/pocketserver/certs"));
    assert!(r.rpxy.contains("listen_port = 80"));
}

#[test]
fn path_join_separators() {
    assert_eq!(path_join("/a/b", "c"), "/a/b/c");
    assert_eq!(path_join("/a/b/", "c"), "/a/b/c");
    assert_eq!(path_join("", "c"), "c");
    assert_eq!(path_join(".pocketserver", "state.json"), ".pocketserver/state.json");
}
