use pocketserver::api::{
    create_route_entry, needs_internal_port, parse_kind, path_for, plan_apply, plan_control,
    remove_route, service_reports, service_restarts, control_steps, AppError, ChildStep, ControlAction, NewRoute,
};
use pocketserver::config_gen::GeneratedPaths;
use pocketserver::dynv6::{
    epoch_text, now_epoch_secs, pass_requests, pass_statuses, requests_after_scan, requests_for,
    sync_job,
    sync_status, update_url, urlencode, SyncJob, SyncOutcome, UpdateRequest,
};
use pocketserver::network::{addrs_from_scan, interfaces_from_listing, first_addrs, interface_info, primary_addrs, IfAddr, InterfaceInfo, RawInterface};
use pocketserver::process::{
    all_kinds, check_can_start, service_status, spawn_failure_message, start_gate, status_listing,
    ChildProbe, ChildTable, ServiceKind,
};
use pocketserver::state::{choose_state_dir, state_file, Dynv6Config, RouteEntry, RouteTarget};
use pocketserver::static_server::{servers_to_stop, ServerTable};

#[test]
fn binary_names() {
    assert_eq!(ServiceKind::Rpxy.binary_name(), "rpxy");
    assert_eq!(ServiceKind::RpxyL4.binary_name(), "rpxy-l4");
    assert_eq!(ServiceKind::Stalwart.binary_name(), "stalwart");
}

#[test]
fn parse_kind_accepts_both_spellings() {
    assert_eq!(parse_kind("rpxy").unwrap(), ServiceKind::Rpxy);
    assert_eq!(parse_kind("rpxy-l4").unwrap(), ServiceKind::RpxyL4);
    assert_eq!(parse_kind("rpxy_l4").unwrap(), ServiceKind::RpxyL4);
    assert_eq!(parse_kind("stalwart").unwrap(), ServiceKind::Stalwart);
    for k in all_kinds() {
        assert_eq!(parse_kind(k.binary_name()).unwrap(), k);
    }
}

#[test]
fn parse_kind_rejects_unknown() {
    match parse_kind("nginx") {
        Err(AppError::BadRequest(msg)) => assert_eq!(msg, "unknown service nginx"),
        other => panic!("unexpected {:?}", other),
    }
    assert!(parse_kind("RPXY").is_err());
    assert!(parse_kind("").is_err());
}

#[test]
fn plan_control_actions() {
    assert_eq!(plan_control("rpxy", "stop").unwrap(), (ServiceKind::Rpxy, ControlAction::Stop));
    assert_eq!(plan_control("rpxy_l4", "start").unwrap(), (ServiceKind::RpxyL4, ControlAction::Start));
    assert_eq!(
        plan_control("stalwart", "restart").unwrap(),
        (ServiceKind::Stalwart, ControlAction::Restart)
    );
    match plan_control("stalwart", "pause") {
        Err(AppError::BadRequest(msg)) => assert_eq!(msg, "unknown action pause"),
        other => panic!("unexpected {:?}", other),
    }
    match plan_control("bogus", "pause") {
        Err(AppError::BadRequest(msg)) => assert_eq!(msg, "unknown service bogus"),
        other => panic!("unexpected {:?}", other),
    }
}

fn paths() -> GeneratedPaths {
    GeneratedPaths { rpxy: "/g/rpxy.toml".into(), rpxy_l4: "/g/rpxy-l4.toml".into(), stalwart: "/g/stalwart.toml".into() }
}

#[test]
fn path_for_each_service() {
    let p = paths();
    assert_eq!(path_for(&p, ServiceKind::Rpxy), "/g/rpxy.toml");
    assert_eq!(path_for(&p, ServiceKind::RpxyL4), "/g/rpxy-l4.toml");
    assert_eq!(path_for(&p, ServiceKind::Stalwart), "/g/stalwart.toml");
}

#[test]
fn service_restarts_in_order() {
    let v = service_restarts(&paths());
    let names: Vec<&str> = v.iter().map(|(n, _, _)| n.as_str()).collect();
    assert_eq!(names, vec!["rpxy", "rpxy_l4", "stalwart"]);
    assert_eq!(v[1].1, ServiceKind::RpxyL4);
    assert_eq!(v[2].2, "/g/stalwart.toml");
}

fn route(id: u128, target: RouteTarget, port: Option<u16>) -> RouteEntry {
    RouteEntry { id, subdomain: format!("r{id}"), target, tls: false, internal_port: port }
}

#[test]
fn plan_apply_serves_static_routes_with_ports() {
    let routes = vec![
        route(1, RouteTarget::Port { port: 80 }, None),
        route(2, RouteTarget::Static { path: "/srv/a".into(), hot_reload: true }, Some(5000)),
        route(3, RouteTarget::Static { path: "/srv/b".into(), hot_reload: true }, None),
    ];
    let plan = plan_apply(&routes);
    assert_eq!(plan.live_ids, vec![1, 2, 3]);
    assert_eq!(plan.serve.len(), 1);
    assert_eq!(plan.serve[0].id, 2);
    assert_eq!(plan.serve[0].port, 5000);
    assert_eq!(plan.serve[0].path, "/srv/a");
}

#[test]
fn new_route_entry_keeps_request() {
    let t = RouteTarget::Static { path: "/srv".into(), hot_reload: true };
    assert!(needs_internal_port(&t));
    assert!(!needs_internal_port(&RouteTarget::Port { port: 1 }));
    let e = create_route_entry(NewRoute { subdomain: "blog".into(), target: t, tls: true }, Some(40000));
    assert_eq!(e.subdomain, "blog");
    assert!(e.tls);
    assert_eq!(e.internal_port, Some(40000));
    let e2 = create_route_entry(
        NewRoute { subdomain: "x".into(), target: RouteTarget::Port { port: 9 }, tls: false },
        None,
    );
    assert_ne!(e.id, e2.id);
}

#[test]
fn remove_route_found_and_missing() {
    let mut routes = vec![
        route(7, RouteTarget::Port { port: 1 }, None),
        route(42, RouteTarget::Port { port: 2 }, None),
        route(9, RouteTarget::Port { port: 3 }, None),
    ];
    assert!(remove_route(&mut routes, 42).is_ok());
    let ids: Vec<u128> = routes.iter().map(|r| r.id).collect();
    assert_eq!(ids, vec![7, 9]);
    match remove_route(&mut routes, 42) {
        Err(AppError::NotFound(msg)) => {
            assert_eq!(msg, "route 00000000-0000-0000-0000-00000000002a")
        }
        other => panic!("unexpected {:?}", other),
    }
    assert_eq!(routes.len(), 2);
}

#[test]
fn delete_of_new_route_restores_list() {
    let mut routes = vec![
        route(7, RouteTarget::Port { port: 1 }, None),
        route(9, RouteTarget::Port { port: 3 }, None),
    ];
    let e = create_route_entry(
        NewRoute { subdomain: "new".into(), target: RouteTarget::Port { port: 5 }, tls: false },
        None,
    );
    let id = e.id;
    assert!(id != 7 && id != 9);
    routes.push(e);
    assert_eq!(routes.len(), 3);
    assert!(remove_route(&mut routes, id).is_ok());
    let ids: Vec<u128> = routes.iter().map(|r| r.id).collect();
    assert_eq!(ids, vec![7, 9]);
    assert!(matches!(remove_route(&mut routes, id), Err(AppError::NotFound(_))));
}

#[test]
fn status_from_probes() {
    let s = service_status(ServiceKind::Rpxy, ChildProbe::Running(Some(77)));
    assert!(s.running);
    assert_eq!(s.pid, Some(77));
    let s = service_status(ServiceKind::Rpxy, ChildProbe::Exited);
    assert!(!s.running);
    assert_eq!(s.pid, None);
    let list = status_listing(&vec![ChildProbe::Absent, ChildProbe::Running(None), ChildProbe::Exited]);
    let kinds: Vec<ServiceKind> = list.iter().map(|s| s.kind).collect();
    assert_eq!(kinds, vec![ServiceKind::Rpxy, ServiceKind::RpxyL4, ServiceKind::Stalwart]);
    let running: Vec<bool> = list.iter().map(|s| s.running).collect();
    assert_eq!(running, vec![false, true, false]);
}

#[test]
fn start_refused_while_running() {
    assert_eq!(
        check_can_start(ServiceKind::RpxyL4, ChildProbe::Running(Some(1))),
        Err("RpxyL4 is already running".to_string())
    );
    assert_eq!(check_can_start(ServiceKind::RpxyL4, ChildProbe::Exited), Ok(()));
    assert_eq!(check_can_start(ServiceKind::Rpxy, ChildProbe::Absent), Ok(()));
    assert_eq!(
        spawn_failure_message(ServiceKind::Stalwart, "No such file or directory (os error 2)"),
        "failed to spawn stalwart: No such file or directory (os error 2) (is it installed and on PATH?)"
    );
}

#[test]
fn urlencode_escapes_reserved_bytes() {
    assert_eq!(urlencode("a b&c=d"), "a%20b%26c%3Dd");
    assert_eq!(urlencode("zone.dynv6.net"), "zone.dynv6.net");
    assert_eq!(urlencode("fe80::1"), "fe80::1");
    assert_eq!(urlencode("é/?"), "%C3%A9%2F%3F");
    assert_eq!(urlencode("A-Z_a~z.0"), "A-Z_a~z.0");
    assert_eq!(urlencode(""), "");
}

#[test]
fn update_url_with_and_without_addresses() {
    assert_eq!(
        update_url("my.dynv6.net", "t0k+en", Some("203.0.113.5"), Some("2001:db8::1")),
        "https://dynv6.com/api/update?hostname=my.dynv6.net&token=t0k%2Ben&ipv4=203.0.113.5&ipv6=2001:db8::1"
    );
    assert_eq!(
        update_url("h", "t", None, None),
        "https://dynv6.com/api/update?hostname=h&token=t"
    );
    assert_eq!(
        update_url("h", "t", None, Some("::1")),
        "https://dynv6.com/api/update?hostname=h&token=t&ipv6=::1"
    );
}

fn cfg(enabled: bool, token: Option<&str>, iface: Option<&str>, domains: &[&str]) -> Dynv6Config {
    Dynv6Config {
        enabled,
        token: token.map(|s| s.to_string()),
        interface: iface.map(|s| s.to_string()),
        domains: domains.iter().map(|s| s.to_string()).collect(),
    }
}

#[test]
fn sync_job_needs_everything() {
    assert!(sync_job(&cfg(false, Some("t"), Some("eth0"), &["a"])).is_none());
    assert!(sync_job(&cfg(true, Some("t"), Some("eth0"), &[])).is_none());
    assert!(sync_job(&cfg(true, None, Some("eth0"), &["a"])).is_none());
    assert!(sync_job(&cfg(true, Some("t"), None, &["a"])).is_none());
    let job = sync_job(&cfg(true, Some("t"), Some("eth0"), &["a", "b"])).unwrap();
    assert_eq!(job.token, "t");
    assert_eq!(job.interface, "eth0");
    assert_eq!(job.domains, vec!["a".to_string(), "b".to_string()]);
}

#[test]
fn sync_status_per_outcome() {
    let s = sync_status("a.dynv6.net", "1700000000".into(), SyncOutcome::Accepted);
    assert_eq!(s.domain, "a.dynv6.net");
    assert_eq!(s.last_attempt.as_deref(), Some("1700000000"));
    assert_eq!(s.last_success.as_deref(), Some("1700000000"));
    assert_eq!(s.last_error, None);
    let s = sync_status(
        "a",
        "5".into(),
        SyncOutcome::Rejected { status: "401 Unauthorized".into(), body: "invalid token".into() },
    );
    assert_eq!(s.last_success, None);
    assert_eq!(s.last_error.as_deref(), Some("401 Unauthorized: invalid token"));
    let s = sync_status("a", "5".into(), SyncOutcome::Failed { error: "timed out".into() });
    assert_eq!(s.last_attempt.as_deref(), Some("5"));
    assert_eq!(s.last_error.as_deref(), Some("timed out"));
}

#[test]
fn now_epoch_secs_is_decimal() {
    let s = now_epoch_secs();
    let n: u64 = s.parse().expect("decimal seconds");
    assert!(n > 1_600_000_000);
    assert_eq!(n.to_string(), s);
}

#[test]
fn interface_info_splits_families() {
    let raw = RawInterface {
        name: "eth0".into(),
        mac: Some("aa:bb:cc:dd:ee:ff".into()),
        addrs: vec![
            IfAddr::V6("fe80::1".into()),
            IfAddr::V4("192.168.1.10".into()),
            IfAddr::V4("10.0.0.2".into()),
        ],
    };
    let info = interface_info(&raw);
    assert_eq!(info.name, "eth0");
    assert_eq!(info.mac.as_deref(), Some("aa:bb:cc:dd:ee:ff"));
    assert_eq!(info.ipv4, vec!["192.168.1.10".to_string(), "10.0.0.2".to_string()]);
    assert_eq!(info.ipv6, vec!["fe80::1".to_string()]);
}

fn info(name: &str, v4: &[&str], v6: &[&str]) -> InterfaceInfo {
    InterfaceInfo {
        name: name.into(),
        mac: None,
        ipv4: v4.iter().map(|s| s.to_string()).collect(),
        ipv6: v6.iter().map(|s| s.to_string()).collect(),
    }
}

#[test]
fn first_addrs_of_named_interface() {
    let list = vec![
        info("lo", &["127.0.0.1"], &["::1"]),
        info("wlan0", &["192.168.0.5", "192.168.0.6"], &[]),
        info("wlan0", &["10.9.9.9"], &["fe80::9"]),
    ];
    assert_eq!(first_addrs(&list, "wlan0"), (Some("192.168.0.5".to_string()), None));
    assert_eq!(first_addrs(&list, "lo"), (Some("127.0.0.1".to_string()), Some("::1".to_string())));
    assert_eq!(first_addrs(&list, "eth9"), (None, None));
}

#[test]
fn primary_addrs_unknown_interface() {
    match primary_addrs("no-such-interface-xyz") {
        Ok(p) => assert_eq!(p, (None, None)),
        Err(e) => assert!(e.starts_with("enumerating interfaces: ")),
    }
}

#[test]
fn state_dir_choice() {
    assert_eq!(choose_state_dir(Some("/data/x".into()), Some("/home/y".into())), "/data/x");
    assert_eq!(choose_state_dir(None, Some("/home/y".into())), "/home/y");
    assert_eq!(choose_state_dir(None, None), ".pocketserver");
    assert_eq!(state_file("/home/y"), "/home/y/state.json");
}

#[test]
fn stale_servers_stopped() {
    assert_eq!(servers_to_stop(&vec![1, 2, 3, 4], &[2, 4, 9]), vec![1, 3]);
    assert_eq!(servers_to_stop(&vec![], &[1]), Vec::<u128>::new());
    assert_eq!(servers_to_stop(&vec![5], &[]), vec![5]);
}

fn percent_decode(s: &str) -> Vec<u8> {
    let b = s.as_bytes();
    let mut out = Vec::new();
    let mut i = 0;
    while i < b.len() {
        if b[i] == b'%' {
            out.push(u8::from_str_radix(std::str::from_utf8(&b[i + 1..i + 3]).unwrap(), 16).unwrap());
            i += 3;
        } else {
            out.push(b[i]);
            i += 1;
        }
    }
    out
}

#[test]
fn urlencode_output_is_query_safe_and_reversible() {
    for input in ["a b&c=d#e?f+g", "tök€n/\\\"'", "plain-host.example:8080", "%%%", ""] {
        let enc = urlencode(input);
        assert!(enc
            .chars()
            .all(|c| c.is_ascii_alphanumeric() || "-_.~:%".contains(c)));
        assert_eq!(percent_decode(&enc), input.as_bytes());
    }
}

#[test]
fn epoch_text_before_and_after_epoch() {
    assert_eq!(epoch_text(None), "0");
    assert_eq!(epoch_text(Some(0)), "0");
    assert_eq!(epoch_text(Some(1700000000)), "1700000000");
}

#[test]
fn pass_requests_only_for_complete_config() {
    let p = pass_requests(&cfg(false, Some("t"), Some("eth0"), &["a"]));
    assert!(p.scan.is_none() && p.requests.is_empty());
    let p = pass_requests(&cfg(true, None, Some("eth0"), &["a"]));
    assert!(p.scan.is_none() && p.requests.is_empty());
    let p = pass_requests(&cfg(true, Some("t"), Some("no-such-interface-0"), &["a"]));
    match p.scan {
        Some(Ok(_)) => {
            assert_eq!(p.requests.len(), 1);
            assert_eq!(p.requests[0].url, "https://dynv6.com/api/update?hostname=a&token=t");
        }
        Some(Err(_)) => assert!(p.requests.is_empty()),
        None => panic!("a complete config scans"),
    }
    assert!(pass_statuses(&Vec::new(), &Vec::new()).is_empty());
}

#[test]
fn requests_for_each_hostname() {
    let job = SyncJob {
        token: "t".into(),
        interface: "eth0".into(),
        domains: vec!["a.net".into(), "b.net".into()],
    };
    let reqs = requests_for(&job, &(Some("1.2.3.4".into()), None));
    assert_eq!(reqs.len(), 2);
    assert_eq!(reqs[0].hostname, "a.net");
    assert_eq!(reqs[0].url, "https://dynv6.com/api/update?hostname=a.net&token=t&ipv4=1.2.3.4");
    assert_eq!(reqs[1].url, "https://dynv6.com/api/update?hostname=b.net&token=t&ipv4=1.2.3.4");
}

#[test]
fn pass_statuses_follow_outcomes() {
    let reqs = vec![
        UpdateRequest { hostname: "a".into(), url: "u".into() },
        UpdateRequest { hostname: "b".into(), url: "v".into() },
    ];
    let results = vec![
        ("10".to_string(), SyncOutcome::Accepted),
        ("11".to_string(), SyncOutcome::Failed { error: "down".into() }),
    ];
    let st = pass_statuses(&reqs, &results);
    assert_eq!(st.len(), 2);
    assert_eq!(st[0].domain, "a");
    assert_eq!(st[0].last_success.as_deref(), Some("10"));
    assert_eq!(st[1].domain, "b");
    assert_eq!(st[1].last_attempt.as_deref(), Some("11"));
    assert_eq!(st[1].last_error.as_deref(), Some("down"));
}

#[test]
fn new_route_id_is_uuid_v4() {
    for _ in 0..8 {
        let e = create_route_entry(
            NewRoute { subdomain: "x".into(), target: RouteTarget::Port { port: 9 }, tls: false },
            None,
        );
        assert_eq!((e.id >> 76) & 0xf, 4);
        assert_eq!((e.id >> 62) & 0x3, 2);
    }
}

#[test]
fn requests_after_scan_uses_the_job_interface() {
    let job = SyncJob { token: "t".into(), interface: "wlan0".into(), domains: vec!["h".into()] };
    let list = vec![
        InterfaceInfo { name: "eth0".into(), mac: None, ipv4: vec!["10.0.0.1".into()], ipv6: vec![] },
        InterfaceInfo { name: "wlan0".into(), mac: None, ipv4: vec!["192.0.2.7".into()], ipv6: vec![] },
    ];
    let reqs = requests_after_scan(&job, &Ok(list));
    assert_eq!(reqs.len(), 1);
    assert_eq!(reqs[0].url, "https://dynv6.com/api/update?hostname=h&token=t&ipv4=192.0.2.7");
    assert!(requests_after_scan(&job, &Err("boom".into())).is_empty());
}

#[test]
fn listing_error_text_and_scan_error_handed_on() {
    match interfaces_from_listing(Err("permission denied".into())) {
        Err(msg) => assert_eq!(msg, "enumerating interfaces: permission denied"),
        Ok(_) => panic!("expected an error"),
    }
    let raws = vec![RawInterface {
        name: "eth0".into(),
        mac: None,
        addrs: vec![IfAddr::V6("::1".into()), IfAddr::V4("10.0.0.2".into())],
    }];
    let list = interfaces_from_listing(Ok(raws)).unwrap();
    assert_eq!(list[0].ipv4, vec!["10.0.0.2".to_string()]);
    assert_eq!(addrs_from_scan(Err("x: y".into()), "eth0"), Err("x: y".to_string()));
    assert_eq!(
        addrs_from_scan(Ok(list), "eth0"),
        Ok((Some("10.0.0.2".to_string()), Some("::1".to_string())))
    );
}

#[test]
fn server_table_second_start_is_noop() {
    let mut t: ServerTable<&str> = ServerTable::new();
    assert!(t.ensure(5, || "first"));
    assert!(!t.ensure(5, || "second"));
    assert!(t.is_running(5));
    assert_eq!(t.running_ids(), vec![5]);
    assert!(t.ensure(6, || "other"));
    assert!(t.ensure(8, || "eight"));
    let mut stopped = t.retain_only(&[5, 42]);
    stopped.sort();
    assert_eq!(stopped, vec!["eight", "other"]);
    assert_eq!(t.running_ids(), vec![5]);
    assert!(t.ensure(6, || "other"));
    assert_eq!(t.remove(5), Some("first"));
    assert_eq!(t.remove(5), None);
    assert_eq!(t.running_ids(), vec![6]);
}

#[test]
fn child_table_restart_is_admitted() {
    assert_eq!(
        control_steps(ControlAction::Restart),
        vec![ChildStep::StopChild, ChildStep::StartChild]
    );
    assert_eq!(control_steps(ControlAction::Stop), vec![ChildStep::StopChild]);
    let mut t: ChildTable<u32> = ChildTable::new();
    t.put(ServiceKind::Rpxy, 7);
    t.put(ServiceKind::Stalwart, 9);
    let running = |c: u32| (c, ChildProbe::Running(Some(c)));
    assert_eq!(start_gate(&mut t, ServiceKind::Rpxy, running), Err("Rpxy is already running".to_string()));
    assert_eq!(t.take(ServiceKind::Rpxy), Some(7));
    assert_eq!(start_gate(&mut t, ServiceKind::Rpxy, running), Ok(()));
    let exited = |c: u32| (c, ChildProbe::Exited);
    assert_eq!(start_gate(&mut t, ServiceKind::Stalwart, exited), Ok(()));
    assert_eq!(t.take(ServiceKind::Stalwart), Some(9));
}

#[test]
fn apply_reports_each_service() {
    let results = vec![
        ("rpxy".to_string(), Ok(())),
        ("rpxy_l4".to_string(), Err("failed to spawn rpxy-l4".to_string())),
    ];
    let r = service_reports(&results);
    assert_eq!(r.len(), 2);
    assert_eq!(r[0].name, "rpxy");
    assert!(r[0].ok && r[0].error.is_none());
    assert_eq!(r[1].name, "rpxy_l4");
    assert!(!r[1].ok);
    assert_eq!(r[1].error.as_deref(), Some("failed to spawn rpxy-l4"));
}
