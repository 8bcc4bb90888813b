use pocketserver::text::{dec_string, join_strings, str_eq};
use pocketserver::ui::android::{
    accent_color, apply_dynamic_colors, bundled_daemon_path, daemon_state_dir,
    dynamic_color_supported, ensure_daemon_running, LogLevel,
};
use pocketserver::ui::dto::{
    Dynv6ConfigDto, Dynv6StatusDto, InterfaceDto, L4RuleDto, MailAccountDto, MailConfigDto,
    RouteDto, RouteTargetDto, SecurityConfigDto,
};
use pocketserver::ui::forms::{
    add_l4_rule, add_mail_account, apply_dynv6_config, apply_interfaces, apply_mail,
    apply_routes, apply_security, delete_l4_rule, delete_mail_account, dynv6_from_form,
    format_dynv6_status, mail_from_form, new_route_request, non_empty, security_from_form,
    split_csv, L4RuleRow, MailAccountRow,
};

fn strings(v: &[&str]) -> Vec<String> {
    v.iter().map(|s| s.to_string()).collect()
}

#[test]
fn split_csv_trims_and_drops_empty() {
    assert_eq!(split_csv(" a, b ,,c "), strings(&["a", "b", "c"]));
    assert_eq!(split_csv(""), Vec::<String>::new());
    assert_eq!(split_csv(" , ,"), Vec::<String>::new());
    assert_eq!(split_csv("one"), strings(&["one"]));
    assert_eq!(split_csv("x\t,\u{3000}y\u{a0}"), strings(&["x", "y"]));
    assert_eq!(split_csv("a b, c"), strings(&["a b", "c"]));
}

#[test]
fn split_csv_entries_are_clean() {
    for text in [" a ,, b,\t c\u{2003},", ",,,", "x,y , z", "\u{a0}q\u{a0}"] {
        for e in split_csv(text) {
            assert!(!e.is_empty());
            assert!(!e.contains(','));
            assert_eq!(e.trim(), e);
        }
    }
}

#[test]
fn split_csv_reads_back_joined_list() {
    let xs = strings(&["zone.dynv6.net", "other.dynv6.net", "x"]);
    assert_eq!(split_csv(&join_strings(&xs, ", ")), xs);
}

#[test]
fn non_empty_values() {
    assert_eq!(non_empty(String::new()), None);
    assert_eq!(non_empty(" ".to_string()), Some(" ".to_string()));
    assert_eq!(non_empty("tok".to_string()), Some("tok".to_string()));
}

#[test]
fn dynv6_form_roundtrip() {
    let cfg = Dynv6ConfigDto {
        enabled: true,
        token: Some("secret".into()),
        interface: None,
        domains: strings(&["a.dynv6.net", "b.dynv6.net"]),
    };
    let form = apply_dynv6_config(&cfg);
    assert!(form.enabled);
    assert_eq!(form.token, "secret");
    assert_eq!(form.interface, "");
    assert_eq!(form.domains_text, "a.dynv6.net, b.dynv6.net");
    let back = dynv6_from_form(&form);
    assert_eq!(back.enabled, cfg.enabled);
    assert_eq!(back.token, cfg.token);
    assert_eq!(back.interface, cfg.interface);
    assert_eq!(back.domains, cfg.domains);
}

fn status(domain: &str, success: Option<&str>, error: Option<&str>) -> Dynv6StatusDto {
    Dynv6StatusDto {
        domain: domain.into(),
        last_attempt: Some("1".into()),
        last_success: success.map(|s| s.to_string()),
        last_error: error.map(|s| s.to_string()),
    }
}

#[test]
fn dynv6_status_text() {
    assert_eq!(format_dynv6_status(&vec![]), "No sync attempts yet.");
    let v = vec![
        status("a.net", Some("1700000000"), None),
        status("b.net", None, Some("401: bad token")),
        status("c.net", None, None),
    ];
    assert_eq!(
        format_dynv6_status(&v),
        "a.net: ok (last success at 1700000000) | b.net: error - 401: bad token | c.net: ok (last success at ?)"
    );
}

#[test]
fn interfaces_table() {
    let list = vec![
        InterfaceDto {
            name: "eth0".into(),
            mac: Some("aa:bb".into()),
            ipv4: strings(&["10.0.0.2", "10.0.0.3"]),
            ipv6: strings(&["fe80::2"]),
        },
        InterfaceDto { name: "lo".into(), mac: None, ipv4: vec![], ipv6: vec![] },
    ];
    let v = apply_interfaces(&list);
    assert_eq!(v.names, strings(&["eth0", "lo"]));
    assert_eq!(v.rows[0].ipv4, "10.0.0.2, 10.0.0.3");
    assert_eq!(v.rows[0].ipv6, "fe80::2");
    assert_eq!(v.rows[0].mac, "aa:bb");
    assert_eq!(v.rows[1].mac, "");
    assert_eq!(v.rows[1].ipv4, "");
}

#[test]
fn routes_table() {
    let list = vec![
        RouteDto {
            id: "id1".into(),
            subdomain: "site".into(),
            target: RouteTargetDto::Static { path: "/srv".into(), hot_reload: true },
            tls: true,
            internal_port: Some(41000),
        },
        RouteDto {
            id: "id2".into(),
            subdomain: "api".into(),
            target: RouteTargetDto::Port { port: 8080 },
            tls: false,
            internal_port: None,
        },
        RouteDto {
            id: "id3".into(),
            subdomain: "new".into(),
            target: RouteTargetDto::Static { path: "/x".into(), hot_reload: false },
            tls: false,
            internal_port: None,
        },
    ];
    let rows = apply_routes(&list);
    assert!(rows[0].is_static);
    assert_eq!(rows[0].path, "/srv");
    assert_eq!(rows[0].port, 0);
    assert_eq!(rows[0].internal_port, 41000);
    assert!(!rows[1].is_static);
    assert_eq!(rows[1].path, "");
    assert_eq!(rows[1].port, 8080);
    assert_eq!(rows[1].internal_port, 0);
    assert_eq!(rows[2].internal_port, 0);
}

#[test]
fn route_request_from_fields() {
    assert_eq!(
        new_route_request(String::new(), false, String::new(), 80, false).unwrap_err(),
        "subdomain is required"
    );
    let r = new_route_request("blog".into(), true, "/srv/blog".into(), 0, true).unwrap();
    match r.target {
        RouteTargetDto::Static { path, hot_reload } => {
            assert_eq!(path, "/srv/blog");
            assert!(hot_reload);
        }
        _ => panic!("expected a static target"),
    }
    let r = new_route_request("api".into(), false, String::new(), 70000, false).unwrap();
    match r.target {
        RouteTargetDto::Port { port } => assert_eq!(port, 70000u32 as u16),
        _ => panic!("expected a port target"),
    }
}

fn rule_row(id: &str, name: &str, udp: bool) -> L4RuleRow {
    L4RuleRow { id: id.into(), name: name.into(), is_udp: udp, listen_port: 25565, upstream_port: 25566 }
}

#[test]
fn l4_rule_rows() {
    let rows = vec![rule_row("a", "mc", false)];
    assert_eq!(add_l4_rule(&rows, String::new(), true, 1, 2).unwrap_err(), "rule name is required");
    let rows2 = add_l4_rule(&rows, "voice".into(), true, 9987, 9988).unwrap();
    assert_eq!(rows2.len(), 2);
    assert_eq!(rows2[0].id, "a");
    assert_eq!(rows2[1].name, "voice");
    assert!(rows2[1].is_udp);
    assert_eq!(rows2[1].id.len(), 36);
    assert_eq!(rows2[1].id.matches('-').count(), 4);
    assert_eq!(&rows2[1].id[14..15], "4");
    assert!(matches!(&rows2[1].id[19..20], "8" | "9" | "a" | "b"));
    assert_eq!(rows2[1].id, rows2[1].id.to_lowercase());
    let rows3 = delete_l4_rule(&rows2, "a");
    assert_eq!(rows3.len(), 1);
    assert_eq!(rows3[0].name, "voice");
    assert_eq!(delete_l4_rule(&rows3, "zzz").len(), 1);
}

#[test]
fn security_roundtrip() {
    let cfg = SecurityConfigDto {
        l4_rules: vec![
            L4RuleDto { id: "1".into(), name: "ssh".into(), protocol: "tcp".into(), listen_port: 2222, upstream_port: 22 },
            L4RuleDto { id: "2".into(), name: "dns".into(), protocol: "udp".into(), listen_port: 53, upstream_port: 5353 },
        ],
        blocked_ips: strings(&["10.0.0.1", "10.0.0.2"]),
    };
    let form = apply_security(&cfg);
    assert!(!form.rules[0].is_udp);
    assert!(form.rules[1].is_udp);
    assert_eq!(form.blocked_ips_text, "10.0.0.1, 10.0.0.2");
    let back = security_from_form(&form.rules, &form.blocked_ips_text);
    assert_eq!(back.l4_rules[0].protocol, "tcp");
    assert_eq!(back.l4_rules[1].protocol, "udp");
    assert_eq!(back.l4_rules[1].upstream_port, 5353);
    assert_eq!(back.blocked_ips, cfg.blocked_ips);
}

#[test]
fn security_form_ports_cut_to_16_bits() {
    let rows = vec![L4RuleRow { id: "x".into(), name: "n".into(), is_udp: false, listen_port: 65536 + 80, upstream_port: -1 }];
    let cfg = security_from_form(&rows, "");
    assert_eq!(cfg.l4_rules[0].listen_port, 80);
    assert_eq!(cfg.l4_rules[0].upstream_port, 65535);
    assert!(cfg.blocked_ips.is_empty());
}

#[test]
fn mail_rows_and_roundtrip() {
    let cfg = MailConfigDto {
        domain: Some("example.org".into()),
        accounts: vec![MailAccountDto { address: "a@example.org".into(), display_name: "A".into() }],
    };
    let form = apply_mail(&cfg);
    assert_eq!(form.domain, "example.org");
    let rows = add_mail_account(&form.accounts, "b@example.org".into(), "B".into()).unwrap();
    assert_eq!(rows.len(), 2);
    assert_eq!(rows[1].address, "b@example.org");
    assert_eq!(
        add_mail_account(&rows, String::new(), "C".into()).unwrap_err(),
        "address is required"
    );
    let rows = delete_mail_account(&rows, "a@example.org");
    assert_eq!(rows.len(), 1);
    let back = mail_from_form(form.domain.clone(), &rows);
    assert_eq!(back.domain.as_deref(), Some("example.org"));
    assert_eq!(back.accounts[0].display_name, "B");
    let none = mail_from_form(String::new(), &Vec::<MailAccountRow>::new());
    assert_eq!(none.domain, None);
    assert!(none.accounts.is_empty());
}

#[test]
fn android_accent_color_channels() {
    assert!(!dynamic_color_supported(30));
    assert!(dynamic_color_supported(31));
    let c = accent_color(0xFF33_6699u32 as i32);
    assert_eq!((c.alpha, c.red, c.green, c.blue), (0xFF, 0x33, 0x66, 0x99));
    let c = accent_color(0x0012_3456);
    assert_eq!((c.alpha, c.red, c.green, c.blue), (0x00, 0x12, 0x34, 0x56));
}

#[test]
fn android_log_lines() {
    let l = apply_dynamic_colors(Ok(true));
    assert_eq!(l.level, LogLevel::Info);
    assert_eq!(l.text, "applied Android dynamic accent color");
    let l = apply_dynamic_colors(Ok(false));
    assert_eq!(l.text, "dynamic color unavailable (pre-Android-12, or no such resource)");
    let l = apply_dynamic_colors(Err("JavaException".into()));
    assert_eq!(l.level, LogLevel::Warn);
    assert_eq!(l.text, "dynamic color bridge failed: JavaException");
}

#[test]
fn android_daemon_status() {
    assert_eq!(ensure_daemon_running(Ok(4242)), "daemon started (pid 4242)");
    assert_eq!(
        ensure_daemon_running(Err("spawning /x: Permission denied (os error 13)".into())),
        "daemon start failed: spawning /x: Permission denied (os error 13)"
    );
    assert_eq!(
        bundled_daemon_path("/data/app/lib/arm64"),
        "/data/app/lib/arm64/libpocketserver_daemon.so"
    );
    assert_eq!(daemon_state_dir("/data/data/com.x/files"), "/data/data/com.x/files/pocketserver-state");
}

#[test]
fn text_helpers() {
    assert_eq!(dec_string(0), "0");
    assert_eq!(dec_string(1234567), "1234567");
    assert_eq!(dec_string(u64::MAX), "18446744073709551615");
    assert_eq!(join_strings(&strings(&["a", "b", "c"]), " | "), "a | b | c");
    assert_eq!(join_strings(&vec![], ", "), "");
    assert!(str_eq("héllo", "héllo"));
    assert!(!str_eq("abc", "abd"));
    assert!(!str_eq("ab", "abc"));
}
