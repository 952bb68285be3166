use ddns_update::config::{Config, Param, RawConfig};
use ddns_update::run::{step, Action, Event, Failure, State};
use ddns_update::transcript::{build_commands, build_transcript, render_command, Command, PublicIps, RecordType};

fn scenario_config() -> Config {
    Config {
        nsupdate: "nsupdate".to_string(),
        server: "ns1.example.com".to_string(),
        zone: "example.com".to_string(),
        domains: vec!["a.example.com".to_string(), "b.example.com".to_string()],
        ttl: 120,
        tsig_hmac: "hmac-sha256".to_string(),
        tsig_key: "key1".to_string(),
        tsig_secret: "secret==".to_string(),
    }
}

fn ips(v6: Option<&str>) -> PublicIps {
    PublicIps { v4: "203.0.113.5".to_string(), v6: v6.map(|a| a.to_string()) }
}

fn lines(text: &str) -> Vec<String> {
    assert!(text.ends_with('\n'));
    text.lines().map(|l| l.to_string()).collect()
}

fn raw(zone: Option<&str>) -> RawConfig {
    RawConfig {
        nsupdate: None,
        server: Some("ns1.example.com".to_string()),
        zone: zone.map(|z| z.to_string()),
        domains: Some("a.example.com,b.example.com".to_string()),
        ttl: Some("120".to_string()),
        tsig_hmac: Some("hmac-sha256".to_string()),
        tsig_key: Some("key1".to_string()),
        tsig_secret: Some("secret==".to_string()),
    }
}

#[test]
fn transcript_without_ipv6() {
    let l = lines(&build_transcript(&scenario_config(), &ips(None)));
    assert_eq!(
        l,
        vec![
            "key hmac-sha256:key1 secret==",
            "server ns1.example.com",
            "zone example.com.",
            "update delete a.example.com. in A",
            "update add a.example.com. 120 in A 203.0.113.5",
            "update delete b.example.com. in A",
            "update add b.example.com. 120 in A 203.0.113.5",
            "update delete a.example.com. in AAAA",
            "update delete b.example.com. in AAAA",
            "send",
            "quit",
        ]
    );
    let adds_a = l.iter().filter(|x| x.starts_with("update add") && x.ends_with("120 in A 203.0.113.5")).count();
    let deletes_aaaa = l.iter().filter(|x| x.starts_with("update delete") && x.ends_with("in AAAA")).count();
    let adds_aaaa = l.iter().filter(|x| x.starts_with("update add") && x.contains(" in AAAA ")).count();
    assert_eq!((adds_a, deletes_aaaa, adds_aaaa), (2, 2, 0));
    assert_eq!(l.len() - 2, 9);
}

#[test]
fn transcript_with_ipv6() {
    let l = lines(&build_transcript(&scenario_config(), &ips(Some("2001:db8::1"))));
    assert_eq!(
        &l[7..],
        &[
            "update delete a.example.com. in AAAA",
            "update add a.example.com. 120 in AAAA 2001:db8::1",
            "update delete b.example.com. in AAAA",
            "update add b.example.com. 120 in AAAA 2001:db8::1",
            "send",
            "quit",
        ]
    );
    let adds_aaaa = l
        .iter()
        .filter(|x| x.starts_with("update add") && x.ends_with("120 in AAAA 2001:db8::1"))
        .count();
    assert_eq!(adds_aaaa, 2);
    assert_eq!(l.len(), 13);
}

#[test]
fn transcript_header_comes_first() {
    let mut c = scenario_config();
    c.domains = vec!["x.example.com".to_string()];
    let l = lines(&build_transcript(&c, &ips(Some("2001:db8::2"))));
    assert!(l[0].starts_with("key "));
    assert!(l[1].starts_with("server "));
    assert!(l[2].starts_with("zone "));
    assert!(l[3..].iter().all(|x| x.starts_with("update ") || x == "send" || x == "quit"));
}

#[test]
fn transcript_always_ends_with_send_quit() {
    for v6 in [None, Some("::1")] {
        for n in [1usize, 3] {
            let mut c = scenario_config();
            c.domains = (0..n).map(|i| format!("h{}.example.com", i)).collect();
            let l = lines(&build_transcript(&c, &ips(v6)));
            assert_eq!(&l[l.len() - 2..], &["send", "quit"]);
            assert!(!l[..l.len() - 2].iter().any(|x| x == "send" || x == "quit"));
            let per_domain = if v6.is_some() { 4 } else { 3 };
            assert_eq!(l.len(), 3 + per_domain * n + 2);
        }
    }
}

#[test]
fn transcript_pairs_follow_domain_order_with_duplicates() {
    let mut c = scenario_config();
    c.domains = vec!["z.example.com".to_string(), "a.example.com".to_string(), "z.example.com".to_string()];
    let l = lines(&build_transcript(&c, &ips(None)));
    for (i, d) in ["z.example.com", "a.example.com", "z.example.com"].iter().enumerate() {
        assert_eq!(l[3 + 2 * i], format!("update delete {}. in A", d));
        assert_eq!(l[4 + 2 * i], format!("update add {}. 120 in A 203.0.113.5", d));
        assert_eq!(l[9 + i], format!("update delete {}. in AAAA", d));
    }
}

#[test]
fn commands_without_ipv6_have_no_aaaa_add() {
    let cmds = build_commands(&scenario_config(), &ips(None));
    assert_eq!(cmds.len(), 11);
    assert!(!cmds.iter().any(|c| matches!(c, Command::Add { rtype: RecordType::Aaaa, .. })));
    let deletes = cmds.iter().filter(|c| matches!(c, Command::Delete { rtype: RecordType::Aaaa, .. })).count();
    assert_eq!(deletes, 2);
    assert!(matches!(cmds[0], Command::Key { .. }));
    assert!(matches!(cmds[9], Command::Send));
    assert!(matches!(cmds[10], Command::Quit));
}

#[test]
fn render_each_command_kind() {
    let key = Command::Key { algorithm: "hmac-sha512".to_string(), name: "k".to_string(), secret: "c2VjcmV0".to_string() };
    assert_eq!(render_command(&key), "key hmac-sha512:k c2VjcmV0");
    assert_eq!(render_command(&Command::Server { host: "10.0.0.1".to_string() }), "server 10.0.0.1");
    assert_eq!(render_command(&Command::Zone { name: "example.org".to_string() }), "zone example.org.");
    let del = Command::Delete { domain: "w.example.org".to_string(), rtype: RecordType::Aaaa };
    assert_eq!(render_command(&del), "update delete w.example.org. in AAAA");
    let add = Command::Add {
        domain: "w.example.org".to_string(),
        ttl: 3600,
        rtype: RecordType::A,
        address: "198.51.100.7".to_string(),
    };
    assert_eq!(render_command(&add), "update add w.example.org. 3600 in A 198.51.100.7");
    assert_eq!(render_command(&Command::Send), "send");
    assert_eq!(render_command(&Command::Quit), "quit");
}

#[test]
fn missing_zone_stops_before_any_lookup() {
    let mut lookups = 0;
    let (state, action) = step(State::Start, Event::Configured(raw(None)));
    if matches!(action, Action::FetchIpv4 | Action::FetchIpv6) {
        lookups += 1;
    }
    assert_eq!(lookups, 0);
    assert!(matches!(state, State::Done));
    match action {
        Action::Exit { code, failure } => {
            assert_ne!(code, 0);
            assert_eq!(failure, Some(Failure::MissingParam(Param::Zone)));
        }
        _ => panic!("expected exit"),
    }
}

fn run_to_tool(v6: Option<&str>) -> (State, String, String) {
    let (s, a) = step(State::Start, Event::Configured(raw(Some("example.com"))));
    assert!(matches!(a, Action::FetchIpv4));
    let (s, a) = step(s, Event::Ipv4Fetched(Some("203.0.113.5".to_string())));
    assert!(matches!(a, Action::FetchIpv6));
    let (s, a) = step(s, Event::Ipv6Fetched(v6.map(|x| x.to_string())));
    match a {
        Action::RunTool { program, script } => (s, program, script),
        _ => panic!("expected the tool to run"),
    }
}

#[test]
fn full_run_builds_script_for_tool() {
    let (s, program, script) = run_to_tool(None);
    assert!(matches!(s, State::AwaitTool));
    assert_eq!(program, "nsupdate");
    assert_eq!(script, build_transcript(&scenario_config(), &ips(None)));
    let (_, _, script6) = run_to_tool(Some("2001:db8::1"));
    assert_eq!(script6, build_transcript(&scenario_config(), &ips(Some("2001:db8::1"))));
}

#[test]
fn ipv4_failure_is_fatal() {
    let (s, _) = step(State::Start, Event::Configured(raw(Some("example.com"))));
    let (s, a) = step(s, Event::Ipv4Fetched(None));
    assert!(matches!(s, State::Done));
    match a {
        Action::Exit { code, failure } => {
            assert_eq!(code, 1);
            assert_eq!(failure, Some(Failure::Ipv4Lookup));
        }
        _ => panic!("expected exit"),
    }
}

#[test]
fn tool_exit_status_decides_exit_code() {
    let (s, _, _) = run_to_tool(None);
    match step(s, Event::ToolExited(Some(0))).1 {
        Action::Exit { code, failure } => {
            assert_eq!(code, 0);
            assert_eq!(failure, None);
        }
        _ => panic!("expected exit"),
    }
    let (s, _, _) = run_to_tool(None);
    match step(s, Event::ToolExited(Some(1))).1 {
        Action::Exit { code, failure } => {
            assert_ne!(code, 0);
            assert_eq!(failure, Some(Failure::ToolFailed(Some(1))));
        }
        _ => panic!("expected exit"),
    }
    let (s, _, _) = run_to_tool(None);
    match step(s, Event::ToolExited(None)).1 {
        Action::Exit { code, failure } => {
            assert_eq!(code, 1);
            assert_eq!(failure, Some(Failure::ToolFailed(None)));
        }
        _ => panic!("expected exit"),
    }
}

#[test]
fn state_awaits_only_its_event() {
    assert!(State::Start.awaits_event(&Event::Configured(raw(None))));
    assert!(!State::Start.awaits_event(&Event::ToolExited(Some(0))));
    assert!(State::AwaitTool.awaits_event(&Event::ToolExited(Some(0))));
    assert!(!State::Done.awaits_event(&Event::Ipv4Fetched(None)));
}
