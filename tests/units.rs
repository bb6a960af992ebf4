use safe_traffic::engine::{ControlError, ControlSignal, RuleEngine};
use safe_traffic::firewall::{init_outcome, Firewall, Listing, Plan};
use safe_traffic::output::{first_handle, parse_output, NftObject};
use safe_traffic::pool::ExecutorPool;
use safe_traffic::text::{push_int, push_nat};
use safe_traffic::types::{Action, Address, Config, FamilyType, FwError, HookType, IpFamily, PolicyType, Rule, TrafficStats};
use safe_traffic::window::Window;

fn v4(s: &str) -> Address {
    Address::new(IpFamily::V4, s.to_string())
}

fn config() -> Config {
    Config {
        family: None,
        table_name: None,
        chain_name: None,
        hook: None,
        priority: None,
        policy: None,
        global_exclude: None,
        rules: Vec::new(),
        executor_pool_size: None,
        executor_max_age_secs: None,
        executor_max_commands: None,
    }
}

fn installed(fw: &mut Firewall, decide: impl FnOnce(&Firewall) -> Plan, handle: u64) -> String {
    match decide(fw) {
        Plan::Install(p) => {
            let out = format!("{} # handle {}", p.command, handle);
            fw.commit(p, &out).unwrap()
        }
        Plan::Existing(_) => panic!("expected an install"),
    }
}

#[test]
fn decimal_text() {
    let mut s = String::from("x");
    push_nat(&mut s, 0);
    push_nat(&mut s, 1207);
    push_int(&mut s, -45);
    assert_eq!(s, "x01207-45");
}

#[test]
fn window_average_over_recent_slots() {
    let mut w = Window::new(100);
    w.advance(100, 7);
    assert_eq!(w.pos, 0);
    for (i, v) in [10u64, 20, 30, 40].iter().enumerate() {
        w.advance(101 + i as i64, *v);
    }
    assert_eq!(w.pos, 4);
    // slots 1..=3 hold 10, 20, 30; the newest slot (40) is not read
    assert_eq!(w.sum_recent(3), 60);
    assert_eq!(w.average(3), 20);
    assert_eq!(w.average(2), 25);
    assert_eq!(w.average(4), 15);
}

#[test]
fn window_wraps_and_truncates() {
    let mut w = Window::new(0);
    for t in 1..=61i64 {
        w.advance(t, t as u64);
    }
    assert_eq!(w.pos, 1);
    assert_eq!(w.buffer[0], 60);
    assert_eq!(w.buffer[1], 61);
    // slots 59, 0 hold 59, 60
    assert_eq!(w.average(2), 59);
    assert_eq!(w.average(3), (58 + 59 + 60) / 3);
}

#[test]
fn window_large_samples_do_not_overflow() {
    let mut w = Window::new(0);
    for t in 1..=5i64 {
        w.advance(t, u64::MAX);
    }
    assert_eq!(w.sum_recent(3), 3 * u64::MAX as u128);
    assert_eq!(w.average(3), u64::MAX);
}

#[test]
fn window_same_second_keeps_state() {
    let mut w = Window::new(5);
    w.advance(5, 99);
    w.advance(4, 99);
    assert_eq!(w.pos, 0);
    assert!(w.buffer.iter().all(|x| *x == 0));
}

#[test]
fn parser_reads_add_and_other_lines() {
    let out = "add rule inet t c ip saddr 1.2.3.4 drop # handle 42\n\nlist ruleset\nadd rule x # handle 99999999999999999999\n";
    let objs = parse_output(out);
    assert_eq!(objs.len(), 3);
    assert!(matches!(objs[0], NftObject::Add { handle: 42 }));
    match &objs[1] {
        NftObject::Other { raw } => assert_eq!(raw, "list ruleset"),
        _ => panic!("expected other"),
    }
    assert!(matches!(objs[2], NftObject::Other { .. }));
    assert_eq!(first_handle(&objs), Some(42));
    assert_eq!(first_handle(&parse_output("")), None);
    assert_eq!(first_handle(&parse_output("table inet t\nadd rule a # handle 3")), None);
    assert_eq!(first_handle(&parse_output("add rule a # handle")), None);
}

#[test]
fn commit_rejects_output_without_handle() {
    let mut fw = Firewall::new(&config(), true);
    let plan = fw.ban(&v4("1.1.1.1"), Some(30), 1000);
    match plan {
        Plan::Install(p) => {
            assert_eq!(fw.commit(p, "Error: no such table"), Err(FwError::ParseError));
        }
        Plan::Existing(_) => panic!("expected an install"),
    }
    assert!(fw.get_active_rules().is_empty());
}

#[test]
fn ban_ids_and_reuse() {
    let mut fw = Firewall::new(&config(), true);
    let ip = v4("10.1.1.1");
    let id = installed(&mut fw, |f| f.ban(&ip, Some(60), 1000), 5);
    assert_eq!(id, "ban_10.1.1.1_1060");
    assert_eq!(fw.get_active_rules()[0].handle, Some("5".to_string()));
    match fw.ban(&ip, Some(60), 1059) {
        Plan::Existing(x) => assert_eq!(x, id),
        Plan::Install(_) => panic!("ban in force must be reused"),
    }
    assert!(matches!(fw.ban(&ip, Some(60), 1060), Plan::Install(_)));
    let inf = installed(&mut fw, |f| f.infinity_ban(&ip, 1000), 6);
    assert_eq!(inf, "ban_10.1.1.1");
    assert!(matches!(fw.ban(&ip, None, 5000), Plan::Existing(_)));
}

#[test]
fn limit_ids_and_reuse() {
    let mut fw = Firewall::new(&config(), true);
    let ip = v4("10.1.1.2");
    let id = installed(&mut fw, |f| f.limit(&ip, 2048, None, Some(10), 50), 7);
    assert_eq!(id, "limit_10.1.1.2_2048_60");
    assert_eq!(fw.get_active_rules()[0].rule_type, Action::RateLimit { kbps: 2048, burst: Some(102), seconds: Some(10) });
    assert!(matches!(fw.limit(&ip, 2048, Some(1), Some(10), 55), Plan::Existing(_)));
    assert!(matches!(fw.limit(&ip, 2048, None, Some(11), 55), Plan::Install(_)));
    assert!(matches!(fw.limit(&ip, 1000, None, Some(10), 55), Plan::Install(_)));
    let inf = installed(&mut fw, |f| f.infinity_limit(&ip, 100, Some(7), 0), 8);
    assert_eq!(inf, "limit_10.1.1.2_100");
    assert!(matches!(fw.limit(&ip, 100, None, None, 9), Plan::Existing(_)));
    match fw.limit(&ip, 100, Some(7), None, 0) {
        Plan::Existing(x) => assert_eq!(x, "limit_10.1.1.2_100"),
        _ => panic!("expected reuse"),
    }
}

#[test]
fn limit_command_with_explicit_burst() {
    let fw = Firewall::new(&config(), true);
    match fw.limit(&v4("10.1.1.3"), 64, Some(9), None, 0) {
        Plan::Install(p) => assert_eq!(
            p.command,
            "add rule inet traffic_filter traffic_input ip saddr 10.1.1.3 limit rate 64 kbytes/second burst 9 kbytes drop"
        ),
        _ => panic!("expected an install"),
    }
}

#[test]
fn unblock_round_trip() {
    let mut fw = Firewall::new(&config(), true);
    let id = installed(&mut fw, |f| f.ban(&v4("10.2.2.2"), Some(5), 0), 77);
    assert_eq!(fw.unblock(&id), Ok("delete rule inet traffic_filter traffic_input handle 77".to_string()));
    assert_eq!(fw.finish_unblock(&id), Ok(()));
    assert!(fw.get_active_rules().is_empty());
    assert_eq!(fw.unblock(&id), Err(FwError::NotFound));
    assert_eq!(fw.finish_unblock(&id), Err(FwError::NotFound));
}

#[test]
fn expiration_query() {
    let mut fw = Firewall::new(&config(), true);
    let id = installed(&mut fw, |f| f.ban(&v4("10.3.3.3"), Some(5), 100), 1);
    assert!(!fw.is_expiration(&id, 5, 105));
    assert!(fw.is_expiration(&id, 5, 106));
    assert!(!fw.is_expiration(&"ban_missing".to_string(), 5, 1000));
}

#[test]
fn flush_and_cleanup() {
    let mut fw = Firewall::new(&config(), true);
    assert_eq!(fw.flush_command(), None);
    installed(&mut fw, |f| f.ban(&v4("10.4.4.4"), None, 0), 1);
    installed(&mut fw, |f| f.ban(&v4("10.4.4.5"), None, 0), 2);
    assert_eq!(fw.flush_command(), Some("flush chain inet traffic_filter traffic_input".to_string()));
    assert_eq!(fw.flush(), 2);
    assert!(fw.get_active_rules().is_empty());
    assert_eq!(fw.cleanup_commands(), vec!["delete table inet traffic_filter".to_string(), "list tables".to_string()]);
    fw.cleanup();
    assert!(fw.get_active_rules().is_empty());
}

#[test]
fn forget_id_keeps_order() {
    let mut e = RuleEngine::new(Vec::new()).unwrap();
    let ip = v4("10.7.0.1");
    for id in ["a", "b", "a", "c"] {
        e.record_id(&ip, id.to_string());
    }
    e.forget_id(&ip, &"a".to_string());
    assert_eq!(e.handles[0].ids, vec!["b".to_string(), "c".to_string()]);
}

#[test]
fn exclusion_set() {
    let mut cfg = config();
    cfg.global_exclude = Some(vec![v4("127.0.0.1")]);
    let mut fw = Firewall::new(&cfg, true);
    assert!(fw.is_excluded(&v4("127.0.0.1")));
    assert!(!fw.is_excluded(&v4("127.0.0.2")));
    assert!(!fw.is_excluded(&Address::new(IpFamily::V6, "127.0.0.1".to_string())));
    assert_eq!(fw.add_exclude(&v4("127.0.0.1")), Err(FwError::Duplicate));
    assert_eq!(fw.add_exclude(&v4("127.0.0.2")), Ok(()));
    assert!(fw.is_excluded(&v4("127.0.0.2")));
}

#[test]
fn init_commands_and_timeout() {
    let mut cfg = config();
    cfg.family = Some(FamilyType::Ip6);
    cfg.table_name = Some("t".to_string());
    cfg.chain_name = Some("c".to_string());
    cfg.hook = Some(HookType::Output);
    cfg.priority = Some(-5);
    cfg.policy = Some(PolicyType::Drop);
    let a = Firewall::new(&cfg, true).init_commands();
    let b = Firewall::new(&cfg, true).init_commands();
    assert_eq!(a, b);
    assert_eq!(a[0], "add table ip6 t");
    assert_eq!(a[1], "add chain ip6 t c { type filter hook output priority -5  ; policy drop ; }");
    let d = Firewall::new(&config(), false).init_commands();
    assert_eq!(d[1], "add chain inet traffic_filter traffic_input { type filter hook input priority 0  ; policy accept ; }");
    assert_eq!(init_outcome(Err(FwError::Timeout)), Ok(()));
    assert_eq!(init_outcome(Err(FwError::ExecutorExited)), Err(FwError::ExecutorExited));
    assert_eq!(init_outcome(Ok(())), Ok(()));
}

#[test]
fn system_rules_and_status() {
    let mut fw = Firewall::new(&config(), true);
    match fw.get_system_rules() {
        Listing::Run(c) => assert_eq!(c, "list chain inet traffic_filter traffic_input"),
        Listing::Text(_) => panic!("expected a command"),
    }
    match Firewall::new(&config(), false).get_system_rules() {
        Listing::Text(t) => assert_eq!(t, "nftables not available"),
        Listing::Run(_) => panic!("expected the mock-mode text"),
    }
    installed(&mut fw, |f| f.ban(&v4("10.5.5.5"), Some(10), 0), 3);
    installed(&mut fw, |f| f.ban(&v4("10.5.5.6"), None, 0), 4);
    let s = fw.status(20, 5, 4);
    assert!(s.contains("active rules: 2"));
    assert!(s.contains("expired rules: 1"));
    assert!(s.contains("executor pool size: 5"));
    assert!(s.contains("available executors: 4"));
}

#[test]
fn batch_ban_records_real_handles() {
    let mut fw = Firewall::new(&config(), true);
    let ips = vec![v4("10.6.0.1"), v4("10.6.0.2")];
    let pending = fw.batch_ban(&ips, 30, 1000);
    assert_eq!(pending.len(), 2);
    assert_eq!(pending[1].command, "add rule inet traffic_filter traffic_input ip saddr 10.6.0.2 drop");
    let out = format!("{} # handle 21\n{} # handle 22\n", pending[0].command, pending[1].command);
    assert_eq!(fw.commit_batch(pending.clone(), "add rule x # handle 1\n"), Err(FwError::ParseError));
    let ids = fw.commit_batch(pending, &out).unwrap();
    assert_eq!(ids, vec!["ban_10.6.0.1_1030".to_string(), "ban_10.6.0.2_1030".to_string()]);
    let rules = fw.get_active_rules();
    assert_eq!(rules[0].handle, Some("21".to_string()));
    assert_eq!(rules[1].handle, Some("22".to_string()));
    assert_eq!(rules[1].rule_type, Action::Ban { seconds: Some(30) });
    assert_eq!(rules[1].created_at, 1000);
}

#[test]
fn engine_rejects_bad_windows() {
    let r = |w: u64| Rule { window_secs: w, threshold_bps: 1, action: Action::Ban { seconds: None }, exclude: Vec::new() };
    assert!(matches!(RuleEngine::new(vec![r(0)]), Err(FwError::InvalidInput)));
    assert!(matches!(RuleEngine::new(vec![r(3), r(61)]), Err(FwError::InvalidInput)));
    assert!(RuleEngine::new(vec![r(1), r(60)]).is_ok());
}

#[test]
fn engine_state_machine() {
    let mut e = RuleEngine::new(Vec::new()).unwrap();
    assert!(e.tick_allowed());
    assert_eq!(e.resume(), Err(ControlError::NotPaused));
    assert_eq!(e.pause(), Ok(()));
    assert!(!e.tick_allowed());
    assert_eq!(e.pause(), Err(ControlError::NotRunning));
    assert_eq!(e.resume(), Ok(()));
    e.handle_signal(ControlSignal::Stop);
    assert!(!e.tick_allowed());
    assert_eq!(e.resume(), Err(ControlError::AlreadyStopped));
    assert_eq!(e.pause(), Err(ControlError::AlreadyStopped));
}

#[test]
fn traffic_stats_delta_by_hook() {
    let mut s = TrafficStats::default();
    assert_eq!(s.rx_delta, 0);
    s.rx_delta = 3;
    s.tx_delta = 4;
    assert_eq!(s.delta_for(HookType::Input), 3);
    assert_eq!(s.delta_for(HookType::Output), 4);
}

#[test]
fn pool_budgets() {
    assert!(matches!(ExecutorPool::new(0, 10, 10), Err(FwError::InvalidInput)));
    assert!(matches!(ExecutorPool::new(1, 10, 0), Err(FwError::InvalidInput)));
    let mut p = ExecutorPool::new(1, 10, 3).unwrap();
    assert_eq!(p.acquire(0, 0), Err(FwError::InvalidInput));
    assert_eq!(p.acquire(0, 4), Err(FwError::InvalidInput));
    let l = p.acquire(0, 1).unwrap().unwrap();
    assert!(l.spawn);
    assert_eq!(p.acquire(0, 1), Ok(None));
    p.record_commands(l.slot, 1);
    p.release(l.slot);
    // two more fit in the budget of three
    let l = p.acquire(1, 2).unwrap().unwrap();
    assert!(!l.spawn);
    p.record_commands(l.slot, 2);
    p.release(l.slot);
    assert_eq!(p.slots[0].child.unwrap().commands_issued, 3);
    // budget used up
    let l = p.acquire(2, 1).unwrap().unwrap();
    assert!(l.spawn);
    assert_eq!(p.slots[0].child.unwrap().commands_issued, 0);
    p.record_commands(l.slot, 2);
    p.release(l.slot);
    // a batch of two does not fit in the one command left
    let l = p.acquire(3, 2).unwrap().unwrap();
    assert!(l.spawn);
    p.release(l.slot);
    // too old
    let l = p.acquire(14, 1).unwrap().unwrap();
    assert!(l.spawn);
    assert_eq!(p.slots[0].child.unwrap().born, 14);
    p.mark_exited(l.slot);
    p.release(l.slot);
    assert_eq!(p.get_pool_stats(), (1, 1));
    assert!(p.acquire(14, 1).unwrap().unwrap().spawn);
    assert_eq!(p.get_pool_stats(), (1, 0));
    p.cleanup();
    assert_eq!(p.get_pool_stats(), (1, 1));
}
