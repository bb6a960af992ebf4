use safe_traffic::engine::{ControlSignal, RuleEngine};
use safe_traffic::firewall::{Firewall, Plan};
use safe_traffic::types::{Action, Address, Config, FirewallRule, HookType, IpFamily, Rule};

fn v4(s: &str) -> Address {
    Address::new(IpFamily::V4, s.to_string())
}

fn v6(s: &str) -> Address {
    Address::new(IpFamily::V6, s.to_string())
}

fn config(hook: Option<HookType>, rules: Vec<Rule>) -> Config {
    Config {
        family: None,
        table_name: None,
        chain_name: None,
        hook,
        priority: None,
        policy: None,
        global_exclude: None,
        rules,
        executor_pool_size: None,
        executor_max_age_secs: None,
        executor_max_commands: None,
    }
}

/// A stand-in for the firewall program: logs each command and echoes it with a fresh handle.
struct Sink {
    log: Vec<String>,
    next_handle: u64,
}

impl Sink {
    fn new() -> Sink {
        Sink { log: Vec::new(), next_handle: 10 }
    }

    fn run(&mut self, cmd: &str) -> String {
        self.log.push(cmd.to_string());
        self.next_handle += 1;
        format!("{} # handle {}\n", cmd, self.next_handle)
    }

    fn count(&self, prefix: &str) -> usize {
        self.log.iter().filter(|c| c.starts_with(prefix)).count()
    }
}

/// One engine tick, performing the firewall work with `sink`.
fn tick(engine: &mut RuleEngine, fw: &mut Firewall, sink: &mut Sink, samples: &[(Address, u64)], now: i64) {
    if !engine.tick_allowed() {
        return;
    }
    for (ip, sample) in samples {
        engine.observe(ip, *sample, now);
    }
    for (ip, _) in samples {
        let excluded = fw.is_excluded(ip);
        if excluded {
            continue;
        }
        for k in 0..engine.rules.len() {
            if let Some(plan) = engine.plan_rule(fw, ip, excluded, k, now) {
                let id = match plan {
                    Plan::Existing(id) => id,
                    Plan::Install(p) => {
                        let out = sink.run(&p.command);
                        fw.commit(p, &out).unwrap()
                    }
                };
                engine.record_id(ip, id);
            }
            for id in engine.expired_ids(fw, ip, excluded, k, now) {
                let cmd = fw.unblock(&id).unwrap();
                sink.run(&cmd);
                fw.finish_unblock(&id).unwrap();
                engine.forget_id(ip, &id);
            }
        }
    }
}

fn ban_rule(seconds: Option<u64>) -> Rule {
    Rule { window_secs: 3, threshold_bps: 100, action: Action::Ban { seconds }, exclude: Vec::new() }
}

fn rules_for(fw: &Firewall, ip: &Address) -> Vec<FirewallRule> {
    fw.get_active_rules().into_iter().filter(|r| r.ip.text == ip.text).collect()
}

#[test]
fn ban_on_threshold() {
    let cfg = config(None, vec![ban_rule(Some(60))]);
    let mut fw = Firewall::new(&cfg, true);
    let mut engine = RuleEngine::new(cfg.rules.clone()).unwrap();
    let mut sink = Sink::new();
    let ip = v4("10.0.0.1");
    for (t, d) in [0u64, 500, 500, 500].iter().enumerate() {
        tick(&mut engine, &mut fw, &mut sink, &[(ip.clone(), *d)], t as i64);
    }
    let rules = fw.get_active_rules();
    assert_eq!(rules.len(), 1);
    assert_eq!(rules[0].id, "ban_10.0.0.1_62");
    assert_eq!(rules[0].rule_type, Action::Ban { seconds: Some(60) });
    assert!(!rules[0].handle.clone().unwrap().is_empty());
    assert!(sink.log.contains(&"add rule inet traffic_filter traffic_input ip saddr 10.0.0.1 drop".to_string()));
}

#[test]
fn dedup_within_expiry_and_expiration() {
    let cfg = config(None, vec![ban_rule(Some(60))]);
    let mut fw = Firewall::new(&cfg, true);
    let mut engine = RuleEngine::new(cfg.rules.clone()).unwrap();
    let mut sink = Sink::new();
    let ip = v4("10.0.0.1");
    let mut t: i64 = 0;
    for d in [0u64, 500, 500, 500] {
        tick(&mut engine, &mut fw, &mut sink, &[(ip.clone(), d)], t);
        t += 1;
    }
    let adds = sink.count("add rule");
    assert_eq!(adds, 1);
    for _ in 0..10 {
        tick(&mut engine, &mut fw, &mut sink, &[(ip.clone(), 500)], t);
        t += 1;
    }
    assert_eq!(rules_for(&fw, &ip).len(), 1);
    assert_eq!(sink.count("add rule"), 1);
    let first = fw.get_active_rules()[0].clone();
    let handle = first.handle.clone().unwrap();

    t += 61;
    tick(&mut engine, &mut fw, &mut sink, &[(ip.clone(), 0)], t);
    assert_eq!(sink.count("delete rule"), 1);
    let expected = format!("delete rule inet traffic_filter traffic_input handle {}", handle);
    assert!(sink.log.contains(&expected));
    assert!(fw.get_active_rules().iter().all(|r| r.id != first.id));
}

#[test]
fn limit_path_with_burst_default() {
    let rule = Rule {
        window_secs: 3,
        threshold_bps: 100,
        action: Action::RateLimit { kbps: 800, burst: None, seconds: None },
        exclude: Vec::new(),
    };
    let cfg = config(None, vec![rule]);
    let mut fw = Firewall::new(&cfg, true);
    let mut engine = RuleEngine::new(cfg.rules.clone()).unwrap();
    let mut sink = Sink::new();
    let ip = v4("10.0.0.2");
    for (t, d) in [0u64, 5000, 5000, 5000].iter().enumerate() {
        tick(&mut engine, &mut fw, &mut sink, &[(ip.clone(), *d)], t as i64);
    }
    assert_eq!(sink.count("add rule"), 1);
    assert!(sink.log[0].contains("limit rate 800 kbytes/second burst 80 kbytes drop"));
    assert_eq!(fw.get_active_rules()[0].id, "limit_10.0.0.2_800");
}

#[test]
fn ipv6_selector_on_output_hook() {
    let cfg = config(Some(HookType::Output), vec![ban_rule(None)]);
    let fw = Firewall::new(&cfg, true);
    match fw.ban(&v6("2001:db8::1"), None, 0) {
        Plan::Install(p) => {
            assert!(p.command.contains("ip6 daddr 2001:db8::1"));
            assert_eq!(p.rule.id, "ban_2001:db8::1");
        }
        Plan::Existing(_) => panic!("nothing is installed yet"),
    }
}

#[test]
fn pause_suppresses_ticks() {
    let cfg = config(None, vec![ban_rule(Some(60))]);
    let mut fw = Firewall::new(&cfg, true);
    let mut engine = RuleEngine::new(cfg.rules.clone()).unwrap();
    let mut sink = Sink::new();
    let ip = v4("10.0.0.3");
    tick(&mut engine, &mut fw, &mut sink, &[(ip.clone(), 0)], 0);
    tick(&mut engine, &mut fw, &mut sink, &[(ip.clone(), 500)], 1);
    assert_eq!(sink.count("add rule"), 0);
    engine.handle_signal(ControlSignal::Pause);
    for t in 2..7 {
        tick(&mut engine, &mut fw, &mut sink, &[(ip.clone(), 10_000)], t);
    }
    assert_eq!(sink.count("add rule"), 0);
    engine.handle_signal(ControlSignal::Resume);
    tick(&mut engine, &mut fw, &mut sink, &[(ip.clone(), 500)], 7);
    assert_eq!(sink.count("add rule"), 1);
    assert_eq!(fw.get_active_rules().len(), 1);
}

#[test]
fn excluded_address_gets_no_command() {
    let cfg = config(None, vec![ban_rule(Some(60))]);
    let mut fw = Firewall::new(&cfg, true);
    let mut engine = RuleEngine::new(cfg.rules.clone()).unwrap();
    let mut sink = Sink::new();
    let ip = v4("10.0.0.9");
    fw.add_exclude(&ip).unwrap();
    for t in 0..6 {
        tick(&mut engine, &mut fw, &mut sink, &[(ip.clone(), 10_000)], t);
    }
    assert!(sink.log.is_empty());
    assert_eq!(engine.evaluate(&ip, true, 0), None);
}

#[test]
fn rule_exclusion_skips_expiration_sweep() {
    let ip = v4("10.0.0.6");
    let mut excluding = ban_rule(Some(5));
    excluding.exclude.push(ip.clone());
    let cfg = config(None, vec![excluding]);
    let mut fw = Firewall::new(&cfg, true);
    let mut engine = RuleEngine::new(cfg.rules.clone()).unwrap();
    let mut sink = Sink::new();
    let id = match fw.ban(&ip, Some(5), 0) {
        Plan::Install(p) => {
            let out = sink.run(&p.command);
            fw.commit(p, &out).unwrap()
        }
        Plan::Existing(_) => panic!("expected an install"),
    };
    engine.record_id(&ip, id.clone());
    assert!(fw.is_expiration(&id, 5, 100));
    assert!(engine.expired_ids(&fw, &ip, false, 0, 100).is_empty());
    tick(&mut engine, &mut fw, &mut sink, &[(ip.clone(), 0)], 100);
    assert_eq!(sink.count("delete rule"), 0);
    assert_eq!(fw.get_active_rules().len(), 1);
}

#[test]
fn rule_exclusion_skips_address() {
    let mut rule = ban_rule(Some(60));
    rule.exclude.push(v4("10.0.0.8"));
    let cfg = config(None, vec![rule]);
    let mut fw = Firewall::new(&cfg, true);
    let mut engine = RuleEngine::new(cfg.rules.clone()).unwrap();
    let mut sink = Sink::new();
    for t in 0..6 {
        tick(&mut engine, &mut fw, &mut sink, &[(v4("10.0.0.8"), 10_000), (v4("10.0.0.7"), 10_000)], t);
    }
    assert_eq!(sink.count("add rule"), 1);
    assert!(sink.log[0].contains("10.0.0.7"));
}
