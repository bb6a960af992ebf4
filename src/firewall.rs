//! The firewall controller: decides which rule to install for an address, keeps the
//! registry of installed rules, and shapes the commands that the executor sends.
//!
//! Each mutating operation comes in two steps. The first (`ban`, `limit`, `unblock`, ...)
//! reads the registry and says what to send; the caller runs the command, and the second
//! (`commit`, `finish_unblock`, ...) records what the firewall program acknowledged.
use vstd::prelude::*;
use crate::commands::{
    add_chain_command, add_table_command, ban_command, delete_rule_command, delete_table_command,
    flush_chain_command, limit_command, list_chain_command, make_add_chain_command,
    make_add_table_command, make_ban_command, make_delete_rule_command, make_delete_table_command,
    make_flush_chain_command, make_limit_command, make_list_chain_command,
};
use crate::output::{add_handle, first_handle, lines_from, parse_output, parsed, NftObject};
use crate::text::{dec_int, dec_nat, push_int, push_nat};
use crate::types::{addr_in, contains_addr, Action, Address, Config, FamilyType, FirewallRule, FwError, HookType, PolicyType};

verus! {

/// Burst used when a rate limit names none: `min(kbps, 1024) / 10`.
pub open spec fn default_burst(kbps: u64) -> u64 {
    (if kbps < 1024 { kbps } else { 1024 }) / 10
}

pub open spec fn ban_forever_id(ip: Address) -> Seq<char> {
    "ban_"@ + ip.text@
}

pub open spec fn ban_until_id(ip: Address, until: int) -> Seq<char> {
    "ban_"@ + ip.text@ + "_"@ + dec_int(until)
}

pub open spec fn limit_forever_id(ip: Address, kbps: u64) -> Seq<char> {
    "limit_"@ + ip.text@ + "_"@ + dec_nat(kbps as nat)
}

pub open spec fn limit_until_id(ip: Address, kbps: u64, until: int) -> Seq<char> {
    "limit_"@ + ip.text@ + "_"@ + dec_nat(kbps as nat) + "_"@ + dec_int(until)
}

/// Whether some entry of `rules` has id `id`.
pub open spec fn has_id(rules: Seq<FirewallRule>, id: Seq<char>) -> bool {
    exists|i: int| 0 <= i < rules.len() && (#[trigger] rules[i]).id@ == id
}

/// Registry entries have distinct ids and each carries a non-empty handle.
pub open spec fn registry_wf(rules: Seq<FirewallRule>) -> bool {
    &&& forall|i: int, j: int| 0 <= i < j < rules.len() ==> (#[trigger] rules[i]).id@ != (#[trigger] rules[j]).id@
    &&& forall|i: int| 0 <= i < rules.len() ==> (#[trigger] rules[i]).handle is Some && rules[i].handle->0@.len() > 0
}

/// `r` is a ban of `ip` that a ban of `seconds` requested at `now` counts as still in force.
pub open spec fn live_ban(r: FirewallRule, ip: Address, seconds: u64, now: i64) -> bool {
    r.ip.same(&ip) && r.rule_type is Ban && r.created_at + seconds > now
}

/// `a` is a rate limit to `kbps`.
pub open spec fn limits_to(a: Action, kbps: u64) -> bool {
    match a {
        Action::RateLimit { kbps: k, .. } => k == kbps,
        _ => false,
    }
}

/// `r` is a rate limit of `ip` with the same `kbps` and `seconds`, still in force at `now`.
pub open spec fn live_limit(r: FirewallRule, ip: Address, kbps: u64, seconds: u64, now: i64) -> bool {
    &&& r.ip.same(&ip)
    &&& r.rule_type matches Action::RateLimit { kbps: k, seconds: s, .. }
    &&& k == kbps && s == Some(seconds)
    &&& r.created_at + seconds > now
}

/// `r` is what a ban of `ip` for `seconds` requested at `now` comes to on `fw`.
pub open spec fn ban_plan(fw: Firewall, ip: Address, seconds: Option<u64>, now: i64, r: Plan) -> bool {
    &&& (seconds is None ==> (has_id(fw.rules@, ban_forever_id(ip)) ==> (r matches Plan::Existing(id) && id@ == ban_forever_id(ip))))
    &&& (seconds is None ==> (!has_id(fw.rules@, ban_forever_id(ip)) ==> (r matches Plan::Install(p) && pending_is(
                p,
                ban_forever_id(ip),
                ip,
                Action::Ban { seconds: None },
                now,
                ban_command(fw.family, fw.table_name@, fw.chain_name@, fw.hook, ip),
            ))))
    &&& (seconds matches Some(s) ==> (r matches Plan::Existing(id) <==> exists|i: int|
                0 <= i < fw.rules.len() && live_ban(#[trigger] fw.rules@[i], ip, s, now)))
    &&& (seconds matches Some(s) ==> (r matches Plan::Existing(id) ==> exists|i: int|
                0 <= i < fw.rules.len() && live_ban(#[trigger] fw.rules@[i], ip, s, now) && fw.rules@[i].id@ == id@))
    &&& (seconds matches Some(s) ==> (r matches Plan::Install(p) ==> pending_is(
                p,
                ban_until_id(ip, now + s),
                ip,
                Action::Ban { seconds: Some(s) },
                now,
                ban_command(fw.family, fw.table_name@, fw.chain_name@, fw.hook, ip),
            )))
}

/// `r` is what a rate limit of `ip` to `kbps` (burst `burst`) for `seconds` requested at
/// `now` comes to on `fw`.
pub open spec fn limit_plan(fw: Firewall, ip: Address, kbps: u64, burst: Option<u64>, seconds: Option<u64>, now: i64, r: Plan) -> bool {
    &&& (seconds is None ==> ({
                let id = limit_forever_id(ip, kbps);
                let b = match burst { Some(b) => b, None => default_burst(kbps) };
                let reuse = exists|i: int| 0 <= i < fw.rules.len() && (#[trigger] fw.rules@[i]).id@ == id
                    && limits_to(fw.rules@[i].rule_type, kbps);
                &&& reuse ==> (r matches Plan::Existing(x) && x@ == id)
                &&& !reuse ==> (r matches Plan::Install(p) && pending_is(
                    p,
                    id,
                    ip,
                    Action::RateLimit { kbps, burst: Some(b), seconds: None },
                    now,
                    limit_command(fw.family, fw.table_name@, fw.chain_name@, fw.hook, ip, kbps, b),
                ))
            }))
    &&& (seconds matches Some(s) ==> (r matches Plan::Existing(id) <==> exists|i: int|
                0 <= i < fw.rules.len() && live_limit(#[trigger] fw.rules@[i], ip, kbps, s, now)))
    &&& (seconds matches Some(s) ==> (r matches Plan::Existing(id) ==> exists|i: int|
                0 <= i < fw.rules.len() && live_limit(#[trigger] fw.rules@[i], ip, kbps, s, now)
                && fw.rules@[i].id@ == id@))
    &&& (seconds matches Some(s) ==> (r matches Plan::Install(p) ==> ({
                let b = match burst { Some(b) => b, None => default_burst(kbps) };
                pending_is(
                    p,
                    limit_until_id(ip, kbps, now + s),
                    ip,
                    Action::RateLimit { kbps, burst: Some(b), seconds: Some(s) },
                    now,
                    limit_command(fw.family, fw.table_name@, fw.chain_name@, fw.hook, ip, kbps, b),
                )
            })))
}

/// A rule to install, with the command that installs it.
#[derive(Clone, Debug)]
pub struct PendingRule {
    pub rule: FirewallRule,
    pub command: String,
}

/// What an install request comes to: an equivalent rule already in force, or a new one.
#[derive(Clone, Debug)]
pub enum Plan {
    Existing(String),
    Install(PendingRule),
}

/// The answer to a listing request: a text to give back as it is, or a command to run.
#[derive(Clone, Debug)]
pub enum Listing {
    Text(String),
    Run(String),
}

/// The controller's settings and bookkeeping.
#[derive(Clone, Debug)]
pub struct Firewall {
    pub family: FamilyType,
    pub table_name: String,
    pub chain_name: String,
    pub hook: HookType,
    pub priority: i64,
    pub policy: PolicyType,
    pub rules: Vec<FirewallRule>,
    pub nft_available: bool,
    pub global_exclude: Vec<Address>,
}

impl Firewall {
    pub open spec fn wf(&self) -> bool {
        registry_wf(self.rules@)
    }

    /// The settings `cfg` gives, with the defaults for what it leaves out.
    pub open spec fn configured_by(&self, cfg: Config) -> bool {
        &&& self.family == (match cfg.family { Some(f) => f, None => FamilyType::Inet })
        &&& self.table_name@ == (match cfg.table_name { Some(t) => t@, None => "traffic_filter"@ })
        &&& self.chain_name@ == (match cfg.chain_name { Some(c) => c@, None => "traffic_input"@ })
        &&& self.hook == (match cfg.hook { Some(h) => h, None => HookType::Input })
        &&& self.priority == (match cfg.priority { Some(p) => p, None => 0i64 })
        &&& self.policy == (match cfg.policy { Some(p) => p, None => PolicyType::Accept })
        &&& self.global_exclude@ == (match cfg.global_exclude { Some(g) => g@, None => Seq::empty() })
    }

    /// The two commands that create the table and the chain.
    pub open spec fn init_batch(&self) -> Seq<Seq<char>> {
        seq![
            add_table_command(self.family, self.table_name@),
            add_chain_command(self.family, self.table_name@, self.chain_name@, self.hook, self.priority, self.policy),
        ]
    }

    /// A controller for `cfg` with an empty registry. `nft_available` is false in mock mode.
    pub fn new(cfg: &Config, nft_available: bool) -> (r: Firewall)
        ensures
            r.wf(),
            r.configured_by(*cfg),
            r.rules@.len() == 0,
            r.nft_available == nft_available,
    {
        let family = match cfg.family { Some(f) => f, None => FamilyType::Inet };
        let table_name = match &cfg.table_name {
            Some(t) => t.clone(),
            None => String::from_str("traffic_filter"),
        };
        let chain_name = match &cfg.chain_name {
            Some(c) => c.clone(),
            None => String::from_str("traffic_input"),
        };
        let hook = match cfg.hook { Some(h) => h, None => HookType::Input };
        let priority = match cfg.priority { Some(p) => p, None => 0 };
        let policy = match cfg.policy { Some(p) => p, None => PolicyType::Accept };
        let global_exclude = match &cfg.global_exclude {
            Some(g) => clone_addresses(g),
            None => Vec::new(),
        };
        Firewall {
            family,
            table_name,
            chain_name,
            hook,
            priority,
            policy,
            rules: Vec::new(),
            nft_available,
            global_exclude,
        }
    }

    /// The batch that initialises the table and chain.
    pub fn init_commands(&self) -> (r: Vec<String>)
        ensures
            r.len() == 2,
            r@[0]@ == self.init_batch()[0],
            r@[1]@ == self.init_batch()[1],
    {
        let mut v: Vec<String> = Vec::new();
        v.push(make_add_table_command(self.family, &self.table_name));
        v.push(make_add_chain_command(
            self.family,
            &self.table_name,
            &self.chain_name,
            self.hook,
            self.priority,
            self.policy,
        ));
        v
    }
}

/// How initialisation ends given the executor's result for the batch: a timeout means the
/// table and chain exist from an earlier run and is no failure; other errors stand.
pub fn init_outcome(r: Result<(), FwError>) -> (out: Result<(), FwError>)
    ensures
        r == Err::<(), FwError>(FwError::Timeout) ==> out is Ok,
        r != Err::<(), FwError>(FwError::Timeout) ==> out == r,
{
    match r {
        Err(FwError::Timeout) => Ok(()),
        other => other,
    }
}

fn clone_addresses(v: &Vec<Address>) -> (r: Vec<Address>)
    ensures
        r@ == v@,
{
    let mut r: Vec<Address> = Vec::new();
    let mut i: usize = 0;
    while i < v.len()
        invariant
            0 <= i <= v.len(),
            r@ == v@.subrange(0, i as int),
        decreases v.len() - i,
    {
        r.push(v[i].copy());
        i = i + 1;
    }
    assert(r@ =~= v@);
    r
}

} // verus!

verus! {

/// The handle that the first object of the output `s` announces.
pub open spec fn output_handle(s: Seq<char>) -> Option<u64> {
    let ls = lines_from(s, 0);
    if ls.len() > 0 { add_handle(ls[0]) } else { None }
}

/// `r` is `p` as recorded once the firewall program acknowledged it under handle `h`.
pub open spec fn installed(r: FirewallRule, p: FirewallRule, h: u64) -> bool {
    &&& r.id == p.id
    &&& r.ip == p.ip
    &&& r.rule_type == p.rule_type
    &&& r.created_at == p.created_at
    &&& r.handle matches Some(hs) && hs@ == dec_nat(h as nat)
}

/// `p` installs `action` on `ip` at `now` under id `id` with command `cmd`; it has no handle yet.
pub open spec fn pending_is(p: PendingRule, id: Seq<char>, ip: Address, action: Action, now: i64, cmd: Seq<char>) -> bool {
    &&& p.rule.id@ == id
    &&& p.rule.ip == ip
    &&& p.rule.rule_type == action
    &&& p.rule.created_at == now
    &&& p.rule.handle is None
    &&& p.command@ == cmd
}

/// Two registry entries with one id are one entry.
proof fn lemma_id_unique(rules: Seq<FirewallRule>, i: int, j: int)
    requires
        registry_wf(rules),
        0 <= i < rules.len(),
        0 <= j < rules.len(),
        rules[i].id@ == rules[j].id@,
    ensures
        i == j,
{
    if i < j {
        assert(rules[i].id@ != rules[j].id@);
    } else if j < i {
        assert(rules[j].id@ != rules[i].id@);
    }
}

proof fn lemma_dec_nat_nonempty(n: nat)
    ensures
        dec_nat(n).len() > 0,
    decreases n,
{
    if n >= 10 {
        lemma_dec_nat_nonempty(n / 10);
    }
}

/// `prefix` followed by the address text.
fn text_of(prefix: &str, ip: &Address) -> (r: String)
    ensures
        r@ == prefix@ + ip.text@,
{
    let mut s = String::from_str(prefix);
    s.append(ip.text.as_str());
    s
}

impl Firewall {
    /// Position of the entry with id `id`.
    pub fn find_id(&self, id: &String) -> (r: Option<usize>)
        ensures
            r matches Some(i) ==> i < self.rules.len() && self.rules@[i as int].id@ == id@,
            r is None ==> !has_id(self.rules@, id@),
    {
        let mut i: usize = 0;
        while i < self.rules.len()
            invariant
                0 <= i <= self.rules.len(),
                forall|j: int| 0 <= j < i ==> (#[trigger] self.rules@[j]).id@ != id@,
            decreases self.rules.len() - i,
        {
            if self.rules[i].id == *id {
                return Some(i);
            }
            i = i + 1;
        }
        None
    }

    /// The ban command for `ip` in this controller's chain.
    pub fn ban_command_for(&self, ip: &Address) -> (r: String)
        ensures
            r@ == ban_command(self.family, self.table_name@, self.chain_name@, self.hook, *ip),
    {
        make_ban_command(self.family, &self.table_name, &self.chain_name, self.hook, ip)
    }

    /// Indefinite drop of `ip`, registered as `ban_<ip>`; an entry with that id is reused.
    pub fn infinity_ban(&self, ip: &Address, now: i64) -> (r: Plan)
        ensures
            has_id(self.rules@, ban_forever_id(*ip)) ==> (r matches Plan::Existing(id) && id@ == ban_forever_id(*ip)),
            !has_id(self.rules@, ban_forever_id(*ip)) ==> (r matches Plan::Install(p) && pending_is(
                p,
                ban_forever_id(*ip),
                *ip,
                Action::Ban { seconds: None },
                now,
                ban_command(self.family, self.table_name@, self.chain_name@, self.hook, *ip),
            )),
    {
        proof {
            reveal_strlit("ban_");
        }
        let id = text_of("ban_", ip);
        match self.find_id(&id) {
            Some(_) => Plan::Existing(id),
            None => {
                let command = self.ban_command_for(ip);
                let rule = FirewallRule {
                    id,
                    ip: ip.copy(),
                    rule_type: Action::Ban { seconds: None },
                    created_at: now,
                    handle: None,
                };
                Plan::Install(PendingRule { rule, command })
            },
        }
    }

    /// Drop of `ip` for `seconds` (indefinitely when `None`). A ban of `ip` in force for that
    /// long is reused; else the new entry's id is `ban_<ip>_<now + seconds>`.
    pub fn ban(&self, ip: &Address, seconds: Option<u64>, now: i64) -> (r: Plan)
        ensures
            ban_plan(*self, *ip, seconds, now, r),
    {
        let s = match seconds {
            None => {
                return self.infinity_ban(ip, now);
            },
            Some(s) => s,
        };
        let mut i: usize = 0;
        while i < self.rules.len()
            invariant
                0 <= i <= self.rules.len(),
                seconds == Some(s),
                forall|j: int| 0 <= j < i ==> !live_ban(#[trigger] self.rules@[j], *ip, s, now),
            decreases self.rules.len() - i,
        {
            let r = &self.rules[i];
            let is_ban = match r.rule_type { Action::Ban { .. } => true, _ => false };
            if is_ban && r.ip.equals(ip) && (r.created_at as i128) + (s as i128) > now as i128 {
                return Plan::Existing(r.id.clone());
            }
            i = i + 1;
        }
        proof {
            reveal_strlit("ban_");
            reveal_strlit("_");
        }
        let mut id = text_of("ban_", ip);
        id.append("_");
        push_int(&mut id, (now as i128) + (s as i128));
        let command = self.ban_command_for(ip);
        let rule = FirewallRule {
            id,
            ip: ip.copy(),
            rule_type: Action::Ban { seconds: Some(s) },
            created_at: now,
            handle: None,
        };
        Plan::Install(PendingRule { rule, command })
    }

    /// Puts `rule` last in the registry, dropping an entry with the same id first.
    fn record(&mut self, rule: FirewallRule)
        requires
            old(self).wf(),
            rule.handle matches Some(h) && h@.len() > 0,
        ensures
            final(self).wf(),
            final(self).family == old(self).family,
            final(self).table_name == old(self).table_name,
            final(self).chain_name == old(self).chain_name,
            final(self).hook == old(self).hook,
            final(self).global_exclude == old(self).global_exclude,
            final(self).rules@.len() > 0,
            final(self).rules@.last() == rule,
            (!has_id(old(self).rules@, rule.id@) && final(self).rules@.drop_last() == old(self).rules@)
                || exists|i: int| 0 <= i < old(self).rules.len() && old(self).rules@[i].id@ == rule.id@
                    && final(self).rules@.drop_last() == old(self).rules@.remove(i),
            forall|x: Seq<char>| has_id(old(self).rules@, x) ==> has_id(final(self).rules@, x),
            forall|j: int| 0 <= j < old(self).rules.len() && (#[trigger] old(self).rules@[j]).id@ != rule.id@
                ==> final(self).rules@.contains(old(self).rules@[j]),
    {
        let ghost old_rules = self.rules@;
        match self.find_id(&rule.id) {
            Some(i) => {
                proof {
                    lemma_remove_wf(self.rules@, i as int);
                }
                self.rules.remove(i);
            },
            None => {},
        }
        let ghost mid = self.rules@;
        proof {
            assert forall|x: Seq<char>| has_id(old_rules, x) && x != rule.id@ implies has_id(mid, x) by {
                let k = choose|k: int| 0 <= k < old_rules.len() && (#[trigger] old_rules[k]).id@ == x;
                if mid != old_rules {
                    let i = choose|i: int| 0 <= i < old_rules.len() && old_rules[i].id@ == rule.id@
                        && mid == old_rules.remove(i);
                    assert(mid[if k < i { k } else { k - 1 }] == old_rules[k]);
                }
            }
        }
        self.rules.push(rule);
        assert(self.rules@.drop_last() =~= mid);
        assert forall|a: int, b: int| 0 <= a < b < self.rules.len() implies
            (#[trigger] self.rules@[a]).id@ != (#[trigger] self.rules@[b]).id@ by {
            if b < self.rules.len() - 1 {
                assert(self.rules@[a] == mid[a] && self.rules@[b] == mid[b]);
            } else {
                assert(self.rules@[a] == mid[a]);
            }
        }
        assert forall|j: int| 0 <= j < old_rules.len() && (#[trigger] old_rules[j]).id@ != rule.id@
            implies self.rules@.contains(old_rules[j]) by {
            if mid == old_rules {
                assert(self.rules@[j] == mid[j]);
            } else {
                let i = choose|i: int| 0 <= i < old_rules.len() && old_rules[i].id@ == rule.id@
                    && mid == old_rules.remove(i);
                let m = if j < i { j } else { j - 1 };
                assert(mid[m] == old_rules[j]);
                assert(self.rules@[m] == mid[m]);
            }
        }
        assert forall|x: Seq<char>| has_id(old_rules, x) implies has_id(self.rules@, x) by {
            if x == rule.id@ {
                assert(self.rules@[self.rules.len() - 1].id@ == x);
            } else {
                let k = choose|k: int| 0 <= k < mid.len() && (#[trigger] mid[k]).id@ == x;
                assert(self.rules@[k] == mid[k]);
            }
        }
    }

    /// Records `p` under the handle that the firewall program announced in `output`. The
    /// registry is unchanged when the output announces none.
    pub fn commit(&mut self, p: PendingRule, output: &str) -> (r: Result<String, FwError>)
        requires
            old(self).wf(),
        ensures
            final(self).wf(),
            final(self).family == old(self).family,
            final(self).table_name == old(self).table_name,
            final(self).chain_name == old(self).chain_name,
            final(self).hook == old(self).hook,
            final(self).global_exclude == old(self).global_exclude,
            output_handle(output@) is None ==> r == Err::<String, FwError>(FwError::ParseError)
                && final(self).rules@ == old(self).rules@,
            output_handle(output@) matches Some(h) ==> {
                &&& r matches Ok(id) && id@ == p.rule.id@
                &&& final(self).rules@.len() > 0
                &&& installed(final(self).rules@.last(), p.rule, h)
                &&& {
                    ||| (!has_id(old(self).rules@, p.rule.id@) && final(self).rules@.drop_last() == old(self).rules@)
                    ||| exists|i: int| 0 <= i < old(self).rules.len() && old(self).rules@[i].id@ == p.rule.id@
                        && final(self).rules@.drop_last() == old(self).rules@.remove(i)
                }
            },
    {
        let objs = parse_output(output);
        let h = match first_handle(&objs) {
            None => {
                return Err(FwError::ParseError);
            },
            Some(h) => h,
        };
        assert(output_handle(output@) == Some(h));
        let mut hs = String::new();
        push_nat(&mut hs, h as u128);
        proof {
            lemma_dec_nat_nonempty(h as nat);
        }
        let id = p.rule.id.clone();
        let rule = FirewallRule { handle: Some(hs), ..p.rule };
        self.record(rule);
        Ok(id)
    }
}

} // verus!

verus! {

impl Firewall {
    /// The burst a rate limit uses: the given one, else `min(kbps, 1024) / 10`.
    pub fn burst_or_default(kbps: u64, burst: Option<u64>) -> (r: u64)
        ensures
            r == (match burst { Some(b) => b, None => default_burst(kbps) }),
    {
        match burst {
            Some(b) => b,
            None => (if kbps < 1024 { kbps } else { 1024 }) / 10,
        }
    }

    /// Indefinite rate limit of `ip` to `kbps`, registered as `limit_<ip>_<kbps>`; an entry
    /// with that id and the same `kbps` is reused.
    pub fn infinity_limit(&self, ip: &Address, kbps: u64, burst: Option<u64>, now: i64) -> (r: Plan)
        requires
            self.wf(),
        ensures
            ({
                let id = limit_forever_id(*ip, kbps);
                let b = match burst { Some(b) => b, None => default_burst(kbps) };
                let reuse = exists|i: int| 0 <= i < self.rules.len() && (#[trigger] self.rules@[i]).id@ == id
                    && limits_to(self.rules@[i].rule_type, kbps);
                &&& reuse ==> (r matches Plan::Existing(x) && x@ == id)
                &&& !reuse ==> (r matches Plan::Install(p) && pending_is(
                    p,
                    id,
                    *ip,
                    Action::RateLimit { kbps, burst: Some(b), seconds: None },
                    now,
                    limit_command(self.family, self.table_name@, self.chain_name@, self.hook, *ip, kbps, b),
                ))
            }),
    {
        proof {
            reveal_strlit("limit_");
            reveal_strlit("_");
        }
        let mut id = text_of("limit_", ip);
        id.append("_");
        push_nat(&mut id, kbps as u128);
        let b = Self::burst_or_default(kbps, burst);
        match self.find_id(&id) {
            Some(i) => {
                let same = match self.rules[i].rule_type {
                    Action::RateLimit { kbps: k, .. } => k == kbps,
                    _ => false,
                };
                if same {
                    return Plan::Existing(id);
                }
                assert forall|j: int| 0 <= j < self.rules.len() && (#[trigger] self.rules@[j]).id@ == id@ implies j == i by {
                    if j < i {
                        assert(self.rules@[j].id@ != self.rules@[i as int].id@);
                    } else if j > i {
                        assert(self.rules@[i as int].id@ != self.rules@[j].id@);
                    }
                }
            },
            None => {},
        }
        let command = make_limit_command(self.family, &self.table_name, &self.chain_name, self.hook, ip, kbps, b);
        let rule = FirewallRule {
            id,
            ip: ip.copy(),
            rule_type: Action::RateLimit { kbps, burst: Some(b), seconds: None },
            created_at: now,
            handle: None,
        };
        Plan::Install(PendingRule { rule, command })
    }
}

} // verus!

verus! {

impl Firewall {
    /// Rate limit of `ip` to `kbps` for `seconds` (indefinitely when `None`). A rate limit of
    /// `ip` with the same `kbps` and `seconds` still in force is reused; else the new entry's
    /// id is `limit_<ip>_<kbps>_<now + seconds>`.
    pub fn limit(&self, ip: &Address, kbps: u64, burst: Option<u64>, seconds: Option<u64>, now: i64) -> (r: Plan)
        requires
            self.wf(),
        ensures
            limit_plan(*self, *ip, kbps, burst, seconds, now, r),
    {
        let s = match seconds {
            None => {
                return self.infinity_limit(ip, kbps, burst, now);
            },
            Some(s) => s,
        };
        let b = Self::burst_or_default(kbps, burst);
        let mut i: usize = 0;
        while i < self.rules.len()
            invariant
                0 <= i <= self.rules.len(),
                seconds == Some(s),
                forall|j: int| 0 <= j < i ==> !live_limit(#[trigger] self.rules@[j], *ip, kbps, s, now),
            decreases self.rules.len() - i,
        {
            let r = &self.rules[i];
            let same = match r.rule_type {
                Action::RateLimit { kbps: k, seconds: rs, .. } => k == kbps && match rs {
                    Some(x) => x == s,
                    None => false,
                },
                _ => false,
            };
            if same && r.ip.equals(ip) && (r.created_at as i128) + (s as i128) > now as i128 {
                return Plan::Existing(r.id.clone());
            }
            i = i + 1;
        }
        proof {
            reveal_strlit("limit_");
            reveal_strlit("_");
        }
        let mut id = text_of("limit_", ip);
        id.append("_");
        push_nat(&mut id, kbps as u128);
        id.append("_");
        push_int(&mut id, (now as i128) + (s as i128));
        let command = make_limit_command(self.family, &self.table_name, &self.chain_name, self.hook, ip, kbps, b);
        let rule = FirewallRule {
            id,
            ip: ip.copy(),
            rule_type: Action::RateLimit { kbps, burst: Some(b), seconds: Some(s) },
            created_at: now,
            handle: None,
        };
        Plan::Install(PendingRule { rule, command })
    }

    /// Whether the entry `id` exists and `now` is past its creation plus `seconds`.
    pub fn is_expiration(&self, id: &String, seconds: u64, now: i64) -> (r: bool)
        requires
            self.wf(),
        ensures
            r == exists|i: int| 0 <= i < self.rules.len() && (#[trigger] self.rules@[i]).id@ == id@
                && now > self.rules@[i].created_at + seconds,
    {
        match self.find_id(id) {
            Some(i) => {
                let r = (now as i128) > (self.rules[i].created_at as i128) + (seconds as i128);
                proof {
                    if !r {
                        assert forall|j: int| 0 <= j < self.rules.len() && (#[trigger] self.rules@[j]).id@ == id@
                            implies !(now > self.rules@[j].created_at + seconds) by {
                            lemma_id_unique(self.rules@, i as int, j);
                        }
                    }
                }
                r
            },
            None => false,
        }
    }
}

} // verus!

verus! {

/// Removing an entry keeps the registry well formed, and its id is then gone.
proof fn lemma_remove_wf(rules: Seq<FirewallRule>, i: int)
    requires
        registry_wf(rules),
        0 <= i < rules.len(),
    ensures
        registry_wf(rules.remove(i)),
        !has_id(rules.remove(i), rules[i].id@),
{
    let r = rules.remove(i);
    assert forall|a: int| 0 <= a < r.len() implies (#[trigger] r[a]) == rules[if a < i { a } else { a + 1 }] by {}
    assert forall|a: int, b: int| 0 <= a < b < r.len() implies (#[trigger] r[a]).id@ != (#[trigger] r[b]).id@ by {
        let x = if a < i { a } else { a + 1 };
        let y = if b < i { b } else { b + 1 };
        assert(r[a] == rules[x] && r[b] == rules[y]);
    }
    assert forall|a: int| 0 <= a < r.len() implies (#[trigger] r[a]).id@ != rules[i].id@ by {
        let x = if a < i { a } else { a + 1 };
        assert(r[a] == rules[x]);
        if rules[x].id@ == rules[i].id@ {
            lemma_id_unique(rules, x, i);
        }
    }
}

impl Firewall {
    /// The command that deletes the rule `id` by its handle; `NotFound` for an unknown id.
    pub fn unblock(&self, id: &String) -> (r: Result<String, FwError>)
        requires
            self.wf(),
        ensures
            !has_id(self.rules@, id@) ==> r == Err::<String, FwError>(FwError::NotFound),
            has_id(self.rules@, id@) ==> exists|i: int| 0 <= i < self.rules.len()
                && (#[trigger] self.rules@[i]).id@ == id@ && (r matches Ok(c)
                && c@ == delete_rule_command(self.family, self.table_name@, self.chain_name@, self.rules@[i].handle->0@)),
    {
        match self.find_id(id) {
            None => Err(FwError::NotFound),
            Some(i) => {
                let r = &self.rules[i];
                assert(r.handle is Some);
                match &r.handle {
                    Some(h) => Ok(make_delete_rule_command(self.family, &self.table_name, &self.chain_name, h)),
                    None => Err(FwError::NotFound),
                }
            },
        }
    }

    /// Drops the entry `id` once its rule was deleted; `NotFound` for an unknown id.
    pub fn finish_unblock(&mut self, id: &String) -> (r: Result<(), FwError>)
        requires
            old(self).wf(),
        ensures
            final(self).wf(),
            final(self).family == old(self).family,
            final(self).table_name == old(self).table_name,
            final(self).chain_name == old(self).chain_name,
            final(self).hook == old(self).hook,
            final(self).global_exclude == old(self).global_exclude,
            !has_id(final(self).rules@, id@),
            !has_id(old(self).rules@, id@) ==> r == Err::<(), FwError>(FwError::NotFound)
                && final(self).rules@ == old(self).rules@,
            has_id(old(self).rules@, id@) ==> r is Ok && exists|i: int| 0 <= i < old(self).rules.len()
                && (#[trigger] old(self).rules@[i]).id@ == id@ && final(self).rules@ == old(self).rules@.remove(i),
    {
        match self.find_id(id) {
            None => Err(FwError::NotFound),
            Some(i) => {
                proof {
                    lemma_remove_wf(self.rules@, i as int);
                }
                self.rules.remove(i);
                Ok(())
            },
        }
    }

    /// The command that empties the chain, or `None` when no rule is registered.
    pub fn flush_command(&self) -> (r: Option<String>)
        ensures
            self.rules.len() == 0 ==> r is None,
            self.rules.len() > 0 ==> (r matches Some(c)
                && c@ == flush_chain_command(self.family, self.table_name@, self.chain_name@)),
    {
        if self.rules.len() == 0 {
            None
        } else {
            Some(make_flush_chain_command(self.family, &self.table_name, &self.chain_name))
        }
    }

    /// Forgets every registered rule once the chain was flushed; returns how many there were.
    pub fn flush(&mut self) -> (r: usize)
        ensures
            r == old(self).rules.len(),
            final(self).rules@.len() == 0,
            final(self).wf(),
            final(self).family == old(self).family,
            final(self).table_name == old(self).table_name,
            final(self).chain_name == old(self).chain_name,
            final(self).hook == old(self).hook,
            final(self).global_exclude == old(self).global_exclude,
    {
        let n = self.rules.len();
        self.rules.clear();
        n
    }

    /// The commands that delete the table and then list what remains.
    pub fn cleanup_commands(&self) -> (r: Vec<String>)
        ensures
            r.len() == 2,
            r@[0]@ == delete_table_command(self.family, self.table_name@),
            r@[1]@ == "list tables"@,
    {
        let mut v: Vec<String> = Vec::new();
        v.push(make_delete_table_command(self.family, &self.table_name));
        v.push(String::from_str("list tables"));
        v
    }

    /// Forgets every registered rule once the table was deleted.
    pub fn cleanup(&mut self)
        ensures
            final(self).rules@.len() == 0,
            final(self).wf(),
            final(self).family == old(self).family,
            final(self).table_name == old(self).table_name,
            final(self).chain_name == old(self).chain_name,
            final(self).hook == old(self).hook,
            final(self).global_exclude == old(self).global_exclude,
    {
        self.rules.clear();
    }

    /// What listing the system rules comes to: in mock mode the text
    /// `nftables not available`, else the command that lists the chain, whose output is
    /// the answer.
    pub fn get_system_rules(&self) -> (r: Listing)
        ensures
            !self.nft_available ==> (r matches Listing::Text(t) && t@ == "nftables not available"@),
            self.nft_available ==> (r matches Listing::Run(c)
                && c@ == list_chain_command(self.family, self.table_name@, self.chain_name@)),
    {
        if self.nft_available {
            Listing::Run(make_list_chain_command(self.family, &self.table_name, &self.chain_name))
        } else {
            Listing::Text(String::from_str("nftables not available"))
        }
    }

    /// A copy of the registry.
    pub fn get_active_rules(&self) -> (r: Vec<FirewallRule>)
        ensures
            r@ == self.rules@,
    {
        let mut out: Vec<FirewallRule> = Vec::new();
        let mut i: usize = 0;
        while i < self.rules.len()
            invariant
                0 <= i <= self.rules.len(),
                out@ == self.rules@.subrange(0, i as int),
            decreases self.rules.len() - i,
        {
            out.push(self.rules[i].copy());
            i = i + 1;
        }
        assert(out@ =~= self.rules@);
        out
    }

    /// Whether `ip` is in the global exclusion set.
    pub fn is_excluded(&self, ip: &Address) -> (r: bool)
        ensures
            r == addr_in(self.global_exclude@, *ip),
    {
        contains_addr(&self.global_exclude, ip)
    }

    /// Adds `ip` to the global exclusion set; `Duplicate` when it is there already.
    pub fn add_exclude(&mut self, ip: &Address) -> (r: Result<(), FwError>)
        ensures
            final(self).rules == old(self).rules,
            final(self).family == old(self).family,
            final(self).table_name == old(self).table_name,
            final(self).chain_name == old(self).chain_name,
            final(self).hook == old(self).hook,
            addr_in(old(self).global_exclude@, *ip) ==> r == Err::<(), FwError>(FwError::Duplicate)
                && final(self).global_exclude@ == old(self).global_exclude@,
            !addr_in(old(self).global_exclude@, *ip) ==> r is Ok
                && final(self).global_exclude@ == old(self).global_exclude@.push(*ip),
    {
        if contains_addr(&self.global_exclude, ip) {
            Err(FwError::Duplicate)
        } else {
            self.global_exclude.push(ip.copy());
            Ok(())
        }
    }
}

} // verus!

verus! {

/// No later pending rule than the `k`-th one has its id.
pub open spec fn last_with_id(p: Seq<PendingRule>, k: int) -> bool {
    forall|m: int| k < m < p.len() ==> (#[trigger] p[m]).rule.id@ != p[k].rule.id@
}

/// The first `n` lines of the output `s` each announce a handle.
pub open spec fn announces_handles(s: Seq<char>, n: int) -> bool {
    let ls = lines_from(s, 0);
    ls.len() >= n && forall|k: int| 0 <= k < n ==> (#[trigger] add_handle(ls[k])) is Some
}

impl Firewall {
    /// One timed ban per address, all with the expiry `now + seconds`, to be sent as one batch.
    /// There is no reuse of rules in force.
    pub fn batch_ban(&self, ips: &Vec<Address>, seconds: u64, now: i64) -> (r: Vec<PendingRule>)
        ensures
            r.len() == ips.len(),
            forall|k: int| 0 <= k < ips.len() ==> pending_is(
                #[trigger] r@[k],
                ban_until_id(ips@[k], now + seconds),
                ips@[k],
                Action::Ban { seconds: Some(seconds) },
                now,
                ban_command(self.family, self.table_name@, self.chain_name@, self.hook, ips@[k]),
            ),
    {
        proof {
            reveal_strlit("ban_");
            reveal_strlit("_");
        }
        let mut out: Vec<PendingRule> = Vec::new();
        let mut k: usize = 0;
        while k < ips.len()
            invariant
                0 <= k <= ips.len(),
                out.len() == k,
                forall|j: int| 0 <= j < k ==> pending_is(
                    #[trigger] out@[j],
                    ban_until_id(ips@[j], now + seconds),
                    ips@[j],
                    Action::Ban { seconds: Some(seconds) },
                    now,
                    ban_command(self.family, self.table_name@, self.chain_name@, self.hook, ips@[j]),
                ),
            decreases ips.len() - k,
        {
            let ip = &ips[k];
            let mut id = text_of("ban_", ip);
            id.append("_");
            push_int(&mut id, (now as i128) + (seconds as i128));
            let command = self.ban_command_for(ip);
            let rule = FirewallRule {
                id,
                ip: ip.copy(),
                rule_type: Action::Ban { seconds: Some(seconds) },
                created_at: now,
                handle: None,
            };
            out.push(PendingRule { rule, command });
            k = k + 1;
        }
        out
    }

    /// Records a batch once it ran: the k-th rule under the handle that the k-th line of
    /// `output` announces. `ParseError`, and no change, when some rule has no handle there.
    pub fn commit_batch(&mut self, pending: Vec<PendingRule>, output: &str) -> (r: Result<Vec<String>, FwError>)
        requires
            old(self).wf(),
        ensures
            final(self).wf(),
            final(self).family == old(self).family,
            final(self).table_name == old(self).table_name,
            final(self).chain_name == old(self).chain_name,
            final(self).hook == old(self).hook,
            final(self).global_exclude == old(self).global_exclude,
            !announces_handles(output@, pending.len() as int) ==> r == Err::<Vec<String>, FwError>(FwError::ParseError)
                && final(self).rules@ == old(self).rules@,
            announces_handles(output@, pending.len() as int) ==> (r matches Ok(ids) && {
                &&& ids.len() == pending.len()
                &&& forall|k: int| 0 <= k < pending.len() ==> (#[trigger] ids@[k])@ == pending@[k].rule.id@
                    && has_id(final(self).rules@, ids@[k]@)
                &&& forall|x: Seq<char>| has_id(old(self).rules@, x) ==> has_id(final(self).rules@, x)
                &&& forall|k: int| 0 <= k < pending.len() && last_with_id(pending@, k) ==> exists|i: int|
                    0 <= i < final(self).rules.len() && installed(
                        #[trigger] final(self).rules@[i],
                        pending@[k].rule,
                        add_handle(lines_from(output@, 0)[k])->0,
                    )
            }),
    {
        let objs = parse_output(output);
        let n = pending.len();
        if objs.len() < n {
            return Err(FwError::ParseError);
        }
        let mut k: usize = 0;
        while k < n
            invariant
                0 <= k <= n <= objs.len(),
                n == pending.len(),
                *self == *old(self),
                self.wf(),
                parsed(output@, objs@),
                forall|j: int| 0 <= j < k ==> (#[trigger] objs@[j]) is Add,
            decreases n - k,
        {
            match &objs[k] {
                NftObject::Other { .. } => {
                    assert(add_handle(lines_from(output@, 0)[k as int]) is None);
                    return Err(FwError::ParseError);
                },
                NftObject::Add { .. } => {},
            }
            k = k + 1;
        }
        assert forall|j: int| 0 <= j < n implies (#[trigger] add_handle(lines_from(output@, 0)[j])) is Some by {
            assert(objs@[j] is Add);
        }
        let ghost start = self.rules@;
        let mut ids: Vec<String> = Vec::new();
        let mut k: usize = 0;
        while k < n
            invariant
                0 <= k <= n <= objs.len(),
                n == pending.len(),
                ids.len() == k,
                self.wf(),
                self.family == old(self).family,
                self.table_name == old(self).table_name,
                self.chain_name == old(self).chain_name,
                self.hook == old(self).hook,
                self.global_exclude == old(self).global_exclude,
                start == old(self).rules@,
                forall|j: int| 0 <= j < n ==> (#[trigger] objs@[j]) is Add,
                forall|j: int| 0 <= j < k ==> (#[trigger] ids@[j])@ == pending@[j].rule.id@
                    && has_id(self.rules@, ids@[j]@),
                forall|x: Seq<char>| has_id(start, x) ==> has_id(self.rules@, x),
                parsed(output@, objs@),
                forall|j: int| 0 <= j < k && last_with_id(pending@.subrange(0, k as int), j) ==> exists|i: int|
                    0 <= i < self.rules.len() && installed(
                        #[trigger] self.rules@[i],
                        pending@[j].rule,
                        add_handle(lines_from(output@, 0)[j])->0,
                    ),
            decreases n - k,
        {
            let h = match &objs[k] {
                NftObject::Add { handle } => *handle,
                NftObject::Other { .. } => 0,
            };
            let mut hs = String::new();
            push_nat(&mut hs, h as u128);
            proof {
                lemma_dec_nat_nonempty(h as nat);
            }
            let p = &pending[k];
            let rule = FirewallRule {
                id: p.rule.id.clone(),
                ip: p.rule.ip.copy(),
                rule_type: p.rule.rule_type,
                created_at: p.rule.created_at,
                handle: Some(hs),
            };
            let ghost prev = self.rules@;
            assert(add_handle(lines_from(output@, 0)[k as int]) == Some(h));
            let ghost rk = rule;
            self.record(rule);
            proof {
                let sub = pending@.subrange(0, k + 1);
                assert forall|j: int| 0 <= j < k + 1 && last_with_id(sub, j) implies exists|i: int|
                    0 <= i < self.rules.len() && installed(
                        #[trigger] self.rules@[i],
                        pending@[j].rule,
                        add_handle(lines_from(output@, 0)[j])->0,
                    ) by {
                    if j == k {
                        assert(installed(self.rules@[self.rules.len() - 1], pending@[j].rule,
                            add_handle(lines_from(output@, 0)[j])->0));
                    } else {
                        assert(sub[k as int] == pending@[k as int]);
                        assert(sub[j] == pending@[j]);
                        assert(pending@[k as int].rule.id@ != pending@[j].rule.id@);
                        assert(last_with_id(pending@.subrange(0, k as int), j)) by {
                            assert forall|m: int| j < m < k implies
                                (#[trigger] pending@.subrange(0, k as int)[m]).rule.id@ != pending@.subrange(0, k as int)[j].rule.id@ by {
                                assert(sub[m] == pending@[m]);
                            }
                        }
                        let i = choose|i: int| 0 <= i < prev.len() && installed(
                            #[trigger] prev[i],
                            pending@[j].rule,
                            add_handle(lines_from(output@, 0)[j])->0,
                        );
                        assert(prev[i].id@ != rk.id@);
                        assert(self.rules@.contains(prev[i]));
                    }
                }
            }
            ids.push(p.rule.id.clone());
            assert(has_id(self.rules@, pending@[k as int].rule.id@)) by {
                assert(self.rules@[self.rules.len() - 1].id@ == pending@[k as int].rule.id@);
            }
            k = k + 1;
        }
        assert(pending@.subrange(0, n as int) =~= pending@);
        Ok(ids)
    }
}

} // verus!

verus! {

/// Number of entries whose finite duration has run out at `now`.
pub open spec fn expired_count(rules: Seq<FirewallRule>, now: i64) -> nat
    decreases rules.len(),
{
    if rules.len() == 0 {
        0
    } else {
        let r = rules.last();
        expired_count(rules.drop_last(), now) + (if r.rule_type.duration() matches Some(s)
            && r.created_at + s <= now { 1nat } else { 0nat })
    }
}

pub open spec fn bool_text(b: bool) -> Seq<char> {
    if b { "true"@ } else { "false"@ }
}

/// The status report.
pub open spec fn status_text(fw: Firewall, now: i64, pool_size: nat, available: nat) -> Seq<char> {
    "firewall status:\n- nftables available: "@ + bool_text(fw.nft_available) + "\n- active rules: "@
        + dec_nat(fw.rules.len() as nat) + "\n- expired rules: "@ + dec_nat(expired_count(fw.rules@, now))
        + "\n- table: "@ + fw.table_name@ + "\n- chain: "@ + fw.chain_name@ + "\n- executor pool size: "@
        + dec_nat(pool_size) + "\n- available executors: "@ + dec_nat(available)
}

impl Firewall {
    /// A report of the controller's state and of the executor pool's `(size, available)`.
    pub fn status(&self, now: i64, pool_size: usize, available: usize) -> (r: String)
        ensures
            r@ == status_text(*self, now, pool_size as nat, available as nat),
    {
        let mut expired: usize = 0;
        let mut i: usize = 0;
        while i < self.rules.len()
            invariant
                0 <= i <= self.rules.len(),
                expired <= i,
                expired == expired_count(self.rules@.subrange(0, i as int), now),
            decreases self.rules.len() - i,
        {
            let r = &self.rules[i];
            let ghost pre = self.rules@.subrange(0, i as int);
            assert(self.rules@.subrange(0, i + 1).drop_last() =~= pre);
            match r.rule_type.seconds() {
                Some(s) => {
                    if (r.created_at as i128) + (s as i128) <= now as i128 {
                        expired = expired + 1;
                    }
                },
                None => {},
            }
            i = i + 1;
        }
        assert(self.rules@.subrange(0, self.rules.len() as int) =~= self.rules@);
        let mut s = String::from_str("firewall status:\n- nftables available: ");
        s.append(if self.nft_available { "true" } else { "false" });
        s.append("\n- active rules: ");
        push_nat(&mut s, self.rules.len() as u128);
        s.append("\n- expired rules: ");
        push_nat(&mut s, expired as u128);
        s.append("\n- table: ");
        s.append(self.table_name.as_str());
        s.append("\n- chain: ");
        s.append(self.chain_name.as_str());
        s.append("\n- executor pool size: ");
        push_nat(&mut s, pool_size as u128);
        s.append("\n- available executors: ");
        push_nat(&mut s, available as u128);
        assert(s@ =~= status_text(*self, now, pool_size as nat, available as nat));
        s
    }
}

} // verus!
