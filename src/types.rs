//! Data model: addresses, configured rules and actions, installed firewall rules.
use vstd::prelude::*;

verus! {

/// Address family of an observed address; selects the `ip` / `ip6` match prefix.
#[derive(Clone, Copy, Debug, PartialEq, Eq, Structural)]
pub enum IpFamily {
    V4,
    V6,
}

/// A network address: its family and its canonical textual form.
#[derive(Clone, Debug)]
pub struct Address {
    pub family: IpFamily,
    pub text: String,
}

impl Address {
    /// Two addresses are equal when family and text agree.
    pub open spec fn same(&self, other: &Address) -> bool {
        self.family == other.family && self.text@ == other.text@
    }

    pub fn new(family: IpFamily, text: String) -> (r: Address)
        ensures
            r.family == family,
            r.text@ == text@,
    {
        Address { family, text }
    }

    pub fn copy(&self) -> (r: Address)
        ensures
            r == *self,
    {
        Address { family: self.family, text: self.text.clone() }
    }

    pub fn equals(&self, other: &Address) -> (r: bool)
        ensures
            r == self.same(other),
    {
        let same_family = match (self.family, other.family) {
            (IpFamily::V4, IpFamily::V4) => true,
            (IpFamily::V6, IpFamily::V6) => true,
            _ => false,
        };
        same_family && self.text == other.text
    }
}

/// Whether `ips` holds an address equal to `ip`.
pub open spec fn addr_in(ips: Seq<Address>, ip: Address) -> bool {
    exists|i: int| 0 <= i < ips.len() && (#[trigger] ips[i]).same(&ip)
}

/// Membership test over a list of addresses.
pub fn contains_addr(ips: &Vec<Address>, ip: &Address) -> (r: bool)
    ensures
        r == addr_in(ips@, *ip),
{
    let mut i: usize = 0;
    while i < ips.len()
        invariant
            0 <= i <= ips.len(),
            forall|j: int| 0 <= j < i ==> !(#[trigger] ips@[j]).same(ip),
        decreases ips.len() - i,
    {
        if ips[i].equals(ip) {
            return true;
        }
        i = i + 1;
    }
    false
}

/// What to do with an address whose rate crossed a threshold.
/// `seconds == None` means indefinitely.
#[derive(Clone, Copy, Debug, PartialEq, Eq, Structural)]
pub enum Action {
    RateLimit { kbps: u64, burst: Option<u64>, seconds: Option<u64> },
    Ban { seconds: Option<u64> },
}

impl Action {
    /// The action's duration, if finite.
    pub open spec fn duration(self) -> Option<u64> {
        match self {
            Action::RateLimit { seconds, .. } => seconds,
            Action::Ban { seconds } => seconds,
        }
    }

    pub open spec fn is_ban(self) -> bool {
        self is Ban
    }

    pub fn seconds(&self) -> (r: Option<u64>)
        ensures
            r == self.duration(),
    {
        match self {
            Action::RateLimit { seconds, .. } => *seconds,
            Action::Ban { seconds } => *seconds,
        }
    }
}

/// Direction at which the chain is evaluated.
#[derive(Clone, Copy, Debug, PartialEq, Eq, Structural)]
pub enum HookType {
    Input,
    Output,
}

/// Table family of the firewall.
#[derive(Clone, Copy, Debug, PartialEq, Eq, Structural)]
pub enum FamilyType {
    Ip,
    Ip6,
    Inet,
}

/// Default policy of the chain.
#[derive(Clone, Copy, Debug, PartialEq, Eq, Structural)]
pub enum PolicyType {
    Accept,
    Drop,
}

/// Largest window a rule may use: the window buffer's length.
pub const MAX_WINDOW_BUFFER: usize = 60;

/// A configured rule: average rate over `window_secs` above `threshold_bps` triggers `action`,
/// except for the addresses in `exclude`.
#[derive(Clone, Debug)]
pub struct Rule {
    pub window_secs: u64,
    pub threshold_bps: u64,
    pub action: Action,
    pub exclude: Vec<Address>,
}

impl Rule {
    /// A rule's window fits the buffer and is not empty.
    pub open spec fn valid(&self) -> bool {
        1 <= self.window_secs <= MAX_WINDOW_BUFFER
    }

    pub fn is_valid(&self) -> (r: bool)
        ensures
            r == self.valid(),
    {
        1 <= self.window_secs && self.window_secs <= MAX_WINDOW_BUFFER as u64
    }

    pub fn is_excluded(&self, ip: &Address) -> (r: bool)
        ensures
            r == addr_in(self.exclude@, *ip),
    {
        contains_addr(&self.exclude, ip)
    }
}

/// Settings of the firewall controller; `None` takes the default.
#[derive(Clone, Debug)]
pub struct Config {
    pub family: Option<FamilyType>,
    pub table_name: Option<String>,
    pub chain_name: Option<String>,
    pub hook: Option<HookType>,
    pub priority: Option<i64>,
    pub policy: Option<PolicyType>,
    pub global_exclude: Option<Vec<Address>>,
    pub rules: Vec<Rule>,
    pub executor_pool_size: Option<u64>,
    pub executor_max_age_secs: Option<u64>,
    pub executor_max_commands: Option<u64>,
}

/// An installed rule as the controller records it. Times are epoch seconds.
#[derive(Clone, Debug)]
pub struct FirewallRule {
    pub id: String,
    pub ip: Address,
    pub rule_type: Action,
    pub created_at: i64,
    pub handle: Option<String>,
}

impl FirewallRule {
    pub fn copy(&self) -> (r: FirewallRule)
        ensures
            r == *self,
    {
        let handle = match &self.handle {
            Some(h) => Some(h.clone()),
            None => None,
        };
        FirewallRule {
            id: self.id.clone(),
            ip: self.ip.copy(),
            rule_type: self.rule_type,
            created_at: self.created_at,
            handle,
        }
    }
}

/// Byte counters reported by the traffic monitor for one address.
#[derive(Clone, Debug)]
pub struct TrafficStats {
    pub rx_bytes: u64,
    pub tx_bytes: u64,
    pub rx_delta: u64,
    pub tx_delta: u64,
    /// Epoch seconds of the last update.
    pub last_updated: i64,
}

impl Default for TrafficStats {
    fn default() -> (r: TrafficStats)
        ensures
            r.rx_bytes == 0 && r.tx_bytes == 0 && r.rx_delta == 0 && r.tx_delta == 0
                && r.last_updated == 0,
    {
        TrafficStats { rx_bytes: 0, tx_bytes: 0, rx_delta: 0, tx_delta: 0, last_updated: 0 }
    }
}

impl TrafficStats {
    /// The per-sample delta that the hook observes: received on input, sent on output.
    pub fn delta_for(&self, hook: HookType) -> (r: u64)
        ensures
            r == (if hook == HookType::Input { self.rx_delta } else { self.tx_delta }),
    {
        match hook {
            HookType::Input => self.rx_delta,
            HookType::Output => self.tx_delta,
        }
    }
}

} // verus!

verus! {

/// Error kinds of the controller and of the executor it drives.
#[derive(Clone, Copy, Debug, PartialEq, Eq, Structural)]
pub enum FwError {
    /// The firewall program is absent.
    FirewallUnavailable,
    /// An executor read exceeded its bound.
    Timeout,
    /// The child process died mid-command.
    ExecutorExited,
    /// The output did not hold the expected `Add` object.
    ParseError,
    /// No rule has the given id.
    NotFound,
    /// The address is already in the exclusion set.
    Duplicate,
    /// A malformed input: a zero or oversized window, for one.
    InvalidInput,
}

} // verus!
