//! The rule engine: per-address windows, rule evaluation, expiration sweep, and the
//! running / paused / stopped state machine.
//!
//! The engine decides; the caller talks to the firewall program. A tick is: `observe` each
//! address's sample; then for each address that the controller does not exclude and each
//! rule index, `evaluate`, act on the firewall, `record_id`, and unblock `expired_ids`.
use vstd::prelude::*;
use crate::firewall::{ban_plan, limit_plan, Firewall, Plan};
use crate::types::{addr_in, Action, Address, FwError, Rule};
use crate::window::Window;

verus! {

/// Run state of the engine's loop.
#[derive(Clone, Copy, Debug, PartialEq, Eq, Structural)]
pub enum RunState {
    Running,
    Paused,
    Stopped,
}

/// Messages of the control channel.
#[derive(Clone, Copy, Debug, PartialEq, Eq, Structural)]
pub enum ControlSignal {
    Pause,
    Resume,
    Stop,
}

/// Why a control message was refused.
#[derive(Clone, Copy, Debug, PartialEq, Eq, Structural)]
pub enum ControlError {
    NotRunning,
    NotPaused,
    AlreadyStopped,
}

/// The state that `sig` leads to from `s`.
pub open spec fn next_state(s: RunState, sig: ControlSignal) -> RunState {
    match sig {
        ControlSignal::Stop => RunState::Stopped,
        ControlSignal::Pause => if s == RunState::Running { RunState::Paused } else { s },
        ControlSignal::Resume => if s == RunState::Paused { RunState::Running } else { s },
    }
}

/// The window of one address.
#[derive(Clone, Debug)]
pub struct WindowEntry {
    pub ip: Address,
    pub window: Window,
}

/// The ids installed for one address.
#[derive(Clone, Debug)]
pub struct HandleEntry {
    pub ip: Address,
    pub ids: Vec<String>,
}

/// `rule` fires on window `w`: the average over its window exceeds its threshold.
pub open spec fn fires(w: Window, rule: Rule) -> bool {
    w.recent_sum(rule.window_secs as nat) / (rule.window_secs as int) > rule.threshold_bps
}

/// `w` is `old` after taking `sample` at `now`.
pub open spec fn advanced(old: Window, w: Window, now: i64, sample: u64) -> bool {
    &&& w.wf()
    &&& now - old.last_ts >= 1 ==> {
        &&& w.pos == (old.pos + 1) % (old.buffer.len() as int)
        &&& w.buffer@ == old.buffer@.update(w.pos as int, sample)
        &&& w.last_ts == now
    }
    &&& now - old.last_ts < 1 ==> w == old
}

/// `w` is a fresh zeroed window created at `now`.
pub open spec fn fresh(w: Window, now: i64) -> bool {
    &&& w.wf()
    &&& w.pos == 0
    &&& w.last_ts == now
    &&& forall|i: int| 0 <= i < w.buffer.len() ==> w.buffer[i] == 0
}

pub open spec fn window_at(ws: Seq<WindowEntry>, i: int, ip: Address) -> bool {
    0 <= i < ws.len() && ws[i].ip.same(&ip)
}

pub open spec fn handles_at(hs: Seq<HandleEntry>, i: int, ip: Address) -> bool {
    0 <= i < hs.len() && hs[i].ip.same(&ip)
}

/// The rule engine's state.
pub struct RuleEngine {
    pub rules: Vec<Rule>,
    pub windows: Vec<WindowEntry>,
    pub handles: Vec<HandleEntry>,
    pub state: RunState,
}

impl RuleEngine {
    pub open spec fn wf(&self) -> bool {
        &&& forall|k: int| 0 <= k < self.rules.len() ==> (#[trigger] self.rules@[k]).valid()
        &&& forall|i: int| 0 <= i < self.windows.len() ==> (#[trigger] self.windows@[i]).window.wf()
        &&& forall|i: int, j: int| 0 <= i < j < self.windows.len()
            ==> !(#[trigger] self.windows@[i]).ip.same(&(#[trigger] self.windows@[j]).ip)
        &&& forall|i: int, j: int| 0 <= i < j < self.handles.len()
            ==> !(#[trigger] self.handles@[i]).ip.same(&(#[trigger] self.handles@[j]).ip)
    }

    /// An engine for `rules`, running, with no windows yet; `InvalidInput` when a rule's
    /// window is zero or longer than the buffer.
    pub fn new(rules: Vec<Rule>) -> (r: Result<RuleEngine, FwError>)
        ensures
            (forall|k: int| 0 <= k < rules.len() ==> (#[trigger] rules@[k]).valid()) <==> r is Ok,
            r matches Ok(e) ==> e.wf() && e.rules@ == rules@ && e.windows@.len() == 0
                && e.handles@.len() == 0 && e.state == RunState::Running,
            r is Err ==> r == Err::<RuleEngine, FwError>(FwError::InvalidInput),
    {
        let mut k: usize = 0;
        while k < rules.len()
            invariant
                0 <= k <= rules.len(),
                forall|j: int| 0 <= j < k ==> (#[trigger] rules@[j]).valid(),
            decreases rules.len() - k,
        {
            if !rules[k].is_valid() {
                return Err(FwError::InvalidInput);
            }
            k = k + 1;
        }
        Ok(RuleEngine { rules, windows: Vec::new(), handles: Vec::new(), state: RunState::Running })
    }

    pub fn get_state(&self) -> (r: RunState)
        ensures
            r == self.state,
    {
        self.state
    }

    /// Running to paused.
    pub fn pause(&mut self) -> (r: Result<(), ControlError>)
        ensures
            final(self).rules == old(self).rules,
            final(self).windows == old(self).windows,
            final(self).handles == old(self).handles,
            final(self).state == next_state(old(self).state, ControlSignal::Pause),
            r is Ok <==> old(self).state == RunState::Running,
            old(self).state == RunState::Paused ==> r == Err::<(), ControlError>(ControlError::NotRunning),
            old(self).state == RunState::Stopped ==> r == Err::<(), ControlError>(ControlError::AlreadyStopped),
    {
        match self.state {
            RunState::Running => {
                self.state = RunState::Paused;
                Ok(())
            },
            RunState::Paused => Err(ControlError::NotRunning),
            RunState::Stopped => Err(ControlError::AlreadyStopped),
        }
    }

    /// Paused to running.
    pub fn resume(&mut self) -> (r: Result<(), ControlError>)
        ensures
            final(self).rules == old(self).rules,
            final(self).windows == old(self).windows,
            final(self).handles == old(self).handles,
            final(self).state == next_state(old(self).state, ControlSignal::Resume),
            r is Ok <==> old(self).state == RunState::Paused,
            old(self).state == RunState::Running ==> r == Err::<(), ControlError>(ControlError::NotPaused),
            old(self).state == RunState::Stopped ==> r == Err::<(), ControlError>(ControlError::AlreadyStopped),
    {
        match self.state {
            RunState::Paused => {
                self.state = RunState::Running;
                Ok(())
            },
            RunState::Running => Err(ControlError::NotPaused),
            RunState::Stopped => Err(ControlError::AlreadyStopped),
        }
    }

    /// Any state to stopped, which is final.
    pub fn stop(&mut self) -> (r: Result<(), ControlError>)
        ensures
            final(self).rules == old(self).rules,
            final(self).windows == old(self).windows,
            final(self).handles == old(self).handles,
            final(self).state == RunState::Stopped,
            r is Ok,
    {
        self.state = RunState::Stopped;
        Ok(())
    }

    /// Applies a control message.
    pub fn handle_signal(&mut self, sig: ControlSignal)
        ensures
            final(self).rules == old(self).rules,
            final(self).windows == old(self).windows,
            final(self).handles == old(self).handles,
            final(self).state == next_state(old(self).state, sig),
    {
        let _ = match sig {
            ControlSignal::Pause => self.pause(),
            ControlSignal::Resume => self.resume(),
            ControlSignal::Stop => self.stop(),
        };
    }

    /// Whether a timer tick is to be served: only while running.
    pub fn tick_allowed(&self) -> (r: bool)
        ensures
            r == (self.state == RunState::Running),
    {
        match self.state {
            RunState::Running => true,
            _ => false,
        }
    }

    /// Position of the window of `ip`.
    pub fn find_window(&self, ip: &Address) -> (r: Option<usize>)
        ensures
            r matches Some(i) ==> window_at(self.windows@, i as int, *ip),
            r is None ==> forall|i: int| 0 <= i < self.windows.len() ==> !(#[trigger] self.windows@[i]).ip.same(ip),
    {
        let mut i: usize = 0;
        while i < self.windows.len()
            invariant
                0 <= i <= self.windows.len(),
                forall|j: int| 0 <= j < i ==> !(#[trigger] self.windows@[j]).ip.same(ip),
            decreases self.windows.len() - i,
        {
            if self.windows[i].ip.equals(ip) {
                return Some(i);
            }
            i = i + 1;
        }
        None
    }
}

} // verus!

verus! {

impl RuleEngine {
    /// Folds the sample of `ip` at `now` into its window, creating a zeroed window dated
    /// `now` on first sight (which takes no sample, as no second has passed).
    pub fn observe(&mut self, ip: &Address, sample: u64, now: i64)
        requires
            old(self).wf(),
        ensures
            final(self).wf(),
            final(self).rules == old(self).rules,
            final(self).handles == old(self).handles,
            final(self).state == old(self).state,
            (exists|i: int| window_at(old(self).windows@, i, *ip)) ==> exists|i: int| {
                &&& window_at(old(self).windows@, i, *ip)
                &&& final(self).windows@.len() == old(self).windows@.len()
                &&& forall|j: int| 0 <= j < old(self).windows.len() && j != i
                    ==> final(self).windows@[j] == old(self).windows@[j]
                &&& final(self).windows@[i].ip == old(self).windows@[i].ip
                &&& advanced(old(self).windows@[i].window, final(self).windows@[i].window, now, sample)
            },
            !(exists|i: int| window_at(old(self).windows@, i, *ip)) ==> {
                &&& final(self).windows@.len() == old(self).windows@.len() + 1
                &&& final(self).windows@.drop_last() == old(self).windows@
                &&& final(self).windows@.last().ip == *ip
                &&& fresh(final(self).windows@.last().window, now)
            },
    {
        match self.find_window(ip) {
            Some(i) => {
                let ghost before = self.windows@;
                let mut e = self.windows.remove(i);
                e.window.advance(now, sample);
                self.windows.insert(i, e);
                assert forall|j: int| 0 <= j < before.len() && j != i implies self.windows@[j] == before[j] by {
                    if j < i {
                        assert(self.windows@[j] == before.remove(i as int)[j]);
                    } else {
                        assert(self.windows@[j] == before.remove(i as int)[j - 1]);
                    }
                }
                assert forall|a: int, b: int| 0 <= a < b < self.windows.len() implies
                    !(#[trigger] self.windows@[a]).ip.same(&(#[trigger] self.windows@[b]).ip) by {
                    assert(self.windows@[a].ip == before[a].ip);
                    assert(self.windows@[b].ip == before[b].ip);
                }
                assert forall|a: int| 0 <= a < self.windows.len() implies (#[trigger] self.windows@[a]).window.wf() by {
                    if a != i {
                        assert(self.windows@[a] == before[a]);
                    }
                }
            },
            None => {
                let ghost before = self.windows@;
                let mut w = Window::new(now);
                w.advance(now, sample);
                self.windows.push(WindowEntry { ip: ip.copy(), window: w });
                assert(self.windows@.drop_last() =~= before);
                assert forall|a: int, b: int| 0 <= a < b < self.windows.len() implies
                    !(#[trigger] self.windows@[a]).ip.same(&(#[trigger] self.windows@[b]).ip) by {
                    if b < before.len() {
                        assert(self.windows@[a] == before[a] && self.windows@[b] == before[b]);
                    } else {
                        assert(self.windows@[a] == before[a]);
                    }
                }
                assert forall|a: int| 0 <= a < self.windows.len() implies (#[trigger] self.windows@[a]).window.wf() by {
                    if a < before.len() {
                        assert(self.windows@[a] == before[a]);
                    }
                }
            },
        }
    }

    /// The action that rule `k` calls for on `ip` in this tick: none when the controller
    /// excludes `ip` (`excluded`), when the rule excludes it, or when `ip` has no window;
    /// else the rule's action exactly when its windowed average exceeds its threshold.
    pub fn evaluate(&self, ip: &Address, excluded: bool, k: usize) -> (r: Option<Action>)
        requires
            self.wf(),
            k < self.rules.len(),
        ensures
            r is Some <==> (!excluded && !addr_in(self.rules@[k as int].exclude@, *ip)
                && exists|i: int| window_at(self.windows@, i, *ip) && fires(self.windows@[i].window, self.rules@[k as int])),
            r matches Some(a) ==> a == self.rules@[k as int].action,
    {
        if excluded {
            return None;
        }
        let rule = &self.rules[k];
        if rule.is_excluded(ip) {
            return None;
        }
        match self.find_window(ip) {
            None => None,
            Some(i) => {
                let w = &self.windows[i].window;
                let avg = w.average(rule.window_secs);
                proof {
                    assert forall|j: int| window_at(self.windows@, j, *ip) implies j == i by {
                        if j < i {
                            assert(!self.windows@[j].ip.same(&self.windows@[i as int].ip));
                        } else if j > i {
                            assert(!self.windows@[i as int].ip.same(&self.windows@[j].ip));
                        }
                    }
                }
                if avg > rule.threshold_bps {
                    Some(rule.action)
                } else {
                    None
                }
            },
        }
    }
}

} // verus!

verus! {

/// The registry of `fw` holds `id`, and `now` is past its creation plus `seconds`.
pub open spec fn expired_in(fw: Firewall, id: Seq<char>, seconds: u64, now: i64) -> bool {
    exists|i: int| 0 <= i < fw.rules.len() && (#[trigger] fw.rules@[i]).id@ == id
        && now > fw.rules@[i].created_at + seconds
}

/// Keeps the ids whose text differs from `id`.
pub open spec fn other_than(id: Seq<char>) -> spec_fn(String) -> bool {
    |x: String| x@ != id
}

/// Some element of `v` has text `x`.
pub open spec fn holds_text(v: Seq<String>, x: Seq<char>) -> bool {
    exists|j: int| 0 <= j < v.len() && (#[trigger] v[j])@ == x
}

/// Whether some element of `v` has the text of `x`.
pub fn contains_text(v: &Vec<String>, x: &String) -> (r: bool)
    ensures
        r == holds_text(v@, x@),
{
    let mut i: usize = 0;
    while i < v.len()
        invariant
            0 <= i <= v.len(),
            forall|j: int| 0 <= j < i ==> (#[trigger] v@[j])@ != x@,
        decreases v.len() - i,
    {
        if v[i] == *x {
            return true;
        }
        i = i + 1;
    }
    false
}

impl RuleEngine {
    /// The firewall request that rule `k` makes for `ip` in this tick: none unless
    /// `evaluate` calls for the rule's action, else the controller's plan for that action.
    pub fn plan_rule(&self, fw: &Firewall, ip: &Address, excluded: bool, k: usize, now: i64) -> (r: Option<Plan>)
        requires
            self.wf(),
            fw.wf(),
            k < self.rules.len(),
        ensures
            r is Some <==> (!excluded && !addr_in(self.rules@[k as int].exclude@, *ip)
                && exists|i: int| window_at(self.windows@, i, *ip) && fires(self.windows@[i].window, self.rules@[k as int])),
            r matches Some(p) ==> match self.rules@[k as int].action {
                Action::Ban { seconds } => ban_plan(*fw, *ip, seconds, now, p),
                Action::RateLimit { kbps, burst, seconds } => limit_plan(*fw, *ip, kbps, burst, seconds, now, p),
            },
    {
        match self.evaluate(ip, excluded, k) {
            None => None,
            Some(Action::Ban { seconds }) => Some(fw.ban(ip, seconds, now)),
            Some(Action::RateLimit { kbps, burst, seconds }) => Some(fw.limit(ip, kbps, burst, seconds, now)),
        }
    }

    /// Position of the id list of `ip`.
    pub fn find_handles(&self, ip: &Address) -> (r: Option<usize>)
        ensures
            r matches Some(i) ==> handles_at(self.handles@, i as int, *ip),
            r is None ==> forall|i: int| 0 <= i < self.handles.len() ==> !(#[trigger] self.handles@[i]).ip.same(ip),
    {
        let mut i: usize = 0;
        while i < self.handles.len()
            invariant
                0 <= i <= self.handles.len(),
                forall|j: int| 0 <= j < i ==> !(#[trigger] self.handles@[j]).ip.same(ip),
            decreases self.handles.len() - i,
        {
            if self.handles[i].ip.equals(ip) {
                return Some(i);
            }
            i = i + 1;
        }
        None
    }

    /// Appends `id` to the ids installed for `ip`.
    pub fn record_id(&mut self, ip: &Address, id: String)
        requires
            old(self).wf(),
        ensures
            final(self).wf(),
            final(self).rules == old(self).rules,
            final(self).windows == old(self).windows,
            final(self).state == old(self).state,
            (exists|i: int| handles_at(old(self).handles@, i, *ip)) ==> exists|i: int| {
                &&& handles_at(old(self).handles@, i, *ip)
                &&& final(self).handles@.len() == old(self).handles@.len()
                &&& forall|j: int| 0 <= j < old(self).handles.len() && j != i
                    ==> final(self).handles@[j] == old(self).handles@[j]
                &&& final(self).handles@[i].ip == old(self).handles@[i].ip
                &&& final(self).handles@[i].ids@ == old(self).handles@[i].ids@.push(id)
            },
            !(exists|i: int| handles_at(old(self).handles@, i, *ip)) ==> {
                &&& final(self).handles@.len() == old(self).handles@.len() + 1
                &&& final(self).handles@.drop_last() == old(self).handles@
                &&& final(self).handles@.last().ip == *ip
                &&& final(self).handles@.last().ids@ == seq![id]
            },
    {
        let ghost before = self.handles@;
        match self.find_handles(ip) {
            Some(i) => {
                let mut e = self.handles.remove(i);
                e.ids.push(id);
                self.handles.insert(i, e);
                assert forall|j: int| 0 <= j < before.len() && j != i implies self.handles@[j] == before[j] by {
                    if j < i {
                        assert(self.handles@[j] == before.remove(i as int)[j]);
                    } else {
                        assert(self.handles@[j] == before.remove(i as int)[j - 1]);
                    }
                }
                assert forall|a: int, b: int| 0 <= a < b < self.handles.len() implies
                    !(#[trigger] self.handles@[a]).ip.same(&(#[trigger] self.handles@[b]).ip) by {
                    assert(self.handles@[a].ip == before[a].ip);
                    assert(self.handles@[b].ip == before[b].ip);
                }
            },
            None => {
                let mut ids: Vec<String> = Vec::new();
                ids.push(id);
                self.handles.push(HandleEntry { ip: ip.copy(), ids });
                assert(self.handles@.drop_last() =~= before);
                assert(self.handles@.last().ids@ =~= seq![id]);
                assert forall|a: int, b: int| 0 <= a < b < self.handles.len() implies
                    !(#[trigger] self.handles@[a]).ip.same(&(#[trigger] self.handles@[b]).ip) by {
                    if b < before.len() {
                        assert(self.handles@[a] == before[a] && self.handles@[b] == before[b]);
                    } else {
                        assert(self.handles@[a] == before[a]);
                    }
                }
            },
        }
    }

    /// The ids installed for `ip` that rule `k`'s finite duration has run out on, as the
    /// controller's registry says, each once; none for an address that the controller or
    /// rule `k` excludes, and none for an indefinite action.
    pub fn expired_ids(&self, fw: &Firewall, ip: &Address, excluded: bool, k: usize, now: i64) -> (r: Vec<String>)
        requires
            self.wf(),
            fw.wf(),
            k < self.rules.len(),
        ensures
            (excluded || self.rules@[k as int].action.duration() is None
                || !(exists|i: int| handles_at(self.handles@, i, *ip))) ==> r@.len() == 0,
            addr_in(self.rules@[k as int].exclude@, *ip) ==> r@.len() == 0,
            forall|a: int, b: int| 0 <= a < b < r.len() ==> (#[trigger] r@[a])@ != (#[trigger] r@[b])@,
            (!excluded && !addr_in(self.rules@[k as int].exclude@, *ip)) ==> (self.rules@[k as int].action.duration() matches Some(s) ==> forall|i: int|
                handles_at(self.handles@, i, *ip) ==> {
                    &&& forall|x: int| 0 <= x < r.len() ==> holds_text(self.handles@[i].ids@, (#[trigger] r@[x])@)
                        && expired_in(*fw, r@[x]@, s, now)
                    &&& forall|j: int| 0 <= j < self.handles@[i].ids.len()
                        && expired_in(*fw, (#[trigger] self.handles@[i].ids@[j])@, s, now)
                        ==> holds_text(r@, self.handles@[i].ids@[j]@)
                }),
    {
        let mut out: Vec<String> = Vec::new();
        if excluded || self.rules[k].is_excluded(ip) {
            return out;
        }
        let s = match self.rules[k].action.seconds() {
            None => {
                return out;
            },
            Some(s) => s,
        };
        let hi = match self.find_handles(ip) {
            None => {
                return out;
            },
            Some(hi) => hi,
        };
        proof {
            assert forall|j: int| handles_at(self.handles@, j, *ip) implies j == hi by {
                if j < hi {
                    assert(!self.handles@[j].ip.same(&self.handles@[hi as int].ip));
                } else if j > hi {
                    assert(!self.handles@[hi as int].ip.same(&self.handles@[j].ip));
                }
            }
        }
        let ids = &self.handles[hi].ids;
        let mut j: usize = 0;
        while j < ids.len()
            invariant
                0 <= j <= ids.len(),
                fw.wf(),
                forall|x: int| 0 <= x < out.len() ==> holds_text(ids@, (#[trigger] out@[x])@)
                    && expired_in(*fw, out@[x]@, s, now),
                forall|y: int| 0 <= y < j && expired_in(*fw, (#[trigger] ids@[y])@, s, now)
                    ==> holds_text(out@, ids@[y]@),
                forall|a: int, b: int| 0 <= a < b < out.len() ==> (#[trigger] out@[a])@ != (#[trigger] out@[b])@,
            decreases ids.len() - j,
        {
            let expired = fw.is_expiration(&ids[j], s, now);
            if expired && !contains_text(&out, &ids[j]) {
                let ghost before = out@;
                out.push(ids[j].clone());
                assert(holds_text(ids@, out@[before.len() as int]@));
                assert forall|y: int| 0 <= y <= j && expired_in(*fw, (#[trigger] ids@[y])@, s, now)
                    implies holds_text(out@, ids@[y]@) by {
                    if y < j {
                        let w = choose|w: int| 0 <= w < before.len() && (#[trigger] before[w])@ == ids@[y]@;
                        assert(out@[w] == before[w]);
                    } else {
                        assert(out@[before.len() as int]@ == ids@[y]@);
                    }
                }
                assert forall|a: int, b: int| 0 <= a < b < out.len() implies (#[trigger] out@[a])@ != (#[trigger] out@[b])@ by {
                    if b < before.len() {
                        assert(out@[a] == before[a] && out@[b] == before[b]);
                    } else {
                        assert(out@[a] == before[a]);
                    }
                }
            } else if expired {
                assert(holds_text(out@, ids@[j as int]@));
            }
            j = j + 1;
        }
        out
    }

    /// Drops `id` from the ids installed for `ip`, once it was unblocked; the other ids
    /// keep their order.
    pub fn forget_id(&mut self, ip: &Address, id: &String)
        requires
            old(self).wf(),
        ensures
            final(self).wf(),
            final(self).rules == old(self).rules,
            final(self).windows == old(self).windows,
            final(self).state == old(self).state,
            final(self).handles.len() == old(self).handles.len(),
            forall|i: int| 0 <= i < old(self).handles.len() && !handles_at(old(self).handles@, i, *ip)
                ==> final(self).handles@[i] == old(self).handles@[i],
            forall|i: int| handles_at(old(self).handles@, i, *ip) ==> {
                &&& final(self).handles@[i].ip == old(self).handles@[i].ip
                &&& final(self).handles@[i].ids@ == old(self).handles@[i].ids@.filter(other_than(id@))
            },
    {
        let ghost before = self.handles@;
        let hi = match self.find_handles(ip) {
            None => {
                return;
            },
            Some(hi) => hi,
        };
        proof {
            assert forall|j: int| handles_at(before, j, *ip) implies j == hi by {
                if j < hi {
                    assert(!before[j].ip.same(&before[hi as int].ip));
                } else if j > hi {
                    assert(!before[hi as int].ip.same(&before[j].ip));
                }
            }
        }
        let e = self.handles.remove(hi);
        let mut kept: Vec<String> = Vec::new();
        let mut j: usize = 0;
        proof {
            reveal(Seq::filter);
            assert(e.ids@.subrange(0, 0).filter(other_than(id@)) =~= Seq::<String>::empty());
        }
        while j < e.ids.len()
            invariant
                0 <= j <= e.ids.len(),
                kept@ == e.ids@.subrange(0, j as int).filter(other_than(id@)),
            decreases e.ids.len() - j,
        {
            proof {
                reveal(Seq::filter);
                assert(e.ids@.subrange(0, j + 1).drop_last() =~= e.ids@.subrange(0, j as int));
                assert(e.ids@.subrange(0, j + 1).last() == e.ids@[j as int]);
            }
            if e.ids[j] != *id {
                kept.push(e.ids[j].clone());
            }
            j = j + 1;
        }
        assert(e.ids@.subrange(0, e.ids.len() as int) =~= e.ids@);
        self.handles.insert(hi, HandleEntry { ip: e.ip, ids: kept });
        assert forall|j: int| 0 <= j < before.len() && j != hi implies self.handles@[j] == before[j] by {
            if j < hi {
                assert(self.handles@[j] == before.remove(hi as int)[j]);
            } else {
                assert(self.handles@[j] == before.remove(hi as int)[j - 1]);
            }
        }
        assert forall|a: int, b: int| 0 <= a < b < self.handles.len() implies
            !(#[trigger] self.handles@[a]).ip.same(&(#[trigger] self.handles@[b]).ip) by {
            assert(self.handles@[a].ip == before[a].ip);
            assert(self.handles@[b].ip == before[b].ip);
        }
    }
}

} // verus!
