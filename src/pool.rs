//! Bookkeeping of the executor pool: which slot serves the next command, and when a slot's
//! child process must be replaced. Spawning and talking to the children is the caller's.
use vstd::prelude::*;
use crate::types::FwError;

verus! {

/// A slot's child process: when it was born, how many commands it served, whether it exited.
#[derive(Clone, Copy, Debug, PartialEq, Eq, Structural)]
pub struct Child {
    pub born: i64,
    pub commands_issued: u64,
    pub exited: bool,
}

/// One slot of the pool.
#[derive(Clone, Copy, Debug, PartialEq, Eq, Structural)]
pub struct Slot {
    pub child: Option<Child>,
    pub busy: bool,
}

/// A child that is too old, has too little of its command budget left for `n` more
/// commands, or has exited must be replaced.
pub open spec fn worn_out(c: Child, max_age: u64, max_commands: u64, now: i64, n: u64) -> bool {
    now - c.born > max_age || c.commands_issued + n > max_commands || c.exited
}

/// A child that may serve `n` more commands at `now`.
pub open spec fn usable(c: Child, max_age: u64, max_commands: u64, now: i64, n: u64) -> bool {
    now - c.born <= max_age && c.commands_issued + n <= max_commands && !c.exited
}

/// Number of idle slots.
pub open spec fn idle_count(slots: Seq<Slot>) -> nat
    decreases slots.len(),
{
    if slots.len() == 0 {
        0
    } else {
        idle_count(slots.drop_last()) + (if slots.last().busy { 0nat } else { 1nat })
    }
}

/// The pool's slots and budgets.
pub struct ExecutorPool {
    pub max_process_age: u64,
    pub max_commands_per_process: u64,
    pub slots: Vec<Slot>,
}

/// What `acquire` hands out: a slot, and whether a new child must be spawned into it
/// (the old one, if any, to be closed first).
#[derive(Clone, Copy, Debug, PartialEq, Eq, Structural)]
pub struct Lease {
    pub slot: usize,
    pub spawn: bool,
}

impl ExecutorPool {
    pub open spec fn wf(&self) -> bool {
        &&& self.max_commands_per_process >= 1
        &&& forall|i: int| 0 <= i < self.slots.len() ==> ((#[trigger] self.slots@[i]).child matches Some(c)
            ==> c.commands_issued <= self.max_commands_per_process)
    }

    /// A pool of `max_pool_size` empty slots; `InvalidInput` when the size or the command
    /// budget is zero.
    pub fn new(max_pool_size: u64, max_process_age: u64, max_commands_per_process: u64) -> (r: Result<ExecutorPool, FwError>)
        requires
            max_pool_size <= usize::MAX,
        ensures
            (max_pool_size >= 1 && max_commands_per_process >= 1) <==> r is Ok,
            r is Err ==> r == Err::<ExecutorPool, FwError>(FwError::InvalidInput),
            r matches Ok(p) ==> {
                &&& p.wf()
                &&& p.slots.len() == max_pool_size
                &&& p.max_process_age == max_process_age
                &&& p.max_commands_per_process == max_commands_per_process
                &&& forall|i: int| 0 <= i < p.slots.len() ==> (#[trigger] p.slots@[i]) == (Slot { child: None, busy: false })
            },
    {
        if max_pool_size == 0 || max_commands_per_process == 0 {
            return Err(FwError::InvalidInput);
        }
        let n = max_pool_size as usize;
        let mut slots: Vec<Slot> = Vec::new();
        let mut i: usize = 0;
        while i < n
            invariant
                0 <= i <= n,
                slots.len() == i,
                forall|j: int| 0 <= j < i ==> (#[trigger] slots@[j]) == (Slot { child: None, busy: false }),
            decreases n - i,
        {
            slots.push(Slot { child: None, busy: false });
            i = i + 1;
        }
        Ok(ExecutorPool { max_process_age, max_commands_per_process, slots })
    }

    /// Whether the child must be replaced before it serves `n` more commands.
    pub fn must_recycle(&self, c: &Child, now: i64, n: u64) -> (r: bool)
        ensures
            r == worn_out(*c, self.max_process_age, self.max_commands_per_process, now, n),
    {
        (now as i128) - (c.born as i128) > self.max_process_age as i128
            || (c.commands_issued as u128) + (n as u128) > self.max_commands_per_process as u128 || c.exited
    }

    /// Takes an idle slot for a batch of `n` commands. A slot that is empty or whose child
    /// cannot serve `n` more commands now gets a fresh child born at `now`. `Ok(None)` when
    /// every slot is busy; `InvalidInput` when `n` is zero or over the per-process budget.
    pub fn acquire(&mut self, now: i64, n: u64) -> (r: Result<Option<Lease>, FwError>)
        requires
            old(self).wf(),
        ensures
            final(self).wf(),
            final(self).max_process_age == old(self).max_process_age,
            final(self).max_commands_per_process == old(self).max_commands_per_process,
            final(self).slots.len() == old(self).slots.len(),
            (n == 0 || n > old(self).max_commands_per_process) <==> r is Err,
            r is Err ==> r == Err::<Option<Lease>, FwError>(FwError::InvalidInput) && final(self).slots@ == old(self).slots@,
            r is Ok ==> ((r == Ok::<Option<Lease>, FwError>(None)) <==> forall|i: int| 0 <= i < old(self).slots.len() ==> (#[trigger] old(self).slots@[i]).busy),
            r == Ok::<Option<Lease>, FwError>(None) ==> final(self).slots@ == old(self).slots@,
            r matches Ok(Some(l)) ==> {
                &&& l.slot < old(self).slots.len()
                &&& !old(self).slots@[l.slot as int].busy
                &&& final(self).slots@[l.slot as int].busy
                &&& final(self).slots@[l.slot as int].child matches Some(c)
                    && usable(c, final(self).max_process_age, final(self).max_commands_per_process, now, n)
                &&& l.spawn <==> (old(self).slots@[l.slot as int].child matches Some(oc)
                    ==> worn_out(oc, old(self).max_process_age, old(self).max_commands_per_process, now, n))
                &&& !l.spawn ==> final(self).slots@[l.slot as int].child == old(self).slots@[l.slot as int].child
                &&& l.spawn ==> final(self).slots@[l.slot as int].child == Some(Child { born: now, commands_issued: 0, exited: false })
                &&& forall|j: int| 0 <= j < old(self).slots.len() && j != l.slot ==> final(self).slots@[j] == old(self).slots@[j]
            },
    {
        if n == 0 || n > self.max_commands_per_process {
            return Err(FwError::InvalidInput);
        }
        let mut i: usize = 0;
        while i < self.slots.len()
            invariant
                0 <= i <= self.slots.len(),
                1 <= n <= self.max_commands_per_process,
                *self == *old(self),
                self.wf(),
                forall|j: int| 0 <= j < i ==> (#[trigger] self.slots@[j]).busy,
            decreases self.slots.len() - i,
        {
            if !self.slots[i].busy {
                let slot = self.slots[i];
                let spawn = match slot.child {
                    None => true,
                    Some(c) => self.must_recycle(&c, now, n),
                };
                let child = if spawn {
                    Child { born: now, commands_issued: 0, exited: false }
                } else {
                    slot.child.unwrap()
                };
                self.slots.set(i, Slot { child: Some(child), busy: true });
                return Ok(Some(Lease { slot: i, spawn }));
            }
            i = i + 1;
        }
        Ok(None)
    }

    /// Counts `n` commands served by the child of a held slot.
    pub fn record_commands(&mut self, slot: usize, n: u64)
        requires
            old(self).wf(),
            slot < old(self).slots.len(),
            old(self).slots@[slot as int].child matches Some(c)
                && c.commands_issued + n <= old(self).max_commands_per_process,
        ensures
            final(self).wf(),
            final(self).max_process_age == old(self).max_process_age,
            final(self).max_commands_per_process == old(self).max_commands_per_process,
            final(self).slots.len() == old(self).slots.len(),
            final(self).slots@[slot as int].busy == old(self).slots@[slot as int].busy,
            final(self).slots@[slot as int].child matches Some(c) && old(self).slots@[slot as int].child matches Some(oc)
                && c == (Child { commands_issued: (oc.commands_issued + n) as u64, ..oc }),
            forall|j: int| 0 <= j < old(self).slots.len() && j != slot ==> final(self).slots@[j] == old(self).slots@[j],
    {
        let s = self.slots[slot];
        let c = s.child.unwrap();
        let c2 = Child { commands_issued: c.commands_issued + n, ..c };
        self.slots.set(slot, Slot { child: Some(c2), busy: s.busy });
    }

    /// Marks the child of a slot as exited, so that it is replaced at the next acquisition.
    pub fn mark_exited(&mut self, slot: usize)
        requires
            old(self).wf(),
            slot < old(self).slots.len(),
        ensures
            final(self).wf(),
            final(self).max_process_age == old(self).max_process_age,
            final(self).max_commands_per_process == old(self).max_commands_per_process,
            final(self).slots.len() == old(self).slots.len(),
            final(self).slots@[slot as int].busy == old(self).slots@[slot as int].busy,
            old(self).slots@[slot as int].child matches Some(oc) ==> final(self).slots@[slot as int].child
                == Some(Child { exited: true, ..oc }),
            old(self).slots@[slot as int].child is None ==> final(self).slots@[slot as int].child is None,
            forall|j: int| 0 <= j < old(self).slots.len() && j != slot ==> final(self).slots@[j] == old(self).slots@[j],
    {
        let s = self.slots[slot];
        let child = match s.child {
            Some(c) => Some(Child { exited: true, ..c }),
            None => None,
        };
        self.slots.set(slot, Slot { child, busy: s.busy });
    }

    /// Returns a held slot to the pool.
    pub fn release(&mut self, slot: usize)
        requires
            old(self).wf(),
            slot < old(self).slots.len(),
        ensures
            final(self).wf(),
            final(self).max_process_age == old(self).max_process_age,
            final(self).max_commands_per_process == old(self).max_commands_per_process,
            final(self).slots@ == old(self).slots@.update(slot as int, Slot { busy: false, ..old(self).slots@[slot as int] }),
    {
        let s = self.slots[slot];
        self.slots.set(slot, Slot { busy: false, ..s });
    }

    /// Empties every slot, as when the pool is drained.
    pub fn cleanup(&mut self)
        requires
            old(self).wf(),
        ensures
            final(self).wf(),
            final(self).max_process_age == old(self).max_process_age,
            final(self).max_commands_per_process == old(self).max_commands_per_process,
            final(self).slots.len() == old(self).slots.len(),
            forall|i: int| 0 <= i < final(self).slots.len() ==> (#[trigger] final(self).slots@[i]) == (Slot { child: None, busy: false }),
    {
        let n = self.slots.len();
        let mut i: usize = 0;
        while i < n
            invariant
                0 <= i <= n,
                n == self.slots.len(),
                self.max_commands_per_process >= 1,
                self.max_process_age == old(self).max_process_age,
                self.max_commands_per_process == old(self).max_commands_per_process,
                forall|j: int| 0 <= j < i ==> (#[trigger] self.slots@[j]) == (Slot { child: None, busy: false }),
                forall|j: int| 0 <= j < n ==> ((#[trigger] self.slots@[j]).child matches Some(c)
                    ==> c.commands_issued <= self.max_commands_per_process),
            decreases n - i,
        {
            self.slots.set(i, Slot { child: None, busy: false });
            i = i + 1;
        }
    }

    /// `(size, available)`: the number of slots and of idle ones.
    pub fn get_pool_stats(&self) -> (r: (usize, usize))
        ensures
            r.0 == self.slots.len(),
            r.1 == idle_count(self.slots@),
    {
        let mut free: usize = 0;
        let mut i: usize = 0;
        while i < self.slots.len()
            invariant
                0 <= i <= self.slots.len(),
                free <= i,
                free == idle_count(self.slots@.subrange(0, i as int)),
            decreases self.slots.len() - i,
        {
            assert(self.slots@.subrange(0, i + 1).drop_last() =~= self.slots@.subrange(0, i as int));
            if !self.slots[i].busy {
                free = free + 1;
            }
            i = i + 1;
        }
        assert(self.slots@.subrange(0, self.slots.len() as int) =~= self.slots@);
        (self.slots.len(), free)
    }
}

} // verus!
