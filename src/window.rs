//! Per-address circular buffer of one-second byte samples.
use vstd::prelude::*;
use crate::types::MAX_WINDOW_BUFFER;

verus! {

/// Sum of the `w` slots of `buf` taken cyclically from index `start`.
pub open spec fn slot_sum(buf: Seq<u64>, start: int, w: nat) -> int
    decreases w,
{
    if w == 0 {
        0
    } else {
        slot_sum(buf, start, (w - 1) as nat) + buf[(start + w - 1) % buf.len() as int] as int
    }
}

/// First slot of a window of `w` seconds that ends just before write position `pos`.
pub open spec fn window_start(pos: int, len: int, w: int) -> int {
    (pos + len - w) % len
}

/// A circular buffer of samples, its write position, and the time of its last advance.
#[derive(Clone, Debug)]
pub struct Window {
    pub buffer: Vec<u64>,
    pub pos: usize,
    pub last_ts: i64,
}

impl Window {
    pub open spec fn wf(&self) -> bool {
        self.buffer.len() == MAX_WINDOW_BUFFER && self.pos < self.buffer.len()
    }

    /// The sum of the `w` most recent slots, as the evaluation reads them.
    pub open spec fn recent_sum(&self, w: nat) -> int {
        slot_sum(self.buffer@, window_start(self.pos as int, self.buffer.len() as int, w as int), w)
    }

    /// A zeroed window created at `now`.
    pub fn new(now: i64) -> (r: Window)
        ensures
            r.wf(),
            r.pos == 0,
            r.last_ts == now,
            forall|i: int| 0 <= i < r.buffer.len() ==> r.buffer[i] == 0,
    {
        let buffer: Vec<u64> = vec![0; MAX_WINDOW_BUFFER];
        Window { buffer, pos: 0, last_ts: now }
    }

    /// Takes the sample for `now`: when at least one whole second has passed since the last
    /// advance, the position moves one slot on and that slot is overwritten with `sample`.
    pub fn advance(&mut self, now: i64, sample: u64)
        requires
            old(self).wf(),
        ensures
            final(self).wf(),
            now - old(self).last_ts >= 1 ==> {
                &&& final(self).pos == (old(self).pos + 1) % (old(self).buffer.len() as int)
                &&& final(self).buffer@ == old(self).buffer@.update(final(self).pos as int, sample)
                &&& final(self).last_ts == now
            },
            now - old(self).last_ts < 1 ==> *final(self) == *old(self),
    {
        if now > self.last_ts {
            let len = self.buffer.len();
            self.pos = (self.pos + 1) % len;
            let p = self.pos;
            self.buffer.set(p, sample);
            self.last_ts = now;
        }
    }

    /// Sum of the `w` most recent slots, read cyclically from `(pos + len - w) % len`.
    pub fn sum_recent(&self, w: usize) -> (r: u128)
        requires
            self.wf(),
            1 <= w <= self.buffer.len(),
        ensures
            r == self.recent_sum(w as nat),
            r <= w * 0xFFFF_FFFF_FFFF_FFFFu64,
    {
        let len = self.buffer.len();
        let start = (self.pos + len - w) % len;
        let mut acc: u128 = 0;
        let mut i: usize = 0;
        while i < w
            invariant
                self.wf(),
                len == self.buffer.len(),
                1 <= w <= len,
                start == window_start(self.pos as int, len as int, w as int),
                0 <= i <= w,
                acc == slot_sum(self.buffer@, start as int, i as nat),
                acc <= i * 0xFFFF_FFFF_FFFF_FFFFu64,
            decreases w - i,
        {
            let idx = (start + i) % len;
            acc = acc + self.buffer[idx] as u128;
            i = i + 1;
            assert(acc == slot_sum(self.buffer@, start as int, i as nat));
        }
        acc
    }

    /// Average bytes per second over the `w` most recent slots, truncating.
    pub fn average(&self, w: u64) -> (r: u64)
        requires
            self.wf(),
            1 <= w <= self.buffer.len(),
        ensures
            r == self.recent_sum(w as nat) / (w as int),
    {
        let sum = self.sum_recent(w as usize);
        let wide = w as u128;
        let avg = sum / wide;
        assert(avg <= 0xFFFF_FFFF_FFFF_FFFFu64) by (nonlinear_arith)
            requires
                sum <= w * 0xFFFF_FFFF_FFFF_FFFFu64,
                wide == w,
                w >= 1,
                avg == sum / wide,
        ;
        avg as u64
    }
}

} // verus!
