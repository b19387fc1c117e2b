use vstd::prelude::*;

verus! {

/// A fixed schedule of rounds: round 1 falls at `genesis`, and each next
/// round `period` seconds later.
#[derive(Clone, Copy, Debug, PartialEq, Eq, Structural)]
pub struct Schedule {
    pub genesis: u64,
    pub period: u64,
}

impl Schedule {
    pub open spec fn wf(&self) -> bool {
        self.period > 0
    }

    /// Timestamp of the round with zero-based index `k`.
    pub open spec fn slot(&self, k: int) -> int {
        self.genesis + k * self.period
    }

    /// Zero-based index of the latest round due at `current`; meaningful when
    /// `current >= genesis`.
    pub open spec fn last_index(&self, current: u64) -> int {
        (current - self.genesis) / (self.period as int)
    }

    /// How many rounds `due_timestamps` reports: the rounds due at `current`,
    /// at most `lookback` of them.
    pub open spec fn due_count(&self, current: u64, lookback: u64) -> int {
        if current < self.genesis {
            0
        } else if lookback <= self.last_index(current) {
            lookback as int
        } else {
            self.last_index(current) + 1
        }
    }

    /// The timestamps of the latest `lookback` rounds due at `current`, oldest
    /// first: the rounds a reconciler pass looks at.
    pub open spec fn due_spec(&self, current: u64, lookback: u64) -> Seq<int> {
        let n = self.due_count(current, lookback);
        let first = self.last_index(current) + 1 - n;
        Seq::new(n as nat, |i: int| self.slot(first + i))
    }

    pub fn new(genesis: u64, period: u64) -> (r: Schedule)
        requires
            period > 0,
        ensures
            r.wf(),
            r.genesis == genesis,
            r.period == period,
    {
        Schedule { genesis, period }
    }

    /// The beacon's round number for a scheduled timestamp: rounds count
    /// from 1 at `genesis`.
    pub fn round_at(&self, timestamp: u64) -> (r: u64)
        requires
            self.wf(),
            timestamp >= self.genesis,
            (timestamp - self.genesis) / (self.period as int) < u64::MAX,
        ensures
            r == (timestamp - self.genesis) / (self.period as int) + 1,
    {
        (timestamp - self.genesis) / self.period + 1
    }

    /// Lists the timestamps of the latest `lookback` rounds due at `current`,
    /// oldest first.
    pub fn due_timestamps(&self, current: u64, lookback: u64) -> (r: Vec<u64>)
        requires
            self.wf(),
        ensures
            r@.len() == self.due_count(current, lookback),
            forall|i: int| 0 <= i < r@.len() ==> r@[i] as int == #[trigger] self.due_spec(current, lookback)[i],
    {
        let mut r: Vec<u64> = Vec::new();
        if current < self.genesis {
            return r;
        }
        let last = (current - self.genesis) / self.period;
        let n: u64 = if lookback <= last { lookback } else { last + 1 };
        if n == 0 {
            return r;
        }
        let first = last - (n - 1);
        proof {
            assert(last * self.period <= current - self.genesis) by (nonlinear_arith)
                requires
                    self.period > 0,
                    last == (current - self.genesis) / (self.period as int),
                    current - self.genesis >= 0,
            ;
        }
        let mut i: u64 = 0;
        while i < n
            invariant
                self.wf(),
                current >= self.genesis,
                last == self.last_index(current),
                n == self.due_count(current, lookback),
                first == last + 1 - n,
                last * self.period <= current - self.genesis,
                0 <= i <= n,
                r@.len() == i,
                forall|k: int| 0 <= k < i ==> r@[k] as int == #[trigger] self.due_spec(current, lookback)[k],
            decreases n - i,
        {
            let k = first + i;
            proof {
                assert(k * self.period <= last * self.period) by (nonlinear_arith)
                    requires
                        k <= last,
                ;
            }
            let t = self.genesis + k * self.period;
            r.push(t);
            i = i + 1;
        }
        r
    }
}

} // verus!
