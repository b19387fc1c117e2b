use vstd::prelude::*;

verus! {

/// The three kinds of on-chain write that the relay performs.
#[derive(Clone, Copy, Debug, PartialEq, Eq, Structural)]
pub enum TxKind {
    Drand,
    Commitment,
    Reveal,
}

/// An on-chain operation waiting in the transaction queue.
#[derive(Debug)]
pub enum QueuedTransaction {
    Drand { timestamp: u64, value: String },
    Commitment { timestamp: u64, value: String },
    Reveal { timestamp: u64, value: String },
}

impl QueuedTransaction {
    pub open spec fn kind_spec(&self) -> TxKind {
        match self {
            QueuedTransaction::Drand { .. } => TxKind::Drand,
            QueuedTransaction::Commitment { .. } => TxKind::Commitment,
            QueuedTransaction::Reveal { .. } => TxKind::Reveal,
        }
    }

    pub open spec fn timestamp_spec(&self) -> u64 {
        match self {
            QueuedTransaction::Drand { timestamp, .. } => *timestamp,
            QueuedTransaction::Commitment { timestamp, .. } => *timestamp,
            QueuedTransaction::Reveal { timestamp, .. } => *timestamp,
        }
    }

    pub open spec fn value_spec(&self) -> Seq<char> {
        match self {
            QueuedTransaction::Drand { value, .. } => value@,
            QueuedTransaction::Commitment { value, .. } => value@,
            QueuedTransaction::Reveal { value, .. } => value@,
        }
    }

    /// Builds a transaction of the given kind.
    pub fn new(kind: TxKind, timestamp: u64, value: String) -> (r: QueuedTransaction)
        ensures
            r.kind_spec() == kind,
            r.timestamp_spec() == timestamp,
            r.value_spec() == value@,
    {
        match kind {
            TxKind::Drand => QueuedTransaction::Drand { timestamp, value },
            TxKind::Commitment => QueuedTransaction::Commitment { timestamp, value },
            TxKind::Reveal => QueuedTransaction::Reveal { timestamp, value },
        }
    }

    pub fn kind(&self) -> (r: TxKind)
        ensures
            r == self.kind_spec(),
    {
        match self {
            QueuedTransaction::Drand { .. } => TxKind::Drand,
            QueuedTransaction::Commitment { .. } => TxKind::Commitment,
            QueuedTransaction::Reveal { .. } => TxKind::Reveal,
        }
    }

    pub fn timestamp(&self) -> (r: u64)
        ensures
            r == self.timestamp_spec(),
    {
        match self {
            QueuedTransaction::Drand { timestamp, .. } => *timestamp,
            QueuedTransaction::Commitment { timestamp, .. } => *timestamp,
            QueuedTransaction::Reveal { timestamp, .. } => *timestamp,
        }
    }

    pub fn value(&self) -> (r: &String)
        ensures
            r@ == self.value_spec(),
    {
        match self {
            QueuedTransaction::Drand { value, .. } => value,
            QueuedTransaction::Commitment { value, .. } => value,
            QueuedTransaction::Reveal { value, .. } => value,
        }
    }

    /// A copy of this transaction, field for field.
    pub fn duplicate(&self) -> (r: QueuedTransaction)
        ensures
            r.kind_spec() == self.kind_spec(),
            r.timestamp_spec() == self.timestamp_spec(),
            r.value_spec() == self.value_spec(),
    {
        QueuedTransaction::new(self.kind(), self.timestamp(), self.value().clone())
    }
}

/// A queued transaction together with the number of submissions of it that
/// failed transiently so far.
#[derive(Debug)]
pub struct QueueEntry {
    pub tx: QueuedTransaction,
    pub attempts: u32,
}

/// Whether some entry of `q` is a transaction of `kind` for `timestamp`.
pub open spec fn queued_in(q: Seq<QueueEntry>, kind: TxKind, timestamp: u64) -> bool {
    exists|i: int|
        0 <= i < q.len() && #[trigger] q[i].tx.kind_spec() == kind && q[i].tx.timestamp_spec()
            == timestamp
}

/// No two entries of `q` are for the same kind and timestamp.
pub open spec fn unique_entries(q: Seq<QueueEntry>) -> bool {
    forall|i: int, j: int|
        0 <= i < q.len() && 0 <= j < q.len() && i != j ==> !(#[trigger] q[i].tx.kind_spec()
            == #[trigger] q[j].tx.kind_spec() && q[i].tx.timestamp_spec()
            == q[j].tx.timestamp_spec())
}

/// Some transaction of `f` is of `kind` for `timestamp`.
pub open spec fn failed_in(f: Seq<QueuedTransaction>, kind: TxKind, timestamp: u64) -> bool {
    exists|i: int|
        0 <= i < f.len() && #[trigger] f[i].kind_spec() == kind && f[i].timestamp_spec() == timestamp
}

/// Scans a list of transactions for one of `kind` for `timestamp`.
pub fn has_failed(f: &Vec<QueuedTransaction>, kind: TxKind, timestamp: u64) -> (r: bool)
    ensures
        r == failed_in(f@, kind, timestamp),
{
    let mut i: usize = 0;
    while i < f.len()
        invariant
            0 <= i <= f.len(),
            forall|k: int|
                0 <= k < i ==> !(#[trigger] f@[k].kind_spec() == kind && f@[k].timestamp_spec()
                    == timestamp),
        decreases f.len() - i,
    {
        if f[i].kind() == kind && f[i].timestamp() == timestamp {
            return true;
        }
        i = i + 1;
    }
    false
}

/// Appending an entry keeps every entry that was queued.
pub proof fn lemma_push_keeps_queued(q: Seq<QueueEntry>, e: QueueEntry)
    ensures
        forall|kind: TxKind, t: u64|
            queued_in(q, kind, t) ==> #[trigger] queued_in(q.push(e), kind, t),
        queued_in(q.push(e), e.tx.kind_spec(), e.tx.timestamp_spec()),
{
    assert forall|kind: TxKind, t: u64| queued_in(q, kind, t) implies #[trigger] queued_in(
        q.push(e),
        kind,
        t,
    ) by {
        let i = choose|i: int|
            0 <= i < q.len() && #[trigger] q[i].tx.kind_spec() == kind && q[i].tx.timestamp_spec()
                == t;
        assert(q.push(e)[i] == q[i]);
    }
    assert(q.push(e)[q.len() as int] == e);
}

/// Every entry of a queue is still queued in a queue that extends it.
pub proof fn lemma_prefix_keeps_queued(q: Seq<QueueEntry>, r: Seq<QueueEntry>)
    requires
        q.len() <= r.len(),
        r.subrange(0, q.len() as int) == q,
    ensures
        forall|kind: TxKind, t: u64| queued_in(q, kind, t) ==> #[trigger] queued_in(r, kind, t),
{
    assert forall|kind: TxKind, t: u64| queued_in(q, kind, t) implies #[trigger] queued_in(
        r,
        kind,
        t,
    ) by {
        let i = choose|i: int|
            0 <= i < q.len() && #[trigger] q[i].tx.kind_spec() == kind && q[i].tx.timestamp_spec()
                == t;
        assert(r[i] == r.subrange(0, q.len() as int)[i]);
    }
}

/// Taking the head off a queue of unique entries leaves unique entries, none
/// of them for the head's kind and timestamp.
pub proof fn lemma_unique_tail(q: Seq<QueueEntry>)
    requires
        unique_entries(q),
        q.len() > 0,
    ensures
        unique_entries(q.subrange(1, q.len() as int)),
        !queued_in(q.subrange(1, q.len() as int), q[0].tx.kind_spec(), q[0].tx.timestamp_spec()),
{
    let tail = q.subrange(1, q.len() as int);
    assert forall|a: int, b: int|
        0 <= a < tail.len() && 0 <= b < tail.len() && a != b implies !(
        #[trigger] tail[a].tx.kind_spec() == #[trigger] tail[b].tx.kind_spec()
            && tail[a].tx.timestamp_spec() == tail[b].tx.timestamp_spec()) by {
        assert(tail[a] == q[a + 1]);
        assert(tail[b] == q[b + 1]);
    }
    if queued_in(tail, q[0].tx.kind_spec(), q[0].tx.timestamp_spec()) {
        let i = choose|i: int|
            0 <= i < tail.len() && #[trigger] tail[i].tx.kind_spec() == q[0].tx.kind_spec()
                && tail[i].tx.timestamp_spec() == q[0].tx.timestamp_spec();
        assert(tail[i] == q[i + 1]);
    }
}

/// Replacing an entry by one with the same transaction keeps entries unique.
pub proof fn lemma_unique_update_same_tx(q: Seq<QueueEntry>, i: int, e: QueueEntry)
    requires
        unique_entries(q),
        0 <= i < q.len(),
        e.tx == q[i].tx,
    ensures
        unique_entries(q.update(i, e)),
{
    let u = q.update(i, e);
    assert forall|a: int, b: int|
        0 <= a < u.len() && 0 <= b < u.len() && a != b implies !(
        #[trigger] u[a].tx.kind_spec() == #[trigger] u[b].tx.kind_spec()
            && u[a].tx.timestamp_spec() == u[b].tx.timestamp_spec()) by {
        assert(u[a].tx == q[a].tx);
        assert(u[b].tx == q[b].tx);
    }
}

/// Scans the queue for a transaction of `kind` for `timestamp`.
pub fn is_queued(q: &Vec<QueueEntry>, kind: TxKind, timestamp: u64) -> (r: bool)
    ensures
        r == queued_in(q@, kind, timestamp),
{
    let mut i: usize = 0;
    while i < q.len()
        invariant
            0 <= i <= q.len(),
            forall|k: int|
                0 <= k < i ==> !(#[trigger] q@[k].tx.kind_spec() == kind && q@[k].tx.timestamp_spec()
                    == timestamp),
        decreases q.len() - i,
    {
        if q[i].tx.kind() == kind && q[i].tx.timestamp() == timestamp {
            return true;
        }
        i = i + 1;
    }
    false
}

} // verus!
