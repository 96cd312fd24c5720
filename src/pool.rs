//! A bounded pool of download tasks: every task is queued at once, at most
//! `capacity` of them run at a time, and each ends with its own outcome.
use vstd::prelude::*;

verus! {

#[derive(Clone, Copy, Debug, PartialEq, Eq, Structural)]
pub enum Outcome {
    Skipped,
    Completed,
    Failed,
}

#[derive(Clone, Copy, Debug, PartialEq, Eq, Structural)]
pub enum Slot {
    Queued,
    Running,
    Done(Outcome),
}

pub open spec fn is_running(s: Slot) -> bool {
    s == Slot::Running
}

/// Number of running tasks.
pub open spec fn count_running(s: Seq<Slot>) -> nat
    decreases s.len(),
{
    if s.len() == 0 {
        0
    } else {
        count_running(s.drop_last()) + if is_running(s.last()) { 1nat } else { 0nat }
    }
}

/// Position of the first queued task at or after `from`, if any.
pub open spec fn first_queued_from(s: Seq<Slot>, from: int) -> Option<int>
    decreases s.len() - from,
{
    if from < 0 || from >= s.len() {
        None
    } else if s[from] == Slot::Queued {
        Some(from)
    } else {
        first_queued_from(s, from + 1)
    }
}

pub open spec fn first_queued(s: Seq<Slot>) -> Option<int> {
    first_queued_from(s, 0)
}

pub struct DownloadPool {
    capacity: usize,
    slots: Vec<Slot>,
    running: usize,
}

proof fn lemma_count_update(s: Seq<Slot>, i: int, v: Slot)
    requires
        0 <= i < s.len(),
    ensures
        count_running(s.update(i, v)) + (if is_running(s[i]) { 1int } else { 0int })
            == count_running(s) + (if is_running(v) { 1int } else { 0int }),
    decreases s.len(),
{
    let u = s.update(i, v);
    if i == s.len() - 1 {
        assert(u.drop_last() =~= s.drop_last());
    } else {
        lemma_count_update(s.drop_last(), i, v);
        assert(u.drop_last() =~= s.drop_last().update(i, v));
    }
}

proof fn lemma_count_all_queued(n: nat)
    ensures
        count_running(Seq::new(n, |i: int| Slot::Queued)) == 0,
    decreases n,
{
    if n > 0 {
        lemma_count_all_queued((n - 1) as nat);
        assert(Seq::new(n, |i: int| Slot::Queued).drop_last() =~= Seq::new(
            (n - 1) as nat,
            |i: int| Slot::Queued,
        ));
    }
}

proof fn lemma_first_queued_facts(s: Seq<Slot>, from: int)
    requires
        0 <= from,
    ensures
        first_queued_from(s, from) matches Some(i) ==> from <= i < s.len() && s[i] == Slot::Queued
            && forall|k: int| from <= k < i ==> s[k] != Slot::Queued,
        first_queued_from(s, from) is None ==> forall|k: int| from <= k < s.len() ==> s[k] != Slot::Queued,
    decreases s.len() - from,
{
    if from < s.len() && s[from] != Slot::Queued {
        lemma_first_queued_facts(s, from + 1);
    }
}

impl DownloadPool {
    pub closed spec fn capacity_spec(&self) -> nat {
        self.capacity as nat
    }

    pub closed spec fn slots_spec(&self) -> Seq<Slot> {
        self.slots@
    }

    pub open spec fn wf(&self) -> bool {
        count_running(self.slots_spec()) <= self.capacity_spec()
    }

    pub closed spec fn inv(&self) -> bool {
        &&& self.wf()
        &&& self.running as nat == count_running(self.slots@)
    }

    /// A pool of `n` queued tasks that runs at most `capacity` at a time.
    pub fn new(n: usize, capacity: usize) -> (r: DownloadPool)
        ensures
            r.inv(),
            r.capacity_spec() == capacity,
            r.slots_spec() == Seq::new(n as nat, |i: int| Slot::Queued),
    {
        let mut slots: Vec<Slot> = Vec::new();
        let mut i: usize = 0;
        while i < n
            invariant
                i <= n,
                slots@ == Seq::new(i as nat, |k: int| Slot::Queued),
            decreases n - i,
        {
            slots.push(Slot::Queued);
            i = i + 1;
            assert(slots@ =~= Seq::new(i as nat, |k: int| Slot::Queued));
        }
        proof {
            lemma_count_all_queued(n as nat);
        }
        DownloadPool { capacity, slots, running: 0 }
    }

    pub fn len(&self) -> (r: usize)
        ensures
            r == self.slots_spec().len(),
    {
        self.slots.len()
    }

    pub fn slot(&self, i: usize) -> (r: Slot)
        requires
            i < self.slots_spec().len(),
        ensures
            r == self.slots_spec()[i as int],
    {
        self.slots[i]
    }

    pub fn running_count(&self) -> (r: usize)
        requires
            self.inv(),
        ensures
            r == count_running(self.slots_spec()),
    {
        self.running
    }

    /// Starts the first queued task where fewer than `capacity` run, and
    /// returns its position; returns `None` and changes nothing otherwise.
    pub fn start_next(&mut self) -> (r: Option<usize>)
        requires
            old(self).inv(),
        ensures
            final(self).inv(),
            final(self).capacity_spec() == old(self).capacity_spec(),
            count_running(old(self).slots_spec()) < old(self).capacity_spec() && first_queued(
                old(self).slots_spec(),
            ) is Some ==> r == Some(first_queued(old(self).slots_spec())->0 as usize)
                && final(self).slots_spec() == old(self).slots_spec().update(
                r->0 as int,
                Slot::Running,
            ),
            !(count_running(old(self).slots_spec()) < old(self).capacity_spec() && first_queued(
                old(self).slots_spec(),
            ) is Some) ==> r is None && final(self).slots_spec() == old(self).slots_spec(),
    {
        proof {
            lemma_first_queued_facts(self.slots@, 0);
        }
        if self.running >= self.capacity {
            return None;
        }
        let mut i: usize = 0;
        while i < self.slots.len()
            invariant
                self.inv(),
                self.running < self.capacity,
                i <= self.slots@.len(),
                first_queued(self.slots@) == first_queued_from(self.slots@, i as int),
                self.slots@ == old(self).slots@,
                self.capacity == old(self).capacity,
            decreases self.slots@.len() - i,
        {
            if self.slots[i] == Slot::Queued {
                proof {
                    lemma_count_update(self.slots@, i as int, Slot::Running);
                }
                self.slots.set(i, Slot::Running);
                self.running = self.running + 1;
                return Some(i);
            }
            i = i + 1;
        }
        None
    }

    /// Records the outcome of a running task and frees its place.
    pub fn finish(&mut self, i: usize, outcome: Outcome)
        requires
            old(self).inv(),
            i < old(self).slots_spec().len(),
            old(self).slots_spec()[i as int] == Slot::Running,
        ensures
            final(self).inv(),
            final(self).capacity_spec() == old(self).capacity_spec(),
            final(self).slots_spec() == old(self).slots_spec().update(i as int, Slot::Done(outcome)),
    {
        proof {
            lemma_count_update(self.slots@, i as int, Slot::Done(outcome));
        }
        self.slots.set(i, Slot::Done(outcome));
        self.running = self.running - 1;
    }

    /// True when no task is queued or running.
    pub fn is_drained(&self) -> (r: bool)
        ensures
            r == forall|k: int| 0 <= k < self.slots_spec().len() ==> self.slots_spec()[k] is Done,
    {
        let mut i: usize = 0;
        while i < self.slots.len()
            invariant
                i <= self.slots@.len(),
                forall|k: int| 0 <= k < i ==> self.slots@[k] is Done,
            decreases self.slots@.len() - i,
        {
            match self.slots[i] {
                Slot::Done(_) => {},
                _ => return false,
            }
            i = i + 1;
        }
        true
    }
}

/// However tasks are started and finished, no more than `capacity` of them
/// run at once: every pool that `new`, `start_next` and `finish` hand back
/// keeps the count of running tasks within its capacity.
pub proof fn lemma_running_within_capacity(p: DownloadPool)
    requires
        p.inv(),
    ensures
        count_running(p.slots_spec()) <= p.capacity_spec(),
{
}

/// A failed task does not hold back the others: their states are kept, its
/// place is freed for a queued task, and a task still running may
/// afterwards complete.
pub proof fn lemma_failure_is_isolated(p: DownloadPool, i: int, j: int)
    requires
        p.wf(),
        0 <= i < p.slots_spec().len(),
        0 <= j < p.slots_spec().len(),
        i != j,
        p.slots_spec()[i] == Slot::Running,
        p.slots_spec()[j] == Slot::Running,
    ensures
        ({
            let s = p.slots_spec();
            let after_failure = s.update(i, Slot::Done(Outcome::Failed));
            &&& after_failure[j] == s[j]
            &&& count_running(after_failure) + 1 == count_running(s)
            &&& count_running(after_failure) < p.capacity_spec()
            &&& after_failure.update(j, Slot::Done(Outcome::Completed))[j] == Slot::Done(Outcome::Completed)
            &&& after_failure.update(j, Slot::Done(Outcome::Completed))[i] == Slot::Done(Outcome::Failed)
        }),
{
    lemma_count_update(p.slots_spec(), i, Slot::Done(Outcome::Failed));
}

} // verus!
