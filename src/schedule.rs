use vstd::prelude::*;

use crate::outcome::{failed_count, lemma_failed_count_push, FetchOutcome, Record, RunReport};

verus! {

/// The most targets that are in flight at once.
pub const WINDOW: usize = 64;

/// How many entries of `s` are set.
pub open spec fn count_set(s: Seq<bool>) -> nat
    decreases s.len(),
{
    if s.len() == 0 {
        0
    } else {
        count_set(s.drop_last()) + if s.last() {
            1nat
        } else {
            0nat
        }
    }
}

proof fn lemma_count_update(s: Seq<bool>, i: int, b: bool)
    requires
        0 <= i < s.len(),
    ensures
        count_set(s.update(i, b)) + (if s[i] { 1nat } else { 0nat }) == count_set(s) + (if b {
            1nat
        } else {
            0nat
        }),
    decreases s.len(),
{
    let t = s.update(i, b);
    if i < s.len() - 1 {
        lemma_count_update(s.drop_last(), i, b);
        assert(t.drop_last() =~= s.drop_last().update(i, b));
    } else {
        assert(t.drop_last() =~= s.drop_last());
    }
}

proof fn lemma_count_zero(s: Seq<bool>)
    requires
        count_set(s) == 0,
    ensures
        forall|i: int| 0 <= i < s.len() ==> !s[i],
    decreases s.len(),
{
    if s.len() > 0 {
        lemma_count_zero(s.drop_last());
        assert forall|i: int| 0 <= i < s.len() implies !s[i] by {
            if i < s.len() - 1 {
                assert(s[i] == s.drop_last()[i]);
            }
        }
    }
}

proof fn lemma_count_empty(n: nat)
    ensures
        count_set(Seq::new(n, |i: int| false)) == 0,
    decreases n,
{
    if n > 0 {
        lemma_count_empty((n - 1) as nat);
        assert(Seq::new(n, |i: int| false).drop_last() =~= Seq::new((n - 1) as nat, |i: int| false));
    }
}

/// Whether some record of `records` is for the target at `i`.
pub open spec fn has_record(records: Seq<Record>, i: int) -> bool {
    exists|k: int| 0 <= k < records.len() && #[trigger] records[k].index == i
}

/// The state of a run: how many targets it has, how many were admitted, which
/// are in flight, and the outcomes that came back.
pub struct RunState {
    pub total: nat,
    pub next: nat,
    pub running: Seq<bool>,
    pub records: Seq<Record>,
}

impl RunState {
    /// The number of targets in flight.
    pub open spec fn in_flight(self) -> nat {
        count_set(self.running)
    }

    /// The invariant of a run: targets are admitted in order, never more
    /// than `WINDOW` at once, and each admitted target is either in flight
    /// or has exactly one record.
    pub open spec fn wf(self) -> bool {
        &&& self.running.len() == self.total
        &&& self.total <= usize::MAX
        &&& self.next <= self.total
        &&& self.in_flight() <= WINDOW
        &&& self.in_flight() + self.records.len() == self.next
        &&& forall|i: int| 0 <= i < self.total && #[trigger] self.running[i] ==> i < self.next
        &&& forall|k: int|
            0 <= k < self.records.len() ==> {
                &&& #[trigger] self.records[k].index < self.next
                &&& !self.running[self.records[k].index as int]
            }
        &&& forall|k1: int, k2: int|
            0 <= k1 < self.records.len() && 0 <= k2 < self.records.len() && k1 != k2
                ==> #[trigger] self.records[k1].index != #[trigger] self.records[k2].index
        &&& forall|i: int|
            0 <= i < self.next ==> #[trigger] self.running[i] || has_record(self.records, i)
    }

    /// Whether another target may be admitted now.
    pub open spec fn can_admit(self) -> bool {
        self.in_flight() < WINDOW && self.next < self.total
    }

    /// Whether every target has come back.
    pub open spec fn finished(self) -> bool {
        self.next == self.total && self.in_flight() == 0
    }

    /// The state after the next target in manifest order is admitted.
    pub open spec fn admitted(self) -> RunState {
        RunState { next: self.next + 1, running: self.running.update(self.next as int, true), ..self }
    }

    /// The state after the target at `i` came back with `o`.
    pub open spec fn completed(self, i: nat, o: FetchOutcome) -> RunState {
        RunState {
            running: self.running.update(i as int, false),
            records: self.records.push(Record { index: i as usize, outcome: o }),
            ..self
        }
    }
}

/// A run's progress over a manifest of `total` targets: admits them in order
/// into a window of at most `WINDOW` in-flight targets and collects the
/// outcome of each as it comes back, in whatever order.
pub struct Scheduler {
    pub total: usize,
    pub next: usize,
    pub in_flight: usize,
    pub running: Vec<bool>,
    pub report: RunReport,
}

impl View for Scheduler {
    type V = RunState;

    open spec fn view(&self) -> RunState {
        RunState {
            total: self.total as nat,
            next: self.next as nat,
            running: self.running@,
            records: self.report.records@,
        }
    }
}

impl Scheduler {
    /// Whether the fields agree with the state they stand for.
    pub open spec fn wf(&self) -> bool {
        &&& self@.wf()
        &&& self.in_flight == self@.in_flight()
    }

    /// A run over `total` targets, none admitted yet.
    pub fn new(total: usize) -> (s: Scheduler)
        ensures
            s.wf(),
            s@.total == total,
            s@.next == 0,
            s@.records.len() == 0,
            forall|i: int| 0 <= i < total ==> !#[trigger] s@.running[i],
    {
        let mut running: Vec<bool> = Vec::new();
        let mut k: usize = 0;
        while k < total
            invariant
                k <= total,
                running@ == Seq::new(k as nat, |i: int| false),
            decreases total - k,
        {
            running.push(false);
            assert(running@ =~= Seq::new((k + 1) as nat, |i: int| false));
            k = k + 1;
        }
        proof {
            lemma_count_empty(total as nat);
        }
        Scheduler { total, next: 0, in_flight: 0, running, report: RunReport::new() }
    }

    /// Whether another target may be admitted now.
    pub fn can_admit(&self) -> (r: bool)
        requires
            self.wf(),
        ensures
            r == self@.can_admit(),
    {
        self.in_flight < WINDOW && self.next < self.total
    }

    /// Whether every target has been admitted and has come back.
    pub fn is_finished(&self) -> (r: bool)
        requires
            self.wf(),
        ensures
            r == self@.finished(),
    {
        self.next == self.total && self.in_flight == 0
    }

    /// Whether the target at `i` is in flight.
    pub fn is_running(&self, i: usize) -> (r: bool)
        requires
            self.wf(),
        ensures
            r == (i < self@.total && self@.running[i as int]),
    {
        i < self.total && self.running[i]
    }

    /// Admits the next target in manifest order and returns its position.
    pub fn start_next(&mut self) -> (i: usize)
        requires
            old(self).wf(),
            old(self)@.can_admit(),
        ensures
            final(self).wf(),
            i == old(self)@.next,
            final(self)@ == old(self)@.admitted(),
    {
        let ghost pre = self@;
        let i = self.next;
        proof {
            lemma_count_update(pre.running, i as int, true);
        }
        self.running.set(i, true);
        self.next = i + 1;
        self.in_flight = self.in_flight + 1;
        proof {
            let post = self@;
            assert(post == pre.admitted());
            assert forall|j: int| 0 <= j < post.next implies #[trigger] post.running[j] || has_record(
                post.records,
                j,
            ) by {
                if j != i && !pre.running[j] {
                    assert(has_record(pre.records, j));
                }
            }
        }
        i
    }

    /// Takes the outcome of the target at `i`. Returns whether it was in
    /// flight; one that was not is left out and nothing changes.
    pub fn complete(&mut self, i: usize, outcome: FetchOutcome) -> (taken: bool)
        requires
            old(self).wf(),
        ensures
            final(self).wf(),
            taken == (i < old(self)@.total && old(self)@.running[i as int]),
            taken ==> final(self)@ == old(self)@.completed(i as nat, outcome),
            !taken ==> final(self)@ == old(self)@,
    {
        if !(i < self.total && self.running[i]) {
            return false;
        }
        proof {
            lemma_completed_wf(self@, i as nat, outcome);
            lemma_count_update(self@.running, i as int, false);
        }
        self.running.set(i, false);
        self.in_flight = self.in_flight - 1;
        self.report.record(i, outcome);
        true
    }
}

proof fn lemma_completed_wf(s: RunState, i: nat, o: FetchOutcome)
    requires
        s.wf(),
        i < s.total,
        s.running[i as int],
    ensures
        s.completed(i, o).wf(),
        s.completed(i, o).in_flight() + 1 == s.in_flight(),
{
    let t = s.completed(i, o);
    lemma_count_update(s.running, i as int, false);
    let r = Record { index: i as usize, outcome: o };
    assert(t.records[s.records.len() as int] == r);
    assert forall|k: int| 0 <= k < t.records.len() implies {
        &&& #[trigger] t.records[k].index < t.next
        &&& !t.running[t.records[k].index as int]
    } by {
        if k < s.records.len() {
            assert(t.records[k] == s.records[k]);
            assert(!s.running[s.records[k].index as int]);
        }
    }
    assert forall|k1: int, k2: int|
        0 <= k1 < t.records.len() && 0 <= k2 < t.records.len() && k1 != k2 implies #[trigger] t.records[k1].index
        != #[trigger] t.records[k2].index by {
        if k1 < s.records.len() {
            assert(t.records[k1] == s.records[k1]);
            assert(!s.running[s.records[k1].index as int]);
        }
        if k2 < s.records.len() {
            assert(t.records[k2] == s.records[k2]);
            assert(!s.running[s.records[k2].index as int]);
        }
    }
    assert forall|j: int| 0 <= j < t.next implies #[trigger] t.running[j] || has_record(t.records, j) by {
        if j == i {
            assert(t.records[s.records.len() as int].index == j);
        } else if !s.running[j] {
            let k = choose|k: int| 0 <= k < s.records.len() && #[trigger] s.records[k].index == j;
            assert(t.records[k] == s.records[k]);
        }
    }
}

/// The window bound: however a run goes, no more than `WINDOW` targets are
/// ever in flight at once.
pub proof fn lemma_window_bound(s: RunState)
    requires
        s.wf(),
    ensures
        s.in_flight() <= WINDOW,
        s.can_admit() ==> s.admitted().in_flight() <= WINDOW,
{
    if s.can_admit() {
        lemma_count_update(s.running, s.next as int, true);
    }
}

/// A finished run has exactly one record per target of the manifest,
/// malformed lines included: as many records as targets, and one for each.
pub proof fn lemma_report_complete(s: RunState)
    requires
        s.wf(),
        s.finished(),
    ensures
        s.records.len() == s.total,
        forall|i: int| 0 <= i < s.total ==> has_record(s.records, i),
{
    lemma_count_zero(s.running);
    assert forall|i: int| 0 <= i < s.total implies has_record(s.records, i) by {
        assert(!s.running[i]);
    }
}

/// A failure stays with its own target: taking a failed outcome (or any
/// other) keeps every earlier record and every other target's state as it
/// was, adds one failure only when the outcome is one, and leaves the run
/// free to admit the remaining targets.
pub proof fn lemma_failure_isolated(s: RunState, i: nat, o: FetchOutcome)
    requires
        s.wf(),
        i < s.total,
        s.running[i as int],
    ensures
        s.completed(i, o).wf(),
        forall|k: int| 0 <= k < s.records.len() ==> #[trigger] s.completed(i, o).records[k] == s.records[k],
        forall|j: int| 0 <= j < s.total && j != i ==> #[trigger] s.completed(i, o).running[j] == s.running[j],
        failed_count(s.completed(i, o).records) == failed_count(s.records) + if o is Failed {
            1nat
        } else {
            0nat
        },
        s.next < s.total ==> s.completed(i, o).can_admit(),
{
    lemma_completed_wf(s, i, o);
    lemma_failed_count_push(s.records, Record { index: i as usize, outcome: o });
}

} // verus!
