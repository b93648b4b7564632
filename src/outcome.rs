use vstd::prelude::*;

verus! {

/// Why the processing of one target failed.
#[derive(Debug, Clone, PartialEq, Eq)]
pub enum Failure {
    /// The manifest line, which does not decode to a target.
    Malformed(String),
    /// The local directory could not be created; the error's text.
    CreateDir(String),
    /// The remote file answered with a status other than 200.
    Status { path: String, code: u16 },
    /// The request failed below the HTTP level; the error's text.
    Transport(String),
    /// The local file could not be written; the error's text.
    Write(String),
}

/// The terminal result of processing one target.
#[derive(Debug, Clone, PartialEq, Eq)]
pub enum FetchOutcome {
    /// The local file was already there; nothing was fetched.
    Skipped,
    /// The file was fetched and written.
    Success,
    Failed(Failure),
}

/// The outcome of the target at position `index` of the manifest.
#[derive(Debug, Clone, PartialEq, Eq)]
pub struct Record {
    pub index: usize,
    pub outcome: FetchOutcome,
}

/// The outcomes of a run, in the order in which they arrived.
#[derive(Debug, Clone, PartialEq, Eq)]
pub struct RunReport {
    pub records: Vec<Record>,
}

/// How many of `records` are failures.
pub open spec fn failed_count(records: Seq<Record>) -> nat
    decreases records.len(),
{
    if records.len() == 0 {
        0
    } else {
        failed_count(records.drop_last()) + if records.last().outcome is Failed {
            1nat
        } else {
            0nat
        }
    }
}

/// Appending a record adds one failure exactly when the record is one.
pub proof fn lemma_failed_count_push(records: Seq<Record>, r: Record)
    ensures
        failed_count(records.push(r)) == failed_count(records) + if r.outcome is Failed {
            1nat
        } else {
            0nat
        },
{
    assert(records.push(r).drop_last() =~= records);
}

/// No more failures than records.
pub proof fn lemma_failed_count_bound(records: Seq<Record>)
    ensures
        failed_count(records) <= records.len(),
    decreases records.len(),
{
    if records.len() > 0 {
        lemma_failed_count_bound(records.drop_last());
    }
}

impl FetchOutcome {
    /// Whether this is a failure.
    pub fn is_failed(&self) -> (r: bool)
        ensures
            r == (*self is Failed),
    {
        match self {
            FetchOutcome::Failed(_) => true,
            _ => false,
        }
    }
}

impl RunReport {
    /// An empty report.
    pub fn new() -> (r: RunReport)
        ensures
            r.records@ == Seq::<Record>::empty(),
    {
        RunReport { records: Vec::new() }
    }

    /// Appends the outcome of the target at `index`.
    pub fn record(&mut self, index: usize, outcome: FetchOutcome)
        ensures
            final(self).records@ == old(self).records@.push(Record { index, outcome }),
    {
        self.records.push(Record { index, outcome });
    }

    /// The number of outcomes held.
    pub fn len(&self) -> (n: usize)
        ensures
            n == self.records@.len(),
    {
        self.records.len()
    }

    /// The number of failed outcomes held.
    pub fn failed_count(&self) -> (n: usize)
        ensures
            n == failed_count(self.records@),
    {
        let mut n: usize = 0;
        let mut k: usize = 0;
        while k < self.records.len()
            invariant
                k <= self.records@.len(),
                n == failed_count(self.records@.subrange(0, k as int)),
            decreases self.records@.len() - k,
        {
            proof {
                lemma_failed_count_push(self.records@.subrange(0, k as int), self.records@[k as int]);
                assert(self.records@.subrange(0, k + 1) =~= self.records@.subrange(0, k as int).push(
                    self.records@[k as int],
                ));
                lemma_failed_count_bound(self.records@.subrange(0, k as int));
            }
            if self.records[k].outcome.is_failed() {
                n = n + 1;
            }
            k = k + 1;
        }
        assert(self.records@.subrange(0, k as int) =~= self.records@);
        n
    }
}

/// Collects the outcomes of a run's targets, given in manifest order, into a
/// report: one record per outcome, each under its position.
pub fn accumulate(outcomes: Vec<FetchOutcome>) -> (r: RunReport)
    ensures
        r.records@.len() == outcomes@.len(),
        forall|k: int|
            0 <= k < outcomes@.len() ==> #[trigger] r.records@[k] == (Record {
                index: k as usize,
                outcome: outcomes@[k],
            }),
{
    let mut report = RunReport::new();
    let mut outcomes = outcomes;
    let ghost all = outcomes@;
    let n = outcomes.len();
    let mut rest: Vec<FetchOutcome> = Vec::new();
    while outcomes.len() > 0
        invariant
            outcomes@.len() <= all.len(),
            outcomes@ == all.subrange(0, outcomes@.len() as int),
            rest@.len() + outcomes@.len() == all.len(),
            forall|j: int| 0 <= j < rest@.len() ==> #[trigger] rest@[j] == all[all.len() - 1 - j],
        decreases outcomes@.len(),
    {
        let o = outcomes.pop().unwrap();
        rest.push(o);
    }
    let mut k: usize = 0;
    while rest.len() > 0
        invariant
            rest@.len() + k == all.len(),
            all.len() == n,
            forall|j: int| 0 <= j < rest@.len() ==> #[trigger] rest@[j] == all[all.len() - 1 - j],
            report.records@.len() == k,
            forall|j: int|
                0 <= j < k ==> #[trigger] report.records@[j] == (Record {
                    index: j as usize,
                    outcome: all[j],
                }),
        decreases rest@.len(),
    {
        let o = rest.pop().unwrap();
        report.record(k, o);
        k = k + 1;
    }
    report
}

} // verus!
