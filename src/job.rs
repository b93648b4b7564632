use vstd::prelude::*;

use crate::destination::{resolve, resolves_to, Destination};
use crate::locator::Locator;
use crate::manifest::{decode, is_entry, line_fields};
use crate::outcome::{FetchOutcome, Failure};

verus! {

/// Where the processing of one target stands.
#[derive(Debug, Clone, Copy, PartialEq, Eq, Structural)]
pub enum Stage {
    /// Waiting for the local directory to be created.
    Creating,
    /// Waiting to learn whether the local file is already there.
    Probing,
    /// Waiting for the response to the request for the remote file.
    Fetching,
    /// Waiting for the body to be written to the local file.
    Writing,
    /// An outcome was given; nothing more happens.
    Finished,
}

/// What the driver of a job reports back after doing the step it was asked for.
#[derive(Debug, Clone, PartialEq, Eq)]
pub enum Event {
    DirReady,
    DirFailed(String),
    Present,
    Absent,
    /// The response arrived with this status code.
    Status(u16),
    TransportFailed(String),
    Written,
    WriteFailed(String),
}

/// What a job asks its driver to do next.
#[derive(Debug, Clone, PartialEq, Eq)]
pub enum Step {
    /// Create this directory and its parents.
    CreateDir(String),
    /// Check whether this file exists.
    Probe(String),
    /// Request this remote file.
    Get(String),
    /// Write the response body to this file.
    Write(String),
    /// The target is done, with this outcome.
    Finish(FetchOutcome),
}

/// The processing of one target: its paths and how far it has come.
#[derive(Debug, Clone, PartialEq, Eq)]
pub struct Job {
    pub dest: Destination,
    pub stage: Stage,
}

/// The status code of a successful response.
pub const STATUS_OK: u16 = 200;

/// Whether a job in `stage` can take `ev`.
pub open spec fn accepts(stage: Stage, ev: Event) -> bool {
    match stage {
        Stage::Creating => ev is DirReady || ev is DirFailed,
        Stage::Probing => ev is Present || ev is Absent,
        Stage::Fetching => ev is Status || ev is TransportFailed,
        Stage::Writing => ev is Written || ev is WriteFailed,
        Stage::Finished => false,
    }
}

/// The stage a job moves to on `ev`.
pub open spec fn next_stage(stage: Stage, ev: Event) -> Stage {
    match (stage, ev) {
        (Stage::Creating, Event::DirReady) => Stage::Probing,
        (Stage::Probing, Event::Absent) => Stage::Fetching,
        (Stage::Fetching, Event::Status(code)) => if code == STATUS_OK {
            Stage::Writing
        } else {
            Stage::Finished
        },
        _ => Stage::Finished,
    }
}

/// What a job with destination `d` in `stage` asks for on `ev`.
pub open spec fn step_for(d: Destination, stage: Stage, ev: Event) -> Step {
    match (stage, ev) {
        (Stage::Creating, Event::DirReady) => Step::Probe(d.local_file),
        (Stage::Creating, Event::DirFailed(e)) => Step::Finish(
            FetchOutcome::Failed(Failure::CreateDir(e)),
        ),
        (Stage::Probing, Event::Present) => Step::Finish(FetchOutcome::Skipped),
        (Stage::Probing, Event::Absent) => Step::Get(d.remote_file),
        (Stage::Fetching, Event::Status(code)) => if code == STATUS_OK {
            Step::Write(d.local_file)
        } else {
            Step::Finish(FetchOutcome::Failed(Failure::Status { path: d.remote_file, code }))
        },
        (Stage::Fetching, Event::TransportFailed(e)) => Step::Finish(
            FetchOutcome::Failed(Failure::Transport(e)),
        ),
        (Stage::Writing, Event::Written) => Step::Finish(FetchOutcome::Success),
        (Stage::Writing, Event::WriteFailed(e)) => Step::Finish(
            FetchOutcome::Failed(Failure::Write(e)),
        ),
        // a pair that `accepts` rules out; no job ever reaches it
        _ => Step::Finish(FetchOutcome::Success),
    }
}

impl Job {
    /// Starts the processing of one manifest line under `locator`: a line that
    /// does not decode ends at once in a failure; any other gives a job whose
    /// first step is to create the target's local directory.
    pub fn start(locator: &Locator, line: &str) -> (r: Result<(Job, Step), FetchOutcome>)
        ensures
            r is Ok <==> is_entry(line@),
            r matches Ok((job, step)) ==> {
                &&& resolves_to(job.dest, *locator, line_fields(line@)[0], line_fields(line@)[1])
                &&& job.stage == Stage::Creating
                &&& step == Step::CreateDir(job.dest.local_dir)
            },
            r matches Err(o) ==> (o matches FetchOutcome::Failed(Failure::Malformed(l)) && l@
                == line@),
    {
        match decode(line) {
            Ok(target) => {
                let dest = resolve(locator, &target);
                let step = Step::CreateDir(dest.local_dir.clone());
                Ok((Job { dest, stage: Stage::Creating }, step))
            },
            Err(crate::manifest::DecodeError::MalformedLine(l)) => {
                Err(FetchOutcome::Failed(Failure::Malformed(l)))
            },
        }
    }

    /// Whether this job can take `ev` now.
    pub fn accepts(&self, ev: &Event) -> (r: bool)
        ensures
            r == accepts(self.stage, *ev),
    {
        match self.stage {
            Stage::Creating => matches!(ev, Event::DirReady | Event::DirFailed(_)),
            Stage::Probing => matches!(ev, Event::Present | Event::Absent),
            Stage::Fetching => matches!(ev, Event::Status(_) | Event::TransportFailed(_)),
            Stage::Writing => matches!(ev, Event::Written | Event::WriteFailed(_)),
            Stage::Finished => false,
        }
    }

    /// Takes the result of the last step and says what to do next.
    pub fn advance(&mut self, ev: Event) -> (r: Step)
        requires
            accepts(old(self).stage, ev),
        ensures
            final(self).dest == old(self).dest,
            final(self).stage == next_stage(old(self).stage, ev),
            r == step_for(old(self).dest, old(self).stage, ev),
            r is Finish <==> final(self).stage == Stage::Finished,
    {
        let (stage, step) = match ev {
            Event::DirReady => (Stage::Probing, Step::Probe(self.dest.local_file.clone())),
            Event::DirFailed(e) => (
                Stage::Finished,
                Step::Finish(FetchOutcome::Failed(Failure::CreateDir(e))),
            ),
            Event::Present => (Stage::Finished, Step::Finish(FetchOutcome::Skipped)),
            Event::Absent => (Stage::Fetching, Step::Get(self.dest.remote_file.clone())),
            Event::Status(code) => {
                if code == STATUS_OK {
                    (Stage::Writing, Step::Write(self.dest.local_file.clone()))
                } else {
                    (
                        Stage::Finished,
                        Step::Finish(
                            FetchOutcome::Failed(
                                Failure::Status { path: self.dest.remote_file.clone(), code },
                            ),
                        ),
                    )
                }
            },
            Event::TransportFailed(e) => (
                Stage::Finished,
                Step::Finish(FetchOutcome::Failed(Failure::Transport(e))),
            ),
            Event::Written => (Stage::Finished, Step::Finish(FetchOutcome::Success)),
            Event::WriteFailed(e) => (
                Stage::Finished,
                Step::Finish(FetchOutcome::Failed(Failure::Write(e))),
            ),
        };
        self.stage = stage;
        step
    }
}

/// Over a populated local root a target is skipped: once its file is found,
/// the job ends as `Skipped` and takes no further event, so it neither
/// requests nor writes anything.
pub proof fn lemma_present_file_skipped(d: Destination)
    ensures
        step_for(d, Stage::Probing, Event::Present) == Step::Finish(FetchOutcome::Skipped),
        next_stage(Stage::Probing, Event::Present) == Stage::Finished,
        forall|ev: Event| !accepts(Stage::Finished, ev),
{
}

/// A target's own events alone decide its step: the step depends on nothing
/// but the job's destination, its stage and the event it is given.
pub proof fn lemma_step_isolated(d: Destination, stage: Stage, ev: Event, other: Destination)
    requires
        accepts(stage, ev),
        other.local_file == d.local_file,
        other.remote_file == d.remote_file,
    ensures
        step_for(other, stage, ev) == step_for(d, stage, ev),
        next_stage(stage, ev) == Stage::Finished <==> step_for(d, stage, ev) is Finish,
{
}

} // verus!
