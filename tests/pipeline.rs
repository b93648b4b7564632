use std::collections::HashSet;

use symsrv::destination::relative_path;
use symsrv::job::{Event, Job, Stage, Step};
use symsrv::locator::Locator;
use symsrv::manifest::Target;
use symsrv::outcome::{accumulate, FetchOutcome, Failure, Record, RunReport};
use symsrv::schedule::{Scheduler, WINDOW};

fn locator() -> Locator {
    Locator { local_root: "L".to_string(), remote_root: "http://r".to_string() }
}

/// Runs one target to its end against a simulated disk and server.
fn drive(line: &str, disk: &mut HashSet<String>, missing: &HashSet<String>) -> FetchOutcome {
    let (mut job, mut step) = match Job::start(&locator(), line) {
        Ok(started) => started,
        Err(outcome) => return outcome,
    };
    loop {
        let ev = match step {
            Step::CreateDir(_) => Event::DirReady,
            Step::Probe(f) => {
                if disk.contains(&f) {
                    Event::Present
                } else {
                    Event::Absent
                }
            }
            Step::Get(url) => {
                if missing.contains(&url) {
                    Event::Status(404)
                } else {
                    Event::Status(200)
                }
            }
            Step::Write(f) => {
                disk.insert(f);
                Event::Written
            }
            Step::Finish(o) => return o,
        };
        assert!(job.accepts(&ev));
        step = job.advance(ev);
    }
}

/// Runs a whole manifest through the scheduler, starting as many targets as
/// the window allows and finishing them in reverse order of start.
fn run(lines: &[&str], disk: &mut HashSet<String>, missing: &HashSet<String>) -> (RunReport, usize) {
    let mut s = Scheduler::new(lines.len());
    let mut max_in_flight = 0;
    while !s.is_finished() {
        let mut started = Vec::new();
        while s.can_admit() {
            started.push(s.start_next());
        }
        max_in_flight = max_in_flight.max(s.in_flight);
        while let Some(i) = started.pop() {
            let o = drive(lines[i], disk, missing);
            assert!(s.complete(i, o));
        }
    }
    (s.report, max_in_flight)
}

fn lines(n: usize) -> Vec<String> {
    (0..n).map(|i| format!("f{}.pdb,H{},1", i, i)).collect()
}

#[test]
fn second_run_skips_everything() {
    let owned = lines(10);
    let ls: Vec<&str> = owned.iter().map(|s| s.as_str()).collect();
    let mut disk = HashSet::new();
    let (first, _) = run(&ls, &mut disk, &HashSet::new());
    assert!(first.records.iter().all(|r| r.outcome == FetchOutcome::Success));
    let before = disk.clone();
    let (second, _) = run(&ls, &mut disk, &HashSet::new());
    assert_eq!(second.len(), 10);
    assert!(second.records.iter().all(|r| r.outcome == FetchOutcome::Skipped));
    assert_eq!(disk, before);
}

#[test]
fn never_more_than_window_in_flight() {
    let owned = lines(200);
    let ls: Vec<&str> = owned.iter().map(|s| s.as_str()).collect();
    let (report, max_in_flight) = run(&ls, &mut HashSet::new(), &HashSet::new());
    assert_eq!(WINDOW, 64);
    assert_eq!(max_in_flight, 64);
    assert_eq!(report.len(), 200);
}

#[test]
fn one_missing_file_fails_alone() {
    let owned = lines(100);
    let ls: Vec<&str> = owned.iter().map(|s| s.as_str()).collect();
    let mut missing = HashSet::new();
    missing.insert("http://r/f7.pdb/H7/f7.pdb".to_string());
    let (report, _) = run(&ls, &mut HashSet::new(), &missing);
    assert_eq!(report.len(), 100);
    assert_eq!(report.failed_count(), 1);
    let failed: Vec<&Record> = report.records.iter().filter(|r| r.outcome.is_failed()).collect();
    assert_eq!(failed.len(), 1);
    assert_eq!(failed[0].index, 7);
    assert_eq!(
        failed[0].outcome,
        FetchOutcome::Failed(Failure::Status { path: "http://r/f7.pdb/H7/f7.pdb".to_string(), code: 404 })
    );
}

#[test]
fn malformed_lines_are_reported() {
    let ls = ["a.pdb,1,x", "bad", "b.pdb,2,x", "c.pdb,3", ""];
    let (report, _) = run(&ls, &mut HashSet::new(), &HashSet::new());
    assert_eq!(report.len(), 5);
    assert_eq!(report.failed_count(), 3);
    let mut seen: Vec<usize> = report.records.iter().map(|r| r.index).collect();
    seen.sort();
    assert_eq!(seen, vec![0, 1, 2, 3, 4]);
    let bad = report.records.iter().find(|r| r.index == 1).unwrap();
    assert_eq!(bad.outcome, FetchOutcome::Failed(Failure::Malformed("bad".to_string())));
}

#[test]
fn empty_manifest_is_finished_at_once() {
    let s = Scheduler::new(0);
    assert!(s.is_finished());
    assert!(!s.can_admit());
    assert_eq!(s.report.len(), 0);
}

#[test]
fn job_steps_in_order() {
    let (mut job, step) = Job::start(&locator(), "a.pdb,H,1").unwrap();
    assert_eq!(step, Step::CreateDir("L/a.pdb/H".to_string()));
    assert!(!job.accepts(&Event::Present));
    assert_eq!(job.advance(Event::DirReady), Step::Probe("L/a.pdb/H/a.pdb".to_string()));
    assert_eq!(job.advance(Event::Absent), Step::Get("http://r/a.pdb/H/a.pdb".to_string()));
    assert_eq!(job.advance(Event::Status(200)), Step::Write("L/a.pdb/H/a.pdb".to_string()));
    assert_eq!(job.advance(Event::Written), Step::Finish(FetchOutcome::Success));
    assert_eq!(job.stage, Stage::Finished);
    assert!(!job.accepts(&Event::Written));
}

#[test]
fn job_failures() {
    let start = || Job::start(&locator(), "a.pdb,H,1").unwrap().0;
    let mut j = start();
    assert_eq!(
        j.advance(Event::DirFailed("denied".to_string())),
        Step::Finish(FetchOutcome::Failed(Failure::CreateDir("denied".to_string())))
    );
    let mut j = start();
    j.advance(Event::DirReady);
    assert_eq!(j.advance(Event::Present), Step::Finish(FetchOutcome::Skipped));
    let mut j = start();
    j.advance(Event::DirReady);
    j.advance(Event::Absent);
    assert_eq!(
        j.advance(Event::TransportFailed("refused".to_string())),
        Step::Finish(FetchOutcome::Failed(Failure::Transport("refused".to_string())))
    );
    let mut j = start();
    j.advance(Event::DirReady);
    j.advance(Event::Absent);
    assert_eq!(
        j.advance(Event::Status(301)),
        Step::Finish(FetchOutcome::Failed(Failure::Status {
            path: "http://r/a.pdb/H/a.pdb".to_string(),
            code: 301
        }))
    );
    let mut j = start();
    j.advance(Event::DirReady);
    j.advance(Event::Absent);
    j.advance(Event::Status(200));
    assert_eq!(
        j.advance(Event::WriteFailed("full".to_string())),
        Step::Finish(FetchOutcome::Failed(Failure::Write("full".to_string())))
    );
}

#[test]
fn complete_ignores_unknown_targets() {
    let mut s = Scheduler::new(2);
    assert!(!s.complete(0, FetchOutcome::Success));
    let i = s.start_next();
    assert_eq!(i, 0);
    assert!(s.is_running(0));
    assert!(s.complete(0, FetchOutcome::Success));
    assert!(!s.complete(0, FetchOutcome::Success));
    assert!(!s.complete(5, FetchOutcome::Success));
    assert_eq!(s.report.len(), 1);
}

#[test]
fn accumulate_keeps_positions() {
    let r = accumulate(vec![
        FetchOutcome::Success,
        FetchOutcome::Skipped,
        FetchOutcome::Failed(Failure::Transport("x".to_string())),
    ]);
    assert_eq!(r.len(), 3);
    assert_eq!(r.failed_count(), 1);
    assert_eq!(r.records[1], Record { index: 1, outcome: FetchOutcome::Skipped });
    assert_eq!(accumulate(Vec::new()).len(), 0);
}

#[test]
fn relative_path_of_target() {
    let t = Target { component: "k.pdb".to_string(), hash: "AB".to_string() };
    assert_eq!(relative_path(&t), "k.pdb/AB/k.pdb");
}
