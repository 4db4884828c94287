use diffbot::map_report::image_directory;
use diffbot::check_run::{failure_output, update_for, JobMark};
use diffbot::names::{pair_names, position_of, PairingError};
use diffbot::config::init_config;
use diffbot::queue::{JobKind, QueueEntry, Worker, WorkerAction, WorkerEvent};
use diffbot::text::{contains_text, decimal, file_index, occurs_at_exec};

#[test]
fn decimal_numerals() {
    assert_eq!(decimal(0), "0");
    assert_eq!(decimal(7), "7");
    assert_eq!(decimal(10), "10");
    assert_eq!(decimal(75440), "75440");
    assert_eq!(decimal(u64::MAX), "18446744073709551615");
}

#[test]
fn file_index_of_map_path() {
    assert_eq!(file_index("_maps/map_files/MetaStation/MetaStation.dmm"), "_maps_map_files_MetaStation_MetaStation");
    assert_eq!(file_index("a.dmm.dmm/b"), "a_b");
    assert_eq!(file_index(""), "");
}

#[test]
fn text_search() {
    assert!(contains_text("hello", "ll"));
    assert!(contains_text("hello", ""));
    assert!(!contains_text("hello", "lo!"));
    assert!(occurs_at_exec("abc", 1, "bc"));
    assert!(!occurs_at_exec("abc", 2, "bc"));
}

#[test]
fn config_blacklist() {
    let c = init_config(
        "key.pem".to_string(),
        "https://files".to_string(),
        42,
        &vec![5, 9, 5],
        "admin".to_string(),
    );
    assert_eq!(c.app_id, 42);
    assert_eq!(c.blacklist.len(), 2);
    assert!(c.is_blacklisted(9));
    assert!(!c.is_blacklisted(6));
    assert_eq!(c.file_hosting_url, "https://files");
}

#[test]
fn worker_runs_one_at_a_time_and_commits_after_finish() {
    let a = QueueEntry { id: 1, kind: JobKind::Diff };
    let b = QueueEntry { id: 2, kind: JobKind::Cleanup };
    let mut w = Worker::new(Vec::new());
    assert_eq!(w.step(WorkerEvent::Poll), WorkerAction::Wait);
    assert_eq!(w.step(WorkerEvent::Enqueued(a)), WorkerAction::Acknowledge(1));
    assert_eq!(w.step(WorkerEvent::Enqueued(b)), WorkerAction::Acknowledge(2));
    assert_eq!(w.step(WorkerEvent::Poll), WorkerAction::Run(a));
    assert_eq!(w.step(WorkerEvent::Poll), WorkerAction::Wait);
    assert_eq!(w.pending.len(), 2);
    assert_eq!(w.step(WorkerEvent::Finished), WorkerAction::Commit(1));
    assert_eq!(w.step(WorkerEvent::Poll), WorkerAction::Run(b));
    assert_eq!(w.step(WorkerEvent::Finished), WorkerAction::Commit(2));
    assert_eq!(w.step(WorkerEvent::Finished), WorkerAction::Wait);
    assert!(w.pending.is_empty());
}

#[test]
fn restart_redelivers_unfinished_entry() {
    let a = QueueEntry { id: 7, kind: JobKind::Diff };
    let mut w = Worker::new(vec![a]);
    assert_eq!(w.step(WorkerEvent::Poll), WorkerAction::Run(a));
    // the process dies here; the entry is still stored
    let mut w2 = Worker::new(w.pending.clone());
    assert_eq!(w2.step(WorkerEvent::Poll), WorkerAction::Run(a));
}

#[test]
fn pairing_names() {
    let s = |v: &[&str]| v.iter().map(|x| x.to_string()).collect::<Vec<_>>();
    let pairs = pair_names(&s(&["a", "b"]), &s(&["b", "a"])).ok().expect("paired");
    let got: Vec<(String, usize)> = pairs.into_iter().collect();
    assert_eq!(got, vec![("a".to_string(), 1), ("b".to_string(), 0)]);
    let pairs = pair_names(&s(&["z", "y", "z"]), &s(&["y", "z"])).ok().expect("paired");
    let got: Vec<(String, usize)> = pairs.into_iter().collect();
    assert_eq!(got, vec![("z".to_string(), 1), ("y".to_string(), 0)]);
    assert_eq!(pair_names(&Vec::new(), &Vec::new()).ok().map(|m| m.len()), Some(0));
    match pair_names(&s(&["a", "b"]), &s(&["a"])) {
        Err(PairingError::MissingInHead(n)) => assert_eq!(n, s(&["b"])),
        _ => panic!("expected missing in head"),
    }
    match pair_names(&s(&["a"]), &s(&["a", "c"])) {
        Err(PairingError::MissingInBase(n)) => assert_eq!(n, s(&["c"])),
        _ => panic!("expected missing in base"),
    }
    assert_eq!(position_of(&s(&["x", "y"]), &"y".to_string()), Some(1));
    assert_eq!(position_of(&s(&["x"]), &"z".to_string()), None);
}

#[test]
fn check_run_updates() {
    let q = update_for(JobMark::Queued);
    assert_eq!(q.status.as_deref(), Some("queued"));
    assert!(q.conclusion.is_none() && q.stamp_started && !q.stamp_completed);
    let s = update_for(JobMark::Started);
    assert_eq!(s.status.as_deref(), Some("in_progress"));
    let f = update_for(JobMark::Failed);
    assert_eq!(f.status.as_deref(), Some("completed"));
    assert_eq!(f.conclusion.as_deref(), Some("failure"));
    assert!(f.stamp_completed && !f.stamp_started);
    assert_eq!(update_for(JobMark::Success).conclusion.as_deref(), Some("success"));
    assert_eq!(update_for(JobMark::Skipped).conclusion.as_deref(), Some("skipped"));
    assert!(update_for(JobMark::Skipped).status.is_none());
    let out = failure_output("boom");
    assert_eq!(out.title, "Error handling job");
    assert_eq!(out.summary, "The job could not be completed. Error:\n\n```\nboom\n```\n");
    assert_eq!(out.text, "");
}

#[test]
fn image_directories() {
    assert_eq!(image_directory(3234987, Some(55)), "images/3234987/55");
    assert_eq!(image_directory(3234987, None), "images/3234987/TEST");
}
