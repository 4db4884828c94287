//! What each stage of a job writes to its check run on the review platform.
use vstd::prelude::*;
use crate::report::ReportChunk;

verus! {

/// A stage a job's check run is moved to.
#[derive(Clone, Copy, Debug, PartialEq, Eq, Structural)]
pub enum JobMark {
    Queued,
    Started,
    Failed,
    Success,
    Skipped,
}

/// The fields of a check-run update, apart from its output and timestamps'
/// values: the status and conclusion to set, and which timestamp to stamp.
pub struct CheckRunUpdate {
    pub status: Option<String>,
    pub conclusion: Option<String>,
    pub stamp_started: bool,
    pub stamp_completed: bool,
}

/// The status and conclusion set for each stage.
pub open spec fn mark_fields(mark: JobMark) -> (Option<Seq<char>>, Option<Seq<char>>) {
    match mark {
        JobMark::Queued => (Some("queued"@), None),
        JobMark::Started => (Some("in_progress"@), None),
        JobMark::Failed => (Some("completed"@), Some("failure"@)),
        JobMark::Success => (None, Some("success"@)),
        JobMark::Skipped => (None, Some("skipped"@)),
    }
}

fn some_text(s: &str) -> (r: Option<String>)
    ensures
        r matches Some(t) && t@ == s@,
{
    Some(String::from_str(s))
}

/// The update that moves a check run to the stage `mark`: queued and started
/// stamp the start time, the three final stages the completion time.
pub fn update_for(mark: JobMark) -> (r: CheckRunUpdate)
    ensures
        r.status is Some <==> mark_fields(mark).0 is Some,
        r.status matches Some(s) ==> mark_fields(mark).0 == Some(s@),
        r.conclusion is Some <==> mark_fields(mark).1 is Some,
        r.conclusion matches Some(c) ==> mark_fields(mark).1 == Some(c@),
        r.stamp_started == (mark == JobMark::Queued || mark == JobMark::Started),
        r.stamp_completed == !(mark == JobMark::Queued || mark == JobMark::Started),
{
    match mark {
        JobMark::Queued => CheckRunUpdate {
            status: some_text("queued"),
            conclusion: None,
            stamp_started: true,
            stamp_completed: false,
        },
        JobMark::Started => CheckRunUpdate {
            status: some_text("in_progress"),
            conclusion: None,
            stamp_started: true,
            stamp_completed: false,
        },
        JobMark::Failed => CheckRunUpdate {
            status: some_text("completed"),
            conclusion: some_text("failure"),
            stamp_started: false,
            stamp_completed: true,
        },
        JobMark::Success => CheckRunUpdate {
            status: None,
            conclusion: some_text("success"),
            stamp_started: false,
            stamp_completed: true,
        },
        JobMark::Skipped => CheckRunUpdate {
            status: None,
            conclusion: some_text("skipped"),
            stamp_started: false,
            stamp_completed: true,
        },
    }
}

/// The output shown when a job failed as a whole.
pub open spec fn failure_summary(error: Seq<char>) -> Seq<char> {
    "The job could not be completed. Error:\n\n```\n"@ + error + "\n```\n"@
}

/// Builds the output shown when a job failed as a whole.
pub fn failure_output(error: &str) -> (r: ReportChunk)
    ensures
        r.title@ == "Error handling job"@,
        r.summary@ == failure_summary(error@),
        r.text@ == ""@,
{
    let mut summary = String::from_str("The job could not be completed. Error:\n\n```\n");
    summary.append(error);
    summary.append("\n```\n");
    ReportChunk { title: String::from_str("Error handling job"), summary, text: String::from_str("") }
}

} // verus!
