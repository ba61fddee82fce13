//! What an analysis session does with the progress reports of its engine:
//! which reports concern indexing, and the events they turn into.

use crate::path::ProjectPath;
use crate::progress::{completed, started, IndexingProgress, LspNotification};
use vstd::prelude::*;

verus! {

/// The token that labels a long-running operation of the engine.
#[derive(Debug, Clone)]
pub enum ProgressToken {
    Number(i32),
    String(String),
}

/// One step of a long-running operation.
#[derive(Debug, Clone)]
pub enum WorkDoneProgress {
    Begin { title: String },
    Report { message: Option<String>, percentage: Option<u32> },
    End { message: Option<String> },
}

/// Token names under which the engine reports indexing, in its old and new naming.
pub open spec fn is_indexing_token(t: ProgressToken) -> bool {
    match t {
        ProgressToken::String(s) => s@ == "rustAnalyzer/Indexing"@ || s@
            == "rustAnalyzer/cachePriming"@ || s@ == "rustAnalyzer/Building"@,
        ProgressToken::Number(_) => false,
    }
}

/// A timeline for `project` on which nothing has happened yet.
pub open spec fn fresh_progress(project: ProjectPath) -> IndexingProgress {
    IndexingProgress {
        project,
        is_indexing: false,
        is_paused: false,
        started_at: None,
        completed_at: None,
        paused_at: None,
        total_paused_time: 0,
        estimated_files: None,
        crate_count: None,
        status_message: None,
        progress_percentage: None,
    }
}

/// The free text that a progress step carries.
pub open spec fn step_message(v: WorkDoneProgress) -> Option<String> {
    match v {
        WorkDoneProgress::Begin { title } => Some(title),
        WorkDoneProgress::Report { message, .. } => message,
        WorkDoneProgress::End { message } => message,
    }
}

/// The percentage that a progress step carries; only reports carry one.
pub open spec fn step_percentage(v: WorkDoneProgress) -> Option<u32> {
    match v {
        WorkDoneProgress::Report { percentage, .. } => percentage,
        _ => None,
    }
}

/// The timeline announced for a begin or report step at time `now`.
pub open spec fn running_progress(project: ProjectPath, v: WorkDoneProgress, now: i64) -> IndexingProgress {
    IndexingProgress {
        status_message: step_message(v),
        progress_percentage: step_percentage(v),
        ..started(fresh_progress(project), now)
    }
}

/// The timeline announced when indexing ends at time `now`.
pub open spec fn finished_progress(project: ProjectPath, now: i64) -> IndexingProgress {
    completed(fresh_progress(project), now)
}

/// The events to publish for one progress step, and whether it releases the
/// signal that indexing has completed.
#[derive(Debug)]
pub struct ProgressOutcome {
    pub notifications: Vec<LspNotification>,
    pub signal_indexed: bool,
}

/// The events that describe a project's indexing step: first the timeline,
/// then the plain indexing flag.
pub open spec fn announces(
    n: Seq<LspNotification>,
    project: Seq<Seq<char>>,
    timeline: spec_fn(ProjectPath) -> IndexingProgress,
    flag: bool,
) -> bool {
    &&& n.len() == 2
    &&& n[0] matches LspNotification::IndexingProgress(p) && p.project@ == project && p
        == timeline(p.project)
    &&& n[1] matches LspNotification::Indexing { project: q, is_indexing } && q@ == project
        && is_indexing == flag
}

fn fresh_timeline(project: ProjectPath) -> (r: IndexingProgress)
    ensures
        r == fresh_progress(project),
{
    IndexingProgress::new(project)
}

fn same_project(p: &ProjectPath) -> (r: ProjectPath)
    ensures
        r@ == p@,
{
    ProjectPath::from_components(p.components.clone())
}

/// Whether `token` is one of the engine's indexing tokens.
pub fn indexing_token(token: &ProgressToken) -> (r: bool)
    ensures
        r == is_indexing_token(*token),
{
    match token {
        ProgressToken::String(s) => {
            s.eq(&String::from_str("rustAnalyzer/Indexing")) || s.eq(
                &String::from_str("rustAnalyzer/cachePriming"),
            ) || s.eq(&String::from_str("rustAnalyzer/Building"))
        },
        ProgressToken::Number(_) => false,
    }
}

/// The per-project handler of the engine's notifications.
pub struct ClientState {
    pub project: ProjectPath,
}

impl ClientState {
    pub fn new(project: ProjectPath) -> (r: ClientState)
        ensures
            r.project == project,
    {
        ClientState { project }
    }

    /// The events for one progress step received at time `now`. Steps under
    /// other tokens give none; an end step releases the completion signal.
    pub fn progress_at(&self, token: &ProgressToken, value: WorkDoneProgress, now: i64) -> (r:
        ProgressOutcome)
        ensures
            !is_indexing_token(*token) ==> r.notifications@.len() == 0 && !r.signal_indexed,
            is_indexing_token(*token) && value is End ==> r.signal_indexed && announces(
                r.notifications@,
                self.project@,
                |p: ProjectPath| finished_progress(p, now),
                false,
            ),
            is_indexing_token(*token) && !(value is End) ==> !r.signal_indexed && announces(
                r.notifications@,
                self.project@,
                |p: ProjectPath| running_progress(p, value, now),
                true,
            ),
    {
        if !indexing_token(token) {
            return ProgressOutcome { notifications: Vec::new(), signal_indexed: false };
        }
        let ghost v = value;
        let is_end = match &value {
            WorkDoneProgress::End { .. } => true,
            _ => false,
        };
        let mut progress = fresh_timeline(same_project(&self.project));
        let mut notifications: Vec<LspNotification> = Vec::new();
        if is_end {
            progress.complete_indexing_at(now);
            notifications.push(LspNotification::IndexingProgress(progress));
            notifications.push(
                LspNotification::Indexing { project: same_project(&self.project), is_indexing: false },
            );
            ProgressOutcome { notifications, signal_indexed: true }
        } else {
            let (message, percentage) = match value {
                WorkDoneProgress::Begin { title } => (Some(title), None),
                WorkDoneProgress::Report { message, percentage } => (message, percentage),
                WorkDoneProgress::End { message } => (message, None),
            };
            progress.start_indexing_at(now);
            progress.status_message = message;
            progress.progress_percentage = percentage;
            proof {
                assert(progress == running_progress(progress.project, v, now));
            }
            notifications.push(LspNotification::IndexingProgress(progress));
            notifications.push(
                LspNotification::Indexing { project: same_project(&self.project), is_indexing: true },
            );
            ProgressOutcome { notifications, signal_indexed: false }
        }
    }
}

/// Whether a session has seen its first indexing completion. Only the first
/// completion matters to waiters; later ones are drained and ignored.
#[derive(Debug)]
pub struct IndexedGate {
    pub released: bool,
}

impl IndexedGate {
    pub fn new() -> (r: IndexedGate)
        ensures
            !r.released,
    {
        IndexedGate { released: false }
    }

    /// Records a completion signal; true for the first one only.
    pub fn on_completion(&mut self) -> (first: bool)
        ensures
            first == !old(self).released,
            final(self).released,
    {
        let first = !self.released;
        self.released = true;
        first
    }

    /// Whether opening a file must still wait for the first completion.
    pub fn must_wait(&self) -> (r: bool)
        ensures
            r == !self.released,
    {
        !self.released
    }
}

/// The events published when a session's initial indexing, begun at
/// `started_at`, sees its first completion at `finished_at`.
pub fn initial_indexing_finished(project: &ProjectPath, started_at: i64, finished_at: i64) -> (r:
    Vec<LspNotification>)
    ensures
        announces(
            r@,
            project@,
            |p: ProjectPath| completed(started(fresh_progress(p), started_at), finished_at),
            false,
        ),
{
    let mut progress = fresh_timeline(same_project(project));
    progress.start_indexing_at(started_at);
    progress.complete_indexing_at(finished_at);
    let mut r: Vec<LspNotification> = Vec::new();
    r.push(LspNotification::IndexingProgress(progress));
    r.push(LspNotification::Indexing { project: same_project(project), is_indexing: false });
    r
}

} // verus!
