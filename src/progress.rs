//! The indexing timeline of one project's analysis session, and the events
//! that a session reports about it.

use crate::path::ProjectPath;
use crate::text::{decimal, push_decimal};
use vstd::prelude::*;

verus! {

/// Relies on `chrono::Utc::now` and `DateTime::timestamp_millis`: the current
/// wall-clock time in milliseconds since the Unix epoch. The clock is not
/// monotonic, so nothing is promised of the value.
#[verifier::external_body]
pub(crate) fn current_time_millis() -> (r: i64) {
    chrono::Utc::now().timestamp_millis()
}

/// Integer division that rounds toward zero, as Rust's `/` on integers does.
pub open spec fn div_trunc(a: int, b: int) -> int {
    if a >= 0 {
        a / b
    } else {
        -((-a) / b)
    }
}

/// The value `v`, limited to the range of `i64`.
pub open spec fn clamp_i64(v: int) -> int {
    if v > i64::MAX {
        i64::MAX as int
    } else if v < i64::MIN {
        i64::MIN as int
    } else {
        v
    }
}

/// An event reported by an analysis session.
#[derive(Debug, Clone)]
pub enum LspNotification {
    Indexing { project: ProjectPath, is_indexing: bool },
    IndexingProgress(IndexingProgress),
    IndexingPauseResume { project: ProjectPath, should_pause: bool },
}

/// The indexing timeline of one project. Times are milliseconds since the
/// Unix epoch; `total_paused_time` is in whole seconds.
#[derive(Debug, Clone)]
pub struct IndexingProgress {
    pub project: ProjectPath,
    pub is_indexing: bool,
    pub is_paused: bool,
    pub started_at: Option<i64>,
    pub completed_at: Option<i64>,
    pub paused_at: Option<i64>,
    pub total_paused_time: i64,
    pub estimated_files: Option<usize>,
    pub crate_count: Option<usize>,
    pub status_message: Option<String>,
    pub progress_percentage: Option<u32>,
}

/// The state right after indexing starts at time `t`.
pub open spec fn started(p: IndexingProgress, t: i64) -> IndexingProgress {
    IndexingProgress {
        is_indexing: true,
        is_paused: false,
        started_at: Some(t),
        completed_at: None,
        paused_at: None,
        total_paused_time: 0,
        ..p
    }
}

/// The state right after indexing completes at time `t`.
pub open spec fn completed(p: IndexingProgress, t: i64) -> IndexingProgress {
    IndexingProgress {
        is_indexing: false,
        is_paused: false,
        completed_at: Some(t),
        progress_percentage: Some(100u32),
        paused_at: None,
        ..p
    }
}

/// The state after a pause request at time `t`: only a running, unpaused indexing pauses.
pub open spec fn paused(p: IndexingProgress, t: i64) -> IndexingProgress {
    if p.is_indexing && !p.is_paused {
        IndexingProgress { is_paused: true, paused_at: Some(t), ..p }
    } else {
        p
    }
}

/// The whole seconds of the pause that ends at `t`.
pub open spec fn pause_seconds(p: IndexingProgress, t: i64) -> int {
    match p.paused_at {
        Some(pa) => div_trunc(t - pa, 1000),
        None => 0,
    }
}

/// The state after a resume request at time `t`: a paused indexing adds the
/// length of its pause to the paused total (limited to the range of `i64`).
pub open spec fn resumed(p: IndexingProgress, t: i64) -> IndexingProgress {
    if p.is_indexing && p.is_paused {
        IndexingProgress {
            total_paused_time: clamp_i64(p.total_paused_time + pause_seconds(p, t)) as i64,
            is_paused: false,
            paused_at: None,
            ..p
        }
    } else {
        p
    }
}

/// Milliseconds of unpaused indexing: from the start to the completion (or to
/// `now`), less the current pause and the accumulated paused time.
pub open spec fn elapsed_millis(p: IndexingProgress, now: int) -> Option<int> {
    match p.started_at {
        None => None,
        Some(s) => {
            let end: int = match p.completed_at {
                Some(e) => e as int,
                None => now,
            };
            let current_pause: int = if p.is_paused {
                match p.paused_at {
                    Some(pa) => end - pa,
                    None => 0,
                }
            } else {
                0
            };
            Some(end - s - current_pause - p.total_paused_time * 1000)
        },
    }
}

/// Whole seconds of unpaused indexing, rounded toward zero.
pub open spec fn elapsed_seconds(p: IndexingProgress, now: int) -> Option<int> {
    match elapsed_millis(p, now) {
        Some(ms) => Some(div_trunc(ms, 1000)),
        None => None,
    }
}

/// A number of seconds as `Ns`, `Nm Ns` or `Nh Nm Ns`.
pub open spec fn duration_text(secs: int) -> Seq<char> {
    if secs < 60 {
        decimal(secs) + "s"@
    } else if secs < 3600 {
        decimal(secs / 60) + "m "@ + decimal(secs % 60) + "s"@
    } else {
        decimal(secs / 3600) + "h "@ + decimal((secs % 3600) / 60) + "m "@ + decimal(secs % 60)
            + "s"@
    }
}

pub open spec fn elapsed_text(p: IndexingProgress, now: int) -> Seq<char> {
    match elapsed_seconds(p, now) {
        Some(s) => duration_text(s),
        None => "Not started"@,
    }
}

/// The human-readable status of an indexing timeline at time `now`.
pub open spec fn status_text(p: IndexingProgress, now: int) -> Seq<char> {
    if !p.is_indexing && p.completed_at is Some {
        "Indexing complete ("@ + elapsed_text(p, now) + ")"@
    } else if p.is_paused {
        "Indexing paused - "@ + elapsed_text(p, now)
    } else if p.status_message is Some {
        match p.progress_percentage {
            Some(pct) => p.status_message->0@ + " ("@ + decimal(pct as int) + "%) - "@
                + elapsed_text(p, now),
            None => p.status_message->0@ + " - "@ + elapsed_text(p, now),
        }
    } else if p.is_indexing {
        "Indexing in progress - "@ + elapsed_text(p, now)
    } else {
        "Ready"@
    }
}

/// The paused total of `p` is non-negative and no longer than the time from its start to `t`.
pub open spec fn paused_total_within(p: IndexingProgress, t: int) -> bool {
    &&& p.started_at is Some
    &&& 0 <= p.total_paused_time
    &&& p.total_paused_time * 1000 <= t - p.started_at->0
}

fn text_of(s: &str) -> (r: String)
    ensures
        r@ == s@,
{
    String::from_str(s)
}

/// Appends `n` seconds as `Ns`, `Nm Ns` or `Nh Nm Ns`.
fn push_duration(out: &mut String, secs: i128)
    ensures
        final(out)@ == old(out)@ + duration_text(secs as int),
{
    if secs < 60 {
        push_decimal(out, secs);
        out.append("s");
    } else if secs < 3600 {
        push_decimal(out, secs / 60);
        out.append("m ");
        push_decimal(out, secs % 60);
        out.append("s");
    } else {
        push_decimal(out, secs / 3600);
        out.append("h ");
        push_decimal(out, (secs % 3600) / 60);
        out.append("m ");
        push_decimal(out, secs % 60);
        out.append("s");
    }
    proof {
        assert(out@ =~= old(out)@ + duration_text(secs as int));
    }
}

impl IndexingProgress {
    /// A timeline for `project` on which nothing has happened yet.
    pub fn new(project: ProjectPath) -> (r: IndexingProgress)
        ensures
            r.project == project,
            !r.is_indexing,
            !r.is_paused,
            r.started_at is None,
            r.completed_at is None,
            r.paused_at is None,
            r.total_paused_time == 0,
            r.estimated_files is None,
            r.crate_count is None,
            r.status_message is None,
            r.progress_percentage is None,
    {
        IndexingProgress {
            project,
            is_indexing: false,
            is_paused: false,
            started_at: None,
            completed_at: None,
            paused_at: None,
            total_paused_time: 0,
            estimated_files: None,
            crate_count: None,
            status_message: None,
            progress_percentage: None,
        }
    }

    /// Marks the start of indexing at time `now`.
    pub fn start_indexing_at(&mut self, now: i64)
        ensures
            *final(self) == started(*old(self), now),
    {
        self.is_indexing = true;
        self.is_paused = false;
        self.started_at = Some(now);
        self.completed_at = None;
        self.paused_at = None;
        self.total_paused_time = 0;
    }

    /// Marks the start of indexing at the current time.
    pub fn start_indexing(&mut self)
        ensures
            exists|t: i64| *final(self) == #[trigger] started(*old(self), t),
    {
        let now = current_time_millis();
        self.start_indexing_at(now);
    }

    /// Marks the completion of indexing at time `now`.
    pub fn complete_indexing_at(&mut self, now: i64)
        ensures
            *final(self) == completed(*old(self), now),
    {
        self.is_indexing = false;
        self.is_paused = false;
        self.completed_at = Some(now);
        self.progress_percentage = Some(100);
        self.paused_at = None;
    }

    /// Marks the completion of indexing at the current time.
    pub fn complete_indexing(&mut self)
        ensures
            exists|t: i64| *final(self) == #[trigger] completed(*old(self), t),
    {
        let now = current_time_millis();
        self.complete_indexing_at(now);
    }

    /// Pauses a running indexing at time `now`.
    pub fn pause_indexing_at(&mut self, now: i64)
        ensures
            *final(self) == paused(*old(self), now),
    {
        if self.is_indexing && !self.is_paused {
            self.is_paused = true;
            self.paused_at = Some(now);
        }
    }

    /// Pauses a running indexing at the current time.
    pub fn pause_indexing(&mut self)
        ensures
            exists|t: i64| *final(self) == #[trigger] paused(*old(self), t),
    {
        let now = current_time_millis();
        self.pause_indexing_at(now);
    }

    /// Resumes a paused indexing at time `now`.
    pub fn resume_indexing_at(&mut self, now: i64)
        ensures
            *final(self) == resumed(*old(self), now),
    {
        if self.is_indexing && self.is_paused {
            match self.paused_at {
                Some(pa) => {
                    let pause: i128 = (now as i128 - pa as i128) / 1000;
                    let total: i128 = self.total_paused_time as i128 + pause;
                    self.total_paused_time = if total > i64::MAX as i128 {
                        i64::MAX
                    } else if total < i64::MIN as i128 {
                        i64::MIN
                    } else {
                        total as i64
                    };
                },
                None => {},
            }
            self.is_paused = false;
            self.paused_at = None;
        }
    }

    /// Resumes a paused indexing at the current time.
    pub fn resume_indexing(&mut self)
        ensures
            exists|t: i64| *final(self) == #[trigger] resumed(*old(self), t),
    {
        let now = current_time_millis();
        self.resume_indexing_at(now);
    }

    /// Whole seconds of unpaused indexing at time `now`; none before indexing started.
    pub fn elapsed_seconds_at(&self, now: i64) -> (r: Option<i128>)
        ensures
            r matches Some(s) ==> elapsed_seconds(*self, now as int) == Some(s as int),
            r is None <==> elapsed_seconds(*self, now as int) is None,
    {
        match self.started_at {
            None => None,
            Some(s) => {
                let end: i128 = match self.completed_at {
                    Some(e) => e as i128,
                    None => now as i128,
                };
                let current_pause: i128 = if self.is_paused {
                    match self.paused_at {
                        Some(pa) => end - pa as i128,
                        None => 0,
                    }
                } else {
                    0
                };
                let ms: i128 = end - s as i128 - current_pause - self.total_paused_time as i128
                    * 1000;
                Some(ms / 1000)
            },
        }
    }

    /// The unpaused indexing time at `now`, as text.
    pub fn elapsed_time_at(&self, now: i64) -> (r: String)
        ensures
            r@ == elapsed_text(*self, now as int),
    {
        match self.elapsed_seconds_at(now) {
            Some(secs) => {
                let mut out = String::new();
                push_duration(&mut out, secs);
                proof {
                    assert(out@ =~= elapsed_text(*self, now as int));
                }
                out
            },
            None => text_of("Not started"),
        }
    }

    /// The unpaused indexing time now, as text.
    pub fn elapsed_time(&self) -> (r: String)
        ensures
            exists|t: i64| r@ == #[trigger] elapsed_text(*self, t as int),
    {
        let now = current_time_millis();
        self.elapsed_time_at(now)
    }

    /// A human-readable status at time `now`.
    pub fn status_message_at(&self, now: i64) -> (r: String)
        ensures
            r@ == status_text(*self, now as int),
    {
        if !self.is_indexing && self.completed_at.is_some() {
            let mut out = text_of("Indexing complete (");
            out.append(self.elapsed_time_at(now).as_str());
            out.append(")");
            return out;
        }
        if self.is_paused {
            let mut out = text_of("Indexing paused - ");
            out.append(self.elapsed_time_at(now).as_str());
            return out;
        }
        match &self.status_message {
            Some(msg) => {
                let mut out = msg.clone();
                match self.progress_percentage {
                    Some(pct) => {
                        out.append(" (");
                        push_decimal(&mut out, pct as i128);
                        out.append("%) - ");
                    },
                    None => {
                        out.append(" - ");
                    },
                }
                out.append(self.elapsed_time_at(now).as_str());
                return out;
            },
            None => {},
        }
        if self.is_indexing {
            let mut out = text_of("Indexing in progress - ");
            out.append(self.elapsed_time_at(now).as_str());
            return out;
        }
        text_of("Ready")
    }

    /// A human-readable status now.
    pub fn status_message(&self) -> (r: String)
        ensures
            exists|t: i64| r@ == #[trigger] status_text(*self, t as int),
    {
        let now = current_time_millis();
        self.status_message_at(now)
    }
}

/// Starting and then at once completing an indexing leaves it finished, at
/// one hundred percent, with a non-negative elapsed time.
pub proof fn lemma_start_then_complete(p: IndexingProgress, t_start: i64, t_end: i64, now: int)
    requires
        t_start <= t_end,
    ensures
        !completed(started(p, t_start), t_end).is_indexing,
        completed(started(p, t_start), t_end).progress_percentage == Some(100u32),
        elapsed_seconds(completed(started(p, t_start), t_end), now) matches Some(s) && s >= 0,
{
    let q = completed(started(p, t_start), t_end);
    assert(elapsed_millis(q, now) == Some(t_end - t_start));
}

/// Pausing a running indexing and later resuming it keeps the paused total
/// non-negative and within the time elapsed since the start.
pub proof fn lemma_pause_resume_bounded(p: IndexingProgress, t_pause: i64, t_resume: i64)
    requires
        p.is_indexing,
        !p.is_paused,
        paused_total_within(p, t_pause as int),
        t_pause <= t_resume,
    ensures
        paused_total_within(resumed(paused(p, t_pause), t_resume), t_resume as int),
        resumed(paused(p, t_pause), t_resume).total_paused_time >= p.total_paused_time,
{
    let q = paused(p, t_pause);
    let d = t_resume - t_pause;
    assert(pause_seconds(q, t_resume) == d / 1000);
    assert((d / 1000) * 1000 <= d) by (nonlinear_arith)
        requires
            d >= 0,
    ;
    assert(d / 1000 >= 0) by (nonlinear_arith)
        requires
            d >= 0,
    ;
}

} // verus!
