//! The record kept for one run of a driver process, and its mathematical view.

use vstd::prelude::*;

verus! {

/// Identifies one run. Assigned by the registry, never reused.
pub type RunId = u64;

/// The family of driver executables a run belongs to.
#[derive(Clone, Copy, Debug, PartialEq, Eq, Structural)]
pub enum ToolKind {
    Claude,
    Codex,
    Gemini,
}

/// How a run ended.
#[derive(Debug)]
pub enum Outcome {
    /// The process exited by itself; the flag is its exit success.
    Completed(bool),
    /// The run was stopped on request.
    Cancelled,
    /// The run could not be brought to a normal end.
    Failed(String),
}

/// Where a run stands in its life.
#[derive(Debug)]
pub enum RunStatus {
    /// Spawned; the child has not announced its session yet.
    Starting,
    /// The child has announced its session.
    Running,
    /// The process exited by itself; the flag is its exit success.
    Completed(bool),
    /// The run was stopped on request.
    Cancelled,
    /// The run could not be brought to a normal end; the text says why.
    Failed(String),
}

/// View of [`Outcome`].
pub enum OutcomeView {
    Completed(bool),
    Cancelled,
    Failed(Seq<char>),
}

/// View of [`RunStatus`].
pub enum RunStatusView {
    Starting,
    Running,
    Completed(bool),
    Cancelled,
    Failed(Seq<char>),
}

impl OutcomeView {
    /// The terminal status that records this outcome.
    pub open spec fn status(self) -> RunStatusView {
        match self {
            OutcomeView::Completed(ok) => RunStatusView::Completed(ok),
            OutcomeView::Cancelled => RunStatusView::Cancelled,
            OutcomeView::Failed(why) => RunStatusView::Failed(why),
        }
    }
}

impl RunStatusView {
    /// A terminal status is never left again.
    pub open spec fn is_terminal(self) -> bool {
        !(self is Starting) && !(self is Running)
    }
}

impl View for Outcome {
    type V = OutcomeView;

    open spec fn view(&self) -> OutcomeView {
        match self {
            Outcome::Completed(ok) => OutcomeView::Completed(*ok),
            Outcome::Cancelled => OutcomeView::Cancelled,
            Outcome::Failed(why) => OutcomeView::Failed(why@),
        }
    }
}

impl View for RunStatus {
    type V = RunStatusView;

    open spec fn view(&self) -> RunStatusView {
        match self {
            RunStatus::Starting => RunStatusView::Starting,
            RunStatus::Running => RunStatusView::Running,
            RunStatus::Completed(ok) => RunStatusView::Completed(*ok),
            RunStatus::Cancelled => RunStatusView::Cancelled,
            RunStatus::Failed(why) => RunStatusView::Failed(why@),
        }
    }
}

impl Outcome {
    /// The terminal status that records this outcome.
    pub fn into_status(self) -> (r: RunStatus)
        ensures
            r@ == self@.status(),
            r@.is_terminal(),
    {
        match self {
            Outcome::Completed(ok) => RunStatus::Completed(ok),
            Outcome::Cancelled => RunStatus::Cancelled,
            Outcome::Failed(why) => RunStatus::Failed(why),
        }
    }
}

impl RunStatus {
    /// Whether the status is terminal.
    pub fn is_terminal(&self) -> (r: bool)
        ensures
            r == self@.is_terminal(),
    {
        match self {
            RunStatus::Starting => false,
            RunStatus::Running => false,
            _ => true,
        }
    }
}

impl Clone for RunStatus {
    fn clone(&self) -> (r: Self)
        ensures
            r@ == self@,
    {
        match self {
            RunStatus::Starting => RunStatus::Starting,
            RunStatus::Running => RunStatus::Running,
            RunStatus::Completed(ok) => RunStatus::Completed(*ok),
            RunStatus::Cancelled => RunStatus::Cancelled,
            RunStatus::Failed(why) => RunStatus::Failed(why.clone()),
        }
    }
}

/// What is known of a run when its process is launched.
#[derive(Debug)]
pub struct LaunchInfo {
    pub pid: u32,
    pub tool_kind: ToolKind,
    pub project_path: String,
    pub initial_prompt: String,
    pub model: String,
}

/// View of [`LaunchInfo`].
pub struct LaunchInfoView {
    pub pid: u32,
    pub tool_kind: ToolKind,
    pub project_path: Seq<char>,
    pub initial_prompt: Seq<char>,
    pub model: Seq<char>,
}

impl View for LaunchInfo {
    type V = LaunchInfoView;

    open spec fn view(&self) -> LaunchInfoView {
        LaunchInfoView {
            pid: self.pid,
            tool_kind: self.tool_kind,
            project_path: self.project_path@,
            initial_prompt: self.initial_prompt@,
            model: self.model@,
        }
    }
}

impl Clone for LaunchInfo {
    fn clone(&self) -> (r: Self)
        ensures
            r@ == self@,
    {
        LaunchInfo {
            pid: self.pid,
            tool_kind: self.tool_kind,
            project_path: self.project_path.clone(),
            initial_prompt: self.initial_prompt.clone(),
            model: self.model.clone(),
        }
    }
}

/// Everything the registry keeps about one run.
#[derive(Debug)]
pub struct RunRecord {
    pub run_id: RunId,
    /// Chosen by the child; absent until its init line arrives.
    pub session_id: Option<String>,
    pub pid: u32,
    pub tool_kind: ToolKind,
    pub project_path: String,
    pub initial_prompt: String,
    pub model: String,
    /// Every output line of the run so far, oldest first.
    pub live_output: Vec<String>,
    pub status: RunStatus,
}

/// View of [`RunRecord`].
pub struct RunRecordView {
    pub run_id: RunId,
    pub session_id: Option<Seq<char>>,
    pub pid: u32,
    pub tool_kind: ToolKind,
    pub project_path: Seq<char>,
    pub initial_prompt: Seq<char>,
    pub model: Seq<char>,
    pub live_output: Seq<Seq<char>>,
    pub status: RunStatusView,
}

impl RunRecordView {
    /// The record of a run that has just been launched.
    pub open spec fn fresh(run_id: RunId, launch: LaunchInfoView) -> RunRecordView {
        RunRecordView {
            run_id,
            session_id: None,
            pid: launch.pid,
            tool_kind: launch.tool_kind,
            project_path: launch.project_path,
            initial_prompt: launch.initial_prompt,
            model: launch.model,
            live_output: Seq::empty(),
            status: RunStatusView::Starting,
        }
    }

    /// A starting run has no session yet; a running one has announced it.
    pub open spec fn coherent(self) -> bool {
        &&& self.status is Starting ==> self.session_id is None
        &&& self.status is Running ==> self.session_id is Some
    }

    /// Still counted among the running sessions.
    pub open spec fn is_active(self) -> bool {
        !self.status.is_terminal()
    }
}

impl View for RunRecord {
    type V = RunRecordView;

    open spec fn view(&self) -> RunRecordView {
        RunRecordView {
            run_id: self.run_id,
            session_id: self.session_id.deep_view(),
            pid: self.pid,
            tool_kind: self.tool_kind,
            project_path: self.project_path@,
            initial_prompt: self.initial_prompt@,
            model: self.model@,
            live_output: self.live_output.deep_view(),
            status: self.status@,
        }
    }
}

impl Clone for RunRecord {
    fn clone(&self) -> (r: Self)
        ensures
            r@ == self@,
    {
        let live_output = self.live_output.clone();
        assert(live_output@ =~= self.live_output@);
        assert(live_output.deep_view() =~= self.live_output.deep_view());
        RunRecord {
            run_id: self.run_id,
            session_id: self.session_id.clone(),
            pid: self.pid,
            tool_kind: self.tool_kind,
            project_path: self.project_path.clone(),
            initial_prompt: self.initial_prompt.clone(),
            model: self.model.clone(),
            live_output,
            status: self.status.clone(),
        }
    }
}

} // verus!
