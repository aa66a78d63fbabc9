//! What the engine asks its caller to do: notifications for listeners, figures for the
//! usage collaborator, and pauses between notifications.
//!
//! A notification is kept in structured form; [`Notification::name`] gives the event name
//! listeners subscribe to, built on the label the embedding application uses for the tool.

use crate::run::{RunId, ToolKind};
use vstd::prelude::*;
use vstd::string::*;

verus! {

/// The kinds of notification.
#[derive(Clone, Copy, Debug, PartialEq, Eq, Structural)]
pub enum Channel {
    /// One raw line of the child's output stream.
    Output,
    /// One raw line of the child's error stream.
    Error,
    /// A run started or stopped.
    SessionState,
    /// A cancellation was requested.
    Cancelled,
    /// A run is over; the payload tells whether it succeeded.
    Complete,
}

/// The name of a channel as it appears in event names.
pub open spec fn channel_name(channel: Channel) -> Seq<char> {
    match channel {
        Channel::Output => "output"@,
        Channel::Error => "error"@,
        Channel::SessionState => "session-state"@,
        Channel::Cancelled => "cancelled"@,
        Channel::Complete => "complete"@,
    }
}

/// The event name: the tool's label, a hyphen, the channel and, for a session-scoped
/// event, a colon and the session id.
pub open spec fn event_name(label: Seq<char>, channel: Channel, session: Option<Seq<char>>) -> Seq<
    char,
> {
    let generic = label + "-"@ + channel_name(channel);
    match session {
        Some(sid) => generic + ":"@ + sid,
        None => generic,
    }
}

/// The payload of a session-state notification.
#[derive(Debug)]
pub struct SessionState {
    pub session_id: String,
    /// `true` for "started", `false` for "stopped".
    pub started: bool,
    pub project_path: Option<String>,
    pub model: Option<String>,
    pub pid: Option<u32>,
    pub run_id: Option<RunId>,
    pub success: Option<bool>,
    pub error: Option<String>,
}

/// View of [`SessionState`].
pub struct SessionStateView {
    pub session_id: Seq<char>,
    pub started: bool,
    pub project_path: Option<Seq<char>>,
    pub model: Option<Seq<char>>,
    pub pid: Option<u32>,
    pub run_id: Option<RunId>,
    pub success: Option<bool>,
    pub error: Option<Seq<char>>,
}

impl View for SessionState {
    type V = SessionStateView;

    open spec fn view(&self) -> SessionStateView {
        SessionStateView {
            session_id: self.session_id@,
            started: self.started,
            project_path: self.project_path.deep_view(),
            model: self.model.deep_view(),
            pid: self.pid,
            run_id: self.run_id,
            success: self.success,
            error: self.error.deep_view(),
        }
    }
}

/// What a notification carries.
#[derive(Debug)]
pub enum Payload {
    Line(String),
    Flag(bool),
    State(SessionState),
}

/// View of [`Payload`].
pub enum PayloadView {
    Line(Seq<char>),
    Flag(bool),
    State(SessionStateView),
}

impl View for Payload {
    type V = PayloadView;

    open spec fn view(&self) -> PayloadView {
        match self {
            Payload::Line(line) => PayloadView::Line(line@),
            Payload::Flag(flag) => PayloadView::Flag(*flag),
            Payload::State(state) => PayloadView::State(state@),
        }
    }
}

/// One notification for listeners.
#[derive(Debug)]
pub struct Notification {
    pub tool: ToolKind,
    pub channel: Channel,
    /// The session the event is scoped to; `None` for the generic event of the tool.
    pub session: Option<String>,
    pub payload: Payload,
}

/// View of [`Notification`].
pub struct NotificationView {
    pub tool: ToolKind,
    pub channel: Channel,
    pub session: Option<Seq<char>>,
    pub payload: PayloadView,
}

impl View for Notification {
    type V = NotificationView;

    open spec fn view(&self) -> NotificationView {
        NotificationView {
            tool: self.tool,
            channel: self.channel,
            session: self.session.deep_view(),
            payload: self.payload@,
        }
    }
}

impl NotificationView {
    /// The event name listeners subscribe to, where `label` is the name the tool goes by
    /// in event names.
    pub open spec fn name(self, label: Seq<char>) -> Seq<char> {
        event_name(label, self.channel, self.session)
    }
}

/// One thing the caller is asked to do.
#[derive(Debug)]
pub enum Effect {
    /// Deliver a notification to the listeners, best effort.
    Emit(Notification),
    /// Hand a token total to the usage collaborator of a session.
    ReportUsage { session_id: String, total_tokens: u64 },
    /// Wait so that notifications already sent reach listeners first.
    Pause { millis: u64 },
}

/// View of [`Effect`].
pub enum EffectView {
    Emit(NotificationView),
    ReportUsage { session_id: Seq<char>, total_tokens: u64 },
    Pause { millis: u64 },
}

impl View for Effect {
    type V = EffectView;

    open spec fn view(&self) -> EffectView {
        match self {
            Effect::Emit(n) => EffectView::Emit(n@),
            Effect::ReportUsage { session_id, total_tokens } => EffectView::ReportUsage {
                session_id: session_id@,
                total_tokens: *total_tokens,
            },
            Effect::Pause { millis } => EffectView::Pause { millis: *millis },
        }
    }
}

impl DeepView for Effect {
    type V = EffectView;

    open spec fn deep_view(&self) -> EffectView {
        self@
    }
}

/// How long to wait between a notification and the one that closes the run.
pub const SETTLE_MILLIS: u64 = 100;

/// The name of a channel as it appears in event names.
pub fn channel_label(channel: Channel) -> (r: &'static str)
    ensures
        r@ == channel_name(channel),
{
    match channel {
        Channel::Output => "output",
        Channel::Error => "error",
        Channel::SessionState => "session-state",
        Channel::Cancelled => "cancelled",
        Channel::Complete => "complete",
    }
}

impl Notification {
    /// The event name listeners subscribe to, where `label` is the name the tool goes by
    /// in event names.
    pub fn name(&self, label: &str) -> (r: String)
        ensures
            r@ == self@.name(label@),
    {
        let mut name = String::from_str(label);
        name.append("-");
        name.append(channel_label(self.channel));
        match &self.session {
            Some(sid) => {
                name.append(":");
                name.append(sid.as_str());
            },
            None => {},
        }
        name
    }
}

/// A notification that carries one raw line.
pub fn line_event(tool: ToolKind, channel: Channel, session: Option<String>, line: &str) -> (r:
    Effect)
    ensures
        r@ == line_effect(tool, channel, session.deep_view(), line@),
{
    Effect::Emit(
        Notification { tool, channel, session, payload: Payload::Line(String::from_str(line)) },
    )
}

/// A notification that carries a flag.
pub fn flag_event(tool: ToolKind, channel: Channel, session: Option<String>, flag: bool) -> (r:
    Effect)
    ensures
        r@ == flag_effect(tool, channel, session.deep_view(), flag),
{
    Effect::Emit(Notification { tool, channel, session, payload: Payload::Flag(flag) })
}

/// The effect of emitting `line` on `channel`.
pub open spec fn line_effect(
    tool: ToolKind,
    channel: Channel,
    session: Option<Seq<char>>,
    line: Seq<char>,
) -> EffectView {
    EffectView::Emit(
        NotificationView { tool, channel, session, payload: PayloadView::Line(line) },
    )
}

/// The effect of emitting `flag` on `channel`.
pub open spec fn flag_effect(
    tool: ToolKind,
    channel: Channel,
    session: Option<Seq<char>>,
    flag: bool,
) -> EffectView {
    EffectView::Emit(
        NotificationView { tool, channel, session, payload: PayloadView::Flag(flag) },
    )
}

} // verus!
