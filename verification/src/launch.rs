//! What a driver process is launched with: its model alias and its arguments for a fresh,
//! continued or resumed conversation, and what follows a launch that failed.

use vstd::prelude::*;
use vstd::string::*;

verus! {

/// The alias the driver knows a model by. The long-context model has an alias of its own;
/// every other name is passed through as it is.
pub open spec fn model_alias(model: Seq<char>) -> Seq<char> {
    if model == "sonnet1m"@ {
        "sonnet[1m]"@
    } else {
        model
    }
}

/// Maps a model name of the user interface to the alias the driver knows it by.
pub fn map_model_to_claude_alias(model: &str) -> (r: String)
    ensures
        r@ == model_alias(model@),
{
    if *model == *"sonnet1m" {
        String::from_str("sonnet[1m]")
    } else {
        String::from_str(model)
    }
}

/// Which conversation a launch belongs to.
#[derive(Debug)]
pub enum LaunchMode {
    /// A new conversation.
    Fresh,
    /// The most recent conversation of the project.
    Continue,
    /// The conversation with the given session id.
    Resume(String),
}

/// View of [`LaunchMode`].
pub enum LaunchModeView {
    Fresh,
    Continue,
    Resume(Seq<char>),
}

impl View for LaunchMode {
    type V = LaunchModeView;

    open spec fn view(&self) -> LaunchModeView {
        match self {
            LaunchMode::Fresh => LaunchModeView::Fresh,
            LaunchMode::Continue => LaunchModeView::Continue,
            LaunchMode::Resume(sid) => LaunchModeView::Resume(sid@),
        }
    }
}

impl DeepView for LaunchMode {
    type V = LaunchModeView;

    open spec fn deep_view(&self) -> LaunchModeView {
        self@
    }
}

impl LaunchModeView {
    /// The arguments that select the conversation; they go in front of all others.
    pub open spec fn leading_args(self) -> Seq<Seq<char>> {
        match self {
            LaunchModeView::Fresh => Seq::empty(),
            LaunchModeView::Continue => seq!["-c"@],
            LaunchModeView::Resume(sid) => seq!["--resume"@, sid],
        }
    }

    /// The mode to try once when a launch in this mode has failed: a resume that cannot
    /// be started falls back to continuing. Nothing else has a fallback.
    pub open spec fn fallback(self) -> Option<LaunchModeView> {
        match self {
            LaunchModeView::Resume(_) => Some(LaunchModeView::Continue),
            _ => None,
        }
    }
}

/// The launch arguments for `mode`: the mode's own arguments, then `base`.
pub fn launch_args(mode: &LaunchMode, base: &Vec<String>) -> (r: Vec<String>)
    ensures
        r.deep_view() == mode@.leading_args() + base.deep_view(),
{
    let mut args: Vec<String> = Vec::new();
    match mode {
        LaunchMode::Fresh => {},
        LaunchMode::Continue => {
            args.push(String::from_str("-c"));
        },
        LaunchMode::Resume(sid) => {
            args.push(String::from_str("--resume"));
            args.push(sid.clone());
        },
    }
    assert(args.deep_view() =~= mode@.leading_args());
    let ghost lead = args.deep_view();
    let mut i: usize = 0;
    while i < base.len()
        invariant
            i <= base@.len(),
            args.deep_view() == lead + base.deep_view().take(i as int),
        decreases base@.len() - i,
    {
        let ghost before = args.deep_view();
        args.push(base[i].clone());
        proof {
            assert(args.deep_view() =~= before.push(base@[i as int]@));
            assert(base.deep_view().take(i + 1) =~= base.deep_view().take(i as int).push(
                base@[i as int]@,
            ));
            assert(lead + base.deep_view().take(i + 1) =~= (lead + base.deep_view().take(
                i as int,
            )).push(base@[i as int]@));
        }
        i += 1;
    }
    assert(base.deep_view().take(i as int) =~= base.deep_view());
    args
}

/// The mode to try once when a launch in `mode` has failed.
pub fn fallback_mode(mode: &LaunchMode) -> (r: Option<LaunchMode>)
    ensures
        r.deep_view() == mode@.fallback(),
{
    match mode {
        LaunchMode::Resume(_) => Some(LaunchMode::Continue),
        _ => None,
    }
}

/// The fallback is one shot: the mode fallen back to has no fallback itself.
pub proof fn lemma_fallback_is_one_shot(mode: LaunchModeView)
    ensures
        mode.fallback() matches Some(next) ==> next.fallback() is None,
{
}

/// What the caller reports of a launch attempt.
#[derive(Debug)]
pub enum LaunchOutcome {
    /// The process runs.
    Started,
    /// The process could not be started; the text says why.
    Failed(String),
}

/// What to do after a launch attempt.
#[derive(Debug)]
pub enum LaunchDecision {
    /// The session is under way.
    Proceed,
    /// Launch once more, in the given mode.
    Retry(LaunchMode),
    /// Give the error to the caller.
    Surface(String),
}

/// View of [`LaunchDecision`].
pub enum LaunchDecisionView {
    Proceed,
    Retry(LaunchModeView),
    Surface(Seq<char>),
}

impl View for LaunchDecision {
    type V = LaunchDecisionView;

    open spec fn view(&self) -> LaunchDecisionView {
        match self {
            LaunchDecision::Proceed => LaunchDecisionView::Proceed,
            LaunchDecision::Retry(mode) => LaunchDecisionView::Retry(mode@),
            LaunchDecision::Surface(error) => LaunchDecisionView::Surface(error@),
        }
    }
}

/// The decision after a launch in `mode` ended as told: a failure is retried in the
/// fallback mode where there is one, and surfaced otherwise.
pub open spec fn decided(mode: LaunchModeView, failure: Option<Seq<char>>) -> LaunchDecisionView {
    match failure {
        None => LaunchDecisionView::Proceed,
        Some(error) => match mode.fallback() {
            Some(next) => LaunchDecisionView::Retry(next),
            None => LaunchDecisionView::Surface(error),
        },
    }
}

/// Decides what follows a launch attempt in `mode`.
pub fn after_launch(mode: &LaunchMode, outcome: LaunchOutcome) -> (r: LaunchDecision)
    ensures
        r@ == decided(
            mode@,
            match outcome {
                LaunchOutcome::Started => None,
                LaunchOutcome::Failed(error) => Some(error@),
            },
        ),
{
    match outcome {
        LaunchOutcome::Started => LaunchDecision::Proceed,
        LaunchOutcome::Failed(error) => match fallback_mode(mode) {
            Some(next) => LaunchDecision::Retry(next),
            None => LaunchDecision::Surface(error),
        },
    }
}

/// A failed launch is retried at most once: whatever the first mode is, a failure of the
/// retry is surfaced.
pub proof fn lemma_retry_is_final(mode: LaunchModeView, first: Seq<char>, second: Seq<char>)
    ensures
        decided(mode, Some(first)) matches LaunchDecisionView::Retry(next) ==> decided(
            next,
            Some(second),
        ) == LaunchDecisionView::Surface(second),
{
}

} // verus!
