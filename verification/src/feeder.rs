//! The stdin feeder: how a prompt reaches the child.
//!
//! Some drivers parse slash commands only from argument position, and a long prompt on
//! the command line can exceed what the operating system accepts. So a short single-line
//! slash command travels as a launch argument, and everything else is piped to the child's
//! input, which is closed afterwards to end the turn.

use crate::text::{contains_char, trim, trimmed, utf8_len};
use vstd::prelude::*;
use vstd::string::*;

verus! {

/// A slash command is shorter than this many bytes, white space at its ends not counted.
pub const SLASH_COMMAND_LIMIT: usize = 256;

/// A prompt is a slash command when, without the white space at its ends, it starts with
/// a slash, holds no line feed and is shorter than [`SLASH_COMMAND_LIMIT`] bytes.
pub open spec fn slash_command(prompt: Seq<char>) -> bool {
    let t = trimmed(prompt);
    &&& t.len() > 0
    &&& t[0] == '/'
    &&& !t.contains('\n')
    &&& utf8_len(t) < SLASH_COMMAND_LIMIT
}

/// Decides [`slash_command`].
pub fn is_slash_command(prompt: &str) -> (r: bool)
    ensures
        r == slash_command(prompt@),
{
    let t = trim(prompt);
    if t.is_empty() {
        return false;
    }
    t.get_char(0) == '/' && !contains_char(t, '\n') && t.as_bytes().len() < SLASH_COMMAND_LIMIT
}

/// How the prompt travels.
#[derive(Clone, Copy, Debug, PartialEq, Eq, Structural)]
pub enum InputRoute {
    /// As the launch arguments `-p` and the prompt; the child's input is only closed.
    Argument,
    /// Written to the child's input, which is then closed.
    Stdin,
}

/// The route of a prompt.
pub open spec fn route_of(prompt: Seq<char>) -> InputRoute {
    if slash_command(prompt) {
        InputRoute::Argument
    } else {
        InputRoute::Stdin
    }
}

/// Chooses the route of a prompt.
pub fn select_route(prompt: &str) -> (r: InputRoute)
    ensures
        r == route_of(prompt@),
{
    if is_slash_command(prompt) {
        InputRoute::Argument
    } else {
        InputRoute::Stdin
    }
}

/// What to launch the child with and what to write to its input.
#[derive(Debug)]
pub struct InputPlan {
    /// The launch arguments, complete.
    pub args: Vec<String>,
    /// The text to write to the child's input before closing it; `None` where the input
    /// is closed at once.
    pub stdin: Option<String>,
}

/// View of [`InputPlan`].
pub struct InputPlanView {
    pub args: Seq<Seq<char>>,
    pub stdin: Option<Seq<char>>,
}

impl View for InputPlan {
    type V = InputPlanView;

    open spec fn view(&self) -> InputPlanView {
        InputPlanView { args: self.args.deep_view(), stdin: self.stdin.deep_view() }
    }
}

/// The plan for a prompt: a slash command is appended to the arguments behind `-p`, as it
/// was given; any other prompt is left for the child's input.
pub open spec fn planned(args: Seq<Seq<char>>, prompt: Seq<char>) -> InputPlanView {
    match route_of(prompt) {
        InputRoute::Argument => InputPlanView {
            args: args.push("-p"@).push(prompt),
            stdin: None,
        },
        InputRoute::Stdin => InputPlanView { args, stdin: Some(prompt) },
    }
}

/// Plans how `prompt` reaches a child that is launched with `args`.
pub fn plan_input(args: Vec<String>, prompt: &str) -> (r: InputPlan)
    ensures
        r@ == planned(args.deep_view(), prompt@),
{
    let mut args = args;
    match select_route(prompt) {
        InputRoute::Argument => {
            let ghost given = args.deep_view();
            args.push(String::from_str("-p"));
            args.push(String::from_str(prompt));
            assert(args.deep_view() =~= given.push("-p"@).push(prompt@));
            InputPlan { args, stdin: None }
        },
        InputRoute::Stdin => InputPlan { args, stdin: Some(String::from_str(prompt)) },
    }
}

/// A prompt with a line feed inside is never a slash command, whatever it starts with.
pub proof fn lemma_multiline_goes_to_stdin(prompt: Seq<char>)
    requires
        trimmed(prompt).contains('\n'),
    ensures
        route_of(prompt) == InputRoute::Stdin,
{
}

/// A prompt that does not start with a slash, white space aside, is piped.
pub proof fn lemma_plain_goes_to_stdin(prompt: Seq<char>)
    requires
        trimmed(prompt).len() == 0 || trimmed(prompt)[0] != '/',
    ensures
        route_of(prompt) == InputRoute::Stdin,
{
}

} // verus!
