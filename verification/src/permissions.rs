//! Checking a permission configuration before it is stored: a tool must not be allowed
//! and forbidden at once, and some combinations deserve a warning.

use crate::text::{contains_string, dedup_strings, join, joined, push_string, without_repeats};
use vstd::prelude::*;
use vstd::string::*;

verus! {

/// What a check of a permission configuration found.
#[derive(Debug)]
pub struct PermissionValidation {
    /// No error was found.
    pub valid: bool,
    pub warnings: Vec<String>,
    pub errors: Vec<String>,
}

/// View of [`PermissionValidation`].
pub struct PermissionValidationView {
    pub valid: bool,
    pub warnings: Seq<Seq<char>>,
    pub errors: Seq<Seq<char>>,
}

impl View for PermissionValidation {
    type V = PermissionValidationView;

    open spec fn view(&self) -> PermissionValidationView {
        PermissionValidationView {
            valid: self.valid,
            warnings: self.warnings.deep_view(),
            errors: self.errors.deep_view(),
        }
    }
}

/// The predicate "is one of `tools`".
pub open spec fn among(tools: Seq<Seq<char>>) -> spec_fn(Seq<char>) -> bool {
    |tool: Seq<char>| tools.contains(tool)
}

/// The tools that are both allowed and forbidden, each once, in the order they are
/// allowed in.
pub open spec fn conflicting(allowed: Seq<Seq<char>>, disallowed: Seq<Seq<char>>) -> Seq<Seq<char>> {
    without_repeats(allowed).filter(among(disallowed))
}

/// The error that names the conflicting tools.
pub open spec fn conflict_error(conflicts: Seq<Seq<char>>) -> Seq<char> {
    "工具冲突: "@ + joined(conflicts, ", "@) + " 同时在允许和禁止列表中"@
}

/// The warning about skipping all permission checks.
pub open spec fn skip_warning() -> Seq<char> {
    "已启用危险权限跳过模式，这会绕过所有安全检查"@
}

/// The warning about tools that write in a mode that only reads.
pub open spec fn read_only_warning() -> Seq<char> {
    "只读模式下允许写入工具可能导致冲突"@
}

/// A tool that writes is allowed.
pub open spec fn allows_writing(allowed: Seq<Seq<char>>) -> bool {
    allowed.contains("Write"@) || allowed.contains("Edit"@)
}

/// What the check of a configuration finds: an error where tools conflict, a warning
/// where permission checks are skipped, and a warning where the mode only reads but a
/// tool that writes is allowed.
pub open spec fn validated(
    allowed: Seq<Seq<char>>,
    disallowed: Seq<Seq<char>>,
    dangerous_skip: bool,
    read_only: bool,
) -> PermissionValidationView {
    let conflicts = conflicting(allowed, disallowed);
    PermissionValidationView {
        valid: conflicts.len() == 0,
        warnings: (if dangerous_skip {
            seq![skip_warning()]
        } else {
            Seq::empty()
        }) + (if read_only && allows_writing(allowed) {
            seq![read_only_warning()]
        } else {
            Seq::empty()
        }),
        errors: if conflicts.len() == 0 {
            Seq::empty()
        } else {
            seq![conflict_error(conflicts)]
        },
    }
}

/// Lists the tools that are both allowed and forbidden.
pub fn find_conflicts(allowed: &Vec<String>, disallowed: &Vec<String>) -> (r: Vec<String>)
    ensures
        r.deep_view() == conflicting(allowed.deep_view(), disallowed.deep_view()),
{
    let once = dedup_strings(allowed);
    let ghost keep = among(disallowed.deep_view());
    let mut out: Vec<String> = Vec::new();
    let mut i: usize = 0;
    assert(once.deep_view().take(0) =~= Seq::<Seq<char>>::empty());
    assert(out.deep_view() =~= Seq::<Seq<char>>::empty());
    proof {
        reveal(Seq::filter);
    }
    while i < once.len()
        invariant
            i <= once@.len(),
            keep == among(disallowed.deep_view()),
            out.deep_view() == once.deep_view().take(i as int).filter(keep),
        decreases once@.len() - i,
    {
        proof {
            reveal(Seq::filter);
            let upto = once.deep_view().take(i + 1);
            assert(upto.drop_last() =~= once.deep_view().take(i as int));
            assert(upto.last() == once@[i as int]@);
        }
        if contains_string(disallowed, once[i].as_str()) {
            push_string(&mut out, once[i].clone());
        }
        i += 1;
    }
    assert(once.deep_view().take(i as int) =~= once.deep_view());
    out
}

/// Checks a permission configuration: the tools it allows and forbids, whether it skips
/// all permission checks, and whether its mode only reads.
pub fn validate_permission_config(
    allowed_tools: &Vec<String>,
    disallowed_tools: &Vec<String>,
    enable_dangerous_skip: bool,
    read_only: bool,
) -> (r: PermissionValidation)
    ensures
        r@ == validated(
            allowed_tools.deep_view(),
            disallowed_tools.deep_view(),
            enable_dangerous_skip,
            read_only,
        ),
{
    let conflicts = find_conflicts(allowed_tools, disallowed_tools);
    let mut errors: Vec<String> = Vec::new();
    assert(errors.deep_view() =~= Seq::<Seq<char>>::empty());
    if conflicts.len() > 0 {
        let mut message = String::from_str("工具冲突: ");
        message.append(join(&conflicts, ", ").as_str());
        message.append(" 同时在允许和禁止列表中");
        push_string(&mut errors, message);
        assert(errors.deep_view() =~= seq![conflict_error(conflicts.deep_view())]);
    }
    let mut warnings: Vec<String> = Vec::new();
    assert(warnings.deep_view() =~= Seq::<Seq<char>>::empty());
    if enable_dangerous_skip {
        push_string(&mut warnings, String::from_str("已启用危险权限跳过模式，这会绕过所有安全检查"));
    }
    let ghost first = warnings.deep_view();
    assert(first =~= (if enable_dangerous_skip {
        seq![skip_warning()]
    } else {
        Seq::empty()
    }));
    if read_only && (contains_string(allowed_tools, "Write") || contains_string(
        allowed_tools,
        "Edit",
    )) {
        push_string(&mut warnings, String::from_str("只读模式下允许写入工具可能导致冲突"));
        assert(warnings.deep_view() =~= first + seq![read_only_warning()]);
    } else {
        assert(warnings.deep_view() =~= first + Seq::<Seq<char>>::empty());
    }
    PermissionValidation { valid: conflicts.len() == 0, warnings, errors }
}

/// The number of tokens a driver may think with where the user names none.
pub const DEFAULT_THINKING_TOKENS: u32 = 31999;

/// The number of tokens a driver may think with.
pub fn thinking_tokens(tokens: Option<u32>) -> (r: u32)
    ensures
        r == (match tokens {
            Some(n) => n,
            None => DEFAULT_THINKING_TOKENS,
        }),
{
    match tokens {
        Some(n) => n,
        None => DEFAULT_THINKING_TOKENS,
    }
}

/// How a driver asks before it acts.
#[derive(Clone, Copy, Debug, PartialEq, Eq, Structural)]
pub enum PermissionMode {
    /// It asks for every action that changes something.
    Interactive,
    /// It edits files without asking.
    AcceptEdits,
    /// It only reads.
    ReadOnly,
    /// It plans and changes nothing.
    Plan,
}

/// The permissions of a launch.
#[derive(Debug)]
pub struct ClaudePermissionConfig {
    pub allowed_tools: Vec<String>,
    pub disallowed_tools: Vec<String>,
    pub permission_mode: PermissionMode,
    /// All permission checks are skipped.
    pub enable_dangerous_skip: bool,
}

/// View of [`ClaudePermissionConfig`].
pub struct PermissionConfigView {
    pub allowed_tools: Seq<Seq<char>>,
    pub disallowed_tools: Seq<Seq<char>>,
    pub permission_mode: PermissionMode,
    pub enable_dangerous_skip: bool,
}

impl View for ClaudePermissionConfig {
    type V = PermissionConfigView;

    open spec fn view(&self) -> PermissionConfigView {
        PermissionConfigView {
            allowed_tools: self.allowed_tools.deep_view(),
            disallowed_tools: self.disallowed_tools.deep_view(),
            permission_mode: self.permission_mode,
            enable_dangerous_skip: self.enable_dangerous_skip,
        }
    }
}

/// What a launch is configured with.
#[derive(Debug)]
pub struct ClaudeExecutionConfig {
    pub permissions: ClaudePermissionConfig,
    pub max_thinking_tokens: Option<u32>,
}

/// View of [`ClaudeExecutionConfig`].
pub struct ExecutionConfigView {
    pub permissions: PermissionConfigView,
    pub max_thinking_tokens: Option<u32>,
}

impl View for ClaudeExecutionConfig {
    type V = ExecutionConfigView;

    open spec fn view(&self) -> ExecutionConfigView {
        ExecutionConfigView {
            permissions: self.permissions@,
            max_thinking_tokens: self.max_thinking_tokens,
        }
    }
}

/// The permissions of plan mode: the driver plans, no tool is named, nothing is skipped.
pub open spec fn plan_permissions() -> PermissionConfigView {
    PermissionConfigView {
        allowed_tools: Seq::empty(),
        disallowed_tools: Seq::empty(),
        permission_mode: PermissionMode::Plan,
        enable_dangerous_skip: false,
    }
}

/// The configuration a request is launched with: the stored one, with the thinking
/// tokens of the request where it names any, and with the permissions of plan mode where
/// it asks for that.
pub open spec fn requested(
    stored: ExecutionConfigView,
    plan_mode: bool,
    max_thinking_tokens: Option<u32>,
) -> ExecutionConfigView {
    ExecutionConfigView {
        permissions: if plan_mode {
            plan_permissions()
        } else {
            stored.permissions
        },
        max_thinking_tokens: match max_thinking_tokens {
            Some(n) => Some(n),
            None => stored.max_thinking_tokens,
        },
    }
}

/// Works out the configuration a request is launched with.
pub fn config_for_request(
    stored: ClaudeExecutionConfig,
    plan_mode: bool,
    max_thinking_tokens: Option<u32>,
) -> (r: ClaudeExecutionConfig)
    ensures
        r@ == requested(stored@, plan_mode, max_thinking_tokens),
{
    let permissions = if plan_mode {
        let none: Vec<String> = Vec::new();
        let nothing: Vec<String> = Vec::new();
        assert(none.deep_view() =~= Seq::<Seq<char>>::empty());
        assert(nothing.deep_view() =~= Seq::<Seq<char>>::empty());
        ClaudePermissionConfig {
            allowed_tools: none,
            disallowed_tools: nothing,
            permission_mode: PermissionMode::Plan,
            enable_dangerous_skip: false,
        }
    } else {
        stored.permissions
    };
    ClaudeExecutionConfig {
        permissions,
        max_thinking_tokens: match max_thinking_tokens {
            Some(n) => Some(n),
            None => stored.max_thinking_tokens,
        },
    }
}

/// The name of a permission mode on the command line of the driver.
pub open spec fn mode_flag(mode: PermissionMode) -> Seq<char> {
    match mode {
        PermissionMode::Interactive => "default"@,
        PermissionMode::AcceptEdits => "acceptEdits"@,
        PermissionMode::ReadOnly => "default"@,
        PermissionMode::Plan => "plan"@,
    }
}

/// The arguments that name tools: the flag and the tools, joined by commas; nothing
/// where no tool is named.
pub open spec fn tool_args(flag: Seq<char>, tools: Seq<Seq<char>>) -> Seq<Seq<char>> {
    if tools.len() == 0 {
        Seq::empty()
    } else {
        seq![flag, joined(tools, ","@)]
    }
}

/// The launch arguments of a configuration: the output as a stream of JSON lines, the
/// model, then either the flag that skips all permission checks or the permission mode,
/// and last the tools that are allowed and those that are not.
pub open spec fn execution_args(config: ExecutionConfigView, model: Seq<char>) -> Seq<Seq<char>> {
    seq!["--output-format"@, "stream-json"@, "--verbose"@, "--model"@, model] + (
    if config.permissions.enable_dangerous_skip {
        seq!["--dangerously-skip-permissions"@]
    } else {
        seq!["--permission-mode"@, mode_flag(config.permissions.permission_mode)]
    }) + tool_args("--allowedTools"@, config.permissions.allowed_tools) + tool_args(
        "--disallowedTools"@,
        config.permissions.disallowed_tools,
    )
}

fn push_tool_args(args: &mut Vec<String>, flag: &str, tools: &Vec<String>)
    ensures
        final(args).deep_view() == old(args).deep_view() + tool_args(flag@, tools.deep_view()),
{
    if tools.len() > 0 {
        args.push(String::from_str(flag));
        args.push(join(tools, ","));
        assert(args.deep_view() =~= old(args).deep_view() + seq![
            flag@,
            joined(tools.deep_view(), ","@),
        ]);
    } else {
        assert(args.deep_view() =~= old(args).deep_view() + Seq::<Seq<char>>::empty());
    }
}

/// Builds the launch arguments of a configuration for the given model.
pub fn build_execution_args(config: &ClaudeExecutionConfig, model: &str) -> (r: Vec<String>)
    ensures
        r.deep_view() == execution_args(config@, model@),
{
    let mut args: Vec<String> = Vec::new();
    args.push(String::from_str("--output-format"));
    args.push(String::from_str("stream-json"));
    args.push(String::from_str("--verbose"));
    args.push(String::from_str("--model"));
    args.push(String::from_str(model));
    assert(args.deep_view() =~= seq![
        "--output-format"@,
        "stream-json"@,
        "--verbose"@,
        "--model"@,
        model@,
    ]);
    let ghost head = args.deep_view();
    if config.permissions.enable_dangerous_skip {
        args.push(String::from_str("--dangerously-skip-permissions"));
        assert(args.deep_view() =~= head + seq!["--dangerously-skip-permissions"@]);
    } else {
        args.push(String::from_str("--permission-mode"));
        args.push(
            String::from_str(
                match config.permissions.permission_mode {
                    PermissionMode::Interactive => "default",
                    PermissionMode::AcceptEdits => "acceptEdits",
                    PermissionMode::ReadOnly => "default",
                    PermissionMode::Plan => "plan",
                },
            ),
        );
        assert(args.deep_view() =~= head + seq![
            "--permission-mode"@,
            mode_flag(config.permissions.permission_mode),
        ]);
    }
    push_tool_args(&mut args, "--allowedTools", &config.permissions.allowed_tools);
    push_tool_args(&mut args, "--disallowedTools", &config.permissions.disallowed_tools);
    args
}

} // verus!
