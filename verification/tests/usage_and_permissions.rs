use session_supervisor::permissions::{
    build_execution_args, config_for_request, find_conflicts, thinking_tokens,
    validate_permission_config, ClaudeExecutionConfig, ClaudePermissionConfig, PermissionMode,
};
use session_supervisor::provider::{api_key_field, plan_auth_merge, provider_key};
use session_supervisor::usage::{
    comes_before, parse_session_for_usage, project_name, read_event, read_session_meta,
    sessions_between, sum_up_sessions, to_signed_seconds, to_unsigned_seconds, SessionTally,
    SessionUsage, TokenCounts, TokenReport,
};

fn strings(items: &[&str]) -> Vec<String> {
    items.iter().map(|s| s.to_string()).collect()
}

const META: &str = r#"{"type":"session_meta","timestamp":"2025-11-23T10:00:00Z","payload":{"id":"sess-1","timestamp":"2025-11-23T10:00:00Z","cwd":"/work/app","model":"ignored-here"}}"#;

#[test]
fn session_meta_needs_type_id_and_time() {
    let meta = read_session_meta(META).unwrap();
    assert_eq!(meta.session_id, "sess-1");
    assert_eq!(meta.created_at, 1763892000);
    assert_eq!(meta.cwd, "/work/app");
    let no_cwd = read_session_meta(r#"{"type":"session_meta","payload":{"id":"s","timestamp":"1970-01-01T00:00:10+00:00"}}"#).unwrap();
    assert_eq!(no_cwd.cwd, "");
    assert_eq!(no_cwd.created_at, 10);
    assert!(read_session_meta(r#"{"type":"other","payload":{"id":"s","timestamp":"1970-01-01T00:00:10Z"}}"#).is_none());
    assert!(read_session_meta(r#"{"payload":{"id":"s","timestamp":"1970-01-01T00:00:10Z"}}"#).is_none());
    assert!(read_session_meta(r#"{"type":"session_meta","payload":{"timestamp":"1970-01-01T00:00:10Z"}}"#).is_none());
    assert!(read_session_meta(r#"{"type":"session_meta","payload":{"id":"s","timestamp":"yesterday"}}"#).is_none());
    assert!(read_session_meta(r#"{"type":"session_meta"}"#).is_none());
    assert!(read_session_meta("not json").is_none());
}

#[test]
fn seconds_before_the_epoch_wrap() {
    assert_eq!(to_unsigned_seconds(0), 0);
    assert_eq!(to_unsigned_seconds(5), 5);
    assert_eq!(to_unsigned_seconds(i64::MAX), i64::MAX as u64);
    assert_eq!(to_unsigned_seconds(-1), u64::MAX);
    assert_eq!(to_unsigned_seconds(-5), (-5i64) as u64);
    assert_eq!(to_unsigned_seconds(i64::MIN), i64::MIN as u64);
    let early = read_session_meta(r#"{"type":"session_meta","payload":{"id":"s","timestamp":"1969-12-31T23:59:59Z"}}"#).unwrap();
    assert_eq!(early.created_at, u64::MAX);
}

#[test]
fn events_report_tokens_by_kind() {
    let turn = read_event(r#"{"type":"turn.completed","timestamp":"t1","usage":{"input_tokens":10,"output_tokens":4,"cached_input_tokens":2,"cached_tokens":99}}"#).unwrap();
    assert_eq!(turn.tokens, TokenReport::Turn(TokenCounts { input: 10, output: 4, cached: 2 }));
    assert_eq!(turn.timestamp.as_deref(), Some("t1"));
    assert_eq!(turn.model, None);
    let turn = read_event(r#"{"type":"turn.completed","usage":{"output_tokens":4,"cached_tokens":99}}"#).unwrap();
    assert_eq!(turn.tokens, TokenReport::Turn(TokenCounts { input: 0, output: 4, cached: 0 }));
    let turn = read_event(r#"{"type":"turn.completed"}"#).unwrap();
    assert_eq!(turn.tokens, TokenReport::Silent);

    let count = read_event(r#"{"type":"token_count","payload":{"info":{"input_tokens":1,"output_tokens":2,"cached_tokens":3}}}"#).unwrap();
    assert_eq!(count.tokens, TokenReport::Turn(TokenCounts { input: 1, output: 2, cached: 3 }));
    let count = read_event(r#"{"type":"token_count","payload":{"info":{"input_tokens":1,"cached_input_tokens":"x","cached_tokens":3}}}"#).unwrap();
    assert_eq!(count.tokens, TokenReport::Turn(TokenCounts { input: 1, output: 0, cached: 0 }));
    let count = read_event(r#"{"type":"token_count","payload":{}}"#).unwrap();
    assert_eq!(count.tokens, TokenReport::Silent);

    let last = read_event(r#"{"type":"event_msg","payload":{"type":"token_count","info":{"last_token_usage":{"input_tokens":5},"total_token_usage":{"input_tokens":50}}}}"#).unwrap();
    assert_eq!(last.tokens, TokenReport::Turn(TokenCounts { input: 5, output: 0, cached: 0 }));
    let total = read_event(r#"{"type":"event_msg","payload":{"type":"token_count","info":{"last_token_usage":null,"total_token_usage":{"input_tokens":50,"output_tokens":7,"cached_input_tokens":1}}}}"#).unwrap();
    assert_eq!(total.tokens, TokenReport::Total(TokenCounts { input: 50, output: 7, cached: 1 }));
    let other = read_event(r#"{"type":"event_msg","payload":{"type":"agent_message","info":{"last_token_usage":{"input_tokens":5}}}}"#).unwrap();
    assert_eq!(other.tokens, TokenReport::Silent);
    let empty = read_event(r#"{"type":"event_msg","payload":{"type":"token_count","info":{"total_token_usage":[1]}}}"#).unwrap();
    assert_eq!(empty.tokens, TokenReport::Silent);
    assert!(read_event("nonsense").is_none());
    let bare = read_event("[]").unwrap();
    assert_eq!(bare.tokens, TokenReport::Silent);
    assert_eq!(bare.timestamp, None);
}

#[test]
fn events_select_models_and_carry_user_text() {
    let selected = read_event(r#"{"type":"turn_context","payload":{"model":"gpt-5.1-codex"}}"#).unwrap();
    assert_eq!(selected.model.as_deref(), Some("gpt-5.1-codex"));
    let selected = read_event(r#"{"type":"model_selected","payload":{"model":"o4-mini"}}"#).unwrap();
    assert_eq!(selected.model.as_deref(), Some("o4-mini"));
    let ignored = read_event(r#"{"type":"response_item","payload":{"model":"nope"}}"#).unwrap();
    assert_eq!(ignored.model, None);

    let message = read_event(r##"{"type":"response_item","payload":{"role":"user","content":[{"type":"input_text","text":"<environment_context>cwd</environment_context>"},{"type":"input_text","text":"# AGENTS.md rules"},{"type":"input_text","text":"   "},{"type":"output_text","text":"not input"},{"type":"input_text","text":"fix the bug"},{"type":"input_text","text":"second"}]}}"##).unwrap();
    assert_eq!(message.user_text.as_deref(), Some("fix the bug"));
    let assistant = read_event(r#"{"type":"response_item","payload":{"role":"assistant","content":[{"type":"input_text","text":"hello"}]}}"#).unwrap();
    assert_eq!(assistant.user_text, None);
    let wrong_kind = read_event(r#"{"type":"event_msg","payload":{"role":"user","content":[{"type":"input_text","text":"hello"}]}}"#).unwrap();
    assert_eq!(wrong_kind.user_text, None);
    let no_array = read_event(r#"{"type":"response_item","payload":{"role":"user","content":"hello"}}"#).unwrap();
    assert_eq!(no_array.user_text, None);
}

#[test]
fn tally_adds_turns_and_growth_of_totals() {
    let mut tally = SessionTally::new();
    assert_eq!(tally.model, "unknown");
    for line in [
        r#"{"type":"event_msg","timestamp":"a","payload":{"type":"token_count","info":{"total_token_usage":{"input_tokens":100,"output_tokens":10}}}}"#,
        r#"{"type":"event_msg","payload":{"type":"token_count","info":{"total_token_usage":{"input_tokens":150,"output_tokens":5,"cached_tokens":4}}}}"#,
        r#"{"type":"turn.completed","timestamp":"b","usage":{"input_tokens":1,"output_tokens":1,"cached_input_tokens":1}}"#,
        r#"{"type":"response_item","payload":{"role":"user","content":[{"type":"input_text","text":"first"}]}}"#,
        r#"{"type":"response_item","payload":{"role":"user","content":[{"type":"input_text","text":"second"}]}}"#,
        r#"{"type":"turn_context","payload":{"model":"m1"}}"#,
        r#"{"type":"turn_context","payload":{}}"#,
    ] {
        tally.absorb(read_event(line).unwrap());
    }
    assert_eq!(tally.tokens, TokenCounts { input: 151, output: 16, cached: 5 });
    assert_eq!(tally.running.last, Some(TokenCounts { input: 150, output: 5, cached: 4 }));
    assert_eq!(tally.model, "m1");
    assert_eq!(tally.first_message.as_deref(), Some("first"));
    assert_eq!(tally.last_timestamp.as_deref(), Some("b"));
}

#[test]
fn session_log_is_summed_up() {
    let lines = strings(&[
        META,
        r#"{"type":"turn_context","timestamp":"2025-11-23T10:00:05Z","payload":{"model":"gpt-5.1-codex"}}"#,
        "garbage that is skipped",
        r#"{"type":"response_item","timestamp":"2025-11-23T10:00:06Z","payload":{"role":"user","content":[{"type":"input_text","text":"do it"}]}}"#,
        r#"{"type":"event_msg","timestamp":"2025-11-23T10:01:00Z","payload":{"type":"token_count","info":{"last_token_usage":{"input_tokens":1000,"output_tokens":200,"cached_input_tokens":300}}}}"#,
        r#"{"type":"event_msg","timestamp":"2025-11-23T10:02:00+00:00","payload":{"type":"token_count","info":{"last_token_usage":{"input_tokens":50,"output_tokens":5}}}}"#,
    ]);
    let usage = parse_session_for_usage(&lines).unwrap();
    assert_eq!(usage.session_id, "sess-1");
    assert_eq!(usage.project_path, "/work/app");
    assert_eq!(usage.model, "gpt-5.1-codex");
    assert_eq!(usage.tokens, TokenCounts { input: 1050, output: 205, cached: 300 });
    assert_eq!(usage.created_at, 1763892000);
    assert_eq!(usage.updated_at, 1763892120);
    assert_eq!(usage.first_message.as_deref(), Some("do it"));

    let only_meta = parse_session_for_usage(&strings(&[META])).unwrap();
    assert_eq!(only_meta.model, "unknown");
    assert_eq!(only_meta.updated_at, only_meta.created_at);
    assert_eq!(only_meta.tokens, TokenCounts::zero());
    let odd_time = parse_session_for_usage(&strings(&[META, r#"{"timestamp":"later"}"#])).unwrap();
    assert_eq!(odd_time.updated_at, odd_time.created_at);
    assert!(parse_session_for_usage(&Vec::new()).is_none());
    assert!(parse_session_for_usage(&strings(&["{}", META])).is_none());
}

#[test]
fn conflicting_tools_are_an_error() {
    let result = validate_permission_config(
        &strings(&["Read", "Bash", "Write", "Bash"]),
        &strings(&["Write", "Bash"]),
        false,
        false,
    );
    assert!(!result.valid);
    assert_eq!(result.errors, vec!["工具冲突: Bash, Write 同时在允许和禁止列表中"]);
    assert!(result.warnings.is_empty());
    assert_eq!(find_conflicts(&strings(&["a", "b"]), &strings(&["c"])), Vec::<String>::new());
}

#[test]
fn risky_permissions_get_warnings() {
    let result = validate_permission_config(&strings(&["Read", "Edit"]), &Vec::new(), true, true);
    assert!(result.valid);
    assert!(result.errors.is_empty());
    assert_eq!(
        result.warnings,
        vec!["已启用危险权限跳过模式，这会绕过所有安全检查", "只读模式下允许写入工具可能导致冲突"]
    );
    let result = validate_permission_config(&strings(&["Read"]), &Vec::new(), false, true);
    assert!(result.warnings.is_empty());
    let result = validate_permission_config(&strings(&["Write"]), &Vec::new(), false, false);
    assert!(result.warnings.is_empty());
    let result = validate_permission_config(&strings(&["Write"]), &Vec::new(), false, true);
    assert_eq!(result.warnings, vec!["只读模式下允许写入工具可能导致冲突"]);
    assert_eq!(thinking_tokens(None), 31999);
    assert_eq!(thinking_tokens(Some(1024)), 1024);
}

#[test]
fn credentials_are_merged_by_what_is_offered() {
    let offered = |items: &[(&str, bool)]| -> Vec<(String, bool)> {
        items.iter().map(|(k, v)| (k.to_string(), *v)).collect()
    };
    let merge = plan_auth_merge(&offered(&[("OPENAI_API_KEY", true), ("tokens", false), ("extra", true)]));
    assert!(!merge.clear_api_keys);
    assert_eq!(merge.adopted, vec!["OPENAI_API_KEY", "extra"]);
    let merge = plan_auth_merge(&offered(&[("OPENAI_API_KEY", false), ("API_KEY", false), ("tokens", true)]));
    assert!(merge.clear_api_keys);
    assert_eq!(merge.adopted, vec!["tokens"]);
    let merge = plan_auth_merge(&Vec::new());
    assert!(merge.clear_api_keys);
    assert!(merge.adopted.is_empty());
    assert!(api_key_field("OPENAI_KEY") && api_key_field("API_KEY") && !api_key_field("api_key"));
    assert!(provider_key("model") && provider_key("model_provider") && provider_key("model_providers"));
    assert!(!provider_key("approval_policy"));
}

fn session(id: &str, project: &str, model: &str, input: u64, output: u64, cached: u64, created: u64, updated: u64) -> SessionUsage {
    SessionUsage {
        session_id: id.to_string(),
        project_path: project.to_string(),
        model: model.to_string(),
        tokens: TokenCounts { input, output, cached },
        created_at: created,
        updated_at: updated,
        first_message: None,
    }
}

#[test]
fn sessions_are_summed_up_per_model_day_and_project() {
    let sessions = vec![
        session("s1", "/work/app", "m1", 100, 10, 1, 1763892000, 1763892060),
        session("s2", "C:\\work\\lib", "m2", 50, 5, 0, 1763978400, 1763978400),
        session("s3", "/work/app", "m1", 7, 3, 2, 1763978500, 1763990000),
        session("s4", "/work/app/", "m2", 1, 1, 1, 1763892100, 1763892000),
    ];
    let totals = sum_up_sessions(&sessions);
    assert_eq!(totals.tokens, TokenCounts { input: 158, output: 19, cached: 4 });
    assert_eq!(totals.total_sessions, 4);

    let models: Vec<(&str, TokenCounts, u64)> =
        totals.by_model.iter().map(|m| (m.model.as_str(), m.tokens, m.session_count)).collect();
    assert_eq!(
        models,
        vec![
            ("m1", TokenCounts { input: 107, output: 13, cached: 3 }, 2),
            ("m2", TokenCounts { input: 51, output: 6, cached: 1 }, 2),
        ]
    );

    let days: Vec<(&str, u64, Vec<String>)> =
        totals.by_date.iter().map(|d| (d.date.as_str(), d.total_tokens, d.models_used.clone())).collect();
    assert_eq!(
        days,
        vec![
            ("2025-11-24", 65, strings(&["m2", "m1"])),
            ("2025-11-23", 112, strings(&["m1", "m2"])),
        ]
    );

    let projects: Vec<(&str, &str, u64, u64, &str)> = totals
        .by_project
        .iter()
        .map(|p| (p.project_path.as_str(), p.project_name.as_str(), p.total_tokens, p.session_count, p.last_used.as_str()))
        .collect();
    assert_eq!(
        projects,
        vec![
            ("/work/app", "app", 120, 2, "2025-11-24T13:13:20"),
            ("C:\\work\\lib", "lib", 55, 1, "2025-11-24T10:00:00"),
            ("/work/app/", "", 2, 1, "2025-11-23T10:00:00"),
        ]
    );
    let none = sum_up_sessions(&Vec::new());
    assert_eq!(none.tokens, TokenCounts::zero());
    assert!(none.by_model.is_empty() && none.by_date.is_empty() && none.by_project.is_empty());
}

#[test]
fn texts_are_ordered_and_paths_named() {
    assert!(comes_before("2025-11-23", "2025-11-24"));
    assert!(!comes_before("2025-11-24", "2025-11-23"));
    assert!(!comes_before("same", "same"));
    assert!(comes_before("abc", "abcd"));
    assert!(comes_before("", "a"));
    assert!(comes_before("Z", "a"));
    assert!(comes_before("unknown", "z"));
    assert_eq!(project_name("/a/b/c"), "c");
    assert_eq!(project_name("C:\\x\\y"), "y");
    assert_eq!(project_name("plain"), "plain");
    assert_eq!(project_name("/trailing/"), "");
    assert_eq!(project_name(""), "");
    assert_eq!(to_signed_seconds(5), 5);
    assert_eq!(to_signed_seconds(u64::MAX), -1);
    assert_eq!(to_signed_seconds(1u64 << 63), i64::MIN);
}

#[test]
fn sessions_are_kept_by_the_day_they_began() {
    let sessions = vec![
        session("s1", "/p", "m", 1, 1, 0, 1763892000, 0),
        session("s2", "/p", "m", 1, 1, 0, 1763978400, 0),
        session("s3", "/p", "m", 1, 1, 0, 1764064800, 0),
        session("s4", "/p", "m", 1, 1, 0, u64::MAX / 2, 0),
    ];
    let kept = sessions_between(&sessions, "2025-11-23", "2025-11-24").unwrap();
    let ids: Vec<&str> = kept.iter().map(|s| s.session_id.as_str()).collect();
    assert_eq!(ids, vec!["s1", "s2"]);
    let kept = sessions_between(&sessions, "2025-11-25", "2025-11-24").unwrap();
    assert!(kept.is_empty());
    let bad = sessions_between(&sessions, "yesterday", "2025-11-24").unwrap_err();
    assert!(bad.starts_with("Invalid start date: "), "{}", bad);
    assert!(bad.len() > "Invalid start date: ".len());
    let bad = sessions_between(&sessions, "2025-11-23", "2025-13-01").unwrap_err();
    assert!(bad.starts_with("Invalid end date: "), "{}", bad);
}

#[test]
fn requests_change_the_stored_configuration() {
    let stored = || ClaudeExecutionConfig {
        permissions: ClaudePermissionConfig {
            allowed_tools: strings(&["Read", "Edit"]),
            disallowed_tools: strings(&["Bash"]),
            permission_mode: PermissionMode::AcceptEdits,
            enable_dangerous_skip: false,
        },
        max_thinking_tokens: Some(1000),
    };
    let plain = config_for_request(stored(), false, None);
    assert_eq!(plain.max_thinking_tokens, Some(1000));
    assert_eq!(
        build_execution_args(&plain, "opus"),
        vec![
            "--output-format", "stream-json", "--verbose", "--model", "opus", "--permission-mode",
            "acceptEdits", "--allowedTools", "Read,Edit", "--disallowedTools", "Bash",
        ]
    );
    let planned = config_for_request(stored(), true, Some(5));
    assert_eq!(planned.max_thinking_tokens, Some(5));
    assert_eq!(planned.permissions.permission_mode, PermissionMode::Plan);
    assert_eq!(
        build_execution_args(&planned, "sonnet"),
        vec!["--output-format", "stream-json", "--verbose", "--model", "sonnet", "--permission-mode", "plan"]
    );
    let mut skipping = stored();
    skipping.permissions.enable_dangerous_skip = true;
    skipping.permissions.allowed_tools.clear();
    assert_eq!(
        build_execution_args(&skipping, "m"),
        vec![
            "--output-format", "stream-json", "--verbose", "--model", "m",
            "--dangerously-skip-permissions", "--disallowedTools", "Bash",
        ]
    );
}
