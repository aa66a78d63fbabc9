use session_supervisor::env::{
    inherited_by_probe, inherited_by_session, launch_environment, lookup, node_path_assignment,
    overrides_from, probe_environment, read_settings_overrides, session_environment,
};
use session_supervisor::launch::{
    after_launch, fallback_mode, launch_args, map_model_to_claude_alias, LaunchDecision,
    LaunchMode, LaunchOutcome,
};
use session_supervisor::modes::{
    availability_from_probe, codex_mode_info, do_get_claude_wsl_mode_config, mode_label,
    parse_mode, unavailable, HostSupport, RunMode, VersionProbe, WslRuntime,
};
use session_supervisor::probe::{
    extract_base_url_from_config, extract_model_from_config, extract_version_from_output,
    find_version, resolve_cmd_wrapper, version_status, QueryResult,
};
use session_supervisor::provider::{
    current_provider_config, plan_provider_switch, validate_third_party_config, ProviderConfig,
};
use session_supervisor::text::{
    chars_of, contains, contains_char, ends_with, join, lines, split_chars, starts_with, trim,
};
use session_supervisor::usage::{add_capped, usage_delta, RunningTotals, TokenCounts};

fn pairs(items: &[(&str, &str)]) -> Vec<(String, String)> {
    items.iter().map(|(k, v)| (k.to_string(), v.to_string())).collect()
}

fn strings(items: &[&str]) -> Vec<String> {
    items.iter().map(|s| s.to_string()).collect()
}

fn provider(base_url: &str, token: Option<&str>, key: Option<&str>, model: Option<&str>, helper: Option<bool>) -> ProviderConfig {
    ProviderConfig {
        id: "p".to_string(),
        name: "Provider".to_string(),
        description: "test".to_string(),
        base_url: base_url.to_string(),
        auth_token: token.map(|s| s.to_string()),
        api_key: key.map(|s| s.to_string()),
        api_key_helper: None,
        model: model.map(|s| s.to_string()),
        enable_auto_api_key_helper: helper,
    }
}

#[test]
fn model_names_map_to_aliases() {
    assert_eq!(map_model_to_claude_alias("sonnet1m"), "sonnet[1m]");
    assert_eq!(map_model_to_claude_alias("sonnet"), "sonnet");
    assert_eq!(map_model_to_claude_alias("opus"), "opus");
    assert_eq!(map_model_to_claude_alias("some-future-model"), "some-future-model");
    assert_eq!(map_model_to_claude_alias(""), "");
}

#[test]
fn launch_modes_put_their_arguments_first() {
    let base = strings(&["--output-format", "stream-json"]);
    assert_eq!(launch_args(&LaunchMode::Fresh, &base), base);
    assert_eq!(launch_args(&LaunchMode::Continue, &base), vec!["-c", "--output-format", "stream-json"]);
    assert_eq!(
        launch_args(&LaunchMode::Resume("abc".to_string()), &base),
        vec!["--resume", "abc", "--output-format", "stream-json"]
    );
    assert_eq!(launch_args(&LaunchMode::Continue, &Vec::new()), vec!["-c"]);
}

#[test]
fn resume_falls_back_to_continue_once() {
    let resume = LaunchMode::Resume("abc".to_string());
    assert!(matches!(fallback_mode(&resume), Some(LaunchMode::Continue)));
    assert!(fallback_mode(&LaunchMode::Continue).is_none());
    assert!(fallback_mode(&LaunchMode::Fresh).is_none());
    assert!(matches!(after_launch(&resume, LaunchOutcome::Started), LaunchDecision::Proceed));
    let retry = after_launch(&resume, LaunchOutcome::Failed("no such session".to_string()));
    let next = match retry {
        LaunchDecision::Retry(mode) => mode,
        other => panic!("unexpected decision {:?}", other),
    };
    assert!(matches!(next, LaunchMode::Continue));
    match after_launch(&next, LaunchOutcome::Failed("still broken".to_string())) {
        LaunchDecision::Surface(error) => assert_eq!(error, "still broken"),
        other => panic!("unexpected decision {:?}", other),
    }
    match after_launch(&LaunchMode::Fresh, LaunchOutcome::Failed("boom".to_string())) {
        LaunchDecision::Surface(error) => assert_eq!(error, "boom"),
        other => panic!("unexpected decision {:?}", other),
    }
}

#[test]
fn allow_lists_name_their_variables() {
    for key in ["PATH", "HOME", "USER", "SHELL", "LANG", "LC_ALL", "LC_CTYPE", "NODE_PATH", "NVM_DIR",
        "NVM_BIN", "HOMEBREW_PREFIX", "HOMEBREW_CELLAR", "USERPROFILE", "USERNAME", "COMPUTERNAME",
        "APPDATA", "LOCALAPPDATA", "TEMP", "TMP", "ANTHROPIC_API_KEY", "CLAUDE_CODE_USE_X", "API_TIMEOUT_MS"] {
        assert!(inherited_by_session(key), "{}", key);
    }
    for key in ["path", "SECRET", "LC", "ANTHROPIC", "XANTHROPIC_KEY", "SSH_AUTH_SOCK", ""] {
        assert!(!inherited_by_session(key), "{}", key);
    }
    for key in ["PATH", "USER", "HOME", "NODE_PATH", "NVM_DIR", "NVM_BIN", "USERPROFILE", "USERNAME",
        "COMPUTERNAME", "APPDATA", "LOCALAPPDATA", "TEMP", "TMP"] {
        assert!(inherited_by_probe(key), "{}", key);
    }
    for key in ["SHELL", "LANG", "LC_ALL", "ANTHROPIC_API_KEY", "API_TIMEOUT_MS"] {
        assert!(!inherited_by_probe(key), "{}", key);
    }
}

#[test]
fn session_environment_layers_its_sources() {
    let inherited = pairs(&[("PATH", "/usr/bin"), ("SECRET", "x"), ("HOME", "/home/u"), ("ANTHROPIC_MODEL", "old")]);
    let overrides = pairs(&[("ANTHROPIC_MODEL", "from-settings"), ("EXTRA", "1")]);
    let env = session_environment(
        &inherited,
        "/home/u/.nvm/versions/node/v22/bin/tool",
        Some("/home/u/.nvm/versions/node/v22/bin"),
        false,
        &overrides,
        Some("sonnet"),
    );
    assert_eq!(
        env,
        pairs(&[
            ("PATH", "/usr/bin"),
            ("HOME", "/home/u"),
            ("ANTHROPIC_MODEL", "old"),
            ("PATH", "/home/u/.nvm/versions/node/v22/bin:/usr/bin"),
            ("ANTHROPIC_MODEL", "from-settings"),
            ("EXTRA", "1"),
            ("ANTHROPIC_MODEL", "sonnet"),
        ])
    );
    assert_eq!(lookup(&env, "ANTHROPIC_MODEL").as_deref(), Some("sonnet"));
    assert_eq!(lookup(&env, "PATH").as_deref(), Some("/home/u/.nvm/versions/node/v22/bin:/usr/bin"));
    assert_eq!(lookup(&env, "SECRET"), None);

    let env = session_environment(&inherited, "/usr/bin/tool", Some("/usr/bin"), false, &Vec::new(), None);
    assert_eq!(env, pairs(&[("PATH", "/usr/bin"), ("HOME", "/home/u"), ("ANTHROPIC_MODEL", "old")]));
    assert_eq!(probe_environment(&inherited), pairs(&[("PATH", "/usr/bin"), ("HOME", "/home/u")]));
}

#[test]
fn node_directory_goes_in_front_of_the_path() {
    assert_eq!(
        node_path_assignment("C:\\u\\.nvm\\versions\\node\\v20\\tool.cmd", Some("C:\\u\\.nvm\\versions\\node\\v20"), "C:\\Windows", true),
        Some(("PATH".to_string(), "C:\\u\\.nvm\\versions\\node\\v20;C:\\Windows".to_string()))
    );
    assert_eq!(
        node_path_assignment("/h/.nvm/versions/node/v20/bin/tool", Some("/h/.nvm/versions/node/v20/bin"), "/x:/h/.nvm/versions/node/v20/bin", false),
        None
    );
    assert_eq!(node_path_assignment("/usr/bin/tool", Some("/usr/bin"), "/bin", false), None);
    assert_eq!(node_path_assignment("/h/.nvm/versions/node/v20/bin/tool", None, "/bin", false), None);
    assert_eq!(
        node_path_assignment("/h/.nvm/versions/node/v20/bin/tool", Some("/h/.nvm/versions/node/v20/bin"), "", false),
        Some(("PATH".to_string(), "/h/.nvm/versions/node/v20/bin:".to_string()))
    );
}

#[test]
fn settings_overrides_are_the_string_members_of_env() {
    let content = r#"{"env":{"B":"2","A":"1","N":3,"T":true,"E":""},"other":{"X":"y"}}"#;
    let overrides = read_settings_overrides(content);
    let mut sorted = overrides.clone();
    sorted.sort();
    assert_eq!(sorted, pairs(&[("A", "1"), ("B", "2"), ("E", "")]));
    assert!(read_settings_overrides("not json").is_empty());
    assert!(read_settings_overrides(r#"{"env":"text"}"#).is_empty());
    assert!(read_settings_overrides(r#"{"nothing":1}"#).is_empty());
    assert!(read_settings_overrides(r#"["env"]"#).is_empty());
    assert_eq!(
        overrides_from(&vec![
            ("K".to_string(), Some("v".to_string())),
            ("N".to_string(), None),
            ("L".to_string(), Some("w".to_string())),
        ]),
        pairs(&[("K", "v"), ("L", "w")])
    );
}

#[test]
fn launch_environment_reads_settings_and_the_program_directory() {
    let inherited = pairs(&[("PATH", "/usr/bin"), ("IGNORED", "x")]);
    let env = launch_environment(
        &inherited,
        "/h/.nvm/versions/node/v20/bin/tool",
        false,
        Some(r#"{"env":{"MAX_THINKING_TOKENS":"31999"}}"#),
        Some("opus"),
    );
    assert_eq!(
        env,
        pairs(&[
            ("PATH", "/usr/bin"),
            ("PATH", "/h/.nvm/versions/node/v20/bin:/usr/bin"),
            ("MAX_THINKING_TOKENS", "31999"),
            ("ANTHROPIC_MODEL", "opus"),
        ])
    );
    let env = launch_environment(&inherited, "tool", false, None, None);
    assert_eq!(env, pairs(&[("PATH", "/usr/bin")]));
}

#[test]
fn text_helpers_behave_like_their_names() {
    assert_eq!(trim("  a b \t\n"), "a b");
    assert_eq!(trim("\u{a0}\u{3000}x\u{2003}"), "x");
    assert_eq!(trim("   "), "");
    assert_eq!(trim(""), "");
    assert_eq!(trim("\u{200b}x"), "\u{200b}x");
    assert!(starts_with("LC_ALL", "LC_"));
    assert!(!starts_with("LC", "LC_"));
    assert!(starts_with("abc", ""));
    assert!(ends_with("tool.cmd", ".cmd"));
    assert!(!ends_with("cmd", ".cmd"));
    assert!(contains("a--b", "--"));
    assert!(contains("abc", ""));
    assert!(!contains("a-b", "--"));
    assert!(contains("xxabxxabc", "abc"));
    assert!(contains_char("a\nb", '\n'));
    assert!(!contains_char("ab", '\n'));
    assert_eq!(chars_of("héllo"), vec!['h', 'é', 'l', 'l', 'o']);
    let pieces = split_chars(&chars_of("a..b."), '.');
    let pieces: Vec<String> = pieces.iter().map(|p| p.iter().collect()).collect();
    assert_eq!(pieces, vec!["a", "", "b", ""]);
    assert_eq!(join(&strings(&["a", "b", "c"]), ", "), "a, b, c");
    assert_eq!(join(&strings(&["a"]), ", "), "a");
    assert_eq!(join(&Vec::new(), ", "), "");
    let rows: Vec<String> = lines("one\r\ntwo\n\nthree\r").iter().map(|p| p.iter().collect()).collect();
    assert_eq!(rows, vec!["one", "two", "", "three\r"]);
    assert!(lines("").is_empty());
    assert_eq!(lines("x\n").len(), 1);
}

#[test]
fn versions_are_found_in_output() {
    assert_eq!(find_version("1.0.41 (Some Tool)").as_deref(), Some("1.0.41"));
    assert_eq!(find_version("tool version 2.3.4-beta.1+build.5 ready").as_deref(), Some("2.3.4-beta.1+build.5"));
    assert_eq!(find_version("no version here 1.2"), None);
    assert_eq!(extract_version_from_output(b"v10.20.30\n").as_deref(), Some("10.20.30"));
    assert_eq!(extract_version_from_output(&[0xff, b'1', b'.', b'2', b'.', b'3']).as_deref(), Some("1.2.3"));
    assert_eq!(extract_version_from_output(b""), None);
}

#[test]
fn version_status_needs_success_and_the_product_name() {
    let ran = |success: bool, stdout: &str, stderr: &str| QueryResult::Ran {
        success,
        stdout: stdout.to_string(),
        stderr: stderr.to_string(),
    };
    let status = version_status(&ran(true, "1.0.17 (Some Tool)\n", ""), "Some Tool");
    assert!(status.is_installed);
    assert_eq!(status.version.as_deref(), Some("1.0.17"));
    assert_eq!(status.output, "1.0.17 (Some Tool)");
    let status = version_status(&ran(false, "1.0.17 (Some Tool)", "warning"), "Some Tool");
    assert!(!status.is_installed);
    assert_eq!(status.output, "1.0.17 (Some Tool)\nwarning");
    let status = version_status(&ran(true, "1.0.17", "  "), "Some Tool");
    assert!(!status.is_installed);
    assert_eq!(status.version.as_deref(), Some("1.0.17"));
    assert_eq!(status.output, "1.0.17");
    let status = version_status(&QueryResult::NotRun("not found".to_string()), "Some Tool");
    assert!(!status.is_installed);
    assert_eq!(status.version, None);
    assert_eq!(status.output, "Command not found: not found");
}

#[test]
fn configuration_values_are_extracted() {
    let config = "model_provider = \"x\"\n  model = \"gpt-5\"  \nmodel = \"later\"\n[p]\nbase_url   =   \"https://example.test/v1\"\n";
    assert_eq!(extract_model_from_config(config).as_deref(), Some("gpt-5"));
    assert_eq!(extract_base_url_from_config(config).as_deref(), Some("https://example.test/v1"));
    assert_eq!(extract_model_from_config("model = unquoted\nmodel = \"second\""), None);
    assert_eq!(extract_model_from_config("model=\"tight\""), None);
    assert_eq!(extract_model_from_config(""), None);
    assert_eq!(extract_base_url_from_config("base_url = \"\""), None);
}

#[test]
fn command_wrappers_name_their_scripts() {
    let content = "@IF EXIST \"%~dp0\\node.exe\" (\r\n  \"%~dp0\\node.exe\"  \"%~dp0\\node_modules\\pkg\\bin\\tool.js\" %*\r\n) ELSE (\r\n  node  \"%~dp0\\node_modules\\pkg\\bin\\tool.js\" %*\r\n)\r\n";
    assert_eq!(resolve_cmd_wrapper(content), vec!["node.exe\"  \"%~dp0\\node_modules\\pkg\\bin\\tool.js"]);
    let simple = "\"node\" \"%~dp0\\lib\\cli.js\" %*\n";
    assert_eq!(resolve_cmd_wrapper(simple), vec!["lib\\cli.js"]);
    assert!(resolve_cmd_wrapper("echo hello\n").is_empty());
    assert!(resolve_cmd_wrapper("node.exe tool.js\n").is_empty());
    assert!(resolve_cmd_wrapper("").is_empty());
}

#[test]
fn third_party_providers_need_credentials() {
    assert_eq!(
        validate_third_party_config(&provider("https://example.test", None, None, None, None)),
        Err("第三方API需要设置认证令牌或API密钥".to_string())
    );
    assert_eq!(validate_third_party_config(&provider("https://example.test", Some(""), None, None, None)), Ok(()));
    assert_eq!(validate_third_party_config(&provider("https://example.test", None, Some("k"), None, None)), Ok(()));
    assert_eq!(validate_third_party_config(&provider("https://api.anthropic.com", None, None, None, None)), Ok(()));
}

#[test]
fn provider_switch_clears_and_sets_variables() {
    let switch = plan_provider_switch(
        &provider("https://example.test/v1/messages", Some("tok"), Some(""), Some("m-1"), Some(true)),
        "https://example.test",
    );
    assert_eq!(
        switch.cleared,
        vec![
            "ANTHROPIC_API_KEY",
            "ANTHROPIC_AUTH_TOKEN",
            "ANTHROPIC_BASE_URL",
            "ANTHROPIC_MODEL",
            "ANTHROPIC_SMALL_FAST_MODEL",
            "API_TIMEOUT_MS",
            "CLAUDE_CODE_DISABLE_NONESSENTIAL_TRAFFIC",
        ]
    );
    assert_eq!(
        switch.set,
        pairs(&[
            ("ANTHROPIC_BASE_URL", "https://example.test"),
            ("ANTHROPIC_AUTH_TOKEN", "tok"),
            ("ANTHROPIC_MODEL", "m-1"),
            ("API_TIMEOUT_MS", "600000"),
            ("CLAUDE_CODE_DISABLE_NONESSENTIAL_TRAFFIC", "1"),
            ("ANTHROPIC_SMALL_FAST_MODEL", "m-1"),
        ])
    );
    assert_eq!(switch.api_key_helper.as_deref(), Some("echo 'tok'"));

    let switch = plan_provider_switch(
        &provider("https://api.anthropic.com", None, Some("key"), None, Some(true)),
        "https://api.anthropic.com",
    );
    assert_eq!(
        switch.set,
        pairs(&[("ANTHROPIC_BASE_URL", "https://api.anthropic.com"), ("ANTHROPIC_API_KEY", "key")])
    );
    assert_eq!(switch.api_key_helper, None);
    let switch = plan_provider_switch(&provider("u", Some("tok"), None, None, None), "u");
    assert_eq!(switch.api_key_helper, None);
}

#[test]
fn current_provider_config_reads_the_environment() {
    let env = pairs(&[
        ("ANTHROPIC_BASE_URL", "https://a"),
        ("ANTHROPIC_MODEL", "m0"),
        ("ANTHROPIC_MODEL", "m1"),
        ("API_TIMEOUT_MS", "600000"),
    ]);
    let current = current_provider_config(&env, Some("echo 'x'".to_string()));
    assert_eq!(current.anthropic_base_url.as_deref(), Some("https://a"));
    assert_eq!(current.anthropic_model.as_deref(), Some("m1"));
    assert_eq!(current.api_timeout_ms.as_deref(), Some("600000"));
    assert_eq!(current.anthropic_api_key_helper.as_deref(), Some("echo 'x'"));
    assert_eq!(current.anthropic_auth_token, None);
    assert_eq!(current.anthropic_api_key, None);
    assert_eq!(current.anthropic_small_fast_model, None);
    assert_eq!(current.claude_code_disable_nonessential_traffic, None);
}

#[test]
fn run_modes_are_read_in_any_case() {
    assert_eq!(parse_mode("AUTO"), Ok(RunMode::Auto));
    assert_eq!(parse_mode("Native"), Ok(RunMode::Native));
    assert_eq!(parse_mode("wsl"), Ok(RunMode::Wsl));
    assert_eq!(
        parse_mode("Docker"),
        Err("Invalid mode: Docker. Use 'auto', 'native', or 'wsl'".to_string())
    );
    assert_eq!(mode_label(RunMode::Auto), "auto");
    assert_eq!(mode_label(RunMode::Native), "native");
    assert_eq!(mode_label(RunMode::Wsl), "wsl");
}

#[test]
fn mode_info_reports_what_is_in_use() {
    let host = || HostSupport {
        wsl_available: true,
        available_distros: strings(&["Ubuntu"]),
        native_available: false,
    };
    let info = do_get_claude_wsl_mode_config(
        RunMode::Auto,
        Some("Ubuntu".to_string()),
        WslRuntime { enabled: true, tool_path: Some("/usr/bin/tool".to_string()), tool_version: Some("1.0.0".to_string()) },
        host(),
    );
    assert_eq!(info.mode, "auto");
    assert_eq!(info.actual_mode, "wsl");
    assert_eq!(info.wsl_claude_path.as_deref(), Some("/usr/bin/tool"));
    assert_eq!(info.wsl_claude_version.as_deref(), Some("1.0.0"));
    assert!(info.wsl_enabled && info.wsl_available && !info.native_available);
    assert_eq!(info.available_distros, vec!["Ubuntu"]);
    let info = do_get_claude_wsl_mode_config(
        RunMode::Native,
        None,
        WslRuntime { enabled: false, tool_path: None, tool_version: Some("stale".to_string()) },
        host(),
    );
    assert_eq!(info.mode, "native");
    assert_eq!(info.actual_mode, "native");
    assert_eq!(info.wsl_claude_version, None);
    let info = codex_mode_info(RunMode::Wsl, None, false, host());
    assert_eq!((info.mode.as_str(), info.actual_mode.as_str()), ("wsl", "native"));
}

#[test]
fn availability_follows_the_version_query() {
    let probe = |success: bool, stdout: &str, stderr: &str| VersionProbe {
        success,
        stdout: stdout.to_string(),
        stderr: stderr.to_string(),
    };
    let detected = "0.9.0".to_string();
    let found = availability_from_probe(&probe(true, "tool 1.2.3", "warn"), Some(&detected)).unwrap();
    assert!(found.available);
    assert_eq!(found.version.as_deref(), Some("tool 1.2.3"));
    assert_eq!(found.error, None);
    let found = availability_from_probe(&probe(true, "", "on stderr"), Some(&detected)).unwrap();
    assert_eq!(found.version.as_deref(), Some("on stderr"));
    let found = availability_from_probe(&probe(true, "", ""), Some(&detected)).unwrap();
    assert_eq!(found.version.as_deref(), Some("0.9.0"));
    let found = availability_from_probe(&probe(true, "", ""), None).unwrap();
    assert_eq!(found.version.as_deref(), Some("Unknown version"));
    assert!(availability_from_probe(&probe(false, "1.2.3", ""), None).is_none());
    let missing = unavailable();
    assert!(!missing.available);
    assert_eq!(missing.error.as_deref(), Some("Codex CLI not found. Please set CODEX_PATH or install codex CLI"));
}

#[test]
fn token_counts_add_up_and_stop_at_the_top() {
    assert_eq!(add_capped(10, 5), 15);
    assert_eq!(add_capped(u64::MAX, 1), u64::MAX);
    assert_eq!(add_capped(u64::MAX - 1, 1), u64::MAX);
    assert_eq!(usage_delta(None, 7), 7);
    assert_eq!(usage_delta(Some(3), 7), 4);
    assert_eq!(usage_delta(Some(7), 7), 0);
    assert_eq!(usage_delta(Some(9), 7), 7);
    let mut counts = TokenCounts::zero();
    counts.add_turn(TokenCounts { input: 10, output: 5, cached: 1 });
    counts.add_turn(TokenCounts { input: u64::MAX, output: 5, cached: 0 });
    assert_eq!(counts, TokenCounts { input: u64::MAX, output: 10, cached: 1 });
    assert_eq!(counts.total(), u64::MAX);
    let mut totals = RunningTotals { last: None };
    assert_eq!(totals.advance(TokenCounts { input: 10, output: 2, cached: 0 }), TokenCounts { input: 10, output: 2, cached: 0 });
    assert_eq!(totals.advance(TokenCounts { input: 15, output: 1, cached: 0 }), TokenCounts { input: 5, output: 1, cached: 0 });
    assert_eq!(totals.last, Some(TokenCounts { input: 15, output: 1, cached: 0 }));
}
