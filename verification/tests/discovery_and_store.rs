use session_supervisor::discovery::{
    collect_candidates, collect_runtime_candidates, detect_binary_for_tool, find_best_binary,
    get_tool_aliases, use_of_memory, MemoryUse, RememberedPath,
    init_shell_environment, pick_section, push_candidate, split_search_path, BinarySearchConfig,
    BinarySearchSection, ProbedCandidate, RuntimeEnvironment, SearchFacts,
};
use session_supervisor::installation::{
    dedupe_by_path, discover_claude_installations, fallback_priority, select_best_installation,
    select_best_with_priority, source_preference, ClaudeInstallation, InstallationType,
    PrioritizedInstallation,
};
use session_supervisor::project_store::{
    agent_session, check_hidden_projects, collapse_backslashes, deduplicate_projects,
    find_directory, hidden_list_is_corrupt, missing_project_message, normalize_macos_path,
    project_path_from_lines, resolve_project, session_label, DeleteAttempt, Project, ProjectDir,
    ProjectRef, ProjectStore,
};
use session_supervisor::run::ToolKind;
use session_supervisor::version::{
    compare_node_versions, compare_versions, parse_decimal, parse_node_version, parse_version,
    rank_versions, Rank,
};
use std::cmp::Ordering;

fn installation(path: &str, version: Option<&str>, source: &str) -> ClaudeInstallation {
    ClaudeInstallation {
        path: path.to_string(),
        version: version.map(|v| v.to_string()),
        source: source.to_string(),
        installation_type: InstallationType::System,
    }
}

fn machine(os: &str, is_wsl: bool) -> RuntimeEnvironment {
    RuntimeEnvironment {
        os: os.to_string(),
        arch: "x86_64".to_string(),
        is_wsl,
        is_container: false,
        distro: None,
    }
}

fn probed(path: &str, source: &str, priority: u8, exists: bool, version: Option<&str>) -> ProbedCandidate {
    ProbedCandidate {
        path: path.to_string(),
        source: source.to_string(),
        priority,
        exists,
        version: version.map(|v| v.to_string()),
    }
}

fn strings(items: &[&str]) -> Vec<String> {
    items.iter().map(|s| s.to_string()).collect()
}

#[test]
fn versions_compare_number_by_number() {
    assert_eq!(compare_versions("1.0.41", "1.0.17"), Ordering::Greater);
    assert_eq!(compare_versions("1.0.17", "1.0.41"), Ordering::Less);
    assert_eq!(compare_versions("1.2", "1.2.0"), Ordering::Equal);
    assert_eq!(compare_versions("1.10.0", "1.9.9"), Ordering::Greater);
    assert_eq!(compare_versions("2.0.0-beta", "2.0.0"), Ordering::Equal);
    assert_eq!(compare_versions("1.0.17-beta.2", "1.0.17"), Ordering::Greater);
    assert_eq!(compare_versions("", ""), Ordering::Equal);
    assert_eq!(compare_versions("abc", "0"), Ordering::Equal);
    assert_eq!(rank_versions("3.1", "3.0.9"), Rank::Higher);
}

#[test]
fn version_pieces_without_a_number_are_left_out() {
    assert_eq!(parse_version("1.0.17-beta"), vec![1, 0, 17]);
    assert_eq!(parse_version("1.x.3"), vec![1, 3]);
    assert_eq!(parse_version("v1.2.3"), vec![2, 3]);
    assert_eq!(parse_version("1..2"), vec![1, 2]);
    assert_eq!(parse_version("4294967295.4294967296"), vec![4294967295]);
    assert_eq!(parse_version("007.08"), vec![7, 8]);
    assert_eq!(parse_version("1.٣.5"), vec![1, 5]);
    assert_eq!(parse_version("1.2٣.5"), vec![1, 5]);
    assert_eq!(parse_version("1.2a٣.5"), vec![1, 2, 5]);
}

#[test]
fn node_versions_read_whole_pieces() {
    assert_eq!(parse_node_version("v22.11.0"), vec![22, 11, 0]);
    assert_eq!(parse_node_version("vv18.20.4"), vec![18, 20, 4]);
    assert_eq!(parse_node_version("18.20.4-rc"), vec![18, 20]);
    assert_eq!(parse_node_version("+5.-1.3"), vec![5, 3]);
    assert_eq!(parse_node_version("v"), Vec::<u32>::new());
    assert_eq!(compare_node_versions("v22.11.0", "v18.20.4"), Ordering::Greater);
    assert_eq!(compare_node_versions("v8.0.0", "v10.0.0"), Ordering::Less);
    assert_eq!(compare_node_versions("v20", "20.0.0"), Ordering::Equal);
}

#[test]
fn decimal_numbers_must_fit() {
    let digits: Vec<char> = "x4294967295y".chars().collect();
    assert_eq!(parse_decimal(&digits, 1, 11), Some(4294967295));
    assert_eq!(parse_decimal(&digits, 1, 1), None);
    assert_eq!(parse_decimal(&digits, 0, 3), None);
    let big: Vec<char> = "4294967296".chars().collect();
    assert_eq!(parse_decimal(&big, 0, 10), None);
    assert_eq!(parse_decimal(&big, 0, 9), Some(429496729));
}

#[test]
fn source_scores_follow_the_table() {
    let score = |source: &str| source_preference(&installation("/x", None, source), "codex");
    assert_eq!(score("where"), 1);
    assert_eq!(score("homebrew"), 2);
    assert_eq!(score("system"), 3);
    assert_eq!(score("nvm (v22.1.0)"), 4);
    assert_eq!(score("local-bin"), 5);
    assert_eq!(score("codex-local"), 6);
    assert_eq!(score("npm-global"), 7);
    assert_eq!(score("yarn"), 8);
    assert_eq!(score("yarn-global"), 8);
    assert_eq!(score("bun"), 9);
    assert_eq!(score("node-modules"), 10);
    assert_eq!(score("home-bin"), 11);
    assert_eq!(score("PATH"), 12);
    assert_eq!(score("gemini-local"), 13);
    assert_eq!(score("which"), 13);
    assert_eq!(fallback_priority("npm-global-windows"), 1);
    assert_eq!(fallback_priority("npm-prefix"), 1);
    assert_eq!(fallback_priority("local-bin"), 2);
    assert_eq!(fallback_priority("homebrew-arm"), 3);
    assert_eq!(fallback_priority("nvm-v20"), 4);
    assert_eq!(fallback_priority("which"), 5);
    assert_eq!(fallback_priority("where"), 5);
    assert_eq!(fallback_priority("PATH"), 6);
    assert_eq!(fallback_priority("volta"), 10);
}

#[test]
fn listing_puts_newest_first_and_keeps_ties_in_order() {
    let found = vec![
        installation("/a", None, "PATH"),
        installation("/b", Some("1.0.17"), "system"),
        installation("/c", Some("1.0.41"), "npm-global"),
        installation("/d", Some("1.0.41"), "homebrew"),
        installation("/e", None, "where"),
        installation("/f", Some("1.0.41.0"), "homebrew"),
        installation("/g", None, "PATH"),
    ];
    let listed = discover_claude_installations(found, "codex");
    let paths: Vec<&str> = listed.iter().map(|i| i.path.as_str()).collect();
    assert_eq!(paths, vec!["/d", "/f", "/c", "/b", "/e", "/a", "/g"]);
    assert!(discover_claude_installations(Vec::new(), "codex").is_empty());
}

#[test]
fn best_installation_prefers_versions_then_sources() {
    let best = select_best_installation(
        vec![
            installation("/old", Some("1.0.3"), "system"),
            installation("/none", None, "npm-global"),
            installation("/new", Some("1.2.0"), "PATH"),
            installation("/same", Some("1.2"), "where"),
        ],
        "codex",
    )
    .unwrap();
    assert_eq!(best.path, "/same");
    let best = select_best_installation(
        vec![
            installation("codex", None, "PATH"),
            installation("/usr/bin/codex", None, "PATH"),
            installation("/opt/homebrew/bin/codex", None, "homebrew-arm"),
            installation("/other", None, "which"),
        ],
        "codex",
    )
    .unwrap();
    assert_eq!(best.path, "/opt/homebrew/bin/codex");
    let best = select_best_installation(
        vec![installation("/full/path", None, "PATH"), installation("codex", None, "PATH")],
        "codex",
    )
    .unwrap();
    assert_eq!(best.path, "/full/path");
    let best = select_best_installation(
        vec![installation("/one", None, "PATH"), installation("/two", None, "PATH")],
        "codex",
    )
    .unwrap();
    assert_eq!(best.path, "/two");
    assert!(select_best_installation(Vec::new(), "codex").is_none());
}

#[test]
fn best_with_priority_takes_the_first_of_the_best() {
    let candidate = |priority: u8, path: &str, version: Option<&str>| PrioritizedInstallation {
        priority,
        installation: installation(path, version, "common-path"),
    };
    let best = select_best_with_priority(vec![
        candidate(3, "/c", Some("9.9.9")),
        candidate(1, "/a", Some("1.0.0")),
        candidate(1, "/b", Some("1.0.1")),
        candidate(1, "/b2", Some("1.0.1")),
        candidate(1, "/n", None),
    ])
    .unwrap();
    assert_eq!(best.path, "/b");
    let best = select_best_with_priority(vec![candidate(4, "/only", None)]).unwrap();
    assert_eq!(best.path, "/only");
    assert!(select_best_with_priority(Vec::new()).is_none());
}

#[test]
fn candidates_count_once_and_only_when_probed_well() {
    let mut list = Vec::new();
    let mut seen = Vec::new();
    push_candidate(&mut list, &mut seen, probed("/Opt/Tool/codex", "PATH", 1, true, None));
    push_candidate(&mut list, &mut seen, probed("/opt/tool/CODEX", "common-path", 3, true, Some("1.0.0")));
    push_candidate(&mut list, &mut seen, probed("/missing/codex", "common-path", 3, false, Some("1.0.0")));
    push_candidate(&mut list, &mut seen, probed("codex", "PATH", 1, false, None));
    push_candidate(&mut list, &mut seen, probed("codex.cmd", "PATH", 1, false, Some("2.0.0")));
    push_candidate(&mut list, &mut seen, probed("C:\\tools\\codex.exe", "registry", 2, true, None));
    let paths: Vec<&str> = list.iter().map(|p| p.installation.path.as_str()).collect();
    assert_eq!(paths, vec!["/Opt/Tool/codex", "codex.cmd", "C:\\tools\\codex.exe"]);
    assert_eq!(seen, vec!["/opt/tool/codex", "/missing/codex", "codex", "codex.cmd", "c:\\tools\\codex.exe"]);
    assert_eq!(list[1].priority, 1);
    assert_eq!(list[1].installation.version.as_deref(), Some("2.0.0"));
    assert_eq!(list[1].installation.installation_type, InstallationType::System);
}

#[test]
fn detection_picks_by_priority_then_version() {
    let candidates = vec![
        probed("/low/codex", "user-config", 4, true, Some("9.0.0")),
        probed("/mid/codex", "registry", 2, true, Some("1.0.0")),
        probed("/mid2/codex", "fnm-multishells", 2, true, Some("1.5.0")),
        probed("/MID2/codex", "common-path", 0, true, Some("7.0.0")),
        probed("/gone/codex", "env:CODEX_PATH", 0, false, None),
    ];
    assert_eq!(collect_candidates(&candidates).len(), 3);
    let (env, best) = detect_binary_for_tool(machine("linux", false), &candidates);
    assert_eq!(env.os, "linux");
    let best = best.unwrap();
    assert_eq!(best.path, "/mid2/codex");
    assert_eq!(best.source, "fnm-multishells");
    let (_, none) = detect_binary_for_tool(machine("linux", false), &Vec::new());
    assert!(none.is_none());
}

#[test]
fn aliases_depend_on_the_system() {
    assert_eq!(
        get_tool_aliases("codex", &machine("windows", false)),
        vec!["codex.exe", "codex.cmd", "codex.bat", "codex.ps1", "codex"]
    );
    assert_eq!(get_tool_aliases("codex", &machine("macos", false)), vec!["codex"]);
    assert_eq!(get_tool_aliases("codex", &machine("linux", true)), vec!["codex"]);
}

#[test]
fn candidate_plan_follows_the_search_order() {
    let facts = SearchFacts {
        env_value: Some("/custom/codex".to_string()),
        path_hits: strings(&["/usr/bin/codex"]),
        registry_hits: Vec::new(),
        manager_hits: Vec::new(),
        roots: strings(&["/usr/local/bin", "/Applications/Tool.app"]),
    };
    let section = BinarySearchSection {
        override_path: Some("/override".to_string()),
        search_paths: strings(&["/s1", "/s2"]),
    };
    let plan = collect_runtime_candidates("codex", "CODEX_PATH", &machine("macos", false), &facts, Some(&section));
    let rows: Vec<(String, String, u8)> =
        plan.iter().map(|c| (c.path.clone(), c.source.clone(), c.priority)).collect();
    let expect = |p: &str, s: &str, n: u8| (p.to_string(), s.to_string(), n);
    assert_eq!(
        rows,
        vec![
            expect("/custom/codex", "env:CODEX_PATH", 0),
            expect("/usr/bin/codex", "PATH", 1),
            expect("/usr/local/bin/codex", "common-path", 3),
            expect("/Applications/Tool.app/Contents/MacOS/codex", "common-path", 3),
            expect("/override", "user-config", 4),
            expect("/s1", "user-config", 4),
            expect("/s2", "user-config", 4),
        ]
    );

    let facts = SearchFacts {
        env_value: Some("   ".to_string()),
        path_hits: Vec::new(),
        registry_hits: strings(&["C:\\reg\\codex.exe"]),
        manager_hits: strings(&["C:\\fnm\\codex.cmd"]),
        roots: strings(&["C:\\tools"]),
    };
    let plan = collect_runtime_candidates("codex", "CODEX_PATH", &machine("windows", false), &facts, None);
    let paths: Vec<&str> = plan.iter().map(|c| c.path.as_str()).collect();
    assert_eq!(
        paths,
        vec![
            "C:\\reg\\codex.exe",
            "C:\\fnm\\codex.cmd",
            "C:\\tools\\codex.exe",
            "C:\\tools\\codex.cmd",
            "C:\\tools\\codex.bat",
            "C:\\tools\\codex.ps1",
            "C:\\tools\\codex",
        ]
    );
    assert_eq!(plan[1].source, "fnm-multishells");
    assert_eq!(plan[1].priority, 2);

    let empty = SearchFacts {
        env_value: None,
        path_hits: Vec::new(),
        registry_hits: Vec::new(),
        manager_hits: Vec::new(),
        roots: Vec::new(),
    };
    let plan = collect_runtime_candidates("codex", "CODEX_PATH", &machine("linux", true), &empty, None);
    let rows: Vec<(String, String, u8)> =
        plan.iter().map(|c| (c.path.clone(), c.source.clone(), c.priority)).collect();
    assert_eq!(
        rows,
        vec![
            expect("/mnt/c/Program Files/codex/codex", "wsl-host", 3),
            expect("/mnt/d/Program Files/codex/codex", "wsl-host", 3),
        ]
    );
}

#[test]
fn sections_are_picked_by_tool() {
    let cfg = BinarySearchConfig {
        claude: None,
        codex: Some(BinarySearchSection { override_path: Some("/c".to_string()), search_paths: strings(&["/x"]) }),
        gemini: Some(BinarySearchSection { override_path: None, search_paths: Vec::new() }),
    };
    assert!(pick_section(&cfg, ToolKind::Claude).is_none());
    let codex = pick_section(&cfg, ToolKind::Codex).unwrap();
    assert_eq!(codex.override_path.as_deref(), Some("/c"));
    assert_eq!(codex.search_paths, vec!["/x"]);
    assert!(pick_section(&cfg, ToolKind::Gemini).unwrap().override_path.is_none());
}

#[test]
fn search_path_is_merged_without_repeats() {
    let merged = init_shell_environment(
        &strings(&["/nvm/v22/bin", "/nvm/v20/bin"]),
        Some("/usr/bin:/nvm/v22/bin::/home/u/bin"),
        &strings(&["/usr/local/bin", "/usr/bin"]),
        "/bin:/usr/local/bin:",
    );
    assert_eq!(
        merged.as_deref(),
        Some("/nvm/v22/bin:/nvm/v20/bin:/usr/bin:/home/u/bin:/usr/local/bin:/bin")
    );
    assert_eq!(init_shell_environment(&Vec::new(), None, &Vec::new(), ""), None);
    assert_eq!(init_shell_environment(&Vec::new(), Some(":"), &Vec::new(), "/only").as_deref(), Some("/only"));
    assert_eq!(split_search_path("a::b:"), vec!["a", "b"]);
    assert!(split_search_path("").is_empty());
}

#[test]
fn hidden_projects_are_hidden_once_and_restored_once() {
    let mut store = ProjectStore::new("/home/u/.tool".to_string());
    assert_eq!(store.claude_dir(), "/home/u/.tool");
    assert!(store.hide_project("p1"));
    assert!(store.hide_project("p2"));
    assert!(!store.hide_project("p1"));
    assert_eq!(store.hidden_projects(), &strings(&["p1", "p2"]));
    assert_eq!(store.restore_project("p1"), Ok(()));
    assert_eq!(
        store.restore_project("p1"),
        Err("Project 'p1' is not in the hidden list".to_string())
    );
    assert_eq!(store.hidden_projects(), &strings(&["p2"]));

    let mut store = ProjectStore::with_hidden("/d".to_string(), strings(&["a", "b", "a", "c"]));
    assert_eq!(store.restore_project("a"), Ok(()));
    assert_eq!(store.hidden_projects(), &strings(&["b", "a", "c"]));
    assert!(store.remove_from_hidden_projects(&strings(&["a", "c", "zz"])));
    assert_eq!(store.hidden_projects(), &strings(&["b"]));
    assert!(!store.remove_from_hidden_projects(&strings(&["nobody"])));
}

#[test]
fn batch_delete_counts_and_explains() {
    let store = ProjectStore::new("/d".to_string());
    let attempt = |id: &str, result: Result<bool, &str>| DeleteAttempt {
        session_id: id.to_string(),
        result: result.map_err(|e| e.to_string()),
    };
    let outcome = store.delete_sessions_batch(&vec![
        attempt("s1", Ok(true)),
        attempt("s2", Ok(false)),
        attempt("s3", Err("Failed to delete session file: denied")),
        attempt("s4", Ok(true)),
    ]);
    assert_eq!(outcome.deleted_count, 2);
    assert_eq!(outcome.failed_count, 2);
    assert_eq!(
        outcome.errors,
        vec![
            "Session file not found for ID: s2",
            "Failed to delete session s3: Failed to delete session file: denied",
        ]
    );
    let outcome = store.delete_sessions_batch(&Vec::new());
    assert_eq!((outcome.deleted_count, outcome.failed_count), (0, 0));
    assert!(outcome.errors.is_empty());
}

#[test]
fn corrupt_hidden_lists_are_recognized() {
    assert!(hidden_list_is_corrupt(4, 3));
    assert!(!hidden_list_is_corrupt(3, 3));
    assert!(!hidden_list_is_corrupt(5, 0));
    assert!(!hidden_list_is_corrupt(0, 0));
}

#[test]
fn macos_paths_are_normalized() {
    assert_eq!(normalize_macos_path("/private/tmp/work/"), "/tmp/work");
    assert_eq!(normalize_macos_path("/private/var/folders/x"), "/var/folders/x");
    assert_eq!(normalize_macos_path("/private/etc/hosts"), "/etc/hosts");
    assert_eq!(normalize_macos_path("/private/tmp"), "/private/tmp");
    assert_eq!(normalize_macos_path("/private/other/"), "/private/other");
    assert_eq!(normalize_macos_path("/Users/me/proj"), "/Users/me/proj");
    assert_eq!(normalize_macos_path("/"), "/");
    assert_eq!(normalize_macos_path(""), "");
    assert_eq!(normalize_macos_path("/private/tmp/"), "/tmp");
    assert_eq!(normalize_macos_path("/Users/é/"), "/Users/é");
}

#[test]
fn duplicate_projects_are_merged() {
    let project = |id: &str, path: &str, sessions: &[&str], at: u64| Project {
        id: id.to_string(),
        path: path.to_string(),
        sessions: strings(sessions),
        created_at: at,
    };
    let all = vec![
        ("/work/app".to_string(), project("-work-app--x", "/work/app", &["s1", "s2", "s1"], 10)),
        ("/work/lib".to_string(), project("-work-lib", "/work/lib", &["t1"], 30)),
        ("/work/app".to_string(), project("-work-app", "/Work/App", &["s2", "s3"], 20)),
        ("/work/app".to_string(), project("-Work-App", "/work/app", &[], 5)),
        ("/work/old".to_string(), project("-work-old", "/work/old", &[], 30)),
    ];
    let list = deduplicate_projects(&all);
    assert_eq!(list.len(), 3);
    assert_eq!(list[0].id, "-work-lib");
    assert_eq!(list[1].id, "-work-old");
    assert_eq!(list[2].id, "-Work-App");
    assert_eq!(list[2].path, "/work/app");
    assert_eq!(list[2].sessions, vec!["s1", "s2", "s3"]);
    assert_eq!(list[2].created_at, 20);
    assert!(deduplicate_projects(&Vec::new()).is_empty());

    let same_length = vec![
        ("k".to_string(), project("ab--cd", "/p", &[], 1)),
        ("k".to_string(), project("abcdef", "/p", &[], 1)),
        ("k".to_string(), project("abc--f", "/p", &[], 1)),
        ("k".to_string(), project("abcdefg", "/p", &[], 1)),
    ];
    assert_eq!(deduplicate_projects(&same_length)[0].id, "abcdef");
}

#[test]
fn project_ids_resolve_to_directories() {
    let dirs = vec![
        ProjectDir { name: "-a".to_string(), key: "/a".to_string() },
        ProjectDir { name: "-b-1".to_string(), key: "/b".to_string() },
        ProjectDir { name: "-b-2".to_string(), key: "/b".to_string() },
    ];
    let reference = |id: &str, exists: bool, key: &str| ProjectRef {
        id: id.to_string(),
        exists,
        key: key.to_string(),
    };
    assert_eq!(find_directory(&dirs, "/b").as_deref(), Some("-b-1"));
    assert_eq!(find_directory(&dirs, "/zz"), None);
    assert_eq!(resolve_project(&reference("-x", true, "/zz"), &dirs).as_deref(), Some("-x"));
    assert_eq!(resolve_project(&reference("-x", false, "/a"), &dirs).as_deref(), Some("-a"));
    assert_eq!(resolve_project(&reference("-x", false, "/zz"), &dirs), None);
    let (kept, stale) = check_hidden_projects(
        &vec![
            reference("-a", true, "/a"),
            reference("-gone", false, "/gone"),
            reference("-b-old", false, "/b"),
            reference("-gone-too", false, "/nowhere"),
        ],
        &dirs,
    );
    assert_eq!(kept, vec!["-a", "-b-1"]);
    assert_eq!(stale, vec!["-gone", "-gone-too"]);
}

#[test]
fn sessions_are_listed_under_a_message_or_a_stand_in() {
    assert_eq!(session_label(Some("hi".to_string()), false, 0, "abcdef123456").as_deref(), Some("hi"));
    assert_eq!(
        session_label(None, true, 101, "abcdef123456").as_deref(),
        Some("Resumed Session (abcdef12...)")
    );
    assert_eq!(session_label(None, true, 500, "short").as_deref(), Some("Resumed Session (short...)"));
    assert_eq!(session_label(None, true, 100, "abcdef123456"), None);
    assert_eq!(session_label(None, false, 5000, "abcdef123456"), None);
    assert!(agent_session("agent-17"));
    assert!(!agent_session("agent"));
    assert!(!agent_session("my-agent-1"));
}

#[test]
fn project_path_comes_from_the_first_lines() {
    assert_eq!(collapse_backslashes("C:\\\\Users\\\\me"), "C:\\Users\\me");
    assert_eq!(collapse_backslashes("a\\\\\\b"), "a\\\\b");
    assert_eq!(collapse_backslashes("a\\\\\\\\b"), "a\\\\b");
    assert_eq!(collapse_backslashes("a\\b\\"), "a\\b\\");
    assert_eq!(collapse_backslashes(""), "");
    let lines = strings(&[
        "not json",
        r#"{"type":"summary"}"#,
        r#"{"cwd":17}"#,
        r#"{"cwd":"C:\\\\work\\\\app","type":"user"}"#,
        r#"{"cwd":"/later"}"#,
    ]);
    assert_eq!(project_path_from_lines(&lines).as_deref(), Some("C:\\work\\app"));
    let mut late = vec!["{}".to_string(); 10];
    late.push(r#"{"cwd":"/too/late"}"#.to_string());
    assert_eq!(project_path_from_lines(&late), None);
    late[9] = r#"{"cwd":"/just/in/time"}"#.to_string();
    assert_eq!(project_path_from_lines(&late).as_deref(), Some("/just/in/time"));
    assert_eq!(project_path_from_lines(&Vec::new()), None);
}

#[test]
fn missing_projects_are_explained() {
    assert_eq!(
        missing_project_message("C--Users-me", "\"/p/C--Users-me\""),
        "项目目录不存在。可能已被手动删除，或使用了不同的编码格式。原始ID: C--Users-me"
    );
    assert_eq!(missing_project_message("-a---b", "\"/p/-a---b\""), "项目目录不存在: \"/p/-a---b\"");
    assert_eq!(missing_project_message("-home-me", "\"/p/-home-me\""), "项目目录不存在: \"/p/-home-me\"");
}

#[test]
fn installations_are_kept_once_per_path() {
    let found = vec![
        installation("/a", Some("1.0.0"), "which"),
        installation("/b", None, "nvm (v20)"),
        installation("/a", Some("2.0.0"), "homebrew"),
        installation("/A", None, "PATH"),
        installation("/b", None, "PATH"),
    ];
    let kept = dedupe_by_path(&found);
    let rows: Vec<(&str, &str)> = kept.iter().map(|i| (i.path.as_str(), i.source.as_str())).collect();
    assert_eq!(rows, vec![("/a", "which"), ("/b", "nvm (v20)"), ("/A", "PATH")]);
    assert!(dedupe_by_path(&Vec::new()).is_empty());
}

#[test]
fn hidden_directories_are_not_listed() {
    let mut store = ProjectStore::with_hidden("/d".to_string(), strings(&["b", "gone"]));
    let (visible, cleared) = store.visible_projects(&strings(&["a", "b", "c"]));
    assert_eq!(visible, vec!["a", "c"]);
    assert!(!cleared);
    assert_eq!(store.hidden_projects(), &strings(&["b", "gone"]));

    let mut corrupt = ProjectStore::with_hidden("/d".to_string(), strings(&["a", "b", "x", "y"]));
    let (visible, cleared) = corrupt.visible_projects(&strings(&["a", "b", "c"]));
    assert_eq!(visible, vec!["a", "b", "c"]);
    assert!(cleared);
    assert!(corrupt.hidden_projects().is_empty());

    let mut all_hidden = ProjectStore::with_hidden("/d".to_string(), strings(&["a", "b"]));
    let (visible, cleared) = all_hidden.visible_projects(&strings(&["a", "b"]));
    assert!(visible.is_empty());
    assert!(!cleared);

    let mut no_dirs = ProjectStore::with_hidden("/d".to_string(), strings(&["a"]));
    let (visible, cleared) = no_dirs.visible_projects(&Vec::new());
    assert!(visible.is_empty());
    assert!(!cleared);
    assert_eq!(no_dirs.hidden_projects(), &strings(&["a"]));
}

#[test]
fn older_discoveries_stand_behind_the_search() {
    let candidates = vec![probed("/low/codex", "user-config", 4, true, Some("1.0.0"))];
    let legacy = vec![
        installation("/legacy/new", Some("9.0.0"), "which"),
        installation("/legacy/old", Some("2.0.0"), "nvm (v20)"),
    ];
    assert_eq!(find_best_binary(&candidates, &legacy).unwrap().path, "/low/codex");
    assert_eq!(find_best_binary(&Vec::new(), &legacy).unwrap().path, "/legacy/new");
    let far = vec![probed("/far/codex", "odd", 6, true, Some("1.0.0"))];
    assert_eq!(find_best_binary(&far, &legacy).unwrap().path, "/legacy/new");
    assert!(find_best_binary(&Vec::new(), &Vec::new()).is_none());
}

#[test]
fn the_memory_of_a_search_holds_for_one_version() {
    let memory = |version: Option<&str>, path: Option<&str>, is_file: bool, works: bool| RememberedPath {
        stored_version: version.map(|v| v.to_string()),
        path: path.map(|p| p.to_string()),
        is_file,
        works,
    };
    match use_of_memory(memory(Some("1.2.0"), Some("/bin/tool"), true, true), "1.2.0") {
        MemoryUse::Use(path) => assert_eq!(path, "/bin/tool"),
        other => panic!("unexpected use {:?}", other),
    }
    assert!(matches!(use_of_memory(memory(Some("1.1.0"), Some("/bin/tool"), true, true), "1.2.0"), MemoryUse::Renew));
    assert!(matches!(use_of_memory(memory(None, Some("/bin/tool"), true, true), "1.2.0"), MemoryUse::Renew));
    assert!(matches!(use_of_memory(memory(Some("1.2.0"), Some("/bin/tool"), true, false), "1.2.0"), MemoryUse::Forget));
    assert!(matches!(use_of_memory(memory(Some("1.2.0"), Some("/bin/tool"), false, true), "1.2.0"), MemoryUse::Forget));
    assert!(matches!(use_of_memory(memory(Some("1.2.0"), None, false, false), "1.2.0"), MemoryUse::Search));
}
