//! Looking for a driver executable: which names it goes by, which candidates count, and
//! which of them is launched.
//!
//! The caller looks: it reads environment variables, resolves commands, checks that
//! files exist and asks executables for their version. What it finds, it reports here as
//! candidates, in the order of its search.

use crate::installation::{
    best_by_priority, select_best_with_priority, ClaudeInstallation, InstallationType,
    InstallationView, PrioritizedInstallation, PrioritizedView,
};
use crate::run::ToolKind;
use crate::text::{
    chars_of, contains, contains_char, contains_string, has_substring, join, joined, lowercase,
    push_string, split_chars, split_on, string_from_chars, to_lowercase, trim, trimmed,
    without_repeats,
};
use vstd::prelude::*;
use vstd::string::*;

verus! {

/// The machine the application runs on, as far as the search depends on it.
#[derive(Debug)]
pub struct RuntimeEnvironment {
    /// The operating system, such as `windows`, `macos`, `linux`.
    pub os: String,
    pub arch: String,
    /// Running under the Windows Subsystem for Linux.
    pub is_wsl: bool,
    pub is_container: bool,
    /// The Linux distribution, where known.
    pub distro: Option<String>,
}

/// View of [`RuntimeEnvironment`].
pub struct RuntimeEnvironmentView {
    pub os: Seq<char>,
    pub arch: Seq<char>,
    pub is_wsl: bool,
    pub is_container: bool,
    pub distro: Option<Seq<char>>,
}

impl View for RuntimeEnvironment {
    type V = RuntimeEnvironmentView;

    open spec fn view(&self) -> RuntimeEnvironmentView {
        RuntimeEnvironmentView {
            os: self.os@,
            arch: self.arch@,
            is_wsl: self.is_wsl,
            is_container: self.is_container,
            distro: self.distro.deep_view(),
        }
    }
}

/// What the user configured for the search of one tool.
#[derive(Debug)]
pub struct BinarySearchSection {
    /// The executable to use, overriding the search.
    pub override_path: Option<String>,
    /// Further directories or files to look at.
    pub search_paths: Vec<String>,
}

/// View of [`BinarySearchSection`].
pub struct BinarySearchSectionView {
    pub override_path: Option<Seq<char>>,
    pub search_paths: Seq<Seq<char>>,
}

impl View for BinarySearchSection {
    type V = BinarySearchSectionView;

    open spec fn view(&self) -> BinarySearchSectionView {
        BinarySearchSectionView {
            override_path: self.override_path.deep_view(),
            search_paths: self.search_paths.deep_view(),
        }
    }
}

impl DeepView for BinarySearchSection {
    type V = BinarySearchSectionView;

    open spec fn deep_view(&self) -> BinarySearchSectionView {
        self@
    }
}

impl Clone for BinarySearchSection {
    fn clone(&self) -> (r: Self)
        ensures
            r@ == self@,
    {
        let search_paths = self.search_paths.clone();
        assert(search_paths@ =~= self.search_paths@);
        assert(search_paths.deep_view() =~= self.search_paths.deep_view());
        BinarySearchSection { override_path: self.override_path.clone(), search_paths }
    }
}

/// What the user configured for the search, one section per tool.
#[derive(Debug)]
pub struct BinarySearchConfig {
    pub claude: Option<BinarySearchSection>,
    pub codex: Option<BinarySearchSection>,
    pub gemini: Option<BinarySearchSection>,
}

/// The section of the configuration that belongs to `kind`.
pub fn pick_section(cfg: &BinarySearchConfig, kind: ToolKind) -> (r: Option<BinarySearchSection>)
    ensures
        r.deep_view() == (match kind {
            ToolKind::Claude => cfg.claude.deep_view(),
            ToolKind::Codex => cfg.codex.deep_view(),
            ToolKind::Gemini => cfg.gemini.deep_view(),
        }),
{
    let section = match kind {
        ToolKind::Claude => &cfg.claude,
        ToolKind::Codex => &cfg.codex,
        ToolKind::Gemini => &cfg.gemini,
    };
    match section {
        Some(s) => Some(s.clone()),
        None => None,
    }
}

/// The file names an executable called `tool` goes by: on Windows the name with each
/// of the executable extensions and then the bare name, elsewhere the bare name.
pub open spec fn tool_aliases(tool: Seq<char>, os: Seq<char>) -> Seq<Seq<char>> {
    if os == "windows"@ {
        seq![tool + ".exe"@, tool + ".cmd"@, tool + ".bat"@, tool + ".ps1"@, tool]
    } else {
        seq![tool]
    }
}

fn with_suffix(tool: &str, suffix: &str) -> (r: String)
    ensures
        r@ == tool@ + suffix@,
{
    let mut name = String::from_str(tool);
    name.append(suffix);
    name
}

/// Lists the file names an executable called `tool` goes by on the given machine.
pub fn get_tool_aliases(tool: &str, env: &RuntimeEnvironment) -> (r: Vec<String>)
    ensures
        r.deep_view() == tool_aliases(tool@, env@.os),
{
    let mut names: Vec<String> = Vec::new();
    if *env.os.as_str() == *"windows" {
        names.push(with_suffix(tool, ".exe"));
        names.push(with_suffix(tool, ".cmd"));
        names.push(with_suffix(tool, ".bat"));
        names.push(with_suffix(tool, ".ps1"));
    }
    names.push(String::from_str(tool));
    assert(names.deep_view() =~= tool_aliases(tool@, env@.os));
    names
}

/// A place where the executable may be, with what the caller found out about it.
#[derive(Debug)]
pub struct ProbedCandidate {
    /// A path, or a bare command name.
    pub path: String,
    /// Where the candidate comes from, such as `PATH`, `registry`, `common-path`.
    pub source: String,
    /// The priority of that place; a smaller number is a higher priority.
    pub priority: u8,
    /// Whether a file exists under `path`.
    pub exists: bool,
    /// The version the executable reported when asked, if it answered.
    pub version: Option<String>,
}

/// View of [`ProbedCandidate`].
pub struct ProbedView {
    pub path: Seq<char>,
    pub source: Seq<char>,
    pub priority: u8,
    pub exists: bool,
    pub version: Option<Seq<char>>,
}

impl View for ProbedCandidate {
    type V = ProbedView;

    open spec fn view(&self) -> ProbedView {
        ProbedView {
            path: self.path@,
            source: self.source@,
            priority: self.priority,
            exists: self.exists,
            version: self.version.deep_view(),
        }
    }
}

impl DeepView for ProbedCandidate {
    type V = ProbedView;

    open spec fn deep_view(&self) -> ProbedView {
        self@
    }
}

/// The candidate names a place in the file system rather than a command.
pub open spec fn looks_like_path(path: Seq<char>) -> bool {
    path.contains('\\') || path.contains('/')
}

/// The candidates accepted so far, and the paths seen so far, in lower case.
pub struct Collected {
    pub list: Seq<PrioritizedView>,
    pub seen: Seq<Seq<char>>,
}

impl ProbedView {
    /// The candidate counts: its path was not seen before, letter case aside, and it is a
    /// path under which a file exists, or a command that reported a version.
    pub open spec fn counts(self, seen: Seq<Seq<char>>) -> bool {
        &&& !seen.contains(lowercase(self.path))
        &&& if looks_like_path(self.path) {
            self.exists
        } else {
            self.version is Some
        }
    }

    /// The candidate as a system installation.
    pub open spec fn prioritized(self) -> PrioritizedView {
        PrioritizedView {
            priority: self.priority,
            installation: InstallationView {
                path: self.path,
                version: self.version,
                source: self.source,
                installation_type: InstallationType::System,
            },
        }
    }
}

impl Collected {
    /// The collection after `candidate` was offered. Its path counts as seen from now on,
    /// whether the candidate was accepted or not.
    pub open spec fn pushed(self, candidate: ProbedView) -> Collected {
        Collected {
            list: if candidate.counts(self.seen) {
                self.list.push(candidate.prioritized())
            } else {
                self.list
            },
            seen: if self.seen.contains(lowercase(candidate.path)) {
                self.seen
            } else {
                self.seen.push(lowercase(candidate.path))
            },
        }
    }
}

/// The collection after all of `candidates` were offered in order.
pub open spec fn collected(candidates: Seq<ProbedView>) -> Collected
    decreases candidates.len(),
{
    if candidates.len() == 0 {
        Collected { list: Seq::empty(), seen: Seq::empty() }
    } else {
        collected(candidates.drop_last()).pushed(candidates.last())
    }
}

/// Offers one candidate: it joins the list if it counts, see [`ProbedView::counts`].
pub fn push_candidate(
    list: &mut Vec<PrioritizedInstallation>,
    seen: &mut Vec<String>,
    candidate: ProbedCandidate,
)
    ensures
        (Collected { list: final(list).deep_view(), seen: final(seen).deep_view() }) == (Collected {
            list: old(list).deep_view(),
            seen: old(seen).deep_view(),
        }).pushed(candidate@),
{
    let normalized = to_lowercase(candidate.path.as_str());
    if contains_string(seen, normalized.as_str()) {
        return;
    }
    push_string(seen, normalized);
    let path = candidate.path.as_str();
    let is_path = contains_char(path, '\\') || contains_char(path, '/');
    if is_path && !candidate.exists {
        return;
    }
    if !is_path && candidate.version.is_none() {
        return;
    }
    let ghost before = list.deep_view();
    list.push(
        PrioritizedInstallation {
            priority: candidate.priority,
            installation: ClaudeInstallation {
                path: candidate.path,
                version: candidate.version,
                source: candidate.source,
                installation_type: InstallationType::System,
            },
        },
    );
    assert(list.deep_view() =~= before.push(candidate@.prioritized()));
}

fn copy_candidate(c: &ProbedCandidate) -> (r: ProbedCandidate)
    ensures
        r@ == c@,
{
    ProbedCandidate {
        path: c.path.clone(),
        source: c.source.clone(),
        priority: c.priority,
        exists: c.exists,
        version: c.version.clone(),
    }
}

/// Collects the candidates that count, in the order they were offered.
pub fn collect_candidates(candidates: &Vec<ProbedCandidate>) -> (r: Vec<PrioritizedInstallation>)
    ensures
        r.deep_view() == collected(candidates.deep_view()).list,
{
    let mut list: Vec<PrioritizedInstallation> = Vec::new();
    let mut seen: Vec<String> = Vec::new();
    let mut i: usize = 0;
    assert(candidates.deep_view().take(0) =~= Seq::<ProbedView>::empty());
    assert(list.deep_view() =~= Seq::<PrioritizedView>::empty());
    assert(seen.deep_view() =~= Seq::<Seq<char>>::empty());
    while i < candidates.len()
        invariant
            i <= candidates@.len(),
            (Collected { list: list.deep_view(), seen: seen.deep_view() }) == collected(
                candidates.deep_view().take(i as int),
            ),
        decreases candidates@.len() - i,
    {
        proof {
            let upto = candidates.deep_view().take(i + 1);
            assert(upto.drop_last() =~= candidates.deep_view().take(i as int));
            assert(upto.last() == candidates@[i as int]@);
        }
        push_candidate(&mut list, &mut seen, copy_candidate(&candidates[i]));
        i += 1;
    }
    assert(candidates.deep_view().take(i as int) =~= candidates.deep_view());
    list
}

/// Settles which executable is launched: of the candidates that count, the one from the
/// place of highest priority and, within it, of the newest version; of equals, the one
/// the search came across first. The machine description is handed back with it.
pub fn detect_binary_for_tool(runtime_env: RuntimeEnvironment, candidates: &Vec<ProbedCandidate>) -> (r:
    (RuntimeEnvironment, Option<ClaudeInstallation>))
    ensures
        r.0@ == runtime_env@,
        r.1.deep_view() == best_by_priority(collected(candidates.deep_view()).list),
{
    let prioritized = collect_candidates(candidates);
    let best = select_best_with_priority(prioritized);
    (runtime_env, best)
}

/// A piece of a search path that names a directory.
pub open spec fn names_directory() -> spec_fn(Seq<char>) -> bool {
    |entry: Seq<char>| entry.len() > 0
}

/// The directories of a search path: its pieces between colons, empty ones left out.
pub open spec fn path_entries(path: Seq<char>) -> Seq<Seq<char>> {
    split_on(path, ':').filter(names_directory())
}

/// The directories for the search path of a graphical application, which does not get
/// the one the user's shell would have: first those of the Node version manager, then
/// those of the shell, then the usual places, then those of the path it was started
/// with; each directory only where it comes first.
pub open spec fn merged_entries(
    manager: Seq<Seq<char>>,
    shell: Option<Seq<char>>,
    fallback: Seq<Seq<char>>,
    current: Seq<char>,
) -> Seq<Seq<char>> {
    without_repeats(
        manager + (match shell {
            Some(path) => path_entries(path),
            None => Seq::empty(),
        }) + fallback + path_entries(current),
    )
}

/// The search path made of [`merged_entries`], joined by colons; `None` where there is
/// no directory at all.
pub open spec fn merged_path(
    manager: Seq<Seq<char>>,
    shell: Option<Seq<char>>,
    fallback: Seq<Seq<char>>,
    current: Seq<char>,
) -> Option<Seq<char>> {
    let entries = merged_entries(manager, shell, fallback, current);
    if entries.len() == 0 {
        None
    } else {
        Some(joined(entries, ":"@))
    }
}

/// Appends to `out` the items of `more` that are not in it yet.
fn append_new(out: &mut Vec<String>, more: &Vec<String>, Ghost(before): Ghost<Seq<Seq<char>>>)
    requires
        old(out).deep_view() == without_repeats(before),
    ensures
        final(out).deep_view() == without_repeats(before + more.deep_view()),
{
    let mut i: usize = 0;
    assert(before + more.deep_view().take(0) =~= before);
    while i < more.len()
        invariant
            i <= more@.len(),
            out.deep_view() == without_repeats(before + more.deep_view().take(i as int)),
        decreases more@.len() - i,
    {
        proof {
            let upto = before + more.deep_view().take(i + 1);
            assert(upto.drop_last() =~= before + more.deep_view().take(i as int));
            assert(upto.last() == more@[i as int]@);
        }
        if !contains_string(out, more[i].as_str()) {
            push_string(out, more[i].clone());
        }
        i += 1;
    }
    assert(more.deep_view().take(i as int) =~= more.deep_view());
}

/// Splits a search path into its directories.
pub fn split_search_path(path: &str) -> (r: Vec<String>)
    ensures
        r.deep_view() == path_entries(path@),
{
    let chars = chars_of(path);
    let pieces = split_chars(&chars, ':');
    let ghost keep = names_directory();
    let mut out: Vec<String> = Vec::new();
    let mut i: usize = 0;
    assert(pieces.deep_view().take(0) =~= Seq::<Seq<char>>::empty());
    assert(out.deep_view() =~= Seq::<Seq<char>>::empty());
    proof {
        reveal(Seq::filter);
    }
    while i < pieces.len()
        invariant
            i <= pieces@.len(),
            keep == names_directory(),
            out.deep_view() == pieces.deep_view().take(i as int).filter(keep),
        decreases pieces@.len() - i,
    {
        proof {
            reveal(Seq::filter);
            let upto = pieces.deep_view().take(i + 1);
            assert(upto.drop_last() =~= pieces.deep_view().take(i as int));
            assert(upto.last() == pieces@[i as int].deep_view());
            crate::text::lemma_chars_view(pieces@[i as int]);
        }
        if pieces[i].len() > 0 {
            push_string(&mut out, string_from_chars(&pieces[i]));
        }
        i += 1;
    }
    assert(pieces.deep_view().take(i as int) =~= pieces.deep_view());
    out
}

/// Works out the search path a graphical application should run with, see
/// [`merged_entries`]. `manager_paths` are the directories of the Node version manager,
/// newest version first, `shell_path` is the search path the user's shell reports,
/// `fallback_paths` are the usual places that exist on this machine, and `current_path`
/// is the search path of the process.
pub fn init_shell_environment(
    manager_paths: &Vec<String>,
    shell_path: Option<&str>,
    fallback_paths: &Vec<String>,
    current_path: &str,
) -> (r: Option<String>)
    ensures
        r.deep_view() == merged_path(
            manager_paths.deep_view(),
            shell_path.deep_view(),
            fallback_paths.deep_view(),
            current_path@,
        ),
{
    let mut out: Vec<String> = Vec::new();
    assert(out.deep_view() =~= without_repeats(Seq::<Seq<char>>::empty()));
    let ghost none = Seq::<Seq<char>>::empty();
    append_new(&mut out, manager_paths, Ghost(none));
    assert(none + manager_paths.deep_view() =~= manager_paths.deep_view());
    let ghost so_far = manager_paths.deep_view();
    let shell = match shell_path {
        Some(path) => split_search_path(path),
        None => {
            let empty: Vec<String> = Vec::new();
            assert(empty.deep_view() =~= Seq::<Seq<char>>::empty());
            empty
        },
    };
    append_new(&mut out, &shell, Ghost(so_far));
    let ghost so_far = so_far + shell.deep_view();
    append_new(&mut out, fallback_paths, Ghost(so_far));
    let ghost so_far = so_far + fallback_paths.deep_view();
    let current = split_search_path(current_path);
    append_new(&mut out, &current, Ghost(so_far));
    if out.len() == 0 {
        None
    } else {
        Some(join(&out, ":"))
    }
}

/// A place to look for the executable, before anything is known about it.
#[derive(Debug)]
pub struct Candidate {
    pub path: String,
    /// Where the candidate comes from.
    pub source: String,
    /// The priority of that place; a smaller number is a higher priority.
    pub priority: u8,
}

/// View of [`Candidate`].
pub struct CandidateView {
    pub path: Seq<char>,
    pub source: Seq<char>,
    pub priority: u8,
}

impl View for Candidate {
    type V = CandidateView;

    open spec fn view(&self) -> CandidateView {
        CandidateView { path: self.path@, source: self.source@, priority: self.priority }
    }
}

impl DeepView for Candidate {
    type V = CandidateView;

    open spec fn deep_view(&self) -> CandidateView {
        self@
    }
}

/// What the caller has read from the machine for the search.
#[derive(Debug)]
pub struct SearchFacts {
    /// The value of the environment variable that overrides the search, if it is set.
    pub env_value: Option<String>,
    /// What the aliases of the tool resolve to through the search path, in alias order.
    pub path_hits: Vec<String>,
    /// The paths registered for the aliases of the tool, in alias order.
    pub registry_hits: Vec<String>,
    /// The executables found in the directories of the Node version manager.
    pub manager_hits: Vec<String>,
    /// The directories where tools are commonly installed on this machine.
    pub roots: Vec<String>,
}

/// View of [`SearchFacts`].
pub struct SearchFactsView {
    pub env_value: Option<Seq<char>>,
    pub path_hits: Seq<Seq<char>>,
    pub registry_hits: Seq<Seq<char>>,
    pub manager_hits: Seq<Seq<char>>,
    pub roots: Seq<Seq<char>>,
}

impl View for SearchFacts {
    type V = SearchFactsView;

    open spec fn view(&self) -> SearchFactsView {
        SearchFactsView {
            env_value: self.env_value.deep_view(),
            path_hits: self.path_hits.deep_view(),
            registry_hits: self.registry_hits.deep_view(),
            manager_hits: self.manager_hits.deep_view(),
            roots: self.roots.deep_view(),
        }
    }
}

/// Each path as a candidate from `source` with `priority`.
pub open spec fn from_source(paths: Seq<Seq<char>>, source: Seq<char>, priority: u8) -> Seq<
    CandidateView,
> {
    paths.map_values(|path: Seq<char>| CandidateView { path, source, priority })
}

/// Where `alias` would be under the installation directory `root`.
pub open spec fn under_root(root: Seq<char>, alias: Seq<char>, os: Seq<char>) -> Seq<char> {
    if os == "windows"@ {
        root + "\\"@ + alias
    } else if os == "macos"@ && has_substring(root, ".app"@) {
        root + "/Contents/MacOS/"@ + alias
    } else {
        root + "/"@ + alias
    }
}

/// Every alias under every root, root by root.
pub open spec fn under_roots(roots: Seq<Seq<char>>, aliases: Seq<Seq<char>>, os: Seq<char>) -> Seq<
    Seq<char>,
>
    decreases roots.len(),
{
    if roots.len() == 0 {
        Seq::empty()
    } else {
        under_roots(roots.drop_last(), aliases, os) + aliases.map_values(
            |alias: Seq<char>| under_root(roots.last(), alias, os),
        )
    }
}

/// The drives of the host as a subsystem sees them.
pub open spec fn host_mounts() -> Seq<Seq<char>> {
    seq!["/mnt/c"@, "/mnt/d"@]
}

/// Where `alias` would be on the host drive `mount`.
pub open spec fn on_host(mount: Seq<char>, tool: Seq<char>, alias: Seq<char>) -> Seq<char> {
    mount + "/Program Files/"@ + tool + "/"@ + alias
}

/// Every alias on every host drive, drive by drive.
pub open spec fn on_hosts(mounts: Seq<Seq<char>>, tool: Seq<char>, aliases: Seq<Seq<char>>) -> Seq<
    Seq<char>,
>
    decreases mounts.len(),
{
    if mounts.len() == 0 {
        Seq::empty()
    } else {
        on_hosts(mounts.drop_last(), tool, aliases) + aliases.map_values(
            |alias: Seq<char>| on_host(mounts.last(), tool, alias),
        )
    }
}

/// The paths the user configured: the override first, then the search paths.
pub open spec fn configured_paths(section: Option<BinarySearchSectionView>) -> Seq<Seq<char>> {
    match section {
        Some(s) => (match s.override_path {
            Some(path) => seq![path],
            None => Seq::empty(),
        }) + s.search_paths,
        None => Seq::empty(),
    }
}

/// The places to look for `tool`, in the order of the search:
///
/// 0. the value of the overriding environment variable `env_var`, unless it is blank;
/// 1. what the aliases resolve to through the search path;
/// 2. what is registered for them, and what the Node version manager holds;
/// 3. every alias under every common installation directory;
/// 4. what the user configured;
/// 3. under a subsystem, every alias in the tool's directory on the host drives.
pub open spec fn planned_candidates(
    tool: Seq<char>,
    env_var: Seq<char>,
    env: RuntimeEnvironmentView,
    facts: SearchFactsView,
    section: Option<BinarySearchSectionView>,
) -> Seq<CandidateView> {
    let aliases = tool_aliases(tool, env.os);
    from_source(
        match facts.env_value {
            Some(value) => if trimmed(value).len() > 0 {
                seq![value]
            } else {
                Seq::empty()
            },
            None => Seq::empty(),
        },
        "env:"@ + env_var,
        0,
    ) + from_source(facts.path_hits, "PATH"@, 1) + from_source(facts.registry_hits, "registry"@, 2)
        + from_source(facts.manager_hits, "fnm-multishells"@, 2) + from_source(
        under_roots(facts.roots, aliases, env.os),
        "common-path"@,
        3,
    ) + from_source(configured_paths(section), "user-config"@, 4) + from_source(
        if env.is_wsl {
            on_hosts(host_mounts(), tool, aliases)
        } else {
            Seq::empty()
        },
        "wsl-host"@,
        3,
    )
}

fn push_from(out: &mut Vec<Candidate>, paths: &Vec<String>, source: &str, priority: u8)
    ensures
        final(out).deep_view() == old(out).deep_view() + from_source(
            paths.deep_view(),
            source@,
            priority,
        ),
{
    let ghost want = from_source(paths.deep_view(), source@, priority);
    let mut i: usize = 0;
    assert(old(out).deep_view() + want.take(0) =~= old(out).deep_view());
    while i < paths.len()
        invariant
            i <= paths@.len(),
            want == from_source(paths.deep_view(), source@, priority),
            out.deep_view() == old(out).deep_view() + want.take(i as int),
        decreases paths@.len() - i,
    {
        let ghost before = out.deep_view();
        out.push(
            Candidate { path: paths[i].clone(), source: String::from_str(source), priority },
        );
        proof {
            assert(want[i as int] == (CandidateView {
                path: paths@[i as int]@,
                source: source@,
                priority,
            }));
            assert(out.deep_view() =~= before.push(want[i as int]));
            assert(want.take(i + 1) =~= want.take(i as int).push(want[i as int]));
        }
        i += 1;
    }
    assert(want.take(i as int) =~= want);
}

fn place_under_root(root: &str, alias: &str, os: &str) -> (r: String)
    ensures
        r@ == under_root(root@, alias@, os@),
{
    let mut path = String::from_str(root);
    if *os == *"windows" {
        path.append("\\");
    } else if *os == *"macos" && contains(root, ".app") {
        path.append("/Contents/MacOS/");
    } else {
        path.append("/");
    }
    path.append(alias);
    path
}

fn places_under_roots(roots: &Vec<String>, aliases: &Vec<String>, os: &str) -> (r: Vec<String>)
    ensures
        r.deep_view() == under_roots(roots.deep_view(), aliases.deep_view(), os@),
{
    let mut out: Vec<String> = Vec::new();
    let mut i: usize = 0;
    assert(roots.deep_view().take(0) =~= Seq::<Seq<char>>::empty());
    assert(out.deep_view() =~= Seq::<Seq<char>>::empty());
    while i < roots.len()
        invariant
            i <= roots@.len(),
            out.deep_view() == under_roots(
                roots.deep_view().take(i as int),
                aliases.deep_view(),
                os@,
            ),
        decreases roots@.len() - i,
    {
        let ghost done = out.deep_view();
        let ghost row = aliases.deep_view().map_values(
            |alias: Seq<char>| under_root(roots@[i as int]@, alias, os@),
        );
        proof {
            let upto = roots.deep_view().take(i + 1);
            assert(upto.drop_last() =~= roots.deep_view().take(i as int));
            assert(upto.last() == roots@[i as int]@);
        }
        let mut k: usize = 0;
        assert(done + row.take(0) =~= done);
        while k < aliases.len()
            invariant
                k <= aliases@.len(),
                i < roots@.len(),
                row == aliases.deep_view().map_values(
                    |alias: Seq<char>| under_root(roots@[i as int]@, alias, os@),
                ),
                out.deep_view() == done + row.take(k as int),
            decreases aliases@.len() - k,
        {
            let ghost before = out.deep_view();
            push_string(&mut out, place_under_root(roots[i].as_str(), aliases[k].as_str(), os));
            proof {
                assert(row[k as int] == under_root(roots@[i as int]@, aliases@[k as int]@, os@));
                assert(row.take(k + 1) =~= row.take(k as int).push(row[k as int]));
                assert(before.push(row[k as int]) =~= done + row.take(k + 1));
            }
            k += 1;
        }
        assert(row.take(k as int) =~= row);
        i += 1;
    }
    assert(roots.deep_view().take(i as int) =~= roots.deep_view());
    out
}

fn places_on_hosts(tool: &str, aliases: &Vec<String>) -> (r: Vec<String>)
    ensures
        r.deep_view() == on_hosts(host_mounts(), tool@, aliases.deep_view()),
{
    let mut mounts: Vec<String> = Vec::new();
    mounts.push(String::from_str("/mnt/c"));
    mounts.push(String::from_str("/mnt/d"));
    assert(mounts.deep_view() =~= host_mounts());
    let mut out: Vec<String> = Vec::new();
    let mut i: usize = 0;
    assert(mounts.deep_view().take(0) =~= Seq::<Seq<char>>::empty());
    assert(out.deep_view() =~= Seq::<Seq<char>>::empty());
    while i < mounts.len()
        invariant
            i <= mounts@.len(),
            out.deep_view() == on_hosts(mounts.deep_view().take(i as int), tool@, aliases.deep_view()),
        decreases mounts@.len() - i,
    {
        let ghost done = out.deep_view();
        let ghost row = aliases.deep_view().map_values(
            |alias: Seq<char>| on_host(mounts@[i as int]@, tool@, alias),
        );
        proof {
            let upto = mounts.deep_view().take(i + 1);
            assert(upto.drop_last() =~= mounts.deep_view().take(i as int));
            assert(upto.last() == mounts@[i as int]@);
        }
        let mut k: usize = 0;
        assert(done + row.take(0) =~= done);
        while k < aliases.len()
            invariant
                k <= aliases@.len(),
                i < mounts@.len(),
                row == aliases.deep_view().map_values(
                    |alias: Seq<char>| on_host(mounts@[i as int]@, tool@, alias),
                ),
                out.deep_view() == done + row.take(k as int),
            decreases aliases@.len() - k,
        {
            let ghost before = out.deep_view();
            let mut path = String::from_str(mounts[i].as_str());
            path.append("/Program Files/");
            path.append(tool);
            path.append("/");
            path.append(aliases[k].as_str());
            push_string(&mut out, path);
            proof {
                assert(row[k as int] == on_host(mounts@[i as int]@, tool@, aliases@[k as int]@));
                assert(row.take(k + 1) =~= row.take(k as int).push(row[k as int]));
                assert(before.push(row[k as int]) =~= done + row.take(k + 1));
            }
            k += 1;
        }
        assert(row.take(k as int) =~= row);
        i += 1;
    }
    assert(mounts.deep_view().take(i as int) =~= mounts.deep_view());
    out
}

/// Lists the places to look for `tool`, see [`planned_candidates`]. The caller probes
/// each place and offers what it found to [`detect_binary_for_tool`].
pub fn collect_runtime_candidates(
    tool: &str,
    env_var: &str,
    env: &RuntimeEnvironment,
    facts: &SearchFacts,
    user_section: Option<&BinarySearchSection>,
) -> (r: Vec<Candidate>)
    ensures
        r.deep_view() == planned_candidates(
            tool@,
            env_var@,
            env@,
            facts@,
            user_section.deep_view(),
        ),
{
    let aliases = get_tool_aliases(tool, env);
    let mut out: Vec<Candidate> = Vec::new();
    assert(out.deep_view() =~= Seq::<CandidateView>::empty());
    let mut overriding: Vec<String> = Vec::new();
    match &facts.env_value {
        Some(value) => {
            if !trim(value.as_str()).is_empty() {
                overriding.push(value.clone());
            }
        },
        None => {},
    }
    assert(overriding.deep_view() =~= (match facts@.env_value {
        Some(value) => if trimmed(value).len() > 0 {
            seq![value]
        } else {
            Seq::empty()
        },
        None => Seq::empty(),
    }));
    let mut source = String::from_str("env:");
    source.append(env_var);
    push_from(&mut out, &overriding, source.as_str(), 0);
    assert(Seq::<CandidateView>::empty() + from_source(overriding.deep_view(), source@, 0)
        =~= from_source(overriding.deep_view(), source@, 0));
    push_from(&mut out, &facts.path_hits, "PATH", 1);
    push_from(&mut out, &facts.registry_hits, "registry", 2);
    push_from(&mut out, &facts.manager_hits, "fnm-multishells", 2);
    let common = places_under_roots(&facts.roots, &aliases, env.os.as_str());
    push_from(&mut out, &common, "common-path", 3);
    let mut configured: Vec<String> = Vec::new();
    match user_section {
        Some(section) => {
            match &section.override_path {
                Some(path) => {
                    configured.push(path.clone());
                },
                None => {},
            }
            let ghost first = configured.deep_view();
            let mut i: usize = 0;
            assert(first + section.search_paths.deep_view().take(0) =~= first);
            while i < section.search_paths.len()
                invariant
                    i <= section.search_paths@.len(),
                    configured.deep_view() == first + section.search_paths.deep_view().take(
                        i as int,
                    ),
                decreases section.search_paths@.len() - i,
            {
                let ghost before = configured.deep_view();
                push_string(&mut configured, section.search_paths[i].clone());
                assert(section.search_paths.deep_view().take(i + 1)
                    =~= section.search_paths.deep_view().take(i as int).push(
                    section.search_paths@[i as int]@,
                ));
                assert(before.push(section.search_paths@[i as int]@) =~= first
                    + section.search_paths.deep_view().take(i + 1));
                i += 1;
            }
            assert(section.search_paths.deep_view().take(i as int)
                =~= section.search_paths.deep_view());
        },
        None => {},
    }
    assert(configured.deep_view() =~= configured_paths(user_section.deep_view()));
    push_from(&mut out, &configured, "user-config", 4);
    let hosted = if env.is_wsl {
        places_on_hosts(tool, &aliases)
    } else {
        let none: Vec<String> = Vec::new();
        assert(none.deep_view() =~= Seq::<Seq<char>>::empty());
        none
    };
    push_from(&mut out, &hosted, "wsl-host", 3);
    out
}

/// The priority of installations that older ways of searching came across; it is lower
/// than that of every place the search looks at itself.
pub const LEGACY_PRIORITY: u8 = 5;

/// The candidates that count, followed by the installations that older ways of
/// searching came across.
pub open spec fn with_legacy(list: Seq<PrioritizedView>, legacy: Seq<InstallationView>) -> Seq<
    PrioritizedView,
> {
    list + legacy.map_values(
        |installation: InstallationView| PrioritizedView { priority: LEGACY_PRIORITY, installation },
    )
}

/// Settles which executable is launched when the installations that older ways of
/// searching came across are to be considered too: they stand behind all candidates of
/// the search, and the choice is made as [`detect_binary_for_tool`] makes it. `None`
/// where nothing was found at all.
pub fn find_best_binary(candidates: &Vec<ProbedCandidate>, legacy: &Vec<ClaudeInstallation>) -> (r:
    Option<ClaudeInstallation>)
    ensures
        r.deep_view() == best_by_priority(
            with_legacy(collected(candidates.deep_view()).list, legacy.deep_view()),
        ),
{
    let mut all = collect_candidates(candidates);
    let ghost first = all.deep_view();
    let ghost rest = legacy.deep_view().map_values(
        |installation: InstallationView| PrioritizedView { priority: LEGACY_PRIORITY, installation },
    );
    let mut i: usize = 0;
    assert(first + rest.take(0) =~= first);
    while i < legacy.len()
        invariant
            i <= legacy@.len(),
            rest == legacy.deep_view().map_values(
                |installation: InstallationView|
                    PrioritizedView { priority: LEGACY_PRIORITY, installation },
            ),
            all.deep_view() == first + rest.take(i as int),
        decreases legacy@.len() - i,
    {
        let ghost before = all.deep_view();
        all.push(
            PrioritizedInstallation { priority: LEGACY_PRIORITY, installation: legacy[i].clone() },
        );
        proof {
            assert(rest[i as int] == (PrioritizedView {
                priority: LEGACY_PRIORITY,
                installation: legacy@[i as int]@,
            }));
            assert(all.deep_view() =~= before.push(rest[i as int]));
            assert(first + rest.take(i + 1) =~= (first + rest.take(i as int)).push(rest[i as int]));
        }
        i += 1;
    }
    assert(rest.take(i as int) =~= rest);
    select_best_with_priority(all)
}

/// What is remembered of the last search.
#[derive(Debug)]
pub struct RememberedPath {
    /// The version of the application that stored the memory.
    pub stored_version: Option<String>,
    /// The path that was found.
    pub path: Option<String>,
    /// The path names a file.
    pub is_file: bool,
    /// The file could be run.
    pub works: bool,
}

/// What to do with the memory of the last search.
#[derive(Debug)]
pub enum MemoryUse {
    /// The remembered path is used; no search is made.
    Use(String),
    /// The memory stems from another version of the application: the path is forgotten,
    /// the version is stored anew, and a search is made.
    Renew,
    /// The remembered path is of no use any more: it is forgotten and a search is made.
    Forget,
    /// Nothing is remembered: a search is made.
    Search,
}

/// View of [`MemoryUse`].
pub enum MemoryUseView {
    Use(Seq<char>),
    Renew,
    Forget,
    Search,
}

impl View for MemoryUse {
    type V = MemoryUseView;

    open spec fn view(&self) -> MemoryUseView {
        match self {
            MemoryUse::Use(path) => MemoryUseView::Use(path@),
            MemoryUse::Renew => MemoryUseView::Renew,
            MemoryUse::Forget => MemoryUseView::Forget,
            MemoryUse::Search => MemoryUseView::Search,
        }
    }
}

/// The use of a memory: it holds only for the version of the application that stored
/// it, and its path only while that names a file that can be run.
pub open spec fn memory_use(
    stored_version: Option<Seq<char>>,
    path: Option<Seq<char>>,
    is_file: bool,
    works: bool,
    app_version: Seq<char>,
) -> MemoryUseView {
    if stored_version != Some(app_version) {
        MemoryUseView::Renew
    } else {
        match path {
            Some(p) => if is_file && works {
                MemoryUseView::Use(p)
            } else {
                MemoryUseView::Forget
            },
            None => MemoryUseView::Search,
        }
    }
}

/// Decides what to do with the memory of the last search.
pub fn use_of_memory(memory: RememberedPath, app_version: &str) -> (r: MemoryUse)
    ensures
        r@ == memory_use(
            memory.stored_version.deep_view(),
            memory.path.deep_view(),
            memory.is_file,
            memory.works,
            app_version@,
        ),
{
    let same = match &memory.stored_version {
        Some(v) => *v.as_str() == *app_version,
        None => false,
    };
    if !same {
        return MemoryUse::Renew;
    }
    match memory.path {
        Some(p) => {
            if memory.is_file && memory.works {
                MemoryUse::Use(p)
            } else {
                MemoryUse::Forget
            }
        },
        None => MemoryUse::Search,
    }
}

} // verus!
