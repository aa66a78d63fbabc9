//! Reading what an executable or a configuration file says about itself: version
//! numbers in the output of a version query, values in a configuration text, and the
//! script that a Windows command wrapper starts.
//!
//! Pattern matching is done by the `regex` crate. What it finds is named by
//! [`regex_first_group`], which depends on the pattern and the text alone.

use crate::text::{
    chars_of, contains, contains_chars, find_chars, has_prefix, has_substring, lines, lines_of,
    occurs_at, occurs_at_chars, push_string, slice_chars, string_from_chars, trim, trim_bounds,
    trimmed,
};
use vstd::prelude::*;
use vstd::string::*;

verus! {

/// What a search with the `regex` crate gives: the text of the first capture group in the
/// leftmost match of `pattern` in `text`. `None` where the pattern is not a valid regular
/// expression, where it does not match, or where the group took no part in the match.
pub uninterp spec fn regex_first_group(pattern: Seq<char>, text: Seq<char>) -> Option<Seq<char>>;

/// Trusted: compiles the pattern with `regex::Regex::new`, searches the text with
/// `Regex::captures`, and copies the text of group 1 as `Captures::get` and
/// `Match::as_str` give it. The result depends on the pattern and the text alone.
#[verifier::external_body]
fn first_group(pattern: &str, text: &str) -> (r: Option<String>)
    ensures
        r.deep_view() == regex_first_group(pattern@, text@),
{
    let compiled = regex::Regex::new(pattern).ok()?;
    compiled.captures(text)?.get(1).map(|m| m.as_str().to_string())
}

/// What `String::from_utf8_lossy` makes of bytes: the text they encode, with the
/// replacement character in place of every sequence that is not valid UTF-8.
pub uninterp spec fn utf8_lossy(bytes: Seq<u8>) -> Seq<char>;

/// Trusted: calls `String::from_utf8_lossy` of the standard library. The result depends
/// on the bytes alone.
#[verifier::external_body]
fn lossy_text(bytes: &[u8]) -> (r: String)
    ensures
        r@ == utf8_lossy(bytes@),
{
    String::from_utf8_lossy(bytes).to_string()
}

/// The pattern of a version number: three numbers with dots between them, which a
/// pre-release tag behind a hyphen and build data behind a plus sign may follow.
pub open spec fn version_pattern() -> Seq<char> {
    "(\\d+\\.\\d+\\.\\d+(?:-[a-zA-Z0-9.-]+)?(?:\\+[a-zA-Z0-9.-]+)?)"@
}

/// The version number in a text, as [`version_pattern`] finds it.
pub open spec fn version_in(text: Seq<char>) -> Option<Seq<char>> {
    regex_first_group(version_pattern(), text)
}

/// Finds the version number in a text.
pub fn find_version(text: &str) -> (r: Option<String>)
    ensures
        r.deep_view() == version_in(text@),
{
    first_group("(\\d+\\.\\d+\\.\\d+(?:-[a-zA-Z0-9.-]+)?(?:\\+[a-zA-Z0-9.-]+)?)", text)
}

/// Finds the version number in what a version query wrote to its output.
pub fn extract_version_from_output(stdout: &[u8]) -> (r: Option<String>)
    ensures
        r.deep_view() == version_in(utf8_lossy(stdout@)),
{
    let text = lossy_text(stdout);
    find_version(text.as_str())
}

/// Whether a driver is installed, and in which version.
#[derive(Debug)]
pub struct ClaudeVersionStatus {
    pub is_installed: bool,
    pub version: Option<String>,
    /// What the version query wrote, or why it could not be run.
    pub output: String,
}

/// View of [`ClaudeVersionStatus`].
pub struct VersionStatusView {
    pub is_installed: bool,
    pub version: Option<Seq<char>>,
    pub output: Seq<char>,
}

impl View for ClaudeVersionStatus {
    type V = VersionStatusView;

    open spec fn view(&self) -> VersionStatusView {
        VersionStatusView {
            is_installed: self.is_installed,
            version: self.version.deep_view(),
            output: self.output@,
        }
    }
}

/// What came of running a version query.
#[derive(Debug)]
pub enum QueryResult {
    /// The query ran.
    Ran { success: bool, stdout: String, stderr: String },
    /// The executable could not be run; the text says why.
    NotRun(String),
}

/// View of [`QueryResult`].
pub enum QueryResultView {
    Ran { success: bool, stdout: Seq<char>, stderr: Seq<char> },
    NotRun(Seq<char>),
}

impl View for QueryResult {
    type V = QueryResultView;

    open spec fn view(&self) -> QueryResultView {
        match self {
            QueryResult::Ran { success, stdout, stderr } => QueryResultView::Ran {
                success: *success,
                stdout: stdout@,
                stderr: stderr@,
            },
            QueryResult::NotRun(why) => QueryResultView::NotRun(why@),
        }
    }
}

/// Both streams of a query as one text: the output, and the error stream on a line of
/// its own where there is any.
pub open spec fn combined_output(stdout: Seq<char>, stderr: Seq<char>) -> Seq<char> {
    if stderr.len() == 0 {
        stdout
    } else {
        stdout + "\n"@ + stderr
    }
}

/// The status a version query establishes. The driver counts as installed where the
/// query succeeded and its output names the product, `title`.
pub open spec fn status_of(result: QueryResultView, title: Seq<char>) -> VersionStatusView {
    match result {
        QueryResultView::Ran { success, stdout, stderr } => VersionStatusView {
            is_installed: has_substring(stdout, title) && success,
            version: version_in(stdout),
            output: trimmed(combined_output(stdout, stderr)),
        },
        QueryResultView::NotRun(why) => VersionStatusView {
            is_installed: false,
            version: None,
            output: "Command not found: "@ + why,
        },
    }
}

/// Works out the status of a driver from the version query that was run on it.
pub fn version_status(result: &QueryResult, title: &str) -> (r: ClaudeVersionStatus)
    ensures
        r@ == status_of(result@, title@),
{
    match result {
        QueryResult::Ran { success, stdout, stderr } => {
            let version = find_version(stdout.as_str());
            let mut full = stdout.clone();
            if !stderr.as_str().is_empty() {
                full.append("\n");
                full.append(stderr.as_str());
            }
            ClaudeVersionStatus {
                is_installed: contains(stdout.as_str(), title) && *success,
                version,
                output: String::from_str(trim(full.as_str())),
            }
        },
        QueryResult::NotRun(why) => {
            let mut output = String::from_str("Command not found: ");
            output.append(why.as_str());
            ClaudeVersionStatus { is_installed: false, version: None, output }
        },
    }
}

/// The pattern of the `base_url` setting in a configuration text.
pub open spec fn base_url_pattern() -> Seq<char> {
    "base_url\\s*=\\s*\"([^\"]+)\""@
}

/// The pattern of the `model` setting in a line of a configuration text.
pub open spec fn model_pattern() -> Seq<char> {
    "model\\s*=\\s*\"([^\"]+)\""@
}

/// Finds the base address in a configuration text.
pub fn extract_base_url_from_config(config: &str) -> (r: Option<String>)
    ensures
        r.deep_view() == regex_first_group(base_url_pattern(), config@),
{
    first_group("base_url\\s*=\\s*\"([^\"]+)\"", config)
}

/// The first line that, white space at its ends removed, starts with `model =`.
pub open spec fn model_line(config_lines: Seq<Seq<char>>) -> Option<Seq<char>>
    decreases config_lines.len(),
{
    if config_lines.len() == 0 {
        None
    } else if has_prefix(trimmed(config_lines.first()), "model ="@) {
        Some(trimmed(config_lines.first()))
    } else {
        model_line(config_lines.drop_first())
    }
}

/// The model a configuration text names: the quoted value in its first `model =` line.
pub open spec fn model_in(config: Seq<char>) -> Option<Seq<char>> {
    match model_line(lines_of(config)) {
        Some(line) => regex_first_group(model_pattern(), line),
        None => None,
    }
}

/// Finds the model in a configuration text.
pub fn extract_model_from_config(config: &str) -> (r: Option<String>)
    ensures
        r.deep_view() == model_in(config@),
{
    let all = lines(config);
    let wanted = chars_of("model =");
    let mut i: usize = 0;
    assert(all.deep_view().skip(0) =~= all.deep_view());
    while i < all.len()
        invariant
            i <= all@.len(),
            wanted@ == "model ="@,
            model_line(lines_of(config@)) == model_line(all.deep_view().skip(i as int)),
            all.deep_view() == lines_of(config@),
        decreases all@.len() - i,
    {
        let line = &all[i];
        let (start, end) = trim_bounds(line);
        let stripped = slice_chars(line, start, end);
        proof {
            crate::text::lemma_chars_view(*line);
            let rest = all.deep_view().skip(i as int);
            assert(rest.first() == line@);
            assert(rest.drop_first() =~= all.deep_view().skip(i + 1));
        }
        if occurs_at_chars(&stripped, &wanted, 0) {
            let text = string_from_chars(&stripped);
            return first_group("model\\s*=\\s*\"([^\"]+)\"", text.as_str());
        }
        i += 1;
    }
    None
}

/// The script a line of a command wrapper starts through Node: the line mentions a
/// script and Node, and holds the script's path, relative to the wrapper's directory, in
/// quotes behind `%~dp0` and a separator.
pub open spec fn script_in_line(line: Seq<char>) -> Option<Seq<char>> {
    if has_substring(line, ".js"@) && (has_substring(line, "node.exe"@) || has_substring(
        line,
        "\"node\""@,
    )) {
        match first_at(line, "\"%~dp0"@, 0) {
            Some(start) => match first_at(line, ".js\""@, start) {
                Some(end) => Some(line.subrange(start + 7, end + 3)),
                None => None,
            },
            None => None,
        }
    } else {
        None
    }
}

/// The first position at or behind `from` where `pat` occurs in `s`.
pub open spec fn first_at(s: Seq<char>, pat: Seq<char>, from: int) -> Option<int> {
    if exists|i: int| from <= i && occurs_at(s, pat, i) {
        Some(
            choose|i: int|
                from <= i && occurs_at(s, pat, i) && forall|k: int|
                    from <= k < i ==> !occurs_at(s, pat, k),
        )
    } else {
        None
    }
}

/// An occurrence found by searching from the left is the first one.
proof fn lemma_first_at(s: Seq<char>, pat: Seq<char>, from: int, i: int)
    requires
        from <= i,
        occurs_at(s, pat, i),
        forall|k: int| from <= k < i ==> !occurs_at(s, pat, k),
    ensures
        first_at(s, pat, from) == Some(i),
{
    let found = choose|j: int|
        from <= j && occurs_at(s, pat, j) && forall|k: int| from <= k < j ==> !occurs_at(s, pat, k);
    assert(from <= found && occurs_at(s, pat, found));
    if found < i {
        assert(!occurs_at(s, pat, found));
    } else if i < found {
        assert(!occurs_at(s, pat, i));
    }
}

fn script_of_line(line: &Vec<char>) -> (r: Option<String>)
    ensures
        r.deep_view() == script_in_line(line@),
{
    let js = chars_of(".js");
    let node_exe = chars_of("node.exe");
    let node_quoted = chars_of("\"node\"");
    if !(contains_chars(line, &js) && (contains_chars(line, &node_exe) || contains_chars(
        line,
        &node_quoted,
    ))) {
        return None;
    }
    let anchor = chars_of("\"%~dp0");
    let closing = chars_of(".js\"");
    proof {
        reveal_strlit("\"%~dp0");
        reveal_strlit(".js\"");
    }
    let start = match find_chars(line, &anchor, 0) {
        Some(start) => start,
        None => {
            return None;
        },
    };
    proof {
        lemma_first_at(line@, anchor@, 0, start as int);
    }
    let end = match find_chars(line, &closing, start) {
        Some(end) => end,
        None => {
            return None;
        },
    };
    proof {
        lemma_first_at(line@, closing@, start as int, end as int);
        // the closing mark cannot sit inside the anchor
        assert(anchor@.len() == 6 && closing@.len() == 4);
        assert(line@.subrange(start as int, start + 6) == anchor@);
        assert(line@.subrange(end as int, end + 4) == closing@);
        if end < start + 6 {
            let within = line@.subrange(start as int, start + 6);
            let behind = line@.subrange(end as int, end + 4);
            assert(behind[0] == line@[end as int]);
            assert(within[end - start] == line@[end as int]);
            assert(closing@[0] == '.');
            assert(anchor@[0] == '"' && anchor@[1] == '%' && anchor@[2] == '~' && anchor@[3] == 'd'
                && anchor@[4] == 'p' && anchor@[5] == '0');
        }
        assert(end >= start + 6);
        assert(end + 4 <= line@.len());
    }
    let n = line.len();
    assert(end + 4 <= n);
    let script = slice_chars(line, start + 7, end + 3);
    Some(string_from_chars(&script))
}

/// [`script_in_line`] as a function value.
pub open spec fn picks_script() -> spec_fn(Seq<char>) -> Option<Seq<char>> {
    |line: Seq<char>| script_in_line(line)
}

/// The scripts that the lines of a command wrapper start through Node, in order, each as
/// a path relative to the wrapper's directory.
pub open spec fn wrapper_scripts(content: Seq<char>) -> Seq<Seq<char>> {
    lines_of(content).filter_map(picks_script())
}

/// Reads from the text of a Windows command wrapper which scripts it starts through
/// Node. The caller runs Node on the first of them that exists, in place of the wrapper.
pub fn resolve_cmd_wrapper(content: &str) -> (r: Vec<String>)
    ensures
        r.deep_view() == wrapper_scripts(content@),
{
    let all = lines(content);
    let ghost pick = picks_script();
    let mut out: Vec<String> = Vec::new();
    let mut i: usize = 0;
    assert(all.deep_view().take(0) =~= Seq::<Seq<char>>::empty());
    assert(out.deep_view() =~= Seq::<Seq<char>>::empty());
    while i < all.len()
        invariant
            i <= all@.len(),
            pick == picks_script(),
            out.deep_view() == all.deep_view().take(i as int).filter_map(pick),
        decreases all@.len() - i,
    {
        proof {
            all.deep_view().lemma_filter_map_take_succ(pick, i as int);
            crate::text::lemma_chars_view(all@[i as int]);
        }
        match script_of_line(&all[i]) {
            Some(script) => {
                let ghost before = out.deep_view();
                push_string(&mut out, script);
                assert(before.push(script@) =~= before + seq![script@]);
            },
            None => {},
        }
        i += 1;
    }
    assert(all.deep_view().take(i as int) =~= all.deep_view());
    out
}

} // verus!
