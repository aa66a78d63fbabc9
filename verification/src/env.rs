//! The environment a driver process is launched with.
//!
//! It is an ordered list of assignments; a later assignment of a variable overrides an
//! earlier one. First come the variables of the parent process that are on the allow
//! list, then a `PATH` that puts the driver's own Node directory in front, where the
//! driver lives under a Node version manager, then the overrides of the settings file,
//! and last the model.

use crate::json::{
    entries_of, entries_view, json_entries, json_member, json_parse, json_text, member,
    parse_value, text_of, Entry,
};
use crate::text::{contains, has_prefix, has_substring, starts_with};
use vstd::prelude::*;
use vstd::string::*;

verus! {

/// One assignment: the variable's name and its value.
pub type Assignment = (Seq<char>, Seq<char>);

/// Whether a driver session inherits the variable `key` from the parent process.
pub open spec fn session_inherits(key: Seq<char>) -> bool {
    ||| key == "PATH"@
    ||| key == "HOME"@
    ||| key == "USER"@
    ||| key == "SHELL"@
    ||| key == "LANG"@
    ||| key == "LC_ALL"@
    ||| has_prefix(key, "LC_"@)
    ||| key == "NODE_PATH"@
    ||| key == "NVM_DIR"@
    ||| key == "NVM_BIN"@
    ||| key == "HOMEBREW_PREFIX"@
    ||| key == "HOMEBREW_CELLAR"@
    ||| key == "USERPROFILE"@
    ||| key == "USERNAME"@
    ||| key == "COMPUTERNAME"@
    ||| key == "APPDATA"@
    ||| key == "LOCALAPPDATA"@
    ||| key == "TEMP"@
    ||| key == "TMP"@
    ||| has_prefix(key, "ANTHROPIC_"@)
    ||| has_prefix(key, "CLAUDE_CODE_"@)
    ||| key == "API_TIMEOUT_MS"@
}

/// Whether a short probe of the driver, such as a version query, inherits the variable
/// `key` from the parent process.
pub open spec fn probe_inherits(key: Seq<char>) -> bool {
    ||| key == "PATH"@
    ||| key == "USER"@
    ||| key == "HOME"@
    ||| key == "NODE_PATH"@
    ||| key == "NVM_DIR"@
    ||| key == "NVM_BIN"@
    ||| key == "USERPROFILE"@
    ||| key == "USERNAME"@
    ||| key == "COMPUTERNAME"@
    ||| key == "APPDATA"@
    ||| key == "LOCALAPPDATA"@
    ||| key == "TEMP"@
    ||| key == "TMP"@
}

/// The allow list of a session as a predicate on assignments.
pub open spec fn session_keeps() -> spec_fn(Assignment) -> bool {
    |v: Assignment| session_inherits(v.0)
}

/// The allow list of a probe as a predicate on assignments.
pub open spec fn probe_keeps() -> spec_fn(Assignment) -> bool {
    |v: Assignment| probe_inherits(v.0)
}

/// Decides [`probe_inherits`].
pub fn inherited_by_probe(key: &str) -> (r: bool)
    ensures
        r == probe_inherits(key@),
{
    *key == *"PATH" || *key == *"USER" || *key == *"HOME" || *key == *"NODE_PATH" || *key
        == *"NVM_DIR" || *key == *"NVM_BIN" || *key == *"USERPROFILE" || *key == *"USERNAME"
        || *key == *"COMPUTERNAME" || *key == *"APPDATA" || *key == *"LOCALAPPDATA" || *key
        == *"TEMP" || *key == *"TMP"
}

/// Decides [`session_inherits`].
pub fn inherited_by_session(key: &str) -> (r: bool)
    ensures
        r == session_inherits(key@),
{
    inherited_by_probe(key) || *key == *"SHELL" || *key == *"LANG" || *key == *"LC_ALL"
        || *key == *"HOMEBREW_PREFIX" || *key == *"HOMEBREW_CELLAR" || *key == *"API_TIMEOUT_MS"
        || starts_with(key, "LC_") || starts_with(key, "ANTHROPIC_") || starts_with(
        key,
        "CLAUDE_CODE_",
    )
}

/// The value that the assignments give `key`: that of the last assignment of it.
pub open spec fn assigned(vars: Seq<Assignment>, key: Seq<char>) -> Option<Seq<char>>
    decreases vars.len(),
{
    if vars.len() == 0 {
        None
    } else if vars.last().0 == key {
        Some(vars.last().1)
    } else {
        assigned(vars.drop_last(), key)
    }
}

/// Looks up the value that the assignments give `key`.
pub fn lookup(vars: &Vec<(String, String)>, key: &str) -> (r: Option<String>)
    ensures
        r.deep_view() == assigned(vars.deep_view(), key@),
{
    let mut i: usize = vars.len();
    assert(vars.deep_view().take(i as int) =~= vars.deep_view());
    while i > 0
        invariant
            i <= vars@.len(),
            assigned(vars.deep_view(), key@) == assigned(vars.deep_view().take(i as int), key@),
        decreases i,
    {
        proof {
            let upto = vars.deep_view().take(i as int);
            assert(upto.last() == vars@[i - 1].deep_view());
            assert(upto.drop_last() =~= vars.deep_view().take(i - 1));
        }
        i -= 1;
        if *vars[i].0.as_str() == *key {
            return Some(vars[i].1.clone());
        }
    }
    None
}

/// The separator between the entries of `PATH`.
pub open spec fn path_separator(windows: bool) -> Seq<char> {
    if windows {
        ";"@
    } else {
        ":"@
    }
}

/// The program lives in the installation directory of a Node version manager.
pub open spec fn in_node_versions(program: Seq<char>) -> bool {
    has_substring(program, "/.nvm/versions/node/"@) || has_substring(
        program,
        "\\.nvm\\versions\\node\\"@,
    )
}

/// The `PATH` that lets a driver under a Node version manager find its own Node: the
/// driver's directory in front of the current `PATH`, unless that already mentions it.
pub open spec fn node_path_entry(
    program: Seq<char>,
    program_dir: Option<Seq<char>>,
    current_path: Seq<char>,
    windows: bool,
) -> Option<Assignment> {
    match program_dir {
        Some(dir) => if in_node_versions(program) && !has_substring(current_path, dir) {
            Some(("PATH"@, dir + path_separator(windows) + current_path))
        } else {
            None
        },
        None => None,
    }
}

/// Computes [`node_path_entry`].
pub fn node_path_assignment(
    program: &str,
    program_dir: Option<&str>,
    current_path: &str,
    windows: bool,
) -> (r: Option<(String, String)>)
    ensures
        r.deep_view() == node_path_entry(
            program@,
            program_dir.deep_view(),
            current_path@,
            windows,
        ),
{
    let dir = match program_dir {
        Some(dir) => dir,
        None => {
            return None;
        },
    };
    let managed = contains(program, "/.nvm/versions/node/") || contains(
        program,
        "\\.nvm\\versions\\node\\",
    );
    if managed && !contains(current_path, dir) {
        let mut value = String::from_str(dir);
        value.append(if windows {
            ";"
        } else {
            ":"
        });
        value.append(current_path);
        Some((String::from_str("PATH"), value))
    } else {
        None
    }
}

/// A member of a settings object as an assignment, where its value is a JSON string.
pub open spec fn string_member(e: (Seq<char>, Option<Seq<char>>)) -> Option<Assignment> {
    match e.1 {
        Some(value) => Some((e.0, value)),
        None => None,
    }
}

/// The overrides among the members of a settings object: a member counts where its value
/// is a JSON string.
pub open spec fn string_members(entries: Seq<(Seq<char>, Option<Seq<char>>)>) -> Seq<Assignment> {
    entries.filter_map(picks_strings())
}

/// [`string_member`] as a function value.
pub open spec fn picks_strings() -> spec_fn((Seq<char>, Option<Seq<char>>)) -> Option<Assignment> {
    |e: (Seq<char>, Option<Seq<char>>)| string_member(e)
}

/// Keeps the members whose value is a string, in order.
pub fn overrides_from(entries: &Vec<(String, Option<String>)>) -> (r: Vec<(String, String)>)
    ensures
        r.deep_view() == string_members(entries.deep_view()),
{
    let ghost pick = picks_strings();
    let mut out: Vec<(String, String)> = Vec::new();
    let mut i: usize = 0;
    assert(entries.deep_view().take(0) =~= Seq::empty());
    assert(out.deep_view() =~= Seq::<Assignment>::empty());
    while i < entries.len()
        invariant
            i <= entries@.len(),
            pick == picks_strings(),
            out.deep_view() == entries.deep_view().take(i as int).filter_map(pick),
        decreases entries@.len() - i,
    {
        let ghost before = out.deep_view();
        proof {
            entries.deep_view().lemma_filter_map_take_succ(pick, i as int);
            assert(entries.deep_view()[i as int] == entries@[i as int].deep_view());
            assert(entries@[i as int].deep_view().0 == entries@[i as int].0@);
            assert(entries@[i as int].deep_view().1 == entries@[i as int].1.deep_view());
        }
        match &entries[i].1 {
            Some(value) => {
                let ghost added = (entries@[i as int].0@, value@);
                out.push((entries[i].0.clone(), value.clone()));
                assert(out@.last().deep_view() == added);
                assert(out.deep_view() =~= before + seq![added]);
                assert(pick(entries.deep_view()[i as int]) == Some(added));
            },
            None => {
                assert(pick(entries.deep_view()[i as int]) is None);
            },
        }
        i += 1;
    }
    assert(entries.deep_view().take(i as int) =~= entries.deep_view());
    out
}

/// The members of an object, each with the text of its value where that is a JSON
/// string.
pub open spec fn text_entries(entries: Seq<Entry>) -> Seq<(Seq<char>, Option<Seq<char>>)> {
    entries.map_values(|e: Entry| (e.0, json_text(e.1)))
}

/// The environment overrides that a settings document holds: the string members of its
/// `env` object. A document that is not JSON, or has no such object, holds none.
pub open spec fn settings_overrides(content: Seq<char>) -> Seq<Assignment> {
    match json_parse(content) {
        Some(doc) => match json_member(doc, "env"@) {
            Some(env) => match json_entries(env) {
                Some(entries) => string_members(text_entries(entries)),
                None => Seq::empty(),
            },
            None => Seq::empty(),
        },
        None => Seq::empty(),
    }
}

/// Reads the text of each member's value.
fn read_text_entries(entries: &Vec<(String, serde_json::Value)>) -> (r: Vec<
    (String, Option<String>),
>)
    ensures
        r.deep_view() == text_entries(entries_view(entries@)),
{
    let ghost want = text_entries(entries_view(entries@));
    let mut out: Vec<(String, Option<String>)> = Vec::new();
    let mut i: usize = 0;
    assert(out.deep_view() =~= want.take(0));
    while i < entries.len()
        invariant
            i <= entries@.len(),
            want == text_entries(entries_view(entries@)),
            out.deep_view() == want.take(i as int),
        decreases entries@.len() - i,
    {
        let ghost before = out.deep_view();
        let text = text_of(&entries[i].1);
        out.push((entries[i].0.clone(), text));
        proof {
            assert(entries_view(entries@)[i as int] == (entries@[i as int].0@, entries@[i as int].1));
            assert(want[i as int] == (entries@[i as int].0@, json_text(entries@[i as int].1)));
            assert(out@.last().deep_view() == want[i as int]);
            assert(out.deep_view() =~= before.push(want[i as int]));
            assert(want.take(i + 1) =~= want.take(i as int).push(want[i as int]));
        }
        i += 1;
    }
    assert(want.take(i as int) =~= want);
    out
}

/// Reads the environment overrides from the text of a settings file.
pub fn read_settings_overrides(content: &str) -> (r: Vec<(String, String)>)
    ensures
        r.deep_view() == settings_overrides(content@),
{
    let none: Vec<(String, String)> = Vec::new();
    assert(none.deep_view() =~= Seq::<Assignment>::empty());
    let doc = match parse_value(content) {
        Some(doc) => doc,
        None => {
            return none;
        },
    };
    let env = match member(&doc, "env") {
        Some(env) => env,
        None => {
            return none;
        },
    };
    match entries_of(env) {
        Some(entries) => overrides_from(&read_text_entries(&entries)),
        None => none,
    }
}

/// The environment of a driver session, see the module text.
pub open spec fn session_env(
    inherited: Seq<Assignment>,
    program: Seq<char>,
    program_dir: Option<Seq<char>>,
    windows: bool,
    overrides: Seq<Assignment>,
    model: Option<Seq<char>>,
) -> Seq<Assignment> {
    let current_path = match assigned(inherited, "PATH"@) {
        Some(path) => path,
        None => Seq::empty(),
    };
    inherited.filter(session_keeps()) + (match node_path_entry(
        program,
        program_dir,
        current_path,
        windows,
    ) {
        Some(entry) => seq![entry],
        None => Seq::empty(),
    }) + overrides + (match model {
        Some(m) => seq![("ANTHROPIC_MODEL"@, m)],
        None => Seq::empty(),
    })
}

/// Builds the environment of a driver session.
///
/// `inherited` is the environment of the parent process, `program_dir` the directory the
/// driver executable lives in, `overrides` the overrides of the settings file.
pub fn session_environment(
    inherited: &Vec<(String, String)>,
    program: &str,
    program_dir: Option<&str>,
    windows: bool,
    overrides: &Vec<(String, String)>,
    model: Option<&str>,
) -> (r: Vec<(String, String)>)
    ensures
        r.deep_view() == session_env(
            inherited.deep_view(),
            program@,
            program_dir.deep_view(),
            windows,
            overrides.deep_view(),
            model.deep_view(),
        ),
{
    let ghost keep = session_keeps();
    let mut out: Vec<(String, String)> = Vec::new();
    let mut i: usize = 0;
    assert(inherited.deep_view().take(0) =~= Seq::empty());
    assert(out.deep_view() =~= Seq::<Assignment>::empty());
    proof {
        reveal(Seq::filter);
    }
    while i < inherited.len()
        invariant
            i <= inherited@.len(),
            keep == session_keeps(),
            out.deep_view() == inherited.deep_view().take(i as int).filter(keep),
        decreases inherited@.len() - i,
    {
        let ghost before = out.deep_view();
        proof {
            reveal(Seq::filter);
            let upto = inherited.deep_view().take(i + 1);
            assert(upto.drop_last() =~= inherited.deep_view().take(i as int));
            assert(upto.last() == inherited@[i as int].deep_view());
            assert(upto.last().0 == inherited@[i as int].0@);
            assert(keep(upto.last()) == session_inherits(inherited@[i as int].0@));
        }
        if inherited_by_session(inherited[i].0.as_str()) {
            out.push((inherited[i].0.clone(), inherited[i].1.clone()));
            assert(out@.last().deep_view() == inherited@[i as int].deep_view());
            assert(out.deep_view() =~= before.push(inherited@[i as int].deep_view()));
        }
        i += 1;
    }
    assert(inherited.deep_view().take(i as int) =~= inherited.deep_view());
    let ghost kept = out.deep_view();
    let current_path = match lookup(inherited, "PATH") {
        Some(path) => path,
        None => String::new(),
    };
    let ghost node = match node_path_entry(
        program@,
        program_dir.deep_view(),
        current_path@,
        windows,
    ) {
        Some(entry) => seq![entry],
        None => Seq::<Assignment>::empty(),
    };
    match node_path_assignment(program, program_dir, current_path.as_str(), windows) {
        Some(entry) => {
            out.push(entry);
        },
        None => {},
    }
    assert(out.deep_view() =~= kept + node);
    let mut k: usize = 0;
    while k < overrides.len()
        invariant
            k <= overrides@.len(),
            out.deep_view() == kept + node + overrides.deep_view().take(k as int),
        decreases overrides@.len() - k,
    {
        let ghost before = out.deep_view();
        out.push((overrides[k].0.clone(), overrides[k].1.clone()));
        proof {
            assert(out.deep_view() =~= before.push(overrides@[k as int].deep_view()));
            assert(overrides.deep_view().take(k + 1) =~= overrides.deep_view().take(
                k as int,
            ).push(overrides@[k as int].deep_view()));
        }
        k += 1;
    }
    assert(overrides.deep_view().take(k as int) =~= overrides.deep_view());
    let ghost upto_overrides = out.deep_view();
    match model {
        Some(m) => {
            out.push((String::from_str("ANTHROPIC_MODEL"), String::from_str(m)));
            assert(out.deep_view() =~= upto_overrides + seq![("ANTHROPIC_MODEL"@, m@)]);
        },
        None => {
            assert(out.deep_view() =~= upto_overrides + Seq::<Assignment>::empty());
        },
    }
    out
}

/// The overrides of a settings file, where there is one.
pub open spec fn overrides_of(settings: Option<Seq<char>>) -> Seq<Assignment> {
    match settings {
        Some(content) => settings_overrides(content),
        None => Seq::empty(),
    }
}

/// Trusted: calls `Path::parent` of the standard library and gives the result as text,
/// through `Path::to_string_lossy`. What counts as the parent depends on the platform
/// the crate is built for, so nothing is claimed about the result.
#[verifier::external_body]
fn parent_dir(program: &str) -> (r: Option<String>) {
    std::path::Path::new(program).parent().map(|dir| dir.to_string_lossy().to_string())
}

/// Builds the environment of a driver session from what the caller has read: the
/// environment of the parent process and, where there is a settings file, its text.
///
/// The directory of the driver executable is taken from `program` as the platform
/// understands paths; with that directory the result is as [`session_env`] says.
pub fn launch_environment(
    inherited: &Vec<(String, String)>,
    program: &str,
    windows: bool,
    settings: Option<&str>,
    model: Option<&str>,
) -> (r: Vec<(String, String)>)
    ensures
        exists|dir: Option<Seq<char>>|
            r.deep_view() == #[trigger] session_env(
                inherited.deep_view(),
                program@,
                dir,
                windows,
                overrides_of(settings.deep_view()),
                model.deep_view(),
            ),
{
    let dir = parent_dir(program);
    let overrides = match settings {
        Some(content) => read_settings_overrides(content),
        None => {
            let none: Vec<(String, String)> = Vec::new();
            assert(none.deep_view() =~= Seq::<Assignment>::empty());
            none
        },
    };
    let program_dir = match &dir {
        Some(d) => Some(d.as_str()),
        None => None,
    };
    let r = session_environment(inherited, program, program_dir, windows, &overrides, model);
    assert(r.deep_view() == session_env(
        inherited.deep_view(),
        program@,
        dir.deep_view(),
        windows,
        overrides_of(settings.deep_view()),
        model.deep_view(),
    ));
    r
}

/// The variables of the parent process that a short probe of the driver inherits.
pub fn probe_environment(inherited: &Vec<(String, String)>) -> (r: Vec<(String, String)>)
    ensures
        r.deep_view() == inherited.deep_view().filter(probe_keeps()),
{
    let ghost keep = probe_keeps();
    let mut out: Vec<(String, String)> = Vec::new();
    let mut i: usize = 0;
    assert(inherited.deep_view().take(0) =~= Seq::empty());
    assert(out.deep_view() =~= Seq::<Assignment>::empty());
    proof {
        reveal(Seq::filter);
    }
    while i < inherited.len()
        invariant
            i <= inherited@.len(),
            keep == probe_keeps(),
            out.deep_view() == inherited.deep_view().take(i as int).filter(keep),
        decreases inherited@.len() - i,
    {
        let ghost before = out.deep_view();
        proof {
            reveal(Seq::filter);
            let upto = inherited.deep_view().take(i + 1);
            assert(upto.drop_last() =~= inherited.deep_view().take(i as int));
            assert(upto.last() == inherited@[i as int].deep_view());
            assert(upto.last().0 == inherited@[i as int].0@);
            assert(keep(upto.last()) == probe_inherits(inherited@[i as int].0@));
        }
        if inherited_by_probe(inherited[i].0.as_str()) {
            out.push((inherited[i].0.clone(), inherited[i].1.clone()));
            assert(out@.last().deep_view() == inherited@[i as int].deep_view());
            assert(out.deep_view() =~= before.push(inherited@[i as int].deep_view()));
        }
        i += 1;
    }
    assert(inherited.deep_view().take(i as int) =~= inherited.deep_view());
    out
}

/// Later sources override earlier ones: the model, where one is given, is what the
/// environment assigns to `ANTHROPIC_MODEL`, whatever the parent process or the settings
/// file say.
pub proof fn lemma_model_overrides(
    inherited: Seq<Assignment>,
    program: Seq<char>,
    program_dir: Option<Seq<char>>,
    windows: bool,
    overrides: Seq<Assignment>,
    model: Seq<char>,
)
    ensures
        assigned(
            session_env(inherited, program, program_dir, windows, overrides, Some(model)),
            "ANTHROPIC_MODEL"@,
        ) == Some(model),
{
    let env = session_env(inherited, program, program_dir, windows, overrides, Some(model));
    assert(env.last() == ("ANTHROPIC_MODEL"@, model));
}

/// Appending assignments: the appended ones win, and where they are silent about a
/// variable the earlier ones decide.
pub proof fn lemma_assigned_append(earlier: Seq<Assignment>, later: Seq<Assignment>, key: Seq<char>)
    ensures
        assigned(earlier + later, key) == (match assigned(later, key) {
            Some(value) => Some(value),
            None => assigned(earlier, key),
        }),
    decreases later.len(),
{
    if later.len() == 0 {
        assert(earlier + later =~= earlier);
    } else {
        assert((earlier + later).last() == later.last());
        assert((earlier + later).drop_last() =~= earlier + later.drop_last());
        lemma_assigned_append(earlier, later.drop_last(), key);
    }
}

/// Later sources override earlier ones: a variable that the settings file sets has the
/// value the settings file gives it, unless it is the model variable of a launch that
/// names a model.
pub proof fn lemma_settings_override(
    inherited: Seq<Assignment>,
    program: Seq<char>,
    program_dir: Option<Seq<char>>,
    windows: bool,
    overrides: Seq<Assignment>,
    model: Option<Seq<char>>,
    key: Seq<char>,
)
    requires
        assigned(overrides, key) is Some,
        model is Some ==> key != "ANTHROPIC_MODEL"@,
    ensures
        assigned(session_env(inherited, program, program_dir, windows, overrides, model), key)
            == assigned(overrides, key),
{
    let current_path = match assigned(inherited, "PATH"@) {
        Some(path) => path,
        None => Seq::empty(),
    };
    let head = inherited.filter(session_keeps()) + (match node_path_entry(
        program,
        program_dir,
        current_path,
        windows,
    ) {
        Some(entry) => seq![entry],
        None => Seq::empty(),
    });
    let tail: Seq<Assignment> = match model {
        Some(m) => seq![("ANTHROPIC_MODEL"@, m)],
        None => Seq::empty(),
    };
    lemma_assigned_append(head, overrides, key);
    lemma_assigned_append(head + overrides, tail, key);
    if tail.len() > 0 {
        assert(tail.drop_last() =~= Seq::<Assignment>::empty());
        assert(assigned(tail.drop_last(), key) is None);
        assert(tail.last().0 != key);
    }
    assert(assigned(tail, key) is None);
    assert(session_env(inherited, program, program_dir, windows, overrides, model) == head
        + overrides + tail);
}

} // verus!
