//! The list of hidden projects and the bookkeeping around deleting sessions.
//!
//! A project that the user removes from the project list is hidden, not deleted: its
//! files stay. The store keeps the hidden list in memory; the caller loads it from the
//! file it lives in and writes it back after a change.

use crate::choice::{arranged, lemma_inserted_at};
use crate::json::{json_parse, parse_value, read_text, text_member};
use crate::text::{
    absorb, absorbed, any_uppercase, byte_len, contains, contains_string, dedup_strings,
    has_prefix, has_substring, has_uppercase, position_of, push_string, starts_with, utf8_len,
    without_repeats,
};
use vstd::prelude::*;
use vstd::string::*;

verus! {

/// What a batch of session deletions came to.
#[derive(Debug)]
pub struct BatchDeleteOutcome {
    pub deleted_count: usize,
    pub failed_count: usize,
    /// One message per failure, in the order of the batch.
    pub errors: Vec<String>,
}

/// How the deletion of one session went.
#[derive(Debug)]
pub struct DeleteAttempt {
    pub session_id: String,
    /// `Ok(true)`: the session file was deleted. `Ok(false)`: there was no such file.
    /// `Err`: deleting failed; the text says why.
    pub result: Result<bool, String>,
}

/// View of [`DeleteAttempt`].
pub struct DeleteAttemptView {
    pub session_id: Seq<char>,
    pub result: Result<bool, Seq<char>>,
}

impl View for DeleteAttempt {
    type V = DeleteAttemptView;

    open spec fn view(&self) -> DeleteAttemptView {
        DeleteAttemptView {
            session_id: self.session_id@,
            result: match self.result {
                Ok(deleted) => Ok(deleted),
                Err(e) => Err(e@),
            },
        }
    }
}

impl DeepView for DeleteAttempt {
    type V = DeleteAttemptView;

    open spec fn deep_view(&self) -> DeleteAttemptView {
        self@
    }
}

impl DeleteAttemptView {
    /// The session file was there and is deleted.
    pub open spec fn deleted(self) -> bool {
        self.result == Ok::<bool, Seq<char>>(true)
    }

    /// The message for an attempt that did not delete the session file.
    pub open spec fn failure(self) -> Seq<char> {
        match self.result {
            Err(e) => "Failed to delete session "@ + self.session_id + ": "@ + e,
            _ => "Session file not found for ID: "@ + self.session_id,
        }
    }
}

/// How many of the attempts deleted their session file.
pub open spec fn deleted_among(attempts: Seq<DeleteAttemptView>) -> nat
    decreases attempts.len(),
{
    if attempts.len() == 0 {
        0
    } else {
        deleted_among(attempts.drop_last()) + if attempts.last().deleted() {
            1nat
        } else {
            0nat
        }
    }
}

/// The messages of the attempts that did not delete their session file, in order.
pub open spec fn failures_among(attempts: Seq<DeleteAttemptView>) -> Seq<Seq<char>>
    decreases attempts.len(),
{
    if attempts.len() == 0 {
        Seq::empty()
    } else if attempts.last().deleted() {
        failures_among(attempts.drop_last())
    } else {
        failures_among(attempts.drop_last()).push(attempts.last().failure())
    }
}

/// Every attempt either deleted its file or left a message.
pub proof fn lemma_batch_accounts_for_all(attempts: Seq<DeleteAttemptView>)
    ensures
        deleted_among(attempts) + failures_among(attempts).len() == attempts.len(),
    decreases attempts.len(),
{
    if attempts.len() > 0 {
        lemma_batch_accounts_for_all(attempts.drop_last());
    }
}

/// The hidden projects of one installation.
#[derive(Debug)]
pub struct ProjectStore {
    claude_dir: String,
    hidden_projects: Vec<String>,
}

/// `items` without the first occurrence of `wanted`.
pub open spec fn without_first(items: Seq<Seq<char>>, wanted: Seq<char>) -> Seq<Seq<char>> {
    if items.contains(wanted) {
        items.remove(items.index_of_first(wanted).unwrap())
    } else {
        items
    }
}

impl ProjectStore {
    /// The directory the store belongs to.
    pub closed spec fn directory(&self) -> Seq<char> {
        self.claude_dir@
    }

    /// The ids of the hidden projects, in the order they were hidden.
    pub closed spec fn hidden(&self) -> Seq<Seq<char>> {
        self.hidden_projects.deep_view()
    }

    /// A store for the given directory with no project hidden.
    pub fn new(claude_dir: String) -> (r: ProjectStore)
        ensures
            r.directory() == claude_dir@,
            r.hidden() == Seq::<Seq<char>>::empty(),
    {
        let r = ProjectStore { claude_dir, hidden_projects: Vec::new() };
        assert(r.hidden_projects.deep_view() =~= Seq::<Seq<char>>::empty());
        r
    }

    /// A store for the given directory with the given hidden list, as read from its file.
    pub fn with_hidden(claude_dir: String, hidden_projects: Vec<String>) -> (r: ProjectStore)
        ensures
            r.directory() == claude_dir@,
            r.hidden() == hidden_projects.deep_view(),
    {
        ProjectStore { claude_dir, hidden_projects }
    }

    /// The directory the store belongs to.
    pub fn claude_dir(&self) -> (r: &str)
        ensures
            r@ == self.directory(),
    {
        self.claude_dir.as_str()
    }

    /// The ids of the hidden projects, in the order they were hidden.
    pub fn hidden_projects(&self) -> (r: &Vec<String>)
        ensures
            r.deep_view() == self.hidden(),
    {
        &self.hidden_projects
    }

    /// Hides a project. Returns whether it was newly hidden; a project that is hidden
    /// already stays where it is in the list.
    pub fn hide_project(&mut self, project_id: &str) -> (newly_hidden: bool)
        ensures
            final(self).directory() == old(self).directory(),
            newly_hidden == !old(self).hidden().contains(project_id@),
            final(self).hidden() == if newly_hidden {
                old(self).hidden().push(project_id@)
            } else {
                old(self).hidden()
            },
    {
        if contains_string(&self.hidden_projects, project_id) {
            return false;
        }
        push_string(&mut self.hidden_projects, String::from_str(project_id));
        true
    }

    /// Takes a project off the hidden list; an error where it is not on it.
    pub fn restore_project(&mut self, project_id: &str) -> (r: Result<(), String>)
        ensures
            final(self).directory() == old(self).directory(),
            final(self).hidden() == without_first(old(self).hidden(), project_id@),
            match r {
                Ok(_) => old(self).hidden().contains(project_id@),
                Err(e) => !old(self).hidden().contains(project_id@) && e@ == "Project '"@
                    + project_id@ + "' is not in the hidden list"@,
            },
    {
        match position_of(&self.hidden_projects, project_id) {
            Some(pos) => {
                let ghost before = self.hidden_projects.deep_view();
                proof {
                    assert(before.contains(project_id@));
                    let first = before.index_of_first(project_id@);
                    before.index_of_first_ensures(project_id@);
                    assert(first == Some(pos as int));
                }
                self.hidden_projects.remove(pos);
                assert(self.hidden_projects.deep_view() =~= before.remove(pos as int));
                Ok(())
            },
            None => {
                let mut message = String::from_str("Project '");
                message.append(project_id);
                message.append("' is not in the hidden list");
                Err(message)
            },
        }
    }

    /// Takes projects off the hidden list, every occurrence of each. Returns whether the
    /// list changed.
    pub fn remove_from_hidden_projects(&mut self, project_ids: &Vec<String>) -> (changed: bool)
        ensures
            final(self).directory() == old(self).directory(),
            final(self).hidden() == old(self).hidden().filter(not_among(project_ids.deep_view())),
            changed == (final(self).hidden().len() != old(self).hidden().len()),
    {
        let ghost keep = not_among(project_ids.deep_view());
        let ghost before = self.hidden_projects.deep_view();
        let mut kept: Vec<String> = Vec::new();
        let mut i: usize = 0;
        assert(before.take(0) =~= Seq::<Seq<char>>::empty());
        assert(kept.deep_view() =~= Seq::<Seq<char>>::empty());
        proof {
            reveal(Seq::filter);
        }
        while i < self.hidden_projects.len()
            invariant
                i <= self.hidden_projects@.len(),
                before == self.hidden_projects.deep_view(),
                keep == not_among(project_ids.deep_view()),
                kept.deep_view() == before.take(i as int).filter(keep),
            decreases self.hidden_projects@.len() - i,
        {
            proof {
                reveal(Seq::filter);
                let upto = before.take(i + 1);
                assert(upto.drop_last() =~= before.take(i as int));
                assert(upto.last() == self.hidden_projects@[i as int]@);
            }
            if !contains_string(project_ids, self.hidden_projects[i].as_str()) {
                push_string(&mut kept, self.hidden_projects[i].clone());
            }
            i += 1;
        }
        assert(before.take(i as int) =~= before);
        let changed = kept.len() != self.hidden_projects.len();
        self.hidden_projects = kept;
        changed
    }

    /// Sums up a batch of session deletions that the caller has carried out: how many
    /// sessions were deleted, how many were not, and a message for each that was not.
    pub fn delete_sessions_batch(&self, attempts: &Vec<DeleteAttempt>) -> (outcome:
        BatchDeleteOutcome)
        ensures
            outcome.deleted_count == deleted_among(attempts.deep_view()),
            outcome.failed_count == failures_among(attempts.deep_view()).len(),
            outcome.errors.deep_view() == failures_among(attempts.deep_view()),
    {
        let mut deleted_count: usize = 0;
        let mut failed_count: usize = 0;
        let mut errors: Vec<String> = Vec::new();
        let mut i: usize = 0;
        assert(attempts.deep_view().take(0) =~= Seq::<DeleteAttemptView>::empty());
        assert(errors.deep_view() =~= Seq::<Seq<char>>::empty());
        while i < attempts.len()
            invariant
                i <= attempts@.len(),
                deleted_count == deleted_among(attempts.deep_view().take(i as int)),
                failed_count == failures_among(attempts.deep_view().take(i as int)).len(),
                errors.deep_view() == failures_among(attempts.deep_view().take(i as int)),
                deleted_count + failed_count == i,
            decreases attempts@.len() - i,
        {
            proof {
                let upto = attempts.deep_view().take(i + 1);
                assert(upto.drop_last() =~= attempts.deep_view().take(i as int));
                assert(upto.last() == attempts@[i as int]@);
            }
            let attempt = &attempts[i];
            match &attempt.result {
                Ok(true) => {
                    deleted_count += 1;
                },
                Ok(false) => {
                    failed_count += 1;
                    let mut message = String::from_str("Session file not found for ID: ");
                    message.append(attempt.session_id.as_str());
                    push_string(&mut errors, message);
                },
                Err(e) => {
                    failed_count += 1;
                    let mut message = String::from_str("Failed to delete session ");
                    message.append(attempt.session_id.as_str());
                    message.append(": ");
                    message.append(e.as_str());
                    push_string(&mut errors, message);
                },
            }
            i += 1;
        }
        assert(attempts.deep_view().take(i as int) =~= attempts.deep_view());
        BatchDeleteOutcome { deleted_count, failed_count, errors }
    }
}

/// The predicate "is not one of `ids`".
pub open spec fn not_among(ids: Seq<Seq<char>>) -> spec_fn(Seq<char>) -> bool {
    |id: Seq<char>| !ids.contains(id)
}

/// The hidden list is taken for corrupt, and is to be cleared, when it names more
/// projects than there are project directories. With no project directory at all it is
/// left alone, and hiding every project is fine.
pub fn hidden_list_is_corrupt(hidden_count: usize, project_count: usize) -> (r: bool)
    ensures
        r == (project_count > 0 && hidden_count > project_count),
{
    project_count > 0 && hidden_count > project_count
}

/// A path as macOS reports it, made comparable: the `/private` in front of `/tmp/`,
/// `/var/` and `/etc/` is dropped, and so is a slash at the end, except for the root.
pub open spec fn macos_normal(path: Seq<char>) -> Seq<char> {
    let unprefixed = if has_prefix(path, "/private/tmp/"@) || has_prefix(path, "/private/var/"@)
        || has_prefix(path, "/private/etc/"@) {
        path.skip(8)
    } else {
        path
    };
    if unprefixed.len() > 1 && unprefixed.last() == '/' {
        unprefixed.drop_last()
    } else {
        unprefixed
    }
}

/// Normalizes a path as macOS reports it, see [`macos_normal`].
pub fn normalize_macos_path(path: &str) -> (r: String)
    ensures
        r@ == macos_normal(path@),
{
    let chars = crate::text::chars_of(path);
    let start: usize = if starts_with(path, "/private/tmp/") || starts_with(path, "/private/var/")
        || starts_with(path, "/private/etc/") {
        proof {
            reveal_strlit("/private/tmp/");
            reveal_strlit("/private/var/");
            reveal_strlit("/private/etc/");
        }
        8
    } else {
        0
    };
    let mut end: usize = chars.len();
    if end - start > 1 && chars[end - 1] == '/' {
        end -= 1;
    }
    let mut out: Vec<char> = Vec::new();
    let mut i: usize = start;
    while i < end
        invariant
            start <= i <= end <= chars@.len(),
            out@ == chars@.subrange(start as int, i as int),
        decreases end - i,
    {
        out.push(chars[i]);
        assert(out@ =~= chars@.subrange(start as int, i + 1));
        i += 1;
    }
    proof {
        let unprefixed = chars@.skip(start as int);
        assert(unprefixed =~= chars@.subrange(start as int, chars@.len() as int));
        if unprefixed.len() > 1 && unprefixed.last() == '/' {
            assert(unprefixed.drop_last() =~= chars@.subrange(start as int, end as int));
        }
    }
    crate::text::string_from_chars(&out)
}

/// A project with the sessions found in its directory.
#[derive(Debug)]
pub struct Project {
    /// The name of the project's directory.
    pub id: String,
    /// The path of the project on disk.
    pub path: String,
    /// The ids of its sessions.
    pub sessions: Vec<String>,
    /// The time of its last activity, in seconds since the epoch.
    pub created_at: u64,
}

/// View of [`Project`].
pub struct ProjectView {
    pub id: Seq<char>,
    pub path: Seq<char>,
    pub sessions: Seq<Seq<char>>,
    pub created_at: u64,
}

impl View for Project {
    type V = ProjectView;

    open spec fn view(&self) -> ProjectView {
        ProjectView {
            id: self.id@,
            path: self.path@,
            sessions: self.sessions.deep_view(),
            created_at: self.created_at,
        }
    }
}

impl DeepView for Project {
    type V = ProjectView;

    open spec fn deep_view(&self) -> ProjectView {
        self@
    }
}

impl Clone for Project {
    fn clone(&self) -> (r: Self)
        ensures
            r@ == self@,
    {
        let sessions = self.sessions.clone();
        assert(sessions@ =~= self.sessions@);
        assert(sessions.deep_view() =~= self.sessions.deep_view());
        Project {
            id: self.id.clone(),
            path: self.path.clone(),
            sessions,
            created_at: self.created_at,
        }
    }
}

/// A project with the key it is recognized by: its path in the form used for comparison.
pub type Keyed = (Seq<char>, ProjectView);

/// When two directories hold the same project, the id `candidate` replaces the id
/// `current` where it is shorter, or as long and free of the double hyphen that `current`
/// has, or as long and with an uppercase letter where `current` has none.
pub open spec fn replaces_id(candidate: Seq<char>, current: Seq<char>) -> bool {
    ||| utf8_len(candidate) < utf8_len(current)
    ||| (utf8_len(candidate) == utf8_len(current) && !has_substring(candidate, "--"@)
        && has_substring(current, "--"@))
    ||| (utf8_len(candidate) == utf8_len(current) && has_uppercase(candidate) && !has_uppercase(
        current,
    ))
}

/// Decides [`replaces_id`].
pub fn id_replaces(candidate: &str, current: &str) -> (r: bool)
    ensures
        r == replaces_id(candidate@, current@),
{
    let a = byte_len(candidate);
    let b = byte_len(current);
    a < b || (a == b && !contains(candidate, "--") && contains(current, "--")) || (a == b
        && any_uppercase(candidate) && !any_uppercase(current))
}

/// The project that two directories of the same project are merged into: the sessions
/// of both, the later activity, the path of the first, and the better id.
pub open spec fn merged_into(current: ProjectView, other: ProjectView) -> ProjectView {
    ProjectView {
        id: if replaces_id(other.id, current.id) {
            other.id
        } else {
            current.id
        },
        path: current.path,
        sessions: absorbed(current.sessions, other.sessions),
        created_at: if other.created_at > current.created_at {
            other.created_at
        } else {
            current.created_at
        },
    }
}

/// The keys of keyed projects.
pub open spec fn keys_of(groups: Seq<Keyed>) -> Seq<Seq<char>> {
    groups.map_values(|g: Keyed| g.0)
}

/// The projects with one entry per key, in the order the keys first occur.
pub open spec fn grouped(items: Seq<Keyed>) -> Seq<Keyed>
    decreases items.len(),
{
    if items.len() == 0 {
        Seq::empty()
    } else {
        let groups = grouped(items.drop_last());
        let item = items.last();
        match keys_of(groups).index_of_first(item.0) {
            Some(i) => groups.update(i, (item.0, merged_into(groups[i].1, item.1))),
            None => groups.push(item),
        }
    }
}

/// The project with each of its sessions listed once.
pub open spec fn tidy(keyed: Keyed) -> ProjectView {
    ProjectView { sessions: without_repeats(keyed.1.sessions), ..keyed.1 }
}

/// In the project list a project with later activity goes first.
pub open spec fn newer_first() -> spec_fn(ProjectView, ProjectView) -> bool {
    |a: ProjectView, b: ProjectView| a.created_at > b.created_at
}

/// The project list: one entry per project, each session once, latest activity first;
/// projects with the same time of activity in the order they were first seen.
pub open spec fn deduplicated(items: Seq<Keyed>) -> Seq<ProjectView> {
    arranged(grouped(items).map_values(|g: Keyed| tidy(g)), newer_first())
}

/// The order of the project list ranks projects into tiers.
pub proof fn lemma_newer_first_tiers()
    ensures
        crate::choice::ranks_in_tiers(newer_first()),
{
}

fn find_key(groups: &Vec<(String, Project)>, key: &str) -> (r: Option<usize>)
    ensures
        match r {
            Some(i) => i < groups@.len() && groups@[i as int].0@ == key@ && keys_of(
                groups.deep_view(),
            ).index_of_first(key@) == Some(i as int),
            None => keys_of(groups.deep_view()).index_of_first(key@) is None,
        },
{
    let ghost keys = keys_of(groups.deep_view());
    let mut i: usize = 0;
    while i < groups.len()
        invariant
            i <= groups@.len(),
            keys == keys_of(groups.deep_view()),
            forall|k: int| 0 <= k < i ==> keys[k] != key@,
        decreases groups@.len() - i,
    {
        assert(keys[i as int] == groups@[i as int].0@);
        if *groups[i].0.as_str() == *key {
            proof {
                keys.index_of_first_ensures(key@);
                assert(keys.contains(key@));
            }
            return Some(i);
        }
        i += 1;
    }
    proof {
        keys.index_of_first_ensures(key@);
    }
    None
}

/// Makes the project list from the projects found on disk, each with the key it is
/// recognized by. Directories that hold the same project are merged into one entry.
pub fn deduplicate_projects(all_projects: &Vec<(String, Project)>) -> (r: Vec<Project>)
    ensures
        r.deep_view() == deduplicated(all_projects.deep_view()),
{
    let mut groups: Vec<(String, Project)> = Vec::new();
    let mut i: usize = 0;
    assert(all_projects.deep_view().take(0) =~= Seq::<Keyed>::empty());
    assert(groups.deep_view() =~= Seq::<Keyed>::empty());
    while i < all_projects.len()
        invariant
            i <= all_projects@.len(),
            groups.deep_view() == grouped(all_projects.deep_view().take(i as int)),
        decreases all_projects@.len() - i,
    {
        let ghost before = groups.deep_view();
        proof {
            let upto = all_projects.deep_view().take(i + 1);
            assert(upto.drop_last() =~= all_projects.deep_view().take(i as int));
            assert(upto.last() == all_projects@[i as int].deep_view());
        }
        let key = all_projects[i].0.as_str();
        let project = &all_projects[i].1;
        match find_key(&groups, key) {
            Some(at) => {
                let ghost current = groups@[at as int].1@;
                assert(before[at as int].1 == current);
                absorb(&mut groups[at].1.sessions, &project.sessions);
                if project.created_at > groups[at].1.created_at {
                    groups[at].1.created_at = project.created_at;
                }
                if id_replaces(project.id.as_str(), groups[at].1.id.as_str()) {
                    groups[at].1.id = project.id.clone();
                }
                proof {
                    assert(groups@[at as int].1@ == merged_into(current, project@));
                    assert(groups@[at as int].0@ == before[at as int].0);
                    assert(groups.deep_view() =~= before.update(
                        at as int,
                        (key@, merged_into(current, project@)),
                    ));
                }
            },
            None => {
                groups.push((all_projects[i].0.clone(), project.clone()));
                assert(groups.deep_view() =~= before.push(all_projects@[i as int].deep_view()));
            },
        }
        i += 1;
    }
    assert(all_projects.deep_view().take(i as int) =~= all_projects.deep_view());
    let ghost tidied = groups.deep_view().map_values(|g: Keyed| tidy(g));
    let ghost before_fn = newer_first();
    let mut out: Vec<Project> = Vec::new();
    let mut k: usize = 0;
    assert(tidied.take(0) =~= Seq::<ProjectView>::empty());
    assert(out.deep_view() =~= Seq::<ProjectView>::empty());
    while k < groups.len()
        invariant
            k <= groups@.len(),
            tidied == groups.deep_view().map_values(|g: Keyed| tidy(g)),
            before_fn == newer_first(),
            out.deep_view() == arranged(tidied.take(k as int), before_fn),
        decreases groups@.len() - k,
    {
        let group = &groups[k].1;
        let x = Project {
            id: group.id.clone(),
            path: group.path.clone(),
            sessions: dedup_strings(&group.sessions),
            created_at: group.created_at,
        };
        assert(x@ == tidied[k as int]);
        let mut at: usize = out.len();
        while at > 0 && x.created_at > out[at - 1].created_at
            invariant
                at <= out@.len(),
                before_fn == newer_first(),
                forall|m: int| at <= m < out@.len() ==> before_fn(x@, #[trigger] out@[m]@),
            decreases at,
        {
            at -= 1;
        }
        let ghost sorted = out.deep_view();
        proof {
            assert forall|m: int| at <= m < sorted.len() implies before_fn(
                x@,
                #[trigger] sorted[m],
            ) by {
                assert(sorted[m] == out@[m]@);
            }
            if at > 0 {
                assert(sorted[at - 1] == out@[at - 1]@);
            }
            lemma_inserted_at(sorted, x@, before_fn, at as int);
            let upto = tidied.take(k + 1);
            assert(upto.drop_last() =~= tidied.take(k as int));
            assert(upto.last() == tidied[k as int]);
        }
        out.insert(at, x);
        assert(out.deep_view() =~= sorted.insert(at as int, x@));
        k += 1;
    }
    assert(tidied.take(k as int) =~= tidied);
    out
}

/// The project list is in order of activity, latest first.
pub proof fn lemma_project_list_is_sorted(items: Seq<Keyed>)
    ensures
        forall|i: int, j: int|
            0 <= i < j < deduplicated(items).len() ==> deduplicated(items)[i].created_at
                >= deduplicated(items)[j].created_at,
        deduplicated(items).len() == grouped(items).len(),
{
    let tidied = grouped(items).map_values(|g: Keyed| tidy(g));
    lemma_newer_first_tiers();
    crate::choice::lemma_arranged_is_sorted(tidied, newer_first());
    let list = deduplicated(items);
    assert forall|i: int, j: int| 0 <= i < j < list.len() implies list[i].created_at
        >= list[j].created_at by {
        assert(!newer_first()(list[j], list[i]));
    }
}

/// A project directory found on disk: its name, and the key of the project it holds.
#[derive(Debug)]
pub struct ProjectDir {
    pub name: String,
    pub key: String,
}

/// View of [`ProjectDir`].
pub struct ProjectDirView {
    pub name: Seq<char>,
    pub key: Seq<char>,
}

impl View for ProjectDir {
    type V = ProjectDirView;

    open spec fn view(&self) -> ProjectDirView {
        ProjectDirView { name: self.name@, key: self.key@ }
    }
}

impl DeepView for ProjectDir {
    type V = ProjectDirView;

    open spec fn deep_view(&self) -> ProjectDirView {
        self@
    }
}

/// The name of the first directory that holds the project with key `key`.
pub open spec fn directory_for(dirs: Seq<ProjectDirView>, key: Seq<char>) -> Option<Seq<char>>
    decreases dirs.len(),
{
    if dirs.len() == 0 {
        None
    } else if dirs.first().key == key {
        Some(dirs.first().name)
    } else {
        directory_for(dirs.drop_first(), key)
    }
}

/// Finds the first directory that holds the project with key `key`.
pub fn find_directory(dirs: &Vec<ProjectDir>, key: &str) -> (r: Option<String>)
    ensures
        r.deep_view() == directory_for(dirs.deep_view(), key@),
{
    let mut i: usize = 0;
    assert(dirs.deep_view().skip(0) =~= dirs.deep_view());
    while i < dirs.len()
        invariant
            i <= dirs@.len(),
            directory_for(dirs.deep_view(), key@) == directory_for(
                dirs.deep_view().skip(i as int),
                key@,
            ),
        decreases dirs@.len() - i,
    {
        proof {
            let rest = dirs.deep_view().skip(i as int);
            assert(rest.first() == dirs@[i as int]@);
            assert(rest.drop_first() =~= dirs.deep_view().skip(i + 1));
        }
        if *dirs[i].key.as_str() == *key {
            return Some(dirs[i].name.clone());
        }
        i += 1;
    }
    None
}

/// A project id with what the caller found out about it.
#[derive(Debug)]
pub struct ProjectRef {
    pub id: String,
    /// A directory of that name exists.
    pub exists: bool,
    /// The key of the project that the id stands for.
    pub key: String,
}

/// View of [`ProjectRef`].
pub struct ProjectRefView {
    pub id: Seq<char>,
    pub exists: bool,
    pub key: Seq<char>,
}

impl View for ProjectRef {
    type V = ProjectRefView;

    open spec fn view(&self) -> ProjectRefView {
        ProjectRefView { id: self.id@, exists: self.exists, key: self.key@ }
    }
}

impl DeepView for ProjectRef {
    type V = ProjectRefView;

    open spec fn deep_view(&self) -> ProjectRefView {
        self@
    }
}

/// The directory a project id leads to: the one of that name where it exists, else the
/// first one that holds the same project.
pub open spec fn resolved(project: ProjectRefView, dirs: Seq<ProjectDirView>) -> Option<Seq<char>> {
    if project.exists {
        Some(project.id)
    } else {
        directory_for(dirs, project.key)
    }
}

/// Resolves a project id to the directory that holds the project.
pub fn resolve_project(project: &ProjectRef, dirs: &Vec<ProjectDir>) -> (r: Option<String>)
    ensures
        r.deep_view() == resolved(project@, dirs.deep_view()),
{
    if project.exists {
        Some(project.id.clone())
    } else {
        find_directory(dirs, project.key.as_str())
    }
}

/// The hidden projects that still lead to a directory, each under the name of that
/// directory.
pub open spec fn still_hidden(hidden: Seq<ProjectRefView>, dirs: Seq<ProjectDirView>) -> Seq<
    Seq<char>,
> {
    hidden.filter_map(|p: ProjectRefView| resolved(p, dirs))
}

/// A hidden project id that leads to no directory any more, as itself.
pub open spec fn stale_id(project: ProjectRefView, dirs: Seq<ProjectDirView>) -> Option<Seq<char>> {
    if resolved(project, dirs) is None {
        Some(project.id)
    } else {
        None
    }
}

/// The hidden project ids that lead to no directory any more; they are to be taken off
/// the hidden list.
pub open spec fn stale_hidden(hidden: Seq<ProjectRefView>, dirs: Seq<ProjectDirView>) -> Seq<
    Seq<char>,
> {
    hidden.filter_map(|p: ProjectRefView| stale_id(p, dirs))
}

/// Checks the hidden list against the directories on disk. Returns the hidden projects
/// that exist, under their directory names, and the ids that have gone stale.
pub fn check_hidden_projects(hidden: &Vec<ProjectRef>, dirs: &Vec<ProjectDir>) -> (r: (
    Vec<String>,
    Vec<String>,
))
    ensures
        r.0.deep_view() == still_hidden(hidden.deep_view(), dirs.deep_view()),
        r.1.deep_view() == stale_hidden(hidden.deep_view(), dirs.deep_view()),
{
    let ghost keep = |p: ProjectRefView| resolved(p, dirs.deep_view());
    let ghost drop = |p: ProjectRefView| stale_id(p, dirs.deep_view());
    let mut kept: Vec<String> = Vec::new();
    let mut stale: Vec<String> = Vec::new();
    let mut i: usize = 0;
    assert(hidden.deep_view().take(0) =~= Seq::<ProjectRefView>::empty());
    assert(kept.deep_view() =~= Seq::<Seq<char>>::empty());
    assert(stale.deep_view() =~= Seq::<Seq<char>>::empty());
    while i < hidden.len()
        invariant
            i <= hidden@.len(),
            keep == (|p: ProjectRefView| resolved(p, dirs.deep_view())),
            drop == (|p: ProjectRefView| stale_id(p, dirs.deep_view())),
            kept.deep_view() == hidden.deep_view().take(i as int).filter_map(keep),
            stale.deep_view() == hidden.deep_view().take(i as int).filter_map(drop),
        decreases hidden@.len() - i,
    {
        proof {
            hidden.deep_view().lemma_filter_map_take_succ(keep, i as int);
            hidden.deep_view().lemma_filter_map_take_succ(drop, i as int);
            assert(hidden.deep_view()[i as int] == hidden@[i as int]@);
        }
        let ghost kept_before = kept.deep_view();
        let ghost stale_before = stale.deep_view();
        match resolve_project(&hidden[i], dirs) {
            Some(name) => {
                push_string(&mut kept, name);
                assert(kept_before.push(name@) =~= kept_before + seq![name@]);
            },
            None => {
                push_string(&mut stale, hidden[i].id.clone());
                assert(stale_before.push(hidden@[i as int].id@) =~= stale_before + seq![
                    hidden@[i as int].id@,
                ]);
            },
        }
        i += 1;
    }
    assert(hidden.deep_view().take(i as int) =~= hidden.deep_view());
    (kept, stale)
}

/// The sessions of helper agents are kept in files whose names start with `agent-`;
/// they are not listed.
pub open spec fn is_agent_session(session_id: Seq<char>) -> bool {
    has_prefix(session_id, "agent-"@)
}

/// Decides [`is_agent_session`].
pub fn agent_session(session_id: &str) -> (r: bool)
    ensures
        r == is_agent_session(session_id@),
{
    starts_with(session_id, "agent-")
}

/// The first eight characters of a session id, or all of it where it has fewer.
pub open spec fn short_id(session_id: Seq<char>) -> Seq<char> {
    if session_id.len() >= 8 {
        session_id.take(8)
    } else {
        session_id
    }
}

/// What a session is listed under: its first message; without one, a stand-in that
/// names the session, where the session has content, that is, a last message and a file
/// larger than 100 bytes; else nothing.
pub open spec fn listed_as(
    first_message: Option<Seq<char>>,
    has_last_message: bool,
    file_size: u64,
    session_id: Seq<char>,
) -> Option<Seq<char>> {
    match first_message {
        Some(message) => Some(message),
        None => if has_last_message && file_size > 100 {
            Some("Resumed Session ("@ + short_id(session_id) + "...)"@)
        } else {
            None
        },
    }
}

/// Works out what a session is listed under, see [`listed_as`].
pub fn session_label(
    first_message: Option<String>,
    has_last_message: bool,
    file_size: u64,
    session_id: &str,
) -> (r: Option<String>)
    ensures
        r.deep_view() == listed_as(
            first_message.deep_view(),
            has_last_message,
            file_size,
            session_id@,
        ),
{
    match first_message {
        Some(message) => Some(message),
        None => {
            if has_last_message && file_size > 100 {
                let chars = crate::text::chars_of(session_id);
                let keep = if chars.len() >= 8 {
                    8
                } else {
                    chars.len()
                };
                let short = crate::text::slice_chars(&chars, 0, keep);
                assert(short@ =~= short_id(session_id@));
                let mut label = String::from_str("Resumed Session (");
                label.append(crate::text::string_from_chars(&short).as_str());
                label.append("...)");
                Some(label)
            } else {
                None
            }
        },
    }
}

/// `s` with every pair of backslashes, taken from the left, made one.
pub open spec fn collapsed(s: Seq<char>) -> Seq<char>
    decreases s.len(),
{
    if s.len() == 0 {
        s
    } else if s.len() >= 2 && s[0] == '\\' && s[1] == '\\' {
        seq!['\\'] + collapsed(s.skip(2))
    } else {
        seq![s[0]] + collapsed(s.skip(1))
    }
}

/// Makes one backslash of every pair of backslashes.
pub fn collapse_backslashes(s: &str) -> (r: String)
    ensures
        r@ == collapsed(s@),
{
    let chars = crate::text::chars_of(s);
    let mut out: Vec<char> = Vec::new();
    let mut i: usize = 0;
    assert(chars@.skip(0) =~= chars@);
    assert(out@ + collapsed(chars@) =~= collapsed(chars@));
    while i < chars.len()
        invariant
            i <= chars@.len(),
            chars@ == s@,
            out@ + collapsed(chars@.skip(i as int)) == collapsed(s@),
        decreases chars@.len() - i,
    {
        let ghost rest = chars@.skip(i as int);
        let ghost before = out@;
        proof {
            assert(rest[0] == chars@[i as int]);
            if rest.len() >= 2 {
                assert(rest[1] == chars@[i + 1]);
            }
            assert(rest.skip(1) =~= chars@.skip(i + 1));
            if rest.len() >= 2 {
                assert(rest.skip(2) =~= chars@.skip(i + 2));
            }
        }
        if chars[i] == '\\' && i + 1 < chars.len() && chars[i + 1] == '\\' {
            out.push('\\');
            assert(out@ + collapsed(chars@.skip(i + 2)) =~= before + (seq!['\\'] + collapsed(
                rest.skip(2),
            )));
            i += 2;
        } else {
            out.push(chars[i]);
            assert(out@ + collapsed(chars@.skip(i + 1)) =~= before + (seq![rest[0]] + collapsed(
                rest.skip(1),
            )));
            i += 1;
        }
    }
    assert(chars@.skip(i as int) =~= Seq::<char>::empty());
    assert(out@ + Seq::<char>::empty() =~= out@);
    crate::text::string_from_chars(&out)
}

/// The working directory a line of a session file names: the line is JSON with a text
/// under `cwd`.
pub open spec fn cwd_of(line: Seq<char>) -> Option<Seq<char>> {
    match json_parse(line) {
        Some(value) => text_member(value, "cwd"@),
        None => None,
    }
}

/// The working directory that the first of the lines to name one names.
pub open spec fn first_cwd(lines: Seq<Seq<char>>) -> Option<Seq<char>>
    decreases lines.len(),
{
    if lines.len() == 0 {
        None
    } else {
        match cwd_of(lines.first()) {
            Some(cwd) => Some(cwd),
            None => first_cwd(lines.drop_first()),
        }
    }
}

/// How many lines of a session file are looked at for the working directory.
pub const CWD_LINES: usize = 10;

/// The path of the project that a session file belongs to: the working directory named
/// in its first lines, pairs of backslashes made one.
pub open spec fn project_path_in(lines: Seq<Seq<char>>) -> Option<Seq<char>> {
    let head = if lines.len() > CWD_LINES {
        lines.take(CWD_LINES as int)
    } else {
        lines
    };
    match first_cwd(head) {
        Some(cwd) => Some(collapsed(cwd)),
        None => None,
    }
}

/// Reads the path of the project from the lines of one of its session files.
pub fn project_path_from_lines(lines: &Vec<String>) -> (r: Option<String>)
    ensures
        r.deep_view() == project_path_in(lines.deep_view()),
{
    let n = if lines.len() > CWD_LINES {
        CWD_LINES
    } else {
        lines.len()
    };
    let ghost head = if lines.deep_view().len() > CWD_LINES {
        lines.deep_view().take(CWD_LINES as int)
    } else {
        lines.deep_view()
    };
    assert(head =~= lines.deep_view().take(n as int));
    let mut i: usize = 0;
    assert(head.skip(0) =~= head);
    while i < n
        invariant
            i <= n <= lines@.len(),
            head == lines.deep_view().take(n as int),
            project_path_in(lines.deep_view()) == (match first_cwd(head) {
                Some(cwd) => Some(collapsed(cwd)),
                None => None,
            }),
            first_cwd(head) == first_cwd(head.skip(i as int)),
        decreases n - i,
    {
        proof {
            let rest = head.skip(i as int);
            assert(rest.first() == lines@[i as int]@);
            assert(rest.drop_first() =~= head.skip(i + 1));
        }
        let found = match parse_value(lines[i].as_str()) {
            Some(value) => read_text(&value, "cwd"),
            None => None,
        };
        match found {
            Some(cwd) => {
                assert(first_cwd(head.skip(i as int)) == Some(cwd@));
                return Some(collapse_backslashes(cwd.as_str()));
            },
            None => {
                assert(first_cwd(head.skip(i as int)) == first_cwd(head.skip(i + 1)));
            },
        }
        i += 1;
    }
    assert(head.skip(n as int) =~= Seq::<Seq<char>>::empty());
    None
}

/// The message for a project whose directory was not found. An id with a double hyphen
/// but no triple one may stem from another way of encoding paths, and the message says
/// so; otherwise it shows the path that was looked for.
pub open spec fn missing_message(project_id: Seq<char>, shown_path: Seq<char>) -> Seq<char> {
    if has_substring(project_id, "--"@) && !has_substring(project_id, "---"@) {
        "项目目录不存在。可能已被手动删除，或使用了不同的编码格式。原始ID: "@ + project_id
    } else {
        "项目目录不存在: "@ + shown_path
    }
}

/// Words the message for a project whose directory was not found.
pub fn missing_project_message(project_id: &str, shown_path: &str) -> (r: String)
    ensures
        r@ == missing_message(project_id@, shown_path@),
{
    if contains(project_id, "--") && !contains(project_id, "---") {
        let mut message = String::from_str("项目目录不存在。可能已被手动删除，或使用了不同的编码格式。原始ID: ");
        message.append(project_id);
        message
    } else {
        let mut message = String::from_str("项目目录不存在: ");
        message.append(shown_path);
        message
    }
}

/// The hidden list that is in force for the given project directories: the stored one,
/// unless it names more projects than there are directories, in which case it is taken
/// for corrupt and nothing is hidden.
pub open spec fn hidden_in_force(hidden: Seq<Seq<char>>, dirs: Seq<Seq<char>>) -> Seq<Seq<char>> {
    if dirs.len() > 0 && hidden.len() > dirs.len() {
        Seq::empty()
    } else {
        hidden
    }
}

/// The project directories that are listed: those that the hidden list in force does not
/// name, in the order given.
pub open spec fn visible(dirs: Seq<Seq<char>>, hidden: Seq<Seq<char>>) -> Seq<Seq<char>> {
    dirs.filter(not_among(hidden_in_force(hidden, dirs)))
}

impl ProjectStore {
    /// Says which of the project directories on disk are listed. A hidden list that is
    /// taken for corrupt is cleared first; the flag says whether it was, so that the
    /// caller writes the cleared list back.
    pub fn visible_projects(&mut self, dirs: &Vec<String>) -> (r: (Vec<String>, bool))
        ensures
            final(self).directory() == old(self).directory(),
            final(self).hidden() == hidden_in_force(old(self).hidden(), dirs.deep_view()),
            r.0.deep_view() == visible(dirs.deep_view(), old(self).hidden()),
            r.1 == (dirs.deep_view().len() > 0 && old(self).hidden().len() > dirs.deep_view().len()),
    {
        let reset = hidden_list_is_corrupt(self.hidden_projects.len(), dirs.len());
        if reset {
            self.hidden_projects = Vec::new();
            assert(self.hidden_projects.deep_view() =~= Seq::<Seq<char>>::empty());
        }
        let ghost keep = not_among(self.hidden_projects.deep_view());
        let mut out: Vec<String> = Vec::new();
        let mut i: usize = 0;
        assert(dirs.deep_view().take(0) =~= Seq::<Seq<char>>::empty());
        assert(out.deep_view() =~= Seq::<Seq<char>>::empty());
        proof {
            reveal(Seq::filter);
        }
        while i < dirs.len()
            invariant
                i <= dirs@.len(),
                keep == not_among(self.hidden_projects.deep_view()),
                out.deep_view() == dirs.deep_view().take(i as int).filter(keep),
            decreases dirs@.len() - i,
        {
            proof {
                reveal(Seq::filter);
                let upto = dirs.deep_view().take(i + 1);
                assert(upto.drop_last() =~= dirs.deep_view().take(i as int));
                assert(upto.last() == dirs@[i as int]@);
            }
            if !contains_string(&self.hidden_projects, dirs[i].as_str()) {
                push_string(&mut out, dirs[i].clone());
            }
            i += 1;
        }
        assert(dirs.deep_view().take(i as int) =~= dirs.deep_view());
        (out, reset)
    }
}

/// A hidden project is not listed, and a listed project is not hidden: unless the hidden
/// list was taken for corrupt, the listed directories are exactly those on disk that the
/// list does not name.
pub proof fn lemma_hidden_is_not_listed(dirs: Seq<Seq<char>>, hidden: Seq<Seq<char>>, name: Seq<char>)
    requires
        !(dirs.len() > 0 && hidden.len() > dirs.len()),
    ensures
        visible(dirs, hidden).contains(name) <==> dirs.contains(name) && !hidden.contains(name),
{
    let keep = not_among(hidden);
    let listed = visible(dirs, hidden);
    assert(listed == dirs.filter(keep));
    if listed.contains(name) {
        let k = choose|k: int| 0 <= k < listed.len() && listed[k] == name;
        dirs.lemma_filter_pred(keep, k);
        dirs.lemma_filter_contains_rev(keep, name);
    }
    if dirs.contains(name) && !hidden.contains(name) {
        let k = choose|k: int| 0 <= k < dirs.len() && dirs[k] == name;
        assert(keep(dirs[k]));
        dirs.lemma_filter_contains(keep, k);
    }
}

} // verus!
