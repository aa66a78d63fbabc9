//! Installations of a driver executable that were found on the machine, and the choice
//! among them.
//!
//! Finding installations means looking at the file system and running programs; that is
//! the caller's part. Here they are ranked: by version, newest first, then by how much the
//! way they were found is trusted.

use crate::text::{contains, has_prefix, has_substring, starts_with};
use crate::version::{rank_of, rank_versions, version_numbers, Rank};
use vstd::prelude::*;
use vstd::string::*;

verus! {

/// How an installation came to be on the machine.
#[derive(Clone, Copy, Debug, PartialEq, Eq, Structural)]
pub enum InstallationType {
    /// Shipped with the application.
    Bundled,
    /// Installed on the system.
    System,
    /// A path the user gave.
    Custom,
}

/// One installation of the driver with what is known about it.
#[derive(Debug)]
pub struct ClaudeInstallation {
    /// The full path of the executable, or the bare command name where it was found
    /// through `PATH` only.
    pub path: String,
    /// The version the executable reports, where it could be asked.
    pub version: Option<String>,
    /// How the installation was found, such as `nvm`, `system`, `homebrew`, `where`.
    pub source: String,
    pub installation_type: InstallationType,
}

/// View of [`ClaudeInstallation`].
pub struct InstallationView {
    pub path: Seq<char>,
    pub version: Option<Seq<char>>,
    pub source: Seq<char>,
    pub installation_type: InstallationType,
}

impl View for ClaudeInstallation {
    type V = InstallationView;

    open spec fn view(&self) -> InstallationView {
        InstallationView {
            path: self.path@,
            version: self.version.deep_view(),
            source: self.source@,
            installation_type: self.installation_type,
        }
    }
}

impl DeepView for ClaudeInstallation {
    type V = InstallationView;

    open spec fn deep_view(&self) -> InstallationView {
        self@
    }
}

impl Clone for ClaudeInstallation {
    fn clone(&self) -> (r: Self)
        ensures
            r@ == self@,
    {
        ClaudeInstallation {
            path: self.path.clone(),
            version: self.version.clone(),
            source: self.source.clone(),
            installation_type: self.installation_type,
        }
    }
}

/// An installation with the priority of the place it was looked for in; a smaller number
/// is a higher priority.
#[derive(Debug)]
pub struct PrioritizedInstallation {
    pub priority: u8,
    pub installation: ClaudeInstallation,
}

/// View of [`PrioritizedInstallation`].
pub struct PrioritizedView {
    pub priority: u8,
    pub installation: InstallationView,
}

impl View for PrioritizedInstallation {
    type V = PrioritizedView;

    open spec fn view(&self) -> PrioritizedView {
        PrioritizedView { priority: self.priority, installation: self.installation@ }
    }
}

impl DeepView for PrioritizedInstallation {
    type V = PrioritizedView;

    open spec fn deep_view(&self) -> PrioritizedView {
        self@
    }
}

/// How the version of one installation stands to that of another. A known version ranks
/// above an unknown one.
pub open spec fn version_rank(a: Option<Seq<char>>, b: Option<Seq<char>>) -> Rank {
    match (a, b) {
        (Some(x), Some(y)) => rank_of(version_numbers(x), version_numbers(y)),
        (Some(_), None) => Rank::Higher,
        (None, Some(_)) => Rank::Lower,
        (None, None) => Rank::Same,
    }
}

/// Ranks the versions of two installations.
pub fn rank_known_versions(a: &Option<String>, b: &Option<String>) -> (r: Rank)
    ensures
        r == version_rank(a.deep_view(), b.deep_view()),
{
    match (a, b) {
        (Some(x), Some(y)) => rank_versions(x.as_str(), y.as_str()),
        (Some(_), None) => Rank::Higher,
        (None, Some(_)) => Rank::Lower,
        (None, None) => Rank::Same,
    }
}

/// How much the way an installation was found is trusted when a list is drawn up; lower
/// is better. `tool` is the command name of the driver: an installation in the driver's
/// own directory has the source `tool` followed by `-local`.
pub open spec fn source_score(source: Seq<char>, tool: Seq<char>) -> u8 {
    if source == "where"@ {
        1
    } else if source == "homebrew"@ {
        2
    } else if source == "system"@ {
        3
    } else if has_prefix(source, "nvm"@) {
        4
    } else if source == "local-bin"@ {
        5
    } else if source == tool + "-local"@ {
        6
    } else if source == "npm-global"@ {
        7
    } else if source == "yarn"@ || source == "yarn-global"@ {
        8
    } else if source == "bun"@ {
        9
    } else if source == "node-modules"@ {
        10
    } else if source == "home-bin"@ {
        11
    } else if source == "PATH"@ {
        12
    } else {
        13
    }
}

/// Scores the source of an installation, see [`source_score`].
pub fn source_preference(installation: &ClaudeInstallation, tool: &str) -> (r: u8)
    ensures
        r == source_score(installation.source@, tool@),
{
    let source = installation.source.as_str();
    let mut local = String::from_str(tool);
    local.append("-local");
    if *source == *"where" {
        1
    } else if *source == *"homebrew" {
        2
    } else if *source == *"system" {
        3
    } else if starts_with(source, "nvm") {
        4
    } else if *source == *"local-bin" {
        5
    } else if *source == *local.as_str() {
        6
    } else if *source == *"npm-global" {
        7
    } else if *source == *"yarn" || *source == *"yarn-global" {
        8
    } else if *source == *"bun" {
        9
    } else if *source == *"node-modules" {
        10
    } else if *source == *"home-bin" {
        11
    } else if *source == *"PATH" {
        12
    } else {
        13
    }
}

/// In a list of installations, `a` stands before `b`: its version is newer, or the
/// versions rank the same and its source is trusted more.
pub open spec fn listed_before(a: InstallationView, b: InstallationView, tool: Seq<char>) -> bool {
    match version_rank(a.version, b.version) {
        Rank::Higher => true,
        Rank::Same => source_score(a.source, tool) < source_score(b.source, tool),
        Rank::Lower => false,
    }
}

/// Decides [`listed_before`].
pub fn is_listed_before(a: &ClaudeInstallation, b: &ClaudeInstallation, tool: &str) -> (r: bool)
    ensures
        r == listed_before(a@, b@, tool@),
{
    match rank_known_versions(&a.version, &b.version) {
        Rank::Higher => true,
        Rank::Same => source_preference(a, tool) < source_preference(b, tool),
        Rank::Lower => false,
    }
}

/// [`listed_before`] as a function value.
pub open spec fn in_listing(tool: Seq<char>) -> spec_fn(InstallationView, InstallationView) -> bool {
    |a: InstallationView, b: InstallationView| listed_before(a, b, tool)
}

/// The installations in listing order: newest version first, an unknown version last,
/// equal versions by source score; installations that rank the same keep the order they
/// were found in.
pub open spec fn listing(found: Seq<InstallationView>, tool: Seq<char>) -> Seq<InstallationView> {
    crate::choice::arranged(found, in_listing(tool))
}

/// The order of a listing ranks installations into tiers.
pub proof fn lemma_listing_tiers(tool: Seq<char>)
    ensures
        crate::choice::ranks_in_tiers(in_listing(tool)),
{
    let before = in_listing(tool);
    assert forall|a: InstallationView, b: InstallationView| #[trigger] before(a, b) implies !before(
        b,
        a,
    ) by {
        lemma_version_rank_tiers(a.version, b.version, None);
    }
    assert forall|a: InstallationView, b: InstallationView, c: InstallationView|
        #![trigger before(b, a), before(c, b)]
        !before(b, a) && !before(c, b) implies !before(c, a) by {
        lemma_version_rank_tiers(a.version, b.version, c.version);
        lemma_version_rank_tiers(b.version, c.version, a.version);
        lemma_version_rank_tiers(c.version, a.version, b.version);
    }
}

/// The listing is in listing order, nothing in it standing before an entry that precedes
/// it, and it holds exactly the installations that were found, each as often as it was
/// found.
pub proof fn lemma_listing_is_sorted(found: Seq<InstallationView>, tool: Seq<char>)
    ensures
        crate::choice::in_order(listing(found, tool), in_listing(tool)),
        listing(found, tool).len() == found.len(),
        listing(found, tool).to_multiset() == found.to_multiset(),
{
    lemma_listing_tiers(tool);
    crate::choice::lemma_arranged_is_sorted(found, in_listing(tool));
}

/// Draws up the list of the installations that were found, best first.
///
/// The list is in listing order, see [`listing`]: nothing in it stands before an entry
/// that precedes it, and it holds what was found, no more and no less, as
/// [`lemma_listing_is_sorted`] shows.
pub fn discover_claude_installations(found: Vec<ClaudeInstallation>, tool: &str) -> (r: Vec<
    ClaudeInstallation,
>)
    ensures
        r.deep_view() == listing(found.deep_view(), tool@),
{
    let mut out: Vec<ClaudeInstallation> = Vec::new();
    let mut i: usize = 0;
    assert(found.deep_view().take(0) =~= Seq::<InstallationView>::empty());
    assert(out.deep_view() =~= Seq::<InstallationView>::empty());
    while i < found.len()
        invariant
            i <= found@.len(),
            out.deep_view() == listing(found.deep_view().take(i as int), tool@),
        decreases found@.len() - i,
    {
        let ghost before_fn = in_listing(tool@);
        let x = found[i].clone();
        let mut at: usize = out.len();
        while at > 0 && is_listed_before(&x, &out[at - 1], tool)
            invariant
                at <= out@.len(),
                forall|k: int| at <= k < out@.len() ==> listed_before(x@, #[trigger] out@[k]@, tool@),
            decreases at,
        {
            at -= 1;
        }
        let ghost before = out.deep_view();
        proof {
            assert forall|k: int| at <= k < before.len() implies listed_before(
                x@,
                #[trigger] before[k],
                tool@,
            ) by {
                assert(before[k] == out@[k]@);
            }
            if at > 0 {
                assert(before[at - 1] == out@[at - 1]@);
            }
            assert forall|k: int| at <= k < before.len() implies before_fn(
                x@,
                #[trigger] before[k],
            ) by {}
            crate::choice::lemma_inserted_at(before, x@, before_fn, at as int);
            let upto = found.deep_view().take(i + 1);
            assert(upto.drop_last() =~= found.deep_view().take(i as int));
            assert(upto.last() == found@[i as int]@);
        }
        out.insert(at, x);
        assert(out.deep_view() =~= before.insert(at as int, x@));
        i += 1;
    }
    assert(found.deep_view().take(i as int) =~= found.deep_view());
    out
}

/// Among candidates for launching, `a` is preferred to `b`: the place it was looked for
/// in has the higher priority, or the same and its version is newer.
pub open spec fn preferred(a: PrioritizedView, b: PrioritizedView) -> bool {
    a.priority < b.priority || (a.priority == b.priority && version_rank(
        a.installation.version,
        b.installation.version,
    ) == Rank::Higher)
}

/// [`preferred`] as a function value.
pub open spec fn by_priority() -> spec_fn(PrioritizedView, PrioritizedView) -> bool {
    |a: PrioritizedView, b: PrioritizedView| preferred(a, b)
}

/// Version ranks form tiers: a higher rank is one way only, and not ranking higher
/// carries over.
pub proof fn lemma_version_rank_tiers(
    a: Option<Seq<char>>,
    b: Option<Seq<char>>,
    c: Option<Seq<char>>,
)
    ensures
        version_rank(a, b) == Rank::Higher <==> version_rank(b, a) == Rank::Lower,
        version_rank(a, b) == Rank::Same <==> version_rank(b, a) == Rank::Same,
        version_rank(b, a) != Rank::Higher && version_rank(c, b) != Rank::Higher ==> version_rank(
            c,
            a,
        ) != Rank::Higher,
        version_rank(b, a) == Rank::Same && version_rank(c, b) == Rank::Same ==> version_rank(c, a)
            == Rank::Same,
{
    match (a, b) {
        (Some(x), Some(y)) => {
            crate::version::lemma_rank_is_total(version_numbers(x), version_numbers(y));
            crate::version::lemma_rank_is_total(version_numbers(y), version_numbers(x));
        },
        _ => {},
    }
    match (a, b, c) {
        (Some(x), Some(y), Some(z)) => {
            let nx = version_numbers(x);
            let ny = version_numbers(y);
            let nz = version_numbers(z);
            crate::version::lemma_rank_is_total(nx, ny);
            crate::version::lemma_rank_is_total(ny, nz);
            crate::version::lemma_rank_is_total(nx, nz);
            crate::version::lemma_rank_is_total(nz, nx);
            crate::version::lemma_rank_is_total(ny, nx);
            crate::version::lemma_rank_is_total(nz, ny);
            if !crate::version::older(nx, ny) && !crate::version::older(ny, nz) {
                crate::version::lemma_not_older_is_transitive(nz, ny, nx);
            }
            if !crate::version::older(ny, nx) && !crate::version::older(nz, ny) {
                crate::version::lemma_not_older_is_transitive(nx, ny, nz);
            }
        },
        _ => {},
    }
}

/// The preference among candidates for launching ranks them into tiers.
pub proof fn lemma_priority_tiers()
    ensures
        crate::choice::ranks_in_tiers(by_priority()),
{
    let better = by_priority();
    assert forall|a: PrioritizedView, b: PrioritizedView| #[trigger] better(a, b) implies !better(
        b,
        a,
    ) by {
        lemma_version_rank_tiers(a.installation.version, b.installation.version, None);
    }
    assert forall|a: PrioritizedView, b: PrioritizedView, c: PrioritizedView|
        #![trigger better(b, a), better(c, b)]
        !better(b, a) && !better(c, b) implies !better(c, a) by {
        lemma_version_rank_tiers(
            a.installation.version,
            b.installation.version,
            c.installation.version,
        );
        lemma_version_rank_tiers(
            b.installation.version,
            c.installation.version,
            a.installation.version,
        );
    }
}

/// The candidate to launch: the first of those that none is preferred to.
pub open spec fn best_by_priority(candidates: Seq<PrioritizedView>) -> Option<InstallationView> {
    if candidates.len() == 0 {
        None
    } else {
        Some(candidates[crate::choice::first_best(candidates, by_priority())].installation)
    }
}

/// Decides [`preferred`].
pub fn is_preferred(a: &PrioritizedInstallation, b: &PrioritizedInstallation) -> (r: bool)
    ensures
        r == preferred(a@, b@),
{
    if a.priority < b.priority {
        true
    } else if a.priority == b.priority {
        match rank_known_versions(&a.installation.version, &b.installation.version) {
            Rank::Higher => true,
            _ => false,
        }
    } else {
        false
    }
}

/// Selects the candidate to launch: by priority of the place it was looked for in, then
/// by version, newest first; of equals, the one that was found first. `None` only for an
/// empty list.
pub fn select_best_with_priority(installations: Vec<PrioritizedInstallation>) -> (r: Option<
    ClaudeInstallation,
>)
    ensures
        r.deep_view() == best_by_priority(installations.deep_view()),
{
    if installations.len() == 0 {
        return None;
    }
    let ghost all = installations.deep_view();
    let ghost better = by_priority();
    let mut best: usize = 0;
    let mut i: usize = 1;
    assert(all.take(1).len() == 1);
    while i < installations.len()
        invariant
            1 <= i <= installations@.len(),
            all == installations.deep_view(),
            better == by_priority(),
            best < i,
            best == crate::choice::first_best(all.take(i as int), better),
        decreases installations@.len() - i,
    {
        proof {
            let upto = all.take(i + 1);
            assert(upto.drop_last() =~= all.take(i as int));
            assert(upto.last() == installations@[i as int]@);
            assert(upto[best as int] == installations@[best as int]@);
        }
        if is_preferred(&installations[i], &installations[best]) {
            best = i;
        }
        i += 1;
    }
    assert(all.take(i as int) =~= all);
    let mut installations = installations;
    let chosen = installations.remove(best);
    Some(chosen.installation)
}

/// How much a source is trusted when neither of two installations reports a version; lower
/// is better.
pub open spec fn fallback_score(source: Seq<char>) -> u8 {
    if has_substring(source, "npm-global"@) || has_substring(source, "npm-prefix"@) {
        1
    } else if has_substring(source, "local-bin"@) {
        2
    } else if has_substring(source, "homebrew"@) {
        3
    } else if has_prefix(source, "nvm"@) {
        4
    } else if source == "which"@ || source == "where"@ {
        5
    } else if source == "PATH"@ {
        6
    } else {
        10
    }
}

/// Computes [`fallback_score`].
pub fn fallback_priority(source: &str) -> (r: u8)
    ensures
        r == fallback_score(source@),
{
    if contains(source, "npm-global") || contains(source, "npm-prefix") {
        1
    } else if contains(source, "local-bin") {
        2
    } else if contains(source, "homebrew") {
        3
    } else if starts_with(source, "nvm") {
        4
    } else if *source == *"which" || *source == *"where" {
        5
    } else if *source == *"PATH" {
        6
    } else {
        10
    }
}

/// For selecting one installation, `a` outranks `b`: its version is newer, a known
/// version outranking an unknown one; where neither is known, its source is trusted
/// more, and of equally trusted sources a full path outranks the bare command name.
pub open spec fn outranks(a: InstallationView, b: InstallationView, command: Seq<char>) -> bool {
    match (a.version, b.version) {
        (None, None) => {
            ||| fallback_score(a.source) < fallback_score(b.source)
            ||| (fallback_score(a.source) == fallback_score(b.source) && a.path != command
                && b.path == command)
        },
        _ => version_rank(a.version, b.version) == Rank::Higher,
    }
}

/// [`outranks`] as a function value.
pub open spec fn by_rank(command: Seq<char>) -> spec_fn(InstallationView, InstallationView) -> bool {
    |a: InstallationView, b: InstallationView| outranks(a, b, command)
}

/// Outranking ranks installations into tiers.
pub proof fn lemma_rank_tiers(command: Seq<char>)
    ensures
        crate::choice::ranks_in_tiers(by_rank(command)),
{
    let better = by_rank(command);
    assert forall|a: InstallationView, b: InstallationView| #[trigger] better(a, b) implies !better(
        b,
        a,
    ) by {
        lemma_version_rank_tiers(a.version, b.version, None);
    }
    assert forall|a: InstallationView, b: InstallationView, c: InstallationView|
        #![trigger better(b, a), better(c, b)]
        !better(b, a) && !better(c, b) implies !better(c, a) by {
        lemma_version_rank_tiers(a.version, b.version, c.version);
        lemma_version_rank_tiers(b.version, c.version, a.version);
    }
}

/// The installation to use: the last of those that none outranks.
pub open spec fn best_by_rank(found: Seq<InstallationView>, command: Seq<char>) -> Option<
    InstallationView,
> {
    if found.len() == 0 {
        None
    } else {
        Some(found[crate::choice::last_best(found, by_rank(command))])
    }
}

/// Decides [`outranks`].
pub fn is_outranking(a: &ClaudeInstallation, b: &ClaudeInstallation, command: &str) -> (r: bool)
    ensures
        r == outranks(a@, b@, command@),
{
    match (&a.version, &b.version) {
        (None, None) => {
            let x = fallback_priority(a.source.as_str());
            let y = fallback_priority(b.source.as_str());
            x < y || (x == y && !(*a.path.as_str() == *command) && *b.path.as_str() == *command)
        },
        _ => match rank_known_versions(&a.version, &b.version) {
            Rank::Higher => true,
            _ => false,
        },
    }
}

/// Selects the installation to use: the newest version, an installation that reports a
/// version before one that does not; by source where no version is known; of equals, the
/// one that was found last. `command` is the bare command name of the driver. `None`
/// only for an empty list.
pub fn select_best_installation(installations: Vec<ClaudeInstallation>, command: &str) -> (r:
    Option<ClaudeInstallation>)
    ensures
        r.deep_view() == best_by_rank(installations.deep_view(), command@),
{
    if installations.len() == 0 {
        return None;
    }
    let ghost all = installations.deep_view();
    let ghost better = by_rank(command@);
    let mut best: usize = 0;
    let mut i: usize = 1;
    assert(all.take(1).len() == 1);
    while i < installations.len()
        invariant
            1 <= i <= installations@.len(),
            all == installations.deep_view(),
            better == by_rank(command@),
            best < i,
            best == crate::choice::last_best(all.take(i as int), better),
        decreases installations@.len() - i,
    {
        proof {
            let upto = all.take(i + 1);
            assert(upto.drop_last() =~= all.take(i as int));
            assert(upto.last() == installations@[i as int]@);
            assert(upto[best as int] == installations@[best as int]@);
        }
        if !is_outranking(&installations[best], &installations[i], command) {
            best = i;
        }
        i += 1;
    }
    assert(all.take(i as int) =~= all);
    let mut installations = installations;
    Some(installations.remove(best))
}

/// The paths of installations.
pub open spec fn paths_of(found: Seq<InstallationView>) -> Seq<Seq<char>> {
    found.map_values(|i: InstallationView| i.path)
}

/// The installations with each path only where it occurs first.
pub open spec fn one_per_path(found: Seq<InstallationView>) -> Seq<InstallationView>
    decreases found.len(),
{
    if found.len() == 0 {
        Seq::empty()
    } else {
        let earlier = one_per_path(found.drop_last());
        if paths_of(earlier).contains(found.last().path) {
            earlier
        } else {
            earlier.push(found.last())
        }
    }
}

/// Drops the installations whose path was found before.
pub fn dedupe_by_path(found: &Vec<ClaudeInstallation>) -> (r: Vec<ClaudeInstallation>)
    ensures
        r.deep_view() == one_per_path(found.deep_view()),
{
    let mut out: Vec<ClaudeInstallation> = Vec::new();
    let mut i: usize = 0;
    assert(found.deep_view().take(0) =~= Seq::<InstallationView>::empty());
    assert(out.deep_view() =~= Seq::<InstallationView>::empty());
    while i < found.len()
        invariant
            i <= found@.len(),
            out.deep_view() == one_per_path(found.deep_view().take(i as int)),
        decreases found@.len() - i,
    {
        proof {
            let upto = found.deep_view().take(i + 1);
            assert(upto.drop_last() =~= found.deep_view().take(i as int));
            assert(upto.last() == found@[i as int]@);
        }
        let ghost paths = paths_of(out.deep_view());
        let mut seen = false;
        let mut k: usize = 0;
        while k < out.len()
            invariant
                k <= out@.len(),
                i < found@.len(),
                paths == paths_of(out.deep_view()),
                seen == exists|m: int| 0 <= m < k && paths[m] == found@[i as int].path@,
            decreases out@.len() - k,
        {
            assert(paths[k as int] == out@[k as int].path@);
            if *out[k].path.as_str() == *found[i].path.as_str() {
                seen = true;
            }
            k += 1;
        }
        proof {
            if paths.contains(found@[i as int].path@) {
                let m = choose|m: int| 0 <= m < paths.len() && paths[m] == found@[i as int].path@;
                assert(0 <= m < k && paths[m] == found@[i as int].path@);
            }
        }
        if !seen {
            let ghost before = out.deep_view();
            out.push(found[i].clone());
            assert(out.deep_view() =~= before.push(found@[i as int]@));
        }
        i += 1;
    }
    assert(found.deep_view().take(i as int) =~= found.deep_view());
    out
}

} // verus!
