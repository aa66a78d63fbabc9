//! The session registry: bookkeeping for every run of every tool kind.
//!
//! A run is registered under a fresh run id when its process is launched, promoted once
//! the child has announced its session id, collects the child's output lines while it is
//! registered, takes exactly one terminal status, and is removed afterwards.
//!
//! The registry is plain data: callers that share it between tasks put it behind their own
//! lock and call one method per critical section.

use crate::run::{
    LaunchInfo, LaunchInfoView, Outcome, OutcomeView, RunId, RunRecord, RunRecordView, RunStatus,
    RunStatusView, ToolKind,
};
use vstd::prelude::*;
use vstd::string::*;

verus! {

/// Why a registry operation was refused.
#[derive(Clone, Copy, Debug, PartialEq, Eq, Structural)]
pub enum RegistryError {
    /// No further run id can be allocated.
    StorageExhausted,
    /// No run with that id is registered.
    UnknownRun,
    /// The run already carries a different session id.
    AlreadyPromoted,
    /// Another registered run carries that session id.
    SessionInUse,
    /// The run reached a terminal status before it announced a session.
    NotActive,
}

/// What an attempt to record a terminal status found.
#[derive(Clone, Copy, Debug, PartialEq, Eq, Structural)]
pub enum Transition {
    /// The run was active and now carries the given terminal status.
    Applied,
    /// The run already carried a terminal status, which was left as it was.
    AlreadyTerminal,
    /// No run with that id is registered.
    UnknownRun,
}

/// The registry as a mathematical value: the registered runs by run id, and the id the
/// next registration will get.
pub struct RegistryView {
    pub runs: Map<RunId, RunRecordView>,
    pub next_run_id: RunId,
}

impl RegistryView {
    /// Run `id` is registered and carries session id `sid`.
    pub open spec fn holds(self, id: RunId, sid: Seq<char>) -> bool {
        self.runs.dom().contains(id) && self.runs[id].session_id == Some(sid)
    }

    /// Some registered run carries session id `sid`.
    pub open spec fn session_known(self, sid: Seq<char>) -> bool {
        exists|id: RunId| self.holds(id, sid)
    }

    /// The record that carries session id `sid`, if any.
    pub open spec fn by_session(self, sid: Seq<char>) -> Option<RunRecordView> {
        if self.session_known(sid) {
            Some(self.runs[choose|id: RunId| self.holds(id, sid)])
        } else {
            None
        }
    }

    /// Every record sits under its own id, ids are below the next one to be handed out,
    /// no two runs share a session id, and each record is coherent.
    pub open spec fn wf(self) -> bool {
        &&& forall|id: RunId| #[trigger]
            self.runs.dom().contains(id) ==> {
                &&& self.runs[id].run_id == id
                &&& id < self.next_run_id
                &&& self.runs[id].coherent()
            }
        &&& forall|a: RunId, b: RunId, sid: Seq<char>|
            #![trigger self.holds(a, sid), self.holds(b, sid)]
            self.holds(a, sid) && self.holds(b, sid) ==> a == b
    }

    /// A further run id can be allocated.
    pub open spec fn can_register(self) -> bool {
        self.next_run_id < u64::MAX
    }

    /// The registry after a launch has been registered.
    pub open spec fn registered(self, launch: LaunchInfoView) -> RegistryView {
        RegistryView {
            runs: self.runs.insert(
                self.next_run_id,
                RunRecordView::fresh(self.next_run_id, launch),
            ),
            next_run_id: (self.next_run_id + 1) as RunId,
        }
    }

    /// Whether run `id` may take session id `sid`, and if not, why.
    pub open spec fn promotion(self, id: RunId, sid: Seq<char>) -> Result<(), RegistryError> {
        if !self.runs.dom().contains(id) {
            Err(RegistryError::UnknownRun)
        } else if self.runs[id].session_id is Some {
            if self.runs[id].session_id == Some(sid) {
                Ok(())
            } else {
                Err(RegistryError::AlreadyPromoted)
            }
        } else if !(self.runs[id].status is Starting) {
            Err(RegistryError::NotActive)
        } else if self.session_known(sid) {
            Err(RegistryError::SessionInUse)
        } else {
            Ok(())
        }
    }

    /// The registry after run `id` was asked to take session id `sid`.
    pub open spec fn promoted(self, id: RunId, sid: Seq<char>) -> RegistryView {
        if self.promotion(id, sid) is Ok && self.runs[id].session_id is None {
            RegistryView {
                runs: self.runs.insert(
                    id,
                    RunRecordView {
                        session_id: Some(sid),
                        status: RunStatusView::Running,
                        ..self.runs[id]
                    },
                ),
                ..self
            }
        } else {
            self
        }
    }

    /// The registry after `line` was appended to the output of run `id`.
    pub open spec fn appended(self, id: RunId, line: Seq<char>) -> RegistryView {
        if self.runs.dom().contains(id) {
            RegistryView {
                runs: self.runs.insert(
                    id,
                    RunRecordView {
                        live_output: self.runs[id].live_output.push(line),
                        ..self.runs[id]
                    },
                ),
                ..self
            }
        } else {
            self
        }
    }

    /// What recording a terminal status for run `id` finds.
    pub open spec fn transition(self, id: RunId) -> Transition {
        if !self.runs.dom().contains(id) {
            Transition::UnknownRun
        } else if self.runs[id].is_active() {
            Transition::Applied
        } else {
            Transition::AlreadyTerminal
        }
    }

    /// The registry after `outcome` was reported for run `id`.
    pub open spec fn finished(self, id: RunId, outcome: OutcomeView) -> RegistryView {
        if self.transition(id) == Transition::Applied {
            RegistryView {
                runs: self.runs.insert(
                    id,
                    RunRecordView { status: outcome.status(), ..self.runs[id] },
                ),
                ..self
            }
        } else {
            self
        }
    }

    /// The registry after run `id` was removed.
    pub open spec fn deregistered(self, id: RunId) -> RegistryView {
        RegistryView { runs: self.runs.remove(id), ..self }
    }

    /// Run `id` is registered, belongs to `kind` and has no terminal status.
    pub open spec fn lists(self, kind: ToolKind, id: RunId) -> bool {
        &&& self.runs.dom().contains(id)
        &&& self.runs[id].tool_kind == kind
        &&& self.runs[id].is_active()
    }

    /// The buffered output of run `id` as one text, each line followed by a line feed;
    /// empty for an unknown run.
    pub open spec fn output_text(self, id: RunId) -> Seq<char> {
        if self.runs.dom().contains(id) {
            lines_text(self.runs[id].live_output)
        } else {
            Seq::empty()
        }
    }
}

/// The given lines as one text, each followed by a line feed.
pub open spec fn lines_text(lines: Seq<Seq<char>>) -> Seq<char>
    decreases lines.len(),
{
    if lines.len() == 0 {
        Seq::empty()
    } else {
        lines_text(lines.drop_last()) + lines.last() + seq!['\n']
    }
}

/// Registration keeps the registry well formed.
pub proof fn lemma_registered_wf(v: RegistryView, launch: LaunchInfoView)
    requires
        v.wf(),
        v.can_register(),
    ensures
        v.registered(launch).wf(),
        !v.runs.dom().contains(v.next_run_id),
{
    let w = v.registered(launch);
    if v.runs.dom().contains(v.next_run_id) {
        assert(v.next_run_id < v.next_run_id);
    }
    assert forall|a: RunId, b: RunId, sid: Seq<char>|
        #![trigger w.holds(a, sid), w.holds(b, sid)]
        w.holds(a, sid) && w.holds(b, sid) implies a == b by {
        assert(v.holds(a, sid) && v.holds(b, sid));
    }
}

/// Promotion keeps the registry well formed.
pub proof fn lemma_promoted_wf(v: RegistryView, id: RunId, sid: Seq<char>)
    requires
        v.wf(),
    ensures
        v.promoted(id, sid).wf(),
{
    let w = v.promoted(id, sid);
    if v.promotion(id, sid) is Ok && v.runs[id].session_id is None {
        assert forall|a: RunId, b: RunId, s: Seq<char>|
            #![trigger w.holds(a, s), w.holds(b, s)]
            w.holds(a, s) && w.holds(b, s) implies a == b by {
            if a != b {
                if a == id {
                    assert(v.holds(b, s));
                    assert(s == sid);
                } else if b == id {
                    assert(v.holds(a, s));
                    assert(s == sid);
                } else {
                    assert(v.holds(a, s) && v.holds(b, s));
                }
            }
        }
    }
}

/// Appending output keeps the registry well formed.
pub proof fn lemma_appended_wf(v: RegistryView, id: RunId, line: Seq<char>)
    requires
        v.wf(),
    ensures
        v.appended(id, line).wf(),
{
    let w = v.appended(id, line);
    assert forall|a: RunId, b: RunId, s: Seq<char>|
        #![trigger w.holds(a, s), w.holds(b, s)]
        w.holds(a, s) && w.holds(b, s) implies a == b by {
        assert(v.holds(a, s) && v.holds(b, s));
    }
}

/// Recording an outcome keeps the registry well formed.
pub proof fn lemma_finished_wf(v: RegistryView, id: RunId, outcome: OutcomeView)
    requires
        v.wf(),
    ensures
        v.finished(id, outcome).wf(),
{
    let w = v.finished(id, outcome);
    assert forall|a: RunId, b: RunId, s: Seq<char>|
        #![trigger w.holds(a, s), w.holds(b, s)]
        w.holds(a, s) && w.holds(b, s) implies a == b by {
        assert(v.holds(a, s) && v.holds(b, s));
    }
}

/// Removing a run keeps the registry well formed.
pub proof fn lemma_deregistered_wf(v: RegistryView, id: RunId)
    requires
        v.wf(),
    ensures
        v.deregistered(id).wf(),
{
    let w = v.deregistered(id);
    assert forall|a: RunId, b: RunId, s: Seq<char>|
        #![trigger w.holds(a, s), w.holds(b, s)]
        w.holds(a, s) && w.holds(b, s) implies a == b by {
        assert(v.holds(a, s) && v.holds(b, s));
    }
}

/// The session registry.
pub struct Registry {
    /// The registered runs, by ascending run id.
    runs: Vec<RunRecord>,
    next_run_id: RunId,
}

impl Registry {
    /// The runs are stored by strictly ascending run id.
    spec fn ordered(&self) -> bool {
        forall|i: int, j: int|
            0 <= i < j < self.runs@.len() ==> self.runs@[i].run_id < self.runs@[j].run_id
    }

    /// Some stored run has id `id`.
    spec fn stores(&self, id: RunId) -> bool {
        exists|i: int| 0 <= i < self.runs@.len() && self.runs@[i].run_id == id
    }

    /// Where run `id` is stored.
    spec fn slot(&self, id: RunId) -> int {
        choose|i: int| 0 <= i < self.runs@.len() && self.runs@[i].run_id == id
    }

    /// The registry as a mathematical value.
    pub closed spec fn view(&self) -> RegistryView {
        RegistryView {
            runs: Map::new(|id: RunId| self.stores(id), |id: RunId| self.runs@[self.slot(id)]@),
            next_run_id: self.next_run_id,
        }
    }

    /// The representation is sound and the value it stands for is well formed.
    pub closed spec fn wf(&self) -> bool {
        self.ordered() && self@.wf()
    }

    /// A well-formed registry stands for a well-formed value.
    pub proof fn lemma_view_wf(&self)
        requires
            self.wf(),
        ensures
            self@.wf(),
    {
    }

    proof fn lemma_slot(&self, i: int)
        requires
            self.ordered(),
            0 <= i < self.runs@.len(),
        ensures
            self.stores(self.runs@[i].run_id),
            self.slot(self.runs@[i].run_id) == i,
            self@.runs.dom().contains(self.runs@[i].run_id),
            self@.runs[self.runs@[i].run_id] == self.runs@[i]@,
    {
        let id = self.runs@[i].run_id;
        let j = self.slot(id);
        assert(0 <= j < self.runs@.len() && self.runs@[j].run_id == id);
        if j < i {
            assert(self.runs@[j].run_id < self.runs@[i].run_id);
        } else if i < j {
            assert(self.runs@[i].run_id < self.runs@[j].run_id);
        }
    }

    proof fn lemma_absent(&self, id: RunId)
        requires
            forall|i: int| 0 <= i < self.runs@.len() ==> self.runs@[i].run_id != id,
        ensures
            !self@.runs.dom().contains(id),
    {
    }

    /// An empty registry. Run ids start at 1.
    pub fn new() -> (r: Registry)
        ensures
            r.wf(),
            r@.runs == Map::<RunId, RunRecordView>::empty(),
            r@.next_run_id == 1,
    {
        let r = Registry { runs: Vec::new(), next_run_id: 1 };
        assert(r@.runs =~= Map::<RunId, RunRecordView>::empty());
        r
    }

    /// The position of run `id` in the store.
    fn find(&self, id: RunId) -> (r: Option<usize>)
        requires
            self.ordered(),
        ensures
            match r {
                Some(i) => i < self.runs@.len() && self.runs@[i as int].run_id == id
                    && self@.runs.dom().contains(id) && self@.runs[id] == self.runs@[i as int]@,
                None => !self@.runs.dom().contains(id),
            },
    {
        let mut i: usize = 0;
        while i < self.runs.len()
            invariant
                self.ordered(),
                i <= self.runs@.len(),
                forall|k: int| 0 <= k < i ==> self.runs@[k].run_id != id,
            decreases self.runs@.len() - i,
        {
            if self.runs[i].run_id == id {
                proof {
                    self.lemma_slot(i as int);
                }
                return Some(i);
            }
            i += 1;
        }
        proof {
            self.lemma_absent(id);
        }
        None
    }

    /// The position of the run that carries session id `sid`.
    fn find_session(&self, sid: &str) -> (r: Option<usize>)
        requires
            self.wf(),
        ensures
            match r {
                Some(i) => i < self.runs@.len() && self@.holds(self.runs@[i as int].run_id, sid@)
                    && self@.by_session(sid@) == Some(self.runs@[i as int]@),
                None => !self@.session_known(sid@),
            },
    {
        let mut i: usize = 0;
        while i < self.runs.len()
            invariant
                self.wf(),
                i <= self.runs@.len(),
                forall|k: int| 0 <= k < i ==> self.runs@[k]@.session_id != Some(sid@),
            decreases self.runs@.len() - i,
        {
            let hit = match &self.runs[i].session_id {
                Some(s) => *s.as_str() == *sid,
                None => false,
            };
            if hit {
                proof {
                    self.lemma_slot(i as int);
                    let id = self.runs@[i as int].run_id;
                    assert(self@.holds(id, sid@));
                    let other = choose|o: RunId| self@.holds(o, sid@);
                    assert(self@.holds(other, sid@));
                }
                return Some(i);
            }
            i += 1;
        }
        proof {
            if self@.session_known(sid@) {
                let id = choose|id: RunId| self@.holds(id, sid@);
                assert(self@.holds(id, sid@));
                let k = self.slot(id);
                self.lemma_slot(k);
            }
        }
        None
    }

    /// The id the next registration will get.
    pub fn next_run_id(&self) -> (r: RunId)
        ensures
            r == self@.next_run_id,
    {
        self.next_run_id
    }

    /// How many runs are registered.
    pub fn len(&self) -> (r: usize)
        requires
            self.wf(),
        ensures
            r == self@.runs.dom().len(),
            self@.runs.dom().finite(),
    {
        proof {
            self.lemma_dom_len(self.runs@.len() as int);
            assert(self.ids_below(self.runs@.len() as int) =~= self@.runs.dom());
        }
        self.runs.len()
    }

    /// The ids of the first `n` stored runs.
    spec fn ids_below(&self, n: int) -> Set<RunId> {
        Set::new(|id: RunId| exists|i: int| 0 <= i < n && i < self.runs@.len() && self.runs@[i].run_id == id)
    }

    proof fn lemma_dom_len(&self, n: int)
        requires
            self.ordered(),
            0 <= n <= self.runs@.len(),
        ensures
            self.ids_below(n).finite(),
            self.ids_below(n).len() == n,
        decreases n,
    {
        if n == 0 {
            assert(self.ids_below(0) =~= Set::<RunId>::empty());
        } else {
            self.lemma_dom_len(n - 1);
            let last = self.runs@[n - 1].run_id;
            assert(self.ids_below(n) =~= self.ids_below(n - 1).insert(last));
            if self.ids_below(n - 1).contains(last) {
                let i = choose|i: int| 0 <= i < n - 1 && i < self.runs@.len() && self.runs@[i].run_id == last;
                assert(self.runs@[i].run_id < self.runs@[n - 1].run_id);
            }
        }
    }

    /// Registers a launched process under a fresh run id, in status `Starting`.
    ///
    /// Fails only when no run id is left, and then changes nothing.
    pub fn register_run(&mut self, launch: LaunchInfo) -> (r: Result<RunId, RegistryError>)
        requires
            old(self).wf(),
        ensures
            final(self).wf(),
            match r {
                Ok(id) => {
                    &&& old(self)@.can_register()
                    &&& id == old(self)@.next_run_id
                    &&& final(self)@ == old(self)@.registered(launch@)
                },
                Err(e) => {
                    &&& e == RegistryError::StorageExhausted
                    &&& !old(self)@.can_register()
                    &&& final(self)@ == old(self)@
                },
            },
    {
        if self.next_run_id == u64::MAX {
            return Err(RegistryError::StorageExhausted);
        }
        let id = self.next_run_id;
        let record = RunRecord {
            run_id: id,
            session_id: None,
            pid: launch.pid,
            tool_kind: launch.tool_kind,
            project_path: launch.project_path,
            initial_prompt: launch.initial_prompt,
            model: launch.model,
            live_output: Vec::new(),
            status: RunStatus::Starting,
        };
        assert(record.live_output.deep_view() =~= Seq::<Seq<char>>::empty());
        assert(record@ == RunRecordView::fresh(id, launch@));
        let ghost before = *self;
        proof {
            lemma_registered_wf(before@, launch@);
            assert forall|i: int| 0 <= i < before.runs@.len() implies before.runs@[i].run_id < id by {
                before.lemma_slot(i);
            }
        }
        self.runs.push(record);
        self.next_run_id = id + 1;
        proof {
            let after = *self;
            assert(after.ordered());
            let want = before@.registered(launch@);
            assert forall|k: RunId| after@.runs.dom().contains(k) == want.runs.dom().contains(k) by {
                if after.stores(k) {
                    let i = after.slot(k);
                    if i < before.runs@.len() {
                        assert(before.runs@[i].run_id == k);
                        assert(before.stores(k));
                    }
                }
                if before.stores(k) {
                    let i = before.slot(k);
                    assert(after.runs@[i].run_id == k);
                }
                if k == id {
                    assert(after.runs@[before.runs@.len() as int].run_id == k);
                }
            }
            assert forall|k: RunId| after@.runs.dom().contains(k) implies after@.runs[k]
                == want.runs[k] by {
                let i = after.slot(k);
                after.lemma_slot(i);
                if i < before.runs@.len() {
                    assert(after.runs@[i] == before.runs@[i]);
                    before.lemma_slot(i);
                }
            }
            assert(after@.runs =~= want.runs);
        }
        Ok(id)
    }

    /// Replacing the record in slot `i` by one with the same run id replaces it in the view.
    proof fn lemma_replaced(before: Registry, after: Registry, i: int)
        requires
            before.ordered(),
            0 <= i < before.runs@.len(),
            after.runs@.len() == before.runs@.len(),
            after.next_run_id == before.next_run_id,
            after.runs@[i].run_id == before.runs@[i].run_id,
            forall|k: int| 0 <= k < before.runs@.len() && k != i ==> after.runs@[k] == before.runs@[k],
        ensures
            after.ordered(),
            after@ == (RegistryView {
                runs: before@.runs.insert(before.runs@[i].run_id, after.runs@[i]@),
                next_run_id: before@.next_run_id,
            }),
    {
        assert forall|a: int, b: int| 0 <= a < b < after.runs@.len() implies after.runs@[a].run_id
            < after.runs@[b].run_id by {
            assert(after.runs@[a].run_id == before.runs@[a].run_id);
            assert(after.runs@[b].run_id == before.runs@[b].run_id);
        }
        let id = before.runs@[i].run_id;
        let want = before@.runs.insert(id, after.runs@[i]@);
        assert forall|k: RunId| after@.runs.dom().contains(k) == want.dom().contains(k) by {
            if after.stores(k) {
                let a = after.slot(k);
                assert(before.runs@[a].run_id == k);
            }
            if before.stores(k) {
                let b = before.slot(k);
                assert(after.runs@[b].run_id == k);
            }
            if k == id {
                assert(after.runs@[i].run_id == k);
            }
        }
        assert forall|k: RunId| after@.runs.dom().contains(k) implies after@.runs[k] == want[k] by {
            let a = after.slot(k);
            after.lemma_slot(a);
            if a != i {
                before.lemma_slot(a);
            }
        }
        assert(after@.runs =~= want);
    }

    /// Taking the record out of slot `i` removes its run from the view.
    proof fn lemma_removed(before: Registry, after: Registry, i: int)
        requires
            before.ordered(),
            0 <= i < before.runs@.len(),
            after.runs@ == before.runs@.remove(i),
            after.next_run_id == before.next_run_id,
        ensures
            after.ordered(),
            after@ == before@.deregistered(before.runs@[i].run_id),
    {
        let id = before.runs@[i].run_id;
        let want = before@.runs.remove(id);
        assert forall|k: RunId| after@.runs.dom().contains(k) == want.dom().contains(k) by {
            if after.stores(k) {
                let a = after.slot(k);
                let b = if a < i { a } else { a + 1 };
                assert(before.runs@[b].run_id == k);
                before.lemma_slot(b);
                before.lemma_slot(i);
            }
            if before.stores(k) && k != id {
                let b = before.slot(k);
                let a = if b < i { b } else { b - 1 };
                assert(after.runs@[a].run_id == k);
            }
        }
        assert forall|k: RunId| after@.runs.dom().contains(k) implies after@.runs[k] == want[k] by {
            let a = after.slot(k);
            after.lemma_slot(a);
            let b = if a < i { a } else { a + 1 };
            before.lemma_slot(b);
        }
        assert(after@.runs =~= want);
    }

    /// Records the session id that run `run_id` has announced and moves the run to
    /// `Running`.
    ///
    /// Asking again with the same session id changes nothing and succeeds. A different
    /// session id for an already promoted run is refused with `AlreadyPromoted`; the first
    /// one stays.
    pub fn promote_to_session(&mut self, run_id: RunId, session_id: &str) -> (r: Result<
        (),
        RegistryError,
    >)
        requires
            old(self).wf(),
        ensures
            final(self).wf(),
            r == old(self)@.promotion(run_id, session_id@),
            final(self)@ == old(self)@.promoted(run_id, session_id@),
    {
        let ghost before = *self;
        let i = match self.find(run_id) {
            Some(i) => i,
            None => {
                return Err(RegistryError::UnknownRun);
            },
        };
        match &self.runs[i].session_id {
            Some(s) => {
                if *s.as_str() == *session_id {
                    return Ok(());
                } else {
                    return Err(RegistryError::AlreadyPromoted);
                }
            },
            None => {},
        }
        match &self.runs[i].status {
            RunStatus::Starting => {},
            _ => {
                return Err(RegistryError::NotActive);
            },
        }
        if self.find_session(session_id).is_some() {
            return Err(RegistryError::SessionInUse);
        }
        self.runs[i].session_id = Some(String::from_str(session_id));
        self.runs[i].status = RunStatus::Running;
        proof {
            Self::lemma_replaced(before, *self, i as int);
            lemma_promoted_wf(before@, run_id, session_id@);
        }
        Ok(())
    }

    /// Appends `line` to the buffered output of run `run_id`; does nothing when no such run
    /// is registered. No other run is touched.
    pub fn append_live_output(&mut self, run_id: RunId, line: &str)
        requires
            old(self).wf(),
        ensures
            final(self).wf(),
            final(self)@ == old(self)@.appended(run_id, line@),
    {
        let ghost before = *self;
        match self.find(run_id) {
            Some(i) => {
                self.runs[i].live_output.push(String::from_str(line));
                proof {
                    assert(self.runs@[i as int].live_output.deep_view()
                        =~= before.runs@[i as int].live_output.deep_view().push(line@));
                    Self::lemma_replaced(before, *self, i as int);
                    lemma_appended_wf(before@, run_id, line@);
                }
            },
            None => {},
        }
    }

    /// Records how run `run_id` ended, unless it already carries a terminal status: the
    /// first outcome reported for a run stays.
    pub fn finish(&mut self, run_id: RunId, outcome: Outcome) -> (r: Transition)
        requires
            old(self).wf(),
        ensures
            final(self).wf(),
            r == old(self)@.transition(run_id),
            final(self)@ == old(self)@.finished(run_id, outcome@),
    {
        let ghost before = *self;
        match self.find(run_id) {
            Some(i) => {
                if self.runs[i].status.is_terminal() {
                    Transition::AlreadyTerminal
                } else {
                    self.runs[i].status = outcome.into_status();
                    proof {
                        Self::lemma_replaced(before, *self, i as int);
                        lemma_finished_wf(before@, run_id, outcome@);
                    }
                    Transition::Applied
                }
            },
            None => Transition::UnknownRun,
        }
    }

    /// Removes run `run_id`; does nothing when no such run is registered.
    /// Returns the removed record.
    pub fn deregister(&mut self, run_id: RunId) -> (r: Option<RunRecord>)
        requires
            old(self).wf(),
        ensures
            final(self).wf(),
            final(self)@ == old(self)@.deregistered(run_id),
            match r {
                Some(rec) => old(self)@.runs.dom().contains(run_id) && rec@ == old(self)@.runs[run_id],
                None => !old(self)@.runs.dom().contains(run_id),
            },
    {
        let ghost before = *self;
        match self.find(run_id) {
            Some(i) => {
                let rec = self.runs.remove(i);
                proof {
                    Self::lemma_removed(before, *self, i as int);
                    lemma_deregistered_wf(before@, run_id);
                }
                Some(rec)
            },
            None => {
                proof {
                    assert(before@.runs.remove(run_id) =~= before@.runs);
                }
                None
            },
        }
    }

    /// The record of run `run_id`.
    pub fn get(&self, run_id: RunId) -> (r: Option<&RunRecord>)
        requires
            self.wf(),
        ensures
            match r {
                Some(rec) => self@.runs.dom().contains(run_id) && rec@ == self@.runs[run_id],
                None => !self@.runs.dom().contains(run_id),
            },
    {
        match self.find(run_id) {
            Some(i) => Some(&self.runs[i]),
            None => None,
        }
    }

    /// The record of the run that carries session id `session_id`.
    pub fn lookup_by_session(&self, session_id: &str) -> (r: Option<&RunRecord>)
        requires
            self.wf(),
        ensures
            match r {
                Some(rec) => self@.by_session(session_id@) == Some(rec@),
                None => self@.by_session(session_id@) is None,
            },
    {
        match self.find_session(session_id) {
            Some(i) => Some(&self.runs[i]),
            None => None,
        }
    }

    /// A snapshot of the runs of `kind` that have no terminal status, by ascending run id.
    pub fn list_running(&self, kind: ToolKind) -> (r: Vec<RunRecord>)
        requires
            self.wf(),
        ensures
            forall|i: int, j: int| 0 <= i < j < r@.len() ==> r@[i].run_id < r@[j].run_id,
            forall|i: int|
                0 <= i < r@.len() ==> self@.lists(kind, #[trigger] r@[i].run_id) && r@[i]@
                    == self@.runs[r@[i].run_id],
            forall|id: RunId|
                self@.lists(kind, id) ==> exists|i: int|
                    0 <= i < r@.len() && #[trigger] r@[i].run_id == id,
    {
        let mut out: Vec<RunRecord> = Vec::new();
        let mut k: usize = 0;
        while k < self.runs.len()
            invariant
                self.wf(),
                k <= self.runs@.len(),
                forall|i: int, j: int| 0 <= i < j < out@.len() ==> out@[i].run_id < out@[j].run_id,
                forall|i: int|
                    0 <= i < out@.len() ==> self@.lists(kind, #[trigger] out@[i].run_id) && out@[i]@
                        == self@.runs[out@[i].run_id],
                forall|i: int|
                    0 <= i < out@.len() && k < self.runs@.len() ==> #[trigger] out@[i].run_id
                        < self.runs@[k as int].run_id,
                forall|m: int|
                    0 <= m < k && self@.lists(kind, #[trigger] self.runs@[m].run_id) ==> exists|
                        i: int,
                    | 0 <= i < out@.len() && #[trigger] out@[i].run_id == self.runs@[m].run_id,
            decreases self.runs@.len() - k,
        {
            let rec = &self.runs[k];
            proof {
                self.lemma_slot(k as int);
            }
            let ghost prev = out@;
            if rec.tool_kind == kind && !rec.status.is_terminal() {
                let copy = rec.clone();
                out.push(copy);
                proof {
                    assert forall|m: int|
                        0 <= m < k + 1 && self@.lists(
                            kind,
                            #[trigger] self.runs@[m].run_id,
                        ) implies exists|i: int|
                        0 <= i < out@.len() && #[trigger] out@[i].run_id
                            == self.runs@[m].run_id by {
                        if m < k {
                            let i = choose|i: int|
                                0 <= i < prev.len() && #[trigger] prev[i].run_id
                                    == self.runs@[m].run_id;
                            assert(out@[i].run_id == self.runs@[m].run_id);
                        } else {
                            assert(out@[prev.len() as int].run_id == self.runs@[m].run_id);
                        }
                    }
                }
            }
            proof {
                if k + 1 < self.runs@.len() {
                    assert(self.runs@[k as int].run_id < self.runs@[k + 1].run_id);
                }
            }
            k += 1;
        }
        proof {
            assert forall|id: RunId| self@.lists(kind, id) implies exists|i: int|
                0 <= i < out@.len() && #[trigger] out@[i].run_id == id by {
                let m = self.slot(id);
                self.lemma_slot(m);
            }
        }
        out
    }

    /// The buffered output of the run that carries session id `session_id`, as one text;
    /// empty when no registered run carries it.
    pub fn session_output(&self, session_id: &str) -> (r: String)
        requires
            self.wf(),
        ensures
            r@ == (match self@.by_session(session_id@) {
                Some(record) => lines_text(record.live_output),
                None => Seq::empty(),
            }),
    {
        match self.lookup_by_session(session_id) {
            Some(record) => {
                let id = record.run_id;
                proof {
                    self.lemma_view_wf();
                    let owner = choose|o: RunId| self@.holds(o, session_id@);
                    assert(self@.holds(owner, session_id@));
                    assert(self@.runs[owner].run_id == owner);
                }
                self.get_live_output(id)
            },
            None => String::new(),
        }
    }

    /// The buffered output of run `run_id` as one text, each line followed by a line feed;
    /// empty when no such run is registered.
    pub fn get_live_output(&self, run_id: RunId) -> (r: String)
        requires
            self.wf(),
        ensures
            r@ == self@.output_text(run_id),
    {
        let mut text = String::new();
        match self.find(run_id) {
            Some(i) => {
                let lines = &self.runs[i].live_output;
                let mut k: usize = 0;
                assert(lines.deep_view().take(0) =~= Seq::<Seq<char>>::empty());
                while k < lines.len()
                    invariant
                        k <= lines@.len(),
                        text@ == lines_text(lines.deep_view().take(k as int)),
                    decreases lines@.len() - k,
                {
                    proof {
                        let upto = lines.deep_view().take(k + 1);
                        assert(upto.drop_last() =~= lines.deep_view().take(k as int));
                        assert(upto.last() == lines@[k as int]@);
                        reveal_strlit("\n");
                        assert("\n"@ =~= seq!['\n']);
                    }
                    text.append(lines[k].as_str());
                    text.append("\n");
                    k += 1;
                }
                assert(lines.deep_view().take(k as int) =~= lines.deep_view());
            },
            None => {},
        }
        text
    }
}

} // verus!
