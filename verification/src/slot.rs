//! The legacy single-process slot: "the current child process" of one tool kind.
//!
//! The slot predates the registry and is kept for callers that cancel without naming a
//! session. It is best effort and last writer wins; the registry is authoritative. The
//! caller keeps the process handle itself and mirrors here who occupies the slot.

use crate::run::RunId;
use vstd::prelude::*;
use vstd::string::*;

verus! {

/// The process that occupies a slot.
#[derive(Debug)]
pub struct Occupant {
    pub pid: u32,
    pub run_id: Option<RunId>,
    pub session_id: Option<String>,
}

/// View of [`Occupant`].
pub struct OccupantView {
    pub pid: u32,
    pub run_id: Option<RunId>,
    pub session_id: Option<Seq<char>>,
}

impl View for Occupant {
    type V = OccupantView;

    open spec fn view(&self) -> OccupantView {
        OccupantView {
            pid: self.pid,
            run_id: self.run_id,
            session_id: self.session_id.deep_view(),
        }
    }
}

impl DeepView for Occupant {
    type V = OccupantView;

    open spec fn deep_view(&self) -> OccupantView {
        self@
    }
}

/// The slot after the process `pid` in it, if it is there, has announced its session.
pub open spec fn announced(
    slot: Option<OccupantView>,
    pid: u32,
    run_id: Option<RunId>,
    session_id: Seq<char>,
) -> Option<OccupantView> {
    match slot {
        Some(o) => if o.pid == pid {
            Some(OccupantView { pid, run_id, session_id: Some(session_id) })
        } else {
            slot
        },
        None => None,
    }
}

/// The slot after process `pid` has left it, if it was there.
pub open spec fn vacated(slot: Option<OccupantView>, pid: u32) -> Option<OccupantView> {
    match slot {
        Some(o) => if o.pid == pid {
            None
        } else {
            slot
        },
        None => None,
    }
}

/// A slot for at most one process.
#[derive(Debug)]
pub struct LegacySlot {
    occupant: Option<Occupant>,
}

impl LegacySlot {
    /// Who occupies the slot.
    pub closed spec fn view(&self) -> Option<OccupantView> {
        self.occupant.deep_view()
    }

    /// An empty slot.
    pub fn new() -> (r: LegacySlot)
        ensures
            r@ is None,
    {
        LegacySlot { occupant: None }
    }

    /// Whether a process occupies the slot.
    pub fn is_occupied(&self) -> (r: bool)
        ensures
            r == (self@ is Some),
    {
        self.occupant.is_some()
    }

    /// Puts `newcomer` into the slot. The process that was there is handed back: it has
    /// lost the slot and the caller kills it before going on.
    pub fn occupy(&mut self, newcomer: Occupant) -> (displaced: Option<Occupant>)
        ensures
            final(self)@ == Some(newcomer@),
            displaced.deep_view() == old(self)@,
    {
        let mut held = Some(newcomer);
        std::mem::swap(&mut self.occupant, &mut held);
        held
    }

    /// Empties the slot and hands back who was in it.
    pub fn take(&mut self) -> (taken: Option<Occupant>)
        ensures
            final(self)@ is None,
            taken.deep_view() == old(self)@,
    {
        let mut held = None;
        std::mem::swap(&mut self.occupant, &mut held);
        held
    }

    /// Notes that process `pid` has announced `session_id`. Another occupant is left alone.
    pub fn announce(&mut self, pid: u32, run_id: Option<RunId>, session_id: &str)
        ensures
            final(self)@ == announced(old(self)@, pid, run_id, session_id@),
    {
        let matches = match &self.occupant {
            Some(o) => o.pid == pid,
            None => false,
        };
        if matches {
            self.occupant = Some(
                Occupant { pid, run_id, session_id: Some(String::from_str(session_id)) },
            );
        }
    }

    /// Empties the slot if process `pid` occupies it. Returns whether it did.
    pub fn vacate(&mut self, pid: u32) -> (r: bool)
        ensures
            final(self)@ == vacated(old(self)@, pid),
            r == (old(self)@ matches Some(o) && o.pid == pid),
    {
        let matches = match &self.occupant {
            Some(o) => o.pid == pid,
            None => false,
        };
        if matches {
            self.occupant = None;
        }
        matches
    }
}

} // verus!
