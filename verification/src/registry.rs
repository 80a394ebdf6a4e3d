//! The session registry: a keyed collection of sessions. Ids are
//! caller-supplied strings, unique within the registry; every operation
//! names the session it acts on and reports `NotFound` when no session has
//! that id.
//!
//! The host application serializes access to the registry as a whole (its
//! exclusive-access boundary covers each session's buffer-and-sink pair, as
//! one unit) and performs the pseudo-terminal I/O itself; the registry makes
//! the decisions and keeps the state.

use vstd::prelude::*;

use crate::session::{
    attach_replay, attach_step, detach_step, eof_step, output_step, output_target, saved_entry,
    SavedSession, SessionCore, SessionModel,
};

verus! {

/// The failures the engine distinguishes. The registry itself only produces
/// `NotFound`; the host maps operating-system failures to the others.
#[derive(Clone, Copy, Debug, PartialEq, Eq, Structural)]
pub enum EngineError {
    /// Pseudo-terminal allocation or process launch failed.
    SpawnFailed,
    /// No session has the given id.
    NotFound,
    /// A read, write or resize on an existing session's handles failed.
    IoFailure,
    /// An internal exclusive-access boundary could not be acquired.
    LockFailure,
}

/// One row of `list`: a session's id and whether it is still alive.
pub struct SessionInfo {
    pub id: String,
    pub alive: bool,
}

struct Entry {
    id: String,
    core: SessionCore,
}

/// The keyed session collection. Its ghost state is the sequence of ids and
/// the sequence of session models, in insertion order, with ids pairwise
/// distinct.
pub struct Registry {
    sessions: Vec<Entry>,
}

impl Registry {
    pub closed spec fn ids(&self) -> Seq<Seq<char>> {
        self.sessions@.map_values(|e: Entry| e.id@)
    }

    pub closed spec fn models(&self) -> Seq<SessionModel> {
        self.sessions@.map_values(|e: Entry| e.core@)
    }

    pub open spec fn count(&self) -> nat {
        self.ids().len()
    }

    pub open spec fn has_id(&self, id: Seq<char>) -> bool {
        exists|i: int| 0 <= i < self.count() && self.ids()[i] == id
    }

    /// The position of the session with the given id (meaningful only when
    /// `has_id` holds; unique because ids are distinct).
    pub open spec fn index_of(&self, id: Seq<char>) -> int {
        choose|i: int| 0 <= i < self.count() && self.ids()[i] == id
    }

    pub open spec fn wf(&self) -> bool {
        &&& self.models().len() == self.count()
        &&& forall|i: int, j: int|
            0 <= i < j < self.count() ==> self.ids()[i] != self.ids()[j]
        &&& forall|i: int|
            0 <= i < self.count() ==> (#[trigger] self.models()[i]).buffer.len()
                <= self.models()[i].capacity
    }

    pub fn new() -> (r: Registry)
        ensures
            r.wf(),
            r.count() == 0,
    {
        Registry { sessions: Vec::new() }
    }

    /// The position of the session with the given id, if any.
    fn find(&self, id: &String) -> (r: Option<usize>)
        requires
            self.wf(),
        ensures
            match r {
                Some(i) => {
                    &&& self.has_id(id@)
                    &&& 0 <= i < self.count()
                    &&& self.ids()[i as int] == id@
                    &&& self.index_of(id@) == i as int
                },
                None => !self.has_id(id@),
            },
    {
        let mut i: usize = 0;
        while i < self.sessions.len()
            invariant
                self.wf(),
                i <= self.count(),
                forall|j: int| 0 <= j < i ==> self.ids()[j] != id@,
            decreases self.count() - i,
        {
            if self.sessions[i].id == *id {
                proof {
                    assert(self.ids()[i as int] == id@);
                    let k = self.index_of(id@);
                    assert(0 <= k < self.count() && self.ids()[k] == id@);
                    if k != i as int {
                        if k < i as int {
                            assert(self.ids()[k] != self.ids()[i as int]);
                        } else {
                            assert(self.ids()[i as int] != self.ids()[k]);
                        }
                    }
                }
                return Some(i);
            }
            i += 1;
        }
        None
    }

    pub fn contains(&self, id: &String) -> (r: bool)
        requires
            self.wf(),
        ensures
            r == self.has_id(id@),
    {
        self.find(id).is_some()
    }

    /// Register a freshly spawned session under `id`. A duplicate id
    /// replaces the previous entry in place — the deliberate counterpart of
    /// inserting into a keyed map — and the host, which still holds the
    /// replaced session's process and terminal, is left to dispose of them.
    pub fn add_session(&mut self, id: String, core: SessionCore)
        requires
            old(self).wf(),
            core.wf(),
        ensures
            final(self).wf(),
            final(self).has_id(id@),
            !old(self).has_id(id@) ==> {
                &&& final(self).ids() == old(self).ids().push(id@)
                &&& final(self).models() == old(self).models().push(core@)
            },
            old(self).has_id(id@) ==> {
                &&& final(self).ids() == old(self).ids()
                &&& final(self).models() == old(self).models().update(
                    old(self).index_of(id@),
                    core@,
                )
            },
    {
        let found = self.find(&id);
        match found {
            Some(i) => {
                let ghost before = self.sessions@;
                let mut entry = self.sessions.remove(i);
                entry.core = core;
                self.sessions.insert(i, entry);
                proof {
                    assert(self.ids() =~= old(self).ids());
                    assert(self.models() =~= old(self).models().update(
                        old(self).index_of(id@),
                        core@,
                    ));
                    assert(self.ids()[i as int] == id@);
                }
            },
            None => {
                self.sessions.push(Entry { id, core });
                proof {
                    assert(self.ids() =~= old(self).ids().push(id@));
                    assert(self.models() =~= old(self).models().push(core@));
                    assert(self.ids()[old(self).count() as int] == id@);
                }
            },
        }
    }

    /// Bind a new sink to the session: replaces any previous sink and
    /// returns the buffered bytes that must reach the new sink before any
    /// live byte.
    pub fn attach(&mut self, id: &String, sink: u64) -> (r: Result<Vec<u8>, EngineError>)
        requires
            old(self).wf(),
        ensures
            final(self).wf(),
            !old(self).has_id(id@) ==> {
                &&& r == Result::<Vec<u8>, EngineError>::Err(EngineError::NotFound)
                &&& final(self).ids() == old(self).ids()
                &&& final(self).models() == old(self).models()
            },
            old(self).has_id(id@) ==> {
                let i = old(self).index_of(id@);
                &&& r is Ok
                &&& r->Ok_0@ == attach_replay(old(self).models()[i])
                &&& final(self).ids() == old(self).ids()
                &&& final(self).models() == old(self).models().update(
                    i,
                    attach_step(old(self).models()[i], sink),
                )
            },
    {
        let found = self.find(id);
        match found {
            Some(i) => {
                let mut entry = self.sessions.remove(i);
                let replay = entry.core.attach(sink);
                self.sessions.insert(i, entry);
                proof {
                    assert(self.ids() =~= old(self).ids());
                    assert(self.models() =~= old(self).models().update(
                        old(self).index_of(id@),
                        attach_step(old(self).models()[old(self).index_of(id@)], sink),
                    ));
                }
                Ok(replay)
            },
            None => Err(EngineError::NotFound),
        }
    }

    /// Clear the session's sink slot; reading and buffering continue.
    pub fn detach(&mut self, id: &String) -> (r: Result<(), EngineError>)
        requires
            old(self).wf(),
        ensures
            final(self).wf(),
            !old(self).has_id(id@) ==> {
                &&& r == Result::<(), EngineError>::Err(EngineError::NotFound)
                &&& final(self).ids() == old(self).ids()
                &&& final(self).models() == old(self).models()
            },
            old(self).has_id(id@) ==> {
                let i = old(self).index_of(id@);
                &&& r is Ok
                &&& final(self).ids() == old(self).ids()
                &&& final(self).models() == old(self).models().update(
                    i,
                    detach_step(old(self).models()[i]),
                )
            },
    {
        let found = self.find(id);
        match found {
            Some(i) => {
                let mut entry = self.sessions.remove(i);
                entry.core.detach();
                self.sessions.insert(i, entry);
                proof {
                    assert(self.ids() =~= old(self).ids());
                    assert(self.models() =~= old(self).models().update(
                        old(self).index_of(id@),
                        detach_step(old(self).models()[old(self).index_of(id@)]),
                    ));
                }
                Ok(())
            },
            None => Err(EngineError::NotFound),
        }
    }

    /// One chunk read from the session's pseudo-terminal: append it to the
    /// replay buffer and name the sink the identical chunk is delivered to.
    pub fn on_output(&mut self, id: &String, chunk: &[u8]) -> (r: Result<
        Option<u64>,
        EngineError,
    >)
        requires
            old(self).wf(),
        ensures
            final(self).wf(),
            !old(self).has_id(id@) ==> {
                &&& r == Result::<Option<u64>, EngineError>::Err(EngineError::NotFound)
                &&& final(self).ids() == old(self).ids()
                &&& final(self).models() == old(self).models()
            },
            old(self).has_id(id@) ==> {
                let i = old(self).index_of(id@);
                &&& r == Result::<Option<u64>, EngineError>::Ok(output_target(
                    old(self).models()[i],
                ))
                &&& final(self).ids() == old(self).ids()
                &&& final(self).models() == old(self).models().update(
                    i,
                    output_step(old(self).models()[i], chunk@),
                )
            },
    {
        let found = self.find(id);
        match found {
            Some(i) => {
                let mut entry = self.sessions.remove(i);
                let target = entry.core.on_output(chunk);
                self.sessions.insert(i, entry);
                proof {
                    assert(self.ids() =~= old(self).ids());
                    assert(self.models() =~= old(self).models().update(
                        old(self).index_of(id@),
                        output_step(old(self).models()[old(self).index_of(id@)], chunk@),
                    ));
                }
                Ok(target)
            },
            None => Err(EngineError::NotFound),
        }
    }

    /// The session's output stream ended: record it as dead. It stays
    /// queryable in the registry.
    pub fn on_eof(&mut self, id: &String) -> (r: Result<(), EngineError>)
        requires
            old(self).wf(),
        ensures
            final(self).wf(),
            !old(self).has_id(id@) ==> {
                &&& r == Result::<(), EngineError>::Err(EngineError::NotFound)
                &&& final(self).ids() == old(self).ids()
                &&& final(self).models() == old(self).models()
            },
            old(self).has_id(id@) ==> {
                let i = old(self).index_of(id@);
                &&& r is Ok
                &&& final(self).ids() == old(self).ids()
                &&& final(self).models() == old(self).models().update(
                    i,
                    eof_step(old(self).models()[i]),
                )
            },
    {
        let found = self.find(id);
        match found {
            Some(i) => {
                let mut entry = self.sessions.remove(i);
                entry.core.on_eof();
                self.sessions.insert(i, entry);
                proof {
                    assert(self.ids() =~= old(self).ids());
                    assert(self.models() =~= old(self).models().update(
                        old(self).index_of(id@),
                        eof_step(old(self).models()[old(self).index_of(id@)]),
                    ));
                }
                Ok(())
            },
            None => Err(EngineError::NotFound),
        }
    }

    /// A snapshot of every session: id and recorded liveness, in insertion
    /// order. Pure bookkeeping — it performs no I/O and touches no session's
    /// pseudo-terminal.
    pub fn list(&self) -> (r: Vec<SessionInfo>)
        requires
            self.wf(),
        ensures
            r@.len() == self.count(),
            forall|i: int|
                0 <= i < self.count() ==> (#[trigger] r@[i]).id@ == self.ids()[i] && r@[i].alive
                    == self.models()[i].alive,
    {
        let mut r: Vec<SessionInfo> = Vec::new();
        let mut i: usize = 0;
        while i < self.sessions.len()
            invariant
                self.wf(),
                i <= self.count(),
                r@.len() == i,
                forall|j: int|
                    0 <= j < i ==> (#[trigger] r@[j]).id@ == self.ids()[j] && r@[j].alive
                        == self.models()[j].alive,
            decreases self.count() - i,
        {
            let entry = &self.sessions[i];
            r.push(SessionInfo { id: entry.id.clone(), alive: entry.core.is_alive() });
            i += 1;
        }
        r
    }

    /// The persistence entry for the session with this id: `None` when the
    /// session is dead, otherwise its id, shell, and working directory (the
    /// introspected one when given, the spawn-time one otherwise).
    pub fn snapshot_entry(&self, id: &String, queried_cwd: Option<String>) -> (r: Result<
        Option<SavedSession>,
        EngineError,
    >)
        requires
            self.wf(),
        ensures
            !self.has_id(id@) ==> r is Err && r->Err_0 == EngineError::NotFound,
            self.has_id(id@) ==> {
                let m = self.models()[self.index_of(id@)];
                &&& r is Ok
                &&& (r->Ok_0 is Some <==> m.alive)
                &&& m.alive ==> {
                    &&& r->Ok_0->Some_0.id@ == id@
                    &&& r->Ok_0->Some_0.shell@ == m.shell
                    &&& r->Ok_0->Some_0.cwd@ == (match queried_cwd {
                        Some(c) => c@,
                        None => m.initial_cwd,
                    })
                }
            },
    {
        let found = self.find(id);
        match found {
            Some(i) => {
                let entry = &self.sessions[i];
                Ok(saved_entry(id, &entry.core, entry.core.is_alive(), queried_cwd))
            },
            None => Err(EngineError::NotFound),
        }
    }
}

} // verus!
