//! One terminal session's shared state: the replay buffer and the slot for
//! the currently attached output sink, together with the session's fixed
//! spawn parameters and its recorded liveness.
//!
//! The host application owns the operating-system side (the pseudo-terminal,
//! the child process, the background reader). It drives this state machine
//! with plain events: each chunk the reader produces goes through
//! `on_output`, end-of-stream through `on_eof`, and consumers come and go
//! through `attach` and `detach`. Sinks are named by tokens the host picks;
//! the host delivers bytes to whichever sink a call tells it to.

use vstd::prelude::*;

use crate::replay::{concat_chunks, tail_bytes, ReplayBuffer};

verus! {

/// The mathematical state of one session.
pub ghost struct SessionModel {
    /// Bytes currently held for replay, oldest first.
    pub buffer: Seq<u8>,
    /// Fixed replay capacity.
    pub capacity: nat,
    /// Token of the attached sink, if any; at most one at a time.
    pub sink: Option<u64>,
    /// Whether the session's output stream has not yet ended.
    pub alive: bool,
    /// Executable the session was spawned with.
    pub shell: Seq<char>,
    /// Working directory the session was spawned in.
    pub initial_cwd: Seq<char>,
}

/// A chunk of output: it is appended to the buffer (with oldest-first
/// eviction) and nothing else changes.
pub open spec fn output_step(m: SessionModel, chunk: Seq<u8>) -> SessionModel {
    SessionModel { buffer: tail_bytes(m.buffer + chunk, m.capacity), ..m }
}

/// Where a chunk of output is delivered: to the attached sink, if any.
pub open spec fn output_target(m: SessionModel) -> Option<u64> {
    m.sink
}

/// Attaching installs the new sink, replacing any previous one.
pub open spec fn attach_step(m: SessionModel, sink: u64) -> SessionModel {
    SessionModel { sink: Some(sink), ..m }
}

/// What an attaching sink is shown before any live byte: the entire buffer.
pub open spec fn attach_replay(m: SessionModel) -> Seq<u8> {
    m.buffer
}

/// Detaching clears the sink slot and nothing else.
pub open spec fn detach_step(m: SessionModel) -> SessionModel {
    SessionModel { sink: None, ..m }
}

/// End of the output stream: the session is no longer alive.
pub open spec fn eof_step(m: SessionModel) -> SessionModel {
    SessionModel { alive: false, ..m }
}

/// The session state after the chunks in `chunks` have been read, in order,
/// starting from `m`.
pub open spec fn run_outputs(m: SessionModel, chunks: Seq<Seq<u8>>) -> SessionModel
    decreases chunks.len(),
{
    if chunks.len() == 0 {
        m
    } else {
        run_outputs(output_step(m, chunks.first()), chunks.drop_first())
    }
}

/// However much output arrives, only the buffer moves, and it always holds
/// exactly the retained suffix of everything seen: the replay a consumer
/// attaching afterwards is shown is the most recent `capacity` bytes of the
/// bytes buffered before plus all the output since.
pub proof fn lemma_run_outputs(m: SessionModel, chunks: Seq<Seq<u8>>)
    requires
        m.buffer.len() <= m.capacity,
    ensures
        run_outputs(m, chunks).sink == m.sink,
        run_outputs(m, chunks).capacity == m.capacity,
        run_outputs(m, chunks).alive == m.alive,
        run_outputs(m, chunks).shell == m.shell,
        run_outputs(m, chunks).initial_cwd == m.initial_cwd,
        attach_replay(run_outputs(m, chunks)) == tail_bytes(
            m.buffer + concat_chunks(chunks),
            m.capacity,
        ),
    decreases chunks.len(),
{
    if chunks.len() == 0 {
        assert(m.buffer + Seq::<u8>::empty() =~= m.buffer);
    } else {
        let m1 = output_step(m, chunks.first());
        lemma_run_outputs(m1, chunks.drop_first());
        crate::replay::lemma_tail_bytes_compose(
            m.buffer + chunks.first(),
            concat_chunks(chunks.drop_first()),
            m.capacity,
        );
        assert((m.buffer + chunks.first()) + concat_chunks(chunks.drop_first()) =~= m.buffer
            + concat_chunks(chunks));
    }
}

/// The bytes delivered live to sink `s` while the chunks in `chunks` arrive,
/// starting from state `m`: each chunk goes to `s` exactly when `s` is the
/// attached sink at that moment.
pub open spec fn live_stream(m: SessionModel, s: u64, chunks: Seq<Seq<u8>>) -> Seq<u8>
    decreases chunks.len(),
{
    if chunks.len() == 0 {
        Seq::empty()
    } else {
        let here: Seq<u8> = if m.sink == Some(s) {
            chunks.first()
        } else {
            Seq::empty()
        };
        here + live_stream(output_step(m, chunks.first()), s, chunks.drop_first())
    }
}

/// While a sink stays attached, it receives every chunk, in order.
pub proof fn lemma_live_stream_attached(m: SessionModel, s: u64, chunks: Seq<Seq<u8>>)
    requires
        m.sink == Some(s),
    ensures
        live_stream(m, s, chunks) == concat_chunks(chunks),
    decreases chunks.len(),
{
    if chunks.len() == 0 {
    } else {
        lemma_live_stream_attached(output_step(m, chunks.first()), s, chunks.drop_first());
    }
}

/// A newly attached sink sees a gap-free, duplicate-free stream: exactly the
/// buffer's contents at the moment of attach (the replay), followed by every
/// chunk read thereafter, in order. When the buffer holds the retained
/// suffix of the session's output so far (`h`), everything the sink receives
/// is one contiguous block of the whole stream, missing only the prefix that
/// eviction discarded before the attach.
pub proof fn lemma_attach_gapless(h: Seq<u8>, m: SessionModel, s: u64, chunks: Seq<Seq<u8>>)
    requires
        m.buffer == tail_bytes(h, m.capacity),
    ensures
        attach_replay(m) + live_stream(attach_step(m, s), s, chunks)
            == tail_bytes(h, m.capacity) + concat_chunks(chunks),
        h.len() <= m.capacity ==> attach_replay(m) + live_stream(attach_step(m, s), s, chunks)
            == h + concat_chunks(chunks),
        h.len() > m.capacity ==> attach_replay(m) + live_stream(attach_step(m, s), s, chunks)
            == (h + concat_chunks(chunks)).skip(h.len() - m.capacity),
{
    lemma_live_stream_attached(attach_step(m, s), s, chunks);
    crate::replay::lemma_tail_bytes_extend(h, concat_chunks(chunks), m.capacity);
}

/// Attaching a second sink fully replaces the first: from that moment on,
/// not one byte is delivered to the previous sink.
pub proof fn lemma_attach_replaces(m: SessionModel, s1: u64, s2: u64, chunks: Seq<Seq<u8>>)
    requires
        s1 != s2,
    ensures
        live_stream(attach_step(m, s2), s1, chunks) == Seq::<u8>::empty(),
    decreases chunks.len(),
{
    lemma_live_stream_detached(attach_step(m, s2), s1, chunks);
}

/// A sink that is not attached receives nothing, however much is read.
pub proof fn lemma_live_stream_detached(m: SessionModel, s: u64, chunks: Seq<Seq<u8>>)
    requires
        m.sink != Some(s),
    ensures
        live_stream(m, s, chunks) == Seq::<u8>::empty(),
    decreases chunks.len(),
{
    if chunks.len() == 0 {
    } else {
        lemma_live_stream_detached(output_step(m, chunks.first()), s, chunks.drop_first());
        assert(Seq::<u8>::empty() + Seq::<u8>::empty() =~= Seq::<u8>::empty());
    }
}

/// Detaching and re-attaching with no output in between replays exactly the
/// bytes still buffered, once; in particular a session that has never
/// produced output replays nothing.
pub proof fn lemma_detach_attach_replay(m: SessionModel, s: u64)
    ensures
        attach_replay(detach_step(m)) == m.buffer,
        m.buffer.len() == 0 ==> attach_replay(detach_step(m)) == Seq::<u8>::empty(),
{
}

/// One terminal session's engine-side state.
pub struct SessionCore {
    buffer: ReplayBuffer,
    sink: Option<u64>,
    alive: bool,
    shell: String,
    initial_cwd: String,
}

impl View for SessionCore {
    type V = SessionModel;

    closed spec fn view(&self) -> SessionModel {
        SessionModel {
            buffer: self.buffer@,
            capacity: self.buffer.capacity(),
            sink: self.sink,
            alive: self.alive,
            shell: self.shell@,
            initial_cwd: self.initial_cwd@,
        }
    }
}

impl SessionCore {
    pub open spec fn wf(&self) -> bool {
        self@.buffer.len() <= self@.capacity
    }

    /// A fresh session: empty buffer, alive, with the sink the spawner
    /// handed in attached from the first byte on (or none).
    pub fn new(shell: String, initial_cwd: String, capacity: usize, sink: Option<u64>) -> (r:
        SessionCore)
        ensures
            r.wf(),
            r@ == (SessionModel {
                buffer: Seq::<u8>::empty(),
                capacity: capacity as nat,
                sink: sink,
                alive: true,
                shell: shell@,
                initial_cwd: initial_cwd@,
            }),
    {
        SessionCore {
            buffer: ReplayBuffer::new(capacity),
            sink,
            alive: true,
            shell,
            initial_cwd,
        }
    }

    /// One chunk read from the pseudo-terminal: append it to the replay
    /// buffer, and name the sink (if any) the identical chunk must now be
    /// delivered to.
    pub fn on_output(&mut self, chunk: &[u8]) -> (target: Option<u64>)
        requires
            old(self).wf(),
        ensures
            final(self).wf(),
            final(self)@ == output_step(old(self)@, chunk@),
            target == output_target(old(self)@),
    {
        self.buffer.append(chunk);
        self.sink
    }

    /// Install a new sink, replacing any previous one, and return the bytes
    /// it must be shown first: the buffer's entire current contents.
    pub fn attach(&mut self, sink: u64) -> (replay: Vec<u8>)
        requires
            old(self).wf(),
        ensures
            final(self).wf(),
            final(self)@ == attach_step(old(self)@, sink),
            replay@ == attach_replay(old(self)@),
    {
        let replay = self.buffer.contents();
        self.sink = Some(sink);
        replay
    }

    /// Clear the sink slot; the buffer keeps filling regardless.
    pub fn detach(&mut self)
        requires
            old(self).wf(),
        ensures
            final(self).wf(),
            final(self)@ == detach_step(old(self)@),
    {
        self.sink = None;
    }

    /// The output stream ended (or failed): record that the session is dead.
    pub fn on_eof(&mut self)
        requires
            old(self).wf(),
        ensures
            final(self).wf(),
            final(self)@ == eof_step(old(self)@),
    {
        self.alive = false;
    }

    pub fn is_alive(&self) -> (r: bool)
        ensures
            r == self@.alive,
    {
        self.alive
    }

    pub fn sink(&self) -> (r: Option<u64>)
        ensures
            r == self@.sink,
    {
        self.sink
    }

    pub fn shell(&self) -> (r: &str)
        ensures
            r@ == self@.shell,
    {
        self.shell.as_str()
    }

    pub fn initial_cwd(&self) -> (r: &str)
        ensures
            r@ == self@.initial_cwd,
    {
        self.initial_cwd.as_str()
    }

    /// A copy of the bytes currently held for replay, oldest first.
    pub fn buffered(&self) -> (r: Vec<u8>)
        ensures
            r@ == self@.buffer,
    {
        self.buffer.contents()
    }

    pub fn buffer_len(&self) -> (n: usize)
        ensures
            n as nat == self@.buffer.len(),
    {
        self.buffer.len()
    }
}

/// What is persisted of one session so it can be respawned on the next run.
#[derive(Debug, PartialEq, Eq)]
pub struct SavedSession {
    pub id: String,
    pub shell: String,
    pub cwd: String,
}

/// The persistence entry for one session: present exactly while the session
/// is alive; the saved working directory is the introspected one when
/// introspection yielded anything, and the spawn-time directory otherwise.
pub fn saved_entry(id: &String, core: &SessionCore, alive: bool, queried_cwd: Option<
    String,
>) -> (r: Option<SavedSession>)
    ensures
        r is Some <==> alive,
        alive ==> {
            &&& r->Some_0.id@ == id@
            &&& r->Some_0.shell@ == core@.shell
            &&& r->Some_0.cwd@ == (match queried_cwd {
                Some(c) => c@,
                None => core@.initial_cwd,
            })
        },
{
    if alive {
        let cwd = match queried_cwd {
            Some(c) => c,
            None => core.initial_cwd.clone(),
        };
        Some(SavedSession { id: id.clone(), shell: core.shell.clone(), cwd })
    } else {
        None
    }
}

} // verus!
