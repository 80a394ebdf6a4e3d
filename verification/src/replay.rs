//! The replay buffer: a bounded FIFO byte store with oldest-first eviction.
//!
//! Every byte a session produces is appended here; when an append would push
//! the length past the fixed capacity, exactly enough of the oldest bytes are
//! evicted to make the new data fit. A consumer that attaches later is shown
//! the buffer's contents, which are always the most recent bytes of the
//! session's whole output stream.

use std::collections::VecDeque;
use vstd::prelude::*;

verus! {

/// The reference replay capacity: 64 KiB of recent output per session.
pub const DEFAULT_REPLAY_CAPACITY: usize = 65536;

/// The suffix of `s` that a buffer of capacity `cap` retains: all of `s`
/// when it fits, otherwise the last `cap` bytes.
pub open spec fn tail_bytes(s: Seq<u8>, cap: nat) -> Seq<u8> {
    if s.len() <= cap {
        s
    } else {
        s.skip(s.len() - cap)
    }
}

/// The concatenation of a sequence of chunks, in order.
pub open spec fn concat_chunks(chunks: Seq<Seq<u8>>) -> Seq<u8>
    decreases chunks.len(),
{
    if chunks.len() == 0 {
        Seq::empty()
    } else {
        chunks.first() + concat_chunks(chunks.drop_first())
    }
}

/// The buffer contents after appending `chunks`, one by one, to an empty
/// buffer of capacity `cap`; each step retains the suffix exactly as
/// `ReplayBuffer::append` does.
pub open spec fn buffer_after(chunks: Seq<Seq<u8>>, cap: nat) -> Seq<u8>
    decreases chunks.len(),
{
    if chunks.len() == 0 {
        Seq::empty()
    } else {
        tail_bytes(buffer_after(chunks.drop_last(), cap) + chunks.last(), cap)
    }
}

/// Evicting before a new chunk keeps exactly what evicting over the whole
/// stream would keep: appending to the retained suffix retains the same
/// bytes as appending to the full history.
pub proof fn lemma_tail_bytes_compose(a: Seq<u8>, b: Seq<u8>, cap: nat)
    ensures
        tail_bytes(tail_bytes(a, cap) + b, cap) == tail_bytes(a + b, cap),
{
    assert(tail_bytes(tail_bytes(a, cap) + b, cap) =~= tail_bytes(a + b, cap));
}

pub proof fn lemma_concat_chunks_push(chunks: Seq<Seq<u8>>, c: Seq<u8>)
    ensures
        concat_chunks(chunks.push(c)) == concat_chunks(chunks) + c,
    decreases chunks.len(),
{
    let s = chunks.push(c);
    if chunks.len() == 0 {
        assert(s.drop_first() =~= Seq::<Seq<u8>>::empty());
        assert(s.first() == c);
        assert(concat_chunks(s) == c + concat_chunks(Seq::<Seq<u8>>::empty()));
        assert(c + Seq::<u8>::empty() =~= c);
        assert(concat_chunks(chunks) + c =~= c);
    } else {
        assert(s.drop_first() =~= chunks.drop_first().push(c));
        assert(s.first() == chunks.first());
        lemma_concat_chunks_push(chunks.drop_first(), c);
        assert(concat_chunks(s) == chunks.first() + (concat_chunks(chunks.drop_first()) + c));
        assert(chunks.first() + (concat_chunks(chunks.drop_first()) + c) =~= (chunks.first()
            + concat_chunks(chunks.drop_first())) + c);
    }
}

/// After any sequence of appends into an empty buffer, the buffer holds
/// exactly the retained suffix of the concatenated stream: all of it while
/// it fits, and once the total appended exceeds the capacity, exactly the
/// most recently appended `cap` bytes, in order. The length never exceeds
/// the capacity after any append.
pub proof fn lemma_buffer_is_stream_suffix(chunks: Seq<Seq<u8>>, cap: nat)
    ensures
        buffer_after(chunks, cap) == tail_bytes(concat_chunks(chunks), cap),
        buffer_after(chunks, cap).len() <= cap,
        concat_chunks(chunks).len() > cap ==> buffer_after(chunks, cap)
            == concat_chunks(chunks).skip(concat_chunks(chunks).len() - cap),
    decreases chunks.len(),
{
    if chunks.len() == 0 {
    } else {
        let rest = chunks.drop_last();
        lemma_buffer_is_stream_suffix(rest, cap);
        lemma_concat_chunks_push(rest, chunks.last());
        assert(rest.push(chunks.last()) =~= chunks);
        lemma_tail_bytes_compose(concat_chunks(rest), chunks.last(), cap);
    }
}

/// The retained suffix, extended by whatever is produced later, is itself a
/// contiguous suffix of the whole stream: a consumer that reads the buffer
/// and then the live bytes sees no gap and no byte twice.
pub proof fn lemma_tail_bytes_extend(h: Seq<u8>, x: Seq<u8>, cap: nat)
    ensures
        h.len() <= cap ==> tail_bytes(h, cap) + x == h + x,
        h.len() > cap ==> tail_bytes(h, cap) + x == (h + x).skip(h.len() - cap),
{
    if h.len() > cap {
        assert(tail_bytes(h, cap) + x =~= (h + x).skip(h.len() - cap));
    }
}

/// A bounded FIFO byte store. Its view is the sequence of bytes currently
/// held, oldest first; `wf()` says the view never exceeds the capacity.
pub struct ReplayBuffer {
    data: VecDeque<u8>,
    cap: usize,
}

impl View for ReplayBuffer {
    type V = Seq<u8>;

    closed spec fn view(&self) -> Seq<u8> {
        self.data@
    }
}

impl ReplayBuffer {
    /// The fixed capacity this buffer was created with.
    pub closed spec fn capacity(&self) -> nat {
        self.cap as nat
    }

    pub open spec fn wf(&self) -> bool {
        self@.len() <= self.capacity()
    }

    pub fn new(capacity: usize) -> (r: ReplayBuffer)
        ensures
            r.wf(),
            r@ == Seq::<u8>::empty(),
            r.capacity() == capacity as nat,
    {
        ReplayBuffer { data: VecDeque::new(), cap: capacity }
    }

    pub fn len(&self) -> (n: usize)
        ensures
            n as nat == self@.len(),
    {
        self.data.len()
    }

    pub fn is_empty(&self) -> (b: bool)
        ensures
            b == (self@.len() == 0),
    {
        self.data.len() == 0
    }

    /// Append a chunk, evicting the oldest bytes when the result would not
    /// fit: afterwards the buffer holds exactly the retained suffix of the
    /// old contents followed by the chunk, and never more than the capacity.
    pub fn append(&mut self, chunk: &[u8])
        requires
            old(self).wf(),
        ensures
            final(self).wf(),
            final(self).capacity() == old(self).capacity(),
            final(self)@ == tail_bytes(old(self)@ + chunk@, old(self).capacity()),
            final(self)@.len() <= old(self).capacity(),
    {
        let ghost full: Seq<u8> = self.data@ + chunk@;
        let mut i: usize = 0;
        while i < chunk.len()
            invariant
                i <= chunk@.len(),
                self.cap == old(self).cap,
                self.data@ == old(self).data@ + chunk@.subrange(0, i as int),
            decreases chunk@.len() - i,
        {
            self.data.push_back(chunk[i]);
            i += 1;
        }
        proof {
            assert(chunk@.subrange(0, chunk@.len() as int) == chunk@);
            assert(self.data@ == full);
        }
        while self.data.len() > self.cap
            invariant
                self.cap == old(self).cap,
                self.data@.len() <= full.len(),
                full.len() <= self.cap ==> self.data@.len() == full.len(),
                full.len() > self.cap ==> self.data@.len() >= self.cap,
                self.data@ == full.skip(full.len() - self.data@.len()),
            decreases self.data@.len(),
        {
            let ghost before = self.data@;
            self.data.pop_front();
            proof {
                assert(self.data@ == before.subrange(1, before.len() as int));
                assert(self.data@ == full.skip(full.len() - self.data@.len()));
            }
        }
        proof {
            assert(full.skip(0) =~= full);
            assert(self.data@ =~= tail_bytes(full, self.cap as nat));
        }
    }

    /// A copy of the current contents, oldest byte first.
    pub fn contents(&self) -> (r: Vec<u8>)
        ensures
            r@ == self@,
    {
        let mut r: Vec<u8> = Vec::new();
        let mut i: usize = 0;
        while i < self.data.len()
            invariant
                i <= self.data@.len(),
                r@ == self.data@.subrange(0, i as int),
            decreases self.data@.len() - i,
        {
            r.push(self.data[i]);
            i += 1;
        }
        proof {
            assert(self.data@.subrange(0, self.data@.len() as int) == self.data@);
        }
        r
    }
}

} // verus!
