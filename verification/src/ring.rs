//! A byte-bounded ring buffer holding the most recent terminal output of a
//! session. Detached sessions keep filling a small capped buffer instead of
//! streaming to the UI, and on attach the buffer is replayed once so that the
//! terminal repaints.
use std::collections::VecDeque;
use vstd::prelude::*;

verus! {

/// The least capacity a buffer has, whatever was asked for.
pub const MIN_RING_BYTES: usize = 4096;

/// How much is reserved up front, at most.
pub const RING_RESERVE_BYTES: usize = 65536;

/// The last `cap` bytes of `s`, or all of them where there are fewer.
pub open spec fn last_bytes(s: Seq<u8>, cap: int) -> Seq<u8> {
    if s.len() <= cap {
        s
    } else {
        s.skip(s.len() - cap)
    }
}

/// The most recent bytes of a terminal's output, up to a capacity.
pub struct RingBuffer {
    buf: VecDeque<u8>,
    cap: usize,
}

impl View for RingBuffer {
    type V = Seq<u8>;

    closed spec fn view(&self) -> Seq<u8> {
        self.buf@
    }
}

impl RingBuffer {
    /// The number of bytes that the buffer retains.
    pub closed spec fn capacity(&self) -> int {
        self.cap as int
    }

    /// The contents never exceed the capacity.
    pub closed spec fn wf(&self) -> bool {
        &&& self.buf@.len() <= self.cap
        &&& self.cap >= MIN_RING_BYTES
    }

    /// What well-formedness says in terms of the contents and the capacity.
    pub broadcast proof fn bounded(&self)
        requires
            #[trigger] self.wf(),
        ensures
            self@.len() <= self.capacity(),
            self.capacity() >= MIN_RING_BYTES,
    {
    }

    /// An empty buffer; it retains at least [`MIN_RING_BYTES`].
    pub fn new(cap: usize) -> (r: Self)
        ensures
            r.wf(),
            r@ == Seq::<u8>::empty(),
            r.capacity() == if cap < MIN_RING_BYTES {
                MIN_RING_BYTES as int
            } else {
                cap as int
            },
    {
        let reserve: usize = if cap < RING_RESERVE_BYTES { cap } else { RING_RESERVE_BYTES };
        RingBuffer {
            buf: VecDeque::with_capacity(reserve),
            cap: if cap < MIN_RING_BYTES { MIN_RING_BYTES } else { cap },
        }
    }

    /// Append bytes, evicting the oldest data past the capacity.
    pub fn push(&mut self, data: &[u8])
        requires
            old(self).wf(),
        ensures
            final(self).wf(),
            final(self).capacity() == old(self).capacity(),
            final(self)@ == last_bytes(old(self)@ + data@, old(self).capacity()),
    {
        let ghost all = self@ + data@;
        let mut start: usize = 0;
        if data.len() >= self.cap {
            // The new data alone fills the buffer: keep only its tail.
            self.buf.clear();
            start = data.len() - self.cap;
        } else {
            let room: usize = self.cap - self.buf.len();
            if data.len() > room {
                let overflow: usize = data.len() - room;
                let ghost before = self.buf@;
                let mut popped: usize = 0;
                while popped < overflow
                    invariant
                        popped <= overflow,
                        overflow <= before.len(),
                        self.buf@ == before.skip(popped as int),
                        self.cap == old(self).cap,
                    decreases overflow - popped,
                {
                    let _ = self.buf.pop_front();
                    popped = popped + 1;
                    assert(before.skip(popped - 1).subrange(1, before.len() - popped + 1)
                        =~= before.skip(popped as int));
                }
            }
        }
        let ghost kept = self.buf@;
        let mut i: usize = start;
        while i < data.len()
            invariant
                start <= i <= data@.len(),
                self.buf@ == kept + data@.subrange(start as int, i as int),
                self.cap == old(self).cap,
            decreases data@.len() - i,
        {
            self.buf.push_back(data[i]);
            i = i + 1;
            assert(kept + data@.subrange(start as int, i as int) =~= (kept + data@.subrange(
                start as int,
                i - 1,
            )).push(data@[i - 1]));
        }
        assert(self.buf@ =~= last_bytes(all, self.cap as int));
    }

    /// Current contents as a contiguous byte vector (for replay-on-attach).
    pub fn snapshot(&self) -> (r: Vec<u8>)
        ensures
            r@ == self@,
    {
        let mut out: Vec<u8> = Vec::new();
        let mut i: usize = 0;
        while i < self.buf.len()
            invariant
                i <= self.buf@.len(),
                out@ == self.buf@.take(i as int),
            decreases self.buf@.len() - i,
        {
            out.push(self.buf[i]);
            i = i + 1;
        }
        out
    }

    /// How many bytes are retained.
    pub fn len(&self) -> (r: usize)
        ensures
            r == self@.len(),
    {
        self.buf.len()
    }
}

/// How output was cut into chunks does not matter: pushing `a` and then `b`
/// retains what pushing both at once retains.
pub proof fn chunking_is_irrelevant(s: Seq<u8>, a: Seq<u8>, b: Seq<u8>, cap: nat)
    ensures
        last_bytes(last_bytes(s + a, cap as int) + b, cap as int) == last_bytes(
            s + (a + b),
            cap as int,
        ),
{
    assert(last_bytes(last_bytes(s + a, cap as int) + b, cap as int) =~= last_bytes(
        s + (a + b),
        cap as int,
    ));
}

/// A buffer that is given `data` holds all of it where it fits, and then ends
/// with it.
pub proof fn recent_output_is_retained(s: Seq<u8>, data: Seq<u8>, cap: nat)
    requires
        data.len() <= cap,
    ensures
        last_bytes(s + data, cap as int).len() >= data.len(),
        last_bytes(s + data, cap as int).skip(
            last_bytes(s + data, cap as int).len() - data.len(),
        ) == data,
{
    let kept = last_bytes(s + data, cap as int);
    assert(kept.skip(kept.len() - data.len()) =~= data);
}

} // verus!
