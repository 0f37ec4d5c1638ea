//! A fixed-capacity byte queue that drops new bytes when it is full.
use vstd::prelude::*;

verus! {

/// Number of slots in the backing storage; one of them always stays free.
pub const SLOTS: usize = 64;

/// Queue contents after offering `b` to a queue that holds `q`: the byte is
/// kept only while fewer than `SLOTS - 1` bytes are waiting.
pub open spec fn put_spec(q: Seq<u8>, b: u8) -> Seq<u8> {
    if q.len() < SLOTS - 1 {
        q.push(b)
    } else {
        q
    }
}

/// Queue contents after offering each byte of `s`, in order, to a queue that
/// holds `q`.
pub open spec fn puts(q: Seq<u8>, s: Seq<u8>) -> Seq<u8>
    decreases s.len(),
{
    if s.len() == 0 {
        q
    } else {
        puts(put_spec(q, s[0]), s.drop_first())
    }
}

pub struct Buffer {
    rpos: usize,
    wpos: usize,
    buffer: [u8; 64],
}

impl View for Buffer {
    type V = Seq<u8>;

    /// The waiting bytes, oldest first.
    closed spec fn view(&self) -> Seq<u8> {
        Seq::new(
            ((self.wpos + SLOTS - self.rpos) % (SLOTS as int)) as nat,
            |i: int| self.buffer@[(self.rpos + i) % (SLOTS as int)],
        )
    }
}

impl Buffer {
    /// Both positions stay inside the storage.
    pub closed spec fn wf(&self) -> bool {
        self.rpos < SLOTS && self.wpos < SLOTS
    }

    /// Slot of the oldest waiting byte.
    pub closed spec fn read_pos(&self) -> nat {
        self.rpos as nat
    }

    /// Slot that the next accepted byte goes to.
    pub closed spec fn write_pos(&self) -> nat {
        self.wpos as nat
    }

    /// The queue never holds more than `SLOTS - 1` bytes, and it is empty
    /// exactly when the two positions meet.
    pub proof fn lemma_bounds(&self)
        requires
            self.wf(),
        ensures
            self@.len() < SLOTS,
            (self@.len() == 0) == (self.read_pos() == self.write_pos()),
    {
    }

    pub fn new() -> (r: Buffer)
        ensures
            r.wf(),
            r@ == Seq::<u8>::empty(),
            r.read_pos() == 0,
            r.write_pos() == 0,
    {
        let r = Buffer { rpos: 0, wpos: 0, buffer: [0; 64] };
        assert(r@ =~= Seq::<u8>::empty());
        r
    }

    /// Appends `uin` unless the queue is full, in which case it is dropped.
    pub fn put(&mut self, uin: &u8)
        requires
            old(self).wf(),
        ensures
            final(self).wf(),
            final(self)@ == put_spec(old(self)@, *uin),
            final(self).read_pos() == old(self).read_pos(),
            old(self)@.len() < SLOTS - 1 ==> final(self).write_pos() == (old(self).write_pos() + 1)
                % (SLOTS as nat),
            old(self)@.len() >= SLOTS - 1 ==> final(self).write_pos() == old(self).write_pos(),
    {
        let npos = (self.wpos + 1) % SLOTS;
        if npos != self.rpos {
            let ghost q = self@;
            self.buffer[self.wpos] = *uin;
            self.wpos = npos;
            assert(self@ =~= q.push(*uin));
        }
    }

    /// Removes and returns the oldest byte, or `None` when the queue is empty.
    pub fn get(&mut self) -> (r: Option<u8>)
        requires
            old(self).wf(),
        ensures
            final(self).wf(),
            old(self)@.len() == 0 ==> r is None && final(self)@ == old(self)@,
            old(self)@.len() > 0 ==> r == Some(old(self)@[0]) && final(self)@
                == old(self)@.drop_first(),
            final(self).write_pos() == old(self).write_pos(),
            r is Some ==> final(self).read_pos() == (old(self).read_pos() + 1) % (SLOTS as nat),
            r is None ==> final(self).read_pos() == old(self).read_pos(),
    {
        let npos = (self.rpos + 1) % SLOTS;
        if self.rpos != self.wpos {
            let ghost q = self@;
            let out = self.buffer[self.rpos];
            self.rpos = npos;
            assert(self@ =~= q.drop_first());
            return Some(out);
        }
        None
    }

    /// True when no byte is waiting.
    pub fn empty(&self) -> (r: bool)
        requires
            self.wf(),
        ensures
            r == (self@.len() == 0),
            r == (self.read_pos() == self.write_pos()),
    {
        self.rpos == self.wpos
    }
}

/// Offering bytes one at a time to an empty queue keeps exactly the first
/// `SLOTS - 1` of them, in the order they came; every later byte is dropped.
pub proof fn lemma_fill_order(s: Seq<u8>)
    ensures
        puts(Seq::empty(), s) == s.take(
            if s.len() < SLOTS - 1 {
                s.len() as int
            } else {
                SLOTS - 1
            },
        ),
{
    lemma_puts_prefix(Seq::empty(), s);
}

proof fn lemma_puts_prefix(q: Seq<u8>, s: Seq<u8>)
    requires
        q.len() < SLOTS,
    ensures
        puts(q, s) == (q + s).take(
            if q.len() + s.len() < SLOTS - 1 {
                (q.len() + s.len()) as int
            } else if q.len() < SLOTS - 1 {
                SLOTS - 1
            } else {
                q.len() as int
            },
        ),
    decreases s.len(),
{
    if s.len() == 0 {
        assert((q + s).take(q.len() as int) =~= q);
    } else {
        let q2 = put_spec(q, s[0]);
        lemma_puts_prefix(q2, s.drop_first());
        if q.len() < SLOTS - 1 {
            assert(q2 + s.drop_first() =~= q + s);
        } else {
            let n = q.len() as int;
            assert((q2 + s.drop_first()).take(n) =~= (q + s).take(n));
        }
    }
}

} // verus!
