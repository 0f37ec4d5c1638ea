//! Staging of outgoing console bytes, and the non-blocking read and write
//! decisions shared by both transports.
use vstd::prelude::*;
use crate::ring::{Buffer, puts};

verus! {

/// The transmit side of the UART console: bytes written wait here until the
/// peripheral can take them, and are dropped when the queue is full.
pub struct Console {
    buffer: Buffer,
}

impl Console {
    pub closed spec fn wf(&self) -> bool {
        self.buffer.wf()
    }

    /// The bytes waiting to be sent, oldest first.
    pub closed spec fn queued(&self) -> Seq<u8> {
        self.buffer@
    }

    pub fn new() -> (r: Console)
        ensures
            r.wf(),
            r.queued() == Seq::<u8>::empty(),
    {
        Console { buffer: Buffer::new() }
    }

    /// Stages every byte of `buffer`, in order; bytes that find the queue full
    /// are dropped.
    pub fn write(&mut self, buffer: &[u8])
        requires
            old(self).wf(),
        ensures
            final(self).wf(),
            final(self).queued() == puts(old(self).queued(), buffer@),
    {
        let n = buffer.len();
        let mut i: usize = 0;
        assert(buffer@.subrange(0, n as int) =~= buffer@);
        while i < n
            invariant
                self.wf(),
                n == buffer@.len(),
                i <= n,
                puts(old(self).queued(), buffer@) == puts(self.queued(), buffer@.subrange(
                    i as int,
                    n as int,
                )),
            decreases n - i,
        {
            self.buffer.put(&buffer[i]);
            assert(buffer@.subrange(i as int, n as int).drop_first() =~= buffer@.subrange(
                i + 1,
                n as int,
            ));
            i += 1;
        }
        assert(buffer@.subrange(n as int, n as int) =~= Seq::<u8>::empty());
    }

    /// The next byte to send when the peripheral can take one: `None` when it
    /// cannot, or when nothing is waiting.
    pub fn next_out(&mut self, writable: bool) -> (r: Option<u8>)
        requires
            old(self).wf(),
        ensures
            final(self).wf(),
            writable && old(self).queued().len() > 0 ==> r == Some(old(self).queued()[0])
                && final(self).queued() == old(self).queued().drop_first(),
            !(writable && old(self).queued().len() > 0) ==> r is None && final(self).queued()
                == old(self).queued(),
    {
        if writable && !self.buffer.empty() {
            self.buffer.get()
        } else {
            None
        }
    }
}

/// What a non-blocking read reports: a count of bytes only when it is
/// nonzero; a failed or empty read means no data.
pub fn received(count: Option<usize>) -> (r: Option<usize>)
    ensures
        r == (match count {
            Some(n) => if n > 0 {
                Some(n)
            } else {
                None
            },
            None => None,
        }),
{
    match count {
        Some(n) if n > 0 => Some(n),
        _ => None,
    }
}

/// One step of a best-effort write of `total` bytes, `sent` of which the port
/// has already taken. After the port reports `written` more, returns how many
/// are gone now (never past `total`); `None` when the port refused, and the
/// rest is dropped.
pub fn write_step(sent: usize, total: usize, written: Option<usize>) -> (r: Option<usize>)
    requires
        sent <= total,
    ensures
        written is None ==> r is None,
        written is Some ==> r == Some(
            if sent + written->0 <= total {
                (sent + written->0) as usize
            } else {
                total
            },
        ),
{
    match written {
        Some(n) => if n >= total - sent {
            Some(total)
        } else {
            Some(sent + n)
        },
        None => None,
    }
}

} // verus!
