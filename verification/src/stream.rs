//! The polymorphic stream interface over an in-memory byte source.
//!
//! Every byte source the engine reads — the root reader, a bounded sub-view,
//! a buffered loop region — is a [`ByteStream`]: bytes plus a forward-only
//! cursor.  The capability set is read-exact, read-to-end, fill-and-peek and
//! consume; both execution disciplines (blocking and suspending) satisfy it,
//! and against an in-memory source their reads behave identically, which is
//! what makes decoding independent of the execution mode.

use vstd::prelude::*;
use crate::program::Error;

verus! {

/// The mathematical model of a stream: its bytes and its cursor.
#[verifier::ext_equal]
pub ghost struct SStream {
    pub data: Seq<u8>,
    pub pos: int,
}

impl SStream {
    pub open spec fn wf(self) -> bool {
        0 <= self.pos <= self.data.len()
    }

    pub open spec fn remaining(self) -> int {
        self.data.len() - self.pos
    }

    /// The bytes not yet consumed.
    pub open spec fn rest(self) -> Seq<u8> {
        self.data.subrange(self.pos, self.data.len() as int)
    }
}

/// Reading `n` bytes: the next `n` bytes and the advanced stream, or an
/// end-of-stream failure that leaves the stream unchanged.
pub open spec fn sread(s: SStream, n: int) -> Result<(Seq<u8>, SStream), Error> {
    if n <= s.remaining() {
        Ok((s.data.subrange(s.pos, s.pos + n), SStream { data: s.data, pos: s.pos + n }))
    } else {
        Err(Error::Eof)
    }
}

/// Consuming the whole remainder.
pub open spec fn sread_to_end(s: SStream) -> (Seq<u8>, SStream) {
    (s.rest(), SStream { data: s.data, pos: s.data.len() as int })
}

/// An in-memory byte source with a forward-only cursor.
#[derive(Debug)]
pub struct ByteStream {
    pub data: Vec<u8>,
    pub pos: usize,
}

impl View for ByteStream {
    type V = SStream;

    open spec fn view(&self) -> SStream {
        SStream { data: self.data@, pos: self.pos as int }
    }
}

impl ByteStream {
    pub fn new(data: Vec<u8>) -> (s: Self)
        ensures
            s@ == (SStream { data: data@, pos: 0 }),
            s@.wf(),
    {
        ByteStream { data, pos: 0 }
    }

    pub fn remaining(&self) -> (n: usize)
        requires
            self@.wf(),
        ensures
            n == self@.remaining(),
    {
        self.data.len() - self.pos
    }

    /// Read exactly `n` bytes, or fail without consuming.
    pub fn read_exact(&mut self, n: usize) -> (r: Result<Vec<u8>, Error>)
        requires
            old(self)@.wf(),
        ensures
            final(self)@.wf(),
            final(self)@.data == old(self)@.data,
            match sread(old(self)@, n as int) {
                Ok(p) => r is Ok && r->Ok_0@ == p.0 && final(self)@ == p.1,
                Err(e) => r == Err::<Vec<u8>, Error>(e) && final(self)@ == old(self)@,
            },
    {
        let dlen = self.data.len();
        if n > dlen - self.pos {
            return Err(Error::Eof);
        }
        let mut out: Vec<u8> = Vec::new();
        let mut i: usize = 0;
        while i < n
            invariant
                i <= n,
                self@.pos + n <= self.data@.len(),
                self.data@.len() <= usize::MAX,
                out@.len() == i,
                forall|k: int| 0 <= k < i ==> out@[k] == self.data@[self.pos + k],
            decreases n - i,
        {
            out.push(self.data[self.pos + i]);
            i = i + 1;
        }
        proof {
            assert(out@ =~= self@.data.subrange(self@.pos, self@.pos + n));
        }
        self.pos = self.pos + n;
        Ok(out)
    }

    /// Read the whole remainder of the stream.
    pub fn read_to_end(&mut self) -> (r: Vec<u8>)
        requires
            old(self)@.wf(),
        ensures
            final(self)@.wf(),
            final(self)@.data == old(self)@.data,
            r@ == sread_to_end(old(self)@).0,
            final(self)@ == sread_to_end(old(self)@).1,
    {
        let n = self.data.len() - self.pos;
        match self.read_exact(n) {
            Ok(bytes) => {
                proof {
                    assert(bytes@ =~= sread_to_end(old(self)@).0);
                }
                bytes
            },
            Err(_) => {
                // Unreachable: the remainder is always available.
                proof {
                    assert(false);
                }
                Vec::new()
            },
        }
    }

    /// Fill-and-peek: whether the next bytes exactly begin with `pat`,
    /// consuming nothing.  Against an in-memory source the buffer is always
    /// the complete remainder, so a short buffer means true exhaustion.
    pub fn peek_matches(&self, pat: &Vec<u8>) -> (r: bool)
        requires
            self@.wf(),
        ensures
            r == (self@.remaining() >= pat@.len() && self@.rest().take(pat@.len() as int)
                == pat@),
    {
        let dlen = self.data.len();
        if dlen - self.pos < pat.len() {
            return false;
        }
        let mut i: usize = 0;
        while i < pat.len()
            invariant
                self@.wf(),
                i <= pat@.len(),
                pat@.len() <= self@.remaining(),
                self.data@.len() <= usize::MAX,
                forall|k: int| 0 <= k < i ==> self@.rest()[k] == pat@[k],
            decreases pat@.len() - i,
        {
            if self.data[self.pos + i] != pat[i] {
                proof {
                    assert(self@.rest()[i as int] != pat@[i as int]);
                    assert(self@.rest().take(pat@.len() as int)[i as int] == self@.rest()[
                    i as int]);
                }
                return false;
            }
            proof {
                assert(self@.rest()[i as int] == self@.data[self@.pos + i]);
            }
            i = i + 1;
        }
        proof {
            assert(self@.rest().take(pat@.len() as int) =~= pat@);
        }
        true
    }

    /// Consume `n` already-peeked bytes.
    pub fn consume(&mut self, n: usize)
        requires
            old(self)@.wf(),
            n <= old(self)@.remaining(),
        ensures
            final(self)@.wf(),
            final(self)@ == (SStream { data: old(self)@.data, pos: old(self)@.pos + n }),
    {
        let dlen = self.data.len();
        proof {
            assert(self.pos + n <= dlen);
        }
        self.pos = self.pos + n;
    }
}

} // verus!
