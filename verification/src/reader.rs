//! A sequential cursor over an in-memory byte sequence, with fixed-width
//! big-endian reads.
//!
//! Every read fails with `DecodeError::UnexpectedEof`, and leaves the
//! cursor where it was, when fewer bytes remain than the read requires.

use vstd::prelude::*;

verus! {

use crate::error::DecodeError;

/// The big-endian value of the two bytes of `b` starting at `p`.
pub open spec fn be16(b: Seq<u8>, p: int) -> int
    recommends
        0 <= p,
        p + 2 <= b.len(),
{
    b[p] * 256 + b[p + 1]
}

/// The big-endian value of the four bytes of `b` starting at `p`.
pub open spec fn be32(b: Seq<u8>, p: int) -> int
    recommends
        0 <= p,
        p + 4 <= b.len(),
{
    ((b[p] * 256 + b[p + 1]) * 256 + b[p + 2]) * 256 + b[p + 3]
}

/// Prepends already-decoded items to the outcome of decoding the rest of a
/// stream: a failure swallows the partial results.
pub open spec fn cons_decoded<T>(s: Seq<T>, rest: Result<(Seq<T>, int), DecodeError>) -> Result<
    (Seq<T>, int),
    DecodeError,
> {
    match rest {
        Ok((t, q)) => Ok((s + t, q)),
        Err(e) => Err(e),
    }
}

/// As `cons_decoded`, for decoders that track no cursor.
pub open spec fn cons_items<T>(s: Seq<T>, rest: Result<Seq<T>, DecodeError>) -> Result<
    Seq<T>,
    DecodeError,
> {
    match rest {
        Ok(t) => Ok(s + t),
        Err(e) => Err(e),
    }
}

pub proof fn lemma_cons_items_assoc<T>(s1: Seq<T>, s2: Seq<T>, rest: Result<Seq<T>, DecodeError>)
    ensures
        cons_items(s1 + s2, rest) == cons_items(s1, cons_items(s2, rest)),
{
    match rest {
        Ok(t) => {
            assert((s1 + s2) + t =~= s1 + (s2 + t));
        },
        Err(_) => {},
    }
}

pub proof fn lemma_cons_decoded_assoc<T>(
    s1: Seq<T>,
    s2: Seq<T>,
    rest: Result<(Seq<T>, int), DecodeError>,
)
    ensures
        cons_decoded(s1 + s2, rest) == cons_decoded(s1, cons_decoded(s2, rest)),
{
    match rest {
        Ok((t, q)) => {
            assert((s1 + s2) + t =~= s1 + (s2 + t));
        },
        Err(_) => {},
    }
}

/// Fixed-width big-endian reads over an ordered byte source consumed
/// through a cursor.
pub trait ByteUtils {
    /// The whole underlying byte sequence; reads never change it.
    spec fn source(&self) -> Seq<u8>;

    /// The offset of the next unread byte.
    spec fn cursor(&self) -> int;

    open spec fn source_wf(&self) -> bool {
        0 <= self.cursor() <= self.source().len()
    }

    open spec fn source_remaining(&self) -> int {
        self.source().len() - self.cursor()
    }

    /// Reads one byte.
    fn read_u1(&mut self) -> (r: Result<u8, DecodeError>)
        requires
            old(self).source_wf(),
        ensures
            final(self).source_wf(),
            final(self).source() == old(self).source(),
            old(self).source_remaining() >= 1 ==> {
                &&& r == Ok::<u8, DecodeError>(old(self).source()[old(self).cursor()])
                &&& final(self).cursor() == old(self).cursor() + 1
            },
            old(self).source_remaining() < 1 ==> {
                &&& r == Err::<u8, DecodeError>(DecodeError::UnexpectedEof)
                &&& final(self).cursor() == old(self).cursor()
            },
    ;

    /// Reads a two-byte big-endian integer.
    fn read_u2(&mut self) -> (r: Result<u16, DecodeError>)
        requires
            old(self).source_wf(),
        ensures
            final(self).source_wf(),
            final(self).source() == old(self).source(),
            old(self).source_remaining() >= 2 ==> {
                &&& r == Ok::<u16, DecodeError>(be16(old(self).source(), old(self).cursor()) as u16)
                &&& final(self).cursor() == old(self).cursor() + 2
            },
            old(self).source_remaining() < 2 ==> {
                &&& r == Err::<u16, DecodeError>(DecodeError::UnexpectedEof)
                &&& final(self).cursor() == old(self).cursor()
            },
    ;

    /// Reads a four-byte big-endian integer.
    fn read_u4(&mut self) -> (r: Result<u32, DecodeError>)
        requires
            old(self).source_wf(),
        ensures
            final(self).source_wf(),
            final(self).source() == old(self).source(),
            old(self).source_remaining() >= 4 ==> {
                &&& r == Ok::<u32, DecodeError>(be32(old(self).source(), old(self).cursor()) as u32)
                &&& final(self).cursor() == old(self).cursor() + 4
            },
            old(self).source_remaining() < 4 ==> {
                &&& r == Err::<u32, DecodeError>(DecodeError::UnexpectedEof)
                &&& final(self).cursor() == old(self).cursor()
            },
    ;
}

/// An exclusive cursor over a finite byte sequence.
pub struct Reader {
    data: Vec<u8>,
    pos: usize,
}

impl ByteUtils for Reader {
    open spec fn source(&self) -> Seq<u8> {
        self.bytes()
    }

    open spec fn cursor(&self) -> int {
        Reader::pos(*self)
    }

    fn read_u1(&mut self) -> (r: Result<u8, DecodeError>) {
        Reader::read_u1(self)
    }

    fn read_u2(&mut self) -> (r: Result<u16, DecodeError>) {
        Reader::read_u2(self)
    }

    fn read_u4(&mut self) -> (r: Result<u32, DecodeError>) {
        Reader::read_u4(self)
    }
}

impl Reader {
    /// The whole underlying byte sequence; reads never change it.
    pub closed spec fn bytes(self) -> Seq<u8> {
        self.data@
    }

    /// The cursor: the offset of the next unread byte.
    pub closed spec fn pos(self) -> int {
        self.pos as int
    }

    pub open spec fn wf(self) -> bool {
        0 <= self.pos() <= self.bytes().len()
    }

    /// How many bytes remain unread.
    pub open spec fn remaining(self) -> int {
        self.bytes().len() - self.pos()
    }

    pub fn new(data: Vec<u8>) -> (r: Reader)
        ensures
            r.bytes() == data@,
            r.pos() == 0,
            r.wf(),
    {
        Reader { data, pos: 0 }
    }

    /// How many bytes remain unread.
    pub fn len_left(&self) -> (n: usize)
        requires
            self.wf(),
        ensures
            n == self.remaining(),
    {
        self.data.len() - self.pos
    }

    /// Reads one byte.
    pub fn read_u1(&mut self) -> (r: Result<u8, DecodeError>)
        requires
            old(self).wf(),
        ensures
            final(self).wf(),
            final(self).bytes() == old(self).bytes(),
            old(self).remaining() >= 1 ==> {
                &&& r == Ok::<u8, DecodeError>(old(self).bytes()[old(self).pos()])
                &&& final(self).pos() == old(self).pos() + 1
            },
            old(self).remaining() < 1 ==> {
                &&& r == Err::<u8, DecodeError>(DecodeError::UnexpectedEof)
                &&& final(self).pos() == old(self).pos()
            },
    {
        if self.pos < self.data.len() {
            let b = self.data[self.pos];
            self.pos = self.pos + 1;
            Ok(b)
        } else {
            Err(DecodeError::UnexpectedEof)
        }
    }

    /// Reads a two-byte big-endian integer.
    pub fn read_u2(&mut self) -> (r: Result<u16, DecodeError>)
        requires
            old(self).wf(),
        ensures
            final(self).wf(),
            final(self).bytes() == old(self).bytes(),
            old(self).remaining() >= 2 ==> {
                &&& r == Ok::<u16, DecodeError>(be16(old(self).bytes(), old(self).pos()) as u16)
                &&& final(self).pos() == old(self).pos() + 2
            },
            old(self).remaining() < 2 ==> {
                &&& r == Err::<u16, DecodeError>(DecodeError::UnexpectedEof)
                &&& final(self).pos() == old(self).pos()
            },
    {
        if self.data.len() - self.pos >= 2 {
            let b0 = self.data[self.pos];
            let b1 = self.data[self.pos + 1];
            self.pos = self.pos + 2;
            Ok((b0 as u16) * 256 + (b1 as u16))
        } else {
            Err(DecodeError::UnexpectedEof)
        }
    }

    /// Reads a four-byte big-endian integer.
    pub fn read_u4(&mut self) -> (r: Result<u32, DecodeError>)
        requires
            old(self).wf(),
        ensures
            final(self).wf(),
            final(self).bytes() == old(self).bytes(),
            old(self).remaining() >= 4 ==> {
                &&& r == Ok::<u32, DecodeError>(be32(old(self).bytes(), old(self).pos()) as u32)
                &&& final(self).pos() == old(self).pos() + 4
            },
            old(self).remaining() < 4 ==> {
                &&& r == Err::<u32, DecodeError>(DecodeError::UnexpectedEof)
                &&& final(self).pos() == old(self).pos()
            },
    {
        if self.data.len() - self.pos >= 4 {
            let b0 = self.data[self.pos];
            let b1 = self.data[self.pos + 1];
            let b2 = self.data[self.pos + 2];
            let b3 = self.data[self.pos + 3];
            self.pos = self.pos + 4;
            Ok((((b0 as u32) * 256 + (b1 as u32)) * 256 + (b2 as u32)) * 256 + (b3 as u32))
        } else {
            Err(DecodeError::UnexpectedEof)
        }
    }

    /// Reads `n` bytes into a fresh vector.
    pub fn read_bytes(&mut self, n: usize) -> (r: Result<Vec<u8>, DecodeError>)
        requires
            old(self).wf(),
        ensures
            final(self).wf(),
            final(self).bytes() == old(self).bytes(),
            old(self).remaining() >= n ==> {
                &&& r matches Ok(v) && v@ == old(self).bytes().subrange(
                    old(self).pos(),
                    old(self).pos() + n,
                )
                &&& final(self).pos() == old(self).pos() + n
            },
            old(self).remaining() < n ==> {
                &&& r == Err::<Vec<u8>, DecodeError>(DecodeError::UnexpectedEof)
                &&& final(self).pos() == old(self).pos()
            },
    {
        if n <= self.data.len() - self.pos {
            let mut v: Vec<u8> = Vec::new();
            let mut i: usize = 0;
            while i < n
                invariant
                    i <= n,
                    self.pos + n <= self.data.len(),
                    v@ == self.data@.subrange(self.pos as int, self.pos + i),
                decreases n - i,
            {
                v.push(self.data[self.pos + i]);
                i = i + 1;
                assert(v@ == self.data@.subrange(self.pos as int, self.pos + i));
            }
            self.pos = self.pos + n;
            Ok(v)
        } else {
            Err(DecodeError::UnexpectedEof)
        }
    }
}

} // verus!
