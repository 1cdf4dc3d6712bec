//! The byte cursor: a decoder over one message payload held in memory.
//!
//! The framer hands the decoder exactly the bytes the message's length
//! field declared, so the bytes remaining in the buffer are the byte
//! budget the payload decoder may still consume.

use vstd::prelude::*;

use crate::bytes::{spec_be_i16, spec_be_i32, spec_be_u16, spec_be_u32};
use crate::msg::DecodeError;

verus! {

/// The index of the first NUL byte of `s` at or after `from`, if any.
pub open spec fn find_nul(s: Seq<u8>, from: int) -> Option<int>
    decreases s.len() - from when 0 <= from <= s.len()
{
    if from < 0 || from >= s.len() {
        None
    } else if s[from] == 0u8 {
        Some(from)
    } else {
        find_nul(s, from + 1)
    }
}

/// Where `find_nul` points, it points at the first NUL at or after `from`.
pub proof fn lemma_find_nul_props(s: Seq<u8>, from: int)
    requires
        0 <= from <= s.len(),
    ensures
        match find_nul(s, from) {
            Some(k) => {
                &&& from <= k < s.len()
                &&& s[k] == 0
                &&& forall|j: int| from <= j < k ==> s[j] != 0
            },
            None => forall|j: int| from <= j < s.len() ==> s[j] != 0,
        },
    decreases s.len() - from,
{
    if from < s.len() && s[from] != 0u8 {
        lemma_find_nul_props(s, from + 1);
    }
}

/// A structure to decode a Postgres message from a payload buffer.
pub struct Decoder {
    buf: Vec<u8>,
    pos: usize,
}

impl Decoder {
    /// The payload this decoder was created over; reads never change it.
    pub closed spec fn data(&self) -> Seq<u8> {
        self.buf@
    }

    /// How many bytes of the payload have been consumed so far.
    pub closed spec fn taken(&self) -> int {
        self.pos as int
    }

    /// The cursor never leaves the payload.
    pub open spec fn wf(&self) -> bool {
        0 <= self.taken() <= self.data().len()
    }

    /// The byte budget still available to this message's decoders.
    pub open spec fn spec_remaining(&self) -> int {
        self.data().len() - self.taken()
    }

    /// Creates a new Postgres decoder for decoding from the specified
    /// payload bytes.
    pub fn new(buf: Vec<u8>) -> (d: Decoder)
        ensures
            d.data() == buf@,
            d.taken() == 0,
            d.wf(),
    {
        Decoder { buf, pos: 0 }
    }

    /// How many declared payload bytes have not been consumed yet.
    pub fn get_remaining_bytes(&self) -> (n: usize)
        requires
            self.wf(),
        ensures
            n == self.spec_remaining(),
    {
        self.buf.len() - self.pos
    }

    /// Reads one byte.
    pub fn read_u8(&mut self) -> (r: Result<u8, DecodeError>)
        requires
            old(self).wf(),
        ensures
            final(self).wf(),
            final(self).data() == old(self).data(),
            old(self).spec_remaining() >= 1 ==> {
                &&& r == Ok::<u8, DecodeError>(old(self).data()[old(self).taken()])
                &&& final(self).taken() == old(self).taken() + 1
            },
            old(self).spec_remaining() < 1 ==> {
                &&& r == Err::<u8, DecodeError>(DecodeError::Truncated)
                &&& final(self).taken() == old(self).taken()
            },
    {
        if self.pos < self.buf.len() {
            let b = self.buf[self.pos];
            self.pos = self.pos + 1;
            Ok(b)
        } else {
            Err(DecodeError::Truncated)
        }
    }

    /// Reads `n` raw bytes as an owned vector.
    pub fn read_bytes(&mut self, n: usize) -> (r: Result<Vec<u8>, DecodeError>)
        requires
            old(self).wf(),
        ensures
            final(self).wf(),
            final(self).data() == old(self).data(),
            old(self).spec_remaining() >= n ==> {
                &&& r matches Ok(v) && v@ == old(self).data().subrange(
                    old(self).taken(),
                    old(self).taken() + n,
                )
                &&& final(self).taken() == old(self).taken() + n
            },
            old(self).spec_remaining() < n ==> {
                &&& r == Err::<Vec<u8>, DecodeError>(DecodeError::Truncated)
                &&& final(self).taken() == old(self).taken()
            },
    {
        if n > self.buf.len() - self.pos {
            return Err(DecodeError::Truncated);
        }
        let end = self.pos + n;
        let ghost start = self.taken();
        let ghost data = self.data();
        let mut v: Vec<u8> = Vec::new();
        while self.pos < end
            invariant
                self.wf(),
                self.data() == data,
                start <= self.taken() <= end <= self.data().len(),
                end == start + n,
                v@.len() == self.taken() - start,
                forall|j: int| 0 <= j < v@.len() ==> v@[j] == data[start + j],
            decreases end - self.taken(),
        {
            v.push(self.buf[self.pos]);
            self.pos = self.pos + 1;
        }
        proof {
            assert(v@ =~= data.subrange(start, self.taken()));
        }
        Ok(v)
    }

    /// Reads a big-endian `u16`.
    pub fn read_be_u16(&mut self) -> (r: Result<u16, DecodeError>)
        requires
            old(self).wf(),
        ensures
            final(self).wf(),
            final(self).data() == old(self).data(),
            old(self).spec_remaining() >= 2 ==> {
                &&& r == Ok::<u16, DecodeError>(
                    spec_be_u16(old(self).data().subrange(old(self).taken(), old(self).taken() + 2)),
                )
                &&& final(self).taken() == old(self).taken() + 2
            },
            old(self).spec_remaining() < 2 ==> {
                &&& r == Err::<u16, DecodeError>(DecodeError::Truncated)
                &&& final(self).taken() == old(self).taken()
            },
    {
        if self.buf.len() - self.pos < 2 {
            return Err(DecodeError::Truncated);
        }
        let b0 = self.buf[self.pos];
        let b1 = self.buf[self.pos + 1];
        self.pos = self.pos + 2;
        Ok(((b0 as u16) << 8) | (b1 as u16))
    }

    /// Reads a big-endian `u32`.
    pub fn read_be_u32(&mut self) -> (r: Result<u32, DecodeError>)
        requires
            old(self).wf(),
        ensures
            final(self).wf(),
            final(self).data() == old(self).data(),
            old(self).spec_remaining() >= 4 ==> {
                &&& r == Ok::<u32, DecodeError>(
                    spec_be_u32(old(self).data().subrange(old(self).taken(), old(self).taken() + 4)),
                )
                &&& final(self).taken() == old(self).taken() + 4
            },
            old(self).spec_remaining() < 4 ==> {
                &&& r == Err::<u32, DecodeError>(DecodeError::Truncated)
                &&& final(self).taken() == old(self).taken()
            },
    {
        if self.buf.len() - self.pos < 4 {
            return Err(DecodeError::Truncated);
        }
        let b0 = self.buf[self.pos];
        let b1 = self.buf[self.pos + 1];
        let b2 = self.buf[self.pos + 2];
        let b3 = self.buf[self.pos + 3];
        self.pos = self.pos + 4;
        Ok(((b0 as u32) << 24) | ((b1 as u32) << 16) | ((b2 as u32) << 8) | (b3 as u32))
    }

    /// Reads a big-endian `i16`.
    pub fn read_be_i16(&mut self) -> (r: Result<i16, DecodeError>)
        requires
            old(self).wf(),
        ensures
            final(self).wf(),
            final(self).data() == old(self).data(),
            old(self).spec_remaining() >= 2 ==> {
                &&& r == Ok::<i16, DecodeError>(
                    spec_be_i16(old(self).data().subrange(old(self).taken(), old(self).taken() + 2)),
                )
                &&& final(self).taken() == old(self).taken() + 2
            },
            old(self).spec_remaining() < 2 ==> {
                &&& r == Err::<i16, DecodeError>(DecodeError::Truncated)
                &&& final(self).taken() == old(self).taken()
            },
    {
        match self.read_be_u16() {
            Ok(v) => Ok(v as i16),
            Err(e) => Err(e),
        }
    }

    /// Reads a big-endian `i32`.
    pub fn read_be_i32(&mut self) -> (r: Result<i32, DecodeError>)
        requires
            old(self).wf(),
        ensures
            final(self).wf(),
            final(self).data() == old(self).data(),
            old(self).spec_remaining() >= 4 ==> {
                &&& r == Ok::<i32, DecodeError>(
                    spec_be_i32(old(self).data().subrange(old(self).taken(), old(self).taken() + 4)),
                )
                &&& final(self).taken() == old(self).taken() + 4
            },
            old(self).spec_remaining() < 4 ==> {
                &&& r == Err::<i32, DecodeError>(DecodeError::Truncated)
                &&& final(self).taken() == old(self).taken()
            },
    {
        match self.read_be_u32() {
            Ok(v) => Ok(v as i32),
            Err(e) => Err(e),
        }
    }

    /// Reads text: the bytes up to the next NUL, excluding the NUL itself,
    /// which is consumed. Fails if the payload ends before a NUL is found.
    pub fn read_cstr(&mut self) -> (r: Result<Vec<u8>, DecodeError>)
        requires
            old(self).wf(),
        ensures
            final(self).wf(),
            final(self).data() == old(self).data(),
            match find_nul(old(self).data(), old(self).taken()) {
                Some(k) => {
                    &&& r matches Ok(v) && v@ == old(self).data().subrange(old(self).taken(), k)
                    &&& final(self).taken() == k + 1
                },
                None => {
                    &&& r == Err::<Vec<u8>, DecodeError>(DecodeError::MalformedText)
                    &&& final(self).taken() == old(self).taken()
                },
            },
    {
        let mut i: usize = self.pos;
        while i < self.buf.len() && self.buf[i] != 0
            invariant
                self.wf(),
                self.taken() <= i <= self.data().len(),
                find_nul(self.data(), self.taken()) == find_nul(self.data(), i as int),
            decreases self.data().len() - i,
        {
            i = i + 1;
        }
        if i >= self.buf.len() {
            return Err(DecodeError::MalformedText);
        }
        assert(find_nul(self.data(), self.taken()) == Some(i as int));
        let n = i - self.pos;
        let v = match self.read_bytes(n) {
            Ok(v) => v,
            Err(_) => {
                proof {
                    assert(false);
                }
                return Err(DecodeError::MalformedText);
            },
        };
        match self.read_u8() {
            Ok(_) => Ok(v),
            Err(_) => {
                proof {
                    assert(false);
                }
                Err(DecodeError::MalformedText)
            },
        }
    }
}

} // verus!
