//! A read position in a byte buffer that never moves past the end.
use crate::cstr::{c_str_at, find_nul, lemma_nul_index, terminated};
use crate::item::{extent_at, fid_at, get_extent, get_fid, HsmExtent, LuFid};
use crate::layout::{get_u32, get_u64, u32_at, u64_at};
use vstd::prelude::*;
use vstd::slice::slice_subrange;

verus! {

/// A buffer together with a read position. Every read checks the bytes that
/// are left: one that asks for more fails and leaves the position where it
/// was.
pub struct ByteCursor<'a> {
    bytes: &'a [u8],
    pos: usize,
}

impl<'a> ByteCursor<'a> {
    #[verifier::type_invariant]
    spec fn in_bounds(self) -> bool {
        self.pos <= self.bytes@.len()
    }

    /// The whole buffer.
    pub closed spec fn input(&self) -> Seq<u8> {
        self.bytes@
    }

    /// How many bytes have been read.
    pub closed spec fn offset(&self) -> nat {
        self.pos as nat
    }

    /// The bytes that have not been read yet.
    pub open spec fn rest(&self) -> Seq<u8> {
        self.input().skip(self.offset() as int)
    }

    /// How many bytes have not been read yet.
    pub open spec fn unread(&self) -> int {
        self.input().len() - self.offset()
    }

    /// Whether `self` is `before` moved forward by `count` bytes, within the
    /// same buffer.
    pub open spec fn advanced(&self, before: &ByteCursor<'a>, count: int) -> bool {
        &&& self.input() == before.input()
        &&& self.offset() == before.offset() + count
        &&& self.offset() <= self.input().len()
    }

    /// A cursor at the start of `bytes`.
    pub fn new(bytes: &'a [u8]) -> (cursor: ByteCursor<'a>)
        ensures
            cursor.input() == bytes@,
            cursor.offset() == 0,
    {
        ByteCursor { bytes, pos: 0 }
    }

    /// How many bytes have been read.
    pub fn position(&self) -> (pos: usize)
        ensures
            pos == self.offset(),
            pos <= self.input().len(),
    {
        proof {
            use_type_invariant(self);
        }
        self.pos
    }

    /// How many bytes are left.
    pub fn remaining(&self) -> (left: usize)
        ensures
            left == self.unread(),
    {
        proof {
            use_type_invariant(self);
        }
        self.bytes.len() - self.pos
    }

    /// Moves forward by `count` bytes, if that many are left.
    pub fn skip(&mut self, count: usize) -> (moved: bool)
        ensures
            moved == (count <= old(self).unread()),
            final(self).advanced(old(self), if moved { count as int } else { 0 }),
    {
        proof {
            use_type_invariant(&*self);
        }
        if count <= self.bytes.len() - self.pos {
            self.pos = self.pos + count;
            true
        } else {
            false
        }
    }

    /// Hands out the next `count` bytes, if that many are left.
    pub fn take(&mut self, count: usize) -> (taken: Option<&'a [u8]>)
        ensures
            match taken {
                Some(slice) => {
                    &&& count <= old(self).unread()
                    &&& slice@ == old(self).input().subrange(
                        old(self).offset() as int,
                        old(self).offset() + count,
                    )
                    &&& final(self).advanced(old(self), count as int)
                },
                None => count > old(self).unread() && final(self).advanced(old(self), 0),
            },
    {
        proof {
            use_type_invariant(&*self);
        }
        if count <= self.bytes.len() - self.pos {
            let slice = slice_subrange(self.bytes, self.pos, self.pos + count);
            self.pos = self.pos + count;
            Some(slice)
        } else {
            None
        }
    }

    /// Reads a little-endian `u32`, if four bytes are left.
    pub fn read_u32(&mut self) -> (value: Option<u32>)
        ensures
            match value {
                Some(v) => {
                    &&& 4 <= old(self).unread()
                    &&& v == u32_at(old(self).input(), old(self).offset() as int)
                    &&& final(self).advanced(old(self), 4)
                },
                None => 4 > old(self).unread() && final(self).advanced(old(self), 0),
            },
    {
        proof {
            use_type_invariant(&*self);
        }
        if 4 <= self.bytes.len() - self.pos {
            let v = get_u32(self.bytes, self.pos);
            self.pos = self.pos + 4;
            Some(v)
        } else {
            None
        }
    }

    /// Reads a little-endian `u64`, if eight bytes are left.
    pub fn read_u64(&mut self) -> (value: Option<u64>)
        ensures
            match value {
                Some(v) => {
                    &&& 8 <= old(self).unread()
                    &&& v == u64_at(old(self).input(), old(self).offset() as int)
                    &&& final(self).advanced(old(self), 8)
                },
                None => 8 > old(self).unread() && final(self).advanced(old(self), 0),
            },
    {
        proof {
            use_type_invariant(&*self);
        }
        if 8 <= self.bytes.len() - self.pos {
            let v = get_u64(self.bytes, self.pos);
            self.pos = self.pos + 8;
            Some(v)
        } else {
            None
        }
    }

    /// Reads a file identifier, if sixteen bytes are left.
    pub fn read_fid(&mut self) -> (value: Option<LuFid>)
        ensures
            match value {
                Some(v) => {
                    &&& 16 <= old(self).unread()
                    &&& v == fid_at(old(self).input(), old(self).offset() as int)
                    &&& final(self).advanced(old(self), 16)
                },
                None => 16 > old(self).unread() && final(self).advanced(old(self), 0),
            },
    {
        proof {
            use_type_invariant(&*self);
        }
        if 16 <= self.bytes.len() - self.pos {
            let v = get_fid(self.bytes, self.pos);
            self.pos = self.pos + 16;
            Some(v)
        } else {
            None
        }
    }

    /// Reads an extent, if sixteen bytes are left.
    pub fn read_extent(&mut self) -> (value: Option<HsmExtent>)
        ensures
            match value {
                Some(v) => {
                    &&& 16 <= old(self).unread()
                    &&& v == extent_at(old(self).input(), old(self).offset() as int)
                    &&& final(self).advanced(old(self), 16)
                },
                None => 16 > old(self).unread() && final(self).advanced(old(self), 0),
            },
    {
        proof {
            use_type_invariant(&*self);
        }
        if 16 <= self.bytes.len() - self.pos {
            let v = get_extent(self.bytes, self.pos);
            self.pos = self.pos + 16;
            Some(v)
        } else {
            None
        }
    }

    /// Hands out the nul-terminated name that starts here and moves past its
    /// terminator, if a zero byte is left.
    pub fn read_c_str(&mut self) -> (name: Option<&'a [u8]>)
        ensures
            match name {
                Some(slice) => {
                    &&& terminated(old(self).input(), old(self).offset() as int)
                    &&& slice@ == c_str_at(old(self).input(), old(self).offset() as int)
                    &&& final(self).advanced(old(self), slice@.len() as int + 1)
                },
                None => {
                    &&& !terminated(old(self).input(), old(self).offset() as int)
                    &&& final(self).advanced(old(self), 0)
                },
            },
    {
        proof {
            use_type_invariant(&*self);
            lemma_nul_index(self.bytes@, self.pos as int);
        }
        match find_nul(self.bytes, self.pos) {
            Some(end) => {
                let slice = slice_subrange(self.bytes, self.pos, end);
                assert(end < self.bytes.len());
                self.pos = end + 1;
                Some(slice)
            },
            None => None,
        }
    }
}

} // verus!
