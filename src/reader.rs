//! An in-memory byte source that hands out its bytes front to back.
use crate::le::le_value;
use byteorder::{ByteOrder, LittleEndian};
use vstd::prelude::*;
use vstd::slice::slice_subrange;

verus! {

/// Relies on byteorder's `LittleEndian::read_u16`: the first two bytes, least significant first.
#[verifier::external_body]
fn le_u16(b: &[u8]) -> (r: u16)
    requires
        b@.len() >= 2,
    ensures
        r as nat == le_value(b@.subrange(0, 2)),
{
    LittleEndian::read_u16(b)
}

/// Relies on byteorder's `LittleEndian::read_u32`: the first four bytes, least significant first.
#[verifier::external_body]
fn le_u32(b: &[u8]) -> (r: u32)
    requires
        b@.len() >= 4,
    ensures
        r as nat == le_value(b@.subrange(0, 4)),
{
    LittleEndian::read_u32(b)
}

/// Relies on byteorder's `LittleEndian::read_u64`: the first eight bytes, least significant first.
#[verifier::external_body]
fn le_u64(b: &[u8]) -> (r: u64)
    requires
        b@.len() >= 8,
    ensures
        r as nat == le_value(b@.subrange(0, 8)),
{
    LittleEndian::read_u64(b)
}

/// A byte source over an owned buffer; its view is the bytes not yet read.
pub struct ByteReader {
    data: Vec<u8>,
    pos: usize,
}

impl View for ByteReader {
    type V = Seq<u8>;

    closed spec fn view(&self) -> Seq<u8> {
        self.data@.subrange(self.pos as int, self.data@.len() as int)
    }
}

impl ByteReader {
    #[verifier::type_invariant]
    spec fn inv(self) -> bool {
        self.pos <= self.data.len()
    }

    /// A reader positioned at the first byte of `data`.
    pub fn new(data: Vec<u8>) -> (r: ByteReader)
        ensures
            r@ == data@,
    {
        let r = ByteReader { data, pos: 0 };
        assert(r@ =~= data@);
        r
    }

    /// How many bytes have been read so far.
    pub fn position(&self) -> usize {
        self.pos
    }

    /// The number of bytes left to read.
    pub fn remaining(&self) -> (r: usize)
        ensures
            r == self@.len(),
    {
        proof {
            use_type_invariant(self);
        }
        self.data.len() - self.pos
    }

    /// Reads one byte; `None`, with nothing consumed, when no byte is left.
    pub fn read_u8(&mut self) -> (r: Option<u8>)
        ensures
            old(self)@.len() == 0 ==> r is None && final(self)@ == old(self)@,
            old(self)@.len() > 0 ==> r == Some(old(self)@[0]) && final(self)@ == old(
                self,
            )@.skip(1),
    {
        proof {
            use_type_invariant(&*self);
        }
        if self.pos >= self.data.len() {
            return None;
        }
        let b = self.data[self.pos];
        self.pos = self.pos + 1;
        assert(self@ =~= old(self)@.skip(1));
        Some(b)
    }

    /// Reads a little-endian `u16`; `None`, with nothing consumed, when fewer than two bytes are left.
    pub fn read_u16_le(&mut self) -> (r: Option<u16>)
        ensures
            old(self)@.len() < 2 ==> r is None && final(self)@ == old(self)@,
            old(self)@.len() >= 2 ==> (r matches Some(x) && x as nat == le_value(
                old(self)@.subrange(0, 2),
            )) && final(self)@ == old(self)@.skip(2),
    {
        proof {
            use_type_invariant(&*self);
        }
        if self.data.len() - self.pos < 2 {
            return None;
        }
        let x = le_u16(slice_subrange(self.data.as_slice(), self.pos, self.pos + 2));
        self.pos = self.pos + 2;
        assert(self@ =~= old(self)@.skip(2));
        assert(old(self)@.subrange(0, 2) =~= old(self).data@.subrange(
            old(self).pos as int,
            old(self).pos + 2,
        ).subrange(0, 2));
        Some(x)
    }

    /// Reads a little-endian `u32`; `None`, with nothing consumed, when fewer than four bytes are left.
    pub fn read_u32_le(&mut self) -> (r: Option<u32>)
        ensures
            old(self)@.len() < 4 ==> r is None && final(self)@ == old(self)@,
            old(self)@.len() >= 4 ==> (r matches Some(x) && x as nat == le_value(
                old(self)@.subrange(0, 4),
            )) && final(self)@ == old(self)@.skip(4),
    {
        proof {
            use_type_invariant(&*self);
        }
        if self.data.len() - self.pos < 4 {
            return None;
        }
        let x = le_u32(slice_subrange(self.data.as_slice(), self.pos, self.pos + 4));
        self.pos = self.pos + 4;
        assert(self@ =~= old(self)@.skip(4));
        assert(old(self)@.subrange(0, 4) =~= old(self).data@.subrange(
            old(self).pos as int,
            old(self).pos + 4,
        ).subrange(0, 4));
        Some(x)
    }

    /// Reads a little-endian `u64`; `None`, with nothing consumed, when fewer than eight bytes are left.
    pub fn read_u64_le(&mut self) -> (r: Option<u64>)
        ensures
            old(self)@.len() < 8 ==> r is None && final(self)@ == old(self)@,
            old(self)@.len() >= 8 ==> (r matches Some(x) && x as nat == le_value(
                old(self)@.subrange(0, 8),
            )) && final(self)@ == old(self)@.skip(8),
    {
        proof {
            use_type_invariant(&*self);
        }
        if self.data.len() - self.pos < 8 {
            return None;
        }
        let x = le_u64(slice_subrange(self.data.as_slice(), self.pos, self.pos + 8));
        self.pos = self.pos + 8;
        assert(self@ =~= old(self)@.skip(8));
        assert(old(self)@.subrange(0, 8) =~= old(self).data@.subrange(
            old(self).pos as int,
            old(self).pos + 8,
        ).subrange(0, 8));
        Some(x)
    }
}

} // verus!
