//! The CompactSize value type: its model, constructors, serialization and parsing.
use crate::le::{le_bytes, le_value, pow256};
use crate::reader::ByteReader;
use vstd::prelude::*;

verus! {

/// Values above this are unusual in practice and hint at a stream that lost its place.
pub const SUSPICIOUS_VALUE: u64 = 999_999;

/// The size class of an encoding: how many bytes hold the value.
#[derive(Clone, Copy, Debug, PartialEq, Eq, Structural)]
pub enum Width {
    /// One byte, the value itself, no marker.
    U8,
    /// The marker `0xfd` and two little-endian bytes.
    U16,
    /// The marker `0xfe` and four little-endian bytes.
    U32,
    /// The marker `0xff` and eight little-endian bytes.
    U64,
}

/// Why bytes could not be parsed as a `VarUint`.
#[derive(Clone, Copy, Debug, PartialEq, Eq, Structural)]
pub enum DecodeError {
    /// The source ended before the encoding did.
    UnexpectedEof,
    /// The prefix byte names no size class.
    InvalidData,
}

/// A variable-length unsigned integer (also known as CompactSize).
#[derive(Clone, Copy, Debug, PartialEq, Eq, Structural)]
pub struct VarUint {
    /// The number the encoding stands for.
    pub value: u64,
    /// The size class it is encoded in.
    pub width: Width,
}

/// How many bytes of a given size class hold the value.
pub open spec fn value_len(w: Width) -> nat {
    match w {
        Width::U8 => 1,
        Width::U16 => 2,
        Width::U32 => 4,
        Width::U64 => 8,
    }
}

/// The marker byte in front of a multi-byte size class.
pub open spec fn marker(w: Width) -> u8 {
    match w {
        Width::U8 => 0,
        Width::U16 => 0xfd,
        Width::U32 => 0xfe,
        Width::U64 => 0xff,
    }
}

/// How many bytes follow a given prefix byte.
pub open spec fn payload_len(prefix: u8) -> nat {
    if prefix <= 0xfc {
        0
    } else if prefix == 0xfd {
        2
    } else if prefix == 0xfe {
        4
    } else {
        8
    }
}

/// The size class that a marker byte selects.
pub open spec fn width_of_marker(prefix: u8) -> Width {
    if prefix == 0xfd {
        Width::U16
    } else if prefix == 0xfe {
        Width::U32
    } else {
        Width::U64
    }
}

/// The value at the front of `s`, or `None` when `s` ends before its encoding does.
pub open spec fn decoded(s: Seq<u8>) -> Option<VarUint> {
    if s.len() == 0 || s.len() < 1 + payload_len(s[0]) {
        None
    } else if s[0] <= 0xfc {
        Some(VarUint { value: s[0] as u64, width: Width::U8 })
    } else {
        Some(
            VarUint {
                value: le_value(s.subrange(1, 1 + payload_len(s[0]) as int)) as u64,
                width: width_of_marker(s[0]),
            },
        )
    }
}

/// The value of a `u8` in the one-byte size class.
pub open spec fn of_u8(v: u8) -> VarUint {
    VarUint { value: v as u64, width: Width::U8 }
}

/// The value of a `u16` in the three-byte size class.
pub open spec fn of_u16(v: u16) -> VarUint {
    VarUint { value: v as u64, width: Width::U16 }
}

/// The value of a `u32` in the five-byte size class.
pub open spec fn of_u32(v: u32) -> VarUint {
    VarUint { value: v as u64, width: Width::U32 }
}

/// The value of a `u64` in the nine-byte size class.
pub open spec fn of_u64(v: u64) -> VarUint {
    VarUint { value: v, width: Width::U64 }
}

impl VarUint {
    /// The value fits in the bytes of its size class.
    pub open spec fn wf(self) -> bool {
        match self.width {
            Width::U8 => self.value < 0x100,
            Width::U16 => self.value < 0x1_0000,
            Width::U32 => self.value < 0x1_0000_0000,
            Width::U64 => true,
        }
    }

    /// The bytes that stand for this value in its size class.
    pub open spec fn encoding(self) -> Seq<u8> {
        match self.width {
            Width::U8 => seq![self.value as u8],
            _ => seq![marker(self.width)] + le_bytes(self.value as nat, value_len(self.width)),
        }
    }

    /// The one constructor that every conversion goes through.
    fn new(value: u64, width: Width) -> (r: VarUint)
        ensures
            r == (VarUint { value, width }),
    {
        VarUint { value, width }
    }

    /// Whether the value is above `threshold`, a sign of a stream read out of step.
    pub fn exceeds(&self, threshold: u64) -> (r: bool)
        ensures
            r == (self.value > threshold),
    {
        self.value > threshold
    }

    /// The encoded bytes.
    pub fn to_bytes(&self) -> (r: Vec<u8>)
        ensures
            r@ == self.encoding(),
    {
        match self.width {
            Width::U8 => {
                let r = vec![self.value as u8];
                assert(r@ =~= seq![self.value as u8]);
                r
            },
            Width::U16 => {
                let mut r: Vec<u8> = Vec::with_capacity(3);
                r.push(0xfd);
                push_le(&mut r, self.value, 2);
                r
            },
            Width::U32 => {
                let mut r: Vec<u8> = Vec::with_capacity(5);
                r.push(0xfe);
                push_le(&mut r, self.value, 4);
                r
            },
            Width::U64 => {
                let mut r: Vec<u8> = Vec::with_capacity(9);
                r.push(0xff);
                push_le(&mut r, self.value, 8);
                r
            },
        }
    }

    /// How many bytes follow the prefix byte `prefix` in an encoding.
    pub fn bytes_after_prefix(prefix: u8) -> (r: usize)
        ensures
            r == payload_len(prefix),
    {
        if prefix <= 0xfc {
            0
        } else if prefix == 0xfd {
            2
        } else if prefix == 0xfe {
            4
        } else {
            8
        }
    }

    /// Parses one value from the front of `reader`.
    ///
    /// On success the reader has moved past exactly the bytes of the encoding;
    /// a source that ends early gives `UnexpectedEof`, never a partial value.
    #[allow(unreachable_patterns)]
    pub fn read_from(reader: &mut ByteReader) -> (r: Result<VarUint, DecodeError>)
        ensures
            match decoded(old(reader)@) {
                Some(v) => {
                    &&& r == Ok::<VarUint, DecodeError>(v)
                    &&& final(reader)@ == old(reader)@.skip(1 + payload_len(old(reader)@[0]) as int)
                },
                None => {
                    &&& r == Err::<VarUint, DecodeError>(DecodeError::UnexpectedEof)
                    &&& final(reader)@ == old(reader)@.skip(if old(reader)@.len() == 0 { 0 } else { 1 })
                },
            },
    {
        let first = match reader.read_u8() {
            Some(b) => b,
            None => return Err(DecodeError::UnexpectedEof),
        };
        let ghost rest = reader@;
        proof {
            assert(old(reader)@.skip(1) == rest);
        }
        match first {
            0x00..=0xfc => Ok(VarUint::from(first)),
            0xfd => match reader.read_u16_le() {
                Some(v) => {
                    proof {
                        assert(rest.subrange(0, 2) =~= old(reader)@.subrange(1, 3));
                        assert(reader@ =~= old(reader)@.skip(3));
                    }
                    Ok(VarUint::from(v))
                },
                None => Err(DecodeError::UnexpectedEof),
            },
            0xfe => match reader.read_u32_le() {
                Some(v) => {
                    proof {
                        assert(rest.subrange(0, 4) =~= old(reader)@.subrange(1, 5));
                        assert(reader@ =~= old(reader)@.skip(5));
                    }
                    Ok(VarUint::from(v))
                },
                None => Err(DecodeError::UnexpectedEof),
            },
            0xff => match reader.read_u64_le() {
                Some(v) => {
                    proof {
                        assert(rest.subrange(0, 8) =~= old(reader)@.subrange(1, 9));
                        assert(reader@ =~= old(reader)@.skip(9));
                    }
                    Ok(VarUint::from(v))
                },
                None => Err(DecodeError::UnexpectedEof),
            },
            _ => Err(DecodeError::InvalidData),
        }
    }
}

/// Appends the lowest `n` bytes of `v`, least significant first.
fn push_le(buf: &mut Vec<u8>, v: u64, n: usize)
    requires
        n <= 8,
    ensures
        final(buf)@ == old(buf)@ + le_bytes(v as nat, n as nat),
{
    let mut x: u64 = v;
    let mut i: usize = 0;
    proof {
        assert(old(buf)@ + le_bytes(v as nat, 0) =~= old(buf)@);
        assert(pow256(0) == 1);
        assert(v as nat / pow256(0) == v as nat);
    }
    while i < n
        invariant
            i <= n,
            buf@ == old(buf)@ + le_bytes(v as nat, i as nat),
            x as nat == v as nat / pow256(i as nat),
        decreases n - i,
    {
        proof {
            crate::le::lemma_le_bytes_step(v as nat, i as nat, x as nat);
        }
        buf.push((x % 256) as u8);
        x = x / 256;
        i = i + 1;
        proof {
            assert(buf@ =~= old(buf)@ + le_bytes(v as nat, i as nat));
        }
    }
}

impl From<u8> for VarUint {
    fn from(value: u8) -> Self {
        VarUint::new(value as u64, Width::U8)
    }
}

impl vstd::std_specs::convert::FromSpecImpl<u8> for VarUint {
    open spec fn obeys_from_spec() -> bool {
        true
    }

    open spec fn from_spec(v: u8) -> Self {
        of_u8(v)
    }
}

impl From<u16> for VarUint {
    fn from(value: u16) -> Self {
        VarUint::new(value as u64, Width::U16)
    }
}

impl vstd::std_specs::convert::FromSpecImpl<u16> for VarUint {
    open spec fn obeys_from_spec() -> bool {
        true
    }

    open spec fn from_spec(v: u16) -> Self {
        of_u16(v)
    }
}

impl From<u32> for VarUint {
    fn from(value: u32) -> Self {
        VarUint::new(value as u64, Width::U32)
    }
}

impl vstd::std_specs::convert::FromSpecImpl<u32> for VarUint {
    open spec fn obeys_from_spec() -> bool {
        true
    }

    open spec fn from_spec(v: u32) -> Self {
        of_u32(v)
    }
}

impl From<u64> for VarUint {
    fn from(value: u64) -> Self {
        VarUint::new(value, Width::U64)
    }
}

impl vstd::std_specs::convert::FromSpecImpl<u64> for VarUint {
    open spec fn obeys_from_spec() -> bool {
        true
    }

    open spec fn from_spec(v: u64) -> Self {
        of_u64(v)
    }
}

} // verus!
