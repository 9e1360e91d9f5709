//! Byte representations of the integers: little endian, so that an arena holds
//! the same bytes on every machine. A signed integer is written as the unsigned
//! integer of the same bits.

use vstd::prelude::*;
use vstd::bytes::{
    lemma_auto_spec_u16_to_from_le_bytes, lemma_auto_spec_u32_to_from_le_bytes,
    lemma_auto_spec_u64_to_from_le_bytes, spec_u16_from_le_bytes, spec_u16_to_le_bytes,
    spec_u32_from_le_bytes, spec_u32_to_le_bytes, spec_u64_from_le_bytes, spec_u64_to_le_bytes,
    u16_from_le_bytes, u16_to_le_bytes, u32_from_le_bytes, u32_to_le_bytes, u64_from_le_bytes,
    u64_to_le_bytes,
};
use crate::util::{round_trips, Byteable};

verus! {

impl Byteable for u8 {
    fn size() -> (n: usize)
        ensures
            n == 1,
    {
        1
    }

    fn from_bytes(bytes: &[u8]) -> (r: Option<Self>)
        ensures
            r == if bytes@.len() == 1 {
                Some(bytes@[0])
            } else {
                None
            },
    {
        if bytes.len() == 1 {
            Some(bytes[0])
        } else {
            None
        }
    }

    fn into_bytes(self) -> (out: Vec<u8>)
        ensures
            out@ == seq![self],
    {
        let mut out = Vec::new();
        out.push(self);
        out
    }
}

impl Byteable for u32 {
    fn size() -> (n: usize)
        ensures
            n == 4,
    {
        4
    }

    fn from_bytes(bytes: &[u8]) -> (r: Option<Self>)
        ensures
            r == if bytes@.len() == 4 {
                Some(spec_u32_from_le_bytes(bytes@))
            } else {
                None
            },
    {
        if bytes.len() == 4 {
            Some(u32_from_le_bytes(bytes))
        } else {
            None
        }
    }

    fn into_bytes(self) -> (out: Vec<u8>)
        ensures
            out@ == spec_u32_to_le_bytes(self),
            out@.len() == 4,
    {
        u32_to_le_bytes(self)
    }
}

impl Byteable for u16 {
    fn size() -> (n: usize)
        ensures
            n == 2,
    {
        2
    }

    fn from_bytes(bytes: &[u8]) -> (r: Option<Self>)
        ensures
            r == if bytes@.len() == 2 {
                Some(spec_u16_from_le_bytes(bytes@))
            } else {
                None
            },
    {
        if bytes.len() == 2 {
            Some(u16_from_le_bytes(bytes))
        } else {
            None
        }
    }

    fn into_bytes(self) -> (out: Vec<u8>)
        ensures
            out@ == spec_u16_to_le_bytes(self),
            out@.len() == 2,
    {
        u16_to_le_bytes(self)
    }
}

impl Byteable for u64 {
    fn size() -> (n: usize)
        ensures
            n == 8,
    {
        8
    }

    fn from_bytes(bytes: &[u8]) -> (r: Option<Self>)
        ensures
            r == if bytes@.len() == 8 {
                Some(spec_u64_from_le_bytes(bytes@))
            } else {
                None
            },
    {
        if bytes.len() == 8 {
            Some(u64_from_le_bytes(bytes))
        } else {
            None
        }
    }

    fn into_bytes(self) -> (out: Vec<u8>)
        ensures
            out@ == spec_u64_to_le_bytes(self),
            out@.len() == 8,
    {
        u64_to_le_bytes(self)
    }
}

impl Byteable for i32 {
    fn size() -> (n: usize)
        ensures
            n == 4,
    {
        4
    }

    fn from_bytes(bytes: &[u8]) -> (r: Option<Self>)
        ensures
            r == if bytes@.len() == 4 {
                Some(spec_u32_from_le_bytes(bytes@) as i32)
            } else {
                None
            },
    {
        if bytes.len() == 4 {
            Some(u32_from_le_bytes(bytes) as i32)
        } else {
            None
        }
    }

    fn into_bytes(self) -> (out: Vec<u8>)
        ensures
            out@ == spec_u32_to_le_bytes(self as u32),
            out@.len() == 4,
    {
        u32_to_le_bytes(self as u32)
    }
}

impl Byteable for i64 {
    fn size() -> (n: usize)
        ensures
            n == 8,
    {
        8
    }

    fn from_bytes(bytes: &[u8]) -> (r: Option<Self>)
        ensures
            r == if bytes@.len() == 8 {
                Some(spec_u64_from_le_bytes(bytes@) as i64)
            } else {
                None
            },
    {
        if bytes.len() == 8 {
            Some(u64_from_le_bytes(bytes) as i64)
        } else {
            None
        }
    }

    fn into_bytes(self) -> (out: Vec<u8>)
        ensures
            out@ == spec_u64_to_le_bytes(self as u64),
            out@.len() == 8,
    {
        u64_to_le_bytes(self as u64)
    }
}

/// Reading a `u8` gives back what was written.
pub proof fn law_u8_round_trips()
    ensures
        round_trips::<u8>(),
{
}

/// Reading a `u32` gives back what was written.
pub proof fn law_u32_round_trips()
    ensures
        round_trips::<u32>(),
{
    lemma_auto_spec_u32_to_from_le_bytes();
}

/// Reading a `u16` gives back what was written.
pub proof fn law_u16_round_trips()
    ensures
        round_trips::<u16>(),
{
    lemma_auto_spec_u16_to_from_le_bytes();
}

/// Reading a `u64` gives back what was written.
pub proof fn law_u64_round_trips()
    ensures
        round_trips::<u64>(),
{
    lemma_auto_spec_u64_to_from_le_bytes();
}

/// Reading an `i32` gives back what was written.
pub proof fn law_i32_round_trips()
    ensures
        round_trips::<i32>(),
{
    lemma_auto_spec_u32_to_from_le_bytes();
    assert forall|x: i32| #[trigger] ((x as u32) as i32) == x by {
        assert(((x as u32) as i32) == x) by (bit_vector);
    }
}

/// Reading an `i64` gives back what was written.
pub proof fn law_i64_round_trips()
    ensures
        round_trips::<i64>(),
{
    lemma_auto_spec_u64_to_from_le_bytes();
    assert forall|x: i64| #[trigger] ((x as u64) as i64) == x by {
        assert(((x as u64) as i64) == x) by (bit_vector);
    }
}

} // verus!
