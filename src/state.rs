use crate::error::CounterError;
use vstd::bytes::{
    lemma_auto_spec_u64_to_from_le_bytes, spec_u64_from_le_bytes, spec_u64_to_le_bytes,
    u64_from_le_bytes, u64_to_le_bytes,
};
use vstd::prelude::*;
use vstd::slice::slice_subrange;

verus! {

/// Length in bytes of a packed counter record.
pub const COUNTER_LEN: usize = 10;

/// The counter record: bytes 0..8 hold `value` (little-endian), byte 8 the
/// initialized flag (0 or 1), byte 9 the bump of the record's address.
#[derive(Debug, Clone, Copy, PartialEq, Eq, Structural)]
pub struct CounterPDA {
    pub value: u64,
    pub is_initialized: bool,
    pub bump: u8,
}

/// The byte that stores a flag.
pub open spec fn flag_byte(b: bool) -> u8 {
    if b {
        1
    } else {
        0
    }
}

/// The ten bytes of a packed record.
pub open spec fn encode(r: CounterPDA) -> Seq<u8> {
    spec_u64_to_le_bytes(r.value) + seq![flag_byte(r.is_initialized), r.bump]
}

/// The record read from the first ten bytes of `s`; any nonzero flag byte
/// reads as initialized.
pub open spec fn decode(s: Seq<u8>) -> CounterPDA
    recommends
        s.len() >= COUNTER_LEN,
{
    CounterPDA {
        value: spec_u64_from_le_bytes(s.subrange(0, 8)),
        is_initialized: s[8] != 0,
        bump: s[9],
    }
}

/// Decoding what was encoded gives the record back.
pub proof fn lemma_round_trip(r: CounterPDA)
    ensures
        encode(r).len() == COUNTER_LEN,
        decode(encode(r)) == r,
{
    lemma_auto_spec_u64_to_from_le_bytes();
    let s = encode(r);
    assert(s.subrange(0, 8) =~= spec_u64_to_le_bytes(r.value));
}

impl CounterPDA {
    /// A fresh, initialized record.
    pub fn new(value: u64, bump: u8) -> (r: Self)
        ensures
            r == (CounterPDA { value, is_initialized: true, bump }),
    {
        CounterPDA { value, is_initialized: true, bump }
    }

    pub fn is_initialized(&self) -> (r: bool)
        ensures
            r == self.is_initialized,
    {
        self.is_initialized
    }

    /// Writes the record into the first ten bytes of `dst`, leaving the rest.
    pub fn pack_into_slice(&self, dst: &mut Vec<u8>)
        requires
            old(dst)@.len() >= COUNTER_LEN,
        ensures
            final(dst)@.len() == old(dst)@.len(),
            final(dst)@.subrange(0, COUNTER_LEN as int) == encode(*self),
            final(dst)@.subrange(COUNTER_LEN as int, final(dst)@.len() as int)
                == old(dst)@.subrange(COUNTER_LEN as int, old(dst)@.len() as int),
    {
        proof {
            lemma_auto_spec_u64_to_from_le_bytes();
        }
        let value_bytes = u64_to_le_bytes(self.value);
        let ghost start = dst@;
        let mut i: usize = 0;
        while i < 8
            invariant
                i <= 8,
                value_bytes@ == spec_u64_to_le_bytes(self.value),
                value_bytes@.len() == 8,
                dst@.len() == start.len(),
                start.len() >= COUNTER_LEN,
                forall|j: int| 0 <= j < i ==> dst@[j] == value_bytes@[j],
                forall|j: int| i <= j < dst@.len() ==> dst@[j] == start[j],
            decreases 8 - i,
        {
            dst[i] = value_bytes[i];
            i = i + 1;
        }
        dst[8] = if self.is_initialized {
            1
        } else {
            0
        };
        dst[9] = self.bump;
        assert(dst@.subrange(0, COUNTER_LEN as int) =~= encode(*self));
        assert(dst@.subrange(COUNTER_LEN as int, dst@.len() as int) =~= start.subrange(
            COUNTER_LEN as int,
            start.len() as int,
        ));
    }

    /// Reads a record from the first ten bytes of `src`.
    pub fn unpack_from_slice(src: &[u8]) -> (r: Result<Self, CounterError>)
        ensures
            src@.len() >= COUNTER_LEN ==> r == Ok::<CounterPDA, CounterError>(decode(src@)),
            src@.len() < COUNTER_LEN ==> r == Err::<CounterPDA, CounterError>(
                CounterError::InvalidAccountData,
            ),
    {
        if src.len() < COUNTER_LEN {
            return Err(CounterError::InvalidAccountData);
        }
        let value = u64_from_le_bytes(slice_subrange(src, 0, 8));
        let is_initialized = src[8] != 0;
        let bump = src[9];
        Ok(CounterPDA { value, is_initialized, bump })
    }
}

} // verus!
