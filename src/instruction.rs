use crate::error::CounterError;
use vstd::bytes::{spec_u64_from_le_bytes, u64_from_le_bytes};
use vstd::prelude::*;
use vstd::slice::slice_subrange;

verus! {

/// The operations a request can ask for.
#[derive(Debug, Clone, Copy, PartialEq, Eq, Structural)]
pub enum CounterInstruction {
    InitializeCounter,
    IncrementCounter { increment_by: u64 },
    CloseCounter,
}

/// The operation that a payload encodes: byte 0 is the opcode; opcode 1 is
/// followed by exactly eight bytes, the little-endian increment.
pub open spec fn parse_instruction(data: Seq<u8>) -> Option<CounterInstruction> {
    if data.len() == 0 {
        None
    } else if data[0] == 0 {
        Some(CounterInstruction::InitializeCounter)
    } else if data[0] == 1 {
        if data.len() == 9 {
            Some(
                CounterInstruction::IncrementCounter {
                    increment_by: spec_u64_from_le_bytes(data.subrange(1, 9)),
                },
            )
        } else {
            None
        }
    } else if data[0] == 2 {
        Some(CounterInstruction::CloseCounter)
    } else {
        None
    }
}

impl CounterInstruction {
    /// Decodes a request payload.
    pub fn unpack(data: &[u8]) -> (r: Result<Self, CounterError>)
        ensures
            match parse_instruction(data@) {
                Some(i) => r == Ok::<CounterInstruction, CounterError>(i),
                None => r == Err::<CounterInstruction, CounterError>(
                    CounterError::InvalidInstructionData,
                ),
            },
    {
        if data.len() == 0 {
            return Err(CounterError::InvalidInstructionData);
        }
        let opcode = data[0];
        if opcode == 0 {
            Ok(CounterInstruction::InitializeCounter)
        } else if opcode == 1 {
            if data.len() != 9 {
                return Err(CounterError::InvalidInstructionData);
            }
            let increment_by = u64_from_le_bytes(slice_subrange(data, 1, 9));
            Ok(CounterInstruction::IncrementCounter { increment_by })
        } else if opcode == 2 {
            Ok(CounterInstruction::CloseCounter)
        } else {
            Err(CounterError::InvalidInstructionData)
        }
    }
}

} // verus!
