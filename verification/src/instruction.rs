//! The instructions that the dispatcher hands on, as they arrive on the
//! wire: one opcode byte, then the opcode's payload.

use crate::error::VotingError;
use crate::wire::{le_u32, read_u32};
use vstd::prelude::*;

verus! {

/// Opcode of `Instruction::GrantRight`.
pub const OPCODE_GRANT_RIGHT: u8 = 0;

/// Opcode of `Instruction::CastVote`.
pub const OPCODE_CAST_VOTE: u8 = 1;

/// Length of a whole cast-vote instruction: the opcode and a 32-bit index.
pub const CAST_VOTE_LEN: usize = 5;

/// A transition that the ballot is asked to take.
#[derive(Clone, Copy, Debug, PartialEq, Eq, Structural)]
pub enum Instruction {
    /// Enfranchise the voter. Bytes after the opcode are ignored.
    GrantRight,
    /// Let the voter vote for the proposal with this index.
    CastVote { proposal_index: u32 },
}

impl Instruction {
    /// What instruction data decodes to. Data without an opcode, and a
    /// cast-vote whose payload is not exactly the four bytes of a
    /// little-endian index, are malformed; an opcode other than 0 and 1 is
    /// unknown.
    pub open spec fn parse(s: Seq<u8>) -> Result<Instruction, VotingError> {
        if s.len() == 0 {
            Err(VotingError::MalformedRecord)
        } else if s[0] == OPCODE_GRANT_RIGHT {
            Ok(Instruction::GrantRight)
        } else if s[0] == OPCODE_CAST_VOTE {
            if s.len() == CAST_VOTE_LEN {
                Ok(Instruction::CastVote { proposal_index: le_u32(s.subrange(1, 5)) })
            } else {
                Err(VotingError::MalformedRecord)
            }
        } else {
            Err(VotingError::UnknownOpcode)
        }
    }

    /// Decodes instruction data.
    pub fn unpack(data: &[u8]) -> (r: Result<Instruction, VotingError>)
        ensures
            r == Instruction::parse(data@),
    {
        if data.len() == 0 {
            return Err(VotingError::MalformedRecord);
        }
        let opcode = data[0];
        if opcode == OPCODE_GRANT_RIGHT {
            Ok(Instruction::GrantRight)
        } else if opcode == OPCODE_CAST_VOTE {
            if data.len() == CAST_VOTE_LEN {
                Ok(Instruction::CastVote { proposal_index: read_u32(data, 1) })
            } else {
                Err(VotingError::MalformedRecord)
            }
        } else {
            Err(VotingError::UnknownOpcode)
        }
    }
}

} // verus!
