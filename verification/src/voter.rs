//! One voter's record and its fixed 9-byte layout.
//!
//! | bytes    | field    | encoding                       |
//! |----------|----------|--------------------------------|
//! | `[0, 4)` | `weight` | little-endian                  |
//! | `[4]`    | `voted`  | nonzero reads as `true`        |
//! | `[5, 9)` | `vote`   | little-endian                  |

use crate::error::VotingError;
use crate::wire::{
    le_bytes, le_u32, lemma_le_u32_of_le_bytes, push_u32, read_u32, splice, write_u32,
};
use vstd::prelude::*;

verus! {

/// Length of an encoded voter.
pub const VOTER_LEN: usize = 9;

/// A voter's standing in the ballot. A `Voter` is its own mathematical
/// model: contracts speak of its three fields directly.
#[derive(Clone, Copy, Debug, PartialEq, Eq, Structural)]
pub struct Voter {
    /// Voting power; 0 means that the voter is not enfranchised.
    pub weight: u32,
    /// Set once a vote has been cast, and never cleared again.
    pub voted: bool,
    /// Index of the proposal voted for; without meaning while `voted` is
    /// `false`.
    pub vote: u32,
}

impl Voter {
    /// The record that the first 9 bytes of `s` spell.
    pub open spec fn decode(s: Seq<u8>) -> Voter
        recommends
            s.len() >= VOTER_LEN,
    {
        Voter { weight: le_u32(s.subrange(0, 4)), voted: s[4] != 0, vote: le_u32(s.subrange(5, 9)) }
    }

    /// What reading a record from `s` gives: the decoded record, or
    /// `MalformedRecord` where `s` has fewer than 9 bytes.
    pub open spec fn parse(s: Seq<u8>) -> Result<Voter, VotingError> {
        if s.len() < VOTER_LEN {
            Err(VotingError::MalformedRecord)
        } else {
            Ok(Voter::decode(s))
        }
    }

    /// The 9 bytes that spell this record.
    pub open spec fn encode(self) -> Seq<u8> {
        le_bytes(self.weight) + seq![if self.voted { 1u8 } else { 0u8 }] + le_bytes(self.vote)
    }

    /// Decoding an encoded record gives the record back, whatever follows
    /// the 9 bytes.
    pub proof fn law_round_trip(self, rest: Seq<u8>)
        ensures
            self.encode().len() == VOTER_LEN,
            Voter::parse(self.encode()) == Ok::<Voter, VotingError>(self),
            Voter::parse(self.encode() + rest) == Ok::<Voter, VotingError>(self),
    {
        lemma_le_u32_of_le_bytes(self.weight);
        lemma_le_u32_of_le_bytes(self.vote);
    }

    /// Reads the voter at `data[at..at + 9]`.
    pub(crate) fn read_at(data: &[u8], at: usize) -> (v: Voter)
        requires
            at + VOTER_LEN <= data.len(),
        ensures
            v == Voter::decode(data@.subrange(at as int, at + VOTER_LEN)),
    {
        let weight = read_u32(data, at);
        let voted = data[at + 4] != 0;
        let vote = read_u32(data, at + 5);
        Voter { weight, voted, vote }
    }

    /// Reads a voter from the first 9 bytes of `bytes`.
    pub fn from_bytes(bytes: &[u8]) -> (r: Result<Voter, VotingError>)
        ensures
            r == Voter::parse(bytes@),
    {
        if bytes.len() < VOTER_LEN {
            return Err(VotingError::MalformedRecord);
        }
        Ok(Voter::read_at(bytes, 0))
    }

    /// Encodes this voter as 9 bytes.
    pub fn to_bytes(&self) -> (bytes: Vec<u8>)
        ensures
            bytes@ == self.encode(),
    {
        let mut bytes: Vec<u8> = Vec::new();
        push_u32(&mut bytes, self.weight);
        bytes.push(if self.voted { 1u8 } else { 0u8 });
        push_u32(&mut bytes, self.vote);
        bytes
    }

    /// Reads a voter from an account's data; the same as `from_bytes`.
    pub fn deserialize(data: &[u8]) -> (r: Result<Voter, VotingError>)
        ensures
            r == Voter::parse(data@),
    {
        Voter::from_bytes(data)
    }

    /// Encodes this voter for an account's data; the same as `to_bytes`.
    pub fn serialize(&self) -> (bytes: Vec<u8>)
        ensures
            bytes@ == self.encode(),
    {
        self.to_bytes()
    }

    /// Writes this voter over the first 9 bytes of `data` and leaves the
    /// bytes after them as they were.
    pub(crate) fn store(&self, data: &mut [u8])
        requires
            old(data)@.len() >= VOTER_LEN,
        ensures
            final(data)@ == splice(old(data)@, 0, self.encode()),
    {
        write_u32(data, 0, self.weight);
        data[4] = if self.voted { 1u8 } else { 0u8 };
        write_u32(data, 5, self.vote);
    }
}

} // verus!
