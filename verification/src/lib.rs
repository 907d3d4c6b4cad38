//! On-ledger voting: fixed-layout records, the transitions that a ballot
//! goes through, and the resolution of its winner.
//!
//! A chairperson grants the right to vote, an enfranchised voter casts one
//! vote for one proposal, and the proposal with the most accumulated weight
//! wins. All state lives in byte buffers that the caller holds; the layouts
//! are fixed to the byte, so that state written earlier stays readable.

pub mod error;
pub mod identity;
pub mod instruction;
pub mod ledger;
pub mod proposal;
pub mod system;
pub mod transitions;
pub mod voter;
pub mod winner;
pub mod wire;

pub use error::VotingError;
pub use instruction::Instruction;
pub use proposal::Proposal;
pub use system::SimpleVotingSystem;
pub use transitions::{count_has_room, give_right_to_vote, vote};
pub use voter::Voter;
pub use winner::{header_has_room, winner_name, winning_proposal};
