//! The two transitions of a voter: being granted the right to vote, and
//! voting.
//!
//! The state lives in buffers that the caller holds. A transition decodes
//! the records it needs, decides, and only then writes the new encoding over
//! the old one: a call that fails has written nothing.
//!
//! A voter goes from not enfranchised to enfranchised by
//! `give_right_to_vote` and from enfranchised to voted by `vote`. Voted is
//! final.

use crate::error::VotingError;
use crate::proposal::{Proposal, ProposalView, PROPOSAL_LEN};
use crate::voter::{Voter, VOTER_LEN};
use crate::wire::splice;
use vstd::prelude::*;

verus! {

impl Voter {
    /// The voter after the right to vote has been granted: weight 1 and no
    /// vote, whatever the weight was before. A voter that has voted is
    /// refused.
    pub open spec fn granted(self) -> Result<Voter, VotingError> {
        if self.voted {
            Err(VotingError::AlreadyVoted)
        } else {
            Ok(Voter { weight: 1, voted: false, vote: 0 })
        }
    }

    /// The voter after voting for the proposal with index `index`. A voter
    /// without weight is refused, then one that has voted.
    pub open spec fn having_voted(self, index: u32) -> Result<Voter, VotingError> {
        if self.weight == 0 {
            Err(VotingError::NotEnfranchised)
        } else if self.voted {
            Err(VotingError::AlreadyVoted)
        } else {
            Ok(Voter { weight: self.weight, voted: true, vote: index })
        }
    }
}

impl ProposalView {
    /// The proposal after a vote of the given weight has been added to it.
    pub open spec fn credited(self, weight: u32) -> ProposalView
        recommends
            self.vote_count + weight <= u32::MAX,
    {
        ProposalView { name: self.name, vote_count: (self.vote_count + weight) as u32 }
    }
}

/// The outcome of `give_right_to_vote` on a voter's buffer: the result, and
/// what the buffer holds afterwards.
pub open spec fn grant_right(voter: Seq<u8>) -> (Result<(), VotingError>, Seq<u8>) {
    match Voter::parse(voter) {
        Err(e) => (Err(e), voter),
        Ok(v) => match v.granted() {
            Err(e) => (Err(e), voter),
            Ok(w) => (Ok(()), splice(voter, 0, w.encode())),
        },
    }
}

/// The outcome of `vote` on a voter's and a proposal's buffer: the result,
/// and what the two buffers hold afterwards. Both records are decoded, the
/// voter's first, before the voter is judged.
pub open spec fn cast_vote(voter: Seq<u8>, proposal: Seq<u8>, index: u32) -> (
    Result<(), VotingError>,
    Seq<u8>,
    Seq<u8>,
) {
    match Voter::parse(voter) {
        Err(e) => (Err(e), voter, proposal),
        Ok(v) => match Proposal::parse(proposal) {
            Err(e) => (Err(e), voter, proposal),
            Ok(p) => match v.having_voted(index) {
                Err(e) => (Err(e), voter, proposal),
                Ok(w) => (
                    Ok(()),
                    splice(voter, 0, w.encode()),
                    splice(proposal, 0, p.credited(v.weight).encode()),
                ),
            },
        },
    }
}

/// Whether the count that `vote` would write still fits in 32 bits. It
/// holds of every call that `vote` refuses.
pub open spec fn count_fits(voter: Seq<u8>, proposal: Seq<u8>, index: u32) -> bool {
    cast_vote(voter, proposal, index).0 is Ok ==> Proposal::decode(proposal).vote_count
        + Voter::decode(voter).weight <= u32::MAX
}

/// Tells whether `vote` can take these buffers: whether the count that it
/// would write still fits in 32 bits. A caller that is not verified asks
/// this before it calls `vote`.
pub fn count_has_room(voter_data: &[u8], proposal_data: &[u8], proposal_index: u32) -> (fits: bool)
    ensures
        fits == count_fits(voter_data@, proposal_data@, proposal_index),
{
    let voter = match Voter::from_bytes(voter_data) {
        Ok(v) => v,
        Err(_) => { return true; },
    };
    let proposal = match Proposal::from_bytes(proposal_data) {
        Ok(p) => p,
        Err(_) => { return true; },
    };
    voter.weight == 0 || voter.voted || proposal.vote_count <= u32::MAX - voter.weight
}

/// Grants the voter in `voter_data` the right to vote.
///
/// Fails with `MalformedRecord` where the buffer holds no voter and with
/// `AlreadyVoted` where the voter has voted. Otherwise the voter is reset to
/// weight 1 without a vote, whatever the weight was: granting twice is the
/// same as granting once. Bytes after the record stay as they are.
pub fn give_right_to_vote(voter_data: &mut [u8]) -> (r: Result<(), VotingError>)
    ensures
        (r, final(voter_data)@) == grant_right(old(voter_data)@),
{
    let voter = match Voter::deserialize(voter_data) {
        Ok(v) => v,
        Err(e) => { return Err(e); },
    };
    if voter.voted {
        return Err(VotingError::AlreadyVoted);
    }
    let voter = Voter { weight: 1, voted: false, vote: 0 };
    voter.store(voter_data);
    Ok(())
}

/// Casts the vote of the voter in `voter_data` for the proposal in
/// `proposal_data`, which the caller has picked as the one with index
/// `proposal_index`.
///
/// Fails with `MalformedRecord` where the voter's buffer holds no voter or
/// the proposal's buffer no proposal, then with `NotEnfranchised` where the
/// voter has weight 0, then with `AlreadyVoted` where the voter has voted.
/// Otherwise the voter is marked as having voted for `proposal_index`, and
/// the voter's weight is added to the proposal's count, which must still
/// fit in 32 bits. Bytes after the two records stay as they are.
pub fn vote(voter_data: &mut [u8], proposal_data: &mut [u8], proposal_index: u32) -> (r: Result<
    (),
    VotingError,
>)
    requires
        count_fits(old(voter_data)@, old(proposal_data)@, proposal_index),
    ensures
        (r, final(voter_data)@, final(proposal_data)@) == cast_vote(
            old(voter_data)@,
            old(proposal_data)@,
            proposal_index,
        ),
{
    let mut voter = match Voter::from_bytes(voter_data) {
        Ok(v) => v,
        Err(e) => { return Err(e); },
    };
    let mut proposal = match Proposal::from_bytes(proposal_data) {
        Ok(p) => p,
        Err(e) => { return Err(e); },
    };
    if voter.weight == 0 {
        return Err(VotingError::NotEnfranchised);
    }
    if voter.voted {
        return Err(VotingError::AlreadyVoted);
    }
    voter.voted = true;
    voter.vote = proposal_index;
    proposal.vote_count = proposal.vote_count + voter.weight;
    voter.store(voter_data);
    proposal.store(proposal_data);
    Ok(())
}

/// Writing a voter over the front of a buffer and reading the buffer again
/// gives that voter.
proof fn lemma_stored_voter(buf: Seq<u8>, voter: Voter)
    requires
        buf.len() >= VOTER_LEN,
    ensures
        splice(buf, 0, voter.encode()).len() == buf.len(),
        Voter::parse(splice(buf, 0, voter.encode())) == Ok::<Voter, VotingError>(voter),
{
    let rest = buf.subrange(VOTER_LEN as int, buf.len() as int);
    voter.law_round_trip(rest);
}

/// Writing a proposal over the front of a buffer and reading the buffer
/// again gives that proposal.
proof fn lemma_stored_proposal(buf: Seq<u8>, proposal: ProposalView)
    requires
        buf.len() >= PROPOSAL_LEN,
        proposal.wf(),
    ensures
        splice(buf, 0, proposal.encode()).len() == buf.len(),
        Proposal::parse(splice(buf, 0, proposal.encode())) == Ok::<ProposalView, VotingError>(
            proposal,
        ),
{
    let rest = buf.subrange(PROPOSAL_LEN as int, buf.len() as int);
    Proposal::law_round_trip(proposal, rest);
}

/// A transition that fails leaves every buffer as it was.
pub proof fn law_failure_writes_nothing(voter: Seq<u8>, proposal: Seq<u8>, index: u32)
    ensures
        grant_right(voter).0 is Err ==> grant_right(voter).1 == voter,
        cast_vote(voter, proposal, index).0 is Err ==> cast_vote(voter, proposal, index).1 == voter
            && cast_vote(voter, proposal, index).2 == proposal,
{
}

/// After a grant the buffer holds a voter of weight 1 that has not voted,
/// and a second grant changes nothing more.
pub proof fn law_grant_enfranchises(voter: Seq<u8>)
    requires
        grant_right(voter).0 is Ok,
    ensures
        grant_right(voter).1.len() == voter.len(),
        Voter::parse(grant_right(voter).1) == Ok::<Voter, VotingError>(
            Voter { weight: 1, voted: false, vote: 0 },
        ),
        grant_right(grant_right(voter).1) == grant_right(voter),
{
    let granted = Voter { weight: 1, voted: false, vote: 0 };
    let after = grant_right(voter).1;
    lemma_stored_voter(voter, granted);
}

/// After a vote the voter's buffer holds the voter marked as having voted
/// for the index given, with the weight it had, and the proposal's buffer
/// holds the proposal with that weight added to its count: the count has
/// grown.
pub proof fn law_vote_is_recorded(voter: Seq<u8>, proposal: Seq<u8>, index: u32)
    requires
        cast_vote(voter, proposal, index).0 is Ok,
        count_fits(voter, proposal, index),
    ensures
        ({
            let after = cast_vote(voter, proposal, index);
            let v = Voter::decode(voter);
            let p = Proposal::decode(proposal);
            &&& after.1.len() == voter.len()
            &&& after.2.len() == proposal.len()
            &&& Voter::parse(after.1) == Ok::<Voter, VotingError>(
                Voter { weight: v.weight, voted: true, vote: index },
            )
            &&& Proposal::parse(after.2) == Ok::<ProposalView, VotingError>(
                ProposalView { name: p.name, vote_count: (p.vote_count + v.weight) as u32 },
            )
            &&& Proposal::decode(after.2).vote_count == p.vote_count + v.weight
            &&& Proposal::decode(after.2).vote_count > p.vote_count
        }),
{
    let v = Voter::decode(voter);
    let p = Proposal::decode(proposal);
    lemma_stored_voter(voter, Voter { weight: v.weight, voted: true, vote: index });
    lemma_stored_proposal(proposal, p.credited(v.weight));
}

/// Voted is final: on a buffer that a vote has been cast from, a grant and
/// a further vote, for whatever proposal, both fail, and they fail with
/// `AlreadyVoted` wherever the buffers they are given hold records at all.
pub proof fn law_voted_is_terminal(
    voter: Seq<u8>,
    proposal: Seq<u8>,
    index: u32,
    next_proposal: Seq<u8>,
    next_index: u32,
)
    requires
        cast_vote(voter, proposal, index).0 is Ok,
    ensures
        ({
            let voted = cast_vote(voter, proposal, index).1;
            &&& grant_right(voted).0 == Err::<(), VotingError>(VotingError::AlreadyVoted)
            &&& cast_vote(voted, next_proposal, next_index).0 is Err
            &&& next_proposal.len() >= PROPOSAL_LEN ==> cast_vote(
                voted,
                next_proposal,
                next_index,
            ).0 == Err::<(), VotingError>(VotingError::AlreadyVoted)
        }),
{
    let v = Voter::decode(voter);
    lemma_stored_voter(voter, Voter { weight: v.weight, voted: true, vote: index });
}

/// A buffer whose voter has the `voted` flag set is refused a grant with
/// `AlreadyVoted`, and a vote too wherever the voter has weight.
pub proof fn law_voted_is_refused(voter: Seq<u8>, proposal: Seq<u8>, index: u32)
    requires
        voter.len() >= VOTER_LEN,
        proposal.len() >= PROPOSAL_LEN,
        Voter::decode(voter).voted,
    ensures
        grant_right(voter).0 == Err::<(), VotingError>(VotingError::AlreadyVoted),
        Voter::decode(voter).weight != 0 ==> cast_vote(voter, proposal, index).0 == Err::<
            (),
            VotingError,
        >(VotingError::AlreadyVoted),
{
}

/// A voter without weight is refused a vote with `NotEnfranchised`, and
/// neither buffer changes.
pub proof fn law_unenfranchised_is_refused(voter: Seq<u8>, proposal: Seq<u8>, index: u32)
    requires
        voter.len() >= VOTER_LEN,
        proposal.len() >= PROPOSAL_LEN,
        Voter::decode(voter).weight == 0,
    ensures
        cast_vote(voter, proposal, index) == (
            Err::<(), VotingError>(VotingError::NotEnfranchised),
            voter,
            proposal,
        ),
{
}

} // verus!
