//! What holds of a ballot over its whole life.
//!
//! The transitions work on buffers, one or two records at a time. Here a
//! ballot is followed as a whole, through any sequence of calls, and the
//! record-level rules that the transitions' contracts are stated with are
//! shown to keep the books straight: counts only grow, each count is the
//! weight of the votes cast for its proposal, and a voter that has voted
//! stays as it is.

use crate::error::VotingError;
use crate::proposal::{Proposal, ProposalView};
use crate::system::Ballot;
use crate::transitions::{
    cast_vote, count_fits, grant_right, law_grant_enfranchises, law_vote_is_recorded,
};
use crate::voter::Voter;
use vstd::prelude::*;

verus! {

/// A call of a transition, by the position of the records it is made on.
pub enum Call {
    /// `give_right_to_vote` on the record of the voter at `voter`.
    Grant { voter: int },
    /// `vote` on the record of the voter at `voter` and on the record of the
    /// proposal with index `proposal`, with that index.
    Cast { voter: int, proposal: u32 },
}

/// What a voter adds to the tally of the proposal with index `proposal`:
/// its weight, if it has voted for that proposal.
pub open spec fn share(voter: Voter, proposal: int) -> int {
    if voter.voted && voter.vote == proposal {
        voter.weight as int
    } else {
        0
    }
}

/// The total weight of the voters in `voters` that have voted for the
/// proposal with index `proposal`.
pub open spec fn tally(voters: Seq<(Seq<u8>, Voter)>, proposal: int) -> int
    decreases voters.len(),
{
    if voters.len() == 0 {
        0
    } else {
        tally(voters.drop_last(), proposal) + share(voters.last().1, proposal)
    }
}

impl Ballot {
    /// The ballot with the record of the voter at `i` replaced.
    pub open spec fn with_voter(self, i: int, voter: Voter) -> Ballot {
        Ballot { voters: self.voters.update(i, (self.voters[i].0, voter)), ..self }
    }

    /// The ballot with the record of the proposal at `i` replaced.
    pub open spec fn with_proposal(self, i: int, proposal: ProposalView) -> Ballot {
        Ballot { proposals: self.proposals.update(i, proposal), ..self }
    }

    /// The ballot after one call. A call that names a record that is not
    /// there, one that the transition refuses, and a vote that would take a
    /// count beyond 32 bits, which `vote` does not admit, leave the ballot
    /// as it is.
    pub open spec fn step(self, call: Call) -> Ballot {
        match call {
            Call::Grant { voter } => {
                if 0 <= voter < self.voters.len() {
                    match self.voters[voter].1.granted() {
                        Ok(v) => self.with_voter(voter, v),
                        Err(_) => self,
                    }
                } else {
                    self
                }
            },
            Call::Cast { voter, proposal } => {
                if 0 <= voter < self.voters.len() && proposal < self.proposals.len() {
                    let v = self.voters[voter].1;
                    let p = self.proposals[proposal as int];
                    match v.having_voted(proposal) {
                        Ok(w) => if p.vote_count + v.weight <= u32::MAX {
                            self.with_voter(voter, w).with_proposal(
                                proposal as int,
                                p.credited(v.weight),
                            )
                        } else {
                            self
                        },
                        Err(_) => self,
                    }
                } else {
                    self
                }
            },
        }
    }

    /// The ballot after a sequence of calls, made in order.
    pub open spec fn run(self, calls: Seq<Call>) -> Ballot
        decreases calls.len(),
    {
        if calls.len() == 0 {
            self
        } else {
            self.run(calls.drop_last()).step(calls.last())
        }
    }

    /// Every proposal's count is the tally of the votes cast for it.
    pub open spec fn counted(self) -> bool {
        forall|p: int|
            0 <= p < self.proposals.len() ==> (#[trigger] self.proposals[p]).vote_count == tally(
                self.voters,
                p,
            )
    }

    /// Nobody has voted, and every count is 0.
    pub open spec fn fresh(self) -> bool {
        &&& forall|i: int| 0 <= i < self.voters.len() ==> !(#[trigger] self.voters[i]).1.voted
        &&& forall|p: int|
            0 <= p < self.proposals.len() ==> (#[trigger] self.proposals[p]).vote_count == 0
    }
}

/// Where nobody in `voters` has voted, every tally is 0.
proof fn lemma_tally_of_none(voters: Seq<(Seq<u8>, Voter)>, proposal: int)
    requires
        forall|i: int| 0 <= i < voters.len() ==> !(#[trigger] voters[i]).1.voted,
    ensures
        tally(voters, proposal) == 0,
    decreases voters.len(),
{
    if voters.len() > 0 {
        lemma_tally_of_none(voters.drop_last(), proposal);
    }
}

/// Replacing one voter's record changes a tally by the difference of the
/// two records' shares.
proof fn lemma_tally_update(voters: Seq<(Seq<u8>, Voter)>, i: int, voter: Voter, proposal: int)
    requires
        0 <= i < voters.len(),
    ensures
        tally(voters.update(i, (voters[i].0, voter)), proposal) == tally(voters, proposal) - share(
            voters[i].1,
            proposal,
        ) + share(voter, proposal),
    decreases voters.len(),
{
    let updated = voters.update(i, (voters[i].0, voter));
    if i == voters.len() - 1 {
        assert(updated.drop_last() =~= voters.drop_last());
    } else {
        assert(updated.drop_last() =~= voters.drop_last().update(i, (voters[i].0, voter)));
        lemma_tally_update(voters.drop_last(), i, voter, proposal);
    }
}

/// One call keeps the number of voters and of proposals, takes no count
/// down, leaves a voter that has voted as it is, and keeps the counts equal
/// to the tallies where they were so before.
proof fn lemma_step(b: Ballot, call: Call)
    ensures
        b.step(call).voters.len() == b.voters.len(),
        b.step(call).proposals.len() == b.proposals.len(),
        forall|p: int|
            0 <= p < b.proposals.len() ==> (#[trigger] b.step(call).proposals[p]).vote_count
                >= b.proposals[p].vote_count,
        forall|i: int|
            0 <= i < b.voters.len() && b.voters[i].1.voted ==> #[trigger] b.step(call).voters[i]
                == b.voters[i],
        b.counted() ==> b.step(call).counted(),
{
    let after = b.step(call);
    match call {
        Call::Grant { voter } => {
            if 0 <= voter < b.voters.len() && b.voters[voter].1.granted() is Ok {
                let v = b.voters[voter].1.granted()->Ok_0;
                assert forall|p: int| 0 <= p < after.proposals.len() implies tally(
                    after.voters,
                    p,
                ) == tally(b.voters, p) by {
                    lemma_tally_update(b.voters, voter, v, p);
                }
            }
        },
        Call::Cast { voter, proposal } => {
            if 0 <= voter < b.voters.len() && proposal < b.proposals.len() {
                let v = b.voters[voter].1;
                let target = b.proposals[proposal as int];
                if v.having_voted(proposal) is Ok && target.vote_count + v.weight <= u32::MAX {
                    let w = v.having_voted(proposal)->Ok_0;
                    assert forall|p: int| 0 <= p < after.proposals.len() implies tally(
                        after.voters,
                        p,
                    ) == tally(b.voters, p) + if p == proposal {
                        v.weight as int
                    } else {
                        0
                    } by {
                        lemma_tally_update(b.voters, voter, w, p);
                    }
                }
            }
        },
    }
}

/// The model follows the transitions: called on the encodings of a
/// ballot's records, `give_right_to_vote` and `vote` leave the encodings of
/// the records that `step` gives.
pub proof fn law_step_follows_the_transitions(b: Ballot, call: Call)
    requires
        b.wf(),
    ensures
        match call {
            Call::Grant { voter } => 0 <= voter < b.voters.len() ==> Voter::parse(
                grant_right(b.voters[voter].1.encode()).1,
            ) == Ok::<Voter, VotingError>(b.step(call).voters[voter].1),
            Call::Cast { voter, proposal } => 0 <= voter < b.voters.len() && proposal
                < b.proposals.len() ==> {
                let v = b.voters[voter].1.encode();
                let p = b.proposals[proposal as int].encode();
                count_fits(v, p, proposal) ==> {
                    &&& Voter::parse(cast_vote(v, p, proposal).1) == Ok::<Voter, VotingError>(
                        b.step(call).voters[voter].1,
                    )
                    &&& Proposal::parse(cast_vote(v, p, proposal).2) == Ok::<
                        ProposalView,
                        VotingError,
                    >(b.step(call).proposals[proposal as int])
                }
            },
        },
{
    match call {
        Call::Grant { voter } => {
            if 0 <= voter < b.voters.len() {
                let v = b.voters[voter].1;
                v.law_round_trip(Seq::empty());
                if grant_right(v.encode()).0 is Ok {
                    law_grant_enfranchises(v.encode());
                }
            }
        },
        Call::Cast { voter, proposal } => {
            if 0 <= voter < b.voters.len() && proposal < b.proposals.len() {
                let v = b.voters[voter].1;
                let p = b.proposals[proposal as int];
                v.law_round_trip(Seq::empty());
                Proposal::law_round_trip(p, Seq::empty());
                if cast_vote(v.encode(), p.encode(), proposal).0 is Ok && count_fits(
                    v.encode(),
                    p.encode(),
                    proposal,
                ) {
                    law_vote_is_recorded(v.encode(), p.encode(), proposal);
                }
            }
        },
    }
}

/// A ballot on which nobody has voted and every count is 0 has its counts
/// equal to the tallies.
pub proof fn law_fresh_ballot_is_counted(b: Ballot)
    requires
        b.fresh(),
    ensures
        b.counted(),
{
    assert forall|p: int| 0 <= p < b.proposals.len() implies (#[trigger] b.proposals[p]).vote_count
        == tally(b.voters, p) by {
        lemma_tally_of_none(b.voters, p);
    }
}

/// Through any sequence of calls, no proposal's count goes down.
pub proof fn law_counts_never_decrease(b: Ballot, calls: Seq<Call>, proposal: int)
    requires
        0 <= proposal < b.proposals.len(),
    ensures
        b.run(calls).voters.len() == b.voters.len(),
        b.run(calls).proposals.len() == b.proposals.len(),
        b.run(calls).proposals[proposal].vote_count >= b.proposals[proposal].vote_count,
    decreases calls.len(),
{
    if calls.len() > 0 {
        law_counts_never_decrease(b, calls.drop_last(), proposal);
        lemma_step(b.run(calls.drop_last()), calls.last());
    }
}

/// Through any sequence of calls, each proposal's count stays the total
/// weight of the voters whose vote is for that proposal, where it was so at
/// the start.
pub proof fn law_counts_are_tallies(b: Ballot, calls: Seq<Call>)
    requires
        b.counted(),
    ensures
        b.run(calls).counted(),
    decreases calls.len(),
{
    if calls.len() > 0 {
        law_counts_are_tallies(b, calls.drop_last());
        lemma_step(b.run(calls.drop_last()), calls.last());
    }
}

/// Once a voter has voted, no sequence of calls changes the voter's record:
/// neither the weight, nor the flag, nor the vote.
pub proof fn law_voted_is_final(b: Ballot, calls: Seq<Call>, voter: int)
    requires
        0 <= voter < b.voters.len(),
        b.voters[voter].1.voted,
    ensures
        b.run(calls).voters.len() == b.voters.len(),
        b.run(calls).voters[voter] == b.voters[voter],
    decreases calls.len(),
{
    if calls.len() > 0 {
        law_voted_is_final(b, calls.drop_last(), voter);
        lemma_step(b.run(calls.drop_last()), calls.last());
    }
}

} // verus!
