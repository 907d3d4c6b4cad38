//! Resolving the winner of a ballot.
//!
//! The winner is the proposal with the most votes, and among several with
//! the most votes the one that comes first in the list. `winning_proposal`
//! writes its index into the header of the proposal list, and `winner_name`
//! reads the index from there and looks the name up.

use crate::error::VotingError;
use crate::proposal::{
    list_len, record_at, views, vote_counts, Proposal, ProposalView, LIST_HEADER_LEN,
    PROPOSAL_LEN,
};
use crate::wire::{le_bytes, le_u32, lemma_le_u32_of_le_bytes, read_u32, splice, write_u32};
use vstd::prelude::*;

verus! {

/// Whether `w` is the index of the first proposal among those with the most
/// votes.
pub open spec fn is_earliest_maximum(counts: Seq<u32>, w: int) -> bool {
    &&& 0 <= w < counts.len()
    &&& forall|i: int| 0 <= i < counts.len() ==> counts[i] <= counts[w]
    &&& forall|i: int| 0 <= i < w ==> counts[i] < counts[w]
}

/// The index of the winning proposal: the first among those with the most
/// votes, so that of two proposals with equal counts the earlier one wins;
/// 0 for an empty list.
pub open spec fn winner(counts: Seq<u32>) -> int {
    if counts.len() == 0 {
        0
    } else {
        choose|w: int| is_earliest_maximum(counts, w)
    }
}

/// Whether every index into a proposal list of `len` bytes fits the list's
/// 4-byte header: whether the list holds at most 2^32 proposals.
pub open spec fn index_fits(len: nat) -> bool {
    len >= LIST_HEADER_LEN ==> list_len(len) <= 0x1_0000_0000
}

/// The outcome of `winning_proposal` on a proposal list's buffer: the
/// result, and what the buffer holds afterwards. The winner's index goes
/// into the header; the records stay untouched.
pub open spec fn resolve_winning_proposal(list: Seq<u8>) -> (Result<(), VotingError>, Seq<u8>) {
    match Proposal::parse_list(list) {
        Err(e) => (Err(e), list),
        Ok(proposals) => (
            Ok(()),
            splice(list, 0, le_bytes(winner(vote_counts(proposals)) as u32)),
        ),
    }
}

/// What `winner_name` reads from a proposal list's buffer: the name of the
/// proposal that the header points to.
pub open spec fn resolve_winner_name(list: Seq<u8>) -> Result<Seq<u8>, VotingError> {
    match Proposal::parse_list(list) {
        Err(e) => Err(e),
        Ok(proposals) => {
            let w = le_u32(list.subrange(0, LIST_HEADER_LEN as int));
            if w >= proposals.len() {
                Err(VotingError::IndexOutOfRange)
            } else {
                Ok(proposals[w as int].name)
            }
        },
    }
}

/// A resolution that fails leaves the list as it was.
pub proof fn law_failed_resolution_writes_nothing(list: Seq<u8>)
    ensures
        resolve_winning_proposal(list).0 is Err ==> resolve_winning_proposal(list).1 == list,
{
}

/// A list has at most one earliest maximum.
proof fn lemma_earliest_maximum_unique(counts: Seq<u32>, a: int, b: int)
    requires
        is_earliest_maximum(counts, a),
        is_earliest_maximum(counts, b),
    ensures
        a == b,
{
    if a < b {
        assert(counts[a] < counts[b]);
    } else if b < a {
        assert(counts[b] < counts[a]);
    }
}

/// An index that is the earliest maximum is the winner.
pub proof fn law_earliest_maximum_wins(counts: Seq<u32>, w: int)
    requires
        is_earliest_maximum(counts, w),
    ensures
        winner(counts) == w,
{
    lemma_earliest_maximum_unique(counts, w, winner(counts));
}

/// In a list that is not empty the winner is the earliest maximum: no
/// proposal has more votes, and none before it has as many.
pub proof fn law_winner_is_earliest_maximum(counts: Seq<u32>)
    requires
        counts.len() > 0,
    ensures
        is_earliest_maximum(counts, winner(counts)),
    decreases counts.len(),
{
    let front = counts.drop_last();
    let last = counts.len() - 1;
    if front.len() == 0 {
        assert(is_earliest_maximum(counts, 0));
    } else {
        law_winner_is_earliest_maximum(front);
        let w = winner(front);
        if counts[last] > front[w] {
            assert forall|i: int| 0 <= i < last implies counts[i] < counts[last] by {
                assert(front[i] <= front[w]);
            }
            assert(is_earliest_maximum(counts, last));
        } else {
            assert forall|i: int| 0 <= i < counts.len() implies counts[i] <= counts[w] by {
                if i < last {
                    assert(front[i] <= front[w]);
                }
            }
            assert forall|i: int| 0 <= i < w implies counts[i] < counts[w] by {
                assert(front[i] < front[w]);
            }
            assert(is_earliest_maximum(counts, w));
        }
    }
}

/// Resolving the winner leaves the list's records as they are and writes an
/// index that `winner_name` accepts: the name read afterwards is that of
/// the earliest proposal with the most votes.
pub proof fn law_resolved_winner_is_named(list: Seq<u8>)
    requires
        resolve_winning_proposal(list).0 is Ok,
        list_len(list.len()) > 0,
        index_fits(list.len()),
    ensures
        ({
            let resolved = resolve_winning_proposal(list).1;
            let proposals = Proposal::parse_list(list)->Ok_0;
            let w = winner(vote_counts(proposals));
            &&& is_earliest_maximum(vote_counts(proposals), w)
            &&& Proposal::parse_list(resolved) == Ok::<Seq<ProposalView>, VotingError>(proposals)
            &&& resolve_winner_name(resolved) == Ok::<Seq<u8>, VotingError>(proposals[w].name)
        }),
{
    let resolved = resolve_winning_proposal(list).1;
    let proposals = Proposal::parse_list(list)->Ok_0;
    let counts = vote_counts(proposals);
    law_winner_is_earliest_maximum(counts);
    let w = winner(counts);
    lemma_le_u32_of_le_bytes(w as u32);
    assert forall|i: int| 0 <= i < proposals.len() implies #[trigger] record_at(resolved, i)
        == record_at(list, i) by {
        assert(record_at(resolved, i) =~= record_at(list, i));
    }
    assert(Proposal::parse_list(resolved)->Ok_0 =~= proposals);
}

/// Finds the winner among `proposals`: the scan keeps the first proposal
/// whose count is greater than all before it.
fn leading(proposals: &Vec<Proposal>) -> (w: usize)
    ensures
        w == winner(vote_counts(views(proposals@))),
        proposals@.len() > 0 ==> w < proposals@.len(),
{
    let ghost counts = vote_counts(views(proposals@));
    let mut winning_proposal: usize = 0;
    let mut winning_vote_count: u32 = 0;
    let mut index: usize = 0;
    while index < proposals.len()
        invariant
            index <= proposals@.len(),
            counts == vote_counts(views(proposals@)),
            forall|i: int| 0 <= i < index ==> counts[i] <= winning_vote_count,
            winning_vote_count == 0 ==> winning_proposal == 0,
            winning_vote_count > 0 ==> winning_proposal < index && counts[winning_proposal as int]
                == winning_vote_count,
            forall|i: int| 0 <= i < winning_proposal ==> counts[i] < winning_vote_count,
        decreases proposals@.len() - index,
    {
        if proposals[index].vote_count > winning_vote_count {
            winning_vote_count = proposals[index].vote_count;
            winning_proposal = index;
        }
        index += 1;
    }
    proof {
        if counts.len() > 0 {
            law_earliest_maximum_wins(counts, winning_proposal as int);
        }
    }
    winning_proposal
}

/// Tells whether `winning_proposal` can take this buffer: whether every
/// index into the list fits the header. A caller that is not verified asks
/// this before it calls `winning_proposal`.
pub fn header_has_room(proposal_data: &[u8]) -> (fits: bool)
    ensures
        fits == index_fits(proposal_data@.len()),
{
    let len: usize = proposal_data.len();
    len < LIST_HEADER_LEN || ((len - LIST_HEADER_LEN) / PROPOSAL_LEN) as u64 <= 0x1_0000_0000u64
}

/// Resolves the winning proposal of the list in `proposal_data` and writes
/// its index into the list's header, little-endian. The records after the
/// header stay as they are.
///
/// Fails with `MalformedRecord` where the buffer holds no proposal list.
/// The list may hold at most 2^32 proposals, so that every index fits the
/// header.
pub fn winning_proposal(proposal_data: &mut [u8]) -> (r: Result<(), VotingError>)
    requires
        index_fits(old(proposal_data)@.len()),
    ensures
        (r, final(proposal_data)@) == resolve_winning_proposal(old(proposal_data)@),
{
    let proposals = match Proposal::deserialize_list(proposal_data) {
        Ok(list) => list,
        Err(e) => { return Err(e); },
    };
    let w = leading(&proposals);
    write_u32(proposal_data, 0, w as u32);
    Ok(())
}

/// Reads the name of the winning proposal from the list in `proposal_data`,
/// whose header holds the winner's index once `winning_proposal` has run.
/// The list is only read.
///
/// Fails with `MalformedRecord` where the buffer holds no proposal list and
/// with `IndexOutOfRange` where the header's index is not that of a proposal
/// in the list.
pub fn winner_name(proposal_data: &[u8]) -> (r: Result<[u8; 32], VotingError>)
    ensures
        resolve_winner_name(proposal_data@) == match r {
            Ok(name) => Ok(name@),
            Err(e) => Err(e),
        },
{
    let proposals = match Proposal::deserialize_list(proposal_data) {
        Ok(list) => list,
        Err(e) => { return Err(e); },
    };
    let winning_proposal = read_u32(proposal_data, 0);
    if winning_proposal as usize >= proposals.len() {
        return Err(VotingError::IndexOutOfRange);
    }
    Ok(proposals[winning_proposal as usize].name)
}

} // verus!
