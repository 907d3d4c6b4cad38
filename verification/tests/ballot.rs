use simple_voting::{
    give_right_to_vote, vote, winner_name, winning_proposal, Instruction, Proposal, Voter,
    VotingError,
};

/// A ballot as the caller holds it: one buffer for each voter, and one
/// buffer for each proposal.
struct Buffers {
    voters: Vec<Vec<u8>>,
    proposals: Vec<Vec<u8>>,
}

impl Buffers {
    fn new(voters: usize, proposals: usize) -> Buffers {
        Buffers {
            voters: vec![vec![0u8; 9]; voters],
            proposals: (0..proposals)
                .map(|i| Proposal { name: [b'A' + i as u8; 32], vote_count: 0 }.to_bytes())
                .collect(),
        }
    }

    fn run(&mut self, voter: usize, instruction: &[u8]) -> Result<(), VotingError> {
        match Instruction::unpack(instruction)? {
            Instruction::GrantRight => give_right_to_vote(&mut self.voters[voter]),
            Instruction::CastVote { proposal_index } => vote(
                &mut self.voters[voter],
                &mut self.proposals[proposal_index as usize],
                proposal_index,
            ),
        }
    }

    fn counts(&self) -> Vec<u32> {
        self.proposals.iter().map(|p| Proposal::from_bytes(p).unwrap().vote_count).collect()
    }

    fn tallies(&self) -> Vec<u32> {
        let mut tallies = vec![0u32; self.proposals.len()];
        for voter in &self.voters {
            let voter = Voter::from_bytes(voter).unwrap();
            if voter.voted {
                tallies[voter.vote as usize] += voter.weight;
            }
        }
        tallies
    }

    fn list(&self) -> Vec<u8> {
        let mut list = vec![0u8; 4];
        for proposal in &self.proposals {
            list.extend_from_slice(proposal);
        }
        list
    }
}

#[test]
fn counts_grow_and_equal_the_weights_cast() {
    let mut ballot = Buffers::new(5, 3);
    let calls: [(usize, [u8; 5]); 12] = [
        (0, [0, 0, 0, 0, 0]),
        (1, [0, 0, 0, 0, 0]),
        (0, [1, 2, 0, 0, 0]),
        (0, [1, 1, 0, 0, 0]),
        (2, [1, 0, 0, 0, 0]),
        (2, [0, 0, 0, 0, 0]),
        (1, [0, 0, 0, 0, 0]),
        (1, [1, 2, 0, 0, 0]),
        (2, [1, 1, 0, 0, 0]),
        (0, [0, 0, 0, 0, 0]),
        (3, [0, 0, 0, 0, 0]),
        (3, [1, 0, 0, 0, 0]),
    ];
    let expected = [
        Ok(()),
        Ok(()),
        Ok(()),
        Err(VotingError::AlreadyVoted),
        Err(VotingError::NotEnfranchised),
        Ok(()),
        Ok(()),
        Ok(()),
        Ok(()),
        Err(VotingError::AlreadyVoted),
        Ok(()),
        Ok(()),
    ];
    let mut before = ballot.counts();
    for ((voter, instruction), outcome) in calls.iter().zip(expected) {
        assert_eq!(ballot.run(*voter, &instruction[..]), outcome);
        let after = ballot.counts();
        for (old, new) in before.iter().zip(&after) {
            assert!(old <= new);
        }
        assert_eq!(after, ballot.tallies());
        before = after;
    }
    assert_eq!(ballot.counts(), vec![1, 1, 2]);
    let untouched = Voter { weight: 0, voted: false, vote: 0 };
    assert_eq!(Voter::from_bytes(&ballot.voters[4]), Ok(untouched));
}

#[test]
fn resolved_winner_is_the_earliest_with_the_most_votes() {
    let mut ballot = Buffers::new(4, 3);
    for voter in 0..4 {
        assert_eq!(ballot.run(voter, &[0]), Ok(()));
    }
    assert_eq!(ballot.run(0, &[1, 2, 0, 0, 0]), Ok(()));
    assert_eq!(ballot.run(1, &[1, 1, 0, 0, 0]), Ok(()));
    assert_eq!(ballot.run(2, &[1, 2, 0, 0, 0]), Ok(()));
    assert_eq!(ballot.run(3, &[1, 1, 0, 0, 0]), Ok(()));
    assert_eq!(ballot.counts(), vec![0, 2, 2]);

    let mut list = ballot.list();
    assert_eq!(winning_proposal(&mut list), Ok(()));
    assert_eq!(list[..4], [1, 0, 0, 0]);
    assert_eq!(winner_name(&list), Ok([b'B'; 32]));
}

#[test]
fn a_voter_that_has_voted_stays_as_it_is() {
    let mut ballot = Buffers::new(1, 2);
    assert_eq!(ballot.run(0, &[0]), Ok(()));
    assert_eq!(ballot.run(0, &[1, 1, 0, 0, 0]), Ok(()));
    let voted = ballot.voters[0].clone();
    assert_eq!(Voter::from_bytes(&voted), Ok(Voter { weight: 1, voted: true, vote: 1 }));
    let counts = ballot.counts();
    for instruction in [&[0u8][..], &[1, 0, 0, 0, 0], &[1, 1, 0, 0, 0]] {
        assert_eq!(ballot.run(0, instruction), Err(VotingError::AlreadyVoted));
        assert_eq!(ballot.voters[0], voted);
        assert_eq!(ballot.counts(), counts);
    }
}
