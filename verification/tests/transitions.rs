use simple_voting::{
    count_has_room, give_right_to_vote, header_has_room, vote, winner_name, winning_proposal,
    Proposal, Voter, VotingError,
};

fn list_of(header: [u8; 4], counts: &[u32]) -> Vec<u8> {
    let mut bytes = header.to_vec();
    for (i, count) in counts.iter().enumerate() {
        let proposal = Proposal { name: [b'a' + i as u8; 32], vote_count: *count };
        bytes.extend_from_slice(&proposal.to_bytes());
    }
    bytes
}

#[test]
fn grant_on_a_zeroed_buffer_enfranchises() {
    let mut voter = [0u8; 9];
    assert_eq!(give_right_to_vote(&mut voter), Ok(()));
    assert_eq!(voter, [0x01, 0x00, 0x00, 0x00, 0x00, 0x00, 0x00, 0x00, 0x00]);
    assert_eq!(Voter::from_bytes(&voter), Ok(Voter { weight: 1, voted: false, vote: 0 }));
}

#[test]
fn grant_resets_weight_and_vote() {
    let mut voter = Voter { weight: 7, voted: false, vote: 5 }.to_bytes();
    assert_eq!(give_right_to_vote(&mut voter), Ok(()));
    assert_eq!(voter, vec![1, 0, 0, 0, 0, 0, 0, 0, 0]);
}

#[test]
fn grant_twice_is_the_same_as_once() {
    let mut voter = [0u8; 9];
    assert_eq!(give_right_to_vote(&mut voter), Ok(()));
    let once = voter;
    assert_eq!(give_right_to_vote(&mut voter), Ok(()));
    assert_eq!(voter, once);
}

#[test]
fn grant_leaves_bytes_after_the_record() {
    let mut voter = [0xeeu8; 12];
    voter[4] = 0;
    assert_eq!(give_right_to_vote(&mut voter), Ok(()));
    assert_eq!(voter, [1, 0, 0, 0, 0, 0, 0, 0, 0, 0xee, 0xee, 0xee]);
}

#[test]
fn grant_after_voting_is_refused() {
    let mut voter = Voter { weight: 1, voted: true, vote: 4 }.to_bytes();
    let before = voter.clone();
    assert_eq!(give_right_to_vote(&mut voter), Err(VotingError::AlreadyVoted));
    assert_eq!(voter, before);
}

#[test]
fn grant_on_a_short_buffer_is_malformed() {
    let mut voter = [0u8; 8];
    assert_eq!(give_right_to_vote(&mut voter), Err(VotingError::MalformedRecord));
    assert_eq!(voter, [0u8; 8]);
}

#[test]
fn vote_marks_the_voter_and_credits_the_proposal() {
    let mut voter = Voter { weight: 3, voted: false, vote: 0 }.to_bytes();
    let mut proposal = Proposal { name: [b'X'; 32], vote_count: 7 }.to_bytes();
    assert_eq!(vote(&mut voter, &mut proposal, 2), Ok(()));
    assert_eq!(Voter::from_bytes(&voter), Ok(Voter { weight: 3, voted: true, vote: 2 }));
    assert_eq!(
        Proposal::from_bytes(&proposal),
        Ok(Proposal { name: [b'X'; 32], vote_count: 10 })
    );
}

#[test]
fn vote_without_weight_is_refused_and_writes_nothing() {
    let mut voter = Voter { weight: 0, voted: false, vote: 0 }.to_bytes();
    let mut proposal = Proposal { name: [b'X'; 32], vote_count: 7 }.to_bytes();
    let (voter_before, proposal_before) = (voter.clone(), proposal.clone());
    assert_eq!(vote(&mut voter, &mut proposal, 2), Err(VotingError::NotEnfranchised));
    assert_eq!(voter, voter_before);
    assert_eq!(proposal, proposal_before);
}

#[test]
fn vote_a_second_time_is_refused_and_writes_nothing() {
    let mut voter = Voter { weight: 1, voted: false, vote: 0 }.to_bytes();
    let mut proposal = Proposal { name: [b'X'; 32], vote_count: 0 }.to_bytes();
    assert_eq!(vote(&mut voter, &mut proposal, 1), Ok(()));
    let (voter_before, proposal_before) = (voter.clone(), proposal.clone());
    assert_eq!(vote(&mut voter, &mut proposal, 0), Err(VotingError::AlreadyVoted));
    assert_eq!(voter, voter_before);
    assert_eq!(proposal, proposal_before);
    assert_eq!(give_right_to_vote(&mut voter), Err(VotingError::AlreadyVoted));
    assert_eq!(voter, voter_before);
}

#[test]
fn vote_on_short_buffers_is_malformed() {
    let mut voter = [0u8; 8];
    let mut proposal = [0u8; 36];
    assert_eq!(vote(&mut voter, &mut proposal, 0), Err(VotingError::MalformedRecord));

    let mut voter = Voter { weight: 1, voted: false, vote: 0 }.to_bytes();
    let mut proposal = [0u8; 35];
    let voter_before = voter.clone();
    assert_eq!(vote(&mut voter, &mut proposal, 0), Err(VotingError::MalformedRecord));
    assert_eq!(voter, voter_before);
    assert_eq!(proposal, [0u8; 35]);
}

#[test]
fn vote_reads_both_records_before_it_judges_the_voter() {
    let mut proposal = [0u8; 35];
    let mut voter = Voter { weight: 0, voted: false, vote: 0 }.to_bytes();
    assert_eq!(vote(&mut voter, &mut proposal, 0), Err(VotingError::MalformedRecord));
    let mut voter = Voter { weight: 1, voted: true, vote: 0 }.to_bytes();
    assert_eq!(vote(&mut voter, &mut proposal, 0), Err(VotingError::MalformedRecord));
}

#[test]
fn vote_judges_weight_before_the_flag() {
    let mut proposal = [0u8; 36];
    let mut voter = Voter { weight: 0, voted: true, vote: 0 }.to_bytes();
    assert_eq!(vote(&mut voter, &mut proposal, 0), Err(VotingError::NotEnfranchised));
    let mut voter = Voter { weight: 1, voted: true, vote: 0 }.to_bytes();
    assert_eq!(vote(&mut voter, &mut proposal, 0), Err(VotingError::AlreadyVoted));
}

#[test]
fn votes_add_up_to_the_weights_cast() {
    let weights = [1u32, 4, 2, 9];
    let mut proposal = Proposal { name: [0; 32], vote_count: 0 }.to_bytes();
    let mut last = 0u32;
    for weight in weights {
        let mut voter = Voter { weight, voted: false, vote: 0 }.to_bytes();
        assert_eq!(vote(&mut voter, &mut proposal, 0), Ok(()));
        let count = Proposal::from_bytes(&proposal).unwrap().vote_count;
        assert!(count >= last);
        last = count;
    }
    assert_eq!(last, 16);
}

#[test]
fn vote_may_fill_the_count_to_its_limit() {
    let mut voter = Voter { weight: 1, voted: false, vote: 0 }.to_bytes();
    let mut proposal = Proposal { name: [0; 32], vote_count: u32::MAX - 1 }.to_bytes();
    assert_eq!(vote(&mut voter, &mut proposal, 0), Ok(()));
    assert_eq!(Proposal::from_bytes(&proposal).unwrap().vote_count, u32::MAX);
}

#[test]
fn count_has_room_up_to_the_limit() {
    let voter = Voter { weight: 2, voted: false, vote: 0 }.to_bytes();
    let full = Proposal { name: [0; 32], vote_count: u32::MAX - 1 }.to_bytes();
    let nearly = Proposal { name: [0; 32], vote_count: u32::MAX - 2 }.to_bytes();
    assert!(!count_has_room(&voter, &full, 0));
    assert!(count_has_room(&voter, &nearly, 0));
}

#[test]
fn count_has_room_wherever_the_vote_is_refused() {
    let full = Proposal { name: [0; 32], vote_count: u32::MAX }.to_bytes();
    let voted = Voter { weight: 5, voted: true, vote: 0 }.to_bytes();
    let without_weight = Voter { weight: 0, voted: false, vote: 0 }.to_bytes();
    let may_vote = Voter { weight: 5, voted: false, vote: 0 }.to_bytes();
    assert!(count_has_room(&voted, &full, 0));
    assert!(count_has_room(&without_weight, &full, 0));
    assert!(count_has_room(&may_vote[..8], &full, 0));
    assert!(count_has_room(&may_vote, &full[..35], 0));
    assert!(!count_has_room(&may_vote, &full, 0));
}

#[test]
fn header_has_room_for_every_list_that_fits_in_memory_here() {
    assert!(header_has_room(&[]));
    assert!(header_has_room(&[0u8; 3]));
    assert!(header_has_room(&[0u8; 4]));
    assert!(header_has_room(&list_of([0; 4], &[1, 2, 3])));
}

#[test]
fn winner_of_a_tie_is_the_earliest() {
    let mut list = list_of([0xff; 4], &[5, 5, 3]);
    let records = list[4..].to_vec();
    assert_eq!(winning_proposal(&mut list), Ok(()));
    assert_eq!(list[..4], [0, 0, 0, 0]);
    assert_eq!(list[4..], records[..]);
}

#[test]
fn winner_is_the_first_strict_maximum() {
    let mut list = list_of([0; 4], &[1, 7, 3, 7, 2]);
    assert_eq!(winning_proposal(&mut list), Ok(()));
    assert_eq!(list[..4], [1, 0, 0, 0]);

    let mut list = list_of([0; 4], &[0, 0, 0, 4]);
    assert_eq!(winning_proposal(&mut list), Ok(()));
    assert_eq!(list[..4], [3, 0, 0, 0]);
}

#[test]
fn winner_without_votes_is_the_first_proposal() {
    let mut list = list_of([9, 9, 9, 9], &[0, 0, 0]);
    assert_eq!(winning_proposal(&mut list), Ok(()));
    assert_eq!(list[..4], [0, 0, 0, 0]);
}

#[test]
fn winner_of_an_empty_list_is_zero() {
    let mut list = vec![7u8, 7, 7, 7];
    assert_eq!(winning_proposal(&mut list), Ok(()));
    assert_eq!(list, vec![0, 0, 0, 0]);
}

#[test]
fn winner_index_is_written_little_endian() {
    let mut counts = vec![0u32; 300];
    counts[258] = 1;
    let mut list = list_of([0; 4], &counts);
    assert_eq!(winning_proposal(&mut list), Ok(()));
    assert_eq!(list[..4], [0x02, 0x01, 0x00, 0x00]);
}

#[test]
fn winner_of_a_malformed_list_is_refused_and_writes_nothing() {
    let mut list = list_of([3, 3, 3, 3], &[1, 2]);
    list.push(0);
    let before = list.clone();
    assert_eq!(winning_proposal(&mut list), Err(VotingError::MalformedRecord));
    assert_eq!(list, before);

    let mut short = [1u8, 2, 3];
    assert_eq!(winning_proposal(&mut short), Err(VotingError::MalformedRecord));
    assert_eq!(short, [1, 2, 3]);
}

#[test]
fn winner_name_follows_the_header() {
    let list = list_of([1, 0, 0, 0], &[4, 9, 2]);
    assert_eq!(winner_name(&list), Ok([b'b'; 32]));
    let list = list_of([2, 0, 0, 0], &[4, 9, 2]);
    assert_eq!(winner_name(&list), Ok([b'c'; 32]));
}

#[test]
fn winner_name_after_resolution_is_the_winners() {
    let mut list = list_of([0xff; 4], &[4, 9, 9]);
    assert_eq!(winning_proposal(&mut list), Ok(()));
    assert_eq!(winner_name(&list), Ok([b'b'; 32]));
}

#[test]
fn winner_name_beyond_the_list_is_out_of_range() {
    let list = list_of([3, 0, 0, 0], &[4, 9, 2]);
    assert_eq!(winner_name(&list), Err(VotingError::IndexOutOfRange));
    let list = list_of([0, 0, 0, 1], &[4, 9, 2]);
    assert_eq!(winner_name(&list), Err(VotingError::IndexOutOfRange));
    let list = list_of([0, 0, 0, 0], &[]);
    assert_eq!(winner_name(&list), Err(VotingError::IndexOutOfRange));
}

#[test]
fn winner_name_of_a_malformed_list_is_refused() {
    let mut list = list_of([0; 4], &[4]);
    list.pop();
    assert_eq!(winner_name(&list), Err(VotingError::MalformedRecord));
    assert_eq!(winner_name(&[0, 0]), Err(VotingError::MalformedRecord));
}
