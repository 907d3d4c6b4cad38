use simple_voting::{Proposal, Voter, VotingError};

fn name_of(byte: u8) -> [u8; 32] {
    [byte; 32]
}

#[test]
fn voter_encodes_to_nine_bytes_little_endian() {
    let voter = Voter { weight: 0x0403_0201, voted: true, vote: 0x0807_0605 };
    assert_eq!(voter.to_bytes(), vec![1, 2, 3, 4, 1, 5, 6, 7, 8]);
    assert_eq!(voter.serialize(), vec![1, 2, 3, 4, 1, 5, 6, 7, 8]);
}

#[test]
fn voter_decodes_from_nine_bytes() {
    let bytes = [1u8, 2, 3, 4, 0, 5, 6, 7, 8];
    let expected = Voter { weight: 0x0403_0201, voted: false, vote: 0x0807_0605 };
    assert_eq!(Voter::from_bytes(&bytes), Ok(expected));
    assert_eq!(Voter::deserialize(&bytes), Ok(expected));
}

#[test]
fn voter_flag_reads_any_nonzero_byte_as_true() {
    let mut bytes = [0u8; 9];
    bytes[4] = 0x80;
    assert_eq!(Voter::from_bytes(&bytes), Ok(Voter { weight: 0, voted: true, vote: 0 }));
    bytes[4] = 1;
    assert_eq!(Voter::from_bytes(&bytes), Ok(Voter { weight: 0, voted: true, vote: 0 }));
}

#[test]
fn voter_decoding_ignores_bytes_after_the_record() {
    let bytes = [1u8, 0, 0, 0, 0, 2, 0, 0, 0, 0xee, 0xee];
    assert_eq!(Voter::from_bytes(&bytes), Ok(Voter { weight: 1, voted: false, vote: 2 }));
}

#[test]
fn voter_shorter_than_nine_bytes_is_malformed() {
    assert_eq!(Voter::from_bytes(&[0u8; 8]), Err(VotingError::MalformedRecord));
    assert_eq!(Voter::deserialize(&[0u8; 8]), Err(VotingError::MalformedRecord));
    assert_eq!(Voter::from_bytes(&[]), Err(VotingError::MalformedRecord));
}

#[test]
fn voter_round_trips() {
    let voters = [
        Voter { weight: 0, voted: false, vote: 0 },
        Voter { weight: 1, voted: false, vote: 0 },
        Voter { weight: 3, voted: true, vote: 2 },
        Voter { weight: u32::MAX, voted: true, vote: u32::MAX },
        Voter { weight: 0x0100_0000, voted: false, vote: 0x00ff_ff00 },
    ];
    for voter in voters {
        assert_eq!(Voter::from_bytes(&voter.to_bytes()), Ok(voter));
        assert_eq!(Voter::deserialize(&voter.serialize()), Ok(voter));
        assert_eq!(voter.to_bytes().len(), 9);
    }
}

#[test]
fn proposal_encodes_name_then_count() {
    let proposal = Proposal { name: name_of(b'X'), vote_count: 0x0a0b_0c0d };
    let mut expected = vec![b'X'; 32];
    expected.extend_from_slice(&[0x0d, 0x0c, 0x0b, 0x0a]);
    assert_eq!(proposal.to_bytes(), expected);
}

#[test]
fn proposal_decodes_name_verbatim() {
    let mut bytes = [0u8; 36];
    for (i, b) in bytes.iter_mut().enumerate().take(32) {
        *b = i as u8;
    }
    bytes[32] = 7;
    let proposal = Proposal::from_bytes(&bytes).unwrap();
    let mut name = [0u8; 32];
    for (i, b) in name.iter_mut().enumerate() {
        *b = i as u8;
    }
    assert_eq!(proposal, Proposal { name, vote_count: 7 });
}

#[test]
fn proposal_shorter_than_36_bytes_is_malformed() {
    assert_eq!(Proposal::from_bytes(&[0u8; 35]), Err(VotingError::MalformedRecord));
    assert_eq!(Proposal::from_bytes(&[]), Err(VotingError::MalformedRecord));
}

#[test]
fn proposal_round_trips() {
    let proposals = [
        Proposal { name: name_of(0), vote_count: 0 },
        Proposal { name: name_of(b'X'), vote_count: 7 },
        Proposal { name: name_of(0xff), vote_count: u32::MAX },
    ];
    for proposal in proposals {
        assert_eq!(Proposal::from_bytes(&proposal.to_bytes()), Ok(proposal));
        assert_eq!(proposal.to_bytes().len(), 36);
    }
}

fn list_of(header: [u8; 4], proposals: &[Proposal]) -> Vec<u8> {
    let mut bytes = header.to_vec();
    for proposal in proposals {
        bytes.extend_from_slice(&proposal.to_bytes());
    }
    bytes
}

#[test]
fn list_skips_its_header_and_reads_whole_records() {
    let proposals = [
        Proposal { name: name_of(b'a'), vote_count: 1 },
        Proposal { name: name_of(b'b'), vote_count: 2 },
        Proposal { name: name_of(b'c'), vote_count: 3 },
    ];
    let bytes = list_of([0xde, 0xad, 0xbe, 0xef], &proposals);
    assert_eq!(bytes.len(), 4 + 3 * 36);
    assert_eq!(Proposal::deserialize_list(&bytes), Ok(proposals.to_vec()));
}

#[test]
fn list_of_a_bare_header_is_empty() {
    assert_eq!(Proposal::deserialize_list(&[9, 9, 9, 9]), Ok(vec![]));
}

#[test]
fn list_with_a_trailing_byte_is_malformed() {
    // 4 bytes of header and 37 after it: one record and one stray byte.
    let mut bytes = list_of([0; 4], &[Proposal { name: name_of(b'a'), vote_count: 1 }]);
    bytes.push(0);
    assert_eq!(bytes.len() - 4, 37);
    assert_eq!(Proposal::deserialize_list(&bytes), Err(VotingError::MalformedRecord));
}

#[test]
fn list_with_a_partial_record_is_malformed() {
    assert_eq!(Proposal::deserialize_list(&[0u8; 4 + 35]), Err(VotingError::MalformedRecord));
    assert_eq!(Proposal::deserialize_list(&[0u8; 5]), Err(VotingError::MalformedRecord));
}

#[test]
fn list_shorter_than_its_header_is_malformed() {
    assert_eq!(Proposal::deserialize_list(&[0u8; 3]), Err(VotingError::MalformedRecord));
    assert_eq!(Proposal::deserialize_list(&[]), Err(VotingError::MalformedRecord));
}
