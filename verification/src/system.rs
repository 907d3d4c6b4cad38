//! The whole ballot as one snapshot, and its layout.
//!
//! | bytes                 | content                                        |
//! |-----------------------|------------------------------------------------|
//! | 32                    | the chairperson's identity                     |
//! | 41 for each voter     | the voter's identity, then the voter's record  |
//! | 4                     | the number of proposals, little-endian         |
//! | 36 for each proposal  | the proposal's record                          |
//!
//! The number of voters is not part of the layout: whoever decodes a
//! snapshot says how many voters it holds.

use crate::error::VotingError;
use crate::identity::{key_bytes, IDENTITY_LEN};
use crate::proposal::{encode_proposals, views, Proposal, ProposalView};
use crate::voter::Voter;
use crate::wire::{le_bytes, push_bytes, push_u32, read_block};
use solana_program::pubkey::Pubkey;
use vstd::prelude::*;

verus! {

/// Length of an encoded voter entry: an identity and a voter's record.
pub const ENTRY_LEN: usize = 41;

/// The ballot: who chairs it, who may vote, and what is voted on.
#[derive(Debug)]
pub struct SimpleVotingSystem {
    /// Who may grant the right to vote.
    pub chairperson: Pubkey,
    /// The voters, each identity with its record, in the order of the
    /// snapshot.
    pub voters: Vec<(Pubkey, Voter)>,
    /// The proposals, in the order of their indices.
    pub proposals: Vec<Proposal>,
}

/// The mathematical model of a `SimpleVotingSystem`: identities are the
/// byte sequences that the keys hold.
pub struct Ballot {
    pub chairperson: Seq<u8>,
    pub voters: Seq<(Seq<u8>, Voter)>,
    pub proposals: Seq<ProposalView>,
}

/// The models of the voter entries in `list`, in order.
pub open spec fn entries(list: Seq<(Pubkey, Voter)>) -> Seq<(Seq<u8>, Voter)> {
    Seq::new(list.len(), |i: int| (key_bytes(list[i].0), list[i].1))
}

impl View for SimpleVotingSystem {
    type V = Ballot;

    open spec fn view(&self) -> Ballot {
        Ballot {
            chairperson: key_bytes(self.chairperson),
            voters: entries(self.voters@),
            proposals: views(self.proposals@),
        }
    }
}

/// The 41 bytes that spell a voter entry.
pub open spec fn encode_entry(entry: (Seq<u8>, Voter)) -> Seq<u8> {
    entry.0 + entry.1.encode()
}

/// The encoded voter entries, one after the other.
pub open spec fn encode_entries(list: Seq<(Seq<u8>, Voter)>) -> Seq<u8>
    decreases list.len(),
{
    if list.len() == 0 {
        Seq::empty()
    } else {
        encode_entries(list.drop_last()) + encode_entry(list.last())
    }
}

/// Where the voter entry with index `i` starts in a snapshot.
pub open spec fn entry_start(i: int) -> int {
    IDENTITY_LEN + ENTRY_LEN * i
}

/// The bytes of the voter entry with index `i` in the snapshot `s`.
pub open spec fn entry_at(s: Seq<u8>, i: int) -> Seq<u8> {
    s.subrange(entry_start(i), entry_start(i + 1))
}

/// The voter entry that 41 bytes spell.
pub open spec fn decode_entry(entry: Seq<u8>) -> (Seq<u8>, Voter)
    recommends
        entry.len() == ENTRY_LEN,
{
    (
        entry.subrange(0, IDENTITY_LEN as int),
        Voter::decode(entry.subrange(IDENTITY_LEN as int, ENTRY_LEN as int)),
    )
}

impl Ballot {
    /// Identities and names have 32 bytes each, and the number of proposals
    /// fits the 4-byte count in front of them.
    pub open spec fn wf(self) -> bool {
        &&& self.chairperson.len() == IDENTITY_LEN
        &&& forall|i: int| 0 <= i < self.voters.len() ==> (#[trigger] self.voters[i]).0.len()
            == IDENTITY_LEN
        &&& forall|i: int| 0 <= i < self.proposals.len() ==> (#[trigger] self.proposals[i]).wf()
        &&& self.proposals.len() <= u32::MAX
    }

    /// The bytes that spell this ballot.
    pub open spec fn encode(self) -> Seq<u8> {
        self.chairperson + encode_entries(self.voters) + le_bytes(self.proposals.len() as u32)
            + encode_proposals(self.proposals)
    }

    /// What reading a snapshot with `voters_count` voters from `s` gives.
    /// After the voters comes a proposal list, whose header is skipped
    /// unread. A buffer that ends before the proposals' header does, or
    /// within a proposal, is a `MalformedRecord`.
    pub open spec fn parse(s: Seq<u8>, voters_count: nat) -> Result<Ballot, VotingError> {
        let voters_end = entry_start(voters_count as int);
        if s.len() < voters_end {
            Err(VotingError::MalformedRecord)
        } else {
            match Proposal::parse_list(s.subrange(voters_end, s.len() as int)) {
                Err(e) => Err(e),
                Ok(proposals) => Ok(
                    Ballot {
                        chairperson: s.subrange(0, IDENTITY_LEN as int),
                        voters: Seq::new(voters_count, |i: int| decode_entry(entry_at(s, i))),
                        proposals,
                    },
                ),
            }
        }
    }
}

/// In the encoded voter entries, the entry with index `i` lies at
/// `[41 * i, 41 * (i + 1))`.
proof fn lemma_entry_at(list: Seq<(Seq<u8>, Voter)>, i: int)
    requires
        forall|k: int| 0 <= k < list.len() ==> (#[trigger] list[k]).0.len() == IDENTITY_LEN,
        0 <= i < list.len(),
    ensures
        encode_entries(list).len() == ENTRY_LEN * list.len(),
        encode_entries(list).subrange(ENTRY_LEN * i, ENTRY_LEN * (i + 1)) == encode_entry(list[i]),
    decreases list.len(),
{
    let front = list.drop_last();
    list.last().1.law_round_trip(Seq::empty());
    if front.len() > 0 {
        lemma_entry_at(front, if i < front.len() { i } else { 0 });
    }
    assert(encode_entries(front).len() == ENTRY_LEN * front.len());
    if i < front.len() {
        assert(encode_entries(list).subrange(ENTRY_LEN * i, ENTRY_LEN * (i + 1))
            =~= encode_entries(front).subrange(ENTRY_LEN * i, ENTRY_LEN * (i + 1)));
    }
}

/// In an encoded ballot, the voter entry with index `i` reads as it was
/// written.
proof fn lemma_encoded_entry(b: Ballot, i: int)
    requires
        b.wf(),
        0 <= i < b.voters.len(),
    ensures
        b.encode().len() >= entry_start(b.voters.len() as int),
        decode_entry(entry_at(b.encode(), i)) == b.voters[i],
{
    let entry = encode_entry(b.voters[i]);
    lemma_entry_at(b.voters, i);
    b.voters[i].1.law_round_trip(Seq::empty());
    assert(entry_at(b.encode(), i) =~= entry);
    assert(entry.subrange(0, IDENTITY_LEN as int) =~= b.voters[i].0);
    assert(entry.subrange(IDENTITY_LEN as int, ENTRY_LEN as int) =~= b.voters[i].1.encode());
}

/// In an encoded ballot, what follows the voters reads as the list of the
/// ballot's proposals.
proof fn lemma_encoded_proposals(b: Ballot)
    requires
        b.wf(),
    ensures
        b.encode().len() >= entry_start(b.voters.len() as int),
        Proposal::parse_list(
            b.encode().subrange(entry_start(b.voters.len() as int), b.encode().len() as int),
        ) == Ok::<Seq<ProposalView>, VotingError>(b.proposals),
{
    let s = b.encode();
    let n = b.voters.len() as int;
    let header = le_bytes(b.proposals.len() as u32);
    if n > 0 {
        lemma_entry_at(b.voters, 0);
    }
    assert(encode_entries(b.voters).len() == ENTRY_LEN * n);
    assert(s.subrange(entry_start(n), s.len() as int) =~= header + encode_proposals(
        b.proposals,
    ));
    Proposal::law_list_round_trip(header, b.proposals);
}

/// Decoding an encoded ballot, with the number of its voters, gives the
/// ballot back.
pub proof fn law_ballot_round_trip(b: Ballot)
    requires
        b.wf(),
    ensures
        Ballot::parse(b.encode(), b.voters.len()) == Ok::<Ballot, VotingError>(b),
{
    lemma_encoded_proposals(b);
    let parsed = Ballot::parse(b.encode(), b.voters.len())->Ok_0;
    assert(parsed.chairperson =~= b.chairperson);
    assert forall|i: int| 0 <= i < b.voters.len() implies #[trigger] parsed.voters[i]
        == b.voters[i] by {
        lemma_encoded_entry(b, i);
    }
    assert(parsed.voters =~= b.voters);
}

impl SimpleVotingSystem {
    /// Reads a snapshot that holds `voters_count` voters: the chairperson,
    /// the voters, and behind them the proposal list, whose 4-byte count is
    /// skipped unread.
    ///
    /// Fails with `MalformedRecord` where the buffer ends before the voters
    /// do, or holds no proposal list behind them.
    pub fn deserialize(data: &[u8], voters_count: usize) -> (r: Result<
        SimpleVotingSystem,
        VotingError,
    >)
        ensures
            Ballot::parse(data@, voters_count as nat) == match r {
                Ok(system) => Ok(system@),
                Err(e) => Err(e),
            },
    {
        if data.len() < IDENTITY_LEN || voters_count > (data.len() - IDENTITY_LEN) / ENTRY_LEN {
            return Err(VotingError::MalformedRecord);
        }
        let chairperson = Pubkey::new_from_array(read_block(data, 0));

        let mut offset: usize = IDENTITY_LEN;
        let mut voters: Vec<(Pubkey, Voter)> = Vec::new();
        while voters.len() < voters_count
            invariant
                voters@.len() <= voters_count,
                offset == entry_start(voters@.len() as int),
                entry_start(voters_count as int) <= data.len(),
                forall|i: int|
                    0 <= i < voters@.len() ==> (key_bytes((#[trigger] voters@[i]).0), voters@[i].1)
                        == decode_entry(entry_at(data@, i)),
            decreases voters_count - voters@.len(),
        {
            let voter_key = Pubkey::new_from_array(read_block(data, offset));
            let voter = Voter::read_at(data, offset + IDENTITY_LEN);
            voters.push((voter_key, voter));
            offset += ENTRY_LEN;
        }

        let proposals = match Proposal::deserialize_list(&data[offset..data.len()]) {
            Ok(list) => list,
            Err(e) => { return Err(e); },
        };

        let system = SimpleVotingSystem { chairperson, voters, proposals };
        proof {
            let parsed = Ballot::parse(data@, voters_count as nat)->Ok_0;
            assert(system@.voters =~= parsed.voters);
        }
        Ok(system)
    }

    /// Encodes this ballot. The list may hold at most 2^32 - 1 proposals,
    /// so that their number fits the 4-byte count. What is written here,
    /// `deserialize` reads back as the same ballot.
    pub fn to_bytes(&self) -> (bytes: Vec<u8>)
        requires
            self.proposals@.len() <= u32::MAX,
        ensures
            bytes@ == self@.encode(),
            Ballot::parse(bytes@, self.voters@.len()) == Ok::<Ballot, VotingError>(self@),
    {
        let mut bytes: Vec<u8> = Vec::new();
        let chairperson = self.chairperson.to_bytes();
        push_bytes(&mut bytes, chairperson.as_slice());
        let ghost head = bytes@;
        let mut i: usize = 0;
        while i < self.voters.len()
            invariant
                i <= self.voters@.len(),
                head == key_bytes(self.chairperson),
                bytes@ == head + encode_entries(self@.voters.take(i as int)),
                forall|k: int| 0 <= k < i ==> (#[trigger] self@.voters[k]).0.len() == IDENTITY_LEN,
            decreases self.voters@.len() - i,
        {
            let voter_key = self.voters[i].0.to_bytes();
            let voter = self.voters[i].1;
            assert(self@.voters.take(i + 1).drop_last() =~= self@.voters.take(i as int));
            push_bytes(&mut bytes, voter_key.as_slice());
            push_u32(&mut bytes, voter.weight);
            bytes.push(if voter.voted { 1u8 } else { 0u8 });
            push_u32(&mut bytes, voter.vote);
            i += 1;
        }
        assert(self@.voters.take(i as int) =~= self@.voters);
        push_u32(&mut bytes, self.proposals.len() as u32);
        let ghost front = bytes@;
        let mut j: usize = 0;
        while j < self.proposals.len()
            invariant
                j <= self.proposals@.len(),
                bytes@ == front + encode_proposals(self@.proposals.take(j as int)),
            decreases self.proposals@.len() - j,
        {
            let proposal = self.proposals[j].to_bytes();
            assert(self@.proposals.take(j + 1).drop_last() =~= self@.proposals.take(j as int));
            push_bytes(&mut bytes, proposal.as_slice());
            j += 1;
        }
        assert(self@.proposals.take(j as int) =~= self@.proposals);
        proof {
            law_ballot_round_trip(self@);
        }
        bytes
    }
}

} // verus!
