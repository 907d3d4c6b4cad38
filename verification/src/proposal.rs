//! One proposal's record, its fixed 36-byte layout, and the proposal list.
//!
//! | bytes      | field        | encoding      |
//! |------------|--------------|---------------|
//! | `[0, 32)`  | `name`       | verbatim      |
//! | `[32, 36)` | `vote_count` | little-endian |
//!
//! A proposal list is a 4-byte header, which holds the index of the winning
//! proposal once that has been resolved, followed by whole records.

use crate::error::VotingError;
use crate::wire::{
    le_bytes, le_u32, lemma_le_u32_of_le_bytes, push_bytes, push_u32, read_block, read_u32, splice,
    write_u32,
};
use vstd::arithmetic::div_mod::lemma_fundamental_div_mod_converse;
use vstd::prelude::*;

verus! {

/// Length of a proposal's name.
pub const NAME_LEN: usize = 32;

/// Length of an encoded proposal.
pub const PROPOSAL_LEN: usize = 36;

/// Length of the header in front of a proposal list.
pub const LIST_HEADER_LEN: usize = 4;

/// A candidate option of the ballot.
#[derive(Clone, Copy, Debug, PartialEq, Eq)]
pub struct Proposal {
    /// Opaque label; a shorter name is padded with zero bytes by whoever
    /// sets the ballot up.
    pub name: [u8; 32],
    /// Sum of the weights of the voters that chose this proposal.
    pub vote_count: u32,
}

/// The mathematical model of a `Proposal`.
pub struct ProposalView {
    pub name: Seq<u8>,
    pub vote_count: u32,
}

impl View for Proposal {
    type V = ProposalView;

    open spec fn view(&self) -> ProposalView {
        ProposalView { name: self.name@, vote_count: self.vote_count }
    }
}

/// The models of the proposals in `list`, in order.
pub open spec fn views(list: Seq<Proposal>) -> Seq<ProposalView> {
    Seq::new(list.len(), |i: int| list[i]@)
}

/// The vote counts of the proposals in `list`, in order.
pub open spec fn vote_counts(list: Seq<ProposalView>) -> Seq<u32> {
    Seq::new(list.len(), |i: int| list[i].vote_count)
}

/// How many whole records a list buffer of `len` bytes holds after its
/// header.
pub open spec fn list_len(len: nat) -> nat
    recommends
        len >= LIST_HEADER_LEN,
{
    ((len - LIST_HEADER_LEN) / (PROPOSAL_LEN as int)) as nat
}

/// Where the record with index `i` starts in a list buffer.
pub open spec fn record_start(i: int) -> int {
    LIST_HEADER_LEN + PROPOSAL_LEN * i
}

/// The bytes of the record with index `i` in the list buffer `s`.
pub open spec fn record_at(s: Seq<u8>, i: int) -> Seq<u8> {
    s.subrange(record_start(i), record_start(i + 1))
}

/// The encoded proposals of `list`, one after the other.
pub open spec fn encode_proposals(list: Seq<ProposalView>) -> Seq<u8>
    decreases list.len(),
{
    if list.len() == 0 {
        Seq::empty()
    } else {
        encode_proposals(list.drop_last()) + list.last().encode()
    }
}

impl ProposalView {
    /// A name has exactly 32 bytes.
    pub open spec fn wf(self) -> bool {
        self.name.len() == NAME_LEN
    }

    /// The 36 bytes that spell this record.
    pub open spec fn encode(self) -> Seq<u8> {
        self.name + le_bytes(self.vote_count)
    }
}

impl Proposal {
    /// The record that the first 36 bytes of `s` spell.
    pub open spec fn decode(s: Seq<u8>) -> ProposalView
        recommends
            s.len() >= PROPOSAL_LEN,
    {
        ProposalView { name: s.subrange(0, 32), vote_count: le_u32(s.subrange(32, 36)) }
    }

    /// What reading a record from `s` gives: the decoded record, or
    /// `MalformedRecord` where `s` has fewer than 36 bytes.
    pub open spec fn parse(s: Seq<u8>) -> Result<ProposalView, VotingError> {
        if s.len() < PROPOSAL_LEN {
            Err(VotingError::MalformedRecord)
        } else {
            Ok(Proposal::decode(s))
        }
    }

    /// What reading a proposal list from `s` gives. The 4-byte header is
    /// skipped unread. What follows must be whole records: a buffer shorter
    /// than its header, or one with a partial record at its end, is a
    /// `MalformedRecord`.
    pub open spec fn parse_list(s: Seq<u8>) -> Result<Seq<ProposalView>, VotingError> {
        if s.len() < LIST_HEADER_LEN || (s.len() - LIST_HEADER_LEN) % (PROPOSAL_LEN as int) != 0 {
            Err(VotingError::MalformedRecord)
        } else {
            Ok(
                Seq::new(
                    list_len(s.len()),
                    |i: int| Proposal::decode(record_at(s, i)),
                ),
            )
        }
    }

    /// Decoding an encoded record gives the record back, whatever follows
    /// the 36 bytes.
    pub proof fn law_round_trip(p: ProposalView, rest: Seq<u8>)
        requires
            p.wf(),
        ensures
            p.encode().len() == PROPOSAL_LEN,
            Proposal::parse(p.encode()) == Ok::<ProposalView, VotingError>(p),
            Proposal::parse(p.encode() + rest) == Ok::<ProposalView, VotingError>(p),
    {
        lemma_le_u32_of_le_bytes(p.vote_count);
        let s = p.encode();
        assert(s.subrange(0, 32) =~= p.name);
        let t = s + rest;
        assert(t.subrange(0, 32) =~= p.name);
    }

    /// In the encoded proposals, the proposal with index `i` lies at
    /// `[36 * i, 36 * (i + 1))`.
    proof fn lemma_proposal_at(list: Seq<ProposalView>, i: int)
        requires
            forall|k: int| 0 <= k < list.len() ==> (#[trigger] list[k]).wf(),
            0 <= i < list.len(),
        ensures
            encode_proposals(list).len() == PROPOSAL_LEN * list.len(),
            encode_proposals(list).subrange(PROPOSAL_LEN * i, PROPOSAL_LEN * (i + 1))
                == list[i].encode(),
        decreases list.len(),
    {
        let front = list.drop_last();
        assert(list.last().wf());
        if front.len() > 0 {
            Proposal::lemma_proposal_at(front, if i < front.len() { i } else { 0 });
        }
        assert(encode_proposals(front).len() == PROPOSAL_LEN * front.len());
        if i < front.len() {
            assert(encode_proposals(list).subrange(PROPOSAL_LEN * i, PROPOSAL_LEN * (i + 1))
                =~= encode_proposals(front).subrange(PROPOSAL_LEN * i, PROPOSAL_LEN * (i + 1)));
        }
    }

    /// Decoding a header with encoded proposals behind it gives the list of
    /// those proposals back, whatever the header holds.
    pub proof fn law_list_round_trip(header: Seq<u8>, list: Seq<ProposalView>)
        requires
            header.len() == LIST_HEADER_LEN,
            forall|k: int| 0 <= k < list.len() ==> (#[trigger] list[k]).wf(),
        ensures
            Proposal::parse_list(header + encode_proposals(list)) == Ok::<
                Seq<ProposalView>,
                VotingError,
            >(list),
    {
        let m = list.len() as int;
        let ps = encode_proposals(list);
        let s = header + ps;
        if m > 0 {
            Proposal::lemma_proposal_at(list, 0);
        }
        assert(s.len() == LIST_HEADER_LEN + PROPOSAL_LEN * m);
        assert((PROPOSAL_LEN * m) % 36 == 0 && (PROPOSAL_LEN * m) / 36 == m) by {
            lemma_fundamental_div_mod_converse(PROPOSAL_LEN * m, 36, m, 0);
        }
        let parsed = Proposal::parse_list(s)->Ok_0;
        assert(parsed.len() == m);
        assert forall|j: int| 0 <= j < m implies #[trigger] parsed[j] == list[j] by {
            Proposal::lemma_proposal_at(list, j);
            assert(record_at(s, j) =~= ps.subrange(PROPOSAL_LEN * j, PROPOSAL_LEN * (j + 1)));
            Proposal::law_round_trip(list[j], Seq::empty());
        }
        assert(parsed =~= list);
    }

    /// Reads the proposal at `data[at..at + 36]`.
    fn read_at(data: &[u8], at: usize) -> (p: Proposal)
        requires
            at + PROPOSAL_LEN <= data.len(),
        ensures
            p@ == Proposal::decode(data@.subrange(at as int, at + PROPOSAL_LEN)),
    {
        let name = read_block(data, at);
        let vote_count = read_u32(data, at + NAME_LEN);
        let p = Proposal { name, vote_count };
        proof {
            let s = data@.subrange(at as int, at + PROPOSAL_LEN);
            assert(p@.name =~= s.subrange(0, 32));
        }
        p
    }

    /// Reads a proposal from the first 36 bytes of `bytes`.
    pub fn from_bytes(bytes: &[u8]) -> (r: Result<Proposal, VotingError>)
        ensures
            Proposal::parse(bytes@) == match r {
                Ok(p) => Ok(p@),
                Err(e) => Err(e),
            },
    {
        if bytes.len() < PROPOSAL_LEN {
            return Err(VotingError::MalformedRecord);
        }
        let p = Proposal::read_at(bytes, 0);
        proof {
            let s = bytes@.subrange(0, PROPOSAL_LEN as int);
            assert(s.subrange(0, 32) =~= bytes@.subrange(0, 32));
        }
        Ok(p)
    }

    /// Encodes this proposal as 36 bytes.
    pub fn to_bytes(&self) -> (bytes: Vec<u8>)
        ensures
            bytes@ == self@.encode(),
    {
        let mut bytes: Vec<u8> = Vec::new();
        push_bytes(&mut bytes, self.name.as_slice());
        push_u32(&mut bytes, self.vote_count);
        bytes
    }

    /// Reads the proposal list in `data`: the header is skipped, and the
    /// rest is read record by record.
    pub fn deserialize_list(data: &[u8]) -> (r: Result<Vec<Proposal>, VotingError>)
        ensures
            Proposal::parse_list(data@) == match r {
                Ok(list) => Ok(views(list@)),
                Err(e) => Err(e),
            },
    {
        if data.len() < LIST_HEADER_LEN || (data.len() - LIST_HEADER_LEN) % PROPOSAL_LEN != 0 {
            return Err(VotingError::MalformedRecord);
        }
        let count: usize = (data.len() - LIST_HEADER_LEN) / PROPOSAL_LEN;
        let mut proposals: Vec<Proposal> = Vec::new();
        let mut offset: usize = LIST_HEADER_LEN;
        while offset < data.len()
            invariant
                data@.len() == LIST_HEADER_LEN + PROPOSAL_LEN * count,
                proposals@.len() <= count,
                offset == record_start(proposals@.len() as int),
                forall|i: int|
                    0 <= i < proposals@.len() ==> (#[trigger] proposals@[i])@ == Proposal::decode(
                        record_at(data@, i),
                    ),
            decreases data@.len() - offset,
        {
            let p = Proposal::read_at(data, offset);
            proposals.push(p);
            offset += PROPOSAL_LEN;
        }
        assert(views(proposals@) =~= Proposal::parse_list(data@)->Ok_0);
        Ok(proposals)
    }

    /// Writes this proposal over the first 36 bytes of `data` and leaves the
    /// bytes after them as they were.
    pub(crate) fn store(&self, data: &mut [u8])
        requires
            old(data)@.len() >= PROPOSAL_LEN,
        ensures
            final(data)@ == splice(old(data)@, 0, self@.encode()),
    {
        let mut i: usize = 0;
        while i < NAME_LEN
            invariant
                i <= NAME_LEN,
                data@.len() == old(data)@.len(),
                old(data)@.len() >= PROPOSAL_LEN,
                forall|j: int| 0 <= j < i ==> data@[j] == self.name@[j],
                forall|j: int| i <= j < data@.len() ==> data@[j] == old(data)@[j],
            decreases NAME_LEN - i,
        {
            data[i] = self.name[i];
            i += 1;
        }
        write_u32(data, NAME_LEN, self.vote_count);
    }
}

} // verus!
