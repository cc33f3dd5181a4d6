//! Inbound messages and outbound responses of the external interface.

use vstd::prelude::*;
use vstd::utf8::encode_utf8;
use crate::codec::{
    Record, be_bytes_of_u64, enc_str, lemma_read_str_at, lemma_read_u64_at, read_str, read_u64,
    tail_from, take_str, take_u64, write_str, write_u64_be,
};
use crate::error::ContractError;
use crate::state::{Addr, Proposal, ProposalV};

verus! {

/// The initialization message of the proposal variant; it carries nothing.
#[derive(Debug)]
pub struct InitMsg {}

/// A tagged mutation request.
#[derive(Debug)]
pub enum HandleMsg {
    /// Create a proposal with the given name.
    CreateProposal { name: String },
    /// Replace the stored message (message variant; owner only).
    Reset { message: String },
}

/// A tagged query.
#[derive(Debug)]
pub enum QueryMsg {
    /// Look a proposal up by its identifier.
    GetProposal { proposal_id: u64 },
    /// Read the stored message (message variant).
    GetMessage {},
}

/// The answer to a successful initialization; it carries no follow-up
/// messages.
#[derive(Debug)]
pub struct InitResponse {
    pub messages: Vec<String>,
}

impl Default for InitResponse {
    fn default() -> (r: Self)
        ensures
            r.messages@.len() == 0,
    {
        InitResponse { messages: Vec::new() }
    }
}

/// The answer to a successful mutation: no follow-up messages, no log, and
/// an optional opaque payload.
#[derive(Debug)]
pub struct HandleResponse {
    pub messages: Vec<String>,
    pub log: Vec<String>,
    pub data: Option<Vec<u8>>,
}

// ---------------------------------------------------------------------------
// Query responses
// ---------------------------------------------------------------------------

/// Every stored field of a proposal, echoed together with the queried
/// identifier.
#[derive(Debug)]
pub struct ProposalResponse {
    pub id: u64,
    pub name: String,
    pub creator: Addr,
    pub status: u64,
    pub num_votes: u64,
    pub tally_yes: u64,
    pub tally_no: u64,
}

/// The mathematical value of a `ProposalResponse`.
pub ghost struct ProposalResponseV {
    pub id: u64,
    pub name: Seq<char>,
    pub creator: Seq<u8>,
    pub status: u64,
    pub num_votes: u64,
    pub tally_yes: u64,
    pub tally_no: u64,
}

impl ProposalResponseV {
    /// The proposal part of the response.
    pub open spec fn proposal(self) -> ProposalV {
        ProposalV {
            name: self.name,
            creator: self.creator,
            status: self.status,
            num_votes: self.num_votes,
            tally_yes: self.tally_yes,
            tally_no: self.tally_no,
        }
    }
}

impl View for ProposalResponse {
    type V = ProposalResponseV;

    open spec fn view(&self) -> ProposalResponseV {
        ProposalResponseV {
            id: self.id,
            name: self.name@,
            creator: self.creator@,
            status: self.status,
            num_votes: self.num_votes,
            tally_yes: self.tally_yes,
            tally_no: self.tally_no,
        }
    }
}

impl Record for ProposalResponse {
    open spec fn valid(v: ProposalResponseV) -> bool {
        Proposal::valid(v.proposal())
    }

    open spec fn enc(v: ProposalResponseV) -> Seq<u8> {
        be_bytes_of_u64(v.id) + Proposal::enc(v.proposal())
    }

    open spec fn dec(b: Seq<u8>) -> Option<ProposalResponseV> {
        match read_u64(b, 0) {
            Some((id, p)) => match Proposal::dec(b.subrange(p, b.len() as int)) {
                Some(pv) => Some(
                    ProposalResponseV {
                        id,
                        name: pv.name,
                        creator: pv.creator,
                        status: pv.status,
                        num_votes: pv.num_votes,
                        tally_yes: pv.tally_yes,
                        tally_no: pv.tally_no,
                    },
                ),
                None => None,
            },
            None => None,
        }
    }

    proof fn lemma_roundtrip(v: ProposalResponseV) {
        broadcast use crate::codec::lemma_u64_be_len;

        let b = Self::enc(v);
        let rest = Proposal::enc(v.proposal());
        assert(b =~= Seq::<u8>::empty() + be_bytes_of_u64(v.id) + rest);
        lemma_read_u64_at(Seq::<u8>::empty(), v.id, rest);
        assert(b.subrange(8, b.len() as int) =~= rest);
        Proposal::lemma_roundtrip(v.proposal());
    }

    fn encode(&self) -> (r: Vec<u8>) {
        let proposal = Proposal {
            name: crate::codec::clone_string(&self.name),
            creator: self.creator.clone(),
            status: self.status,
            num_votes: self.num_votes,
            tally_yes: self.tally_yes,
            tally_no: self.tally_no,
        };
        let mut out: Vec<u8> = Vec::new();
        write_u64_be(&mut out, self.id);
        let mut body = proposal.encode();
        out.append(&mut body);
        proof {
            assert(out@ =~= Self::enc(self@));
        }
        out
    }

    fn decode(b: &Vec<u8>) -> (r: Result<Self, ContractError>) {
        match take_u64(b, 0) {
            None => Err(ContractError::DecodeError),
            Some((id, p)) => {
                let body = tail_from(b, p);
                match Proposal::decode(&body) {
                    Err(e) => Err(e),
                    Ok(proposal) => Ok(
                        ProposalResponse {
                            id,
                            name: proposal.name,
                            creator: proposal.creator,
                            status: proposal.status,
                            num_votes: proposal.num_votes,
                            tally_yes: proposal.tally_yes,
                            tally_no: proposal.tally_no,
                        },
                    ),
                }
            },
        }
    }
}

/// The stored message, echoed to a query.
#[derive(Debug)]
pub struct MessageResponse {
    pub message: String,
}

impl View for MessageResponse {
    type V = Seq<char>;

    open spec fn view(&self) -> Seq<char> {
        self.message@
    }
}

impl Record for MessageResponse {
    open spec fn valid(v: Seq<char>) -> bool {
        encode_utf8(v).len() <= u64::MAX
    }

    open spec fn enc(v: Seq<char>) -> Seq<u8> {
        enc_str(v)
    }

    open spec fn dec(b: Seq<u8>) -> Option<Seq<char>> {
        match read_str(b, 0) {
            Some((message, p)) => if p == b.len() {
                Some(message)
            } else {
                None
            },
            None => None,
        }
    }

    proof fn lemma_roundtrip(v: Seq<char>) {
        broadcast use crate::codec::lemma_u64_be_len;

        let b = Self::enc(v);
        assert(b =~= Seq::<u8>::empty() + enc_str(v) + Seq::<u8>::empty());
        lemma_read_str_at(Seq::<u8>::empty(), v, Seq::<u8>::empty());
    }

    fn encode(&self) -> (r: Vec<u8>) {
        let mut out: Vec<u8> = Vec::new();
        write_str(&mut out, &self.message);
        proof {
            assert(out@ =~= Self::enc(self@));
        }
        out
    }

    fn decode(b: &Vec<u8>) -> (r: Result<Self, ContractError>) {
        match take_str(b, 0) {
            None => Err(ContractError::DecodeError),
            Some((message, p)) => {
                if p == b.len() {
                    proof {
                        broadcast use vstd::utf8::decode_utf8_encode_utf8;

                    }
                    Ok(MessageResponse { message })
                } else {
                    Err(ContractError::DecodeError)
                }
            },
        }
    }
}

} // verus!
