//! The stored record types, their binary layouts, and the persistence
//! helpers: generic keyed save/load plus the singleton config slot.

use vstd::prelude::*;
use vstd::utf8::encode_utf8;
use crate::codec::{
    Record, be_bytes_of_u64, enc_bytes, enc_str, lemma_read_bytes_at, lemma_read_str_at,
    lemma_read_u64_at, read_bytes, read_str, read_u64, take_bytes, take_str, take_u64,
    write_bytes, write_str, write_u64_be,
};
use crate::error::ContractError;
use crate::store::{Store, bytes_eq, copy_bytes};

verus! {

// ---------------------------------------------------------------------------
// Addresses
// ---------------------------------------------------------------------------

/// A caller identity in canonical byte form.
#[derive(Debug)]
pub struct Addr {
    pub bytes: Vec<u8>,
}

impl View for Addr {
    type V = Seq<u8>;

    open spec fn view(&self) -> Seq<u8> {
        self.bytes@
    }
}

impl Addr {
    /// An address over the given canonical bytes.
    pub fn new(bytes: Vec<u8>) -> (r: Addr)
        ensures
            r@ == bytes@,
    {
        Addr { bytes }
    }

    /// Whether two addresses are the same identity.
    pub fn same_as(&self, other: &Addr) -> (r: bool)
        ensures
            r <==> self@ == other@,
    {
        bytes_eq(&self.bytes, &other.bytes)
    }
}

impl Clone for Addr {
    fn clone(&self) -> (r: Self)
        ensures
            r@ == self@,
    {
        Addr { bytes: copy_bytes(&self.bytes) }
    }
}

// ---------------------------------------------------------------------------
// The singleton config records
// ---------------------------------------------------------------------------

/// Global state of the proposal variant: who instantiated the contract and
/// how many proposals have been created.
#[derive(Debug)]
pub struct State {
    pub owner: Addr,
    pub proposal_count: u64,
}

/// The mathematical value of a `State`.
pub ghost struct StateV {
    pub owner: Seq<u8>,
    pub proposal_count: u64,
}

impl View for State {
    type V = StateV;

    open spec fn view(&self) -> StateV {
        StateV { owner: self.owner@, proposal_count: self.proposal_count }
    }
}

impl Record for State {
    open spec fn valid(v: StateV) -> bool {
        v.owner.len() <= u64::MAX
    }

    open spec fn enc(v: StateV) -> Seq<u8> {
        enc_bytes(v.owner) + be_bytes_of_u64(v.proposal_count)
    }

    open spec fn dec(b: Seq<u8>) -> Option<StateV> {
        match read_bytes(b, 0) {
            Some((owner, p)) => match read_u64(b, p) {
                Some((count, q)) => if q == b.len() {
                    Some(StateV { owner, proposal_count: count })
                } else {
                    None
                },
                None => None,
            },
            None => None,
        }
    }

    #[verifier::rlimit(50)]
    proof fn lemma_roundtrip(v: StateV) {
        broadcast use crate::codec::lemma_u64_be_len;

        let b = Self::enc(v);
        let rest = be_bytes_of_u64(v.proposal_count);
        assert(b =~= Seq::<u8>::empty() + enc_bytes(v.owner) + rest);
        lemma_read_bytes_at(Seq::<u8>::empty(), v.owner, rest);
        assert(read_bytes(b, 0) == Some((v.owner, 8 + v.owner.len() as int)));
        let pre = enc_bytes(v.owner);
        assert(b =~= pre + be_bytes_of_u64(v.proposal_count) + Seq::<u8>::empty());
        lemma_read_u64_at(pre, v.proposal_count, Seq::<u8>::empty());
        assert(read_u64(b, pre.len() as int) == Some(
            (v.proposal_count, pre.len() + 8int),
        ));
        assert(pre.len() + 8 == b.len());
    }

    fn encode(&self) -> (r: Vec<u8>) {
        let n = self.owner.bytes.len();
        let mut out: Vec<u8> = Vec::new();
        write_bytes(&mut out, &self.owner.bytes);
        write_u64_be(&mut out, self.proposal_count);
        proof {
            assert(out@ =~= Self::enc(self@));
        }
        out
    }

    fn decode(b: &Vec<u8>) -> (r: Result<Self, ContractError>) {
        match take_bytes(b, 0) {
            None => Err(ContractError::DecodeError),
            Some((owner, p)) => match take_u64(b, p) {
                None => Err(ContractError::DecodeError),
                Some((count, q)) => {
                    if q == b.len() {
                        Ok(State { owner: Addr { bytes: owner }, proposal_count: count })
                    } else {
                        Err(ContractError::DecodeError)
                    }
                },
            },
        }
    }
}

// ---------------------------------------------------------------------------
// Proposals
// ---------------------------------------------------------------------------

/// One proposal in the ledger.  Created once; the vote fields are reserved
/// and stay at zero in this core.
#[derive(Debug)]
pub struct Proposal {
    pub name: String,
    pub creator: Addr,
    pub status: u64,
    pub num_votes: u64,
    pub tally_yes: u64,
    pub tally_no: u64,
}

/// The mathematical value of a `Proposal`.
pub ghost struct ProposalV {
    pub name: Seq<char>,
    pub creator: Seq<u8>,
    pub status: u64,
    pub num_votes: u64,
    pub tally_yes: u64,
    pub tally_no: u64,
}

impl View for Proposal {
    type V = ProposalV;

    open spec fn view(&self) -> ProposalV {
        ProposalV {
            name: self.name@,
            creator: self.creator@,
            status: self.status,
            num_votes: self.num_votes,
            tally_yes: self.tally_yes,
            tally_no: self.tally_no,
        }
    }
}

impl Record for Proposal {
    open spec fn valid(v: ProposalV) -> bool {
        encode_utf8(v.name).len() <= u64::MAX && v.creator.len() <= u64::MAX
    }

    open spec fn enc(v: ProposalV) -> Seq<u8> {
        enc_str(v.name) + enc_bytes(v.creator) + be_bytes_of_u64(v.status) + be_bytes_of_u64(
            v.num_votes,
        ) + be_bytes_of_u64(v.tally_yes) + be_bytes_of_u64(v.tally_no)
    }

    open spec fn dec(b: Seq<u8>) -> Option<ProposalV> {
        match read_str(b, 0) {
            Some((name, p1)) => match read_bytes(b, p1) {
                Some((creator, p2)) => match read_u64(b, p2) {
                    Some((status, p3)) => match read_u64(b, p3) {
                        Some((num_votes, p4)) => match read_u64(b, p4) {
                            Some((tally_yes, p5)) => match read_u64(b, p5) {
                                Some((tally_no, p6)) => if p6 == b.len() {
                                    Some(
                                        ProposalV {
                                            name,
                                            creator,
                                            status,
                                            num_votes,
                                            tally_yes,
                                            tally_no,
                                        },
                                    )
                                } else {
                                    None
                                },
                                None => None,
                            },
                            None => None,
                        },
                        None => None,
                    },
                    None => None,
                },
                None => None,
            },
            None => None,
        }
    }

    #[verifier::rlimit(100)]
    proof fn lemma_roundtrip(v: ProposalV) {
        broadcast use crate::codec::lemma_u64_be_len;

        let b = Self::enc(v);
        let e1 = enc_str(v.name);
        let e2 = enc_bytes(v.creator);
        let e3 = be_bytes_of_u64(v.status);
        let e4 = be_bytes_of_u64(v.num_votes);
        let e5 = be_bytes_of_u64(v.tally_yes);
        let e6 = be_bytes_of_u64(v.tally_no);
        assert(b =~= Seq::<u8>::empty() + e1 + (e2 + e3 + e4 + e5 + e6));
        lemma_read_str_at(Seq::<u8>::empty(), v.name, e2 + e3 + e4 + e5 + e6);
        let p1 = 8 + encode_utf8(v.name).len() as int;
        assert(read_str(b, 0) == Some((v.name, p1)));
        assert(b =~= e1 + e2 + (e3 + e4 + e5 + e6));
        lemma_read_bytes_at(e1, v.creator, e3 + e4 + e5 + e6);
        let p2 = p1 + 8 + v.creator.len() as int;
        assert(read_bytes(b, p1) == Some((v.creator, p2)));
        assert(b =~= (e1 + e2) + e3 + (e4 + e5 + e6));
        lemma_read_u64_at(e1 + e2, v.status, e4 + e5 + e6);
        assert(read_u64(b, p2) == Some((v.status, p2 + 8)));
        assert(b =~= (e1 + e2 + e3) + e4 + (e5 + e6));
        lemma_read_u64_at(e1 + e2 + e3, v.num_votes, e5 + e6);
        assert(read_u64(b, p2 + 8) == Some((v.num_votes, p2 + 16)));
        assert(b =~= (e1 + e2 + e3 + e4) + e5 + e6);
        lemma_read_u64_at(e1 + e2 + e3 + e4, v.tally_yes, e6);
        assert(read_u64(b, p2 + 16) == Some((v.tally_yes, p2 + 24)));
        assert(b =~= (e1 + e2 + e3 + e4 + e5) + e6 + Seq::<u8>::empty());
        lemma_read_u64_at(e1 + e2 + e3 + e4 + e5, v.tally_no, Seq::<u8>::empty());
        assert(read_u64(b, p2 + 24) == Some((v.tally_no, p2 + 32)));
        assert(p2 + 32 == b.len());
    }

    fn encode(&self) -> (r: Vec<u8>) {
        let mut out: Vec<u8> = Vec::new();
        write_str(&mut out, &self.name);
        write_bytes(&mut out, &self.creator.bytes);
        write_u64_be(&mut out, self.status);
        write_u64_be(&mut out, self.num_votes);
        write_u64_be(&mut out, self.tally_yes);
        write_u64_be(&mut out, self.tally_no);
        let n = self.creator.bytes.len();
        proof {
            assert(self.creator@.len() == n && n <= usize::MAX <= u64::MAX);
            assert(out@ =~= Self::enc(self@));
        }
        out
    }

    fn decode(b: &Vec<u8>) -> (r: Result<Self, ContractError>) {
        let parsed = match take_str(b, 0) {
            None => None,
            Some((name, p1)) => match take_bytes(b, p1) {
                None => None,
                Some((creator, p2)) => match take_u64(b, p2) {
                    None => None,
                    Some((status, p3)) => match take_u64(b, p3) {
                        None => None,
                        Some((num_votes, p4)) => match take_u64(b, p4) {
                            None => None,
                            Some((tally_yes, p5)) => match take_u64(b, p5) {
                                None => None,
                                Some((tally_no, p6)) => Some(
                                    (
                                        Proposal {
                                            name,
                                            creator: Addr { bytes: creator },
                                            status,
                                            num_votes,
                                            tally_yes,
                                            tally_no,
                                        },
                                        p6,
                                    ),
                                ),
                            },
                        },
                    },
                },
            },
        };
        match parsed {
            Some((proposal, end)) => {
                if end == b.len() {
                    proof {
                        broadcast use vstd::utf8::decode_utf8_encode_utf8;

                    }
                    Ok(proposal)
                } else {
                    Err(ContractError::DecodeError)
                }
            },
            None => Err(ContractError::DecodeError),
        }
    }
}

/// A vote on a proposal.  Reserved for the tallying logic that this core
/// deliberately leaves unimplemented; nothing stores or reads votes yet.
#[derive(Debug, PartialEq, Eq, Structural)]
pub struct Vote {
    pub proposal_id: u64,
    pub status: bool,
}

// ---------------------------------------------------------------------------
// The message-variant config record
// ---------------------------------------------------------------------------

/// Global state of the message variant: the mutable message and the owner
/// who alone may overwrite it.
#[derive(Debug)]
pub struct MessageState {
    pub message: String,
    pub owner: Addr,
}

/// The mathematical value of a `MessageState`.
pub ghost struct MessageStateV {
    pub message: Seq<char>,
    pub owner: Seq<u8>,
}

impl View for MessageState {
    type V = MessageStateV;

    open spec fn view(&self) -> MessageStateV {
        MessageStateV { message: self.message@, owner: self.owner@ }
    }
}

impl Record for MessageState {
    open spec fn valid(v: MessageStateV) -> bool {
        encode_utf8(v.message).len() <= u64::MAX && v.owner.len() <= u64::MAX
    }

    open spec fn enc(v: MessageStateV) -> Seq<u8> {
        enc_str(v.message) + enc_bytes(v.owner)
    }

    open spec fn dec(b: Seq<u8>) -> Option<MessageStateV> {
        match read_str(b, 0) {
            Some((message, p1)) => match read_bytes(b, p1) {
                Some((owner, p2)) => if p2 == b.len() {
                    Some(MessageStateV { message, owner })
                } else {
                    None
                },
                None => None,
            },
            None => None,
        }
    }

    #[verifier::rlimit(50)]
    proof fn lemma_roundtrip(v: MessageStateV) {
        broadcast use crate::codec::lemma_u64_be_len;

        let b = Self::enc(v);
        let e1 = enc_str(v.message);
        let e2 = enc_bytes(v.owner);
        assert(b =~= Seq::<u8>::empty() + e1 + e2);
        lemma_read_str_at(Seq::<u8>::empty(), v.message, e2);
        let p1 = 8 + encode_utf8(v.message).len() as int;
        assert(read_str(b, 0) == Some((v.message, p1)));
        assert(b =~= e1 + e2 + Seq::<u8>::empty());
        lemma_read_bytes_at(e1, v.owner, Seq::<u8>::empty());
        let p2 = p1 + 8 + v.owner.len() as int;
        assert(read_bytes(b, p1) == Some((v.owner, p2)));
        assert(p2 == b.len());
    }

    fn encode(&self) -> (r: Vec<u8>) {
        let mut out: Vec<u8> = Vec::new();
        write_str(&mut out, &self.message);
        write_bytes(&mut out, &self.owner.bytes);
        let n = self.owner.bytes.len();
        proof {
            assert(self.owner@.len() == n && n <= usize::MAX <= u64::MAX);
            assert(out@ =~= Self::enc(self@));
        }
        out
    }

    fn decode(b: &Vec<u8>) -> (r: Result<Self, ContractError>) {
        match take_str(b, 0) {
            None => Err(ContractError::DecodeError),
            Some((message, p1)) => match take_bytes(b, p1) {
                None => Err(ContractError::DecodeError),
                Some((owner, p2)) => {
                    if p2 == b.len() {
                        proof {
                            broadcast use vstd::utf8::decode_utf8_encode_utf8;

                        }
                        Ok(MessageState { message, owner: Addr { bytes: owner } })
                    } else {
                        Err(ContractError::DecodeError)
                    }
                },
            },
        }
    }
}

// ---------------------------------------------------------------------------
// Keyed access
// ---------------------------------------------------------------------------

/// The reserved key of the singleton config slot (the bytes of `"config"`).
/// Six bytes long, so it can never collide with an eight-byte proposal key.
pub open spec fn config_key() -> Seq<u8> {
    seq![0x63u8, 0x6fu8, 0x6eu8, 0x66u8, 0x69u8, 0x67u8]
}

/// The reserved config key as a byte string.
pub fn config_key_bytes() -> (r: Vec<u8>)
    ensures
        r@ == config_key(),
{
    let mut r: Vec<u8> = Vec::new();
    r.push(0x63);
    r.push(0x6f);
    r.push(0x6e);
    r.push(0x66);
    r.push(0x69);
    r.push(0x67);
    proof {
        assert(r@ =~= config_key());
    }
    r
}

/// Encodes `value` and writes it under `key`, overwriting any prior value.
pub fn save<T: Record>(store: &mut Store, key: Vec<u8>, value: &T)
    requires
        old(store).inv(),
    ensures
        final(store).inv(),
        final(store)@ == old(store)@.insert(key@, T::enc(value@)),
        T::valid(value@),
{
    let bytes = value.encode();
    store.set(key, bytes);
}

/// Reads and decodes the record under `key`; fails with `NotFound` when the
/// key is absent and with `DecodeError` when the stored bytes do not fit.
pub fn load<T: Record>(store: &Store, key: &Vec<u8>) -> (r: Result<T, ContractError>)
    requires
        store.inv(),
    ensures
        match r {
            Ok(x) => {
                &&& store@.contains_key(key@)
                &&& T::dec(store@[key@]) == Some(x@)
                &&& T::valid(x@)
            },
            Err(e) => match e {
                ContractError::NotFound { key: k } => !store@.contains_key(key@) && k@ == key@,
                ContractError::DecodeError => store@.contains_key(key@) && T::dec(
                    store@[key@],
                ) is None,
                _ => false,
            },
        },
{
    match store.get(key) {
        None => Err(ContractError::NotFound { key: copy_bytes(key) }),
        Some(bytes) => T::decode(bytes),
    }
}

/// Like `load`, but an absent key yields an empty result instead of failing;
/// a type mismatch still fails with `DecodeError`.
pub fn may_load<T: Record>(store: &Store, key: &Vec<u8>) -> (r: Result<
    Option<T>,
    ContractError,
>)
    requires
        store.inv(),
    ensures
        match r {
            Ok(Some(x)) => {
                &&& store@.contains_key(key@)
                &&& T::dec(store@[key@]) == Some(x@)
                &&& T::valid(x@)
            },
            Ok(None) => !store@.contains_key(key@),
            Err(e) => {
                &&& e == ContractError::DecodeError
                &&& store@.contains_key(key@)
                &&& T::dec(store@[key@]) is None
            },
        },
{
    match store.get(key) {
        None => Ok(None),
        Some(bytes) => match T::decode(bytes) {
            Ok(x) => Ok(Some(x)),
            Err(e) => Err(e),
        },
    }
}

// ---------------------------------------------------------------------------
// The singleton config slot
// ---------------------------------------------------------------------------

/// Writes `value` into the singleton config slot.
pub fn config_save<T: Record>(store: &mut Store, value: &T)
    requires
        old(store).inv(),
    ensures
        final(store).inv(),
        final(store)@ == old(store)@.insert(config_key(), T::enc(value@)),
        T::valid(value@),
{
    let key = config_key_bytes();
    save(store, key, value);
}

/// Reads the singleton config slot; fails with `ConfigMissing` when
/// initialization never ran.
pub fn config_read<T: Record>(store: &Store) -> (r: Result<T, ContractError>)
    requires
        store.inv(),
    ensures
        match r {
            Ok(x) => {
                &&& store@.contains_key(config_key())
                &&& T::dec(store@[config_key()]) == Some(x@)
                &&& T::valid(x@)
            },
            Err(e) => match e {
                ContractError::ConfigMissing => !store@.contains_key(config_key()),
                ContractError::DecodeError => store@.contains_key(config_key()) && T::dec(
                    store@[config_key()],
                ) is None,
                _ => false,
            },
        },
{
    let key = config_key_bytes();
    match load::<T>(store, &key) {
        Ok(x) => Ok(x),
        Err(e) => match e {
            ContractError::NotFound { key: _ } => Err(ContractError::ConfigMissing),
            other => Err(other),
        },
    }
}

/// Loads the config record, applies `f`, and persists the result only when
/// `f` succeeds; a failure of `f`, or of the load, changes nothing and
/// propagates unchanged.
pub fn config_update<T: Record, F: FnOnce(T) -> Result<T, ContractError>>(
    store: &mut Store,
    f: F,
) -> (r: Result<(), ContractError>)
    requires
        old(store).inv(),
        forall|t: T| #[trigger] call_requires(f, (t,)),
    ensures
        final(store).inv(),
        match r {
            Ok(()) => exists|t: T, t2: T|
                {
                    &&& old(store)@.contains_key(config_key())
                    &&& T::dec(old(store)@[config_key()]) == Some(t@)
                    &&& #[trigger] call_ensures(f, (t,), Ok::<T, ContractError>(t2))
                    &&& final(store)@ == old(store)@.insert(config_key(), T::enc(t2@))
                },
            Err(e) => {
                &&& final(store)@ == old(store)@
                &&& {
                    ||| {
                        &&& !old(store)@.contains_key(config_key())
                        &&& e == ContractError::ConfigMissing
                    }
                    ||| {
                        &&& old(store)@.contains_key(config_key())
                        &&& T::dec(old(store)@[config_key()]) is None
                        &&& e == ContractError::DecodeError
                    }
                    ||| exists|t: T|
                        {
                            &&& T::dec(old(store)@[config_key()]) == Some(t@)
                            &&& #[trigger] call_ensures(f, (t,), Err::<T, ContractError>(e))
                        }
                }
            },
        },
{
    let current: T = match config_read::<T>(store) {
        Ok(x) => x,
        Err(e) => {
            return Err(e);
        },
    };
    let ghost before = current;
    match f(current) {
        Ok(updated) => {
            config_save(store, &updated);
            proof {
                assert(call_ensures(f, (before,), Ok::<T, ContractError>(updated)));
            }
            Ok(())
        },
        Err(e) => Err(e),
    }
}

} // verus!
