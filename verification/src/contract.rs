//! The lifecycle logic: monotonic proposal-id allocation, owner-gated
//! message mutation, and point queries.
//!
//! Each entry point is specified against a total spec-level model of the
//! same operation on the store's abstract map, so a caller knows the exact
//! new store content and the exact outcome for every input.

use vstd::prelude::*;
use crate::codec::{Record, be_bytes_of_u64, write_u64_be};
use crate::error::ContractError;
use crate::msg::{
    HandleMsg, HandleResponse, InitMsg, InitResponse, MessageResponse, ProposalResponse,
    ProposalResponseV, QueryMsg,
};
use crate::state::{
    Addr, MessageState, MessageStateV, Proposal, ProposalV, State, StateV, config_key,
    config_read, config_save, may_load, save,
};
use crate::store::Store;

verus! {

// ---------------------------------------------------------------------------
// The spec-level model
// ---------------------------------------------------------------------------

/// The key a proposal is stored under: the big-endian bytes of its
/// identifier.
pub open spec fn proposal_key(id: u64) -> Seq<u8> {
    be_bytes_of_u64(id)
}

/// The proposal record that creation builds: named by the caller, owned by
/// the caller, with status and all vote counts zero.
pub open spec fn fresh_proposal(sender: Seq<u8>, name: Seq<char>) -> ProposalV {
    ProposalV { name, creator: sender, status: 0, num_votes: 0, tally_yes: 0, tally_no: 0 }
}

/// What initialization of the proposal variant writes: a config record with
/// the caller as owner and a proposal count of zero.
pub open spec fn spec_init(m: Map<Seq<u8>, Seq<u8>>, sender: Seq<u8>) -> Map<Seq<u8>, Seq<u8>> {
    m.insert(config_key(), State::enc(StateV { owner: sender, proposal_count: 0 }))
}

/// What initialization of the message variant writes: a config record with
/// the seed message and the caller as owner.
pub open spec fn spec_init_message(
    m: Map<Seq<u8>, Seq<u8>>,
    sender: Seq<u8>,
    message: Seq<char>,
) -> Map<Seq<u8>, Seq<u8>> {
    m.insert(config_key(), MessageState::enc(MessageStateV { message, owner: sender }))
}

/// Proposal creation on the abstract store: the new store content and the
/// allocated identifier, or the error and the store unchanged.
pub open spec fn spec_create(
    m: Map<Seq<u8>, Seq<u8>>,
    sender: Seq<u8>,
    name: Seq<char>,
) -> (Map<Seq<u8>, Seq<u8>>, Result<u64, ContractError>) {
    if !m.contains_key(config_key()) {
        (m, Err(ContractError::ConfigMissing))
    } else {
        match State::dec(m[config_key()]) {
            None => (m, Err(ContractError::DecodeError)),
            Some(s) => {
                let id = ((s.proposal_count + 1) as u64);
                (
                    m.insert(proposal_key(id), Proposal::enc(fresh_proposal(sender, name))).insert(
                        config_key(),
                        State::enc(StateV { owner: s.owner, proposal_count: id }),
                    ),
                    Ok(id),
                )
            },
        }
    }
}

/// Creation is defined when the counter cannot overflow.
pub open spec fn create_defined(m: Map<Seq<u8>, Seq<u8>>) -> bool {
    m.contains_key(config_key()) ==> match State::dec(m[config_key()]) {
        Some(s) => s.proposal_count < u64::MAX,
        None => true,
    }
}

/// A proposal point query on the abstract store.
pub open spec fn spec_get_proposal(m: Map<Seq<u8>, Seq<u8>>, id: u64) -> Result<
    ProposalResponseV,
    ContractError,
> {
    if !m.contains_key(proposal_key(id)) {
        Err(ContractError::ProposalNotFound { id })
    } else {
        match Proposal::dec(m[proposal_key(id)]) {
            None => Err(ContractError::DecodeError),
            Some(p) => Ok(
                ProposalResponseV {
                    id,
                    name: p.name,
                    creator: p.creator,
                    status: p.status,
                    num_votes: p.num_votes,
                    tally_yes: p.tally_yes,
                    tally_no: p.tally_no,
                },
            ),
        }
    }
}

/// A message replacement on the abstract store: allowed only for the owner
/// recorded at initialization.
pub open spec fn spec_reset(
    m: Map<Seq<u8>, Seq<u8>>,
    sender: Seq<u8>,
    message: Seq<char>,
) -> (Map<Seq<u8>, Seq<u8>>, Result<(), ContractError>) {
    if !m.contains_key(config_key()) {
        (m, Err(ContractError::ConfigMissing))
    } else {
        match MessageState::dec(m[config_key()]) {
            None => (m, Err(ContractError::DecodeError)),
            Some(ms) => if sender != ms.owner {
                (m, Err(ContractError::Unauthorized))
            } else {
                (
                    m.insert(
                        config_key(),
                        MessageState::enc(MessageStateV { message, owner: ms.owner }),
                    ),
                    Ok(()),
                )
            },
        }
    }
}

/// A message query on the abstract store.
pub open spec fn spec_get_message(m: Map<Seq<u8>, Seq<u8>>) -> Result<Seq<char>, ContractError> {
    if !m.contains_key(config_key()) {
        Err(ContractError::ConfigMissing)
    } else {
        match MessageState::dec(m[config_key()]) {
            None => Err(ContractError::DecodeError),
            Some(ms) => Ok(ms.message),
        }
    }
}

// ---------------------------------------------------------------------------
// Entry points
// ---------------------------------------------------------------------------

/// Initializes the proposal variant: records the caller as owner and starts
/// the proposal count at zero.  Never fails.
pub fn init(store: &mut Store, sender: &Addr, _msg: InitMsg) -> (r: Result<
    InitResponse,
    ContractError,
>)
    requires
        old(store).inv(),
    ensures
        final(store).inv(),
        final(store)@ == spec_init(old(store)@, sender@),
        create_defined(final(store)@),
        match r {
            Ok(resp) => resp.messages@.len() == 0,
            Err(_) => false,
        },
{
    let state = State { owner: sender.clone(), proposal_count: 0 };
    config_save(store, &state);
    proof {
        State::lemma_roundtrip(state@);
    }
    Ok(InitResponse::default())
}

/// Initializes the message variant: stores the seed message and records the
/// caller as the owner who alone may later replace it.  Never fails.
pub fn init_message(store: &mut Store, sender: &Addr, message: String) -> (r: Result<
    InitResponse,
    ContractError,
>)
    requires
        old(store).inv(),
    ensures
        final(store).inv(),
        final(store)@ == spec_init_message(old(store)@, sender@, message@),
        match r {
            Ok(resp) => resp.messages@.len() == 0,
            Err(_) => false,
        },
{
    let state = MessageState { message, owner: sender.clone() };
    config_save(store, &state);
    Ok(InitResponse::default())
}

/// Creates a proposal: allocates the next identifier, persists the record
/// under the identifier's key, and advances the stored count to the new
/// identifier, which is returned big-endian in the response payload.
pub fn try_create_proposal(store: &mut Store, sender: &Addr, name: String) -> (r: Result<
    HandleResponse,
    ContractError,
>)
    requires
        old(store).inv(),
        create_defined(old(store)@),
    ensures
        final(store).inv(),
        final(store)@ == spec_create(old(store)@, sender@, name@).0,
        ({
            let res = spec_create(old(store)@, sender@, name@).1;
            match r {
                Ok(resp) => {
                    &&& res is Ok
                    &&& resp.messages@.len() == 0
                    &&& resp.log@.len() == 0
                    &&& match resp.data {
                        Some(d) => d@ == be_bytes_of_u64(res->Ok_0),
                        None => false,
                    }
                },
                Err(e) => res == Err::<u64, ContractError>(e),
            }
        }),
{
    let state: State = match config_read::<State>(store) {
        Ok(s) => s,
        Err(e) => {
            return Err(e);
        },
    };
    let proposal_id = state.proposal_count + 1;
    let proposal = Proposal {
        name,
        creator: sender.clone(),
        status: 0,
        num_votes: 0,
        tally_yes: 0,
        tally_no: 0,
    };
    let mut key: Vec<u8> = Vec::new();
    write_u64_be(&mut key, proposal_id);
    proof {
        assert(key@ =~= proposal_key(proposal_id));
    }
    save(store, key, &proposal);
    let new_state = State { owner: state.owner, proposal_count: proposal_id };
    config_save(store, &new_state);
    let mut data: Vec<u8> = Vec::new();
    write_u64_be(&mut data, proposal_id);
    proof {
        assert(data@ =~= be_bytes_of_u64(proposal_id));
    }
    Ok(HandleResponse { messages: Vec::new(), log: Vec::new(), data: Some(data) })
}

/// Replaces the stored message.  Fails with `Unauthorized`, and changes
/// nothing, when the caller is not the owner recorded at initialization.
pub fn reset_message(store: &mut Store, sender: &Addr, message: String) -> (r: Result<
    (),
    ContractError,
>)
    requires
        old(store).inv(),
    ensures
        final(store).inv(),
        final(store)@ == spec_reset(old(store)@, sender@, message@).0,
        ({
            let res = spec_reset(old(store)@, sender@, message@).1;
            match r {
                Ok(()) => res is Ok,
                Err(e) => res == Err::<(), ContractError>(e),
            }
        }),
{
    let state: MessageState = match config_read::<MessageState>(store) {
        Ok(s) => s,
        Err(e) => {
            return Err(e);
        },
    };
    if !sender.same_as(&state.owner) {
        return Err(ContractError::Unauthorized);
    }
    let new_state = MessageState { message, owner: state.owner };
    config_save(store, &new_state);
    Ok(())
}

/// Dispatches a mutation request to the matching handler.
pub fn handle(store: &mut Store, sender: &Addr, msg: HandleMsg) -> (r: Result<
    HandleResponse,
    ContractError,
>)
    requires
        old(store).inv(),
        (msg matches HandleMsg::CreateProposal { .. }) ==> create_defined(old(store)@),
    ensures
        final(store).inv(),
        match msg {
            HandleMsg::CreateProposal { name } => {
                &&& final(store)@ == spec_create(old(store)@, sender@, name@).0
                &&& ({
                    let res = spec_create(old(store)@, sender@, name@).1;
                    match r {
                        Ok(resp) => {
                            &&& res is Ok
                            &&& match resp.data {
                                Some(d) => d@ == be_bytes_of_u64(res->Ok_0),
                                None => false,
                            }
                        },
                        Err(e) => res == Err::<u64, ContractError>(e),
                    }
                })
            },
            HandleMsg::Reset { message } => {
                &&& final(store)@ == spec_reset(old(store)@, sender@, message@).0
                &&& ({
                    let res = spec_reset(old(store)@, sender@, message@).1;
                    match r {
                        Ok(resp) => res is Ok && resp.data is None,
                        Err(e) => res == Err::<(), ContractError>(e),
                    }
                })
            },
        },
{
    match msg {
        HandleMsg::CreateProposal { name } => try_create_proposal(store, sender, name),
        HandleMsg::Reset { message } => match reset_message(store, sender, message) {
            Ok(()) => Ok(HandleResponse { messages: Vec::new(), log: Vec::new(), data: None }),
            Err(e) => Err(e),
        },
    }
}

/// Looks a proposal up by identifier; echoes every stored field plus the
/// queried identifier, or fails with `ProposalNotFound`.
pub fn get_proposal(store: &Store, proposal_id: u64) -> (r: Result<
    ProposalResponse,
    ContractError,
>)
    requires
        store.inv(),
    ensures
        match r {
            Ok(resp) => spec_get_proposal(store@, proposal_id) == Ok::<
                ProposalResponseV,
                ContractError,
            >(resp@),
            Err(e) => spec_get_proposal(store@, proposal_id) == Err::<
                ProposalResponseV,
                ContractError,
            >(e),
        },
{
    let mut key: Vec<u8> = Vec::new();
    write_u64_be(&mut key, proposal_id);
    proof {
        assert(key@ =~= proposal_key(proposal_id));
    }
    let found: Option<Proposal> = match may_load::<Proposal>(store, &key) {
        Ok(p) => p,
        Err(e) => {
            return Err(e);
        },
    };
    match found {
        Some(proposal) => Ok(
            ProposalResponse {
                id: proposal_id,
                name: proposal.name,
                creator: proposal.creator,
                status: proposal.status,
                num_votes: proposal.num_votes,
                tally_yes: proposal.tally_yes,
                tally_no: proposal.tally_no,
            },
        ),
        None => Err(ContractError::ProposalNotFound { id: proposal_id }),
    }
}

/// Reads the stored message, or fails with `ConfigMissing` when
/// initialization never ran.
pub fn get_message(store: &Store) -> (r: Result<MessageResponse, ContractError>)
    requires
        store.inv(),
    ensures
        match r {
            Ok(resp) => spec_get_message(store@) == Ok::<Seq<char>, ContractError>(resp@),
            Err(e) => spec_get_message(store@) == Err::<Seq<char>, ContractError>(e),
        },
{
    match config_read::<MessageState>(store) {
        Ok(state) => Ok(MessageResponse { message: state.message }),
        Err(e) => Err(e),
    }
}

/// Dispatches a query and serializes the response record.
pub fn query(store: &Store, msg: QueryMsg) -> (r: Result<Vec<u8>, ContractError>)
    requires
        store.inv(),
    ensures
        match msg {
            QueryMsg::GetProposal { proposal_id } => match r {
                Ok(bytes) => match spec_get_proposal(store@, proposal_id) {
                    Ok(resp) => bytes@ == ProposalResponse::enc(resp),
                    Err(_) => false,
                },
                Err(e) => spec_get_proposal(store@, proposal_id) == Err::<
                    ProposalResponseV,
                    ContractError,
                >(e),
            },
            QueryMsg::GetMessage {  } => match r {
                Ok(bytes) => match spec_get_message(store@) {
                    Ok(message) => bytes@ == MessageResponse::enc(message),
                    Err(_) => false,
                },
                Err(e) => spec_get_message(store@) == Err::<Seq<char>, ContractError>(e),
            },
        },
{
    match msg {
        QueryMsg::GetProposal { proposal_id } => match get_proposal(store, proposal_id) {
            Ok(resp) => Ok(resp.encode()),
            Err(e) => Err(e),
        },
        QueryMsg::GetMessage {  } => match get_message(store) {
            Ok(resp) => Ok(resp.encode()),
            Err(e) => Err(e),
        },
    }
}

} // verus!
