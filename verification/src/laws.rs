//! Proved statements that tie the lifecycle operations together: identifier
//! allocation is monotonic and dense, unallocated identifiers are never
//! found, and a replaced message is what a later read returns.

use vstd::prelude::*;
use vstd::utf8::encode_utf8;
use crate::codec::{Record, lemma_u64_be_injective, lemma_u64_be_len};
use crate::contract::{
    proposal_key, spec_create, spec_get_message, spec_get_proposal, spec_init, spec_reset,
};
use crate::error::ContractError;
use crate::state::{MessageState, MessageStateV, Proposal, State, StateV, config_key};

verus! {

/// The proposal count recorded in the config slot, when the slot holds a
/// decodable config record.
pub open spec fn config_count(m: Map<Seq<u8>, Seq<u8>>) -> Option<u64> {
    if m.contains_key(config_key()) {
        match State::dec(m[config_key()]) {
            Some(s) => Some(s.proposal_count),
            None => None,
        }
    } else {
        None
    }
}

/// Whatever a config record decodes from is a valid config view.
proof fn lemma_state_dec_valid(b: Seq<u8>)
    ensures
        match State::dec(b) {
            Some(s) => State::valid(s),
            None => true,
        },
{
}

/// Whatever a message record decodes from is a valid message view.
proof fn lemma_message_dec_valid(b: Seq<u8>)
    ensures
        match MessageState::dec(b) {
            Some(ms) => MessageState::valid(ms),
            None => true,
        },
{
    broadcast use vstd::utf8::decode_utf8_encode_utf8;

}

/// A proposal key never collides with the reserved config key: the former
/// is eight bytes, the latter six.
pub proof fn lemma_keys_disjoint(id: u64)
    ensures
        proposal_key(id) != config_key(),
{
    broadcast use lemma_u64_be_len;

    assert(config_key().len() == 6);
}

/// One successful creation: on a store whose config holds count `c`, the
/// allocated identifier is `c + 1`, and afterwards the config holds count
/// `c + 1` with the owner unchanged.
pub proof fn lemma_create_allocates(m: Map<Seq<u8>, Seq<u8>>, sender: Seq<u8>, name: Seq<char>)
    requires
        config_count(m) is Some,
        config_count(m)->0 < u64::MAX,
    ensures
        spec_create(m, sender, name).1 == Ok::<u64, ContractError>(
            (config_count(m)->0 + 1) as u64,
        ),
        config_count(spec_create(m, sender, name).0) == Some((config_count(m)->0 + 1) as u64),
{
    let s = State::dec(m[config_key()])->0;
    let id = (s.proposal_count + 1) as u64;
    lemma_state_dec_valid(m[config_key()]);
    let sv = StateV { owner: s.owner, proposal_count: id };
    State::lemma_roundtrip(sv);
    lemma_keys_disjoint(id);
}

/// The stores reached by replaying a sequence of creation calls, one per
/// caller/name pair, oldest first.
pub open spec fn ledger_after(
    m0: Map<Seq<u8>, Seq<u8>>,
    senders: Seq<Seq<u8>>,
    names: Seq<Seq<char>>,
) -> Map<Seq<u8>, Seq<u8>>
    decreases senders.len(),
{
    if senders.len() == 0 {
        m0
    } else {
        spec_create(
            ledger_after(m0, senders.drop_last(), names.drop_last()),
            senders.last(),
            names.last(),
        ).0
    }
}

/// Monotonic allocation: starting from a freshly initialized store, the
/// identifiers returned by successive creation calls are exactly
/// `1, 2, 3, …` in call order, and the stored proposal count always equals
/// the number of creations so far.
pub proof fn lemma_monotonic_allocation(
    m0: Map<Seq<u8>, Seq<u8>>,
    sender0: Seq<u8>,
    senders: Seq<Seq<u8>>,
    names: Seq<Seq<char>>,
    i: int,
)
    requires
        sender0.len() <= u64::MAX,
        senders.len() == names.len(),
        senders.len() < u64::MAX,
        0 <= i <= senders.len(),
    ensures
        config_count(ledger_after(spec_init(m0, sender0), senders.take(i), names.take(i)))
            == Some(i as u64),
        i < senders.len() ==> spec_create(
            ledger_after(spec_init(m0, sender0), senders.take(i), names.take(i)),
            senders[i],
            names[i],
        ).1 == Ok::<u64, ContractError>((i + 1) as u64),
    decreases i,
{
    let start = spec_init(m0, sender0);
    if i == 0 {
        assert(senders.take(0) =~= Seq::<Seq<u8>>::empty());
        assert(names.take(0) =~= Seq::<Seq<char>>::empty());
        State::lemma_roundtrip(StateV { owner: sender0, proposal_count: 0 });
        if i < senders.len() {
            lemma_create_allocates(ledger_after(start, senders.take(0), names.take(0)), senders[0], names[0]);
        }
    } else {
        lemma_monotonic_allocation(m0, sender0, senders, names, i - 1);
        assert(senders.take(i).drop_last() =~= senders.take(i - 1));
        assert(names.take(i).drop_last() =~= names.take(i - 1));
        assert(senders.take(i).last() == senders[i - 1]);
        assert(names.take(i).last() == names[i - 1]);
        lemma_create_allocates(
            ledger_after(start, senders.take(i - 1), names.take(i - 1)),
            senders[i - 1],
            names[i - 1],
        );
        if i < senders.len() {
            lemma_create_allocates(
                ledger_after(start, senders.take(i), names.take(i)),
                senders[i],
                names[i],
            );
        }
    }
}

/// A well-formed proposal ledger: the config slot decodes, a proposal is
/// stored under an identifier exactly when the identifier lies between 1
/// and the stored count, and every stored proposal decodes.
pub open spec fn ledger_wf(m: Map<Seq<u8>, Seq<u8>>) -> bool {
    &&& m.contains_key(config_key())
    &&& State::dec(m[config_key()]) is Some
    &&& forall|id: u64|
        #[trigger] m.contains_key(proposal_key(id)) <==> (1 <= id
            <= State::dec(m[config_key()])->0.proposal_count)
    &&& forall|id: u64|
        #[trigger] m.contains_key(proposal_key(id)) ==> Proposal::dec(
            m[proposal_key(id)],
        ) is Some
}

/// Initializing an empty store yields a well-formed ledger with count zero.
pub proof fn lemma_init_wf(sender: Seq<u8>)
    requires
        sender.len() <= u64::MAX,
    ensures
        ledger_wf(spec_init(Map::<Seq<u8>, Seq<u8>>::empty(), sender)),
        config_count(spec_init(Map::<Seq<u8>, Seq<u8>>::empty(), sender)) == Some(0u64),
{
    let m = spec_init(Map::<Seq<u8>, Seq<u8>>::empty(), sender);
    State::lemma_roundtrip(StateV { owner: sender, proposal_count: 0 });
    assert forall|id: u64| #[trigger] m.contains_key(proposal_key(id)) implies false by {
        lemma_keys_disjoint(id);
    }
}

/// A successful creation preserves ledger well-formedness: it adds exactly
/// the key of the newly allocated identifier.
pub proof fn lemma_create_preserves_wf(m: Map<Seq<u8>, Seq<u8>>, sender: Seq<u8>, name: Seq<char>)
    requires
        ledger_wf(m),
        config_count(m)->0 < u64::MAX,
        Proposal::valid(crate::contract::fresh_proposal(sender, name)),
    ensures
        ledger_wf(spec_create(m, sender, name).0),
{
    let s = State::dec(m[config_key()])->0;
    let id = (s.proposal_count + 1) as u64;
    let m2 = spec_create(m, sender, name).0;
    lemma_state_dec_valid(m[config_key()]);
    State::lemma_roundtrip(StateV { owner: s.owner, proposal_count: id });
    Proposal::lemma_roundtrip(crate::contract::fresh_proposal(sender, name));
    lemma_keys_disjoint(id);
    assert forall|j: u64| #[trigger] m2.contains_key(proposal_key(j)) implies (1 <= j <= id) by {
        lemma_keys_disjoint(j);
        if j != id {
            lemma_u64_be_injective(j, id);
            assert(m.contains_key(proposal_key(j)));
        }
    }
    assert forall|j: u64| 1 <= j <= id implies #[trigger] m2.contains_key(proposal_key(j)) by {
        lemma_keys_disjoint(j);
        if j != id {
            assert(m.contains_key(proposal_key(j)));
        }
    }
}

/// Not-found: in a well-formed ledger, querying an identifier that no
/// creation ever returned — zero, or above the stored count — fails with
/// `ProposalNotFound`.
pub proof fn lemma_unallocated_not_found(m: Map<Seq<u8>, Seq<u8>>, id: u64)
    requires
        ledger_wf(m),
        id == 0 || id > State::dec(m[config_key()])->0.proposal_count,
    ensures
        spec_get_proposal(m, id) == Err::<
            crate::msg::ProposalResponseV,
            ContractError,
        >(ContractError::ProposalNotFound { id }),
{
    assert(!m.contains_key(proposal_key(id)));
}

/// Every allocated identifier is found: in a well-formed ledger, querying an
/// identifier between 1 and the stored count succeeds.
pub proof fn lemma_allocated_found(m: Map<Seq<u8>, Seq<u8>>, id: u64)
    requires
        ledger_wf(m),
        1 <= id <= State::dec(m[config_key()])->0.proposal_count,
    ensures
        spec_get_proposal(m, id) is Ok,
{
    assert(m.contains_key(proposal_key(id)));
}

/// After initializing the message variant, the stored message is the seed.
pub proof fn lemma_init_message_get(
    m0: Map<Seq<u8>, Seq<u8>>,
    sender: Seq<u8>,
    message: Seq<char>,
)
    requires
        sender.len() <= u64::MAX,
        encode_utf8(message).len() <= u64::MAX,
    ensures
        spec_get_message(crate::contract::spec_init_message(m0, sender, message)) == Ok::<
            Seq<char>,
            ContractError,
        >(message),
{
    MessageState::lemma_roundtrip(MessageStateV { message, owner: sender });
}

/// A successful reset is reflected by the next read: the message the owner
/// stored is the message a query returns.
pub proof fn lemma_reset_then_get(m: Map<Seq<u8>, Seq<u8>>, sender: Seq<u8>, message: Seq<char>)
    requires
        spec_reset(m, sender, message).1 is Ok,
        encode_utf8(message).len() <= u64::MAX,
    ensures
        spec_get_message(spec_reset(m, sender, message).0) == Ok::<
            Seq<char>,
            ContractError,
        >(message),
{
    let ms = MessageState::dec(m[config_key()])->0;
    lemma_message_dec_valid(m[config_key()]);
    MessageState::lemma_roundtrip(MessageStateV { message, owner: ms.owner });
}

} // verus!
