//! The codec and the store: exact byte layouts, round trips, and failure on
//! malformed input.

use proposals::codec::{Record, take_u64, write_u64_be};
use proposals::error::ContractError;
use proposals::state::{
    Addr, MessageState, Proposal, State, config_key_bytes, config_read, config_update, load,
    may_load, save,
};
use proposals::store::Store;

#[test]
fn u64_big_endian_layout_is_exact() {
    let mut out: Vec<u8> = Vec::new();
    write_u64_be(&mut out, 0x0102030405060708);
    assert_eq!(vec![1u8, 2, 3, 4, 5, 6, 7, 8], out);
    let (back, end) = take_u64(&out, 0).unwrap();
    assert_eq!(0x0102030405060708u64, back);
    assert_eq!(8, end);
}

#[test]
fn state_roundtrips() {
    let state = State { owner: Addr::new(b"creator".to_vec()), proposal_count: 42 };
    let bytes = state.encode();
    let back = State::decode(&bytes).unwrap();
    assert_eq!(b"creator".to_vec(), back.owner.bytes);
    assert_eq!(42u64, back.proposal_count);
}

#[test]
fn state_layout_is_exact() {
    let state = State { owner: Addr::new(vec![0xaa, 0xbb]), proposal_count: 1 };
    assert_eq!(
        vec![0u8, 0, 0, 0, 0, 0, 0, 2, 0xaa, 0xbb, 0, 0, 0, 0, 0, 0, 0, 1],
        state.encode()
    );
}

#[test]
fn proposal_roundtrips() {
    let proposal = Proposal {
        name: String::from("voting séance"),
        creator: Addr::new(b"creator".to_vec()),
        status: 1,
        num_votes: 2,
        tally_yes: 3,
        tally_no: 4,
    };
    let bytes = proposal.encode();
    let back = Proposal::decode(&bytes).unwrap();
    assert_eq!("voting séance", back.name);
    assert_eq!(b"creator".to_vec(), back.creator.bytes);
    assert_eq!(1u64, back.status);
    assert_eq!(2u64, back.num_votes);
    assert_eq!(3u64, back.tally_yes);
    assert_eq!(4u64, back.tally_no);
}

#[test]
fn message_state_roundtrips() {
    let state = MessageState {
        message: String::from("hello"),
        owner: Addr::new(b"creator".to_vec()),
    };
    let bytes = state.encode();
    let back = MessageState::decode(&bytes).unwrap();
    assert_eq!("hello", back.message);
    assert_eq!(b"creator".to_vec(), back.owner.bytes);
}

#[test]
fn truncated_or_oversized_bytes_fail_to_decode() {
    let state = State { owner: Addr::new(b"creator".to_vec()), proposal_count: 7 };
    let mut bytes = state.encode();
    bytes.pop();
    assert_eq!(ContractError::DecodeError, State::decode(&bytes).unwrap_err());

    let mut bytes = state.encode();
    bytes.push(0);
    assert_eq!(ContractError::DecodeError, State::decode(&bytes).unwrap_err());

    assert_eq!(ContractError::DecodeError, State::decode(&vec![1u8, 2, 3]).unwrap_err());
}

#[test]
fn invalid_utf8_fails_to_decode() {
    // A message field announcing two bytes of invalid UTF-8.
    let mut bytes: Vec<u8> = Vec::new();
    write_u64_be(&mut bytes, 2);
    bytes.push(0xff);
    bytes.push(0xfe);
    write_u64_be(&mut bytes, 0);
    assert_eq!(ContractError::DecodeError, MessageState::decode(&bytes).unwrap_err());
}

#[test]
fn corrupt_config_surfaces_decode_error() {
    let mut store = Store::new();
    store.set(config_key_bytes(), vec![9u8, 9, 9]);
    let err = proposals::contract::get_message(&store).unwrap_err();
    assert_eq!(ContractError::DecodeError, err);
    let err = proposals::contract::try_create_proposal(
        &mut store,
        &Addr::new(b"creator".to_vec()),
        String::from("A"),
    )
    .unwrap_err();
    assert_eq!(ContractError::DecodeError, err);
}

#[test]
fn keyed_save_load_and_may_load() {
    let mut store = Store::new();
    let key = vec![9u8, 9];

    match load::<State>(&store, &key).unwrap_err() {
        ContractError::NotFound { key: k } => assert_eq!(vec![9u8, 9], k),
        other => panic!("unexpected error: {:?}", other),
    }
    assert!(may_load::<State>(&store, &key).unwrap().is_none());

    let state = State { owner: Addr::new(b"creator".to_vec()), proposal_count: 3 };
    save(&mut store, key.clone(), &state);
    assert_eq!(3, load::<State>(&store, &key).unwrap().proposal_count);
    assert_eq!(3, may_load::<State>(&store, &key).unwrap().unwrap().proposal_count);
}

#[test]
fn config_update_persists_only_on_success() {
    let mut store = Store::new();
    let state = State { owner: Addr::new(b"creator".to_vec()), proposal_count: 0 };
    save(&mut store, config_key_bytes(), &state);

    config_update::<State, _>(&mut store, |mut s: State| {
        s.proposal_count = 5;
        Ok(s)
    })
    .unwrap();
    assert_eq!(5, config_read::<State>(&store).unwrap().proposal_count);

    let err = config_update::<State, _>(&mut store, |_s: State| Err(ContractError::Unauthorized))
        .unwrap_err();
    assert_eq!(ContractError::Unauthorized, err);
    assert_eq!(5, config_read::<State>(&store).unwrap().proposal_count);
}

#[test]
fn store_set_overwrites_and_get_finds() {
    let mut store = Store::new();
    store.set(vec![1u8], vec![10u8]);
    store.set(vec![2u8], vec![20u8]);
    store.set(vec![1u8], vec![11u8]);
    assert_eq!(&vec![11u8], store.get(&vec![1u8]).unwrap());
    assert_eq!(&vec![20u8], store.get(&vec![2u8]).unwrap());
    assert!(store.get(&vec![3u8]).is_none());
}
