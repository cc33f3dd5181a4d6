//! Lifecycle scenarios: initialization, proposal creation, point queries,
//! and the owner-gated message variant.

use proposals::codec::{Record, take_u64};
use proposals::contract::{
    get_message, get_proposal, handle, init, init_message, query, reset_message,
    try_create_proposal,
};
use proposals::error::ContractError;
use proposals::msg::{HandleMsg, InitMsg, MessageResponse, ProposalResponse, QueryMsg};
use proposals::state::Addr;
use proposals::store::Store;

fn addr(name: &str) -> Addr {
    Addr::new(name.as_bytes().to_vec())
}

#[test]
fn proper_initialization() {
    let mut deps = Store::new();

    let msg = InitMsg {};
    let env = addr("creator");

    // we can just call .unwrap() to assert this was a success
    let res = init(&mut deps, &env, msg).unwrap();
    assert_eq!(0, res.messages.len());
}

#[test]
fn can_create_proposal() {
    let mut deps = Store::new();

    let msg = InitMsg {};
    let env = addr("anyone");
    let _res = init(&mut deps, &env, msg).unwrap();

    let proposal_name = String::from("Laura's Proposal");
    let env = addr("creator");
    let msg = HandleMsg::CreateProposal { name: proposal_name.clone() };

    let value = handle(&mut deps, &env, msg).unwrap();
    match value.data {
        Some(d) => {
            let (id, _) = take_u64(&d, 0).unwrap();
            assert_eq!(1u64, id);

            // should get back created proposal
            let res = query(&deps, QueryMsg::GetProposal { proposal_id: id }).unwrap();
            let value = ProposalResponse::decode(&res).unwrap();
            assert_eq!(proposal_name, value.name);
        },
        _ => panic!("Proposal was not created."),
    };
}

#[test]
fn first_proposal_gets_id_one_and_reads_back() {
    let mut store = Store::new();
    let creator = addr("creator");
    init(&mut store, &creator, InitMsg {}).unwrap();

    let res = try_create_proposal(&mut store, &creator, String::from("A")).unwrap();
    let data = res.data.expect("creation returns the new identifier");
    let (id, _) = take_u64(&data, 0).unwrap();
    assert_eq!(1u64, id);

    let resp = get_proposal(&store, 1).unwrap();
    assert_eq!(1u64, resp.id);
    assert_eq!("A", resp.name);
    assert_eq!(b"creator".to_vec(), resp.creator.bytes);
    assert_eq!(0u64, resp.status);
    assert_eq!(0u64, resp.num_votes);
    assert_eq!(0u64, resp.tally_yes);
    assert_eq!(0u64, resp.tally_no);
}

#[test]
fn identifiers_are_consecutive() {
    let mut store = Store::new();
    let creator = addr("creator");
    init(&mut store, &creator, InitMsg {}).unwrap();

    for expected in 1u64..=3 {
        let res = try_create_proposal(&mut store, &creator, format!("p{}", expected)).unwrap();
        let (id, _) = take_u64(&res.data.unwrap(), 0).unwrap();
        assert_eq!(expected, id);
    }
}

#[test]
fn message_init_then_read() {
    let mut store = Store::new();
    let creator = addr("creator");
    init_message(&mut store, &creator, String::from("hello")).unwrap();

    let resp = get_message(&store).unwrap();
    assert_eq!("hello", resp.message);
}

#[test]
fn only_owner_may_reset_message() {
    let mut store = Store::new();
    let creator = addr("creator");
    init_message(&mut store, &creator, String::from("hello")).unwrap();

    let err = reset_message(&mut store, &addr("anyone"), String::from("stolen")).unwrap_err();
    assert_eq!(ContractError::Unauthorized, err);
    assert_eq!("hello", get_message(&store).unwrap().message);

    reset_message(&mut store, &creator, String::from("bye")).unwrap();
    assert_eq!("bye", get_message(&store).unwrap().message);
}

#[test]
fn unknown_proposal_is_not_found() {
    let mut store = Store::new();
    let creator = addr("creator");
    init(&mut store, &creator, InitMsg {}).unwrap();

    let err = get_proposal(&store, 999).unwrap_err();
    assert_eq!(ContractError::ProposalNotFound { id: 999 }, err);
}

#[test]
fn create_without_init_is_config_missing() {
    let mut store = Store::new();
    let err = try_create_proposal(&mut store, &addr("creator"), String::from("A")).unwrap_err();
    assert_eq!(ContractError::ConfigMissing, err);
}

#[test]
fn read_message_without_init_is_config_missing() {
    let store = Store::new();
    let err = get_message(&store).unwrap_err();
    assert_eq!(ContractError::ConfigMissing, err);
    let mut store = Store::new();
    let err = reset_message(&mut store, &addr("creator"), String::from("x")).unwrap_err();
    assert_eq!(ContractError::ConfigMissing, err);
}

#[test]
fn handle_reset_dispatches_to_message_variant() {
    let mut store = Store::new();
    let creator = addr("creator");
    init_message(&mut store, &creator, String::from("hello")).unwrap();

    let res = handle(&mut store, &creator, HandleMsg::Reset { message: String::from("bye") })
        .unwrap();
    assert!(res.data.is_none());
    assert_eq!("bye", get_message(&store).unwrap().message);

    let err = handle(
        &mut store,
        &addr("anyone"),
        HandleMsg::Reset { message: String::from("nope") },
    )
    .unwrap_err();
    assert_eq!(ContractError::Unauthorized, err);
}

#[test]
fn query_get_message_roundtrips() {
    let mut store = Store::new();
    init_message(&mut store, &addr("creator"), String::from("hello")).unwrap();
    let bytes = query(&store, QueryMsg::GetMessage {}).unwrap();
    let resp = MessageResponse::decode(&bytes).unwrap();
    assert_eq!("hello", resp.message);
}
