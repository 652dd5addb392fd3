use rgb_node::codec::{get_set, put_list, put_text};
use rgb_node::messages::{
    AcceptReq, ContractReq, HelloReq, OptionDetails, OutpointSelection, RpcMsg,
};
use rgb_node::rpc::{AppCode, FailureCode};
use rgb_node::wire::{put_u16, put_u32, ContractId, OutPoint, SortedSet, Txid, WireItem};
use std::collections::BTreeSet;
use strict_encoding::{strict_deserialize, strict_serialize};

fn id(seed: u8) -> [u8; 32] {
    let mut bytes = [0u8; 32];
    for (i, b) in bytes.iter_mut().enumerate() {
        *b = seed.wrapping_mul(31).wrapping_add((i as u8).wrapping_mul(7));
    }
    bytes
}

fn their_txid(seed: u8) -> bitcoin::Txid {
    <bitcoin::Txid as bitcoin::hashes::Hash>::from_inner(id(seed))
}

fn their_outpoint(seed: u8, vout: u32) -> bitcoin::OutPoint {
    bitcoin::OutPoint { txid: their_txid(seed), vout }
}

fn our_outpoint(seed: u8, vout: u32) -> OutPoint {
    OutPoint { txid: Txid(id(seed)), vout }
}

#[test]
fn integers_agree_with_strict_encoding() {
    for value in [0u16, 1, 255, 256, 0x1234, u16::MAX] {
        let mut out = Vec::new();
        put_u16(value, &mut out);
        assert_eq!(out, strict_serialize(&value).unwrap());
    }
    for value in [0u32, 1, 0xFFFF, 0x10000, 0xDEADBEEF, u32::MAX] {
        let mut out = Vec::new();
        put_u32(value, &mut out);
        assert_eq!(out, strict_serialize(&value).unwrap());
    }
}

#[test]
fn text_agrees_with_strict_encoding() {
    for text in ["", "a", "rgb-cli/0.8", "h\u{e9}llo \u{4e16}\u{754c} \u{1F600}", "with\0nul"] {
        let mut out = Vec::new();
        assert!(put_text(text, &mut out));
        assert_eq!(out, strict_serialize(&String::from(text)).unwrap());
        assert_eq!(strict_deserialize::<String>(&out).unwrap(), text);
    }
    let long = "x".repeat(65535);
    let mut out = Vec::new();
    assert!(put_text(&long, &mut out));
    assert_eq!(out, strict_serialize(&long).unwrap());
    let too_long = "x".repeat(65536);
    assert!(strict_serialize(&too_long).is_err());
    assert!(!put_text(&too_long, &mut out));
}

#[test]
fn identifiers_agree_with_strict_encoding() {
    for seed in [0u8, 1, 77, 255] {
        let mut out = Vec::new();
        Txid(id(seed)).put(&mut out);
        assert_eq!(out, strict_serialize(&their_txid(seed)).unwrap());
        let mut out = Vec::new();
        our_outpoint(seed, 0x01020304).put(&mut out);
        assert_eq!(out, strict_serialize(&their_outpoint(seed, 0x01020304)).unwrap());
    }
}

#[test]
fn order_of_outpoints_agrees_with_the_bitcoin_library() {
    let seeds = [0u8, 1, 2, 9, 200, 255];
    let vouts = [0u32, 1, 255, 256, u32::MAX];
    for a_seed in seeds {
        for b_seed in seeds {
            for a_vout in vouts {
                for b_vout in vouts {
                    let ours = our_outpoint(a_seed, a_vout).before(&our_outpoint(b_seed, b_vout));
                    let theirs = their_outpoint(a_seed, a_vout) < their_outpoint(b_seed, b_vout);
                    assert_eq!(ours, theirs);
                }
            }
            let ours = Txid(id(a_seed)).before(&Txid(id(b_seed)));
            assert_eq!(ours, their_txid(a_seed) < their_txid(b_seed));
        }
    }
}

#[test]
fn sets_agree_with_strict_encoding() {
    let numbers = [500u16, 3, 65535, 0, 256, 255];
    let mut ours: SortedSet<u16> = SortedSet::new();
    let mut theirs: BTreeSet<u16> = BTreeSet::new();
    for n in numbers {
        assert_eq!(ours.insert(n), theirs.insert(n));
    }
    assert!(!ours.insert(3));
    let mut out = Vec::new();
    assert!(put_list(ours.as_vec(), &mut out));
    assert_eq!(out, strict_serialize(&theirs).unwrap());
    let (back, next) = get_set::<u16>(&out, 0).unwrap();
    assert_eq!(back, ours);
    assert_eq!(next, out.len());
    assert_eq!(strict_deserialize::<BTreeSet<u16>>(&out).unwrap(), theirs);

    let mut ours: SortedSet<OutPoint> = SortedSet::new();
    let mut theirs: BTreeSet<bitcoin::OutPoint> = BTreeSet::new();
    for (seed, vout) in [(9u8, 1u32), (9, 0), (1, 7), (200, 0), (1, 7), (0, u32::MAX)] {
        assert_eq!(ours.insert(our_outpoint(seed, vout)), theirs.insert(their_outpoint(seed, vout)));
    }
    let mut out = Vec::new();
    assert!(put_list(ours.as_vec(), &mut out));
    assert_eq!(out, strict_serialize(&theirs).unwrap());
}

#[test]
fn unordered_and_repeated_sets_are_rejected_as_by_strict_encoding() {
    let unordered = [2u8, 0, 2, 0, 1, 0];
    assert!(strict_deserialize::<BTreeSet<u16>>(&unordered).is_err());
    assert!(get_set::<u16>(&unordered, 0).is_none());
    let repeated = [2u8, 0, 2, 0, 2, 0];
    assert!(strict_deserialize::<BTreeSet<u16>>(&repeated).is_err());
    assert!(get_set::<u16>(&repeated, 0).is_none());
}

#[test]
fn lists_agree_with_strict_encoding() {
    let ours = vec![Txid(id(5)), Txid(id(1)), Txid(id(5))];
    let theirs = vec![their_txid(5), their_txid(1), their_txid(5)];
    let mut out = Vec::new();
    assert!(put_list(&ours, &mut out));
    assert_eq!(out, strict_serialize(&theirs).unwrap());
    let expected = {
        let mut bytes = vec![15u8];
        bytes.extend_from_slice(&out);
        bytes
    };
    assert_eq!(RpcMsg::UnresolvedTxids(ours).encode(), Some(expected));
}

#[test]
fn fields_of_messages_agree_with_strict_encoding() {
    let details = Some(String::from("accepted"));
    let mut expected = vec![13u8];
    expected.extend_from_slice(&strict_serialize(&details).unwrap());
    assert_eq!(RpcMsg::Success(OptionDetails::with("accepted")).encode(), Some(expected));

    let mut expected = vec![13u8];
    expected.extend_from_slice(&strict_serialize(&Option::<String>::None).unwrap());
    assert_eq!(RpcMsg::success().encode(), Some(expected));

    for force in [true, false] {
        let consignment = vec![1u8, 2, 3];
        let mut expected = vec![1u8];
        expected.extend_from_slice(&consignment);
        expected.extend_from_slice(&strict_serialize(&force).unwrap());
        assert_eq!(RpcMsg::AcceptContract(AcceptReq { consignment, force }).encode(), Some(expected));
    }

    let mut expected = vec![14u8];
    expected.extend_from_slice(&strict_serialize(&0x0042u16).unwrap());
    expected.extend_from_slice(&strict_serialize(&String::from("no")).unwrap());
    assert_eq!(RpcMsg::failure(AppCode(0x42), "no").encode(), Some(expected));
    assert_eq!(FailureCode::Presentation.number(), 0x1000);
}

#[test]
fn query_agrees_with_strict_encoding() {
    let mut transitions: SortedSet<u16> = SortedSet::new();
    let mut their_transitions: BTreeSet<u16> = BTreeSet::new();
    for t in [4u16, 1, 300] {
        transitions.insert(t);
        their_transitions.insert(t);
    }
    let mut set: SortedSet<OutPoint> = SortedSet::new();
    let mut their_set: BTreeSet<bitcoin::OutPoint> = BTreeSet::new();
    for (seed, vout) in [(3u8, 1u32), (2, 9)] {
        set.insert(our_outpoint(seed, vout));
        their_set.insert(their_outpoint(seed, vout));
    }
    let msg = RpcMsg::GetContract(ContractReq {
        contract_id: ContractId(id(42)),
        transitions,
        outpoints: OutpointSelection::Spending(set),
    });
    let mut expected = vec![3u8];
    expected.extend_from_slice(&id(42));
    expected.extend_from_slice(&strict_serialize(&their_transitions).unwrap());
    expected.push(1);
    expected.extend_from_slice(&strict_serialize(&their_set).unwrap());
    assert_eq!(msg.encode(), Some(expected));
}

#[test]
fn hello_carries_the_parameters_of_the_chain() {
    let chain = lnpbp::chain::Chain::Testnet3;
    let network = strict_serialize(&chain).unwrap();
    let hello = RpcMsg::Hello(HelloReq { user_agent: String::from("cli"), network: network.clone() });
    let bytes = hello.encode().unwrap();
    let mut expected = vec![0u8];
    expected.extend_from_slice(&strict_serialize(&String::from("cli")).unwrap());
    expected.extend_from_slice(&network);
    assert_eq!(bytes, expected);
    match RpcMsg::decode(&bytes) {
        Some(RpcMsg::Hello(req)) => {
            assert_eq!(req.user_agent, "cli");
            let back: lnpbp::chain::Chain = strict_deserialize(&req.network).unwrap();
            assert_eq!(back, chain);
        }
        other => panic!("unexpected {:?}", other),
    }
}
