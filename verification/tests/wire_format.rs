use rgb_node::bus::{BusMsg, RPC_TYPE};
use rgb_node::codec::{get_list, get_set, get_text, put_list, put_text};
use rgb_node::messages::{
    AcceptReq, ContractReq, HelloReq, OptionDetails, OutpointSelection, RpcMsg,
};
use rgb_node::rpc::{AppCode, Failure, FailureCode};
use rgb_node::wire::{
    bytes32_before, get_u16, get_u32, put_u16, put_u32, ContractId, OutPoint, SortedSet,
    TransitionType, Txid, WireItem,
};

fn id(seed: u8) -> [u8; 32] {
    let mut bytes = [0u8; 32];
    for (i, b) in bytes.iter_mut().enumerate() {
        *b = seed.wrapping_add(i as u8);
    }
    bytes
}

fn outpoint(seed: u8, vout: u32) -> OutPoint {
    OutPoint { txid: Txid(id(seed)), vout }
}

fn set_of<T: WireItem>(items: &[T]) -> SortedSet<T> {
    let mut set = SortedSet::new();
    for item in items {
        set.insert(*item);
    }
    set
}

fn shown(msg: &RpcMsg) -> String {
    format!("{:?}", msg)
}

fn round_trip(msg: RpcMsg) {
    let bytes = msg.encode().expect("the message fits");
    let back = RpcMsg::decode(&bytes).expect("the bytes are a message");
    assert_eq!(shown(&back), shown(&msg));
    assert_eq!(back.encode(), Some(bytes.clone()));

    let on_bus = BusMsg::Rpc(msg.clone()).encode().expect("the message fits");
    assert_eq!(&on_bus[..2], &[4u8, 0]);
    assert_eq!(&on_bus[2..], &bytes[..]);
    match BusMsg::decode(&on_bus) {
        Ok(BusMsg::Rpc(back)) => assert_eq!(shown(&back), shown(&msg)),
        other => panic!("unexpected {:?}", other),
    }
}

fn query(transitions: &[TransitionType], outpoints: OutpointSelection) -> RpcMsg {
    RpcMsg::GetContract(ContractReq {
        contract_id: ContractId(id(100)),
        transitions: set_of(transitions),
        outpoints,
    })
}

#[test]
fn integers_are_written_least_significant_byte_first() {
    let mut out = vec![0xAA];
    put_u16(0x1234, &mut out);
    put_u32(0xDEADBEEF, &mut out);
    put_u16(0, &mut out);
    put_u16(0xFFFF, &mut out);
    assert_eq!(out, vec![0xAA, 0x34, 0x12, 0xEF, 0xBE, 0xAD, 0xDE, 0, 0, 0xFF, 0xFF]);
    assert_eq!(get_u16(&out, 1), 0x1234);
    assert_eq!(get_u32(&out, 3), 0xDEADBEEF);
    assert_eq!(get_u16(&out, 9), 0xFFFF);
    assert_eq!(get_u32(&[0, 0, 0, 0], 0), 0);
    assert_eq!(get_u32(&[0xFF, 0xFF, 0xFF, 0xFF], 0), u32::MAX);
}

#[test]
fn text_is_written_with_its_byte_count() {
    let mut out = Vec::new();
    assert!(put_text("hi", &mut out));
    assert_eq!(out, vec![2, 0, b'h', b'i']);
    let mut out = Vec::new();
    assert!(put_text("", &mut out));
    assert_eq!(out, vec![0, 0]);
    let mut out = Vec::new();
    assert!(put_text("\u{e9}", &mut out));
    assert_eq!(out, vec![2, 0, 0xC3, 0xA9]);
}

#[test]
fn text_is_read_back() {
    let bytes = [9, 3, 0, b'a', b'b', b'c', 7];
    assert_eq!(get_text(&bytes, 1), Some((String::from("abc"), 6)));
    assert_eq!(get_text(&[0, 0], 0), Some((String::new(), 2)));
    assert_eq!(get_text(&[2, 0, 0xC3, 0xA9], 0), Some((String::from("\u{e9}"), 4)));
}

#[test]
fn cut_or_ill_formed_text_is_rejected() {
    assert_eq!(get_text(&[], 0), None);
    assert_eq!(get_text(&[1], 0), None);
    assert_eq!(get_text(&[3, 0, b'a', b'b'], 0), None);
    assert_eq!(get_text(&[1, 0, 0xFF], 0), None);
    assert_eq!(get_text(&[2, 0, 0xC3, 0x28], 0), None);
    assert_eq!(get_text(&[1, 0, 0xC3], 0), None);
}

#[test]
fn longest_text_fits_and_longer_does_not() {
    let longest = "a".repeat(65535);
    let mut out = Vec::new();
    assert!(put_text(&longest, &mut out));
    assert_eq!(out.len(), 65537);
    assert_eq!(&out[..2], &[0xFF, 0xFF]);
    assert_eq!(get_text(&out, 0), Some((longest, 65537)));
    let too_long = "a".repeat(65536);
    let mut out = vec![1, 2, 3];
    assert!(!put_text(&too_long, &mut out));
    assert_eq!(out, vec![1, 2, 3]);
}

#[test]
fn byte_strings_are_ordered_by_their_first_difference() {
    let mut a = [0u8; 32];
    let mut b = [0u8; 32];
    assert!(!bytes32_before(&a, &b));
    b[31] = 1;
    assert!(bytes32_before(&a, &b));
    assert!(!bytes32_before(&b, &a));
    a[0] = 1;
    assert!(!bytes32_before(&a, &b));
    assert!(bytes32_before(&b, &a));
    a[0] = 0;
    a[5] = 200;
    b[5] = 200;
    b[6] = 1;
    a[7] = 255;
    assert!(bytes32_before(&a, &b));
}

#[test]
fn items_are_ordered_as_their_derived_order() {
    let points = [
        outpoint(0, 0),
        outpoint(0, 1),
        outpoint(0, u32::MAX),
        outpoint(1, 0),
        outpoint(200, 7),
        OutPoint { txid: Txid([0xFF; 32]), vout: 0 },
        OutPoint { txid: Txid([0; 32]), vout: 256 },
        OutPoint { txid: Txid([0; 32]), vout: 255 },
    ];
    for a in points {
        for b in points {
            assert_eq!(a.before(&b), a < b, "{:?} {:?}", a, b);
            assert_eq!(a.txid.before(&b.txid), a.txid < b.txid);
            let (ca, cb) = (ContractId(a.txid.0), ContractId(b.txid.0));
            assert_eq!(ca.before(&cb), ca < cb);
        }
    }
    assert!(3u16.before(&4));
    assert!(!4u16.before(&4));
    assert!(!5u16.before(&4));
    assert!(255u16.before(&256));
}

#[test]
fn outpoint_is_written_as_in_a_transaction() {
    let point = outpoint(17, 0x01020304);
    let mut out = Vec::new();
    point.put(&mut out);
    let mut expected = id(17).to_vec();
    expected.extend_from_slice(&[4, 3, 2, 1]);
    assert_eq!(out, expected);
    assert_eq!(OutPoint::size(), 36);
    assert_eq!(OutPoint::get(&out, 0), point);

    let theirs = bitcoin::OutPoint {
        txid: <bitcoin::Txid as bitcoin::hashes::Hash>::from_inner(id(17)),
        vout: 0x01020304,
    };
    assert_eq!(bitcoin::consensus::serialize(&theirs), out);
}

#[test]
fn identifiers_are_written_as_their_bytes() {
    let mut out = vec![1];
    Txid(id(3)).put(&mut out);
    ContractId(id(4)).put(&mut out);
    assert_eq!(out.len(), 65);
    assert_eq!(&out[1..33], &id(3));
    assert_eq!(&out[33..], &id(4));
    assert_eq!(Txid::get(&out, 1), Txid(id(3)));
    assert_eq!(ContractId::get(&out, 33), ContractId(id(4)));
    assert_eq!(Txid::size(), 32);
    assert_eq!(ContractId::size(), 32);
    assert_eq!(<u16 as WireItem>::size(), 2);
}

#[test]
fn set_keeps_its_items_in_order_and_once() {
    let mut set: SortedSet<u16> = SortedSet::new();
    assert_eq!(set.len(), 0);
    assert!(set.insert(5));
    assert!(set.insert(1));
    assert!(set.insert(9));
    assert!(!set.insert(5));
    assert!(set.insert(0));
    assert_eq!(set.as_vec(), &vec![0, 1, 5, 9]);
    assert_eq!(set.len(), 4);
    assert_eq!(set.get(2), 5);
    assert!(set.contains(&9));
    assert!(!set.contains(&2));
    let copy = set.clone();
    assert_eq!(copy, set);
}

#[test]
fn set_of_outpoints_is_ordered_by_transaction_then_output() {
    let set = set_of(&[outpoint(2, 0), outpoint(1, 9), outpoint(1, 3), outpoint(2, 0)]);
    assert_eq!(set.as_vec(), &vec![outpoint(1, 3), outpoint(1, 9), outpoint(2, 0)]);
}

#[test]
fn list_is_written_with_its_item_count() {
    let mut out = Vec::new();
    assert!(put_list(&vec![0x0102u16, 0x0304], &mut out));
    assert_eq!(out, vec![2, 0, 2, 1, 4, 3]);
    let mut out = Vec::new();
    assert!(put_list(&Vec::<Txid>::new(), &mut out));
    assert_eq!(out, vec![0, 0]);
    assert_eq!(get_list::<u16>(&[2, 0, 2, 1, 4, 3, 9], 0), Some((vec![0x0102, 0x0304], 6)));
    assert_eq!(get_list::<u16>(&[2, 0, 4, 3, 2, 1], 0), Some((vec![0x0304, 0x0102], 6)));
    assert_eq!(get_list::<u16>(&[2, 0, 2, 1, 4], 0), None);
    assert_eq!(get_list::<u16>(&[2], 0), None);
}

#[test]
fn too_long_list_is_not_written() {
    let items = vec![0u16; 65536];
    let mut out = vec![7];
    assert!(!put_list(&items, &mut out));
    assert_eq!(out, vec![7]);
    let items = vec![0u16; 65535];
    assert!(put_list(&items, &mut out));
    assert_eq!(out.len(), 1 + 2 + 2 * 65535);
}

#[test]
fn set_is_read_only_in_increasing_order() {
    let (set, next) = get_set::<u16>(&[3, 0, 1, 0, 2, 0, 0, 1], 0).expect("ordered");
    assert_eq!(set.as_vec(), &vec![1, 2, 256]);
    assert_eq!(next, 8);
    // out of order
    assert!(get_set::<u16>(&[2, 0, 2, 0, 1, 0], 0).is_none());
    // repeated
    assert!(get_set::<u16>(&[2, 0, 2, 0, 2, 0], 0).is_none());
    // cut short
    assert!(get_set::<u16>(&[2, 0, 1, 0], 0).is_none());
    assert_eq!(get_set::<u16>(&[0, 0], 0).map(|(s, n)| (s.len(), n)), Some((0, 2)));
}

#[test]
fn messages_have_their_exact_bytes() {
    assert_eq!(RpcMsg::ListContracts.encode(), Some(vec![2]));
    assert_eq!(RpcMsg::BlindUtxo.encode(), Some(vec![5]));
    assert_eq!(RpcMsg::ConsignTransfer.encode(), Some(vec![6]));
    assert_eq!(RpcMsg::progress("hi").encode(), Some(vec![12, 2, 0, b'h', b'i']));
    assert_eq!(RpcMsg::success().encode(), Some(vec![13, 0]));
    assert_eq!(
        RpcMsg::Success(OptionDetails::with("ok")).encode(),
        Some(vec![13, 1, 2, 0, b'o', b'k'])
    );
    assert_eq!(
        RpcMsg::failure(AppCode(0x0123), "no").encode(),
        Some(vec![14, 0x23, 0x01, 2, 0, b'n', b'o'])
    );
    assert_eq!(
        RpcMsg::presentation_failure(String::new()).encode(),
        Some(vec![14, 0x00, 0x10, 0, 0])
    );
    assert_eq!(RpcMsg::Contract(vec![1, 2, 3]).encode(), Some(vec![9, 1, 2, 3]));
    assert_eq!(RpcMsg::ContractState(vec![]).encode(), Some(vec![10]));
    assert_eq!(RpcMsg::StateTransfer(vec![7]).encode(), Some(vec![11, 7]));
    assert_eq!(RpcMsg::Invalid(vec![8, 8]).encode(), Some(vec![16, 8, 8]));
    assert_eq!(
        RpcMsg::AcceptContract(AcceptReq { consignment: vec![5, 6], force: true }).encode(),
        Some(vec![1, 5, 6, 1])
    );
    assert_eq!(
        RpcMsg::AcceptTransfer(AcceptReq { consignment: vec![], force: false }).encode(),
        Some(vec![7, 0])
    );
    assert_eq!(
        RpcMsg::Hello(HelloReq { user_agent: String::from("cli"), network: vec![0xAB, 0xCD] })
            .encode(),
        Some(vec![0, 3, 0, b'c', b'l', b'i', 0xAB, 0xCD])
    );
}

#[test]
fn identifier_messages_have_their_exact_bytes() {
    let mut expected = vec![4];
    expected.extend_from_slice(&id(9));
    assert_eq!(RpcMsg::GetContractState(ContractId(id(9))).encode(), Some(expected));

    let mut expected = vec![15, 2, 0];
    expected.extend_from_slice(&id(9));
    expected.extend_from_slice(&id(1));
    assert_eq!(
        RpcMsg::UnresolvedTxids(vec![Txid(id(9)), Txid(id(1))]).encode(),
        Some(expected)
    );

    let mut expected = vec![8, 2, 0];
    expected.extend_from_slice(&id(1));
    expected.extend_from_slice(&id(9));
    assert_eq!(
        RpcMsg::ContractIds(set_of(&[ContractId(id(9)), ContractId(id(1))])).encode(),
        Some(expected)
    );
}

#[test]
fn query_has_its_exact_bytes() {
    let mut expected = vec![3];
    expected.extend_from_slice(&id(100));
    expected.extend_from_slice(&[2, 0, 1, 0, 0, 1]);
    expected.push(0);
    assert_eq!(query(&[256, 1], OutpointSelection::All).encode(), Some(expected));

    let mut expected = vec![3];
    expected.extend_from_slice(&id(100));
    expected.extend_from_slice(&[0, 0]);
    expected.extend_from_slice(&[1, 1, 0]);
    expected.extend_from_slice(&id(50));
    expected.extend_from_slice(&[7, 0, 0, 0]);
    let selection = OutpointSelection::Spending(set_of(&[outpoint(50, 7)]));
    assert_eq!(query(&[], selection).encode(), Some(expected));
}

#[test]
fn every_variant_is_read_back_as_it_was_written() {
    round_trip(RpcMsg::Hello(HelloReq {
        user_agent: String::from("rgb-cli/0.8 \u{2713}"),
        network: vec![1, 2, 3, 4, 5],
    }));
    round_trip(RpcMsg::Hello(HelloReq { user_agent: String::new(), network: vec![] }));
    round_trip(RpcMsg::AcceptContract(AcceptReq { consignment: vec![0, 1, 0, 1], force: true }));
    round_trip(RpcMsg::AcceptContract(AcceptReq { consignment: vec![], force: false }));
    round_trip(RpcMsg::ListContracts);
    round_trip(query(&[], OutpointSelection::All));
    round_trip(query(&[0, 1, 2, 65535], OutpointSelection::Spending(set_of(&[]))));
    round_trip(query(
        &[7],
        OutpointSelection::Spending(set_of(&[outpoint(3, 1), outpoint(3, 0), outpoint(1, 0)])),
    ));
    round_trip(RpcMsg::GetContractState(ContractId(id(77))));
    round_trip(RpcMsg::BlindUtxo);
    round_trip(RpcMsg::ConsignTransfer);
    round_trip(RpcMsg::AcceptTransfer(AcceptReq { consignment: vec![1; 300], force: false }));
    round_trip(RpcMsg::AcceptTransfer(AcceptReq { consignment: vec![1], force: true }));
    round_trip(RpcMsg::ContractIds(set_of(&[])));
    round_trip(RpcMsg::ContractIds(set_of(&[
        ContractId(id(5)),
        ContractId(id(1)),
        ContractId([0xFF; 32]),
    ])));
    round_trip(RpcMsg::Contract(vec![9; 70000]));
    round_trip(RpcMsg::ContractState(vec![]));
    round_trip(RpcMsg::StateTransfer(vec![0]));
    round_trip(RpcMsg::progress(""));
    round_trip(RpcMsg::progress("validating \"transfer\""));
    round_trip(RpcMsg::success());
    round_trip(RpcMsg::Success(OptionDetails::with("accepted")));
    round_trip(RpcMsg::Success(OptionDetails::with("")));
    round_trip(RpcMsg::failure(AppCode(0), ""));
    round_trip(RpcMsg::failure(AppCode(0x0FFF), "catch-all"));
    for code in [
        FailureCode::Presentation,
        FailureCode::Transport,
        FailureCode::Framing,
        FailureCode::UnexpectedRequest,
        FailureCode::Runtime,
    ] {
        round_trip(RpcMsg::Failure(Failure { code, info: String::from("why") }));
    }
    round_trip(RpcMsg::UnresolvedTxids(vec![]));
    round_trip(RpcMsg::UnresolvedTxids(vec![Txid(id(9)), Txid(id(1)), Txid(id(9))]));
    round_trip(RpcMsg::Invalid(vec![1, 2, 3]));
}

#[test]
fn messages_that_would_be_garbled_are_not_written() {
    assert_eq!(RpcMsg::progress(&"a".repeat(65536)).encode(), None);
    assert_eq!(RpcMsg::Success(OptionDetails::with(&"a".repeat(65536))).encode(), None);
    assert_eq!(RpcMsg::failure(AppCode(1), &"a".repeat(65536)).encode(), None);
    assert_eq!(RpcMsg::failure(AppCode(0x1000), "too large a code").encode(), None);
    assert_eq!(RpcMsg::failure(AppCode(0xFFFF), "too large a code").encode(), None);
    assert_eq!(RpcMsg::UnresolvedTxids(vec![Txid([0; 32]); 65536]).encode(), None);
    assert_eq!(
        RpcMsg::Hello(HelloReq { user_agent: "a".repeat(65536), network: vec![] }).encode(),
        None
    );
    assert_eq!(BusMsg::Rpc(RpcMsg::failure(AppCode(0x1000), "")).encode(), None);
    assert!(RpcMsg::progress(&"a".repeat(65535)).encode().is_some());
}

#[test]
fn bytes_that_stand_for_no_message_are_rejected() {
    assert!(RpcMsg::decode(&[]).is_none());
    assert!(RpcMsg::decode(&[17]).is_none());
    assert!(RpcMsg::decode(&[255, 0, 0]).is_none());
    // a flag that is neither 0 nor 1
    assert!(RpcMsg::decode(&[1, 5, 6, 2]).is_none());
    assert!(RpcMsg::decode(&[7]).is_none());
    // an identifier that is cut short
    assert!(RpcMsg::decode(&[4, 1, 2, 3]).is_none());
    // a text that is cut short, or no UTF-8
    assert!(RpcMsg::decode(&[12, 5, 0, b'a']).is_none());
    assert!(RpcMsg::decode(&[12, 1, 0, 0x80]).is_none());
    assert!(RpcMsg::decode(&[0, 1]).is_none());
    // an option that is neither absent nor present
    assert!(RpcMsg::decode(&[13]).is_none());
    assert!(RpcMsg::decode(&[13, 2]).is_none());
    assert!(RpcMsg::decode(&[13, 1, 1]).is_none());
    // a failure without its text
    assert!(RpcMsg::decode(&[14, 0, 0x10]).is_none());
    // a set out of order
    let mut unordered = vec![8, 2, 0];
    unordered.extend_from_slice(&id(9));
    unordered.extend_from_slice(&id(1));
    assert!(RpcMsg::decode(&unordered).is_none());
    // a query with an unknown kind of selection
    let mut bad_query = vec![3];
    bad_query.extend_from_slice(&id(100));
    bad_query.extend_from_slice(&[0, 0, 2]);
    assert!(RpcMsg::decode(&bad_query).is_none());
    bad_query.truncate(35);
    assert!(RpcMsg::decode(&bad_query).is_none());
}

#[test]
fn bytes_behind_a_message_are_passed_over() {
    assert!(matches!(RpcMsg::decode(&[2, 9, 9]), Some(RpcMsg::ListContracts)));
    match RpcMsg::decode(&[12, 1, 0, b'x', 0xFF, 0xFF]) {
        Some(RpcMsg::Progress(text)) => assert_eq!(text, "x"),
        other => panic!("unexpected {:?}", other),
    }
    match RpcMsg::decode(&[14, 0, 0x20, 0, 0, 1]) {
        Some(RpcMsg::Failure(failure)) => assert_eq!(failure.code, FailureCode::Transport),
        other => panic!("unexpected {:?}", other),
    }
}

#[test]
fn failure_with_a_number_out_of_the_tables_is_read_as_application_code() {
    match RpcMsg::decode(&[14, 0, 0x60, 0, 0]) {
        Some(RpcMsg::Failure(failure)) => {
            assert_eq!(failure.code, FailureCode::Other(AppCode(0x6000)));
            assert_eq!(failure.info, "");
        }
        other => panic!("unexpected {:?}", other),
    }
}

#[test]
fn bus_messages_begin_with_the_protocol_number() {
    assert_eq!(RPC_TYPE, 4);
    assert_eq!(BusMsg::Rpc(RpcMsg::ListContracts).encode(), Some(vec![4, 0, 2]));
    assert_eq!(
        BusMsg::Rpc(RpcMsg::progress("hi")).encode(),
        Some(vec![4, 0, 12, 2, 0, b'h', b'i'])
    );
    assert!(matches!(BusMsg::decode(&[4, 0, 5]), Ok(BusMsg::Rpc(RpcMsg::BlindUtxo))));
}
