//! The wire format of the bus messages.
//!
//! A message is written as one byte that numbers its variant, in the order
//! in which the variants are declared, followed by the fields in their
//! order. A field that is carried in serialized form takes what is left of
//! the message up to the fields behind it. On the bus a message follows the
//! 16-bit number of its protocol.

use crate::codec::{
    get_list, get_set, get_text, lemma_list_round_trip, lemma_text_round_trip, list_fits,
    list_wire, parse_list, parse_text, put_list, put_text, text_fits, text_wire,
};
use crate::messages::{AcceptReq, ContractReq, HelloReq, OptionDetails, OutpointSelection, RpcMsg};
use crate::rpc::{Failure, FailureCode};
use crate::wire::{
    from_le16, get_u16, increasing, le16, lemma_le16_round_trip, put_u16, ContractId, OutPoint,
    TransitionType, Txid, WireItem,
};
use vstd::prelude::*;
use vstd::slice::{slice_subrange, slice_to_vec};

verus! {

/// What an outpoint selection says.
pub enum SelectionView {
    All,
    Spending(Seq<OutPoint>),
}

/// What a message says: its variant and the contents of its fields.
pub enum MsgView {
    Hello { user_agent: Seq<char>, network: Seq<u8> },
    AcceptContract { consignment: Seq<u8>, force: bool },
    ListContracts,
    GetContract { contract_id: ContractId, transitions: Seq<TransitionType>, outpoints: SelectionView },
    GetContractState(ContractId),
    BlindUtxo,
    ConsignTransfer,
    AcceptTransfer { consignment: Seq<u8>, force: bool },
    ContractIds(Seq<ContractId>),
    Contract(Seq<u8>),
    ContractState(Seq<u8>),
    StateTransfer(Seq<u8>),
    Progress(Seq<char>),
    Success(Option<Seq<char>>),
    Failure { code: FailureCode, info: Seq<char> },
    UnresolvedTxids(Seq<Txid>),
    Invalid(Seq<u8>),
}

impl View for OutpointSelection {
    type V = SelectionView;

    open spec fn view(&self) -> SelectionView {
        match self {
            OutpointSelection::All => SelectionView::All,
            OutpointSelection::Spending(set) => SelectionView::Spending(set@),
        }
    }
}

impl View for RpcMsg {
    type V = MsgView;

    open spec fn view(&self) -> MsgView {
        match self {
            RpcMsg::Hello(req) => MsgView::Hello {
                user_agent: req.user_agent@,
                network: req.network@,
            },
            RpcMsg::AcceptContract(req) => MsgView::AcceptContract {
                consignment: req.consignment@,
                force: req.force,
            },
            RpcMsg::ListContracts => MsgView::ListContracts,
            RpcMsg::GetContract(req) => MsgView::GetContract {
                contract_id: req.contract_id,
                transitions: req.transitions@,
                outpoints: req.outpoints@,
            },
            RpcMsg::GetContractState(id) => MsgView::GetContractState(*id),
            RpcMsg::BlindUtxo => MsgView::BlindUtxo,
            RpcMsg::ConsignTransfer => MsgView::ConsignTransfer,
            RpcMsg::AcceptTransfer(req) => MsgView::AcceptTransfer {
                consignment: req.consignment@,
                force: req.force,
            },
            RpcMsg::ContractIds(ids) => MsgView::ContractIds(ids@),
            RpcMsg::Contract(data) => MsgView::Contract(data@),
            RpcMsg::ContractState(data) => MsgView::ContractState(data@),
            RpcMsg::StateTransfer(data) => MsgView::StateTransfer(data@),
            RpcMsg::Progress(text) => MsgView::Progress(text@),
            RpcMsg::Success(details) => MsgView::Success(
                match details.0 {
                    None => None,
                    Some(text) => Some(text@),
                },
            ),
            RpcMsg::Failure(failure) => MsgView::Failure {
                code: failure.code,
                info: failure.info@,
            },
            RpcMsg::UnresolvedTxids(ids) => MsgView::UnresolvedTxids(ids@),
            RpcMsg::Invalid(data) => MsgView::Invalid(data@),
        }
    }
}

/// The byte of a flag.
pub open spec fn flag_wire(flag: bool) -> Seq<u8> {
    seq![if flag { 1u8 } else { 0u8 }]
}

/// The bytes of an outpoint selection.
pub open spec fn selection_wire(selection: SelectionView) -> Seq<u8> {
    match selection {
        SelectionView::All => seq![0u8],
        SelectionView::Spending(items) => seq![1u8] + list_wire(items),
    }
}

/// Whether the selection can be written: its set is in increasing order
/// and not too large.
pub open spec fn selection_fits(selection: SelectionView) -> bool {
    match selection {
        SelectionView::All => true,
        SelectionView::Spending(items) => list_fits(items) && increasing(items),
    }
}

/// The outpoint selection that stands at `at`.
pub open spec fn parse_selection(bytes: Seq<u8>, at: int) -> Option<SelectionView> {
    if at + 1 > bytes.len() {
        None
    } else if bytes[at] == 0 {
        Some(SelectionView::All)
    } else if bytes[at] == 1 {
        match parse_list::<OutPoint>(bytes, at + 1, true) {
            Some((items, _)) => Some(SelectionView::Spending(items)),
            None => None,
        }
    } else {
        None
    }
}

/// The bytes of an acceptance request behind its variant's number.
pub open spec fn accept_wire(consignment: Seq<u8>, force: bool) -> Seq<u8> {
    consignment + flag_wire(force)
}

/// The bytes of a contract query behind its variant's number.
pub open spec fn query_wire(
    contract_id: ContractId,
    transitions: Seq<TransitionType>,
    outpoints: SelectionView,
) -> Seq<u8> {
    contract_id.wire() + list_wire(transitions) + selection_wire(outpoints)
}

/// The bytes of an optional detail.
pub open spec fn details_wire(details: Option<Seq<char>>) -> Seq<u8> {
    match details {
        None => seq![0u8],
        Some(text) => seq![1u8] + text_wire(text),
    }
}

/// The bytes of a failure behind its variant's number.
pub open spec fn failure_wire(code: FailureCode, info: Seq<char>) -> Seq<u8> {
    le16(code.spec_number()) + text_wire(info)
}

/// The number of a message's variant.
pub open spec fn variant_number(msg: MsgView) -> u8 {
    match msg {
        MsgView::Hello { .. } => 0,
        MsgView::AcceptContract { .. } => 1,
        MsgView::ListContracts => 2,
        MsgView::GetContract { .. } => 3,
        MsgView::GetContractState(_) => 4,
        MsgView::BlindUtxo => 5,
        MsgView::ConsignTransfer => 6,
        MsgView::AcceptTransfer { .. } => 7,
        MsgView::ContractIds(_) => 8,
        MsgView::Contract(_) => 9,
        MsgView::ContractState(_) => 10,
        MsgView::StateTransfer(_) => 11,
        MsgView::Progress(_) => 12,
        MsgView::Success(_) => 13,
        MsgView::Failure { .. } => 14,
        MsgView::UnresolvedTxids(_) => 15,
        MsgView::Invalid(_) => 16,
    }
}

/// The bytes of a message's fields.
pub open spec fn fields_wire(msg: MsgView) -> Seq<u8> {
    match msg {
        MsgView::Hello { user_agent, network } => text_wire(user_agent) + network,
        MsgView::AcceptContract { consignment, force } => accept_wire(consignment, force),
        MsgView::ListContracts => Seq::empty(),
        MsgView::GetContract { contract_id, transitions, outpoints } => query_wire(
            contract_id,
            transitions,
            outpoints,
        ),
        MsgView::GetContractState(id) => id.wire(),
        MsgView::BlindUtxo => Seq::empty(),
        MsgView::ConsignTransfer => Seq::empty(),
        MsgView::AcceptTransfer { consignment, force } => accept_wire(consignment, force),
        MsgView::ContractIds(ids) => list_wire(ids),
        MsgView::Contract(data) => data,
        MsgView::ContractState(data) => data,
        MsgView::StateTransfer(data) => data,
        MsgView::Progress(text) => text_wire(text),
        MsgView::Success(details) => details_wire(details),
        MsgView::Failure { code, info } => failure_wire(code, info),
        MsgView::UnresolvedTxids(ids) => list_wire(ids),
        MsgView::Invalid(data) => data,
    }
}

/// The bytes of a message: the number of its variant and its fields.
pub open spec fn msg_wire(msg: MsgView) -> Seq<u8> {
    seq![variant_number(msg)] + fields_wire(msg)
}

/// Whether the message can be written without loss: no text and no list is
/// too long for its 16-bit count, every set is in increasing order, and the
/// code of a failure is one that crosses the wire unchanged.
pub open spec fn msg_fits(msg: MsgView) -> bool {
    match msg {
        MsgView::Hello { user_agent, network } => text_fits(user_agent),
        MsgView::GetContract { contract_id, transitions, outpoints } => list_fits(transitions)
            && increasing(transitions) && selection_fits(outpoints),
        MsgView::ContractIds(ids) => list_fits(ids) && increasing(ids),
        MsgView::Progress(text) => text_fits(text),
        MsgView::Success(details) => details matches Some(text) ==> text_fits(text),
        MsgView::Failure { code, info } => code.portable() && text_fits(info),
        MsgView::UnresolvedTxids(ids) => list_fits(ids),
        _ => true,
    }
}

/// The acceptance request that the bytes behind the variant's number stand
/// for: the last byte is the flag, what is before it the consignment.
pub open spec fn parse_accept(bytes: Seq<u8>) -> Option<(Seq<u8>, bool)> {
    if bytes.len() < 2 || bytes.last() > 1 {
        None
    } else {
        Some((bytes.subrange(1, bytes.len() - 1), bytes.last() == 1))
    }
}

/// The contract query that the bytes behind the variant's number stand for.
pub open spec fn parse_query(bytes: Seq<u8>) -> Option<MsgView> {
    if bytes.len() < 33 {
        None
    } else {
        match parse_list::<TransitionType>(bytes, 33, true) {
            None => None,
            Some((transitions, next)) => match parse_selection(bytes, next) {
                None => None,
                Some(outpoints) => Some(
                    MsgView::GetContract {
                        contract_id: ContractId::unwire(bytes.subrange(1, 33)),
                        transitions,
                        outpoints,
                    },
                ),
            },
        }
    }
}

/// The optional detail that the bytes behind the variant's number stand
/// for.
pub open spec fn parse_details(bytes: Seq<u8>) -> Option<Option<Seq<char>>> {
    if bytes.len() < 2 {
        None
    } else if bytes[1] == 0 {
        Some(None)
    } else if bytes[1] == 1 {
        match parse_text(bytes, 2) {
            Some((text, _)) => Some(Some(text)),
            None => None,
        }
    } else {
        None
    }
}

/// The failure that the bytes behind the variant's number stand for.
pub open spec fn parse_failure(bytes: Seq<u8>) -> Option<MsgView> {
    if bytes.len() < 3 {
        None
    } else {
        match parse_text(bytes, 3) {
            Some((info, _)) => Some(
                MsgView::Failure {
                    code: FailureCode::spec_from_number(from_le16(bytes.subrange(1, 3))),
                    info,
                },
            ),
            None => None,
        }
    }
}

/// The message that the bytes stand for, if any. Bytes behind the last
/// field of a message are passed over.
pub open spec fn parse_msg(bytes: Seq<u8>) -> Option<MsgView> {
    if bytes.len() < 1 {
        None
    } else {
        let tag = bytes[0];
        let rest = bytes.subrange(1, bytes.len() as int);
        if tag == 0 {
            match parse_text(bytes, 1) {
                Some((user_agent, next)) => Some(
                    MsgView::Hello { user_agent, network: bytes.subrange(next, bytes.len() as int) },
                ),
                None => None,
            }
        } else if tag == 1 {
            match parse_accept(bytes) {
                Some((consignment, force)) => Some(MsgView::AcceptContract { consignment, force }),
                None => None,
            }
        } else if tag == 2 {
            Some(MsgView::ListContracts)
        } else if tag == 3 {
            parse_query(bytes)
        } else if tag == 4 {
            if bytes.len() < 33 {
                None
            } else {
                Some(MsgView::GetContractState(ContractId::unwire(bytes.subrange(1, 33))))
            }
        } else if tag == 5 {
            Some(MsgView::BlindUtxo)
        } else if tag == 6 {
            Some(MsgView::ConsignTransfer)
        } else if tag == 7 {
            match parse_accept(bytes) {
                Some((consignment, force)) => Some(MsgView::AcceptTransfer { consignment, force }),
                None => None,
            }
        } else if tag == 8 {
            match parse_list::<ContractId>(bytes, 1, true) {
                Some((ids, _)) => Some(MsgView::ContractIds(ids)),
                None => None,
            }
        } else if tag == 9 {
            Some(MsgView::Contract(rest))
        } else if tag == 10 {
            Some(MsgView::ContractState(rest))
        } else if tag == 11 {
            Some(MsgView::StateTransfer(rest))
        } else if tag == 12 {
            match parse_text(bytes, 1) {
                Some((text, _)) => Some(MsgView::Progress(text)),
                None => None,
            }
        } else if tag == 13 {
            match parse_details(bytes) {
                Some(details) => Some(MsgView::Success(details)),
                None => None,
            }
        } else if tag == 14 {
            parse_failure(bytes)
        } else if tag == 15 {
            match parse_list::<Txid>(bytes, 1, false) {
                Some((ids, _)) => Some(MsgView::UnresolvedTxids(ids)),
                None => None,
            }
        } else if tag == 16 {
            Some(MsgView::Invalid(rest))
        } else {
            None
        }
    }
}

/// A text that was written between other bytes is read back.
proof fn lemma_text_field(before: Seq<u8>, text: Seq<char>, after: Seq<u8>)
    requires
        text_fits(text),
    ensures
        parse_text(before + text_wire(text) + after, before.len() as int) == Some(
            (text, (before.len() + text_wire(text).len()) as int),
        ),
{
    let bytes = before + text_wire(text) + after;
    let at = before.len() as int;
    assert(bytes.subrange(at, at + text_wire(text).len()) =~= text_wire(text));
    lemma_text_round_trip(bytes, at, text);
}

/// A list that was written between other bytes is read back.
proof fn lemma_list_field<T: WireItem>(
    before: Seq<u8>,
    items: Seq<T>,
    after: Seq<u8>,
    ordered: bool,
)
    requires
        list_fits(items),
        ordered ==> increasing(items),
    ensures
        parse_list::<T>(before + list_wire(items) + after, before.len() as int, ordered) == Some(
            (items, (before.len() + list_wire(items).len()) as int),
        ),
{
    let bytes = before + list_wire(items) + after;
    let at = before.len() as int;
    assert(bytes.subrange(at, at + list_wire(items).len()) =~= list_wire(items));
    lemma_list_round_trip::<T>(bytes, at, items, ordered);
}

/// An outpoint selection that was written at the end of a message is read
/// back.
proof fn lemma_selection_field(before: Seq<u8>, selection: SelectionView)
    requires
        selection_fits(selection),
    ensures
        parse_selection(before + selection_wire(selection), before.len() as int) == Some(
            selection,
        ),
{
    let bytes = before + selection_wire(selection);
    let at = before.len() as int;
    match selection {
        SelectionView::All => {
            assert(bytes[at] == 0);
        },
        SelectionView::Spending(items) => {
            assert(bytes[at] == 1);
            let head = before + seq![1u8];
            assert(bytes =~= head + list_wire(items) + Seq::<u8>::empty());
            lemma_list_field::<OutPoint>(head, items, Seq::empty(), true);
        },
    }
}

proof fn lemma_accept_round_trip(tag: u8, consignment: Seq<u8>, force: bool)
    ensures
        parse_accept(seq![tag] + accept_wire(consignment, force)) == Some((consignment, force)),
{
    let bytes = seq![tag] + accept_wire(consignment, force);
    assert(bytes.len() == consignment.len() + 2);
    assert(bytes.last() == if force { 1u8 } else { 0u8 });
    assert(bytes.subrange(1, bytes.len() - 1) =~= consignment);
}

proof fn lemma_query_round_trip(
    contract_id: ContractId,
    transitions: Seq<TransitionType>,
    outpoints: SelectionView,
)
    requires
        list_fits(transitions),
        increasing(transitions),
        selection_fits(outpoints),
    ensures
        parse_query(seq![3u8] + query_wire(contract_id, transitions, outpoints)) == Some(
            MsgView::GetContract { contract_id, transitions, outpoints },
        ),
{
    let bytes = seq![3u8] + query_wire(contract_id, transitions, outpoints);
    ContractId::lemma_wire(contract_id, Seq::empty());
    let head = seq![3u8] + contract_id.wire();
    assert(head.len() == 33);
    assert(bytes.subrange(1, 33) =~= contract_id.wire());
    assert(bytes =~= head + list_wire(transitions) + selection_wire(outpoints));
    lemma_list_field::<TransitionType>(head, transitions, selection_wire(outpoints), true);
    let front = head + list_wire(transitions);
    assert(bytes =~= front + selection_wire(outpoints));
    lemma_selection_field(front, outpoints);
}

proof fn lemma_details_round_trip(details: Option<Seq<char>>)
    requires
        details matches Some(text) ==> text_fits(text),
    ensures
        parse_details(seq![13u8] + details_wire(details)) == Some(details),
{
    let bytes = seq![13u8] + details_wire(details);
    match details {
        None => {
            assert(bytes[1] == 0);
        },
        Some(text) => {
            assert(bytes[1] == 1);
            let head = seq![13u8, 1u8];
            assert(bytes =~= head + text_wire(text) + Seq::<u8>::empty());
            lemma_text_field(head, text, Seq::empty());
        },
    }
}

proof fn lemma_failure_round_trip(code: FailureCode, info: Seq<char>)
    requires
        code.portable(),
        text_fits(info),
    ensures
        parse_failure(seq![14u8] + failure_wire(code, info)) == Some(
            MsgView::Failure { code, info },
        ),
{
    let bytes = seq![14u8] + failure_wire(code, info);
    let number = code.spec_number();
    lemma_le16_round_trip(number, le16(number));
    code.lemma_number_round_trip();
    let head = seq![14u8] + le16(number);
    assert(head.len() == 3);
    assert(bytes.subrange(1, 3) =~= le16(number));
    assert(bytes =~= head + text_wire(info) + Seq::<u8>::empty());
    lemma_text_field(head, info, Seq::empty());
}

/// Every message that can be written is read back from its bytes as the
/// message that it was.
pub proof fn law_message_round_trip(msg: MsgView)
    requires
        msg_fits(msg),
    ensures
        parse_msg(msg_wire(msg)) == Some(msg),
{
    let bytes = msg_wire(msg);
    let rest = bytes.subrange(1, bytes.len() as int);
    assert(bytes[0] == variant_number(msg));
    assert(rest =~= fields_wire(msg));
    match msg {
        MsgView::Hello { user_agent, network } => {
            let head = seq![0u8];
            assert(bytes =~= head + text_wire(user_agent) + network);
            lemma_text_field(head, user_agent, network);
            assert(bytes.subrange(1 + text_wire(user_agent).len() as int, bytes.len() as int)
                =~= network);
        },
        MsgView::AcceptContract { consignment, force } => {
            lemma_accept_round_trip(1, consignment, force);
        },
        MsgView::GetContract { contract_id, transitions, outpoints } => {
            lemma_query_round_trip(contract_id, transitions, outpoints);
        },
        MsgView::GetContractState(id) => {
            ContractId::lemma_wire(id, Seq::empty());
            assert(bytes.subrange(1, 33) =~= id.wire());
        },
        MsgView::AcceptTransfer { consignment, force } => {
            lemma_accept_round_trip(7, consignment, force);
        },
        MsgView::ContractIds(ids) => {
            let head = seq![8u8];
            assert(bytes =~= head + list_wire(ids) + Seq::<u8>::empty());
            lemma_list_field::<ContractId>(head, ids, Seq::empty(), true);
        },
        MsgView::Progress(text) => {
            let head = seq![12u8];
            assert(bytes =~= head + text_wire(text) + Seq::<u8>::empty());
            lemma_text_field(head, text, Seq::empty());
        },
        MsgView::Success(details) => {
            lemma_details_round_trip(details);
        },
        MsgView::Failure { code, info } => {
            lemma_failure_round_trip(code, info);
        },
        MsgView::UnresolvedTxids(ids) => {
            let head = seq![15u8];
            assert(bytes =~= head + list_wire(ids) + Seq::<u8>::empty());
            lemma_list_field::<Txid>(head, ids, Seq::empty(), false);
        },
        _ => {},
    }
}

/// Appends `data` as it is.
fn put_bytes(data: &[u8], out: &mut Vec<u8>)
    ensures
        final(out)@ == old(out)@ + data@,
{
    let n = data.len();
    let mut i: usize = 0;
    while i < n
        invariant
            i <= n,
            n == data@.len(),
            out@ == old(out)@ + data@.subrange(0, i as int),
        decreases n - i,
    {
        out.push(data[i]);
        i += 1;
        assert(out@ =~= old(out)@ + data@.subrange(0, i as int));
    }
    assert(data@.subrange(0, n as int) =~= data@);
}

/// The bytes from `at` to the end.
fn rest_of(bytes: &[u8], at: usize) -> (rest: Vec<u8>)
    requires
        at <= bytes@.len(),
    ensures
        rest@ == bytes@.subrange(at as int, bytes@.len() as int),
{
    slice_to_vec(slice_subrange(bytes, at, bytes.len()))
}

fn put_accept(req: &AcceptReq, out: &mut Vec<u8>)
    ensures
        final(out)@ == old(out)@ + accept_wire(req.consignment@, req.force),
{
    put_bytes(req.consignment.as_slice(), out);
    out.push(if req.force { 1 } else { 0 });
    assert(out@ =~= old(out)@ + accept_wire(req.consignment@, req.force));
}

fn get_accept(bytes: &[u8]) -> (res: Option<AcceptReq>)
    ensures
        match res {
            Some(req) => parse_accept(bytes@) == Some((req.consignment@, req.force)),
            None => parse_accept(bytes@) is None,
        },
{
    let len = bytes.len();
    if len < 2 {
        return None;
    }
    let flag = bytes[len - 1];
    if flag > 1 {
        return None;
    }
    let consignment = slice_to_vec(slice_subrange(bytes, 1, len - 1));
    Some(AcceptReq { consignment, force: flag == 1 })
}

fn put_selection(selection: &OutpointSelection, out: &mut Vec<u8>) -> (written: bool)
    ensures
        written == selection_fits(selection@),
        written ==> final(out)@ == old(out)@ + selection_wire(selection@),
{
    match selection {
        OutpointSelection::All => {
            out.push(0);
            assert(out@ =~= old(out)@ + selection_wire(selection@));
            true
        },
        OutpointSelection::Spending(set) => {
            out.push(1);
            let written = put_list(set.as_vec(), out);
            assert(written ==> out@ =~= old(out)@ + selection_wire(selection@));
            written
        },
    }
}

fn get_selection(bytes: &[u8], at: usize) -> (res: Option<OutpointSelection>)
    requires
        at <= bytes@.len(),
    ensures
        match res {
            Some(selection) => parse_selection(bytes@, at as int) == Some(selection@),
            None => parse_selection(bytes@, at as int) is None,
        },
{
    if bytes.len() - at < 1 {
        return None;
    }
    let tag = bytes[at];
    if tag == 0 {
        Some(OutpointSelection::All)
    } else if tag == 1 {
        match get_set::<OutPoint>(bytes, at + 1) {
            Some((set, _)) => Some(OutpointSelection::Spending(set)),
            None => None,
        }
    } else {
        None
    }
}

fn put_query(req: &ContractReq, out: &mut Vec<u8>) -> (written: bool)
    ensures
        written == (list_fits(req.transitions@) && increasing(req.transitions@)
            && selection_fits(req.outpoints@)),
        written ==> final(out)@ == old(out)@ + query_wire(
            req.contract_id,
            req.transitions@,
            req.outpoints@,
        ),
{
    req.contract_id.put(out);
    if !put_list(req.transitions.as_vec(), out) {
        return false;
    }
    let written = put_selection(&req.outpoints, out);
    assert(written ==> out@ =~= old(out)@ + query_wire(
        req.contract_id,
        req.transitions@,
        req.outpoints@,
    ));
    written
}

fn get_query(bytes: &[u8]) -> (res: Option<RpcMsg>)
    ensures
        match res {
            Some(msg) => parse_query(bytes@) == Some(msg@),
            None => parse_query(bytes@) is None,
        },
{
    if bytes.len() < 33 {
        return None;
    }
    let contract_id = ContractId::get(bytes, 1);
    match get_set::<TransitionType>(bytes, 33) {
        None => None,
        Some((transitions, next)) => match get_selection(bytes, next) {
            None => None,
            Some(outpoints) => Some(
                RpcMsg::GetContract(ContractReq { contract_id, transitions, outpoints }),
            ),
        },
    }
}

fn put_details(details: &OptionDetails, out: &mut Vec<u8>) -> (written: bool)
    ensures
        written == (details.0 matches Some(text) ==> text_fits(text@)),
        written ==> final(out)@ == old(out)@ + details_wire(
            match details.0 {
                None => None,
                Some(text) => Some(text@),
            },
        ),
{
    match &details.0 {
        None => {
            out.push(0);
            assert(out@ =~= old(out)@ + seq![0u8]);
            true
        },
        Some(text) => {
            out.push(1);
            let written = put_text(text.as_str(), out);
            assert(written ==> out@ =~= old(out)@ + (seq![1u8] + text_wire(text@)));
            written
        },
    }
}

fn get_details(bytes: &[u8]) -> (res: Option<OptionDetails>)
    ensures
        match res {
            Some(details) => parse_details(bytes@) == Some(
                match details.0 {
                    None => None,
                    Some(text) => Some(text@),
                },
            ),
            None => parse_details(bytes@) is None,
        },
{
    if bytes.len() < 2 {
        return None;
    }
    let tag = bytes[1];
    if tag == 0 {
        Some(OptionDetails(None))
    } else if tag == 1 {
        match get_text(bytes, 2) {
            Some((text, _)) => Some(OptionDetails(Some(text))),
            None => None,
        }
    } else {
        None
    }
}

fn put_failure(failure: &Failure, out: &mut Vec<u8>) -> (written: bool)
    ensures
        written == (failure.code.portable() && text_fits(failure.info@)),
        written ==> final(out)@ == old(out)@ + failure_wire(failure.code, failure.info@),
{
    let portable = match failure.code {
        FailureCode::Other(code) => code.0 <= 0x0FFF,
        _ => true,
    };
    if !portable {
        return false;
    }
    put_u16(failure.code.number(), out);
    let written = put_text(failure.info.as_str(), out);
    assert(written ==> out@ =~= old(out)@ + failure_wire(failure.code, failure.info@));
    written
}

fn get_failure(bytes: &[u8]) -> (res: Option<RpcMsg>)
    ensures
        match res {
            Some(msg) => parse_failure(bytes@) == Some(msg@),
            None => parse_failure(bytes@) is None,
        },
{
    if bytes.len() < 3 {
        return None;
    }
    let code = FailureCode::from_number(get_u16(bytes, 1));
    match get_text(bytes, 3) {
        Some((info, _)) => Some(RpcMsg::Failure(Failure { code, info })),
        None => None,
    }
}

impl RpcMsg {
    /// The bytes of the message, or nothing where the message cannot be
    /// written without loss: where a text or a list is too long for its
    /// count, or the code of a failure would not be read back as it is.
    pub fn encode(&self) -> (res: Option<Vec<u8>>)
        ensures
            res is Some <==> msg_fits(self@),
            res matches Some(bytes) ==> bytes@ == msg_wire(self@),
    {
        let mut out: Vec<u8> = Vec::new();
        let written = match self {
            RpcMsg::Hello(req) => {
                out.push(0);
                let written = put_text(req.user_agent.as_str(), &mut out);
                if written {
                    put_bytes(req.network.as_slice(), &mut out);
                }
                written
            },
            RpcMsg::AcceptContract(req) => {
                out.push(1);
                put_accept(req, &mut out);
                true
            },
            RpcMsg::ListContracts => {
                out.push(2);
                true
            },
            RpcMsg::GetContract(req) => {
                out.push(3);
                put_query(req, &mut out)
            },
            RpcMsg::GetContractState(id) => {
                out.push(4);
                id.put(&mut out);
                true
            },
            RpcMsg::BlindUtxo => {
                out.push(5);
                true
            },
            RpcMsg::ConsignTransfer => {
                out.push(6);
                true
            },
            RpcMsg::AcceptTransfer(req) => {
                out.push(7);
                put_accept(req, &mut out);
                true
            },
            RpcMsg::ContractIds(ids) => {
                out.push(8);
                put_list(ids.as_vec(), &mut out)
            },
            RpcMsg::Contract(data) => {
                out.push(9);
                put_bytes(data.as_slice(), &mut out);
                true
            },
            RpcMsg::ContractState(data) => {
                out.push(10);
                put_bytes(data.as_slice(), &mut out);
                true
            },
            RpcMsg::StateTransfer(data) => {
                out.push(11);
                put_bytes(data.as_slice(), &mut out);
                true
            },
            RpcMsg::Progress(text) => {
                out.push(12);
                put_text(text.as_str(), &mut out)
            },
            RpcMsg::Success(details) => {
                out.push(13);
                put_details(details, &mut out)
            },
            RpcMsg::Failure(failure) => {
                out.push(14);
                put_failure(failure, &mut out)
            },
            RpcMsg::UnresolvedTxids(ids) => {
                out.push(15);
                put_list(ids, &mut out)
            },
            RpcMsg::Invalid(data) => {
                out.push(16);
                put_bytes(data.as_slice(), &mut out);
                true
            },
        };
        if written {
            assert(out@ =~= msg_wire(self@));
            Some(out)
        } else {
            None
        }
    }

    /// The message that the bytes stand for, or nothing where they stand
    /// for none. Bytes behind the last field of a message are passed over.
    pub fn decode(bytes: &[u8]) -> (res: Option<RpcMsg>)
        ensures
            match res {
                Some(msg) => parse_msg(bytes@) == Some(msg@),
                None => parse_msg(bytes@) is None,
            },
    {
        let len = bytes.len();
        if len < 1 {
            return None;
        }
        let tag = bytes[0];
        if tag == 0 {
            match get_text(bytes, 1) {
                Some((user_agent, next)) => {
                    let network = rest_of(bytes, next);
                    Some(RpcMsg::Hello(HelloReq { user_agent, network }))
                },
                None => None,
            }
        } else if tag == 1 {
            match get_accept(bytes) {
                Some(req) => Some(RpcMsg::AcceptContract(req)),
                None => None,
            }
        } else if tag == 2 {
            Some(RpcMsg::ListContracts)
        } else if tag == 3 {
            get_query(bytes)
        } else if tag == 4 {
            if len < 33 {
                None
            } else {
                Some(RpcMsg::GetContractState(ContractId::get(bytes, 1)))
            }
        } else if tag == 5 {
            Some(RpcMsg::BlindUtxo)
        } else if tag == 6 {
            Some(RpcMsg::ConsignTransfer)
        } else if tag == 7 {
            match get_accept(bytes) {
                Some(req) => Some(RpcMsg::AcceptTransfer(req)),
                None => None,
            }
        } else if tag == 8 {
            match get_set::<ContractId>(bytes, 1) {
                Some((ids, _)) => Some(RpcMsg::ContractIds(ids)),
                None => None,
            }
        } else if tag == 9 {
            Some(RpcMsg::Contract(rest_of(bytes, 1)))
        } else if tag == 10 {
            Some(RpcMsg::ContractState(rest_of(bytes, 1)))
        } else if tag == 11 {
            Some(RpcMsg::StateTransfer(rest_of(bytes, 1)))
        } else if tag == 12 {
            match get_text(bytes, 1) {
                Some((text, _)) => Some(RpcMsg::Progress(text)),
                None => None,
            }
        } else if tag == 13 {
            match get_details(bytes) {
                Some(details) => Some(RpcMsg::Success(details)),
                None => None,
            }
        } else if tag == 14 {
            get_failure(bytes)
        } else if tag == 15 {
            match get_list::<Txid>(bytes, 1) {
                Some((ids, _)) => Some(RpcMsg::UnresolvedTxids(ids)),
                None => None,
            }
        } else if tag == 16 {
            Some(RpcMsg::Invalid(rest_of(bytes, 1)))
        } else {
            None
        }
    }
}

} // verus!
