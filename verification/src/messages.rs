//! The messages that a client and the node exchange over the bus.
//!
//! Requests and replies share one type, so that a single channel carries
//! both directions. Consignments, contracts, contract states and validation
//! reports travel in their serialized form: the validation engine reads
//! them, the protocol only frames them.

use crate::rpc::{AppCode, Failure, FailureCode};
use crate::wire::{ContractId, OutPoint, SortedSet, TransitionType, Txid};
use vstd::prelude::*;
use vstd::std_specs::convert::FromSpecImpl;
use vstd::string::StringExecFns;

verus! {

/// Error of the presentation layer of the transport library, carried
/// unchanged.
#[verifier::external_type_specification]
#[verifier::external_body]
pub struct ExPresentationError(internet2::presentation::Error);

/// An optional detail that a successful reply may carry.
#[derive(Clone, PartialEq, Eq, PartialOrd, Ord, Hash, Debug, Default)]
pub struct OptionDetails(pub Option<String>);

impl OptionDetails {
    /// A detail with the given text.
    pub fn with(s: &str) -> (details: Self)
        ensures
            details.0 matches Some(text) && text@ == s@,
    {
        OptionDetails(Some(s.to_owned()))
    }

    /// No detail.
    pub fn new() -> (details: Self)
        ensures
            details.0 is None,
    {
        OptionDetails(None)
    }

    /// How the detail is shown behind the word `success`: nothing where
    /// there is none, else a semicolon, a space and the text in quotes.
    pub open spec fn shown(self) -> Seq<char> {
        match self.0 {
            None => Seq::empty(),
            Some(msg) => "; \""@ + msg@ + "\""@,
        }
    }

    /// The detail as it is shown to a reader.
    pub fn to_text(&self) -> (text: String)
        ensures
            text@ == self.shown(),
    {
        match &self.0 {
            None => {
                let text = String::new();
                assert(text@ =~= Seq::<char>::empty());
                text
            },
            Some(msg) => String::from_str("; \"").concat(msg.as_str()).concat("\""),
        }
    }
}

impl From<String> for OptionDetails {
    fn from(s: String) -> (ret: Self) {
        OptionDetails(Some(s))
    }
}

impl FromSpecImpl<String> for OptionDetails {
    open spec fn obeys_from_spec() -> bool {
        true
    }

    open spec fn from_spec(s: String) -> Self {
        OptionDetails(Some(s))
    }
}

/// A client's first message: who it is and which network it expects.
#[derive(Clone, PartialEq, Eq, PartialOrd, Ord, Hash, Debug)]
pub struct HelloReq {
    pub user_agent: String,
    /// The parameters of the network's chain, serialized.
    pub network: Vec<u8>,
}

/// A request to accept a consignment.
#[derive(Clone, PartialEq, Eq, Debug)]
pub struct AcceptReq {
    /// The consignment, serialized.
    pub consignment: Vec<u8>,
    /// Whether objections of the validation that are no failures are to be
    /// passed over.
    pub force: bool,
}

/// What the validation engine found of a consignment.
#[derive(Clone, Debug)]
pub enum ContractValidity {
    Valid,
    /// The validation objects; the report is carried in its serialized form.
    Invalid(Vec<u8>),
    /// Transactions that the consignment refers to are not known yet.
    UnknownTxids(Vec<Txid>),
}

/// Which transaction outputs a query is about.
#[derive(Clone, PartialEq, Eq, PartialOrd, Ord, Hash, Debug)]
pub enum OutpointSelection {
    /// Every output.
    All,
    /// The outputs of the given set.
    Spending(SortedSet<OutPoint>),
}

impl OutpointSelection {
    /// Whether the selection is about `outpoint`: every output belongs to
    /// `All`, and to `Spending` the outputs of its set.
    pub open spec fn selects(self, outpoint: OutPoint) -> bool {
        match self {
            OutpointSelection::All => true,
            OutpointSelection::Spending(set) => set@.contains(outpoint),
        }
    }

    /// Whether the selection is about `outpoint`.
    pub fn includes(&self, outpoint: OutPoint) -> (included: bool)
        ensures
            included == self.selects(outpoint),
            self is All ==> included,
            self matches OutpointSelection::Spending(set) ==> included == set@.contains(outpoint),
    {
        match self {
            OutpointSelection::All => true,
            OutpointSelection::Spending(set) => set.contains(&outpoint),
        }
    }

    /// The outputs among `outpoints` that the selection is about, in the
    /// order in which they were given. State is disclosed for these only.
    pub fn disclosed(&self, outpoints: &Vec<OutPoint>) -> (kept: Vec<OutPoint>)
        ensures
            kept@ == outpoints@.filter(|o: OutPoint| self.selects(o)),
    {
        let mut kept: Vec<OutPoint> = Vec::new();
        let mut i: usize = 0;
        proof {
            reveal(Seq::filter);
            assert(outpoints@.subrange(0, 0) =~= Seq::<OutPoint>::empty());
        }
        while i < outpoints.len()
            invariant
                i <= outpoints@.len(),
                kept@ == outpoints@.subrange(0, i as int).filter(|o: OutPoint| self.selects(o)),
            decreases outpoints@.len() - i,
        {
            let o = outpoints[i];
            proof {
                reveal(Seq::filter);
                let head = outpoints@.subrange(0, i as int);
                let next = outpoints@.subrange(0, i + 1);
                assert(next.drop_last() =~= head);
                assert(next.last() == o);
            }
            if self.includes(o) {
                kept.push(o);
            }
            i += 1;
        }
        assert(outpoints@.subrange(0, i as int) =~= outpoints@);
        kept
    }
}

/// A query for a contract: which one, and which parts of its history.
#[derive(Clone, PartialEq, Eq, PartialOrd, Ord, Hash, Debug)]
pub struct ContractReq {
    pub contract_id: ContractId,
    /// The types of the transitions that the reply is to hold.
    pub transitions: SortedSet<TransitionType>,
    /// The outputs for which state is disclosed.
    pub outpoints: OutpointSelection,
}

impl ContractReq {
    /// Whether transitions of the type `ty` belong to the reply: those whose
    /// type is among the requested ones.
    pub fn materializes(&self, ty: TransitionType) -> (wanted: bool)
        ensures
            wanted == self.transitions@.contains(ty),
    {
        self.transitions.contains(&ty)
    }

    /// Whether state on `outpoint` is disclosed in the reply.
    pub fn discloses(&self, outpoint: OutPoint) -> (disclosed: bool)
        ensures
            disclosed == self.outpoints.selects(outpoint),
    {
        self.outpoints.includes(outpoint)
    }
}

/// A message of the bus, request or reply.
#[derive(Clone, Debug)]
pub enum RpcMsg {
    Hello(HelloReq),
    AcceptContract(AcceptReq),
    ListContracts,
    GetContract(ContractReq),
    GetContractState(ContractId),
    BlindUtxo,
    ConsignTransfer,
    AcceptTransfer(AcceptReq),
    ContractIds(SortedSet<ContractId>),
    /// A contract, serialized.
    Contract(Vec<u8>),
    /// The state of a contract, serialized.
    ContractState(Vec<u8>),
    /// A state transfer, serialized.
    StateTransfer(Vec<u8>),
    Progress(String),
    Success(OptionDetails),
    Failure(Failure),
    UnresolvedTxids(Vec<Txid>),
    /// The report of a validation that objects, serialized.
    Invalid(Vec<u8>),
}

/// The words in which the transport library shows an error of its
/// presentation layer.
pub uninterp spec fn presentation_words(err: internet2::presentation::Error) -> Seq<char>;

/// The text of an error of the presentation layer: what `to_string` of the
/// transport library's error type gives. The text depends on the error
/// alone; what it says is the library's business.
#[verifier::external_body]
fn presentation_error_text(err: &internet2::presentation::Error) -> (text: String)
    ensures
        text@ == presentation_words(*err),
{
    err.to_string()
}

impl RpcMsg {
    /// The reply to a request that was carried out.
    pub fn success() -> (msg: Self)
        ensures
            msg matches RpcMsg::Success(details) && details.0 is None,
    {
        RpcMsg::Success(OptionDetails::new())
    }

    /// The reply to a request that failed for a reason of the application.
    pub fn failure(code: AppCode, message: &str) -> (msg: Self)
        ensures
            msg matches RpcMsg::Failure(f) && f.code == FailureCode::Other(code) && f.info@
                == message@,
    {
        RpcMsg::Failure(Failure { code: FailureCode::Other(code), info: message.to_owned() })
    }

    /// The reply that reports a message which could not be decoded, with
    /// the decoder's words.
    pub fn presentation_failure(info: String) -> (msg: Self)
        ensures
            msg == RpcMsg::Failure(Failure { code: FailureCode::Presentation, info }),
    {
        RpcMsg::Failure(Failure { code: FailureCode::Presentation, info })
    }

    /// A progress notice with the given text.
    pub fn progress(s: &str) -> (msg: Self)
        ensures
            msg matches RpcMsg::Progress(text) && text@ == s@,
    {
        RpcMsg::Progress(s.to_owned())
    }

    /// Whether the message is one that a client sends.
    pub open spec fn spec_is_request(&self) -> bool {
        match self {
            RpcMsg::Hello(_)
            | RpcMsg::AcceptContract(_)
            | RpcMsg::ListContracts
            | RpcMsg::GetContract(_)
            | RpcMsg::GetContractState(_)
            | RpcMsg::BlindUtxo
            | RpcMsg::ConsignTransfer
            | RpcMsg::AcceptTransfer(_) => true,
            _ => false,
        }
    }

    /// Whether the message is one that a client sends. A node sends the
    /// others.
    #[verifier::when_used_as_spec(spec_is_request)]
    pub fn is_request(&self) -> (request: bool)
        ensures
            request == self.spec_is_request(),
    {
        match self {
            RpcMsg::Hello(_)
            | RpcMsg::AcceptContract(_)
            | RpcMsg::ListContracts
            | RpcMsg::GetContract(_)
            | RpcMsg::GetContractState(_)
            | RpcMsg::BlindUtxo
            | RpcMsg::ConsignTransfer
            | RpcMsg::AcceptTransfer(_) => true,
            _ => false,
        }
    }

    /// Whether the message ends the exchange that a request began. Only a
    /// progress notice among the node's messages does not.
    pub open spec fn spec_is_terminal(&self) -> bool {
        !self.spec_is_request() && !(self is Progress)
    }

    /// Whether the message ends the exchange that a request began.
    #[verifier::when_used_as_spec(spec_is_terminal)]
    pub fn is_terminal(&self) -> (terminal: bool)
        ensures
            terminal == self.spec_is_terminal(),
    {
        match self {
            RpcMsg::Progress(_) => false,
            other => !other.is_request(),
        }
    }
}

impl From<internet2::presentation::Error> for RpcMsg {
    /// A failure with the code of the presentation layer, whatever the
    /// error is; its text is the error's own.
    fn from(err: internet2::presentation::Error) -> (msg: Self)
        ensures
            msg matches RpcMsg::Failure(f) && f.code == FailureCode::Presentation && f.info@
                == presentation_words(err),
    {
        RpcMsg::presentation_failure(presentation_error_text(&err))
    }
}

impl FromSpecImpl<internet2::presentation::Error> for RpcMsg {
    /// The message is stated by what it says, in the clause of `from`.
    open spec fn obeys_from_spec() -> bool {
        false
    }

    open spec fn from_spec(err: internet2::presentation::Error) -> Self {
        arbitrary()
    }
}

impl AcceptReq {
    /// What the node answers to the request once the validation engine has
    /// spoken.
    ///
    /// A failure of the engine is reported as it is, forced or not. A valid
    /// consignment is accepted. An objection is passed over where the
    /// request is forced, and reported else. Unknown transactions are
    /// reported so that the client can fetch them and ask again.
    pub open spec fn answer(force: bool, outcome: Result<ContractValidity, Failure>) -> RpcMsg {
        match outcome {
            Err(failure) => RpcMsg::Failure(failure),
            Ok(ContractValidity::Valid) => RpcMsg::Success(OptionDetails(None)),
            Ok(ContractValidity::Invalid(status)) => if force {
                RpcMsg::Success(OptionDetails(None))
            } else {
                RpcMsg::Invalid(status)
            },
            Ok(ContractValidity::UnknownTxids(txids)) => RpcMsg::UnresolvedTxids(txids),
        }
    }

    /// What the node answers to the request once the validation engine has
    /// spoken.
    pub fn reply(&self, outcome: Result<ContractValidity, Failure>) -> (msg: RpcMsg)
        ensures
            msg == Self::answer(self.force, outcome),
    {
        match outcome {
            Err(failure) => RpcMsg::Failure(failure),
            Ok(ContractValidity::Valid) => RpcMsg::Success(OptionDetails(None)),
            Ok(ContractValidity::Invalid(status)) => if self.force {
                RpcMsg::Success(OptionDetails(None))
            } else {
                RpcMsg::Invalid(status)
            },
            Ok(ContractValidity::UnknownTxids(txids)) => RpcMsg::UnresolvedTxids(txids),
        }
    }
}

} // verus!
