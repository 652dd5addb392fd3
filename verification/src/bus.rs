//! The envelope of the message bus.
//!
//! Several protocols may share one transport. Each message on it begins
//! with the 16-bit number of its protocol; the request and reply protocol of
//! this node has the number 4. A message of another protocol is rejected,
//! and the rejection is reported to the peer as a failure of the
//! presentation layer.

use crate::encoding::{msg_fits, msg_wire, parse_msg, MsgView};
use crate::messages::RpcMsg;
use crate::rpc::{Failure, FailureCode};
use crate::wire::{from_le16, get_u16, le16, lemma_le16_round_trip, put_u16};
use vstd::prelude::*;
use vstd::slice::slice_subrange;
use vstd::std_specs::convert::FromSpecImpl;
use vstd::string::StringExecFns;

verus! {

/// The number of the request and reply protocol on the bus.
pub const RPC_TYPE: u16 = 4;

/// A message of the bus. New protocols get new numbers and new variants.
#[derive(Clone, Debug)]
#[non_exhaustive]
pub enum BusMsg {
    Rpc(RpcMsg),
}

impl View for BusMsg {
    type V = MsgView;

    open spec fn view(&self) -> MsgView {
        match self {
            BusMsg::Rpc(msg) => msg@,
        }
    }
}

/// Why bytes from the bus were not accepted as a message.
#[derive(Clone, Copy, PartialEq, Eq, Debug)]
pub enum PresentationError {
    /// The bytes behind the protocol's number stand for no message, or the
    /// number itself is cut short.
    StrictEncoding,
    /// The protocol has an odd number that is not known here.
    UnknownDataType,
    /// The protocol has an even number that is not known here.
    MessageEvenType(u16),
}

/// The decimal digit of a number below ten.
pub open spec fn digit(d: nat) -> char {
    if d == 0 {
        '0'
    } else if d == 1 {
        '1'
    } else if d == 2 {
        '2'
    } else if d == 3 {
        '3'
    } else if d == 4 {
        '4'
    } else if d == 5 {
        '5'
    } else if d == 6 {
        '6'
    } else if d == 7 {
        '7'
    } else if d == 8 {
        '8'
    } else {
        '9'
    }
}

/// The decimal digits of a number, without leading zeros.
pub open spec fn decimal(n: nat) -> Seq<char>
    decreases n,
{
    if n < 10 {
        seq![digit(n)]
    } else {
        decimal(n / 10).push(digit(n % 10))
    }
}

fn digit_text(d: u16) -> (text: &'static str)
    requires
        d < 10,
    ensures
        text@ == seq![digit(d as nat)],
{
    proof {
        reveal_strlit("0");
        reveal_strlit("1");
        reveal_strlit("2");
        reveal_strlit("3");
        reveal_strlit("4");
        reveal_strlit("5");
        reveal_strlit("6");
        reveal_strlit("7");
        reveal_strlit("8");
        reveal_strlit("9");
    }
    let text = if d == 0 {
        "0"
    } else if d == 1 {
        "1"
    } else if d == 2 {
        "2"
    } else if d == 3 {
        "3"
    } else if d == 4 {
        "4"
    } else if d == 5 {
        "5"
    } else if d == 6 {
        "6"
    } else if d == 7 {
        "7"
    } else if d == 8 {
        "8"
    } else {
        "9"
    };
    assert(text@ =~= seq![digit(d as nat)]);
    text
}

/// Appends the decimal digits of `n`.
fn put_decimal(n: u16, text: &mut String)
    ensures
        final(text)@ == old(text)@ + decimal(n as nat),
    decreases n,
{
    if n >= 10 {
        put_decimal(n / 10, text);
    }
    text.append(digit_text(n % 10));
    assert(text@ =~= old(text)@ + decimal(n as nat));
}

impl PresentationError {
    /// The words of the error, as the peer reads them in a failure.
    pub open spec fn words(self) -> Seq<char> {
        match self {
            PresentationError::StrictEncoding => "error in strict-encoded data from LNP message"@,
            PresentationError::UnknownDataType => "unknown data type in LNP message"@,
            PresentationError::MessageEvenType(ty) => "LNP message with unknown even type #"@
                + decimal(ty as nat),
        }
    }

    /// The words of the error.
    pub fn info(&self) -> (text: String)
        ensures
            text@ == self.words(),
    {
        match self {
            PresentationError::StrictEncoding => String::from_str(
                "error in strict-encoded data from LNP message",
            ),
            PresentationError::UnknownDataType => String::from_str(
                "unknown data type in LNP message",
            ),
            PresentationError::MessageEvenType(ty) => {
                let mut text = String::from_str("LNP message with unknown even type #");
                put_decimal(*ty, &mut text);
                text
            },
        }
    }
}

impl From<PresentationError> for RpcMsg {
    /// The failure that tells a peer of a message which was not accepted:
    /// it has the code of the presentation layer and the error's words.
    fn from(err: PresentationError) -> (msg: Self)
        ensures
            msg@ == (MsgView::Failure { code: FailureCode::Presentation, info: err.words() }),
    {
        RpcMsg::Failure(Failure { code: FailureCode::Presentation, info: err.info() })
    }
}

impl FromSpecImpl<PresentationError> for RpcMsg {
    /// The message is stated by what it says, in the clause of `from`.
    open spec fn obeys_from_spec() -> bool {
        false
    }

    open spec fn from_spec(err: PresentationError) -> Self {
        arbitrary()
    }
}

/// The bytes of a message on the bus: the number of the protocol and the
/// message.
pub open spec fn bus_wire(msg: MsgView) -> Seq<u8> {
    le16(RPC_TYPE) + msg_wire(msg)
}

/// The message that bytes from the bus stand for, or the reason why they
/// are not accepted.
pub open spec fn parse_bus(bytes: Seq<u8>) -> Result<MsgView, PresentationError> {
    if bytes.len() < 2 {
        Err(PresentationError::StrictEncoding)
    } else {
        let ty = from_le16(bytes.subrange(0, 2));
        if ty == RPC_TYPE {
            match parse_msg(bytes.subrange(2, bytes.len() as int)) {
                Some(msg) => Ok(msg),
                None => Err(PresentationError::StrictEncoding),
            }
        } else if ty % 2 == 0 {
            Err(PresentationError::MessageEvenType(ty))
        } else {
            Err(PresentationError::UnknownDataType)
        }
    }
}

/// Every message that can be written is read back from the bus as the
/// message that it was.
pub proof fn law_bus_round_trip(msg: MsgView)
    requires
        msg_fits(msg),
    ensures
        parse_bus(bus_wire(msg)) == Ok::<MsgView, PresentationError>(msg),
{
    let bytes = bus_wire(msg);
    lemma_le16_round_trip(RPC_TYPE, le16(RPC_TYPE));
    assert(bytes.subrange(0, 2) =~= le16(RPC_TYPE));
    assert(bytes.subrange(2, bytes.len() as int) =~= msg_wire(msg));
    crate::encoding::law_message_round_trip(msg);
}

/// Bytes that begin with the number of another protocol are never read as
/// a message.
pub proof fn law_unknown_type_rejected(bytes: Seq<u8>)
    requires
        bytes.len() >= 2,
        from_le16(bytes.subrange(0, 2)) != RPC_TYPE,
    ensures
        parse_bus(bytes) is Err,
        parse_bus(bytes) != Err::<MsgView, PresentationError>(PresentationError::StrictEncoding),
{
}

impl BusMsg {
    /// The bytes of the message on the bus, or nothing where the message
    /// cannot be written without loss.
    pub fn encode(&self) -> (res: Option<Vec<u8>>)
        ensures
            res is Some <==> msg_fits(self@),
            res matches Some(bytes) ==> bytes@ == bus_wire(self@),
    {
        match self {
            BusMsg::Rpc(msg) => match msg.encode() {
                None => None,
                Some(body) => {
                    let mut out: Vec<u8> = Vec::new();
                    put_u16(RPC_TYPE, &mut out);
                    let n = body.len();
                    let mut i: usize = 0;
                    while i < n
                        invariant
                            i <= n,
                            n == body@.len(),
                            out@ == le16(RPC_TYPE) + body@.subrange(0, i as int),
                        decreases n - i,
                    {
                        out.push(body[i]);
                        i += 1;
                        assert(out@ =~= le16(RPC_TYPE) + body@.subrange(0, i as int));
                    }
                    assert(body@.subrange(0, n as int) =~= body@);
                    Some(out)
                },
            },
        }
    }

    /// Reads a message from the bus.
    pub fn decode(bytes: &[u8]) -> (res: Result<BusMsg, PresentationError>)
        ensures
            match res {
                Ok(msg) => parse_bus(bytes@) == Ok::<MsgView, PresentationError>(msg@),
                Err(err) => parse_bus(bytes@) == Err::<MsgView, PresentationError>(err),
            },
    {
        let len = bytes.len();
        if len < 2 {
            return Err(PresentationError::StrictEncoding);
        }
        let ty = get_u16(bytes, 0);
        if ty == RPC_TYPE {
            match RpcMsg::decode(slice_subrange(bytes, 2, len)) {
                Some(msg) => Ok(BusMsg::Rpc(msg)),
                None => Err(PresentationError::StrictEncoding),
            }
        } else if ty % 2 == 0 {
            Err(PresentationError::MessageEvenType(ty))
        } else {
            Err(PresentationError::UnknownDataType)
        }
    }
}

} // verus!
