//! Failures as the message bus reports them: a code and a text.

use vstd::prelude::*;

verus! {

/// A failure code that the application defines. Codes up to `0x0FFF` cross
/// the wire unchanged; the wire keeps only the low twelve bits of a code.
#[derive(Clone, Copy, PartialEq, Eq, PartialOrd, Ord, Hash, Debug)]
pub struct AppCode(pub u16);

/// The code of a failure that a server returns.
#[derive(Clone, Copy, PartialEq, Eq, PartialOrd, Ord, Hash, Debug)]
pub enum FailureCode {
    /// The message could not be decoded.
    Presentation,
    /// The connection failed.
    Transport,
    /// The packet was not framed as it should be.
    Framing,
    /// The server does not support the request.
    UnexpectedRequest,
    /// The server's runtime failed.
    Runtime,
    /// A failure that the application defines.
    Other(AppCode),
}

impl FailureCode {
    /// The number of the code on the wire. The codes of the protocol have
    /// the numbers `0x1000` to `0x5000`; an application's code has the
    /// number of its low twelve bits.
    pub open spec fn spec_number(self) -> u16 {
        match self {
            FailureCode::Presentation => 0x1000,
            FailureCode::Transport => 0x2000,
            FailureCode::Framing => 0x3000,
            FailureCode::UnexpectedRequest => 0x4000,
            FailureCode::Runtime => 0x5000,
            FailureCode::Other(code) => code.0 % 0x1000,
        }
    }

    /// The number of the code on the wire.
    #[verifier::when_used_as_spec(spec_number)]
    pub fn number(self) -> (n: u16)
        ensures
            n == self.spec_number(),
    {
        match self {
            FailureCode::Presentation => 0x1000,
            FailureCode::Transport => 0x2000,
            FailureCode::Framing => 0x3000,
            FailureCode::UnexpectedRequest => 0x4000,
            FailureCode::Runtime => 0x5000,
            FailureCode::Other(code) => code.0 % 0x1000,
        }
    }

    /// The code that a number stands for: one of the protocol's codes, or
    /// the application's code with that number.
    pub open spec fn spec_from_number(n: u16) -> Self {
        if n == 0x1000 {
            FailureCode::Presentation
        } else if n == 0x2000 {
            FailureCode::Transport
        } else if n == 0x3000 {
            FailureCode::Framing
        } else if n == 0x4000 {
            FailureCode::UnexpectedRequest
        } else if n == 0x5000 {
            FailureCode::Runtime
        } else {
            FailureCode::Other(AppCode(n))
        }
    }

    /// The code that a number stands for.
    #[verifier::when_used_as_spec(spec_from_number)]
    pub fn from_number(n: u16) -> (code: Self)
        ensures
            code == Self::spec_from_number(n),
    {
        if n == 0x1000 {
            FailureCode::Presentation
        } else if n == 0x2000 {
            FailureCode::Transport
        } else if n == 0x3000 {
            FailureCode::Framing
        } else if n == 0x4000 {
            FailureCode::UnexpectedRequest
        } else if n == 0x5000 {
            FailureCode::Runtime
        } else {
            FailureCode::Other(AppCode(n))
        }
    }

    /// Whether the code crosses the wire unchanged: every code of the
    /// protocol does, and an application's code up to `0x0FFF`.
    pub open spec fn portable(self) -> bool {
        self matches FailureCode::Other(code) ==> code.0 <= 0x0FFF
    }

    /// A portable code is read back from its number.
    pub proof fn lemma_number_round_trip(self)
        requires
            self.portable(),
        ensures
            Self::spec_from_number(self.spec_number()) == self,
    {
    }
}

/// What a server reports of a request that failed.
#[derive(Clone, PartialEq, Eq, Hash, Debug)]
pub struct Failure {
    pub code: FailureCode,
    /// What went wrong, for a human reader.
    pub info: String,
}

} // verus!
