//! Opaque handles and result envelopes for foreign callers.
//!
//! A value leaves for the foreign side inside a [`COpaqueStruct`], which
//! records the identity of the value's type next to it. The value comes back
//! only to a consumer that names the same type. The outcome of a fallible
//! operation crosses as a [`CResult`]: a status and a handle that holds either
//! the typed success value or the error's text.

use vstd::prelude::*;
use vstd::std_specs::convert::FromSpecImpl;
use vstd::string::StringExecFns;
use vstd::utf8::encode_utf8;

verus! {

/// The types registered for transit across the boundary.
#[derive(Clone, Copy, PartialEq, Eq, Debug, Structural)]
pub enum CReturnType {
    /// The node's runtime.
    Runtime,
    /// An owned text.
    Text,
    /// The empty value of an operation that returns nothing.
    Unit,
}

/// The tag of a handle whose payload is text that is read without a type
/// check. No registered type has it.
pub const RAW_TAG: u64 = 0;

impl CReturnType {
    /// The 64-bit identity of the type.
    pub open spec fn spec_type_tag(self) -> u64 {
        match self {
            CReturnType::Runtime => 0x9acd_d548_54c7_41cb,
            CReturnType::Text => 0x58b4_b3ec_d4eb_6238,
            CReturnType::Unit => 0x07e1_1f07_b4a6_665a,
        }
    }

    /// The 64-bit identity of the type: the FNV-1a hash of its name
    /// (`Runtime`, `String`, `()`).
    #[verifier::when_used_as_spec(spec_type_tag)]
    pub fn type_tag(self) -> (tag: u64)
        ensures
            tag == self.spec_type_tag(),
    {
        match self {
            CReturnType::Runtime => 0x9acd_d548_54c7_41cb,
            CReturnType::Text => 0x58b4_b3ec_d4eb_6238,
            CReturnType::Unit => 0x07e1_1f07_b4a6_665a,
        }
    }

    /// Two registered types have the same tag only if they are the same
    /// type, and none has the tag of untyped text.
    pub proof fn lemma_tags_identify_types(a: CReturnType, b: CReturnType)
        ensures
            a.type_tag() == b.type_tag() <==> a == b,
            a.type_tag() != RAW_TAG,
    {
    }
}

/// A value of a registered type. `R` is the runtime's type.
#[derive(Debug)]
pub enum CReturnValue<R> {
    Runtime(R),
    Text(String),
    Unit,
}

impl<R> CReturnValue<R> {
    pub open spec fn spec_kind(&self) -> CReturnType {
        match self {
            CReturnValue::Runtime(_) => CReturnType::Runtime,
            CReturnValue::Text(_) => CReturnType::Text,
            CReturnValue::Unit => CReturnType::Unit,
        }
    }

    /// The registered type of the value.
    #[verifier::when_used_as_spec(spec_kind)]
    pub fn kind(&self) -> (ty: CReturnType)
        ensures
            ty == self.spec_kind(),
    {
        match self {
            CReturnValue::Runtime(_) => CReturnType::Runtime,
            CReturnValue::Text(_) => CReturnType::Text,
            CReturnValue::Unit => CReturnType::Unit,
        }
    }
}

/// What a handle holds.
#[derive(Debug)]
pub enum Slot<R> {
    /// A value of a registered type, owned by the boundary.
    Typed(CReturnValue<R>),
    /// Text that the far side reads without a type check.
    Raw(String),
    /// Nothing: the value was handed back to a consumer.
    Moved,
}

/// A value in transit: the payload and the tag of its type.
#[derive(Debug)]
pub struct COpaqueStruct<R> {
    slot: Slot<R>,
    ty: u64,
}

/// The error text of a restore that named another type than the handle's.
pub open spec fn type_mismatch() -> Seq<char> {
    "Type mismatch"@
}

impl<R> COpaqueStruct<R> {
    /// The tag always agrees with the payload: a typed value carries the tag
    /// of its type, raw text carries [`RAW_TAG`].
    #[verifier::type_invariant]
    closed spec fn inv(self) -> bool {
        match self.slot {
            Slot::Typed(v) => self.ty == v.spec_kind().spec_type_tag(),
            Slot::Raw(_) => self.ty == RAW_TAG,
            Slot::Moved => true,
        }
    }

    /// The tag recorded in the handle.
    pub closed spec fn tag(&self) -> u64 {
        self.ty
    }

    /// What the handle holds.
    pub closed spec fn state(&self) -> Slot<R> {
        self.slot
    }

    /// Whether the boundary still owns a payload.
    pub open spec fn live(&self) -> bool {
        !(self.state() is Moved)
    }

    /// The handle that [`COpaqueStruct::new`] makes of a value.
    pub closed spec fn wrapped(other: CReturnValue<R>) -> Self {
        COpaqueStruct { slot: Slot::Typed(other), ty: other.spec_kind().spec_type_tag() }
    }

    /// The handle that [`COpaqueStruct::raw`] makes of a text.
    pub closed spec fn untyped(text: String) -> Self {
        COpaqueStruct { slot: Slot::Raw(text), ty: RAW_TAG }
    }

    /// The handle after its value was handed back.
    pub closed spec fn emptied(self) -> Self {
        COpaqueStruct { slot: Slot::Moved, ty: self.ty }
    }

    /// What a consumer that asks for `ty` gets from the handle: the value,
    /// if the handle holds one and its tag is that of `ty`.
    pub open spec fn restore(&self, ty: CReturnType) -> Option<CReturnValue<R>> {
        match self.state() {
            Slot::Typed(v) => if self.tag() == ty.spec_type_tag() {
                Some(v)
            } else {
                None
            },
            _ => None,
        }
    }

    /// The text of a handle that holds raw text.
    pub open spec fn raw_text(&self) -> Option<String> {
        match self.state() {
            Slot::Raw(text) => Some(text),
            _ => None,
        }
    }

    /// Moves a value onto the boundary and records the tag of its type.
    pub fn new(other: CReturnValue<R>) -> (handle: Self)
        ensures
            handle == Self::wrapped(other),
            handle.tag() == other.spec_kind().spec_type_tag(),
            handle.state() == Slot::<R>::Typed(other),
    {
        let ty = other.kind().type_tag();
        COpaqueStruct { slot: Slot::Typed(other), ty }
    }

    /// Wraps a text with no type recorded.
    pub fn raw(text: String) -> (handle: Self)
        ensures
            handle == Self::untyped(text),
            handle.tag() == RAW_TAG,
            handle.state() == Slot::<R>::Raw(text),
    {
        COpaqueStruct { slot: Slot::Raw(text), ty: RAW_TAG }
    }

    /// The tag recorded in the handle.
    pub fn type_tag(&self) -> (tag: u64)
        ensures
            tag == self.tag(),
    {
        self.ty
    }

    /// Whether the boundary still owns a payload. A handle that is not live
    /// must not be restored again.
    pub fn is_live(&self) -> (live: bool)
        ensures
            live == self.live(),
    {
        match &self.slot {
            Slot::Moved => false,
            _ => true,
        }
    }

    /// Hands the value back to a consumer that asks for the type `ty`.
    ///
    /// Where the handle's tag is not that of `ty` the handle is left as it
    /// was and the error text is `Type mismatch`. Otherwise the value is
    /// returned and the boundary's claim on it ends. The handle must be
    /// live: restoring twice is the caller's fault.
    pub fn from_opaque(&mut self, ty: CReturnType) -> (res: Result<CReturnValue<R>, String>)
        requires
            old(self).live(),
        ensures
            match res {
                Ok(value) => old(self).restore(ty) == Some(value) && value.spec_kind() == ty
                    && *final(self) == old(self).emptied(),
                Err(text) => old(self).restore(ty) is None && text@ == type_mismatch()
                    && *final(self) == *old(self),
            },
            final(self).tag() == old(self).tag(),
            res is Ok <==> old(self).tag() == ty.spec_type_tag(),
            res is Ok ==> !final(self).live(),
    {
        proof {
            use_type_invariant(&*self);
            CReturnType::lemma_tags_identify_types(ty, ty);
        }
        if self.ty != ty.type_tag() {
            return Err(String::from_str("Type mismatch"));
        }
        let mut slot = Slot::Moved;
        core::mem::swap(&mut self.slot, &mut slot);
        match slot {
            Slot::Typed(value) => {
                proof {
                    CReturnType::lemma_tags_identify_types(value.spec_kind(), ty);
                }
                Ok(value)
            },
            Slot::Raw(text) => {
                self.slot = Slot::Raw(text);
                Err(String::from_str("Type mismatch"))
            },
            Slot::Moved => Err(String::from_str("Type mismatch")),
        }
    }

    /// Hands back the text of a handle made by [`COpaqueStruct::raw`]. No
    /// tag is compared. A handle that holds a typed value is left as it was.
    pub fn take_raw(&mut self) -> (res: Option<String>)
        requires
            old(self).live(),
        ensures
            res == old(self).raw_text(),
            res is Some ==> *final(self) == old(self).emptied(),
            res is None ==> *final(self) == *old(self),
    {
        proof {
            use_type_invariant(&*self);
        }
        let mut slot = Slot::Moved;
        core::mem::swap(&mut self.slot, &mut slot);
        match slot {
            Slot::Raw(text) => Some(text),
            Slot::Typed(value) => {
                self.slot = Slot::Typed(value);
                None
            },
            Slot::Moved => None,
        }
    }

    /// A value wrapped and restored under its own type comes back unchanged,
    /// and the handle is then spent.
    pub proof fn law_round_trip(value: CReturnValue<R>)
        ensures
            Self::wrapped(value).live(),
            Self::wrapped(value).restore(value.spec_kind()) == Some(value),
            !Self::wrapped(value).emptied().live(),
            Self::wrapped(value).emptied().restore(value.spec_kind()) is None,
    {
    }

    /// A value wrapped under one type is never handed to a consumer that
    /// asks for another.
    pub proof fn law_type_safety(value: CReturnValue<R>, ty: CReturnType)
        requires
            ty != value.spec_kind(),
        ensures
            Self::wrapped(value).restore(ty) is None,
    {
        CReturnType::lemma_tags_identify_types(value.spec_kind(), ty);
    }

    /// Raw text is never handed out as a value of a registered type.
    pub proof fn law_raw_is_untyped(text: String, ty: CReturnType)
        ensures
            Self::untyped(text).restore(ty) is None,
            Self::untyped(text).raw_text() == Some(text),
    {
    }
}

/// The text that stands in for one that cannot cross as a C string.
pub open spec fn nul_replacement() -> Seq<char> {
    "Error converting string: contains a null-char"@
}

/// Whether the UTF-8 form of a text holds a zero byte. Such a text cannot be
/// handed out as a null-terminated string.
pub open spec fn has_nul(text: Seq<char>) -> bool {
    exists|i: int| 0 <= i < encode_utf8(text).len() && encode_utf8(text)[i] == 0u8
}

/// The text that is handed to the foreign side as a null-terminated string:
/// the given text, or a fixed message where the text holds a zero byte.
pub fn string_to_c_text(other: String) -> (text: String)
    ensures
        text@ == if has_nul(other@) {
            nul_replacement()
        } else {
            other@
        },
{
    let found = {
        let bytes = other.as_str().as_bytes();
        let mut found = false;
        let mut i: usize = 0;
        while i < bytes.len()
            invariant
                i <= bytes.len(),
                bytes@ == encode_utf8(other@),
                found <==> exists|k: int| 0 <= k < i && bytes@[k] == 0u8,
            decreases bytes.len() - i,
        {
            if bytes[i] == 0 {
                found = true;
            }
            i += 1;
        }
        found
    };
    if found {
        String::from_str("Error converting string: contains a null-char")
    } else {
        other
    }
}

/// The status of a result envelope.
#[derive(Clone, Copy, PartialEq, Eq, Debug, Structural)]
pub enum CResultValue {
    /// The operation succeeded: the payload is the typed success value.
    Success,
    /// The operation failed: the payload is the error's text.
    Failure,
}

/// The message of a failed operation, as the foreign caller reads it.
#[derive(Clone, Debug)]
pub struct CErrorDetails {
    pub message: String,
}

/// The outcome of a fallible operation in the one shape that crosses the
/// boundary: a status, and a handle that holds the success value under its
/// type or the error's text with no type.
#[derive(Debug)]
pub struct CResult<R> {
    result: CResultValue,
    inner: COpaqueStruct<R>,
}

impl<R> CResult<R> {
    /// Status and payload agree for as long as the payload is in the
    /// envelope: a typed value under `Success`, raw text under `Failure`.
    #[verifier::type_invariant]
    closed spec fn inv(self) -> bool {
        match self.inner.slot {
            Slot::Typed(_) => self.result == CResultValue::Success,
            Slot::Raw(_) => self.result == CResultValue::Failure,
            Slot::Moved => true,
        }
    }

    /// The status of the envelope.
    pub closed spec fn status(&self) -> CResultValue {
        self.result
    }

    /// The handle in the envelope.
    pub closed spec fn payload(&self) -> COpaqueStruct<R> {
        self.inner
    }

    /// The envelope of an outcome.
    pub closed spec fn folded(other: Result<CReturnValue<R>, String>) -> Self {
        match other {
            Ok(value) => CResult { result: CResultValue::Success, inner: COpaqueStruct::wrapped(value) },
            Err(text) => CResult { result: CResultValue::Failure, inner: COpaqueStruct::untyped(text) },
        }
    }

    /// Whether the operation succeeded. Callers branch on this before they
    /// read the payload.
    pub fn is_ok(&self) -> (ok: bool)
        ensures
            ok == (self.status() == CResultValue::Success),
    {
        match self.result {
            CResultValue::Success => true,
            CResultValue::Failure => false,
        }
    }

    /// Takes the envelope apart.
    pub fn into_parts(self) -> (parts: (CResultValue, COpaqueStruct<R>))
        ensures
            parts.0 == self.status(),
            parts.1 == self.payload(),
    {
        (self.result, self.inner)
    }

    /// Reads the payload of a failed operation as text, with no type check.
    /// `None` where the envelope holds no raw text.
    pub fn error_details(self) -> (details: Option<CErrorDetails>)
        ensures
            match details {
                Some(d) => self.payload().raw_text() == Some(d.message),
                None => self.payload().raw_text() is None,
            },
    {
        let mut inner = self.inner;
        if !inner.is_live() {
            return None;
        }
        match inner.take_raw() {
            Some(message) => Some(CErrorDetails { message }),
            None => None,
        }
    }

    /// Every outcome has an envelope whose status and payload agree: after
    /// success the payload is restored under the value's own type and under
    /// no other, after failure it is read back as the very text of the error.
    pub proof fn law_envelope_totality(other: Result<CReturnValue<R>, String>)
        ensures
            match other {
                Ok(value) => Self::folded(other).status() == CResultValue::Success && Self::folded(
                    other,
                ).payload().restore(value.spec_kind()) == Some(value) && Self::folded(
                    other,
                ).payload().raw_text() is None,
                Err(text) => Self::folded(other).status() == CResultValue::Failure && Self::folded(
                    other,
                ).payload().raw_text() == Some(text) && forall|ty: CReturnType|
                    Self::folded(other).payload().restore(ty) is None,
            },
    {
        match other {
            Ok(value) => {
                COpaqueStruct::<R>::law_round_trip(value);
            },
            Err(text) => {
                assert forall|ty: CReturnType| Self::folded(other).payload().restore(ty) is None by {
                    COpaqueStruct::<R>::law_raw_is_untyped(text, ty);
                }
            },
        }
    }
}

impl<R> From<Result<CReturnValue<R>, String>> for CResult<R> {
    /// Wraps a success value under its type and an error's text with no type.
    fn from(other: Result<CReturnValue<R>, String>) -> (res: Self) {
        match other {
            Ok(value) => CResult { result: CResultValue::Success, inner: COpaqueStruct::new(value) },
            Err(text) => CResult { result: CResultValue::Failure, inner: COpaqueStruct::raw(text) },
        }
    }
}

impl<R> FromSpecImpl<Result<CReturnValue<R>, String>> for CResult<R> {
    open spec fn obeys_from_spec() -> bool {
        true
    }

    open spec fn from_spec(other: Result<CReturnValue<R>, String>) -> Self {
        CResult::folded(other)
    }
}

/// The outcome of starting the runtime, as the value that is wrapped.
pub open spec fn started<R>(outcome: Result<R, String>) -> Result<CReturnValue<R>, String> {
    match outcome {
        Ok(runtime) => Ok(CReturnValue::Runtime(runtime)),
        Err(text) => Err(text),
    }
}

/// Starts the runtime with `init` and returns the envelope of what it
/// answered: the runtime under its type, or the error's text.
pub fn start_rgb<R, I: FnOnce() -> Result<R, String>>(init: I) -> (res: CResult<R>)
    requires
        call_requires(init, ()),
    ensures
        exists|outcome: Result<R, String>| #[trigger]
            call_ensures(init, (), outcome) && res == CResult::folded(started(outcome)),
{
    let outcome = init();
    let value = match outcome {
        Ok(runtime) => Ok(CReturnValue::Runtime(runtime)),
        Err(text) => Err(text),
    };
    CResult::from(value)
}

/// What an issuance on `runtime` may answer. The first step that fails
/// decides: the handle's type, the text of the arguments, their parsing, the
/// runtime's own answer.
pub open spec fn issue_outcome<R, A, P: FnOnce(String) -> Result<A, String>, I: FnOnce(
    &R,
    A,
) -> Result<(), String>>(
    runtime: COpaqueStruct<R>,
    json: Result<String, String>,
    parse: P,
    invoke: I,
    outcome: Result<(), String>,
) -> bool {
    match runtime.restore(CReturnType::Runtime) {
        Some(CReturnValue::Runtime(rt)) => match json {
            Ok(text) => exists|parsed: Result<A, String>| #[trigger]
                call_ensures(parse, (text,), parsed) && match parsed {
                    Ok(args) => call_ensures(invoke, (&rt, args), outcome),
                    Err(e) => outcome == Err::<(), String>(e),
                },
            Err(e) => outcome == Err::<(), String>(e),
        },
        _ => outcome matches Err(e) && e@ == type_mismatch(),
    }
}

/// The answer of an operation that returns nothing, as the value that is
/// wrapped.
pub open spec fn done<R>(outcome: Result<(), String>) -> Result<CReturnValue<R>, String> {
    match outcome {
        Ok(_) => Ok(CReturnValue::Unit),
        Err(text) => Err(text),
    }
}

/// Issues a contract on the runtime behind `runtime`.
///
/// The handle is restored as a runtime, the arguments are parsed from their
/// text with `parse`, the runtime is asked with `invoke`, and the answer is
/// folded into an envelope. A handle of another type, an unreadable or
/// unparsable argument text and the runtime's refusal each give an envelope
/// with error status and the failure's text. The runtime goes back behind
/// the handle, which is left as it was.
pub fn issue<R, A, P: FnOnce(String) -> Result<A, String>, I: FnOnce(&R, A) -> Result<
    (),
    String,
>>(runtime: &mut COpaqueStruct<R>, json: Result<String, String>, parse: P, invoke: I) -> (res:
    CResult<R>)
    requires
        old(runtime).live(),
        json matches Ok(text) ==> call_requires(parse, (text,)),
        forall|rt: R, args: A|
            old(runtime).restore(CReturnType::Runtime) == Some(CReturnValue::Runtime(rt))
                ==> #[trigger] call_requires(invoke, (&rt, args)),
    ensures
        *final(runtime) == *old(runtime),
        exists|outcome: Result<(), String>| #[trigger]
            issue_outcome(*old(runtime), json, parse, invoke, outcome) && res == CResult::<R>::folded(
                done::<R>(outcome),
            ),
{
    let outcome: Result<(), String> = match runtime.from_opaque(CReturnType::Runtime) {
        Err(mismatch) => Err(mismatch),
        Ok(value) => match value {
            CReturnValue::Runtime(rt) => {
                let outcome = match json {
                    Err(e) => Err(e),
                    Ok(text) => match parse(text) {
                        Err(e) => Err(e),
                        Ok(args) => invoke(&rt, args),
                    },
                };
                *runtime = COpaqueStruct::new(CReturnValue::Runtime(rt));
                outcome
            },
            other => {
                *runtime = COpaqueStruct::new(other);
                Err(String::from_str("Type mismatch"))
            },
        },
    };
    assert(issue_outcome(*old(runtime), json, parse, invoke, outcome));
    let value = match outcome {
        Ok(_) => Ok(CReturnValue::Unit),
        Err(text) => Err(text),
    };
    CResult::from(value)
}

} // verus!
