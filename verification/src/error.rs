//! The fallible-result vocabulary shared by both conversion directions.
use vstd::prelude::*;

verus! {

/// Everything that can go wrong while converting between the typed model and
/// the dynamic value graph.
///
/// `Message` carries a free-form error raised while driving a conversion
/// (for example a missing struct field); `Host` wraps a failure raised by the
/// host runtime itself, its text preserved verbatim. The `Expected*` family
/// are structural mismatches, one per expected kind. `Unsupported` is defined
/// for completeness (no typed value is structurally unrepresentable, so it is
/// not produced here), and `Syntax` reports that no shape-inference probe
/// matched.
#[derive(Debug)]
pub enum Error {
    Message(String),
    Host(String),
    ExpectedBoolean,
    ExpectedBytes,
    ExpectedChar,
    ExpectedDict,
    ExpectedDictValue,
    ExpectedEnumKey,
    ExpectedEnumValue,
    ExpectedFloat,
    ExpectedInteger,
    ExpectedList,
    ExpectedListElement,
    ExpectedNone,
    ExpectedString,
    Unsupported,
    Syntax,
}

/// Mathematical model of [`Error`]: the same taxonomy with text as a
/// sequence of characters.
pub enum ErrorV {
    Message(Seq<char>),
    Host(Seq<char>),
    ExpectedBoolean,
    ExpectedBytes,
    ExpectedChar,
    ExpectedDict,
    ExpectedDictValue,
    ExpectedEnumKey,
    ExpectedEnumValue,
    ExpectedFloat,
    ExpectedInteger,
    ExpectedList,
    ExpectedListElement,
    ExpectedNone,
    ExpectedString,
    Unsupported,
    Syntax,
}

impl View for Error {
    type V = ErrorV;

    open spec fn view(&self) -> ErrorV {
        match self {
            Error::Message(s) => ErrorV::Message(s@),
            Error::Host(s) => ErrorV::Host(s@),
            Error::ExpectedBoolean => ErrorV::ExpectedBoolean,
            Error::ExpectedBytes => ErrorV::ExpectedBytes,
            Error::ExpectedChar => ErrorV::ExpectedChar,
            Error::ExpectedDict => ErrorV::ExpectedDict,
            Error::ExpectedDictValue => ErrorV::ExpectedDictValue,
            Error::ExpectedEnumKey => ErrorV::ExpectedEnumKey,
            Error::ExpectedEnumValue => ErrorV::ExpectedEnumValue,
            Error::ExpectedFloat => ErrorV::ExpectedFloat,
            Error::ExpectedInteger => ErrorV::ExpectedInteger,
            Error::ExpectedList => ErrorV::ExpectedList,
            Error::ExpectedListElement => ErrorV::ExpectedListElement,
            Error::ExpectedNone => ErrorV::ExpectedNone,
            Error::ExpectedString => ErrorV::ExpectedString,
            Error::Unsupported => ErrorV::Unsupported,
            Error::Syntax => ErrorV::Syntax,
        }
    }
}

impl Error {
    /// Free-form error with the given message, the constructor the driving
    /// framework uses for its own failures.
    pub fn custom(msg: String) -> (r: Error)
        ensures
            r@ == ErrorV::Message(msg@),
    {
        Error::Message(msg)
    }

    /// A short label for the error, mirroring the structural mismatch
    /// taxonomy; free-form and host errors yield their own text.
    pub fn message(&self) -> (r: String)
        ensures
            r@ == self@.label(),
    {
        match self {
            Error::Message(msg) => msg.clone(),
            Error::Host(msg) => msg.clone(),
            Error::ExpectedBoolean => "expected: boolean".to_owned(),
            Error::ExpectedBytes => "expected: bytes".to_owned(),
            Error::ExpectedChar => "expected: single character".to_owned(),
            Error::ExpectedDict => "expected: dict".to_owned(),
            Error::ExpectedDictValue => "expected: dict value".to_owned(),
            Error::ExpectedEnumKey => "expected: non-empty dict".to_owned(),
            Error::ExpectedEnumValue => "expected: non-empty dict value".to_owned(),
            Error::ExpectedFloat => "expected: float".to_owned(),
            Error::ExpectedInteger => "expected: integer".to_owned(),
            Error::ExpectedList => "expected: list".to_owned(),
            Error::ExpectedListElement => "expected: list element".to_owned(),
            Error::ExpectedNone => "expected: none".to_owned(),
            Error::ExpectedString => "expected: string".to_owned(),
            Error::Unsupported => "unsupported input value".to_owned(),
            Error::Syntax => "no inference probe matched".to_owned(),
        }
    }
}

impl ErrorV {
    /// The text [`Error::message`] yields for an error with this model.
    pub open spec fn label(self) -> Seq<char> {
        match self {
            ErrorV::Message(msg) => msg,
            ErrorV::Host(msg) => msg,
            ErrorV::ExpectedBoolean => "expected: boolean"@,
            ErrorV::ExpectedBytes => "expected: bytes"@,
            ErrorV::ExpectedChar => "expected: single character"@,
            ErrorV::ExpectedDict => "expected: dict"@,
            ErrorV::ExpectedDictValue => "expected: dict value"@,
            ErrorV::ExpectedEnumKey => "expected: non-empty dict"@,
            ErrorV::ExpectedEnumValue => "expected: non-empty dict value"@,
            ErrorV::ExpectedFloat => "expected: float"@,
            ErrorV::ExpectedInteger => "expected: integer"@,
            ErrorV::ExpectedList => "expected: list"@,
            ErrorV::ExpectedListElement => "expected: list element"@,
            ErrorV::ExpectedNone => "expected: none"@,
            ErrorV::ExpectedString => "expected: string"@,
            ErrorV::Unsupported => "unsupported input value"@,
            ErrorV::Syntax => "no inference probe matched"@,
        }
    }
}

} // verus!
