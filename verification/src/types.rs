//! Source positions and the errors, warnings and suspensions that the tool
//! chain reports.

use vstd::prelude::*;
use vstd::utf8::*;

use crate::text::{self, cat2, cat3, join, str_eq, text, text_starts_with};

verus! {

/// The line and column, both counted from one, that follow the given bytes.
/// A line ends with a line feed; a column is a byte.
pub open spec fn position(bytes: Seq<u8>) -> (nat, nat)
    decreases bytes.len(),
{
    if bytes.len() == 0 {
        (1, 1)
    } else {
        let before = position(bytes.drop_last());
        if bytes.last() == 10 {
            (before.0 + 1, 1)
        } else {
            (before.0, before.1 + 1)
        }
    }
}

/// The line and column of a byte offset; an offset past the end stands for the
/// end.
pub open spec fn position_at(bytes: Seq<u8>, offset: nat) -> (nat, nat) {
    position(bytes.take(if offset < bytes.len() { offset as int } else { bytes.len() as int }))
}

/// The line and column of a byte offset, see [`position_at`].
pub fn offset_line_col(source: &str, offset: u32) -> (r: (usize, usize))
    requires
        encode_utf8(source@).len() < usize::MAX,
    ensures
        (r.0 as nat, r.1 as nat) == position_at(encode_utf8(source@), offset as nat),
{
    let bytes: &[u8] = source.as_bytes();
    let mut line: usize = 1;
    let mut col: usize = 1;
    let mut i: usize = 0;
    while i < bytes.len() && (i as u64) < offset as u64
        invariant
            bytes@.len() < usize::MAX,
            i <= bytes@.len(),
            i <= offset,
            line <= i + 1,
            col <= i + 1,
            (line as nat, col as nat) == position(bytes@.take(i as int)),
        decreases bytes@.len() - i,
    {
        proof {
            assert(bytes@.take(i + 1).drop_last() =~= bytes@.take(i as int));
        }
        if bytes[i] == 10 {
            line = line + 1;
            col = 1;
        } else {
            col = col + 1;
        }
        i = i + 1;
    }
    (line, col)
}

/// A source text with the name of the file it came from.
#[derive(Debug, Clone, PartialEq, Eq)]
pub struct SourceMap {
    pub source: String,
    pub file: Option<String>,
}

/// The characters and bytes of a source text and the name it is shown under.
#[verifier::ext_equal]
pub struct SourceView {
    pub chars: Seq<char>,
    pub bytes: Seq<u8>,
    pub file: Seq<char>,
}

impl View for SourceMap {
    type V = SourceView;

    open spec fn view(&self) -> SourceView {
        SourceView {
            chars: self.source@,
            bytes: encode_utf8(self.source@),
            file: match self.file {
                Some(f) => f@,
                None => "<input>"@,
            },
        }
    }
}

impl SourceMap {
    /// A source text of a named file, or of no file.
    pub fn new(source: &str, file: Option<&str>) -> (r: Self)
        ensures
            r.source@ == source@,
            text::opt_view(r.file) == (match file {
                Some(f) => Some(f@),
                None => None,
            }),
    {
        SourceMap {
            source: text(source),
            file: match file {
                Some(f) => Some(text(f)),
                None => None,
            },
        }
    }

    /// The name the text is shown under: its file, or `<input>`.
    pub fn file_name(&self) -> (r: String)
        ensures
            r@ == self@.file,
    {
        match &self.file {
            Some(f) => text(f.as_str()),
            None => text("<input>"),
        }
    }
}

/// A range of bytes of a source text.
#[derive(Debug, Clone, Copy, PartialEq, Eq, Structural)]
pub struct Span {
    pub start: u32,
    pub end: u32,
}

impl Span {
    /// The bytes from `start` to `end`.
    pub fn new(start: u32, end: u32) -> (r: Self)
        ensures
            r == (Span { start, end }),
    {
        Span { start, end }
    }
}

impl Default for Span {
    /// The empty range at the start.
    fn default() -> (r: Self)
        ensures
            r == (Span { start: 0, end: 0 }),
    {
        Span { start: 0, end: 0 }
    }
}

/// Why the machine gave up control without an error.
#[derive(Debug, Clone, Copy, PartialEq, Eq, Structural)]
pub enum VmSuspension {
    SignalWait,
    ReceiveWait,
    AsyncEffect,
}

impl VmSuspension {
    /// The name shown to people.
    pub open spec fn spec_name(self) -> Seq<char> {
        match self {
            VmSuspension::SignalWait => "signal wait"@,
            VmSuspension::ReceiveWait => "receive wait"@,
            VmSuspension::AsyncEffect => "async effect"@,
        }
    }

    /// The name shown to people.
    pub fn to_string(&self) -> (r: String)
        ensures
            r@ == self.spec_name(),
    {
        match self {
            VmSuspension::SignalWait => text("signal wait"),
            VmSuspension::ReceiveWait => text("receive wait"),
            VmSuspension::AsyncEffect => text("async effect"),
        }
    }
}

/// The finer classification of an error.
#[derive(Debug, Clone, Copy, PartialEq, Eq, Structural)]
pub enum ErrorCode {
    E001UnclosedDelimiter,
    E002UnboundVariable,
    E003TypeMismatch,
    E004MissingEffect,
    E005SendabilityViolation,
    E006LinearUseAfterConsume,
    E007InfiniteType,
    E008FieldNotFound,
    E009WrongArity,
    E010MatchNoArms,
    E011StepLimitExceeded,
    E012UnhandledEffect,
    E013FfiBoundaryViolation,
}

/// An error of the tool chain.
#[derive(Debug, PartialEq, Eq)]
pub enum NuError {
    LexError { msg: String, span: Span },
    ParseError { msg: String, span: Span, expected: Option<String>, found: Option<String> },
    TypeError {
        msg: String,
        span: Span,
        expected_type: Option<String>,
        found_type: Option<String>,
        similar_names: Option<Vec<String>>,
    },
    EffectError {
        msg: String,
        span: Span,
        missing_effects: Option<Vec<String>>,
        allowed_effects: Option<String>,
    },
    CapError { msg: String, span: Span, explanation: Option<String> },
    FFIError { msg: String, span: Span },
    PythonError { msg: String, span: Span },
    NotYetImplemented { feature: String, span: Span },
    RuntimeError { msg: String, span: Span },
    VMError { msg: String, span: Span },
    PackageError { msg: String, span: Span },
    Suspended(VmSuspension),
    Multiple(Vec<NuError>),
}

/// A result of the tool chain.
pub type NuResult<T> = Result<T, NuError>;

/// The message of an unbound variable.
pub open spec fn unbound_message(name: Seq<char>) -> Seq<char> {
    "Unbound variable '"@ + name + "'"@
}

/// The message of two types that do not agree.
pub open spec fn mismatch_message(expected: Seq<char>, found: Seq<char>) -> Seq<char> {
    "Type mismatch: expected "@ + expected + ", found "@ + found
}

/// The message of effects that are not allowed.
pub open spec fn missing_message(missing: Seq<Seq<char>>, allowed: Seq<char>) -> Seq<char> {
    "effects {"@ + text::joined(missing, ", "@) + "} are not a subset of allowed effects "@
        + allowed
}

impl NuError {
    /// A parse error that says nothing of what was expected.
    pub fn parse_error(msg: String, span: Span) -> (r: Self)
        ensures
            r == (NuError::ParseError { msg, span, expected: None, found: None }),
    {
        NuError::ParseError { msg, span, expected: None, found: None }
    }

    /// An effect error without detail.
    pub fn effect_error(msg: String, span: Span) -> (r: Self)
        ensures
            r == (NuError::EffectError { msg, span, missing_effects: None, allowed_effects: None }),
    {
        NuError::EffectError { msg, span, missing_effects: None, allowed_effects: None }
    }

    /// A capability error without explanation.
    pub fn cap_error(msg: String, span: Span) -> (r: Self)
        ensures
            r == (NuError::CapError { msg, span, explanation: None }),
    {
        NuError::CapError { msg, span, explanation: None }
    }

    /// A runtime error.
    pub fn runtime_error(msg: String, span: Span) -> (r: Self)
        ensures
            r == (NuError::RuntimeError { msg, span }),
    {
        NuError::RuntimeError { msg, span }
    }

    /// An error of the virtual machine.
    pub fn vm_error(msg: String, span: Span) -> (r: Self)
        ensures
            r == (NuError::VMError { msg, span }),
    {
        NuError::VMError { msg, span }
    }

    /// An error of a foreign interface.
    pub fn ffi_error(msg: String, span: Span) -> (r: Self)
        ensures
            r == (NuError::FFIError { msg, span }),
    {
        NuError::FFIError { msg, span }
    }

    /// Two types that do not agree.
    pub fn type_mismatch(expected: &str, found: &str, span: Span) -> (r: Self)
        ensures
            r matches NuError::TypeError { msg, span: at, expected_type, found_type, similar_names }
                && msg@ == mismatch_message(expected@, found@) && at == span && text::opt_view(
                expected_type,
            ) == Some(expected@) && text::opt_view(found_type) == Some(found@)
                && similar_names is None,
    {
        let mut msg: String = cat3("Type mismatch: expected ", expected, ", found ");
        msg.append(found);
        NuError::TypeError {
            msg,
            span,
            expected_type: Some(text(expected)),
            found_type: Some(text(found)),
            similar_names: None,
        }
    }

    /// A name that is not bound, with the names that resemble it.
    pub fn unbound_variable(name: &str, span: Span, similar: Option<Vec<String>>) -> (r: Self)
        ensures
            r matches NuError::TypeError { msg, span: at, expected_type, found_type, similar_names }
                && msg@ == unbound_message(name@) && at == span && expected_type is None
                && found_type is None && similar_names == similar,
    {
        NuError::TypeError {
            msg: cat3("Unbound variable '", name, "'"),
            span,
            expected_type: None,
            found_type: None,
            similar_names: similar,
        }
    }

    /// Effects that are performed and not allowed.
    pub fn missing_effects(missing: Vec<String>, allowed: &str, span: Span) -> (r: Self)
        ensures
            r matches NuError::EffectError { msg, span: at, missing_effects, allowed_effects }
                && msg@ == missing_message(text::views(missing@), allowed@) && at == span
                && missing_effects == Some(missing) && text::opt_view(allowed_effects) == Some(
                allowed@,
            ),
    {
        let list: String = join(&missing, ", ");
        let mut msg: String = cat2("effects {", list.as_str());
        msg.append("} are not a subset of allowed effects ");
        msg.append(allowed);
        NuError::EffectError {
            msg,
            span,
            missing_effects: Some(missing),
            allowed_effects: Some(text(allowed)),
        }
    }

    /// The finer classification: a type error with an expected and a found type
    /// is a mismatch, one whose message begins with `Unbound variable` an unbound
    /// name; an effect error that lists effects is a missing effect.
    pub open spec fn spec_error_code(&self) -> Option<ErrorCode> {
        match self {
            NuError::TypeError { msg, expected_type, found_type, .. } => {
                if expected_type is Some && found_type is Some {
                    Some(ErrorCode::E003TypeMismatch)
                } else if text::begins_with(msg@, "Unbound variable"@) {
                    Some(ErrorCode::E002UnboundVariable)
                } else {
                    None
                }
            },
            NuError::EffectError { missing_effects, .. } => match missing_effects {
                Some(m) => if m@.len() > 0 {
                    Some(ErrorCode::E004MissingEffect)
                } else {
                    None
                },
                None => None,
            },
            _ => None,
        }
    }

    /// The finer classification, see [`NuError::spec_error_code`].
    pub fn error_code(&self) -> (r: Option<ErrorCode>)
        ensures
            r == self.spec_error_code(),
    {
        match self {
            NuError::TypeError { msg, expected_type, found_type, .. } => {
                if expected_type.is_some() && found_type.is_some() {
                    Some(ErrorCode::E003TypeMismatch)
                } else if text_starts_with(msg.as_str(), "Unbound variable") {
                    Some(ErrorCode::E002UnboundVariable)
                } else {
                    None
                }
            },
            NuError::EffectError { missing_effects, .. } => match missing_effects {
                Some(m) => if m.len() > 0 {
                    Some(ErrorCode::E004MissingEffect)
                } else {
                    None
                },
                None => None,
            },
            _ => None,
        }
    }

    /// What could be done about the error: an expected closing bracket and a type
    /// mismatch have an advice.
    pub open spec fn spec_suggestion(&self) -> Option<Seq<char>> {
        match self {
            NuError::ParseError { expected, .. } => if text::opt_view(*expected) == Some("']'"@) {
                Some("unclosed bracket — add a `]` to close the list or array type"@)
            } else {
                None
            },
            NuError::TypeError { expected_type, found_type, .. } => if expected_type is Some
                && found_type is Some {
                Some(
                    "the expression produces the wrong type — consider adding a type annotation or conversion"@,
                )
            } else {
                None
            },
            _ => None,
        }
    }

    /// What could be done about the error, see [`NuError::spec_suggestion`].
    pub fn suggestion(&self) -> (r: Option<String>)
        ensures
            text::opt_view(r) == self.spec_suggestion(),
    {
        match self {
            NuError::ParseError { expected, .. } => match expected {
                Some(e) => if str_eq(e.as_str(), "']'") {
                    Some(text("unclosed bracket — add a `]` to close the list or array type"))
                } else {
                    None
                },
                None => None,
            },
            NuError::TypeError { expected_type, found_type, .. } => if expected_type.is_some()
                && found_type.is_some() {
                Some(
                    text(
                        "the expression produces the wrong type — consider adding a type annotation or conversion",
                    ),
                )
            } else {
                None
            },
            _ => None,
        }
    }
}

/// A warning of the tool chain.
#[derive(Debug, Clone, PartialEq, Eq)]
pub struct NuWarning {
    pub code: String,
    pub msg: String,
    pub help: Option<String>,
    pub span: Span,
}

impl NuWarning {
    /// The warning on a `catch` expression.
    pub fn deprecated_catch(span: Span) -> (r: Self)
        ensures
            r.code@ == "W0101"@,
            r.msg@ == "use of deprecated `catch` expression"@,
            text::opt_view(r.help) == Some(
                "`catch` is deprecated by RFC 0015 and will be removed in v2.0 — match on the result of a `T ! E` call instead"@,
            ),
            r.span == span,
    {
        NuWarning {
            code: text("W0101"),
            msg: text("use of deprecated `catch` expression"),
            help: Some(
                text(
                    "`catch` is deprecated by RFC 0015 and will be removed in v2.0 — match on the result of a `T ! E` call instead",
                ),
            ),
            span,
        }
    }

    /// The warning on a `fail` expression.
    pub fn deprecated_fail(span: Span) -> (r: Self)
        ensures
            r.code@ == "W0102"@,
            r.msg@ == "use of deprecated `fail` expression"@,
            text::opt_view(r.help) == Some(
                "`fail` is deprecated by RFC 0015 and will be removed in v2.0 — use `return` with an explicit `Error(...)` value under a `T ! E` signature"@,
            ),
            r.span == span,
    {
        NuWarning {
            code: text("W0102"),
            msg: text("use of deprecated `fail` expression"),
            help: Some(
                text(
                    "`fail` is deprecated by RFC 0015 and will be removed in v2.0 — use `return` with an explicit `Error(...)` value under a `T ! E` signature",
                ),
            ),
            span,
        }
    }

    /// The warning as plain text: a headline and, where there is advice, a help
    /// line without a line end.
    pub open spec fn plain_text(&self) -> Seq<char> {
        let head = "warning["@ + self.code@ + "]: "@ + self.msg@;
        match self.help {
            Some(h) => head + "\n  = help: "@ + h@,
            None => head,
        }
    }

    /// The warning as plain text, see [`NuWarning::plain_text`].
    pub fn format_plain(&self) -> (r: String)
        ensures
            r@ == self.plain_text(),
    {
        let mut out: String = cat3("warning[", self.code.as_str(), "]: ");
        out.append(self.msg.as_str());
        match &self.help {
            Some(h) => {
                out.append("\n  = help: ");
                out.append(h.as_str());
            },
            None => {},
        }
        out
    }
}

/// A line begins after a line feed and a column counts from the beginning of its
/// line: the line is one more than the line feeds before, and the column one more
/// than the bytes since the last of them.
pub proof fn positions_count_lines_and_columns(bytes: Seq<u8>)
    ensures
        position(bytes).0 == 1 + bytes.filter(|b: u8| b == 10).len(),
        1 <= position(bytes).1 <= bytes.len() + 1,
        ({
            let start = bytes.len() + 1 - position(bytes).1;
            &&& start == 0 || bytes[start - 1] == 10
            &&& forall|i: int| start <= i < bytes.len() ==> #[trigger] bytes[i] != 10
        }),
    decreases bytes.len(),
{
    reveal(Seq::filter);
    if bytes.len() > 0 {
        let rest = bytes.drop_last();
        positions_count_lines_and_columns(rest);
        assert forall|i: int| 0 <= i < rest.len() implies #[trigger] bytes[i] == rest[i] by {}
        let start = rest.len() + 1 - position(rest).1;
        if start > 0 {
            assert(bytes[start - 1] == rest[start - 1]);
        }
    }
}

/// A message of an unbound name is classified as one, a type error that gives
/// both types as a mismatch whatever its message, and an effect error as a
/// missing effect exactly where it lists one.
pub proof fn errors_are_classified_by_what_they_give(
    error: NuError,
    name: Seq<char>,
)
    ensures
        error matches NuError::TypeError { msg, expected_type, found_type, .. } ==> {
            &&& expected_type is Some && found_type is Some ==> error.spec_error_code() == Some(
                ErrorCode::E003TypeMismatch,
            ) && error.spec_suggestion() is Some
            &&& msg@ == unbound_message(name) && (expected_type is None || found_type is None)
                ==> error.spec_error_code() == Some(ErrorCode::E002UnboundVariable)
                && error.spec_suggestion() is None
        },
        error matches NuError::EffectError { missing_effects, .. } ==> (error.spec_error_code()
            == Some(ErrorCode::E004MissingEffect) <==> (missing_effects matches Some(m) && m@.len()
            > 0)),
        !(error is TypeError) && !(error is EffectError) ==> error.spec_error_code() is None,
        !(error is TypeError) && !(error is ParseError) ==> error.spec_suggestion() is None,
{
    reveal_strlit("Unbound variable '");
    reveal_strlit("Unbound variable");
    if let NuError::TypeError { msg, .. } = error {
        if msg@ == unbound_message(name) {
            assert(msg@.take("Unbound variable"@.len() as int) =~= "Unbound variable"@);
            assert(text::begins_with(msg@, "Unbound variable"@));
        }
    }
}

} // verus!
