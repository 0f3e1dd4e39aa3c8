//! Diagnostics for people: stable error codes, reports with source snippets and
//! plain-text reports where there is no source to show.
//!
//! [`format_diagnostic`] is the entry point: it gives a snippet report where the
//! source is at hand and a plain one otherwise.

use ariadne::{Color, Config, Label, Report, ReportKind, Source};
use vstd::prelude::*;
use vstd::utf8::*;

use crate::text::{self, cat2, cat3, cat4, join, push_dec, text};
use crate::types::{self, offset_line_col, ErrorCode, NuError, NuWarning, SourceMap, SourceView, Span};

verus! {

/// The code of a finer classification, scoped by category.
pub open spec fn scoped_code(code: ErrorCode) -> Seq<char> {
    match code {
        ErrorCode::E001UnclosedDelimiter => "E0103"@,
        ErrorCode::E002UnboundVariable => "E0202"@,
        ErrorCode::E003TypeMismatch => "E0201"@,
        ErrorCode::E004MissingEffect => "E0301"@,
        ErrorCode::E005SendabilityViolation => "E0401"@,
        ErrorCode::E006LinearUseAfterConsume => "E0402"@,
        ErrorCode::E007InfiniteType => "E0203"@,
        ErrorCode::E008FieldNotFound => "E0204"@,
        ErrorCode::E009WrongArity => "E0205"@,
        ErrorCode::E010MatchNoArms => "E0206"@,
        ErrorCode::E011StepLimitExceeded => "E0503"@,
        ErrorCode::E012UnhandledEffect => "E0302"@,
        ErrorCode::E013FfiBoundaryViolation => "E0208"@,
    }
}

/// The code of a finer classification, see [`scoped_code`].
pub fn code_text(code: ErrorCode) -> (r: &'static str)
    ensures
        r@ == scoped_code(code),
{
    match code {
        ErrorCode::E001UnclosedDelimiter => "E0103",
        ErrorCode::E002UnboundVariable => "E0202",
        ErrorCode::E003TypeMismatch => "E0201",
        ErrorCode::E004MissingEffect => "E0301",
        ErrorCode::E005SendabilityViolation => "E0401",
        ErrorCode::E006LinearUseAfterConsume => "E0402",
        ErrorCode::E007InfiniteType => "E0203",
        ErrorCode::E008FieldNotFound => "E0204",
        ErrorCode::E009WrongArity => "E0205",
        ErrorCode::E010MatchNoArms => "E0206",
        ErrorCode::E011StepLimitExceeded => "E0503",
        ErrorCode::E012UnhandledEffect => "E0302",
        ErrorCode::E013FfiBoundaryViolation => "E0208",
    }
}

/// The stable code of an error: that of its finer classification, or else the
/// default of its category. A suspension and a list of errors have none.
pub open spec fn stable(err: NuError) -> Option<Seq<char>> {
    match err.spec_error_code() {
        Some(code) => Some(scoped_code(code)),
        None => match err {
            NuError::LexError { .. } => Some("E0101"@),
            NuError::ParseError { .. } => Some("E0102"@),
            NuError::TypeError { .. } => Some("E0200"@),
            NuError::EffectError { .. } => Some("E0300"@),
            NuError::CapError { .. } => Some("E0400"@),
            NuError::FFIError { .. } => Some("E0601"@),
            NuError::PythonError { .. } => Some("E0602"@),
            NuError::NotYetImplemented { .. } => Some("E0901"@),
            NuError::RuntimeError { .. } => Some("E0501"@),
            NuError::VMError { .. } => Some("E0502"@),
            NuError::PackageError { .. } => Some("E0902"@),
            NuError::Suspended(_) => None,
            NuError::Multiple(_) => None,
        },
    }
}

/// The span that an error points at.
pub open spec fn span_of(err: NuError) -> Option<Span> {
    match err {
        NuError::LexError { span, .. } => Some(span),
        NuError::ParseError { span, .. } => Some(span),
        NuError::TypeError { span, .. } => Some(span),
        NuError::EffectError { span, .. } => Some(span),
        NuError::CapError { span, .. } => Some(span),
        NuError::FFIError { span, .. } => Some(span),
        NuError::PythonError { span, .. } => Some(span),
        NuError::NotYetImplemented { span, .. } => Some(span),
        NuError::RuntimeError { span, .. } => Some(span),
        NuError::VMError { span, .. } => Some(span),
        NuError::PackageError { span, .. } => Some(span),
        NuError::Suspended(_) => None,
        NuError::Multiple(_) => None,
    }
}

/// The message of an error without place or detail.
pub open spec fn message_of(err: NuError) -> Seq<char> {
    match err {
        NuError::LexError { msg, .. } => msg@,
        NuError::ParseError { msg, .. } => msg@,
        NuError::TypeError { msg, .. } => msg@,
        NuError::EffectError { msg, .. } => msg@,
        NuError::CapError { msg, .. } => msg@,
        NuError::FFIError { msg, .. } => msg@,
        NuError::PythonError { msg, .. } => msg@,
        NuError::NotYetImplemented { feature, .. } => feature@,
        NuError::RuntimeError { msg, .. } => msg@,
        NuError::VMError { msg, .. } => msg@,
        NuError::PackageError { msg, .. } => msg@,
        NuError::Suspended(kind) => "VM suspended: "@ + kind.spec_name(),
        NuError::Multiple(_) => Seq::empty(),
    }
}

impl NuError {
    /// The stable code, see [`stable`]. By category: `E01xx` reading the source,
    /// `E02xx` types, `E03xx` effects, `E04xx` capabilities, `E05xx` running,
    /// `E06xx` foreign interfaces, `E09xx` the rest.
    pub fn stable_code(&self) -> (r: Option<&'static str>)
        ensures
            (match r {
                Some(c) => Some(c@),
                None => None,
            }) == stable(*self),
    {
        match self.error_code() {
            Some(code) => return Some(code_text(code)),
            None => {},
        }
        match self {
            NuError::LexError { .. } => Some("E0101"),
            NuError::ParseError { .. } => Some("E0102"),
            NuError::TypeError { .. } => Some("E0200"),
            NuError::EffectError { .. } => Some("E0300"),
            NuError::CapError { .. } => Some("E0400"),
            NuError::FFIError { .. } => Some("E0601"),
            NuError::PythonError { .. } => Some("E0602"),
            NuError::NotYetImplemented { .. } => Some("E0901"),
            NuError::RuntimeError { .. } => Some("E0501"),
            NuError::VMError { .. } => Some("E0502"),
            NuError::PackageError { .. } => Some("E0902"),
            NuError::Suspended(_) => None,
            NuError::Multiple(_) => None,
        }
    }

    /// The span that the error points at, see [`span_of`].
    pub fn primary_span(&self) -> (r: Option<Span>)
        ensures
            r == span_of(*self),
    {
        match self {
            NuError::LexError { span, .. } => Some(*span),
            NuError::ParseError { span, .. } => Some(*span),
            NuError::TypeError { span, .. } => Some(*span),
            NuError::EffectError { span, .. } => Some(*span),
            NuError::CapError { span, .. } => Some(*span),
            NuError::FFIError { span, .. } => Some(*span),
            NuError::PythonError { span, .. } => Some(*span),
            NuError::NotYetImplemented { span, .. } => Some(*span),
            NuError::RuntimeError { span, .. } => Some(*span),
            NuError::VMError { span, .. } => Some(*span),
            NuError::PackageError { span, .. } => Some(*span),
            NuError::Suspended(_) => None,
            NuError::Multiple(_) => None,
        }
    }

    /// The message without place or detail, see [`message_of`].
    pub fn to_string_message(&self) -> (r: String)
        ensures
            r@ == message_of(*self),
    {
        match self {
            NuError::LexError { msg, .. } => text(msg.as_str()),
            NuError::ParseError { msg, .. } => text(msg.as_str()),
            NuError::TypeError { msg, .. } => text(msg.as_str()),
            NuError::EffectError { msg, .. } => text(msg.as_str()),
            NuError::CapError { msg, .. } => text(msg.as_str()),
            NuError::FFIError { msg, .. } => text(msg.as_str()),
            NuError::PythonError { msg, .. } => text(msg.as_str()),
            NuError::NotYetImplemented { feature, .. } => text(feature.as_str()),
            NuError::RuntimeError { msg, .. } => text(msg.as_str()),
            NuError::VMError { msg, .. } => text(msg.as_str()),
            NuError::PackageError { msg, .. } => text(msg.as_str()),
            NuError::Suspended(kind) => cat2("VM suspended: ", kind.to_string().as_str()),
            NuError::Multiple(_) => {
                let r: String = String::new();
                assert(r@ =~= Seq::<char>::empty());
                r
            },
        }
    }
}

/// A labelled detail, if it is there.
pub open spec fn detail(label: Seq<char>, o: Option<Seq<char>>) -> Seq<Seq<char>> {
    match o {
        Some(t) => seq![label + t],
        None => Seq::empty(),
    }
}

/// A labelled list, if it is there and not empty.
pub open spec fn list_detail(label: Seq<char>, o: Option<Vec<String>>, end: Seq<char>) -> Seq<
    Seq<char>,
> {
    match o {
        Some(v) => if v@.len() == 0 {
            Seq::empty()
        } else {
            seq![label + text::joined(text::views(v@), ", "@) + end]
        },
        None => Seq::empty(),
    }
}

/// The notes that the details of an error give.
pub open spec fn notes_of(err: NuError) -> Seq<Seq<char>> {
    match err {
        NuError::ParseError { expected, found, .. } => detail(
            "expected: "@,
            text::opt_view(expected),
        ) + detail("found: "@, text::opt_view(found)),
        NuError::TypeError { expected_type, found_type, similar_names, .. } => detail(
            "expected type: "@,
            text::opt_view(expected_type),
        ) + detail("found type: "@, text::opt_view(found_type)) + list_detail(
            "did you mean one of: "@,
            similar_names,
            "?"@,
        ),
        NuError::EffectError { missing_effects, allowed_effects, .. } => list_detail(
            "missing effects: "@,
            missing_effects,
            ""@,
        ) + detail("allowed effects: "@, text::opt_view(allowed_effects)),
        NuError::CapError { explanation, .. } => detail("note: "@, text::opt_view(explanation)),
        _ => Seq::empty(),
    }
}

fn push_detail(out: &mut Vec<String>, label: &str, o: &Option<String>)
    ensures
        text::views(final(out)@) == text::views(old(out)@) + detail(label@, text::opt_view(*o)),
{
    let ghost before = text::views(out@);
    match o {
        Some(t) => {
            out.push(cat2(label, t.as_str()));
        },
        None => {},
    }
    assert(text::views(out@) =~= before + detail(label@, text::opt_view(*o)));
}

fn push_list_detail(out: &mut Vec<String>, label: &str, o: &Option<Vec<String>>, end: &str)
    ensures
        text::views(final(out)@) == text::views(old(out)@) + list_detail(label@, *o, end@),
{
    let ghost before = text::views(out@);
    match o {
        Some(v) => {
            if v.len() > 0 {
                out.push(cat3(label, join(v, ", ").as_str(), end));
            }
        },
        None => {},
    }
    assert(text::views(out@) =~= before + list_detail(label@, *o, end@));
}

/// The notes that the details of an error give, see [`notes_of`].
pub fn diagnostic_notes(err: &NuError) -> (r: Vec<String>)
    ensures
        text::views(r@) == notes_of(*err),
{
    let mut notes: Vec<String> = Vec::new();
    assert(text::views(notes@) =~= Seq::<Seq<char>>::empty());
    match err {
        NuError::ParseError { expected, found, .. } => {
            push_detail(&mut notes, "expected: ", expected);
            push_detail(&mut notes, "found: ", found);
        },
        NuError::TypeError { expected_type, found_type, similar_names, .. } => {
            push_detail(&mut notes, "expected type: ", expected_type);
            push_detail(&mut notes, "found type: ", found_type);
            push_list_detail(&mut notes, "did you mean one of: ", similar_names, "?");
        },
        NuError::EffectError { missing_effects, allowed_effects, .. } => {
            push_list_detail(&mut notes, "missing effects: ", missing_effects, "");
            push_detail(&mut notes, "allowed effects: ", allowed_effects);
        },
        NuError::CapError { explanation, .. } => {
            push_detail(&mut notes, "note: ", explanation);
        },
        _ => {},
    }
    assert(text::views(notes@) =~= notes_of(*err));
    notes
}

// ---------------------------------------------------------------------------
// Snippet reports
// ---------------------------------------------------------------------------

/// The snippet report of an error without color: file, source, the range that
/// is marked, the message, code, note and help.
pub uninterp spec fn error_snippet(
    file: Seq<char>,
    source: Seq<char>,
    start: nat,
    end: nat,
    msg: Seq<char>,
    code: Seq<char>,
    note: Option<Seq<char>>,
    help: Option<Seq<char>>,
) -> Seq<char>;

/// The snippet report of a warning without color, with the same parts.
pub uninterp spec fn warning_snippet(
    file: Seq<char>,
    source: Seq<char>,
    start: nat,
    end: nat,
    msg: Seq<char>,
    code: Seq<char>,
    help: Option<Seq<char>>,
) -> Seq<char>;

/// The view of an optional slice.
pub open spec fn slice_view(o: Option<&str>) -> Option<Seq<char>> {
    match o {
        Some(s) => Some(s@),
        None => None,
    }
}

/// `ariadne::Report::write` of an error report with one red label over the
/// range. Writing to a vector does not fail and what is written is text, so
/// there is always a report; its layout is left to the crate. Whether a colored
/// report is painted is decided by a switch of the process, so of its text
/// nothing is said. A label that ends
/// before it starts makes the crate panic, and so may a source of a thousand
/// million lines, so both are left out.
#[verifier::external_body]
fn error_report(
    file: &str,
    source: &str,
    start: usize,
    end: usize,
    msg: &str,
    code: &str,
    note: Option<&str>,
    help: Option<&str>,
    color: bool,
) -> (r: Option<String>)
    requires
        start <= end,
        source@.len() < 1_000_000_000,
    ensures
        r is Some,
        !color ==> text::opt_view(r) == Some(
            error_snippet(
                file@,
                source@,
                start as nat,
                end as nat,
                msg@,
                code@,
                slice_view(note),
                slice_view(help),
            ),
        ),
{
    let label = Label::new((file, start..end)).with_message(msg).with_color(Color::Red);
    let mut b = Report::build(ReportKind::Error, file, start)
        .with_config(Config::default().with_color(color))
        .with_message(msg).with_label(label).with_code(code);
    if let Some(note) = note { b.set_note(note); }
    if let Some(help) = help { b.set_help(help); }
    let mut out: Vec<u8> = Vec::new();
    b.finish().write((file, Source::from(source)), &mut out).ok()?;
    String::from_utf8(out).ok()
}

/// `ariadne::Report::write` of a warning report with one yellow label over the
/// range, under the same conditions as [`error_report`].
#[verifier::external_body]
fn warning_report(
    file: &str,
    source: &str,
    start: usize,
    end: usize,
    msg: &str,
    code: &str,
    help: Option<&str>,
    color: bool,
) -> (r: Option<String>)
    requires
        start <= end,
        source@.len() < 1_000_000_000,
    ensures
        r is Some,
        !color ==> text::opt_view(r) == Some(
            warning_snippet(
                file@,
                source@,
                start as nat,
                end as nat,
                msg@,
                code@,
                slice_view(help),
            ),
        ),
{
    let label = Label::new((file, start..end)).with_message(msg).with_color(Color::Yellow);
    let mut b = Report::build(ReportKind::Warning, file, start)
        .with_config(Config::default().with_color(color))
        .with_message(msg).with_code(code).with_label(label);
    if let Some(help) = help { b.set_help(help); }
    let mut out: Vec<u8> = Vec::new();
    b.finish().write((file, Source::from(source)), &mut out).ok()?;
    String::from_utf8(out).ok()
}

/// Whether `shown` is a text that was written for an error report of these
/// parts. A report without color has one text; that of a colored one rests on
/// the process too.
pub closed spec fn error_drawn(
    file: Seq<char>,
    source: Seq<char>,
    start: nat,
    end: nat,
    msg: Seq<char>,
    code: Seq<char>,
    note: Option<Seq<char>>,
    help: Option<Seq<char>>,
    color: bool,
    shown: Seq<char>,
) -> bool {
    exists|
        f: &str,
        s: &str,
        a: usize,
        b: usize,
        m: &str,
        c: &str,
        n: Option<&str>,
        h: Option<&str>,
        r: Option<String>,
    |
        f@ == file && s@ == source && a == start && b == end && m@ == msg && c@ == code
            && slice_view(n) == note && slice_view(h) == help && text::opt_view(r) == Some(shown)
            && #[trigger] call_ensures(error_report, (f, s, a, b, m, c, n, h, color), r)
}

/// Whether `shown` is a text that was written for a warning report of these
/// parts, as [`error_drawn`].
pub closed spec fn warning_drawn(
    file: Seq<char>,
    source: Seq<char>,
    start: nat,
    end: nat,
    msg: Seq<char>,
    code: Seq<char>,
    help: Option<Seq<char>>,
    color: bool,
    shown: Seq<char>,
) -> bool {
    exists|
        f: &str,
        s: &str,
        a: usize,
        b: usize,
        m: &str,
        c: &str,
        h: Option<&str>,
        r: Option<String>,
    |
        f@ == file && s@ == source && a == start && b == end && m@ == msg && c@ == code
            && slice_view(h) == help && text::opt_view(r) == Some(shown) && #[trigger] call_ensures(
            warning_report,
            (f, s, a, b, m, c, h, color),
            r,
        )
}

/// Whether a source text is small enough for positions and reports.
pub open spec fn renderable(map: SourceView) -> bool {
    map.chars.len() < 1_000_000_000 && map.bytes.len() < usize::MAX
}

/// Whether a source text, where there is one, is small enough.
pub open spec fn map_fits(map: Option<SourceView>) -> bool {
    match map {
        Some(m) => renderable(m),
        None => true,
    }
}

/// The content of an optional source text.
pub open spec fn map_view(map: Option<&SourceMap>) -> Option<SourceView> {
    match map {
        Some(m) => Some(m@),
        None => None,
    }
}

/// The part of a span that lies inside a text of `len` bytes.
pub open spec fn inside(span: Span, len: nat) -> (nat, nat) {
    let start = if span.start < len {
        span.start as nat
    } else {
        len
    };
    let end = if span.end < len {
        span.end as nat
    } else {
        len
    };
    (start, if end < start {
        start
    } else {
        end
    })
}

fn clamp(span: Span, len: usize) -> (r: (usize, usize))
    ensures
        (r.0 as nat, r.1 as nat) == inside(span, len as nat),
        r.0 <= r.1,
{
    let start: usize = if (span.start as u64) < len as u64 {
        span.start as usize
    } else {
        len
    };
    let cut: usize = if (span.end as u64) < len as u64 {
        span.end as usize
    } else {
        len
    };
    let end: usize = if cut < start {
        start
    } else {
        cut
    };
    (start, end)
}

/// The note line of a report: all notes in one.
pub open spec fn note_line(err: NuError) -> Option<Seq<char>> {
    if notes_of(err).len() == 0 {
        None
    } else {
        Some(text::joined(notes_of(err), "; "@))
    }
}

/// The snippet report of a single error without color; it takes a span and a
/// source that is not empty.
pub open spec fn single_report(err: NuError, map: Option<SourceView>) -> Option<Seq<char>> {
    match (map, span_of(err), stable(err)) {
        (Some(m), Some(span), Some(code)) => if m.chars.len() == 0 {
            None
        } else {
            let range = inside(span, m.bytes.len());
            Some(
                error_snippet(
                    m.file,
                    m.chars,
                    range.0,
                    range.1,
                    message_of(err),
                    code,
                    note_line(err),
                    err.spec_suggestion(),
                ),
            )
        },
        _ => None,
    }
}

/// Reports with one more behind them and a line end, if there are all of them.
pub open spec fn one_more(before: Option<Seq<char>>, one: Option<Seq<char>>) -> Option<Seq<char>> {
    match (before, one) {
        (Some(b), Some(t)) => Some(b + t + "\n"@),
        _ => None,
    }
}

/// The snippet report of an error without color; that of a list is the reports
/// of all its errors, each with a line end behind it, and needs every one of
/// them.
pub open spec fn rendered(err: NuError, map: Option<SourceView>) -> Option<Seq<char>>
    decreases err, 0nat,
{
    match err {
        NuError::Multiple(errors) => rendered_all(errors@, errors@.len(), map),
        _ => single_report(err, map),
    }
}

/// The snippet reports of the first `n` errors without color.
pub open spec fn rendered_all(errors: Seq<NuError>, n: nat, map: Option<SourceView>) -> Option<
    Seq<char>,
>
    decreases errors, n,
{
    if n == 0 || n > errors.len() {
        Some(Seq::empty())
    } else {
        one_more(rendered_all(errors, (n - 1) as nat, map), rendered(errors[n - 1], map))
    }
}

/// Whether `shown` is what the report of a single error shows, in color or not.
pub open spec fn single_shows(
    err: NuError,
    map: Option<SourceView>,
    color: bool,
    shown: Option<Seq<char>>,
) -> bool {
    match (map, span_of(err), stable(err)) {
        (Some(m), Some(span), Some(code)) => if m.chars.len() == 0 {
            shown is None
        } else {
            let range = inside(span, m.bytes.len());
            shown matches Some(t) && error_drawn(
                m.file,
                m.chars,
                range.0,
                range.1,
                message_of(err),
                code,
                note_line(err),
                err.spec_suggestion(),
                color,
                t,
            )
        },
        _ => shown is None,
    }
}

/// Whether `shown` is what the report of an error shows, in color or not.
pub open spec fn report_shows(
    err: NuError,
    map: Option<SourceView>,
    color: bool,
    shown: Option<Seq<char>>,
) -> bool
    decreases err, 0nat,
{
    match err {
        NuError::Multiple(errors) => reports_show(errors@, errors@.len(), map, color, shown),
        _ => single_shows(err, map, color, shown),
    }
}

/// Whether `shown` is what the reports of the first `n` errors show.
pub open spec fn reports_show(
    errors: Seq<NuError>,
    n: nat,
    map: Option<SourceView>,
    color: bool,
    shown: Option<Seq<char>>,
) -> bool
    decreases errors, n,
{
    if n == 0 || n > errors.len() {
        shown == Some(Seq::<char>::empty())
    } else {
        exists|before: Option<Seq<char>>, one: Option<Seq<char>>|
            shown == #[trigger] one_more(before, one) && reports_show(
                errors,
                (n - 1) as nat,
                map,
                color,
                before,
            ) && (before is Some ==> report_shows(errors[n - 1], map, color, one))
    }
}

proof fn missing_report_stays(
    errors: Seq<NuError>,
    m: nat,
    n: nat,
    map: Option<SourceView>,
    color: bool,
)
    requires
        m <= n <= errors.len(),
        reports_show(errors, m, map, color, None),
        rendered_all(errors, m, map) is None,
    ensures
        reports_show(errors, n, map, color, None),
        rendered_all(errors, n, map) is None,
    decreases n,
{
    if m < n {
        missing_report_stays(errors, m, (n - 1) as nat, map, color);
        assert(one_more(None, None) is None);
    }
}

fn opt_str(o: &Option<String>) -> (r: Option<&str>)
    ensures
        slice_view(r) == text::opt_view(*o),
{
    match o {
        Some(s) => Some(s.as_str()),
        None => None,
    }
}

fn render_single(err: &NuError, map: Option<&SourceMap>, use_color: bool) -> (r: Option<String>)
    requires
        map_fits(map_view(map)),
    ensures
        single_shows(*err, map_view(map), use_color, text::opt_view(r)),
        !use_color ==> text::opt_view(r) == single_report(*err, map_view(map)),
        r is Some <==> single_report(*err, map_view(map)) is Some,
{
    let m: &SourceMap = match map {
        Some(m) => m,
        None => return None,
    };
    if m.source.as_str().unicode_len() == 0 {
        return None;
    }
    let span: Span = match err.primary_span() {
        Some(s) => s,
        None => return None,
    };
    let code: &str = match err.stable_code() {
        Some(c) => c,
        None => return None,
    };
    let file: String = m.file_name();
    let (start, end) = clamp(span, m.source.as_str().as_bytes().len());
    let msg: String = err.to_string_message();
    let notes: Vec<String> = diagnostic_notes(err);
    let note: Option<String> = if notes.len() > 0 {
        Some(join(&notes, "; "))
    } else {
        None
    };
    let help: Option<String> = err.suggestion();
    let shown_file: &str = file.as_str();
    let shown_source: &str = m.source.as_str();
    let shown_msg: &str = msg.as_str();
    let shown_note: Option<&str> = opt_str(&note);
    let shown_help: Option<&str> = opt_str(&help);
    let r: Option<String> = error_report(
        shown_file,
        shown_source,
        start,
        end,
        shown_msg,
        code,
        shown_note,
        shown_help,
        use_color,
    );
    assert(call_ensures(
        error_report,
        (
            shown_file,
            shown_source,
            start,
            end,
            shown_msg,
            code,
            shown_note,
            shown_help,
            use_color,
        ),
        r,
    ));
    r
}

/// The snippet report of an error, see [`report_shows`] and, without color,
/// [`rendered`]. `None` where there is no source to show or nothing to point at.
pub fn render(err: &NuError, map: Option<&SourceMap>, use_color: bool) -> (r: Option<String>)
    requires
        map_fits(map_view(map)),
    ensures
        report_shows(*err, map_view(map), use_color, text::opt_view(r)),
        !use_color ==> text::opt_view(r) == rendered(*err, map_view(map)),
        r is Some <==> rendered(*err, map_view(map)) is Some,
    decreases err,
{
    match err {
        NuError::Multiple(errors) => {
            let mut out: String = String::new();
            let mut i: usize = 0;
            assert(out@ =~= Seq::<char>::empty());
            while i < errors.len()
                invariant
                    map_fits(map_view(map)),
                    *err matches NuError::Multiple(v) && v == *errors,
                    i <= errors@.len(),
                    reports_show(errors@, i as nat, map_view(map), use_color, Some(out@)),
                    !use_color ==> rendered_all(errors@, i as nat, map_view(map)) == Some(out@),
                    rendered_all(errors@, i as nat, map_view(map)) is Some,
                decreases errors@.len() - i,
            {
                assert(decreases_to!(err => errors@[i as int]));
                let ghost before = out@;
                match render(&errors[i], map, use_color) {
                    Some(one) => {
                        assert(report_shows(
                            errors@[i as int],
                            map_view(map),
                            use_color,
                            Some(one@),
                        ));
                        out.append(one.as_str());
                        out.append("\n");
                        assert(out@ =~= before + one@ + "\n"@);
                        assert(one_more(Some(before), Some(one@)) == Some(out@));
                    },
                    None => {
                        proof {
                            assert(report_shows(
                                errors@[i as int],
                                map_view(map),
                                use_color,
                                None,
                            ));
                            assert(one_more(Some(before), None) is None);
                            assert(reports_show(
                                errors@,
                                (i + 1) as nat,
                                map_view(map),
                                use_color,
                                None,
                            ));
                            missing_report_stays(
                                errors@,
                                (i + 1) as nat,
                                errors@.len(),
                                map_view(map),
                                use_color,
                            );
                        }
                        return None;
                    },
                }
                i = i + 1;
            }
            Some(out)
        },
        _ => render_single(err, map, use_color),
    }
}

/// The snippet report of a warning without color; it takes a source that is not
/// empty.
pub open spec fn rendered_warning(w: NuWarning, map: Option<SourceView>) -> Option<Seq<char>> {
    match map {
        Some(m) => if m.chars.len() == 0 {
            None
        } else {
            let range = inside(w.span, m.bytes.len());
            Some(
                warning_snippet(
                    m.file,
                    m.chars,
                    range.0,
                    range.1,
                    w.msg@,
                    w.code@,
                    text::opt_view(w.help),
                ),
            )
        },
        None => None,
    }
}

/// Whether `shown` is what the report of a warning shows, in color or not.
pub open spec fn warning_shows(
    w: NuWarning,
    map: Option<SourceView>,
    color: bool,
    shown: Option<Seq<char>>,
) -> bool {
    match map {
        Some(m) => if m.chars.len() == 0 {
            shown is None
        } else {
            let range = inside(w.span, m.bytes.len());
            shown matches Some(t) && warning_drawn(
                m.file,
                m.chars,
                range.0,
                range.1,
                w.msg@,
                w.code@,
                text::opt_view(w.help),
                color,
                t,
            )
        },
        None => shown is None,
    }
}

/// The snippet report of a warning, see [`warning_shows`] and, without color,
/// [`rendered_warning`].
pub fn render_warning(warning: &NuWarning, map: Option<&SourceMap>, use_color: bool) -> (r: Option<
    String,
>)
    requires
        map_fits(map_view(map)),
    ensures
        warning_shows(*warning, map_view(map), use_color, text::opt_view(r)),
        !use_color ==> text::opt_view(r) == rendered_warning(*warning, map_view(map)),
        r is Some <==> rendered_warning(*warning, map_view(map)) is Some,
{
    let m: &SourceMap = match map {
        Some(m) => m,
        None => return None,
    };
    if m.source.as_str().unicode_len() == 0 {
        return None;
    }
    let file: String = m.file_name();
    let (start, end) = clamp(warning.span, m.source.as_str().as_bytes().len());
    let shown_file: &str = file.as_str();
    let shown_source: &str = m.source.as_str();
    let shown_msg: &str = warning.msg.as_str();
    let code: &str = warning.code.as_str();
    let shown_help: Option<&str> = opt_str(&warning.help);
    let r: Option<String> = warning_report(
        shown_file,
        shown_source,
        start,
        end,
        shown_msg,
        code,
        shown_help,
        use_color,
    );
    assert(call_ensures(
        warning_report,
        (shown_file, shown_source, start, end, shown_msg, code, shown_help, use_color),
        r,
    ));
    r
}

/// A warning for people: the snippet report, or the plain text where there is no
/// source.
pub fn format_warning(warning: &NuWarning, map: Option<&SourceMap>, use_color: bool) -> (r: String)
    requires
        map_fits(map_view(map)),
    ensures
        exists|shown: Option<Seq<char>>| #[trigger]
            warning_shows(*warning, map_view(map), use_color, shown) && r@ == (match shown {
                Some(t) => t,
                None => warning.plain_text(),
            }),
        !use_color ==> r@ == (match rendered_warning(*warning, map_view(map)) {
            Some(t) => t,
            None => warning.plain_text(),
        }),
{
    let report: Option<String> = render_warning(warning, map, use_color);
    assert(warning_shows(*warning, map_view(map), use_color, text::opt_view(report)));
    match report {
        Some(t) => t,
        None => warning.format_plain(),
    }
}

// ---------------------------------------------------------------------------
// Plain reports
// ---------------------------------------------------------------------------

/// Lines that begin with `lead`, each with a line end.
pub open spec fn led_lines(lead: Seq<char>, lines: Seq<Seq<char>>, n: nat) -> Seq<char>
    decreases n,
{
    if n == 0 || n > lines.len() {
        Seq::empty()
    } else {
        led_lines(lead, lines, (n - 1) as nat) + lead + lines[n - 1] + "\n"@
    }
}

/// The line that says where a span starts, where the source is known.
pub open spec fn place_line(span: Option<Span>, map: Option<SourceView>) -> Seq<char> {
    match (span, map) {
        (Some(s), Some(m)) => {
            let at = types::position_at(m.bytes, s.start as nat);
            "  --> "@ + m.file + ":"@ + text::dec(at.0) + ":"@ + text::dec(at.1) + "\n"@
        },
        _ => Seq::empty(),
    }
}

/// The headline of a plain report.
pub open spec fn headline(err: NuError) -> Seq<char> {
    match stable(err) {
        Some(code) => "error["@ + code + "]: "@ + message_of(err) + "\n"@,
        None => "error: "@ + message_of(err) + "\n"@,
    }
}

/// The help line of a plain report, if there is advice.
pub open spec fn help_line(err: NuError) -> Seq<char> {
    match err.spec_suggestion() {
        Some(h) => "  = help: "@ + h + "\n"@,
        None => Seq::empty(),
    }
}

/// The plain report of an error: headline, place, notes and help. The reports of
/// a list are joined by line ends; a suspension is only mentioned.
pub open spec fn plain(err: NuError, map: Option<SourceView>) -> Seq<char>
    decreases err, 0nat,
{
    match err {
        NuError::Multiple(errors) => text::joined(
            plain_all(errors@, errors@.len(), map),
            "\n"@,
        ),
        NuError::Suspended(kind) => "info: VM suspended ("@ + kind.spec_name() + ")"@,
        _ => headline(err) + place_line(span_of(err), map) + led_lines(
            "  = note: "@,
            notes_of(err),
            notes_of(err).len(),
        ) + help_line(err),
    }
}

/// The plain reports of the first `n` errors.
pub open spec fn plain_all(errors: Seq<NuError>, n: nat, map: Option<SourceView>) -> Seq<Seq<char>>
    decreases errors, n,
{
    if n == 0 || n > errors.len() {
        Seq::empty()
    } else {
        plain_all(errors, (n - 1) as nat, map).push(plain(errors[n - 1], map))
    }
}

fn push_place(out: &mut String, span: Span, m: &SourceMap)
    requires
        renderable(m@),
    ensures
        final(out)@ == old(out)@ + place_line(Some(span), Some(m@)),
{
    let ghost before = out@;
    let (line, col) = offset_line_col(m.source.as_str(), span.start);
    out.append("  --> ");
    out.append(m.file_name().as_str());
    out.append(":");
    push_dec(out, line as u64);
    out.append(":");
    push_dec(out, col as u64);
    out.append("\n");
    assert(out@ =~= before + place_line(Some(span), Some(m@)));
}

fn push_notes(out: &mut String, notes: &Vec<String>)
    ensures
        final(out)@ == old(out)@ + led_lines(
            "  = note: "@,
            text::views(notes@),
            notes@.len(),
        ),
{
    let ghost start = out@;
    let ghost lines = text::views(notes@);
    let mut i: usize = 0;
    assert(out@ =~= start + led_lines("  = note: "@, lines, 0));
    while i < notes.len()
        invariant
            lines == text::views(notes@),
            i <= notes@.len(),
            out@ == start + led_lines("  = note: "@, lines, i as nat),
        decreases notes@.len() - i,
    {
        out.append("  = note: ");
        out.append(notes[i].as_str());
        out.append("\n");
        i = i + 1;
        assert(out@ =~= start + led_lines("  = note: "@, lines, i as nat));
    }
}

fn plain_single(err: &NuError, map: Option<&SourceMap>) -> (r: String)
    requires
        map_fits(map_view(map)),
    ensures
        r@ == headline(*err) + place_line(span_of(*err), map_view(map)) + led_lines(
            "  = note: "@,
            notes_of(*err),
            notes_of(*err).len(),
        ) + help_line(*err),
{
    let msg: String = err.to_string_message();
    let mut out: String = match err.stable_code() {
        Some(code) => cat4("error[", code, "]: ", msg.as_str()),
        None => cat2("error: ", msg.as_str()),
    };
    out.append("\n");
    assert(out@ =~= headline(*err));
    match (err.primary_span(), map) {
        (Some(span), Some(m)) => {
            push_place(&mut out, span, m);
        },
        _ => {
            assert(out@ =~= headline(*err) + place_line(span_of(*err), map_view(map)));
        },
    }
    let notes: Vec<String> = diagnostic_notes(err);
    push_notes(&mut out, &notes);
    let ghost before = out@;
    match err.suggestion() {
        Some(h) => {
            out.append("  = help: ");
            out.append(h.as_str());
            out.append("\n");
        },
        None => {},
    }
    assert(out@ =~= before + help_line(*err));
    out
}

/// The plain report of an error, see [`plain`].
pub fn format_plain_diagnostic(err: &NuError, map: Option<&SourceMap>) -> (r: String)
    requires
        map_fits(map_view(map)),
    ensures
        r@ == plain(*err, map_view(map)),
    decreases err,
{
    match err {
        NuError::Multiple(errors) => {
            let mut parts: Vec<String> = Vec::new();
            let mut i: usize = 0;
            assert(text::views(parts@) =~= Seq::empty());
            while i < errors.len()
                invariant
                    map_fits(map_view(map)),
                    *err matches NuError::Multiple(v) && v == *errors,
                    i <= errors@.len(),
                    text::views(parts@) == plain_all(errors@, i as nat, map_view(map)),
                decreases errors@.len() - i,
            {
                let ghost before = text::views(parts@);
                assert(decreases_to!(err => errors@[i as int]));
                let one: String = format_plain_diagnostic(&errors[i], map);
                parts.push(one);
                i = i + 1;
                assert(text::views(parts@) =~= before.push(plain(errors@[i - 1], map_view(map))));
            }
            join(&parts, "\n")
        },
        NuError::Suspended(kind) => cat3(
            "info: VM suspended (",
            kind.to_string().as_str(),
            ")",
        ),
        _ => plain_single(err, map),
    }
}

/// An error for people: the snippet report where there is one, else the plain
/// report.
pub fn format_diagnostic(err: &NuError, map: Option<&SourceMap>, use_color: bool) -> (r: String)
    requires
        map_fits(map_view(map)),
    ensures
        exists|shown: Option<Seq<char>>| #[trigger]
            report_shows(*err, map_view(map), use_color, shown) && r@ == (match shown {
                Some(t) => t,
                None => plain(*err, map_view(map)),
            }),
        !use_color ==> r@ == (match rendered(*err, map_view(map)) {
            Some(t) => t,
            None => plain(*err, map_view(map)),
        }),
        rendered(*err, map_view(map)) is None ==> r@ == plain(*err, map_view(map)),
{
    let report: Option<String> = render(err, map, use_color);
    assert(report_shows(*err, map_view(map), use_color, text::opt_view(report)));
    match report {
        Some(t) => t,
        None => format_plain_diagnostic(err, map),
    }
}

/// The category that an error is announced with.
pub open spec fn category(err: NuError) -> Seq<char> {
    match err {
        NuError::LexError { .. } => "Lex error"@,
        NuError::ParseError { .. } => "Parse error"@,
        NuError::TypeError { .. } => "Type error"@,
        NuError::EffectError { .. } => "Effect error"@,
        NuError::CapError { .. } => "Capability error"@,
        NuError::FFIError { .. } => "FFI error"@,
        NuError::PythonError { .. } => "Python error"@,
        NuError::NotYetImplemented { .. } => "Not yet implemented"@,
        NuError::RuntimeError { .. } => "Runtime error"@,
        NuError::VMError { .. } => "VM error"@,
        NuError::PackageError { .. } => "Package error"@,
        NuError::Suspended(_) => "Suspended"@,
        NuError::Multiple(_) => "Multiple errors"@,
    }
}

/// An error in one line: category, place where the source is known, message.
pub open spec fn one_line(err: NuError, map: Option<SourceView>) -> Seq<char> {
    match (span_of(err), map) {
        (Some(s), Some(m)) => {
            let at = types::position_at(m.bytes, s.start as nat);
            category(err) + " at "@ + text::dec(at.0) + ":"@ + text::dec(at.1) + ": "@
                + message_of(err)
        },
        _ => category(err) + ": "@ + message_of(err),
    }
}

impl NuError {
    /// The error in one line, see [`one_line`].
    pub fn to_string(&self, map: Option<&SourceMap>) -> (r: String)
        requires
            map_fits(map_view(map)),
        ensures
            r@ == one_line(*self, map_view(map)),
    {
        let mut out: String = text(
            match self {
                NuError::LexError { .. } => "Lex error",
                NuError::ParseError { .. } => "Parse error",
                NuError::TypeError { .. } => "Type error",
                NuError::EffectError { .. } => "Effect error",
                NuError::CapError { .. } => "Capability error",
                NuError::FFIError { .. } => "FFI error",
                NuError::PythonError { .. } => "Python error",
                NuError::NotYetImplemented { .. } => "Not yet implemented",
                NuError::RuntimeError { .. } => "Runtime error",
                NuError::VMError { .. } => "VM error",
                NuError::PackageError { .. } => "Package error",
                NuError::Suspended(_) => "Suspended",
                NuError::Multiple(_) => "Multiple errors",
            },
        );
        match (self.primary_span(), map) {
            (Some(span), Some(m)) => {
                let (line, col) = offset_line_col(m.source.as_str(), span.start);
                out.append(" at ");
                push_dec(&mut out, line as u64);
                out.append(":");
                push_dec(&mut out, col as u64);
            },
            _ => {},
        }
        out.append(": ");
        out.append(self.to_string_message().as_str());
        out
    }
}

// ---------------------------------------------------------------------------
// Laws
// ---------------------------------------------------------------------------

/// Whether an error is a suspension or holds one.
pub open spec fn holds_suspension(err: NuError) -> bool
    decreases err, 0nat,
{
    match err {
        NuError::Suspended(_) => true,
        NuError::Multiple(errors) => any_suspension(errors@, errors@.len()),
        _ => false,
    }
}

/// Whether one of the first `n` errors is a suspension or holds one.
pub open spec fn any_suspension(errors: Seq<NuError>, n: nat) -> bool
    decreases errors, n,
{
    if n == 0 || n > errors.len() {
        false
    } else {
        any_suspension(errors, (n - 1) as nat) || holds_suspension(errors[n - 1])
    }
}

/// With a source at hand everything is rendered but what holds a suspension.
pub proof fn source_renders_all_errors(err: NuError, map: SourceView)
    requires
        map.chars.len() > 0,
    ensures
        rendered(err, Some(map)) is Some <==> !holds_suspension(err),
    decreases err, 0nat,
{
    match err {
        NuError::Multiple(errors) => {
            source_renders_lists(errors@, errors@.len(), map);
        },
        _ => {},
    }
}

proof fn source_renders_lists(errors: Seq<NuError>, n: nat, map: SourceView)
    requires
        map.chars.len() > 0,
        n <= errors.len(),
    ensures
        rendered_all(errors, n, Some(map)) is Some <==> !any_suspension(errors, n),
    decreases errors, n,
{
    if n > 0 {
        source_renders_lists(errors, (n - 1) as nat, map);
        source_renders_all_errors(errors[n - 1], map);
    }
}

/// An error has a stable code exactly where it has a span: all but suspensions
/// and lists.
pub proof fn code_goes_with_span(err: NuError)
    ensures
        stable(err) is Some <==> span_of(err) is Some,
        stable(err) is None <==> err is Suspended || err is Multiple,
{
}

/// An error at another place, with its message and details.
pub open spec fn moved(err: NuError, span: Span) -> NuError {
    match err {
        NuError::LexError { msg, .. } => NuError::LexError { msg, span },
        NuError::ParseError { msg, expected, found, .. } => NuError::ParseError {
            msg,
            span,
            expected,
            found,
        },
        NuError::TypeError { msg, expected_type, found_type, similar_names, .. } =>
            NuError::TypeError { msg, span, expected_type, found_type, similar_names },
        NuError::EffectError { msg, missing_effects, allowed_effects, .. } =>
            NuError::EffectError { msg, span, missing_effects, allowed_effects },
        NuError::CapError { msg, explanation, .. } => NuError::CapError { msg, span, explanation },
        NuError::FFIError { msg, .. } => NuError::FFIError { msg, span },
        NuError::PythonError { msg, .. } => NuError::PythonError { msg, span },
        NuError::NotYetImplemented { feature, .. } => NuError::NotYetImplemented { feature, span },
        NuError::RuntimeError { msg, .. } => NuError::RuntimeError { msg, span },
        NuError::VMError { msg, .. } => NuError::VMError { msg, span },
        NuError::PackageError { msg, .. } => NuError::PackageError { msg, span },
        _ => err,
    }
}

/// Moving an error moves its span and nothing else that is reported of it.
pub proof fn moving_an_error_moves_its_span(err: NuError, span: Span)
    ensures
        span_of(err) is Some ==> span_of(moved(err, span)) == Some(span),
        span_of(err) is None ==> moved(err, span) == err,
        message_of(moved(err, span)) == message_of(err),
        notes_of(moved(err, span)) == notes_of(err),
        stable(moved(err, span)) == stable(err),
        category(moved(err, span)) == category(err),
        moved(err, span).spec_suggestion() == err.spec_suggestion(),
{
}

/// The family of a code: what stands before its last two digits.
pub open spec fn family(code: Seq<char>) -> Seq<char> {
    code.take(3)
}

proof fn families()
    ensures
        forall|c: Seq<char>|
            c == "E0101"@ || c == "E0102"@ || c == "E0103"@ ==> #[trigger] family(c) == seq![
                'E',
                '0',
                '1',
            ],
        forall|c: Seq<char>|
            c == "E0200"@ || c == "E0201"@ || c == "E0202"@ || c == "E0203"@ || c == "E0204"@ || c
                == "E0205"@ || c == "E0206"@ || c == "E0208"@ ==> #[trigger] family(c) == seq![
                'E',
                '0',
                '2',
            ],
        forall|c: Seq<char>|
            c == "E0300"@ || c == "E0301"@ || c == "E0302"@ ==> #[trigger] family(c) == seq![
                'E',
                '0',
                '3',
            ],
        forall|c: Seq<char>|
            c == "E0400"@ || c == "E0401"@ || c == "E0402"@ ==> #[trigger] family(c) == seq![
                'E',
                '0',
                '4',
            ],
        forall|c: Seq<char>|
            c == "E0501"@ || c == "E0502"@ || c == "E0503"@ ==> #[trigger] family(c) == seq![
                'E',
                '0',
                '5',
            ],
        forall|c: Seq<char>|
            c == "E0601"@ || c == "E0602"@ ==> #[trigger] family(c) == seq!['E', '0', '6'],
        forall|c: Seq<char>|
            c == "E0901"@ || c == "E0902"@ ==> #[trigger] family(c) == seq!['E', '0', '9'],
{
    reveal_strlit("E0101");
    reveal_strlit("E0102");
    reveal_strlit("E0103");
    reveal_strlit("E0200");
    reveal_strlit("E0201");
    reveal_strlit("E0202");
    reveal_strlit("E0203");
    reveal_strlit("E0204");
    reveal_strlit("E0205");
    reveal_strlit("E0206");
    reveal_strlit("E0208");
    reveal_strlit("E0300");
    reveal_strlit("E0301");
    reveal_strlit("E0302");
    reveal_strlit("E0400");
    reveal_strlit("E0401");
    reveal_strlit("E0402");
    reveal_strlit("E0501");
    reveal_strlit("E0502");
    reveal_strlit("E0503");
    reveal_strlit("E0601");
    reveal_strlit("E0602");
    reveal_strlit("E0901");
    reveal_strlit("E0902");
}

/// The code of an error stands in the family of its kind: lexing and parsing,
/// types, effects, capabilities, running, foreign interfaces, and the rest.
pub proof fn codes_stand_in_their_family(err: NuError, code: Seq<char>)
    requires
        stable(err) == Some(code),
    ensures
        family(code) == seq![
            'E',
            '0',
            match err {
                NuError::LexError { .. } => '1',
                NuError::ParseError { .. } => '1',
                NuError::TypeError { .. } => '2',
                NuError::EffectError { .. } => '3',
                NuError::CapError { .. } => '4',
                NuError::RuntimeError { .. } => '5',
                NuError::VMError { .. } => '5',
                NuError::FFIError { .. } => '6',
                NuError::PythonError { .. } => '6',
                _ => '9',
            },
        ],
{
    families();
}

/// A reported range lies inside the text and is the given one where that does.
pub proof fn reported_ranges_lie_inside(span: Span, len: nat)
    ensures
        inside(span, len).0 <= inside(span, len).1 <= len,
        span.start <= span.end <= len ==> inside(span, len) == (span.start as nat, span.end as nat),
        span.start >= len ==> inside(span, len).0 == len,
{
}

proof fn occurs_within(a: Seq<char>, part: Seq<char>, b: Seq<char>)
    ensures
        text::occurs(a + part + b, part),
{
    let whole = a + part + b;
    assert(whole.subrange(a.len() as int, a.len() as int + part.len()) =~= part);
    assert(text::occurs_at(whole, part, a.len() as int));
}

proof fn occurs_beside(a: Seq<char>, hay: Seq<char>, b: Seq<char>, part: Seq<char>)
    requires
        text::occurs(hay, part),
    ensures
        text::occurs(a + hay + b, part),
{
    let at = choose|at: int| #[trigger] text::occurs_at(hay, part, at);
    let whole = a + hay + b;
    assert(whole.subrange(a.len() + at, a.len() + at + part.len()) =~= hay.subrange(
        at,
        at + part.len(),
    ));
    assert(text::occurs_at(whole, part, a.len() + at));
}

proof fn led_lines_hold_all(lead: Seq<char>, lines: Seq<Seq<char>>, n: nat, i: int)
    requires
        0 <= i < n <= lines.len(),
    ensures
        text::occurs(led_lines(lead, lines, n), lines[i]),
    decreases n,
{
    let before = led_lines(lead, lines, (n - 1) as nat);
    let all = led_lines(lead, lines, n);
    if i < n - 1 {
        led_lines_hold_all(lead, lines, (n - 1) as nat, i);
        let e = Seq::<char>::empty();
        let rest = lead + lines[n - 1] + "\n"@;
        occurs_beside(e, before, rest, lines[i]);
        assert(e + before + rest =~= all);
    } else {
        occurs_within(before + lead, lines[i], "\n"@);
    }
}

/// The plain report of an error holds its message, its code, its file, every note
/// and its advice.
pub proof fn plain_reports_hold_everything(err: NuError, map: Option<SourceView>, i: int)
    requires
        !(err is Multiple),
        !(err is Suspended),
    ensures
        text::occurs(plain(err, map), message_of(err)),
        stable(err) matches Some(code) ==> text::occurs(plain(err, map), code),
        span_of(err) is Some && map is Some ==> text::occurs(plain(err, map), (map->0).file),
        0 <= i < notes_of(err).len() ==> text::occurs(plain(err, map), notes_of(err)[i]),
        err.spec_suggestion() matches Some(h) ==> text::occurs(plain(err, map), h),
{
    let e = Seq::<char>::empty();
    let whole = plain(err, map);
    let head = headline(err);
    let place = place_line(span_of(err), map);
    let notes = led_lines("  = note: "@, notes_of(err), notes_of(err).len());
    let help = help_line(err);
    let m = message_of(err);
    match stable(err) {
        Some(code) => {
            occurs_within("error["@ + code + "]: "@, m, "\n"@);
            occurs_within("error["@, code, "]: "@ + m + "\n"@);
            assert("error["@ + code + ("]: "@ + m + "\n"@) =~= head);
            occurs_beside(e, head, place + notes + help, code);
        },
        None => {
            occurs_within("error: "@, m, "\n"@);
        },
    }
    occurs_beside(e, head, place + notes + help, m);
    assert(e + head + (place + notes + help) =~= whole);
    if let (Some(s), Some(v)) = (span_of(err), map) {
        let at = types::position_at(v.bytes, s.start as nat);
        let after = ":"@ + text::dec(at.0) + ":"@ + text::dec(at.1) + "\n"@;
        occurs_within("  --> "@, v.file, after);
        assert("  --> "@ + v.file + after =~= place);
        occurs_beside(head, place, notes + help, v.file);
        assert(head + place + (notes + help) =~= whole);
    }
    if 0 <= i < notes_of(err).len() {
        led_lines_hold_all("  = note: "@, notes_of(err), notes_of(err).len(), i);
        occurs_beside(head + place, notes, help, notes_of(err)[i]);
        assert(head + place + notes + help =~= whole);
    }
    if let Some(h) = err.spec_suggestion() {
        occurs_within("  = help: "@, h, "\n"@);
        occurs_beside(head + place + notes, help, e, h);
        assert(head + place + notes + help + e =~= whole);
    }
}

proof fn joined_holds_all(v: Seq<Seq<char>>, sep: Seq<char>, i: int)
    requires
        0 <= i < v.len(),
    ensures
        text::occurs(text::joined(v, sep), v[i]),
    decreases v.len(),
{
    let e = Seq::<char>::empty();
    let all = text::joined(v, sep);
    if v.len() == 1 {
        occurs_within(e, v[i], e);
        assert(e + v[i] + e =~= all);
    } else {
        let before = text::joined(v.drop_last(), sep);
        if i < v.len() - 1 {
            joined_holds_all(v.drop_last(), sep, i);
            occurs_beside(e, before, sep + v.last(), v[i]);
            assert(e + before + (sep + v.last()) =~= all);
        } else {
            occurs_within(before + sep, v[i], e);
            assert(before + sep + v[i] + e =~= all);
        }
    }
}

proof fn plain_all_is_in_order(errors: Seq<NuError>, n: nat, map: Option<SourceView>, i: int)
    requires
        0 <= i < n <= errors.len(),
    ensures
        plain_all(errors, n, map).len() == n,
        plain_all(errors, n, map)[i] == plain(errors[i], map),
    decreases n,
{
    reveal_with_fuel(plain_all, 2);
    if n > 1 {
        if i < n - 1 {
            plain_all_is_in_order(errors, (n - 1) as nat, map, i);
        } else {
            plain_all_is_in_order(errors, (n - 1) as nat, map, 0);
        }
    }
}

/// The plain report of several errors holds that of each.
pub proof fn every_error_is_reported(errors: Vec<NuError>, map: Option<SourceView>, i: int)
    requires
        0 <= i < errors@.len(),
    ensures
        text::occurs(plain(NuError::Multiple(errors), map), plain(errors@[i], map)),
{
    let all = plain_all(errors@, errors@.len(), map);
    plain_all_is_in_order(errors@, errors@.len(), map, i);
    joined_holds_all(all, "\n"@, i);
}

/// Errors of different kinds are announced differently.
pub proof fn kinds_are_announced_differently(a: NuError, b: NuError)
    requires
        category(a) == category(b),
    ensures
        a is LexError <==> b is LexError,
        a is ParseError <==> b is ParseError,
        a is TypeError <==> b is TypeError,
        a is EffectError <==> b is EffectError,
        a is CapError <==> b is CapError,
        a is FFIError <==> b is FFIError,
        a is PythonError <==> b is PythonError,
        a is NotYetImplemented <==> b is NotYetImplemented,
        a is RuntimeError <==> b is RuntimeError,
        a is VMError <==> b is VMError,
        a is PackageError <==> b is PackageError,
        a is Suspended <==> b is Suspended,
        a is Multiple <==> b is Multiple,
{
    reveal_strlit("Lex error");
    reveal_strlit("Parse error");
    reveal_strlit("Type error");
    reveal_strlit("Effect error");
    reveal_strlit("Capability error");
    reveal_strlit("FFI error");
    reveal_strlit("Python error");
    reveal_strlit("Not yet implemented");
    reveal_strlit("Runtime error");
    reveal_strlit("VM error");
    reveal_strlit("Package error");
    reveal_strlit("Suspended");
    reveal_strlit("Multiple errors");
    let (x, y) = (category(a), category(b));
    assert(x.len() == y.len() && x[0] == y[0] && x[1] == y[1]);
}

/// The line of an error begins with its kind and ends with its message.
pub proof fn lines_tell_kind_and_message(err: NuError, map: Option<SourceView>)
    ensures
        text::begins_with(one_line(err, map), category(err)),
        ({
            let line = one_line(err, map);
            let m = message_of(err);
            line.len() > m.len() && line.skip(line.len() - m.len()) == m
        }),
{
    let line = one_line(err, map);
    let m = message_of(err);
    assert(line.subrange(0, category(err).len() as int) =~= category(err));
    reveal_strlit(": ");
    assert(line.skip(line.len() - m.len()) =~= m);
}

/// What an error says of what was expected and found is noted under its own
/// label.
pub proof fn expectations_are_noted(
    msg: String,
    span: Span,
    wanted: String,
    seen: String,
    names: Option<Vec<String>>,
)
    ensures
        notes_of(
            NuError::ParseError { msg, span, expected: Some(wanted), found: Some(seen) },
        ) == seq!["expected: "@ + wanted@, "found: "@ + seen@],
        ({
            let notes = notes_of(
                NuError::TypeError {
                    msg,
                    span,
                    expected_type: Some(wanted),
                    found_type: Some(seen),
                    similar_names: names,
                },
            );
            &&& notes[0] == "expected type: "@ + wanted@
            &&& notes[1] == "found type: "@ + seen@
            &&& notes.len() == 3 <==> names is Some && (names->0)@.len() > 0
        }),
{
    assert(notes_of(
        NuError::ParseError { msg, span, expected: Some(wanted), found: Some(seen) },
    ) =~= seq!["expected: "@ + wanted@, "found: "@ + seen@]);
}

} // verus!
