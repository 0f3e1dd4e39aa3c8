//! Machine-readable source queries for editors and other tools: the symbols that
//! a module declares, with their signatures and places.
//!
//! The command line is `symbols <file> [--name <substring>] [--json]` or
//! `symbol <name> <file> [--json]`.

use vstd::prelude::*;
use vstd::utf8::*;

use crate::ast::{Decl, ForeignFunction, Param};
use crate::text::{self, cat2, cat3, cat4, cat5, clone_opt, join, push_dec, str_eq, text, text_contains, text_starts_with};
use crate::types::{self, offset_line_col, NuError, NuResult, Span};

verus! {

pub const QUERY_SCHEMA_VERSION: u32 = 1;

/// The place of a symbol: byte offsets, and lines and columns counted from one.
#[derive(Debug, Clone, PartialEq, Eq)]
pub struct QuerySpan {
    pub file: String,
    pub start_byte: u32,
    pub end_byte: u32,
    pub line: usize,
    pub col: usize,
    pub end_line: usize,
    pub end_col: usize,
}

/// The content of a [`QuerySpan`].
#[verifier::ext_equal]
pub struct SpanView {
    pub file: Seq<char>,
    pub start: nat,
    pub end: nat,
    pub from: (nat, nat),
    pub to: (nat, nat),
}

impl View for QuerySpan {
    type V = SpanView;

    open spec fn view(&self) -> SpanView {
        SpanView {
            file: self.file@,
            start: self.start_byte as nat,
            end: self.end_byte as nat,
            from: (self.line as nat, self.col as nat),
            to: (self.end_line as nat, self.end_col as nat),
        }
    }
}

/// A declared symbol.
#[derive(Debug, Clone, PartialEq, Eq)]
pub struct QuerySymbol {
    pub name: String,
    pub qualified_name: String,
    pub kind: String,
    pub public: Option<bool>,
    pub signature: Option<String>,
    pub effects: Option<String>,
    pub capability: Option<String>,
    pub span: QuerySpan,
}

/// The content of a [`QuerySymbol`].
#[verifier::ext_equal]
pub struct SymbolView {
    pub name: Seq<char>,
    pub qualified_name: Seq<char>,
    pub kind: Seq<char>,
    pub public: Option<bool>,
    pub signature: Option<Seq<char>>,
    pub effects: Option<Seq<char>>,
    pub capability: Option<Seq<char>>,
    pub span: SpanView,
}

impl View for QuerySymbol {
    type V = SymbolView;

    open spec fn view(&self) -> SymbolView {
        SymbolView {
            name: self.name@,
            qualified_name: self.qualified_name@,
            kind: self.kind@,
            public: self.public,
            signature: text::opt_view(self.signature),
            effects: text::opt_view(self.effects),
            capability: text::opt_view(self.capability),
            span: self.span@,
        }
    }
}

/// The contents of a list of symbols.
pub open spec fn symbol_views(v: Seq<QuerySymbol>) -> Seq<SymbolView> {
    v.map_values(|s: QuerySymbol| s@)
}

/// The answer to a query.
#[derive(Debug, Clone, PartialEq, Eq)]
pub struct QueryReport {
    pub schema_version: u32,
    pub command: String,
    pub file: String,
    pub ok: bool,
    pub symbols: Vec<QuerySymbol>,
}

/// The name of a declaration inside the scope `prefix`.
pub open spec fn qualified(prefix: Seq<char>, name: Seq<char>) -> Seq<char> {
    if prefix.len() == 0 {
        name
    } else {
        prefix + "::"@ + name
    }
}

/// The name of a declaration inside the scope `prefix`, see [`qualified`].
pub fn qualify(prefix: &str, name: &str) -> (r: String)
    ensures
        r@ == qualified(prefix@, name@),
{
    if prefix.unicode_len() == 0 {
        text(name)
    } else {
        cat3(prefix, "::", name)
    }
}

/// A parameter as it is shown: `name: cap type`, with `_` for a type that is
/// left out.
pub open spec fn param_text(p: Param) -> Seq<char> {
    let ty = match p.ty {
        Some(t) => t@,
        None => "_"@,
    };
    match p.cap {
        Some(c) => p.name@ + ": "@ + c@ + " "@ + ty,
        None => p.name@ + ": "@ + ty,
    }
}

/// A parameter as it is shown, see [`param_text`].
pub fn format_param(param: &Param) -> (r: String)
    ensures
        r@ == param_text(*param),
{
    let ty: String = match &param.ty {
        Some(t) => text(t.as_str()),
        None => text("_"),
    };
    match &param.cap {
        Some(c) => cat5(param.name.as_str(), ": ", c.as_str(), " ", ty.as_str()),
        None => cat3(param.name.as_str(), ": ", ty.as_str()),
    }
}

/// The bytes that a span covers in a text of `len` bytes, of which 32 bits
/// count.
pub open spec fn clamped(span: Span, len: nat) -> (nat, nat) {
    let cut = len % 0x1_0000_0000;
    let start = if span.start < cut {
        span.start as nat
    } else {
        cut
    };
    let end = if span.end < cut {
        span.end as nat
    } else {
        cut
    };
    (start, if end < start {
        start
    } else {
        end
    })
}

/// The place of a span in a file.
pub open spec fn placed(span: Span, file: Seq<char>, source: Seq<char>) -> SpanView {
    let bytes = encode_utf8(source);
    let range = clamped(span, bytes.len());
    SpanView {
        file,
        start: range.0,
        end: range.1,
        from: types::position_at(bytes, range.0),
        to: types::position_at(bytes, range.1),
    }
}

/// The place of a span in a file, see [`placed`].
pub fn query_span(span: Span, file: &str, source: &str) -> (r: QuerySpan)
    requires
        encode_utf8(source@).len() < usize::MAX,
    ensures
        r@ == placed(span, file@, source@),
{
    let full: u64 = source.as_bytes().len() as u64;
    let len: u32 = (full % 0x1_0000_0000) as u32;
    let start: u32 = if span.start < len {
        span.start
    } else {
        len
    };
    let cut: u32 = if span.end < len {
        span.end
    } else {
        len
    };
    let end: u32 = if cut < start {
        start
    } else {
        cut
    };
    let (line, col) = offset_line_col(source, start);
    let (end_line, end_col) = offset_line_col(source, end);
    QuerySpan {
        file: text(file),
        start_byte: start,
        end_byte: end,
        line,
        col,
        end_line,
        end_col,
    }
}

/// What a declaration shows of itself.
#[verifier::ext_equal]
pub struct EntryView {
    pub name: Seq<char>,
    pub kind: Seq<char>,
    pub public: Option<bool>,
    pub signature: Seq<char>,
    pub effects: Option<Seq<char>>,
    pub capability: Option<Seq<char>>,
    pub span: Span,
}

/// An entry with only a name, a kind and a signature.
pub open spec fn plain_entry(
    name: Seq<char>,
    kind: Seq<char>,
    signature: Seq<char>,
    span: Span,
) -> EntryView {
    EntryView { name, kind, public: None, signature, effects: None, capability: None, span }
}

/// An entry of a type, which is public or not.
pub open spec fn type_entry(
    name: Seq<char>,
    kind: Seq<char>,
    public: bool,
    signature: Seq<char>,
    span: Span,
) -> EntryView {
    EntryView {
        name,
        kind,
        public: Some(public),
        signature,
        effects: None,
        capability: None,
        span,
    }
}

/// The type parameters as they are shown behind a name.
pub open spec fn generic_text(type_params: Seq<String>) -> Seq<char> {
    if type_params.len() == 0 {
        Seq::empty()
    } else {
        "["@ + text::joined(text::views(type_params), ", "@) + "]"@
    }
}

/// The parameters of a function, the contextual ones last and marked `using`.
pub open spec fn param_texts(params: Seq<Param>, using_params: Seq<Param>) -> Seq<Seq<char>> {
    params.map_values(|p: Param| param_text(p)) + using_params.map_values(
        |p: Param| "using "@ + param_text(p),
    )
}

/// Names with their types.
pub open spec fn field_texts(fields: Seq<(String, String)>) -> Seq<Seq<char>> {
    fields.map_values(|f: (String, String)| f.0@ + ": "@ + f.1@)
}

/// A variant with its payload, if it has one.
pub open spec fn variant_text(v: (String, Option<String>)) -> Seq<char> {
    match v.1 {
        Some(t) => v.0@ + "("@ + t@ + ")"@,
        None => v.0@,
    }
}

/// The signature of a function.
pub open spec fn function_text(
    name: Seq<char>,
    type_params: Seq<String>,
    params: Seq<Seq<char>>,
    ret: Option<Seq<char>>,
    error: Option<Seq<char>>,
) -> Seq<char> {
    let head = "fn "@ + name + generic_text(type_params) + "("@ + text::joined(params, ", "@)
        + ") -> "@ + match ret {
        Some(t) => t,
        None => "_"@,
    };
    match error {
        Some(e) => head + " ! "@ + e,
        None => head,
    }
}

/// What a declaration shows of itself; foreign functions, imports and
/// implementations show nothing as a whole.
pub open spec fn entry_of(decl: Decl) -> Option<EntryView> {
    match decl {
        Decl::Function {
            name,
            type_params,
            params,
            using_params,
            ret_type,
            error_type,
            effect,
            cap,
            public,
            span,
            ..
        } => Some(
            EntryView {
                name: name@,
                kind: "function"@,
                public: Some(public),
                signature: function_text(
                    name@,
                    type_params@,
                    param_texts(params@, using_params@),
                    text::opt_view(ret_type),
                    text::opt_view(error_type),
                ),
                effects: text::opt_view(effect),
                capability: text::opt_view(cap),
                span,
            },
        ),
        Decl::Actor { name, type_params, persistent, span, .. } => Some(
            plain_entry(
                name@,
                "actor"@,
                (if persistent {
                    "persistent actor"@
                } else {
                    "actor"@
                }) + " "@ + name@ + generic_text(type_params@),
                span,
            ),
        ),
        Decl::StateMachine { name, span } => Some(
            plain_entry(name@, "state_machine"@, "state_machine "@ + name@, span),
        ),
        Decl::TypeAlias { name, type_params, body, opaque, public, span } => Some(
            type_entry(
                name@,
                "type_alias"@,
                public,
                (if opaque {
                    "opaque type"@
                } else {
                    "type"@
                }) + " "@ + name@ + generic_text(type_params@) + " = "@ + body@,
                span,
            ),
        ),
        Decl::RecordType { name, type_params, fields, public, span } => Some(
            type_entry(
                name@,
                "record_type"@,
                public,
                "type "@ + name@ + generic_text(type_params@) + " = { "@ + text::joined(
                    field_texts(fields@),
                    ", "@,
                ) + " }"@,
                span,
            ),
        ),
        Decl::VariantType { name, type_params, variants, public, span } => Some(
            type_entry(
                name@,
                "variant_type"@,
                public,
                "type "@ + name@ + generic_text(type_params@) + " = "@ + text::joined(
                    variants@.map_values(|v: (String, Option<String>)| variant_text(v)),
                    " | "@,
                ),
                span,
            ),
        ),
        Decl::EffectDecl { name, span } => Some(
            plain_entry(name@, "effect"@, "effect "@ + name@, span),
        ),
        Decl::Module { name, span, .. } => Some(
            plain_entry(name@, "module"@, "module "@ + name@, span),
        ),
        Decl::Workflow { name, span, .. } => Some(
            plain_entry(name@, "workflow"@, "workflow "@ + name@, span),
        ),
        Decl::Agent { name, model, span } => Some(
            plain_entry(name@, "agent"@, "agent "@ + name@ + " model="@ + model@, span),
        ),
        Decl::Database { name, span } => Some(
            plain_entry(name@, "database"@, "database "@ + name@, span),
        ),
        Decl::CrdtDecl { name, span } => Some(plain_entry(name@, "crdt"@, "crdt "@ + name@, span)),
        Decl::NamedHandler { name, span } => Some(
            plain_entry(name@, "handler"@, "handler "@ + name@, span),
        ),
        Decl::Class { name, type_params, span } => Some(
            plain_entry(
                name@,
                "class"@,
                "class "@ + name@ + generic_text(type_params@),
                span,
            ),
        ),
        Decl::LetBinding { name, type_ann, mutable, span } => Some(
            plain_entry(
                name@,
                "binding"@,
                (if mutable {
                    "var "@
                } else {
                    "let "@
                }) + name@ + typed(type_ann),
                span,
            ),
        ),
        Decl::Signal { name, ty, span } => Some(
            plain_entry(name@, "signal"@, "signal "@ + name@ + ": "@ + ty@, span),
        ),
        Decl::Given { name, ty, span } => Some(
            plain_entry(name@, "given"@, "given "@ + name@ + typed(ty), span),
        ),
        Decl::Foreign { .. } => None,
        Decl::Import { .. } => None,
        Decl::Impl => None,
    }
}

/// An optional type behind a name.
pub open spec fn typed(ty: Option<String>) -> Seq<char> {
    match ty {
        Some(t) => ": "@ + t@,
        None => Seq::empty(),
    }
}

/// What a foreign function shows of itself.
pub open spec fn foreign_entry(f: ForeignFunction) -> EntryView {
    plain_entry(
        f.name@,
        "extern_function"@,
        "extern fn "@ + f.name@ + "("@ + text::joined(field_texts(f.params@), ", "@) + ") -> "@
            + f.ret@,
        f.span,
    )
}

/// The symbol of an entry in a scope of a file.
pub open spec fn symbol_of(
    e: EntryView,
    prefix: Seq<char>,
    file: Seq<char>,
    source: Seq<char>,
) -> SymbolView {
    SymbolView {
        name: e.name,
        qualified_name: qualified(prefix, e.name),
        kind: e.kind,
        public: e.public,
        signature: Some(e.signature),
        effects: e.effects,
        capability: e.capability,
        span: placed(e.span, file, source),
    }
}

/// The symbols of the first `n` declarations in order; a module is followed by
/// what it declares, under its own name.
pub open spec fn declared(
    decls: Seq<Decl>,
    n: nat,
    prefix: Seq<char>,
    file: Seq<char>,
    source: Seq<char>,
) -> Seq<SymbolView>
    decreases decls, n,
{
    if n == 0 || n > decls.len() {
        Seq::empty()
    } else {
        let own = match entry_of(decls[n - 1]) {
            Some(e) => seq![symbol_of(e, prefix, file, source)],
            None => Seq::empty(),
        };
        let inner = match decls[n - 1] {
            Decl::Module { name, decls: nested, .. } => declared(
                nested@,
                nested@.len(),
                qualified(prefix, name@),
                file,
                source,
            ),
            Decl::Foreign { funcs } => foreign_symbols(funcs@, prefix, file, source),
            _ => Seq::empty(),
        };
        declared(decls, (n - 1) as nat, prefix, file, source) + own + inner
    }
}

/// The symbols of foreign functions.
pub open spec fn foreign_symbols(
    funcs: Seq<ForeignFunction>,
    prefix: Seq<char>,
    file: Seq<char>,
    source: Seq<char>,
) -> Seq<SymbolView> {
    funcs.map_values(|f: ForeignFunction| symbol_of(foreign_entry(f), prefix, file, source))
}

struct Entry {
    name: String,
    kind: String,
    public: Option<bool>,
    signature: String,
    effects: Option<String>,
    capability: Option<String>,
    span: Span,
}

impl View for Entry {
    type V = EntryView;

    closed spec fn view(&self) -> EntryView {
        EntryView {
            name: self.name@,
            kind: self.kind@,
            public: self.public,
            signature: self.signature@,
            effects: text::opt_view(self.effects),
            capability: text::opt_view(self.capability),
            span: self.span,
        }
    }
}

fn entry_plain(name: &str, kind: &str, signature: String, span: Span) -> (r: Entry)
    ensures
        r@ == plain_entry(name@, kind@, signature@, span),
{
    Entry {
        name: text(name),
        kind: text(kind),
        public: None,
        signature,
        effects: None,
        capability: None,
        span,
    }
}

fn entry_type(name: &str, kind: &str, public: bool, signature: String, span: Span) -> (r: Entry)
    ensures
        r@ == type_entry(name@, kind@, public, signature@, span),
{
    Entry {
        name: text(name),
        kind: text(kind),
        public: Some(public),
        signature,
        effects: None,
        capability: None,
        span,
    }
}

fn generic(type_params: &Vec<String>) -> (r: String)
    ensures
        r@ == generic_text(type_params@),
{
    if type_params.len() == 0 {
        let r: String = String::new();
        assert(r@ =~= Seq::<char>::empty());
        r
    } else {
        cat3("[", join(type_params, ", ").as_str(), "]")
    }
}

fn typed_suffix(ty: &Option<String>) -> (r: String)
    ensures
        r@ == typed(*ty),
{
    match ty {
        Some(t) => cat2(": ", t.as_str()),
        None => {
            let r: String = String::new();
            assert(r@ =~= Seq::<char>::empty());
            r
        },
    }
}

fn all_params(params: &Vec<Param>, using_params: &Vec<Param>) -> (r: Vec<String>)
    ensures
        text::views(r@) == param_texts(params@, using_params@),
{
    let ghost want = param_texts(params@, using_params@);
    let mut out: Vec<String> = Vec::new();
    let mut i: usize = 0;
    while i < params.len()
        invariant
            want == param_texts(params@, using_params@),
            i <= params@.len(),
            text::views(out@) == want.take(i as int),
        decreases params@.len() - i,
    {
        let ghost before = text::views(out@);
        out.push(format_param(&params[i]));
        i = i + 1;
        assert(text::views(out@) =~= before.push(want[i - 1]));
        assert(text::views(out@) =~= want.take(i as int));
    }
    let mut j: usize = 0;
    while j < using_params.len()
        invariant
            want == param_texts(params@, using_params@),
            j <= using_params@.len(),
            text::views(out@) == want.take(params@.len() + j),
        decreases using_params@.len() - j,
    {
        let ghost before = text::views(out@);
        out.push(cat2("using ", format_param(&using_params[j]).as_str()));
        j = j + 1;
        assert(text::views(out@) =~= before.push(want[params@.len() + j - 1]));
        assert(text::views(out@) =~= want.take(params@.len() + j));
    }
    assert(want.take((params@.len() + using_params@.len()) as int) =~= want);
    out
}

fn fields_joined(fields: &Vec<(String, String)>) -> (r: String)
    ensures
        r@ == text::joined(field_texts(fields@), ", "@),
{
    let ghost want = field_texts(fields@);
    let mut out: Vec<String> = Vec::new();
    let mut i: usize = 0;
    while i < fields.len()
        invariant
            want == field_texts(fields@),
            i <= fields@.len(),
            text::views(out@) == want.take(i as int),
        decreases fields@.len() - i,
    {
        let ghost before = text::views(out@);
        out.push(cat3(fields[i].0.as_str(), ": ", fields[i].1.as_str()));
        i = i + 1;
        assert(text::views(out@) =~= before.push(want[i - 1]));
        assert(text::views(out@) =~= want.take(i as int));
    }
    assert(want.take(fields@.len() as int) =~= want);
    join(&out, ", ")
}

fn variants_joined(variants: &Vec<(String, Option<String>)>) -> (r: String)
    ensures
        r@ == text::joined(
            variants@.map_values(|v: (String, Option<String>)| variant_text(v)),
            " | "@,
        ),
{
    let ghost want = variants@.map_values(|v: (String, Option<String>)| variant_text(v));
    let mut out: Vec<String> = Vec::new();
    let mut i: usize = 0;
    while i < variants.len()
        invariant
            want == variants@.map_values(|v: (String, Option<String>)| variant_text(v)),
            i <= variants@.len(),
            text::views(out@) == want.take(i as int),
        decreases variants@.len() - i,
    {
        let ghost before = text::views(out@);
        let one: String = match &variants[i].1 {
            Some(t) => cat4(variants[i].0.as_str(), "(", t.as_str(), ")"),
            None => text(variants[i].0.as_str()),
        };
        out.push(one);
        i = i + 1;
        assert(text::views(out@) =~= before.push(want[i - 1]));
        assert(text::views(out@) =~= want.take(i as int));
    }
    assert(want.take(variants@.len() as int) =~= want);
    join(&out, " | ")
}

fn function_signature(
    name: &str,
    type_params: &Vec<String>,
    params: &Vec<String>,
    ret: &Option<String>,
    error: &Option<String>,
) -> (r: String)
    ensures
        r@ == function_text(
            name@,
            type_params@,
            text::views(params@),
            text::opt_view(*ret),
            text::opt_view(*error),
        ),
{
    let mut out: String = cat2("fn ", name);
    out.append(generic(type_params).as_str());
    out.append("(");
    out.append(join(params, ", ").as_str());
    out.append(") -> ");
    match ret {
        Some(t) => out.append(t.as_str()),
        None => out.append("_"),
    }
    match error {
        Some(e) => {
            out.append(" ! ");
            out.append(e.as_str());
        },
        None => {},
    }
    out
}

fn describe(decl: &Decl) -> (r: Option<Entry>)
    ensures
        r is Some <==> entry_of(*decl) is Some,
        r matches Some(e) ==> entry_of(*decl) == Some(e@),
{
    match decl {
        Decl::Function {
            name,
            type_params,
            params,
            using_params,
            ret_type,
            error_type,
            effect,
            cap,
            public,
            span,
            ..
        } => {
            let all: Vec<String> = all_params(params, using_params);
            Some(
                Entry {
                    name: text(name.as_str()),
                    kind: text("function"),
                    public: Some(*public),
                    signature: function_signature(
                        name.as_str(),
                        type_params,
                        &all,
                        ret_type,
                        error_type,
                    ),
                    effects: clone_opt(effect),
                    capability: clone_opt(cap),
                    span: *span,
                },
            )
        },
        Decl::Actor { name, type_params, persistent, span, .. } => {
            let head: &str = if *persistent {
                "persistent actor"
            } else {
                "actor"
            };
            let sig: String = cat4(head, " ", name.as_str(), generic(type_params).as_str());
            Some(entry_plain(name.as_str(), "actor", sig, *span))
        },
        Decl::StateMachine { name, span } => Some(
            entry_plain(name.as_str(), "state_machine", cat2("state_machine ", name.as_str()), *span),
        ),
        Decl::TypeAlias { name, type_params, body, opaque, public, span } => {
            let head: &str = if *opaque {
                "opaque type"
            } else {
                "type"
            };
            let mut sig: String = cat4(head, " ", name.as_str(), generic(type_params).as_str());
            sig.append(" = ");
            sig.append(body.as_str());
            Some(entry_type(name.as_str(), "type_alias", *public, sig, *span))
        },
        Decl::RecordType { name, type_params, fields, public, span } => {
            let mut sig: String = cat3("type ", name.as_str(), generic(type_params).as_str());
            sig.append(" = { ");
            sig.append(fields_joined(fields).as_str());
            sig.append(" }");
            Some(entry_type(name.as_str(), "record_type", *public, sig, *span))
        },
        Decl::VariantType { name, type_params, variants, public, span } => {
            let mut sig: String = cat3("type ", name.as_str(), generic(type_params).as_str());
            sig.append(" = ");
            sig.append(variants_joined(variants).as_str());
            Some(entry_type(name.as_str(), "variant_type", *public, sig, *span))
        },
        Decl::EffectDecl { name, span } => Some(
            entry_plain(name.as_str(), "effect", cat2("effect ", name.as_str()), *span),
        ),
        Decl::Module { name, span, .. } => Some(
            entry_plain(name.as_str(), "module", cat2("module ", name.as_str()), *span),
        ),
        Decl::Workflow { name, span, .. } => Some(
            entry_plain(name.as_str(), "workflow", cat2("workflow ", name.as_str()), *span),
        ),
        Decl::Agent { name, model, span } => Some(
            entry_plain(
                name.as_str(),
                "agent",
                cat4("agent ", name.as_str(), " model=", model.as_str()),
                *span,
            ),
        ),
        Decl::Database { name, span } => Some(
            entry_plain(name.as_str(), "database", cat2("database ", name.as_str()), *span),
        ),
        Decl::CrdtDecl { name, span } => Some(
            entry_plain(name.as_str(), "crdt", cat2("crdt ", name.as_str()), *span),
        ),
        Decl::NamedHandler { name, span } => Some(
            entry_plain(name.as_str(), "handler", cat2("handler ", name.as_str()), *span),
        ),
        Decl::Class { name, type_params, span } => Some(
            entry_plain(
                name.as_str(),
                "class",
                cat3("class ", name.as_str(), generic(type_params).as_str()),
                *span,
            ),
        ),
        Decl::LetBinding { name, type_ann, mutable, span } => {
            let head: &str = if *mutable {
                "var "
            } else {
                "let "
            };
            Some(
                entry_plain(
                    name.as_str(),
                    "binding",
                    cat3(head, name.as_str(), typed_suffix(type_ann).as_str()),
                    *span,
                ),
            )
        },
        Decl::Signal { name, ty, span } => Some(
            entry_plain(
                name.as_str(),
                "signal",
                cat4("signal ", name.as_str(), ": ", ty.as_str()),
                *span,
            ),
        ),
        Decl::Given { name, ty, span } => Some(
            entry_plain(
                name.as_str(),
                "given",
                cat3("given ", name.as_str(), typed_suffix(ty).as_str()),
                *span,
            ),
        ),
        Decl::Foreign { .. } => None,
        Decl::Import { .. } => None,
        Decl::Impl => None,
    }
}

fn symbol(entry: Entry, prefix: &str, file: &str, source: &str) -> (r: QuerySymbol)
    requires
        encode_utf8(source@).len() < usize::MAX,
    ensures
        r@ == symbol_of(entry@, prefix@, file@, source@),
{
    QuerySymbol {
        qualified_name: qualify(prefix, entry.name.as_str()),
        span: query_span(entry.span, file, source),
        name: entry.name,
        kind: entry.kind,
        public: entry.public,
        signature: Some(entry.signature),
        effects: entry.effects,
        capability: entry.capability,
    }
}

fn collect_foreign(
    funcs: &Vec<ForeignFunction>,
    prefix: &str,
    file: &str,
    source: &str,
    out: &mut Vec<QuerySymbol>,
)
    requires
        encode_utf8(source@).len() < usize::MAX,
    ensures
        symbol_views(final(out)@) == symbol_views(old(out)@) + foreign_symbols(
            funcs@,
            prefix@,
            file@,
            source@,
        ),
{
    let ghost want = foreign_symbols(funcs@, prefix@, file@, source@);
    let ghost start = symbol_views(out@);
    let mut i: usize = 0;
    proof {
        assert(start + want.take(0) =~= start);
    }
    while i < funcs.len()
        invariant
            encode_utf8(source@).len() < usize::MAX,
            want == foreign_symbols(funcs@, prefix@, file@, source@),
            i <= funcs@.len(),
            symbol_views(out@) == start + want.take(i as int),
        decreases funcs@.len() - i,
    {
        let ghost before = symbol_views(out@);
        let f: &ForeignFunction = &funcs[i];
        let mut sig: String = cat3("extern fn ", f.name.as_str(), "(");
        sig.append(fields_joined(&f.params).as_str());
        sig.append(") -> ");
        sig.append(f.ret.as_str());
        let e: Entry = entry_plain(f.name.as_str(), "extern_function", sig, f.span);
        out.push(symbol(e, prefix, file, source));
        i = i + 1;
        assert(symbol_views(out@) =~= before.push(want[i - 1]));
        assert(symbol_views(out@) =~= start + want.take(i as int));
    }
    assert(want.take(funcs@.len() as int) =~= want);
}

/// Appends the symbols of `decls` in the scope `prefix`, see [`declared`].
pub fn collect_decls(
    decls: &Vec<Decl>,
    prefix: &str,
    file: &str,
    source: &str,
    out: &mut Vec<QuerySymbol>,
)
    requires
        encode_utf8(source@).len() < usize::MAX,
    ensures
        symbol_views(final(out)@) == symbol_views(old(out)@) + declared(
            decls@,
            decls@.len(),
            prefix@,
            file@,
            source@,
        ),
    decreases decls,
{
    let ghost start = symbol_views(out@);
    let mut i: usize = 0;
    assert(start + declared(decls@, 0, prefix@, file@, source@) =~= start);
    while i < decls.len()
        invariant
            encode_utf8(source@).len() < usize::MAX,
            i <= decls@.len(),
            symbol_views(out@) == start + declared(decls@, i as nat, prefix@, file@, source@),
        decreases decls@.len() - i,
    {
        let ghost before = symbol_views(out@);
        let ghost done = declared(decls@, i as nat, prefix@, file@, source@);
        let decl: &Decl = &decls[i];
        let ghost own = match entry_of(*decl) {
            Some(e) => seq![symbol_of(e, prefix@, file@, source@)],
            None => Seq::empty(),
        };
        match describe(decl) {
            Some(e) => {
                out.push(symbol(e, prefix, file, source));
            },
            None => {},
        }
        assert(symbol_views(out@) =~= before + own);
        let ghost middle = symbol_views(out@);
        match decl {
            Decl::Module { name, decls: nested, .. } => {
                let inner_prefix: String = qualify(prefix, name.as_str());
                collect_decls(nested, inner_prefix.as_str(), file, source, out);
            },
            Decl::Foreign { funcs } => {
                collect_foreign(funcs, prefix, file, source, out);
            },
            _ => {
                assert(symbol_views(out@) =~= middle + Seq::empty());
            },
        }
        i = i + 1;
        assert(symbol_views(out@) =~= start + declared(
            decls@,
            i as nat,
            prefix@,
            file@,
            source@,
        ));
    }
}

/// The report on a parsed module.
pub fn analyze(decls: &Vec<Decl>, file: &str, source: &str, command: &str) -> (r: QueryReport)
    requires
        encode_utf8(source@).len() < usize::MAX,
    ensures
        r.schema_version == QUERY_SCHEMA_VERSION,
        r.command@ == command@,
        r.file@ == file@,
        r.ok,
        symbol_views(r.symbols@) == declared(decls@, decls@.len(), ""@, file@, source@),
{
    let mut symbols: Vec<QuerySymbol> = Vec::new();
    collect_decls(decls, "", file, source, &mut symbols);
    proof {
        assert(symbol_views(Seq::<QuerySymbol>::empty()) =~= Seq::empty());
        let all = declared(decls@, decls@.len(), ""@, file@, source@);
        assert(Seq::<SymbolView>::empty() + all =~= all);
    }
    QueryReport {
        schema_version: QUERY_SCHEMA_VERSION,
        command: text(command),
        file: text(file),
        ok: true,
        symbols,
    }
}

/// The lower-case form of a text.
pub uninterp spec fn lower_text(s: Seq<char>) -> Seq<char>;

/// `str::to_lowercase`: the lower-case equivalent of a text.
#[verifier::external_body]
fn lowercase(s: &str) -> (r: String)
    ensures
        r@ == lower_text(s@),
{
    s.to_lowercase()
}

/// Whether the name or the qualified name holds `needle`, in whatever case.
pub open spec fn named_like(s: SymbolView, needle: Seq<char>) -> bool {
    text::occurs(lower_text(s.name), lower_text(needle)) || text::occurs(
        lower_text(s.qualified_name),
        lower_text(needle),
    )
}

/// Whether the name or the qualified name is exactly `name`.
pub open spec fn named_exactly(s: SymbolView, name: Seq<char>) -> bool {
    s.name == name || s.qualified_name == name
}

/// The symbols that a name filter keeps, in order.
pub open spec fn kept_like(v: Seq<SymbolView>, needle: Option<Seq<char>>) -> Seq<SymbolView> {
    match needle {
        Some(n) => v.filter(|s: SymbolView| named_like(s, n)),
        None => v,
    }
}

/// The symbols of the given name, in order.
pub open spec fn kept_exactly(v: Seq<SymbolView>, name: Seq<char>) -> Seq<SymbolView> {
    v.filter(|s: SymbolView| named_exactly(s, name))
}

proof fn filter_step(v: Seq<SymbolView>, i: int, p: spec_fn(SymbolView) -> bool)
    requires
        0 <= i < v.len(),
    ensures
        v.take(i + 1).filter(p) == (if p(v[i]) {
            v.take(i).filter(p).push(v[i])
        } else {
            v.take(i).filter(p)
        }),
{
    reveal(Seq::filter);
    assert(v.take(i + 1).drop_last() =~= v.take(i));
    assert(v.take(i + 1).last() == v[i]);
}

/// Keeps the symbols whose name or qualified name holds `needle` in whatever
/// case.
pub fn retain_like(symbols: Vec<QuerySymbol>, needle: &str) -> (r: Vec<QuerySymbol>)
    ensures
        symbol_views(r@) == kept_like(symbol_views(symbols@), Some(needle@)),
{
    let ghost all = symbol_views(symbols@);
    let ghost p = |s: SymbolView| named_like(s, needle@);
    let lower: String = lowercase(needle);
    let mut rest: Vec<QuerySymbol> = symbols;
    let mut out: Vec<QuerySymbol> = Vec::new();
    let ghost mut done: int = 0;
    proof {
        assert(all.skip(0) =~= all);
        reveal(Seq::filter);
        assert(symbol_views(out@) =~= all.take(0).filter(p));
    }
    while rest.len() > 0
        invariant
            p == (|s: SymbolView| named_like(s, needle@)),
            lower@ == lower_text(needle@),
            0 <= done <= all.len(),
            symbol_views(rest@) == all.skip(done),
            symbol_views(out@) == all.take(done).filter(p),
        decreases rest@.len(),
    {
        let ghost before = rest@;
        let ghost out_before = symbol_views(out@);
        let s: QuerySymbol = rest.remove(0);
        proof {
            assert(symbol_views(before)[0] == s@);
            assert(symbol_views(before).len() == all.len() - done);
            assert(all.skip(done)[0] == all[done]);
            assert(all[done] == s@);
            assert(symbol_views(rest@) =~= symbol_views(before).skip(1));
            assert(all.skip(done).skip(1) =~= all.skip(done + 1));
            filter_step(all, done, p);
            done = done + 1;
        }
        let name: String = lowercase(s.name.as_str());
        let qualified_name: String = lowercase(s.qualified_name.as_str());
        if text_contains(name.as_str(), lower.as_str()) || text_contains(
            qualified_name.as_str(),
            lower.as_str(),
        ) {
            out.push(s);
            assert(symbol_views(out@) =~= out_before.push(s@));
        }
    }
    assert(all.take(done) =~= all);
    out
}

/// Keeps the symbols whose name or qualified name is `name`.
pub fn retain_exactly(symbols: Vec<QuerySymbol>, name: &str) -> (r: Vec<QuerySymbol>)
    ensures
        symbol_views(r@) == kept_exactly(symbol_views(symbols@), name@),
{
    let ghost all = symbol_views(symbols@);
    let ghost p = |s: SymbolView| named_exactly(s, name@);
    let mut rest: Vec<QuerySymbol> = symbols;
    let mut out: Vec<QuerySymbol> = Vec::new();
    let ghost mut done: int = 0;
    proof {
        assert(all.skip(0) =~= all);
        reveal(Seq::filter);
        assert(symbol_views(out@) =~= all.take(0).filter(p));
    }
    while rest.len() > 0
        invariant
            p == (|s: SymbolView| named_exactly(s, name@)),
            0 <= done <= all.len(),
            symbol_views(rest@) == all.skip(done),
            symbol_views(out@) == all.take(done).filter(p),
        decreases rest@.len(),
    {
        let ghost before = rest@;
        let ghost out_before = symbol_views(out@);
        let s: QuerySymbol = rest.remove(0);
        proof {
            assert(symbol_views(before)[0] == s@);
            assert(symbol_views(before).len() == all.len() - done);
            assert(all.skip(done)[0] == all[done]);
            assert(all[done] == s@);
            assert(symbol_views(rest@) =~= symbol_views(before).skip(1));
            assert(all.skip(done).skip(1) =~= all.skip(done + 1));
            filter_step(all, done, p);
            done = done + 1;
        }
        if str_eq(s.name.as_str(), name) || str_eq(s.qualified_name.as_str(), name) {
            out.push(s);
            assert(symbol_views(out@) =~= out_before.push(s@));
        }
    }
    assert(all.take(done) =~= all);
    out
}

/// What a query asks for.
#[derive(Debug, PartialEq, Eq)]
pub enum QueryCommand {
    Help,
    Symbols { file: String, filter: Option<String>, json: bool },
    Symbol { name: String, file: String, json: bool },
}

/// The content of a [`QueryCommand`].
#[verifier::ext_equal]
pub enum CommandView {
    Help,
    Symbols { file: Seq<char>, filter: Option<Seq<char>>, json: bool },
    Symbol { name: Seq<char>, file: Seq<char>, json: bool },
}

impl View for QueryCommand {
    type V = CommandView;

    open spec fn view(&self) -> CommandView {
        match self {
            QueryCommand::Help => CommandView::Help,
            QueryCommand::Symbols { file, filter, json } => CommandView::Symbols {
                file: file@,
                filter: text::opt_view(*filter),
                json: *json,
            },
            QueryCommand::Symbol { name, file, json } => CommandView::Symbol {
                name: name@,
                file: file@,
                json: *json,
            },
        }
    }
}

/// The options of `symbols` from argument `i` on, after what was read before.
pub open spec fn symbols_from(
    args: Seq<Seq<char>>,
    i: int,
    file: Option<Seq<char>>,
    filter: Option<Seq<char>>,
    json: bool,
) -> Result<CommandView, Seq<char>>
    decreases args.len() - i,
{
    if i >= args.len() {
        match file {
            Some(f) => Ok(CommandView::Symbols { file: f, filter, json }),
            None => Err(
                "usage: nulang query symbols <file> [--name <substring>] [--json]"@,
            ),
        }
    } else if args[i] == "--name"@ {
        if i + 1 >= args.len() {
            Err("missing value for --name"@)
        } else {
            symbols_from(args, i + 2, file, Some(args[i + 1]), json)
        }
    } else if args[i] == "--json"@ {
        symbols_from(args, i + 1, file, filter, true)
    } else if !text::begins_with(args[i], "-"@) && file is None {
        symbols_from(args, i + 1, Some(args[i]), filter, json)
    } else {
        Err("unknown query symbols option: "@ + args[i])
    }
}

/// The options of `symbol` from argument `i` on, after the plain arguments `seen`.
pub open spec fn symbol_from(
    args: Seq<Seq<char>>,
    i: int,
    seen: Seq<Seq<char>>,
    json: bool,
) -> Result<CommandView, Seq<char>>
    decreases args.len() - i,
{
    if i >= args.len() {
        if seen.len() == 2 {
            Ok(CommandView::Symbol { name: seen[0], file: seen[1], json })
        } else {
            Err("usage: nulang query symbol <name> <file> [--json]"@)
        }
    } else if args[i] == "--json"@ {
        symbol_from(args, i + 1, seen, true)
    } else if text::begins_with(args[i], "-"@) {
        Err("unknown query symbol option: "@ + args[i])
    } else {
        symbol_from(args, i + 1, seen.push(args[i]), json)
    }
}

/// What the arguments ask for, or the message of the error in them.
pub open spec fn commanded(args: Seq<Seq<char>>) -> Result<CommandView, Seq<char>> {
    if args.len() == 0 || args[0] == "help"@ || args[0] == "-h"@ || args[0] == "--help"@ {
        Ok(CommandView::Help)
    } else if args[0] == "symbols"@ {
        symbols_from(args, 1, None, None, false)
    } else if args[0] == "symbol"@ {
        symbol_from(args, 1, Seq::empty(), false)
    } else {
        Err("unknown query subcommand '"@ + args[0] + "'; try: symbols, symbol"@)
    }
}

/// Whether an error is the one that queries give for a message.
pub open spec fn is_query_error(e: NuError, msg: Seq<char>) -> bool {
    e matches NuError::PackageError { msg: m, span } && m@ == msg && span == (Span {
        start: 0,
        end: 0,
    })
}

/// The error that queries give for a message.
pub fn query_err(msg: String) -> (r: NuError)
    ensures
        is_query_error(r, msg@),
{
    NuError::PackageError { msg, span: Span::new(0, 0) }
}

fn parse_symbols(args: &Vec<String>) -> (r: NuResult<QueryCommand>)
    requires
        args@.len() > 0,
    ensures
        match r {
            Ok(c) => symbols_from(text::views(args@), 1, None, None, false) == Ok::<
                CommandView,
                Seq<char>,
            >(c@),
            Err(e) => symbols_from(text::views(args@), 1, None, None, false) is Err
                && is_query_error(
                e,
                symbols_from(text::views(args@), 1, None, None, false)->Err_0,
            ),
        },
{
    let ghost all = text::views(args@);
    let ghost goal = symbols_from(all, 1, None, None, false);
    let mut file: Option<String> = None;
    let mut filter: Option<String> = None;
    let mut json: bool = false;
    let mut i: usize = 1;
    while i < args.len()
        invariant
            all == text::views(args@),
            1 <= i <= args@.len(),
            goal == symbols_from(all, i as int, text::opt_view(file), text::opt_view(filter), json),
            goal == symbols_from(all, 1, None, None, false),
        decreases args@.len() - i,
    {
        assert(all[i as int] == args@[i as int]@);
        let arg: &str = args[i].as_str();
        if str_eq(arg, "--name") {
            if args.len() - i < 2 {
                return Err(query_err(text("missing value for --name")));
            }
            assert(all[i + 1] == args@[i + 1]@);
            filter = Some(text(args[i + 1].as_str()));
            i = i + 2;
        } else if str_eq(arg, "--json") {
            json = true;
            i = i + 1;
        } else if !text_starts_with(arg, "-") && file.is_none() {
            file = Some(text(arg));
            i = i + 1;
        } else {
            return Err(query_err(cat2("unknown query symbols option: ", arg)));
        }
    }
    match file {
        Some(f) => Ok(QueryCommand::Symbols { file: f, filter, json }),
        None => Err(
            query_err(
                text("usage: nulang query symbols <file> [--name <substring>] [--json]"),
            ),
        ),
    }
}

fn parse_symbol(args: &Vec<String>) -> (r: NuResult<QueryCommand>)
    requires
        args@.len() > 0,
    ensures
        match r {
            Ok(c) => symbol_from(text::views(args@), 1, Seq::empty(), false) == Ok::<
                CommandView,
                Seq<char>,
            >(c@),
            Err(e) => symbol_from(text::views(args@), 1, Seq::empty(), false) is Err
                && is_query_error(
                e,
                symbol_from(text::views(args@), 1, Seq::empty(), false)->Err_0,
            ),
        },
{
    let ghost all = text::views(args@);
    let ghost goal = symbol_from(all, 1, Seq::empty(), false);
    let mut seen: Vec<String> = Vec::new();
    let mut json: bool = false;
    let mut i: usize = 1;
    assert(text::views(seen@) =~= Seq::empty());
    while i < args.len()
        invariant
            all == text::views(args@),
            1 <= i <= args@.len(),
            goal == symbol_from(all, i as int, text::views(seen@), json),
            goal == symbol_from(all, 1, Seq::empty(), false),
        decreases args@.len() - i,
    {
        assert(all[i as int] == args@[i as int]@);
        let arg: &str = args[i].as_str();
        if str_eq(arg, "--json") {
            json = true;
        } else if text_starts_with(arg, "-") {
            return Err(query_err(cat2("unknown query symbol option: ", arg)));
        } else {
            let ghost before = text::views(seen@);
            seen.push(text(arg));
            assert(text::views(seen@) =~= before.push(all[i as int]));
        }
        i = i + 1;
    }
    if seen.len() != 2 {
        return Err(query_err(text("usage: nulang query symbol <name> <file> [--json]")));
    }
    assert(text::views(seen@)[0] == seen@[0]@ && text::views(seen@)[1] == seen@[1]@);
    Ok(
        QueryCommand::Symbol {
            name: text(seen[0].as_str()),
            file: text(seen[1].as_str()),
            json,
        },
    )
}

/// Reads the arguments of a query, see [`commanded`].
pub fn parse_command(args: &Vec<String>) -> (r: NuResult<QueryCommand>)
    ensures
        match r {
            Ok(c) => commanded(text::views(args@)) == Ok::<CommandView, Seq<char>>(c@),
            Err(e) => commanded(text::views(args@)) is Err && is_query_error(
                e,
                commanded(text::views(args@))->Err_0,
            ),
        },
{
    if args.len() == 0 {
        return Ok(QueryCommand::Help);
    }
    assert(text::views(args@)[0] == args@[0]@);
    let first: &str = args[0].as_str();
    if str_eq(first, "help") || str_eq(first, "-h") || str_eq(first, "--help") {
        Ok(QueryCommand::Help)
    } else if str_eq(first, "symbols") {
        parse_symbols(args)
    } else if str_eq(first, "symbol") {
        parse_symbol(args)
    } else {
        Err(query_err(cat3("unknown query subcommand '", first, "'; try: symbols, symbol")))
    }
}

/// The usage text.
pub open spec fn help_text() -> Seq<char> {
    "nulang query — machine-readable source inspection\n\nUsage:\nnulang query symbols <file> [--name <substring>] [--json]\nnulang query symbol <name> <file> [--json]\n"@
}

/// The usage text, see [`help_text`].
pub fn help() -> (r: String)
    ensures
        r@ == help_text(),
{
    text(
        "nulang query — machine-readable source inspection\n\nUsage:\nnulang query symbols <file> [--name <substring>] [--json]\nnulang query symbol <name> <file> [--json]\n",
    )
}

/// The line of a symbol in a report.
pub open spec fn symbol_line(s: SymbolView) -> Seq<char> {
    let signature = match s.signature {
        Some(t) => "  "@ + t,
        None => Seq::empty(),
    };
    s.kind + "  "@ + s.qualified_name + signature + "  "@ + s.span.file + ":"@ + text::dec(
        s.span.from.0,
    ) + ":"@ + text::dec(s.span.from.1)
}

/// The lines of a report for people, without line ends.
pub open spec fn report_lines(symbols: Seq<SymbolView>) -> Seq<Seq<char>> {
    if symbols.len() == 0 {
        seq!["No matching symbols."@]
    } else {
        symbols.map_values(|s: SymbolView| symbol_line(s))
    }
}

fn format_symbol(s: &QuerySymbol) -> (r: String)
    ensures
        r@ == symbol_line(s@),
{
    let mut out: String = cat3(s.kind.as_str(), "  ", s.qualified_name.as_str());
    match &s.signature {
        Some(t) => {
            out.append(cat2("  ", t.as_str()).as_str());
        },
        None => {
            assert(out@ + Seq::<char>::empty() =~= out@);
        },
    }
    out.append("  ");
    out.append(s.span.file.as_str());
    out.append(":");
    push_dec(&mut out, s.span.line as u64);
    out.append(":");
    push_dec(&mut out, s.span.col as u64);
    out
}

/// The lines of a report for people, see [`report_lines`].
pub fn format_report(report: &QueryReport) -> (r: Vec<String>)
    ensures
        text::views(r@) == report_lines(symbol_views(report.symbols@)),
{
    let ghost all = symbol_views(report.symbols@);
    let ghost want = report_lines(all);
    let mut out: Vec<String> = Vec::new();
    if report.symbols.len() == 0 {
        out.push(text("No matching symbols."));
        assert(text::views(out@) =~= want);
        return out;
    }
    let mut i: usize = 0;
    while i < report.symbols.len()
        invariant
            all == symbol_views(report.symbols@),
            all.len() > 0,
            want == report_lines(all),
            i <= report.symbols@.len(),
            text::views(out@) == want.take(i as int),
        decreases report.symbols@.len() - i,
    {
        let ghost before = text::views(out@);
        out.push(format_symbol(&report.symbols[i]));
        i = i + 1;
        assert(text::views(out@) =~= before.push(want[i - 1]));
        assert(text::views(out@) =~= want.take(i as int));
    }
    assert(want.take(all.len() as int) =~= want);
    out
}

/// A source text with its declarations.
#[derive(Debug, PartialEq, Eq)]
pub struct ParsedSource {
    pub source: String,
    pub decls: Vec<Decl>,
}

/// Reads and parses source files.
pub trait SourceLoader {
    /// The text and the declarations of a file.
    fn load(&mut self, file: &str) -> NuResult<ParsedSource>;
}

/// The answer to a query on a parsed file; `None` where there is nothing to
/// look up.
pub open spec fn answered(command: CommandView, source: Seq<char>, decls: Seq<Decl>) -> Option<
    (Seq<char>, Seq<char>, Seq<SymbolView>, bool),
> {
    match command {
        CommandView::Help => None,
        CommandView::Symbols { file, filter, json } => Some(
            (
                "symbols"@,
                file,
                kept_like(declared(decls, decls.len(), ""@, file, source), filter),
                json,
            ),
        ),
        CommandView::Symbol { name, file, json } => Some(
            (
                "symbol"@,
                file,
                kept_exactly(declared(decls, decls.len(), ""@, file, source), name),
                json,
            ),
        ),
    }
}

/// What a report says, with the wish for JSON beside it.
pub open spec fn report_says(r: Option<(QueryReport, bool)>) -> Option<
    (Seq<char>, Seq<char>, Seq<SymbolView>, bool),
> {
    match r {
        Some((report, json)) => Some(
            (report.command@, report.file@, symbol_views(report.symbols@), json),
        ),
        None => None,
    }
}

/// Whether a report, where there is one, is a success in the current schema.
pub open spec fn is_current(r: Option<(QueryReport, bool)>) -> bool {
    r matches Some(a) ==> a.0.schema_version == QUERY_SCHEMA_VERSION && a.0.ok
}

/// Answers a query on a parsed file, see [`answered`].
pub fn answer(command: &QueryCommand, parsed: &ParsedSource) -> (r: Option<(QueryReport, bool)>)
    requires
        encode_utf8(parsed.source@).len() < usize::MAX,
    ensures
        report_says(r) == answered(command@, parsed.source@, parsed.decls@),
        is_current(r),
{
    match command {
        QueryCommand::Help => None,
        QueryCommand::Symbols { file, filter, json } => {
            let mut report: QueryReport = analyze(
                &parsed.decls,
                file.as_str(),
                parsed.source.as_str(),
                "symbols",
            );
            match filter {
                Some(f) => {
                    let kept: Vec<QuerySymbol> = retain_like(report.symbols, f.as_str());
                    report.symbols = kept;
                },
                None => {},
            }
            Some((report, *json))
        },
        QueryCommand::Symbol { name, file, json } => {
            let mut report: QueryReport = analyze(
                &parsed.decls,
                file.as_str(),
                parsed.source.as_str(),
                "symbol",
            );
            let kept: Vec<QuerySymbol> = retain_exactly(report.symbols, name.as_str());
            report.symbols = kept;
            Some((report, *json))
        },
    }
}

/// Whether loading a file, with the loader in the given state, returned
/// `loaded`.
pub open spec fn load_returned<L: SourceLoader>(
    loader: L,
    file: Seq<char>,
    loaded: NuResult<ParsedSource>,
) -> bool {
    exists|l: &mut L, given: &str|
        *l == loader && given@ == file && #[trigger] call_ensures(
            L::load,
            (l, given),
            loaded,
        )
}

/// Whether a result is the one that a loaded file gives.
pub open spec fn run_agrees(
    command: CommandView,
    loaded: NuResult<ParsedSource>,
    r: NuResult<Option<(QueryReport, bool)>>,
) -> bool {
    match loaded {
        Err(e) => r == Err::<Option<(QueryReport, bool)>, NuError>(e),
        Ok(p) => if encode_utf8(p.source@).len() == usize::MAX {
            r matches Err(e) && is_query_error(
                e,
                "cannot read '"@ + file_of(command) + "': the file is too large"@,
            )
        } else {
            r matches Ok(out) && answered(command, p.source@, p.decls@) == report_says(out)
                && is_current(out)
        },
    }
}

/// The file that a command inspects.
pub open spec fn file_of(command: CommandView) -> Seq<char> {
    match command {
        CommandView::Help => ""@,
        CommandView::Symbols { file, .. } => file,
        CommandView::Symbol { file, .. } => file,
    }
}

/// Runs a query: reads the arguments, has the file loaded and answers. Where the
/// arguments do not ask for a file the loader is not used, and the outcome is
/// `None` for the usage text or the error of the arguments.
pub fn run<L: SourceLoader>(args: &Vec<String>, loader: &mut L) -> (r: NuResult<
    Option<(QueryReport, bool)>,
>)
    ensures
        match commanded(text::views(args@)) {
            Err(msg) => (r matches Err(e) && is_query_error(e, msg)) && *final(loader) == *old(
                loader,
            ),
            Ok(CommandView::Help) => r == Ok::<Option<(QueryReport, bool)>, NuError>(None)
                && *final(loader) == *old(loader),
            Ok(command) => exists|loaded: NuResult<ParsedSource>| #[trigger]
                run_agrees(command, loaded, r) && load_returned(
                    *old(loader),
                    file_of(command),
                    loaded,
                ),
        },
{
    let command: QueryCommand = match parse_command(args) {
        Ok(c) => c,
        Err(e) => return Err(e),
    };
    let file: String = match &command {
        QueryCommand::Help => return Ok(None),
        QueryCommand::Symbols { file, .. } => text(file.as_str()),
        QueryCommand::Symbol { file, .. } => text(file.as_str()),
    };
    let given: &str = file.as_str();
    let loaded: NuResult<ParsedSource> = loader.load(given);
    assert(load_returned(*old(loader), file@, loaded));
    let ghost seen = loaded;
    let parsed: ParsedSource = match loaded {
        Ok(p) => p,
        Err(e) => {
            assert(run_agrees(command@, seen, Err(e)));
            return Err(e);
        },
    };
    if parsed.source.as_str().as_bytes().len() == usize::MAX {
        let e: NuError = query_err(
            cat3("cannot read '", file.as_str(), "': the file is too large"),
        );
        assert(run_agrees(command@, seen, Err(e)));
        return Err(e);
    }
    let out: Option<(QueryReport, bool)> = answer(&command, &parsed);
    assert(run_agrees(command@, seen, Ok(out)));
    Ok(out)
}

/// The symbols of a module come in the order of its declarations: those of a
/// longer list begin with those of the shorter one.
pub proof fn declared_grows(
    decls: Seq<Decl>,
    m: nat,
    n: nat,
    prefix: Seq<char>,
    file: Seq<char>,
    source: Seq<char>,
)
    requires
        m <= n <= decls.len(),
    ensures
        declared(decls, m, prefix, file, source).is_prefix_of(
            declared(decls, n, prefix, file, source),
        ),
    decreases n,
{
    if m < n {
        declared_grows(decls, m, (n - 1) as nat, prefix, file, source);
    }
}

/// Every place lies inside the text and ends no earlier than it starts.
pub proof fn places_are_inside(span: Span, file: Seq<char>, source: Seq<char>)
    ensures
        placed(span, file, source).start <= placed(span, file, source).end,
        placed(span, file, source).end <= encode_utf8(source).len(),
{
}

/// A symbol that is looked up by its exact name is also found by a search for
/// that name.
pub proof fn exact_is_like(s: SymbolView, name: Seq<char>)
    requires
        named_exactly(s, name),
    ensures
        named_like(s, name),
{
    let l = lower_text(name);
    assert(text::occurs_at(l, l, 0)) by {
        assert(l.subrange(0, l.len() as int) =~= l);
    }
}

/// A filter keeps, in their order, the symbols whose names match and no others.
pub proof fn filters_keep_the_matching(v: Seq<SymbolView>, s: SymbolView, name: Seq<char>)
    ensures
        kept_exactly(v, name).contains(s) <==> v.contains(s) && (s.name == name || s.qualified_name
            == name),
        kept_like(v, Some(name)).contains(s) <==> v.contains(s) && named_like(s, name),
        kept_like(v, None) == v,
{
    let exact = |x: SymbolView| named_exactly(x, name);
    let like = |x: SymbolView| named_like(x, name);
    let a = kept_exactly(v, name);
    let b = kept_like(v, Some(name));
    if a.contains(s) {
        let i = choose|i: int| 0 <= i < a.len() && a[i] == s;
        v.lemma_filter_pred(exact, i);
        v.lemma_filter_contains_rev(exact, s);
    }
    if b.contains(s) {
        let i = choose|i: int| 0 <= i < b.len() && b[i] == s;
        v.lemma_filter_pred(like, i);
        v.lemma_filter_contains_rev(like, s);
    }
    if v.contains(s) {
        let i = choose|i: int| 0 <= i < v.len() && v[i] == s;
        if named_exactly(s, name) {
            v.lemma_filter_contains(exact, i);
        }
        if named_like(s, name) {
            v.lemma_filter_contains(like, i);
        }
    }
}

/// The declared name of a declaration that has one.
pub open spec fn declared_name(d: Decl) -> Option<Seq<char>> {
    match d {
        Decl::Function { name, .. } => Some(name@),
        Decl::Actor { name, .. } => Some(name@),
        Decl::StateMachine { name, .. } => Some(name@),
        Decl::TypeAlias { name, .. } => Some(name@),
        Decl::RecordType { name, .. } => Some(name@),
        Decl::VariantType { name, .. } => Some(name@),
        Decl::EffectDecl { name, .. } => Some(name@),
        Decl::Module { name, .. } => Some(name@),
        Decl::Workflow { name, .. } => Some(name@),
        Decl::Agent { name, .. } => Some(name@),
        Decl::Database { name, .. } => Some(name@),
        Decl::CrdtDecl { name, .. } => Some(name@),
        Decl::NamedHandler { name, .. } => Some(name@),
        Decl::Class { name, .. } => Some(name@),
        Decl::LetBinding { name, .. } => Some(name@),
        Decl::Signal { name, .. } => Some(name@),
        Decl::Given { name, .. } => Some(name@),
        _ => None,
    }
}

/// Every declaration with a name is a symbol of that name, qualified by the
/// modules around it, and its kind, visibility, effects and capability are those
/// it was declared with.
pub proof fn named_declarations_are_symbols(
    decls: Seq<Decl>,
    n: nat,
    prefix: Seq<char>,
    file: Seq<char>,
    source: Seq<char>,
    i: int,
)
    requires
        0 <= i < n <= decls.len(),
        declared_name(decls[i]) is Some,
    ensures
        exists|k: int| #[trigger]
            is_symbol_of(
                declared(decls, n, prefix, file, source),
                k,
                decls[i],
                prefix,
            ),
    decreases n,
{
    let p = (n - 1) as nat;
    let before = declared(decls, p, prefix, file, source);
    let all = declared(decls, n, prefix, file, source);
    if i < p {
        named_declarations_are_symbols(decls, p, prefix, file, source, i);
        let k = choose|k: int| #[trigger] is_symbol_of(before, k, decls[i], prefix);
        assert(all[k] == before[k]);
        assert(is_symbol_of(all, k, decls[i], prefix));
    } else {
        let k = before.len() as int;
        kinds_differ();
        assert(entry_of(decls[i]) is Some);
        assert(all[k] == symbol_of(entry_of(decls[i])->0, prefix, file, source));
        assert(is_symbol_of(all, k, decls[i], prefix));
    }
}

proof fn kinds_differ()
    ensures
        "function"@ != "actor"@,
        "function"@ != "state_machine"@,
        "function"@ != "type_alias"@,
        "function"@ != "record_type"@,
        "function"@ != "variant_type"@,
        "function"@ != "effect"@,
        "function"@ != "module"@,
        "function"@ != "workflow"@,
        "function"@ != "agent"@,
        "function"@ != "database"@,
        "function"@ != "crdt"@,
        "function"@ != "handler"@,
        "function"@ != "class"@,
        "function"@ != "binding"@,
        "function"@ != "signal"@,
        "function"@ != "given"@,
        "actor"@ != "function"@,
        "actor"@ != "state_machine"@,
        "actor"@ != "type_alias"@,
        "actor"@ != "record_type"@,
        "actor"@ != "variant_type"@,
        "actor"@ != "effect"@,
        "actor"@ != "module"@,
        "actor"@ != "workflow"@,
        "actor"@ != "agent"@,
        "actor"@ != "database"@,
        "actor"@ != "crdt"@,
        "actor"@ != "handler"@,
        "actor"@ != "class"@,
        "actor"@ != "binding"@,
        "actor"@ != "signal"@,
        "actor"@ != "given"@,
        "module"@ != "function"@,
        "module"@ != "actor"@,
        "module"@ != "state_machine"@,
        "module"@ != "type_alias"@,
        "module"@ != "record_type"@,
        "module"@ != "variant_type"@,
        "module"@ != "effect"@,
        "module"@ != "workflow"@,
        "module"@ != "agent"@,
        "module"@ != "database"@,
        "module"@ != "crdt"@,
        "module"@ != "handler"@,
        "module"@ != "class"@,
        "module"@ != "binding"@,
        "module"@ != "signal"@,
        "module"@ != "given"@,
        "workflow"@ != "function"@,
        "workflow"@ != "actor"@,
        "workflow"@ != "state_machine"@,
        "workflow"@ != "type_alias"@,
        "workflow"@ != "record_type"@,
        "workflow"@ != "variant_type"@,
        "workflow"@ != "effect"@,
        "workflow"@ != "module"@,
        "workflow"@ != "agent"@,
        "workflow"@ != "database"@,
        "workflow"@ != "crdt"@,
        "workflow"@ != "handler"@,
        "workflow"@ != "class"@,
        "workflow"@ != "binding"@,
        "workflow"@ != "signal"@,
        "workflow"@ != "given"@,
        "effect"@ != "function"@,
        "effect"@ != "actor"@,
        "effect"@ != "state_machine"@,
        "effect"@ != "type_alias"@,
        "effect"@ != "record_type"@,
        "effect"@ != "variant_type"@,
        "effect"@ != "module"@,
        "effect"@ != "workflow"@,
        "effect"@ != "agent"@,
        "effect"@ != "database"@,
        "effect"@ != "crdt"@,
        "effect"@ != "handler"@,
        "effect"@ != "class"@,
        "effect"@ != "binding"@,
        "effect"@ != "signal"@,
        "effect"@ != "given"@,
{
    reveal_strlit("function");
    reveal_strlit("actor");
    reveal_strlit("state_machine");
    reveal_strlit("type_alias");
    reveal_strlit("record_type");
    reveal_strlit("variant_type");
    reveal_strlit("effect");
    reveal_strlit("module");
    reveal_strlit("workflow");
    reveal_strlit("agent");
    reveal_strlit("database");
    reveal_strlit("crdt");
    reveal_strlit("handler");
    reveal_strlit("class");
    reveal_strlit("binding");
    reveal_strlit("signal");
    reveal_strlit("given");
    assert("function"@.len() != "actor"@.len());
    assert("function"@.len() != "state_machine"@.len());
    assert("function"@.len() != "type_alias"@.len());
    assert("function"@.len() != "record_type"@.len());
    assert("function"@.len() != "variant_type"@.len());
    assert("function"@.len() != "effect"@.len());
    assert("function"@.len() != "module"@.len());
    assert("function"@[0] != "workflow"@[0]);
    assert("function"@.len() != "agent"@.len());
    assert("function"@[0] != "database"@[0]);
    assert("function"@.len() != "crdt"@.len());
    assert("function"@.len() != "handler"@.len());
    assert("function"@.len() != "class"@.len());
    assert("function"@.len() != "binding"@.len());
    assert("function"@.len() != "signal"@.len());
    assert("function"@.len() != "given"@.len());
    assert("actor"@.len() != "function"@.len());
    assert("actor"@.len() != "state_machine"@.len());
    assert("actor"@.len() != "type_alias"@.len());
    assert("actor"@.len() != "record_type"@.len());
    assert("actor"@.len() != "variant_type"@.len());
    assert("actor"@.len() != "effect"@.len());
    assert("actor"@.len() != "module"@.len());
    assert("actor"@.len() != "workflow"@.len());
    assert("actor"@[1] != "agent"@[1]);
    assert("actor"@.len() != "database"@.len());
    assert("actor"@.len() != "crdt"@.len());
    assert("actor"@.len() != "handler"@.len());
    assert("actor"@[0] != "class"@[0]);
    assert("actor"@.len() != "binding"@.len());
    assert("actor"@.len() != "signal"@.len());
    assert("actor"@[0] != "given"@[0]);
    assert("module"@.len() != "function"@.len());
    assert("module"@.len() != "actor"@.len());
    assert("module"@.len() != "state_machine"@.len());
    assert("module"@.len() != "type_alias"@.len());
    assert("module"@.len() != "record_type"@.len());
    assert("module"@.len() != "variant_type"@.len());
    assert("module"@[0] != "effect"@[0]);
    assert("module"@.len() != "workflow"@.len());
    assert("module"@.len() != "agent"@.len());
    assert("module"@.len() != "database"@.len());
    assert("module"@.len() != "crdt"@.len());
    assert("module"@.len() != "handler"@.len());
    assert("module"@.len() != "class"@.len());
    assert("module"@.len() != "binding"@.len());
    assert("module"@[0] != "signal"@[0]);
    assert("module"@.len() != "given"@.len());
    assert("workflow"@[0] != "function"@[0]);
    assert("workflow"@.len() != "actor"@.len());
    assert("workflow"@.len() != "state_machine"@.len());
    assert("workflow"@.len() != "type_alias"@.len());
    assert("workflow"@.len() != "record_type"@.len());
    assert("workflow"@.len() != "variant_type"@.len());
    assert("workflow"@.len() != "effect"@.len());
    assert("workflow"@.len() != "module"@.len());
    assert("workflow"@.len() != "agent"@.len());
    assert("workflow"@[0] != "database"@[0]);
    assert("workflow"@.len() != "crdt"@.len());
    assert("workflow"@.len() != "handler"@.len());
    assert("workflow"@.len() != "class"@.len());
    assert("workflow"@.len() != "binding"@.len());
    assert("workflow"@.len() != "signal"@.len());
    assert("workflow"@.len() != "given"@.len());
    assert("effect"@.len() != "function"@.len());
    assert("effect"@.len() != "actor"@.len());
    assert("effect"@.len() != "state_machine"@.len());
    assert("effect"@.len() != "type_alias"@.len());
    assert("effect"@.len() != "record_type"@.len());
    assert("effect"@.len() != "variant_type"@.len());
    assert("effect"@[0] != "module"@[0]);
    assert("effect"@.len() != "workflow"@.len());
    assert("effect"@.len() != "agent"@.len());
    assert("effect"@.len() != "database"@.len());
    assert("effect"@.len() != "crdt"@.len());
    assert("effect"@.len() != "handler"@.len());
    assert("effect"@.len() != "class"@.len());
    assert("effect"@.len() != "binding"@.len());
    assert("effect"@[0] != "signal"@[0]);
    assert("effect"@.len() != "given"@.len());
}

/// Whether symbol `k` tells of a declaration.
pub open spec fn is_symbol_of(
    symbols: Seq<SymbolView>,
    k: int,
    d: Decl,
    prefix: Seq<char>,
) -> bool {
    let s = symbols[k];
    &&& 0 <= k < symbols.len()
    &&& declared_name(d) == Some(s.name)
    &&& if prefix.len() == 0 {
        s.qualified_name == s.name
    } else {
        s.qualified_name == prefix + "::"@ + s.name
    }
    &&& d matches Decl::Function { public, effect, cap, .. } ==> s.kind == "function"@ && s.public
        == Some(public) && s.effects == text::opt_view(effect) && s.capability == text::opt_view(cap)
    &&& !(d is Function) ==> s.kind != "function"@ && s.effects is None && s.capability is None
    &&& d is Actor <==> s.kind == "actor"@
    &&& d is Module <==> s.kind == "module"@
    &&& d is Workflow <==> s.kind == "workflow"@
    &&& d is EffectDecl <==> s.kind == "effect"@
    &&& d matches Decl::TypeAlias { public, .. } ==> s.public == Some(public)
    &&& d matches Decl::RecordType { public, .. } ==> s.public == Some(public)
    &&& d matches Decl::VariantType { public, .. } ==> s.public == Some(public)
}

/// The options of a query on symbols set what they name and nothing else; the
/// first argument without a dash is the file.
pub proof fn query_options_set_what_they_name(
    args: Seq<Seq<char>>,
    i: int,
    file: Option<Seq<char>>,
    filter: Option<Seq<char>>,
    json: bool,
)
    requires
        0 <= i < args.len(),
    ensures
        args[i] == "--json"@ ==> symbols_from(args, i, file, filter, json) == symbols_from(
            args,
            i + 1,
            file,
            filter,
            true,
        ),
        args[i] == "--name"@ && i + 1 < args.len() ==> symbols_from(args, i, file, filter, json)
            == symbols_from(args, i + 2, file, Some(args[i + 1]), json),
        args[i].len() > 0 && args[i][0] != '-' && file is None ==> symbols_from(
            args,
            i,
            file,
            filter,
            json,
        ) == symbols_from(args, i + 1, Some(args[i]), filter, json),
        args[i].len() > 0 && args[i][0] != '-' && file is Some ==> symbols_from(
            args,
            i,
            file,
            filter,
            json,
        ) is Err,
        symbols_from(args, args.len() as int, file, filter, json) is Ok <==> file is Some,
{
    reveal_strlit("--json");
    reveal_strlit("--name");
    reveal_strlit("-");
    assert("--json"@[2] != "--name"@[2]);
    assert("--json"@[0] == '-' && "--name"@[0] == '-');
    assert("-"@.len() == 1 && "-"@[0] == '-');
    if args[i].len() > 0 && args[i][0] != '-' {
        if text::begins_with(args[i], "-"@) {
            assert(args[i].subrange(0, 1)[0] == '-');
        }
    }
}

/// A query on one symbol takes a name and a file, in this order.
pub proof fn a_name_and_a_file_are_asked_for(name: Seq<char>, file: Seq<char>)
    requires
        name.len() > 0,
        name[0] != '-',
        file.len() > 0,
        file[0] != '-',
    ensures
        commanded(seq!["symbol"@, name, file]) == Ok::<CommandView, Seq<char>>(
            CommandView::Symbol { name, file, json: false },
        ),
        commanded(seq!["symbol"@, name, file, "--json"@]) == Ok::<CommandView, Seq<char>>(
            CommandView::Symbol { name, file, json: true },
        ),
        commanded(seq!["symbols"@, file]) == Ok::<CommandView, Seq<char>>(
            CommandView::Symbols { file, filter: None, json: false },
        ),
        commanded(seq!["symbols"@, file, "--name"@, name]) == Ok::<CommandView, Seq<char>>(
            CommandView::Symbols { file, filter: Some(name), json: false },
        ),
{
    reveal_strlit("--json");
    reveal_strlit("--name");
    reveal_strlit("-");
    reveal_strlit("symbol");
    reveal_strlit("symbols");
    reveal_strlit("help");
    reveal_strlit("-h");
    reveal_strlit("--help");
    assert("symbol"@.len() == 6 && "symbols"@.len() == 7 && "help"@.len() == 4 && "-h"@.len() == 2
        && "--help"@.len() == 6);
    assert("symbol"@[0] == 's' && "--help"@[0] == '-' && "--json"@[0] == '-' && "--name"@[0]
        == '-');
    assert("--json"@[2] != "--name"@[2]);
    assert("-"@.len() == 1 && "-"@[0] == '-');
    assert(text::begins_with(name, "-"@) ==> name.subrange(0, 1)[0] == '-');
    assert(text::begins_with(file, "-"@) ==> file.subrange(0, 1)[0] == '-');
    assert("--json"@.subrange(0, 1) =~= "-"@);
    let none = Seq::<Seq<char>>::empty();
    reveal_with_fuel(symbol_from, 5);
    reveal_with_fuel(symbols_from, 5);
    assert(none.push(name).push(file)[0] == name);
    assert(none.push(name).push(file)[1] == file);
}

} // verus!
