//! Logical query planning for durable entity state.
//!
//! A plan chooses an access path from the indexes that an entity declares; how
//! an index is realized is left to the storage. The choice follows from the
//! declarations alone: a unique index that the equality predicates match in full
//! comes first, then the longest matched prefix, then the order of declaration.

use vstd::prelude::*;

use crate::ast::IndexDecl;
use crate::hir::{ActorDef, Decl, Module, StateField};
use crate::text::{self, cat2, cat3, cat5, clone_strings, contains_text, join, push_dec, str_eq, text};
use crate::types::Span;

verus! {

/// What the planner knows of an entity.
#[derive(Debug, PartialEq, Eq)]
pub struct EntitySchema {
    pub name: String,
    pub fields: Vec<String>,
    pub indexes: Vec<IndexDecl>,
}

/// The content of an index declaration that planning reads.
#[verifier::ext_equal]
pub struct IndexView {
    pub name: Seq<char>,
    pub fields: Seq<Seq<char>>,
    pub unique: bool,
}

/// The content of an [`EntitySchema`].
#[verifier::ext_equal]
pub struct SchemaView {
    pub name: Seq<char>,
    pub fields: Seq<Seq<char>>,
    pub indexes: Seq<IndexView>,
    /// Where each index is declared.
    pub index_spans: Seq<Span>,
}

/// The content of an index declaration.
pub open spec fn index_view(i: IndexDecl) -> IndexView {
    IndexView { name: i.name@, fields: text::views(i.fields@), unique: i.unique }
}

/// Where indexes are declared.
pub open spec fn spans_of(v: Seq<IndexDecl>) -> Seq<Span> {
    v.map_values(|i: IndexDecl| i.span)
}

/// The contents of index declarations.
pub open spec fn index_views(v: Seq<IndexDecl>) -> Seq<IndexView> {
    v.map_values(|i: IndexDecl| index_view(i))
}

impl View for EntitySchema {
    type V = SchemaView;

    open spec fn view(&self) -> SchemaView {
        SchemaView {
            name: self.name@,
            fields: text::views(self.fields@),
            indexes: index_views(self.indexes@),
            index_spans: spans_of(self.indexes@),
        }
    }
}

/// The contents of a list of schemas.
pub open spec fn schema_views(v: Seq<EntitySchema>) -> Seq<SchemaView> {
    v.map_values(|s: EntitySchema| s@)
}

/// The schema of an actor: its name, the names of its state fields and its
/// indexes.
pub open spec fn schema_of(actor: ActorDef) -> SchemaView {
    SchemaView {
        name: actor.name@,
        fields: actor.state_fields@.map_values(|f: StateField| f.name@),
        indexes: index_views(actor.indexes@),
        index_spans: spans_of(actor.indexes@),
    }
}

fn copy_index(i: &IndexDecl) -> (r: IndexDecl)
    ensures
        index_view(r) == index_view(*i),
        r.span == i.span,
{
    IndexDecl {
        name: text(i.name.as_str()),
        fields: clone_strings(&i.fields),
        unique: i.unique,
        span: i.span,
    }
}

impl EntitySchema {
    /// The schema of an actor, see [`schema_of`].
    pub fn from_actor(actor: &ActorDef) -> (r: Self)
        ensures
            r@ == schema_of(*actor),
    {
        let ghost want = schema_of(*actor);
        let mut fields: Vec<String> = Vec::new();
        let mut i: usize = 0;
        while i < actor.state_fields.len()
            invariant
                want == schema_of(*actor),
                i <= actor.state_fields@.len(),
                text::views(fields@) == want.fields.take(i as int),
            decreases actor.state_fields@.len() - i,
        {
            let ghost before = text::views(fields@);
            fields.push(text(actor.state_fields[i].name.as_str()));
            i = i + 1;
            assert(text::views(fields@) =~= before.push(want.fields[i - 1]));
            assert(text::views(fields@) =~= want.fields.take(i as int));
        }
        assert(want.fields.take(actor.state_fields@.len() as int) =~= want.fields);
        let mut indexes: Vec<IndexDecl> = Vec::new();
        let mut j: usize = 0;
        while j < actor.indexes.len()
            invariant
                want == schema_of(*actor),
                j <= actor.indexes@.len(),
                index_views(indexes@) == want.indexes.take(j as int),
                spans_of(indexes@) == want.index_spans.take(j as int),
            decreases actor.indexes@.len() - j,
        {
            let ghost before = index_views(indexes@);
            let ghost spans = spans_of(indexes@);
            indexes.push(copy_index(&actor.indexes[j]));
            j = j + 1;
            assert(index_views(indexes@) =~= before.push(want.indexes[j - 1]));
            assert(index_views(indexes@) =~= want.indexes.take(j as int));
            assert(spans_of(indexes@) =~= spans.push(want.index_spans[j - 1]));
            assert(spans_of(indexes@) =~= want.index_spans.take(j as int));
        }
        assert(want.indexes.take(actor.indexes@.len() as int) =~= want.indexes);
        assert(want.index_spans.take(actor.indexes@.len() as int) =~= want.index_spans);
        EntitySchema { name: text(actor.name.as_str()), fields, indexes }
    }
}

/// The schemas of the persistent actors among the first `n` declarations in
/// order, nested modules included.
pub open spec fn schemas_of(decls: Seq<Decl>, n: nat) -> Seq<SchemaView>
    decreases decls, n,
{
    if n == 0 || n > decls.len() {
        Seq::empty()
    } else {
        schemas_of(decls, (n - 1) as nat) + match decls[n - 1] {
            Decl::Actor(a) => if a.persistent {
                seq![schema_of(a)]
            } else {
                Seq::empty()
            },
            Decl::Module { decls: nested, .. } => schemas_of(nested@, nested@.len()),
            Decl::Other => Seq::empty(),
        }
    }
}

fn collect(decls: &Vec<Decl>, out: &mut Vec<EntitySchema>)
    ensures
        schema_views(final(out)@) == schema_views(old(out)@) + schemas_of(decls@, decls@.len()),
    decreases decls,
{
    let ghost start = schema_views(out@);
    let mut i: usize = 0;
    assert(start + schemas_of(decls@, 0) =~= start);
    while i < decls.len()
        invariant
            i <= decls@.len(),
            schema_views(out@) == start + schemas_of(decls@, i as nat),
        decreases decls@.len() - i,
    {
        let ghost before = schema_views(out@);
        match &decls[i] {
            Decl::Actor(a) => {
                if a.persistent {
                    out.push(EntitySchema::from_actor(a));
                    assert(schema_views(out@) =~= before.push(schema_of(*a)));
                }
            },
            Decl::Module { decls: nested, .. } => {
                collect(nested, out);
            },
            Decl::Other => {},
        }
        i = i + 1;
        assert(schema_views(out@) =~= start + schemas_of(decls@, i as nat));
    }
}

/// The schemas of the persistent actors of a module, see [`schemas_of`].
pub fn collect_entity_schemas(module: &Module) -> (r: Vec<EntitySchema>)
    ensures
        schema_views(r@) == schemas_of(module.decls@, module.decls@.len()),
{
    let mut schemas: Vec<EntitySchema> = Vec::new();
    collect(&module.decls, &mut schemas);
    assert(schema_views(Seq::<EntitySchema>::empty()) + schemas_of(
        module.decls@,
        module.decls@.len(),
    ) =~= schemas_of(module.decls@, module.decls@.len()));
    schemas
}

/// How a predicate restricts a field.
#[derive(Debug, Clone, Copy, PartialEq, Eq, Structural)]
pub enum QueryPredicateKind {
    Eq,
    Range,
}

/// A predicate of a query.
#[derive(Debug, Clone, PartialEq, Eq)]
pub struct QueryPredicate {
    pub field: String,
    pub kind: QueryPredicateKind,
}

/// The content of a [`QueryPredicate`].
#[verifier::ext_equal]
pub struct PredicateView {
    pub field: Seq<char>,
    pub kind: QueryPredicateKind,
}

impl View for QueryPredicate {
    type V = PredicateView;

    open spec fn view(&self) -> PredicateView {
        PredicateView { field: self.field@, kind: self.kind }
    }
}

/// The contents of predicates.
pub open spec fn predicate_views(v: Seq<QueryPredicate>) -> Seq<PredicateView> {
    v.map_values(|p: QueryPredicate| p@)
}

impl QueryPredicate {
    /// The field equals some value.
    pub fn eq(field: &str) -> (r: Self)
        ensures
            r@ == (PredicateView { field: field@, kind: QueryPredicateKind::Eq }),
    {
        QueryPredicate { field: text(field), kind: QueryPredicateKind::Eq }
    }

    /// The field lies in some range.
    pub fn range(field: &str) -> (r: Self)
        ensures
            r@ == (PredicateView { field: field@, kind: QueryPredicateKind::Range }),
    {
        QueryPredicate { field: text(field), kind: QueryPredicateKind::Range }
    }
}

/// How the candidates of a query are found.
#[derive(Debug, Clone, PartialEq, Eq)]
pub enum LogicalAccessPath {
    EntityScan,
    Index { name: String, fields: Vec<String>, unique: bool, matched_prefix: usize },
}

/// The content of a [`LogicalAccessPath`].
#[verifier::ext_equal]
pub enum AccessView {
    EntityScan,
    Index { index: IndexView, matched_prefix: nat },
}

impl View for LogicalAccessPath {
    type V = AccessView;

    open spec fn view(&self) -> AccessView {
        match self {
            LogicalAccessPath::EntityScan => AccessView::EntityScan,
            LogicalAccessPath::Index { name, fields, unique, matched_prefix } => AccessView::Index {
                index: IndexView { name: name@, fields: text::views(fields@), unique: *unique },
                matched_prefix: *matched_prefix as nat,
            },
        }
    }
}

/// A logical plan. The residual predicates are those that the access path does
/// not satisfy; they are applied to the candidates.
#[derive(Debug, Clone, PartialEq, Eq)]
pub struct LogicalQueryPlan {
    pub entity: String,
    pub access: LogicalAccessPath,
    pub residual_predicates: Vec<QueryPredicate>,
}

/// Whether some predicate asks for equality of a field.
pub open spec fn equated(preds: Seq<PredicateView>, field: Seq<char>) -> bool {
    exists|i: int|
        0 <= i < preds.len() && (#[trigger] preds[i]).kind == QueryPredicateKind::Eq
            && preds[i].field == field
}

/// How many of the fields, counted from `from`, are equated without a gap.
pub open spec fn prefix_from(fields: Seq<Seq<char>>, from: int, preds: Seq<PredicateView>) -> nat
    decreases fields.len() - from,
{
    if from < 0 || from >= fields.len() || !equated(preds, fields[from]) {
        0
    } else {
        1 + prefix_from(fields, from + 1, preds)
    }
}

/// The length of the prefix of an index that the predicates match.
pub open spec fn matched(index: IndexView, preds: Seq<PredicateView>) -> nat {
    prefix_from(index.fields, 0, preds)
}

/// Whether the index is unique and matched in full.
pub open spec fn pinned(index: IndexView, preds: Seq<PredicateView>) -> bool {
    index.unique && matched(index, preds) == index.fields.len()
}

/// Whether index `a` serves the predicates better than `b`.
pub open spec fn better(a: IndexView, b: IndexView, preds: Seq<PredicateView>) -> bool {
    (pinned(a, preds) && !pinned(b, preds)) || (pinned(a, preds) == pinned(b, preds) && matched(
        a,
        preds,
    ) > matched(b, preds))
}

/// Whether the choice among the first `n` indexes is right: none where no index
/// is matched at all, else the first of the best.
pub open spec fn chosen(
    indexes: Seq<IndexView>,
    n: int,
    preds: Seq<PredicateView>,
    choice: Option<int>,
) -> bool {
    match choice {
        None => forall|k: int| 0 <= k < n ==> matched(#[trigger] indexes[k], preds) == 0,
        Some(i) => {
            &&& 0 <= i < n
            &&& matched(indexes[i], preds) > 0
            &&& forall|k: int|
                0 <= k < n && matched(#[trigger] indexes[k], preds) > 0 ==> !better(
                    indexes[k],
                    indexes[i],
                    preds,
                )
            &&& forall|k: int|
                0 <= k < i && matched(#[trigger] indexes[k], preds) > 0 ==> better(
                    indexes[i],
                    indexes[k],
                    preds,
                )
        },
    }
}

/// The access path of a choice.
pub open spec fn access_of(
    indexes: Seq<IndexView>,
    preds: Seq<PredicateView>,
    choice: Option<int>,
) -> AccessView {
    match choice {
        None => AccessView::EntityScan,
        Some(i) => AccessView::Index {
            index: indexes[i],
            matched_prefix: matched(indexes[i], preds),
        },
    }
}

/// Whether an access path satisfies a predicate by itself.
pub open spec fn covers(access: AccessView, p: PredicateView) -> bool {
    match access {
        AccessView::EntityScan => false,
        AccessView::Index { index, matched_prefix } => p.kind == QueryPredicateKind::Eq
            && index.fields.take(matched_prefix as int).contains(p.field),
    }
}

/// The predicates that an access path leaves, in order.
pub open spec fn residual(access: AccessView, preds: Seq<PredicateView>) -> Seq<PredicateView> {
    preds.filter(|p: PredicateView| !covers(access, p))
}

/// The message on a field that the entity does not have.
pub open spec fn unknown_field(entity: Seq<char>, field: Seq<char>) -> Seq<char> {
    "query on '"@ + entity + "' references unknown state field '"@ + field + "'"@
}

/// Whether `i` is the first predicate on a field that the entity does not have.
pub open spec fn first_unknown(fields: Seq<Seq<char>>, preds: Seq<PredicateView>, i: int) -> bool {
    &&& 0 <= i < preds.len()
    &&& !fields.contains(preds[i].field)
    &&& forall|k: int| 0 <= k < i ==> fields.contains((#[trigger] preds[k]).field)
}

/// Whether a plan answers a query on an entity: refused at the first unknown
/// field, else with the chosen access path and what it leaves.
pub open spec fn plans(
    schema: SchemaView,
    preds: Seq<PredicateView>,
    r: Result<LogicalQueryPlan, String>,
) -> bool {
    match r {
        Err(msg) => exists|i: int|
            #[trigger] first_unknown(schema.fields, preds, i) && msg@ == unknown_field(
                schema.name,
                preds[i].field,
            ),
        Ok(plan) => {
            &&& forall|k: int|
                0 <= k < preds.len() ==> schema.fields.contains((#[trigger] preds[k]).field)
            &&& plan.entity@ == schema.name
            &&& exists|choice: Option<int>|
                #[trigger] chosen(schema.indexes, schema.indexes.len() as int, preds, choice)
                    && plan.access@ == access_of(schema.indexes, preds, choice)
            &&& predicate_views(plan.residual_predicates@) == residual(plan.access@, preds)
        },
    }
}

fn is_equated(preds: &Vec<QueryPredicate>, field: &str) -> (r: bool)
    ensures
        r == equated(predicate_views(preds@), field@),
{
    let ghost all = predicate_views(preds@);
    let mut i: usize = 0;
    while i < preds.len()
        invariant
            all == predicate_views(preds@),
            i <= preds@.len(),
            forall|k: int|
                0 <= k < i ==> !((#[trigger] all[k]).kind == QueryPredicateKind::Eq && all[k].field
                    == field@),
        decreases preds@.len() - i,
    {
        assert(all[i as int] == preds@[i as int]@);
        if preds[i].kind == QueryPredicateKind::Eq && str_eq(preds[i].field.as_str(), field) {
            return true;
        }
        i = i + 1;
    }
    false
}

fn matched_prefix(fields: &Vec<String>, preds: &Vec<QueryPredicate>) -> (n: usize)
    ensures
        n as nat == prefix_from(text::views(fields@), 0, predicate_views(preds@)),
        n <= fields@.len(),
{
    let ghost all = text::views(fields@);
    let ghost ps = predicate_views(preds@);
    let mut n: usize = 0;
    while n < fields.len()
        invariant
            all == text::views(fields@),
            ps == predicate_views(preds@),
            n <= fields@.len(),
            prefix_from(all, 0, ps) == n + prefix_from(all, n as int, ps),
        decreases fields@.len() - n,
    {
        assert(all[n as int] == fields@[n as int]@);
        if !is_equated(preds, fields[n].as_str()) {
            return n;
        }
        n = n + 1;
    }
    n
}

fn select(schema: &EntitySchema, preds: &Vec<QueryPredicate>) -> (r: Option<(usize, usize)>)
    ensures
        ({
            let choice = match r {
                Some((i, _)) => Some(i as int),
                None => None,
            };
            chosen(
                schema@.indexes,
                schema@.indexes.len() as int,
                predicate_views(preds@),
                choice,
            )
        }),
        r matches Some((i, p)) ==> p as nat == matched(
            schema@.indexes[i as int],
            predicate_views(preds@),
        ) && p <= schema@.indexes[i as int].fields.len(),
{
    let ghost all = schema@.indexes;
    let ghost ps = predicate_views(preds@);
    let mut best: Option<(usize, usize)> = None;
    let mut best_pinned: bool = false;
    let mut k: usize = 0;
    while k < schema.indexes.len()
        invariant
            all == schema@.indexes,
            ps == predicate_views(preds@),
            k <= schema.indexes@.len(),
            all.len() == schema.indexes@.len(),
            chosen(
                all,
                k as int,
                ps,
                match best {
                    Some((i, _)) => Some(i as int),
                    None => None,
                },
            ),
            best matches Some((i, p)) ==> p as nat == matched(all[i as int], ps) && best_pinned
                == pinned(all[i as int], ps) && p <= all[i as int].fields.len(),
        decreases schema.indexes@.len() - k,
    {
        let index: &IndexDecl = &schema.indexes[k];
        assert(all[k as int] == index_view(*index));
        let prefix: usize = matched_prefix(&index.fields, preds);
        if prefix > 0 {
            let full: bool = index.unique && prefix == index.fields.len();
            assert(full == pinned(all[k as int], ps));
            let replace: bool = match best {
                None => true,
                Some((_, p)) => (full && !best_pinned) || (full == best_pinned && prefix > p),
            };
            if replace {
                best = Some((k, prefix));
                best_pinned = full;
            }
        }
        k = k + 1;
    }
    best
}

fn keep_residual(access: &LogicalAccessPath, preds: &Vec<QueryPredicate>) -> (r: Vec<
    QueryPredicate,
>)
    requires
        access@ matches AccessView::Index { index, matched_prefix } ==> matched_prefix
            <= index.fields.len(),
    ensures
        predicate_views(r@) == residual(access@, predicate_views(preds@)),
{
    let ghost all = predicate_views(preds@);
    let ghost keep = |p: PredicateView| !covers(access@, p);
    let mut out: Vec<QueryPredicate> = Vec::new();
    let mut i: usize = 0;
    proof {
        reveal(Seq::filter);
        assert(predicate_views(out@) =~= all.take(0).filter(keep));
    }
    while i < preds.len()
        invariant
            access@ matches AccessView::Index { index, matched_prefix } ==> matched_prefix
                <= index.fields.len(),
            all == predicate_views(preds@),
            keep == (|p: PredicateView| !covers(access@, p)),
            i <= preds@.len(),
            predicate_views(out@) == all.take(i as int).filter(keep),
        decreases preds@.len() - i,
    {
        let ghost before = predicate_views(out@);
        let p: &QueryPredicate = &preds[i];
        let covered: bool = match access {
            LogicalAccessPath::EntityScan => false,
            LogicalAccessPath::Index { fields, matched_prefix, .. } => p.kind
                == QueryPredicateKind::Eq && among(fields, *matched_prefix, p.field.as_str()),
        };
        proof {
            reveal(Seq::filter);
            assert(all[i as int] == p@);
            assert(all.take(i + 1).drop_last() =~= all.take(i as int));
            assert(all.take(i + 1).last() == p@);
            assert(covered == covers(access@, p@));
        }
        if !covered {
            out.push(QueryPredicate { field: text(p.field.as_str()), kind: p.kind });
            assert(predicate_views(out@) =~= before.push(p@));
        }
        i = i + 1;
    }
    assert(all.take(preds@.len() as int) =~= all);
    out
}

fn among(fields: &Vec<String>, n: usize, field: &str) -> (r: bool)
    requires
        n <= fields@.len(),
    ensures
        r == text::views(fields@).take(n as int).contains(field@),
{
    let ghost head = text::views(fields@).take(n as int);
    let mut i: usize = 0;
    while i < n
        invariant
            n <= fields@.len(),
            head == text::views(fields@).take(n as int),
            i <= n,
            forall|k: int| 0 <= k < i ==> head[k] != field@,
        decreases n - i,
    {
        assert(head[i as int] == fields@[i as int]@);
        if str_eq(fields[i].as_str(), field) {
            return true;
        }
        i = i + 1;
    }
    false
}

/// Plans a query on an entity, see [`plans`].
pub fn plan_schema_query(schema: &EntitySchema, predicates: &Vec<QueryPredicate>) -> (r: Result<
    LogicalQueryPlan,
    String,
>)
    ensures
        plans(schema@, predicate_views(predicates@), r),
{
    let ghost ps = predicate_views(predicates@);
    let mut i: usize = 0;
    while i < predicates.len()
        invariant
            ps == predicate_views(predicates@),
            i <= predicates@.len(),
            forall|k: int| 0 <= k < i ==> schema@.fields.contains((#[trigger] ps[k]).field),
        decreases predicates@.len() - i,
    {
        assert(ps[i as int] == predicates@[i as int]@);
        if !contains_text(&schema.fields, predicates[i].field.as_str()) {
            assert(first_unknown(schema@.fields, ps, i as int));
            return Err(
                cat5(
                    "query on '",
                    schema.name.as_str(),
                    "' references unknown state field '",
                    predicates[i].field.as_str(),
                    "'",
                ),
            );
        }
        i = i + 1;
    }
    let selected: Option<(usize, usize)> = select(schema, predicates);
    let ghost choice: Option<int> = match selected {
        Some((i, _)) => Some(i as int),
        None => None,
    };
    let access: LogicalAccessPath = match selected {
        None => LogicalAccessPath::EntityScan,
        Some((at, prefix)) => {
            let index: &IndexDecl = &schema.indexes[at];
            assert(schema@.indexes[at as int] == index_view(*index));
            LogicalAccessPath::Index {
                name: text(index.name.as_str()),
                fields: clone_strings(&index.fields),
                unique: index.unique,
                matched_prefix: prefix,
            }
        },
    };
    assert(access@ =~= access_of(schema@.indexes, ps, choice));
    let residual_predicates: Vec<QueryPredicate> = keep_residual(&access, predicates);
    Ok(LogicalQueryPlan { entity: text(schema.name.as_str()), access, residual_predicates })
}

/// Plans a query on an actor's state.
pub fn plan_entity_query(actor: &ActorDef, predicates: &Vec<QueryPredicate>) -> (r: Result<
    LogicalQueryPlan,
    String,
>)
    ensures
        plans(schema_of(*actor), predicate_views(predicates@), r),
{
    let schema: EntitySchema = EntitySchema::from_actor(actor);
    plan_schema_query(&schema, predicates)
}

/// A suggested index.
#[derive(Debug, Clone, PartialEq, Eq)]
pub struct IndexSuggestion {
    pub name: String,
    pub fields: Vec<String>,
}

/// A remark on a plan.
#[derive(Debug, Clone, PartialEq, Eq)]
pub struct QueryPlanDiagnostic {
    pub code: &'static str,
    pub message: String,
    pub suggested_index: Option<IndexSuggestion>,
}

/// The content of a [`QueryPlanDiagnostic`]: code, message and the name and
/// fields of the index it suggests.
#[verifier::ext_equal]
pub struct RemarkView {
    pub code: Seq<char>,
    pub message: Seq<char>,
    pub suggested: Option<(Seq<char>, Seq<Seq<char>>)>,
}

impl View for QueryPlanDiagnostic {
    type V = RemarkView;

    open spec fn view(&self) -> RemarkView {
        RemarkView {
            code: self.code@,
            message: self.message@,
            suggested: match self.suggested_index {
                Some(s) => Some((s.name@, text::views(s.fields@))),
                None => None,
            },
        }
    }
}

/// The fields that the first `n` predicates equate, each once, in the order of
/// their first mention.
pub open spec fn equality_fields(preds: Seq<PredicateView>, n: nat) -> Seq<Seq<char>>
    decreases n,
{
    if n == 0 || n > preds.len() {
        Seq::empty()
    } else {
        let before = equality_fields(preds, (n - 1) as nat);
        if preds[n - 1].kind == QueryPredicateKind::Eq && !before.contains(preds[n - 1].field) {
            before.push(preds[n - 1].field)
        } else {
            before
        }
    }
}

/// The index that would serve the equality predicates.
pub open spec fn suggested(preds: Seq<PredicateView>) -> Option<(Seq<char>, Seq<Seq<char>>)> {
    let fields = equality_fields(preds, preds.len());
    if fields.len() == 0 {
        None
    } else {
        Some(("by_"@ + text::joined(fields, "_"@), fields))
    }
}

/// The remark on a scan.
pub open spec fn scan_remark(entity: Seq<char>, preds: Seq<PredicateView>) -> RemarkView {
    RemarkView {
        code: "NQ001"@,
        message: "query on '"@ + entity
            + "' requires an entity scan; no declared index matches its equality prefix"@,
        suggested: suggested(preds),
    }
}

/// The remark on residual predicates.
pub open spec fn residual_remark(entity: Seq<char>, n: nat) -> RemarkView {
    RemarkView {
        code: "NQ002"@,
        message: "query on '"@ + entity + "' has "@ + text::dec(n)
            + " residual predicate(s) evaluated after candidate lookup"@,
        suggested: None,
    }
}

/// The remarks on a plan: on a scan, then on residual predicates.
pub open spec fn remarks(plan: LogicalQueryPlan, preds: Seq<PredicateView>) -> Seq<RemarkView> {
    (if plan.access@ == AccessView::EntityScan {
        seq![scan_remark(plan.entity@, preds)]
    } else {
        Seq::empty()
    }) + (if plan.residual_predicates@.len() > 0 {
        seq![residual_remark(plan.entity@, plan.residual_predicates@.len())]
    } else {
        Seq::empty()
    })
}

/// The contents of remarks.
pub open spec fn remark_views(v: Seq<QueryPlanDiagnostic>) -> Seq<RemarkView> {
    v.map_values(|d: QueryPlanDiagnostic| d@)
}

fn equality_names(predicates: &Vec<QueryPredicate>) -> (r: Vec<String>)
    ensures
        text::views(r@) == equality_fields(predicate_views(predicates@), predicates@.len()),
{
    let ghost ps = predicate_views(predicates@);
    let mut out: Vec<String> = Vec::new();
    let mut i: usize = 0;
    assert(text::views(out@) =~= Seq::empty());
    while i < predicates.len()
        invariant
            ps == predicate_views(predicates@),
            i <= predicates@.len(),
            text::views(out@) == equality_fields(ps, i as nat),
        decreases predicates@.len() - i,
    {
        let ghost before = text::views(out@);
        assert(ps[i as int] == predicates@[i as int]@);
        if predicates[i].kind == QueryPredicateKind::Eq && !contains_text(
            &out,
            predicates[i].field.as_str(),
        ) {
            out.push(text(predicates[i].field.as_str()));
            assert(text::views(out@) =~= before.push(ps[i as int].field));
        }
        i = i + 1;
    }
    out
}

/// The remarks on a plan, see [`remarks`].
pub fn diagnose_query_plan(plan: &LogicalQueryPlan, predicates: &Vec<QueryPredicate>) -> (r: Vec<
    QueryPlanDiagnostic,
>)
    ensures
        remark_views(r@) == remarks(*plan, predicate_views(predicates@)),
{
    let ghost ps = predicate_views(predicates@);
    let mut diagnostics: Vec<QueryPlanDiagnostic> = Vec::new();
    let scan: bool = match &plan.access {
        LogicalAccessPath::EntityScan => true,
        LogicalAccessPath::Index { .. } => false,
    };
    if scan {
        let fields: Vec<String> = equality_names(predicates);
        let suggested_index: Option<IndexSuggestion> = if fields.len() == 0 {
            None
        } else {
            let name: String = cat2("by_", join(&fields, "_").as_str());
            Some(IndexSuggestion { name, fields })
        };
        let d: QueryPlanDiagnostic = QueryPlanDiagnostic {
            code: "NQ001",
            message: cat3(
                "query on '",
                plan.entity.as_str(),
                "' requires an entity scan; no declared index matches its equality prefix",
            ),
            suggested_index,
        };
        assert(d@ =~= scan_remark(plan.entity@, ps));
        diagnostics.push(d);
    }
    if plan.residual_predicates.len() > 0 {
        let mut message: String = cat3("query on '", plan.entity.as_str(), "' has ");
        push_dec(&mut message, plan.residual_predicates.len() as u64);
        message.append(" residual predicate(s) evaluated after candidate lookup");
        let d: QueryPlanDiagnostic = QueryPlanDiagnostic {
            code: "NQ002",
            message,
            suggested_index: None,
        };
        assert(d@ =~= residual_remark(plan.entity@, plan.residual_predicates@.len()));
        diagnostics.push(d);
    }
    assert(remark_views(diagnostics@) =~= remarks(*plan, ps));
    diagnostics
}

// ---------------------------------------------------------------------------
// Laws
// ---------------------------------------------------------------------------

/// The declarations and predicates leave no choice open: two right choices are
/// the same.
pub proof fn choice_is_unique(
    indexes: Seq<IndexView>,
    preds: Seq<PredicateView>,
    a: Option<int>,
    b: Option<int>,
)
    requires
        chosen(indexes, indexes.len() as int, preds, a),
        chosen(indexes, indexes.len() as int, preds, b),
    ensures
        a == b,
{
    match (a, b) {
        (Some(i), Some(j)) => {
            if i < j {
                assert(better(indexes[j], indexes[i], preds));
            } else if j < i {
                assert(better(indexes[i], indexes[j], preds));
            }
        },
        (Some(i), None) => {
            assert(matched(indexes[i], preds) == 0);
        },
        (None, Some(j)) => {
            assert(matched(indexes[j], preds) == 0);
        },
        (None, None) => {},
    }
}

/// A unique index that the predicates match in full is not passed over: the
/// choice is then unique and matched in full as well.
pub proof fn pinned_index_wins(
    indexes: Seq<IndexView>,
    preds: Seq<PredicateView>,
    choice: Option<int>,
    k: int,
)
    requires
        chosen(indexes, indexes.len() as int, preds, choice),
        0 <= k < indexes.len(),
        pinned(indexes[k], preds),
        indexes[k].fields.len() > 0,
    ensures
        choice matches Some(i) && pinned(indexes[i], preds),
{
    assert(matched(indexes[k], preds) > 0);
}

/// Where no unique index is matched in full, no other index has a longer matched
/// prefix than the chosen one, and the ones declared before have a shorter one.
pub proof fn longest_prefix_wins(
    indexes: Seq<IndexView>,
    preds: Seq<PredicateView>,
    i: int,
    k: int,
)
    requires
        chosen(indexes, indexes.len() as int, preds, Some(i)),
        0 <= k < indexes.len(),
        forall|j: int| 0 <= j < indexes.len() ==> !pinned(#[trigger] indexes[j], preds),
    ensures
        matched(indexes[k], preds) <= matched(indexes[i], preds),
        k < i ==> matched(indexes[k], preds) < matched(indexes[i], preds),
{
    assert(!pinned(indexes[k], preds) && !pinned(indexes[i], preds));
}

/// Every field of the matched prefix is equated by some predicate.
pub proof fn matched_prefix_is_equated(index: IndexView, preds: Seq<PredicateView>, k: int)
    requires
        0 <= k < matched(index, preds),
    ensures
        k < index.fields.len(),
        equated(preds, index.fields[k]),
{
    prefix_is_equated(index.fields, 0, preds, k);
}

proof fn prefix_is_equated(fields: Seq<Seq<char>>, from: int, preds: Seq<PredicateView>, k: int)
    requires
        0 <= from <= k < from + prefix_from(fields, from, preds),
    ensures
        k < fields.len(),
        equated(preds, fields[k]),
    decreases fields.len() - from,
{
    if from < k {
        prefix_is_equated(fields, from + 1, preds, k);
    }
}

/// No predicate is lost: each is either satisfied by the access path or left
/// as residual.
pub proof fn no_predicate_is_lost(access: AccessView, preds: Seq<PredicateView>, k: int)
    requires
        0 <= k < preds.len(),
    ensures
        covers(access, preds[k]) || residual(access, preds).contains(preds[k]),
{
    let keep = |p: PredicateView| !covers(access, p);
    if !covers(access, preds[k]) {
        assert(keep(preds[k]));
        preds.lemma_filter_contains(keep, k);
    }
}

/// A matched prefix goes as far as it can: it ends with the index or before a
/// field that no predicate equates.
pub proof fn matched_prefix_is_longest(index: IndexView, preds: Seq<PredicateView>)
    ensures
        matched(index, preds) <= index.fields.len(),
        matched(index, preds) < index.fields.len() ==> !equated(
            preds,
            index.fields[matched(index, preds) as int],
        ),
{
    prefix_is_longest(index.fields, 0, preds);
}

proof fn prefix_is_longest(fields: Seq<Seq<char>>, from: int, preds: Seq<PredicateView>)
    requires
        0 <= from <= fields.len(),
    ensures
        from + prefix_from(fields, from, preds) <= fields.len(),
        from + prefix_from(fields, from, preds) < fields.len() ==> !equated(
            preds,
            fields[from + prefix_from(fields, from, preds)],
        ),
    decreases fields.len() - from,
{
    if from < fields.len() && equated(preds, fields[from]) {
        prefix_is_longest(fields, from + 1, preds);
    }
}

/// A scan is chosen exactly where no index begins with an equated field.
pub proof fn scans_are_the_last_resort(
    indexes: Seq<IndexView>,
    preds: Seq<PredicateView>,
    choice: Option<int>,
)
    requires
        chosen(indexes, indexes.len() as int, preds, choice),
    ensures
        choice is None <==> (forall|k: int|
            0 <= k < indexes.len() ==> (#[trigger] indexes[k]).fields.len() == 0 || !equated(
                preds,
                indexes[k].fields[0],
            )),
{
    assert forall|k: int| 0 <= k < indexes.len() implies (matched(#[trigger] indexes[k], preds) == 0
        <==> indexes[k].fields.len() == 0 || !equated(preds, indexes[k].fields[0])) by {
        matched_prefix_is_longest(indexes[k], preds);
        if matched(indexes[k], preds) > 0 {
            matched_prefix_is_equated(indexes[k], preds, 0);
        }
    }
    if let Some(i) = choice {
        assert(matched(indexes[i], preds) > 0);
    }
}

/// What remains to be tested after an access is, in its order, every predicate
/// but the equalities on the matched fields; a scan leaves all.
pub proof fn residual_predicates_remain(
    access: AccessView,
    preds: Seq<PredicateView>,
    p: PredicateView,
)
    ensures
        residual(access, preds).contains(p) <==> preds.contains(p) && (match access {
            AccessView::EntityScan => true,
            AccessView::Index { index, matched_prefix } => p.kind != QueryPredicateKind::Eq || !(
            exists|k: int|
                0 <= k < index.fields.take(matched_prefix as int).len()
                    && #[trigger] index.fields.take(matched_prefix as int)[k] == p.field),
        }),
        access is EntityScan ==> residual(access, preds) == preds,
{
    let left = residual(access, preds);
    let keep = |p: PredicateView| !covers(access, p);
    if left.contains(p) {
        let i = choose|i: int| 0 <= i < left.len() && left[i] == p;
        preds.lemma_filter_pred(keep, i);
        preds.lemma_filter_contains_rev(keep, p);
    }
    if preds.contains(p) && !covers(access, p) {
        let i = choose|i: int| 0 <= i < preds.len() && preds[i] == p;
        preds.lemma_filter_contains(keep, i);
    }
    if access is EntityScan {
        nothing_is_filtered(preds, keep);
    }
}

proof fn nothing_is_filtered(preds: Seq<PredicateView>, keep: spec_fn(PredicateView) -> bool)
    requires
        forall|i: int| 0 <= i < preds.len() ==> keep(#[trigger] preds[i]),
    ensures
        preds.filter(keep) == preds,
    decreases preds.len(),
{
    reveal(Seq::filter);
    if preds.len() > 0 {
        let rest = preds.drop_last();
        assert forall|i: int| 0 <= i < rest.len() implies keep(#[trigger] rest[i]) by {
            assert(rest[i] == preds[i]);
        }
        nothing_is_filtered(rest, keep);
        assert(keep(preds[preds.len() - 1]));
        assert(preds =~= rest.push(preds.last()));
    }
}

/// The suggested index has exactly the equated fields, each once.
pub proof fn suggested_fields_are_the_equated(preds: Seq<PredicateView>, n: nat, field: Seq<char>)
    requires
        n <= preds.len(),
    ensures
        equality_fields(preds, n).no_duplicates(),
        equality_fields(preds, n).contains(field) <==> equated(preds.take(n as int), field),
    decreases n,
{
    if n > 0 {
        let p = (n - 1) as nat;
        let before = equality_fields(preds, p);
        suggested_fields_are_the_equated(preds, p, field);
        let old_preds = preds.take(p as int);
        let new_preds = preds.take(n as int);
        assert(new_preds[n - 1] == preds[n - 1]);
        assert forall|i: int| 0 <= i < p implies #[trigger] new_preds[i] == old_preds[i] by {}
        if equated(old_preds, field) {
            let i = choose|i: int|
                0 <= i < old_preds.len() && (#[trigger] old_preds[i]).kind
                    == QueryPredicateKind::Eq && old_preds[i].field == field;
            assert(new_preds[i] == old_preds[i]);
        }
        if equated(new_preds, field) {
            let i = choose|i: int|
                0 <= i < new_preds.len() && (#[trigger] new_preds[i]).kind
                    == QueryPredicateKind::Eq && new_preds[i].field == field;
            if i < p {
                assert(old_preds[i] == new_preds[i]);
            }
        }
        let after = equality_fields(preds, n);
        if before.contains(field) {
            let k = choose|k: int| 0 <= k < before.len() && before[k] == field;
            assert(after[k] == field);
        }
        if after.len() > before.len() {
            assert(after[before.len() as int] == preds[n - 1].field);
            if after.contains(field) && field != preds[n - 1].field {
                let k = choose|k: int| 0 <= k < after.len() && after[k] == field;
                assert(before[k] == field);
            }
        }
    }
}

/// A plan is remarked on exactly where it scans or leaves predicates, each time
/// with a code of its own.
pub proof fn remarks_tell_scans_and_residuals(plan: LogicalQueryPlan, preds: Seq<PredicateView>)
    ensures
        ({
            let r = remarks(plan, preds);
            let scans = plan.access@ is EntityScan;
            let leaves = plan.residual_predicates@.len() > 0;
            &&& r.len() == (if scans { 1int } else { 0 }) + (if leaves { 1int } else { 0 })
            &&& scans ==> r[0].code == "NQ001"@ && r[0].suggested == suggested(preds)
            &&& leaves ==> r.last().code == "NQ002"@ && r.last().suggested is None
        }),
{
}

/// Whether a declaration gives an entity: a persistent actor, itself or in a
/// nested module.
pub open spec fn gives_entity(d: Decl, s: SchemaView) -> bool
    decreases d,
{
    match d {
        Decl::Actor(a) => a.persistent && s == schema_of(a),
        Decl::Module { decls, .. } => exists|i: int|
            0 <= i < decls@.len() && gives_entity(#[trigger] decls@[i], s),
        Decl::Other => false,
    }
}

/// The entities of a program are exactly its persistent actors, nested or not.
pub proof fn entities_are_the_persistent_actors(decls: Seq<Decl>, n: nat, s: SchemaView)
    requires
        n <= decls.len(),
    ensures
        schemas_of(decls, n).contains(s) <==> exists|i: int|
            0 <= i < n && gives_entity(#[trigger] decls[i], s),
    decreases decls, n,
{
    if n > 0 {
        let p = (n - 1) as nat;
        entities_are_the_persistent_actors(decls, p, s);
        let a = schemas_of(decls, p);
        let d = decls[n - 1];
        let b = match d {
            Decl::Actor(x) => if x.persistent {
                seq![schema_of(x)]
            } else {
                Seq::empty()
            },
            Decl::Module { decls: nested, .. } => schemas_of(nested@, nested@.len()),
            Decl::Other => Seq::empty(),
        };
        if a.contains(s) {
            let k = choose|k: int| 0 <= k < a.len() && a[k] == s;
            assert((a + b)[k] == s);
        }
        if b.contains(s) {
            let k = choose|k: int| 0 <= k < b.len() && b[k] == s;
            assert((a + b)[a.len() + k] == s);
        }
        if (a + b).contains(s) {
            let k = choose|k: int| 0 <= k < (a + b).len() && (a + b)[k] == s;
            if k < a.len() {
                assert(a[k] == s);
            } else {
                assert(b[k - a.len()] == s);
            }
        }
        match d {
            Decl::Actor(x) => {
                if x.persistent {
                    assert(b[0] == schema_of(x));
                }
            },
            Decl::Module { decls: nested, .. } => {
                assert(decreases_to!(decls => nested@));
                entities_are_the_persistent_actors(nested@, nested@.len(), s);
            },
            Decl::Other => {},
        }
        assert(gives_entity(decls[n - 1], s) == gives_entity(d, s));
    }
}

/// An entity has the name, the fields and the indexes of its actor, in order.
pub proof fn entities_describe_their_actor(actor: ActorDef)
    ensures
        ({
            let s = schema_of(actor);
            &&& s.name == actor.name@
            &&& s.fields.len() == actor.state_fields@.len()
            &&& forall|i: int|
                0 <= i < s.fields.len() ==> #[trigger] s.fields[i] == actor.state_fields@[i].name@
            &&& s.indexes.len() == actor.indexes@.len()
            &&& forall|i: int|
                0 <= i < s.indexes.len() ==> (#[trigger] s.indexes[i]).name
                    == actor.indexes@[i].name@ && s.indexes[i].unique == actor.indexes@[i].unique
                    && s.indexes[i].fields == text::views(actor.indexes@[i].fields@)
        }),
{
}

} // verus!
