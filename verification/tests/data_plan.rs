use nulang::ast::IndexDecl;
use nulang::data_plan::{
    collect_entity_schemas, diagnose_query_plan, plan_entity_query, plan_schema_query,
    EntitySchema, IndexSuggestion, LogicalAccessPath, QueryPredicate,
};
use nulang::hir::{ActorDef, Decl, Module, StateField, StateModel};
use nulang::types::Span;

fn field(name: &str) -> StateField {
    StateField {
        name: name.to_string(),
        model: StateModel::EventSourced,
    }
}

fn actor() -> ActorDef {
    ActorDef {
        name: "Customer".to_string(),
        persistent: true,
        state_fields: vec![field("email"), field("company"), field("status")],
        indexes: vec![
            IndexDecl {
                name: "email".to_string(),
                fields: vec!["email".to_string()],
                unique: true,
                span: Span::default(),
            },
            IndexDecl {
                name: "by_company_status".to_string(),
                fields: vec!["company".to_string(), "status".to_string()],
                unique: false,
                span: Span::default(),
            },
        ],
        behaviors: vec![],
        is_workflow: false,
        is_organization: false,
        is_agent: false,
    }
}

#[test]
fn fully_matched_unique_index_wins() {
    let plan = plan_entity_query(
        &actor(),
        &vec![QueryPredicate::eq("email"), QueryPredicate::eq("company")],
    )
    .unwrap();

    assert!(matches!(
        plan.access,
        LogicalAccessPath::Index {
            ref name,
            unique: true,
            matched_prefix: 1,
            ..
        } if name == "email"
    ));
    assert_eq!(
        plan.residual_predicates,
        vec![QueryPredicate::eq("company")]
    );
}

#[test]
fn composite_index_supports_left_prefix_lookup() {
    let plan = plan_entity_query(&actor(), &vec![QueryPredicate::eq("company")]).unwrap();

    assert!(matches!(
        plan.access,
        LogicalAccessPath::Index {
            ref name,
            matched_prefix: 1,
            ..
        } if name == "by_company_status"
    ));
    assert!(plan.residual_predicates.is_empty());
}

#[test]
fn non_prefix_filter_falls_back_to_entity_scan() {
    let plan = plan_entity_query(&actor(), &vec![QueryPredicate::eq("status")]).unwrap();

    assert_eq!(plan.access, LogicalAccessPath::EntityScan);
    assert_eq!(plan.residual_predicates, vec![QueryPredicate::eq("status")]);
}

#[test]
fn range_filter_is_residual_in_phase_two_planner() {
    let plan = plan_entity_query(
        &actor(),
        &vec![
            QueryPredicate::eq("company"),
            QueryPredicate::range("status"),
        ],
    )
    .unwrap();

    assert!(matches!(
        plan.access,
        LogicalAccessPath::Index {
            ref name,
            matched_prefix: 1,
            ..
        } if name == "by_company_status"
    ));
    assert_eq!(
        plan.residual_predicates,
        vec![QueryPredicate::range("status")]
    );
}

#[test]
fn scan_diagnostic_suggests_equality_index_without_cost_guessing() {
    let schema = EntitySchema {
        name: "Customer".to_string(),
        fields: vec!["company".to_string(), "status".to_string()],
        indexes: vec![],
    };
    let predicates = vec![QueryPredicate::eq("company"), QueryPredicate::eq("status")];
    let plan = plan_schema_query(&schema, &predicates).unwrap();
    let diagnostics = diagnose_query_plan(&plan, &predicates);

    assert_eq!(diagnostics[0].code, "NQ001");
    assert_eq!(
        diagnostics[0].suggested_index,
        Some(IndexSuggestion {
            name: "by_company_status".to_string(),
            fields: vec!["company".to_string(), "status".to_string()],
        })
    );
}

#[test]
fn indexed_query_reports_only_residual_work() {
    let predicates = vec![
        QueryPredicate::eq("company"),
        QueryPredicate::range("status"),
    ];
    let plan = plan_entity_query(&actor(), &predicates).unwrap();
    let diagnostics = diagnose_query_plan(&plan, &predicates);

    assert_eq!(diagnostics.len(), 1);
    assert_eq!(diagnostics[0].code, "NQ002");
    assert!(diagnostics[0].suggested_index.is_none());
}

#[test]
fn unknown_query_field_fails_before_backend_selection() {
    let err = plan_entity_query(&actor(), &vec![QueryPredicate::eq("missing")]).unwrap_err();
    assert!(err.contains("unknown state field 'missing'"));
}

#[test]
fn schemas_of_nested_modules_are_collected() {
    let module = Module {
        name: "shop".to_string(),
        decls: vec![Decl::Module {
            name: "inner".to_string(),
            decls: vec![Decl::Actor(actor())],
        }],
    };
    let schemas = collect_entity_schemas(&module);
    assert_eq!(schemas.len(), 1);
    assert_eq!(schemas[0].fields, vec!["email", "company", "status"]);
    assert_eq!(schemas[0].indexes.len(), 2);
}

#[test]
fn whole_composite_index_beats_its_prefix() {
    let mut wide = actor();
    wide.indexes.insert(
        0,
        IndexDecl {
            name: "by_company".to_string(),
            fields: vec!["company".to_string()],
            unique: false,
            span: Span::default(),
        },
    );
    let plan = plan_entity_query(
        &wide,
        &vec![QueryPredicate::eq("company"), QueryPredicate::eq("status")],
    )
    .unwrap();
    assert!(matches!(
        plan.access,
        LogicalAccessPath::Index { ref name, matched_prefix: 2, .. } if name == "by_company_status"
    ));
    assert!(plan.residual_predicates.is_empty());
}
