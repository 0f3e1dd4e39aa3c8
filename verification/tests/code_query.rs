use nulang::ast::{Decl, ExprId, ForeignFunction, Param};
use nulang::code_query::{
    analyze, format_report, help, parse_command, qualify, query_span, retain_exactly, retain_like,
    run, ParsedSource, QueryCommand, SourceLoader, QUERY_SCHEMA_VERSION,
};
use nulang::types::{NuError, NuResult, Span};

#[test]
fn query_span_uses_byte_offsets_and_one_based_positions() {
    let span = Span::new(3, 6);
    let s = "ab\nxyz\n";
    let q = query_span(span, "test.nula", s);
    assert_eq!(q.start_byte, 3);
    assert_eq!(q.end_byte, 6);
    assert_eq!((q.line, q.col), (2, 1));
    assert_eq!((q.end_line, q.end_col), (2, 4));
}

#[test]
fn qualify_nested_symbols() {
    assert_eq!(qualify("", "Foo"), "Foo");
    assert_eq!(qualify("Outer", "Foo"), "Outer::Foo");
}

const SOURCE: &str = "module Shop { fn total(price: Int) -> Int = price }\n";

fn decls() -> Vec<Decl> {
    let total = Decl::Function {
        name: "total".to_string(),
        type_params: Vec::new(),
        params: vec![Param {
            name: "price".to_string(),
            ty: Some("Int".to_string()),
            cap: None,
        }],
        using_params: Vec::new(),
        ret_type: Some("Int".to_string()),
        error_type: None,
        effect: Some("{IO}".to_string()),
        cap: None,
        public: true,
        body: ExprId(0),
        span: Span::new(14, 49),
    };
    let foreign = Decl::Foreign {
        funcs: vec![ForeignFunction {
            name: "getpid".to_string(),
            params: Vec::new(),
            ret: "Int".to_string(),
            span: Span::new(0, 1),
        }],
    };
    vec![Decl::Module {
        name: "Shop".to_string(),
        decls: vec![total, foreign, Decl::Impl],
        span: Span::new(0, 51),
    }]
}

#[test]
fn symbols_are_listed_with_their_signatures() {
    let report = analyze(&decls(), "shop.nula", SOURCE, "symbols");
    assert_eq!(report.schema_version, QUERY_SCHEMA_VERSION);
    assert!(report.ok);
    let names: Vec<&str> = report.symbols.iter().map(|s| s.qualified_name.as_str()).collect();
    assert_eq!(names, vec!["Shop", "Shop::total", "Shop::getpid"]);
    let total = &report.symbols[1];
    assert_eq!(total.kind, "function");
    assert_eq!(total.public, Some(true));
    assert_eq!(total.signature.as_deref(), Some("fn total(price: Int) -> Int"));
    assert_eq!(total.effects.as_deref(), Some("{IO}"));
    assert_eq!((total.span.line, total.span.col), (1, 15));
}

#[test]
fn filters_compare_names_without_case_or_exactly() {
    let all = || analyze(&decls(), "shop.nula", SOURCE, "symbols").symbols;
    assert_eq!(retain_like(all(), "TOTAL").len(), 1);
    assert_eq!(retain_like(all(), "shop").len(), 3);
    assert_eq!(retain_exactly(all(), "total").len(), 1);
    assert_eq!(retain_exactly(all(), "Shop::total").len(), 1);
    assert_eq!(retain_exactly(all(), "TOTAL").len(), 0);
}

fn words(list: &[&str]) -> Vec<String> {
    list.iter().map(|w| w.to_string()).collect()
}

#[test]
fn commands_are_read_from_arguments() {
    assert_eq!(parse_command(&words(&[])).unwrap(), QueryCommand::Help);
    assert_eq!(
        parse_command(&words(&["symbols", "a.nula", "--name", "x", "--json"])).unwrap(),
        QueryCommand::Symbols {
            file: "a.nula".to_string(),
            filter: Some("x".to_string()),
            json: true,
        }
    );
    assert_eq!(
        parse_command(&words(&["symbol", "x", "a.nula"])).unwrap(),
        QueryCommand::Symbol {
            name: "x".to_string(),
            file: "a.nula".to_string(),
            json: false,
        }
    );
    assert!(parse_command(&words(&["types"])).is_err());
    assert!(parse_command(&words(&["symbols"])).is_err());
    assert!(help().contains("nulang query symbols"));
}

struct Loader {
    fails: bool,
}

impl SourceLoader for Loader {
    fn load(&mut self, _file: &str) -> NuResult<ParsedSource> {
        if self.fails {
            return Err(NuError::vm_error("unreadable".to_string(), Span::default()));
        }
        Ok(ParsedSource {
            source: SOURCE.to_string(),
            decls: decls(),
        })
    }
}

#[test]
fn run_answers_with_the_selected_symbols() {
    let mut loader = Loader { fails: false };
    let (report, json) = run(&words(&["symbol", "total", "shop.nula"]), &mut loader)
        .unwrap()
        .unwrap();
    assert!(!json);
    assert_eq!(report.symbols.len(), 1);
    assert_eq!(format_report(&report).len(), 1);
    assert!(run(&words(&["help"]), &mut loader).unwrap().is_none());

    let (report, _) = run(&words(&["symbols", "shop.nula", "--name", "none"]), &mut loader)
        .unwrap()
        .unwrap();
    assert_eq!(format_report(&report), vec!["No matching symbols."]);
}

#[test]
fn loading_faults_are_passed_on() {
    let mut loader = Loader { fails: true };
    assert_eq!(
        run(&words(&["symbols", "shop.nula"]), &mut loader),
        Err(NuError::vm_error("unreadable".to_string(), Span::default()))
    );
}
