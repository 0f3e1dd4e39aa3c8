use nulang::ast::{Decl, ExprId, Param};
use nulang::compiler_api::{
    compile_source_to_wasm, compile_source_to_wasm_with_grants, CapCheck, FrontEnd,
};
use nulang::types::{NuError, NuResult, Span};

/// A front end that knows the programs below.
#[derive(Default)]
struct Front {
    seen: Vec<String>,
    refused_body: Option<u32>,
}

fn main_function(body: u32) -> Decl {
    Decl::Function {
        name: "main".to_string(),
        type_params: Vec::new(),
        params: vec![Param {
            name: "world".to_string(),
            ty: None,
            cap: Some("iso".to_string()),
        }],
        using_params: Vec::new(),
        ret_type: None,
        error_type: None,
        effect: None,
        cap: None,
        public: false,
        body: ExprId(body),
        span: Span::new(0, 4),
    }
}

impl FrontEnd for Front {
    fn parse_prelude(&mut self) -> NuResult<Vec<Decl>> {
        self.seen.push("prelude".to_string());
        Ok(vec![
            Decl::EffectDecl {
                name: "IO".to_string(),
                span: Span::new(0, 1),
            },
            Decl::VariantType {
                name: "Option".to_string(),
                type_params: vec!["T".to_string()],
                variants: vec![("Some".to_string(), Some("T".to_string()))],
                public: true,
                span: Span::new(2, 9),
            },
        ])
    }

    fn parse_source(&mut self, source: &str) -> NuResult<Vec<Decl>> {
        self.seen.push("source".to_string());
        let mut decls = Vec::new();
        if let Some(rest) = source.strip_prefix("import ") {
            decls.push(Decl::Import {
                path: rest.lines().next().unwrap_or("").to_string(),
                span: Span::new(0, 15),
            });
        }
        decls.push(main_function(if source.contains("true + 1") { 2 } else { 1 }));
        Ok(decls)
    }

    fn check_types(&mut self, decls: &Vec<Decl>) -> NuResult<()> {
        self.seen.push(format!("types {}", decls.len()));
        for decl in decls {
            if let Decl::Function { body: ExprId(2), span, .. } = decl {
                return Err(NuError::type_mismatch("Int", "Bool", *span));
            }
        }
        Ok(())
    }

    fn check_effects(&mut self, _decls: &Vec<Decl>, grants: &Vec<String>) -> NuResult<()> {
        self.seen.push(format!("effects {}", grants.join(",")));
        Ok(())
    }

    fn check_routes(&mut self, _decls: &Vec<Decl>) -> usize {
        self.seen.push("routes".to_string());
        0
    }

    fn check_body(&mut self, check: &CapCheck) -> NuResult<()> {
        self.seen.push(format!("body {}", check.body.0));
        if self.refused_body == Some(check.body.0) {
            return Err(NuError::cap_error("not sendable".to_string(), Span::new(0, 1)));
        }
        Ok(())
    }

    fn emit(&mut self, _decls: &Vec<Decl>, module_name: &str) -> NuResult<Vec<u8>> {
        self.seen.push(format!("emit {module_name}"));
        Ok(b"\0asm\x01\0\0\0".to_vec())
    }
}

#[test]
fn inprocess_compile_produces_core_wasm() {
    let mut front = Front::default();
    let wasm =
        compile_source_to_wasm(&mut front, "fn main() { 1 + 1 }", "embedded-test").unwrap();
    assert!(wasm.len() >= 8);
    assert_eq!(&wasm[..4], b"\0asm");
}

#[test]
fn inprocess_compile_propagates_frontend_errors() {
    let mut front = Front::default();
    let error = compile_source_to_wasm(&mut front, "fn main() { true + 1 }", "bad-types")
        .expect_err("invalid source must not compile");
    assert!(matches!(error, NuError::TypeError { .. }));
}

#[test]
fn inprocess_compile_rejects_ambient_import_resolution() {
    let mut front = Front::default();
    let error = compile_source_to_wasm(&mut front, "import Foo::Bar\nfn main() { 1 }", "imports")
        .expect_err("source-only compiler must reject imports");
    assert!(error.to_string(None).contains("does not resolve import"));
}

#[test]
fn gates_run_in_order_before_code_is_emitted() {
    let mut front = Front::default();
    let grants = vec!["Net::TcpOut(api:443)".to_string()];
    compile_source_to_wasm_with_grants(&mut front, "fn main() { 1 }", "m", &grants).unwrap();
    assert_eq!(
        front.seen,
        vec![
            "prelude",
            "source",
            "types 2",
            "effects Net::TcpOut(api:443)",
            "routes",
            "body 1",
            "emit m",
        ]
    );
}

#[test]
fn refused_body_stops_the_compilation() {
    let mut front = Front {
        seen: Vec::new(),
        refused_body: Some(1),
    };
    let error = compile_source_to_wasm(&mut front, "fn main() { 1 }", "m").unwrap_err();
    assert!(matches!(error, NuError::CapError { .. }));
    assert_eq!(front.seen.last().map(|s| s.as_str()), Some("body 1"));
}
