use nulang::diagnostic::{format_diagnostic, format_warning, render, render_warning};
use nulang::types::{NuError, NuWarning, SourceMap, Span, VmSuspension};

/// Runs a check with the source map of a text.
fn with_source(source: &str, f: impl FnOnce(Option<&SourceMap>)) {
    let map = SourceMap::new(source, Some("test.nula"));
    f(Some(&map));
}

/// Offset of the first occurrence of `needle` in `source`.
fn offset_of(source: &str, needle: &str) -> usize {
    source.find(needle).expect("needle must exist in source")
}

// -- stable codes -----------------------------------------------------

#[test]
fn test_stable_code_categories_by_variant() {
    let span = Span::default();
    assert_eq!(
        NuError::LexError {
            msg: "bad char".into(),
            span
        }
        .stable_code(),
        Some("E0101")
    );
    assert_eq!(
        NuError::parse_error("oops".into(), span).stable_code(),
        Some("E0102")
    );
    assert_eq!(
        NuError::effect_error("nope".into(), span).stable_code(),
        Some("E0300")
    );
    assert_eq!(
        NuError::cap_error("bad cap".into(), span).stable_code(),
        Some("E0400")
    );
    assert_eq!(
        NuError::runtime_error("boom".into(), span).stable_code(),
        Some("E0501")
    );
    assert_eq!(
        NuError::vm_error("boom".into(), span).stable_code(),
        Some("E0502")
    );
    assert_eq!(
        NuError::ffi_error("bad ffi".into(), span).stable_code(),
        Some("E0601")
    );
    assert_eq!(
        NuError::Suspended(VmSuspension::SignalWait).stable_code(),
        None
    );
    assert_eq!(
        NuError::Multiple(vec![NuError::vm_error("x".into(), span)]).stable_code(),
        None
    );
}

#[test]
fn test_stable_code_prefers_fine_grained_classification() {
    let span = Span::default();
    let mismatch = NuError::type_mismatch("Int", "String", span);
    assert_eq!(mismatch.stable_code(), Some("E0201"));
    let unbound = NuError::unbound_variable("fooo", span, None);
    assert_eq!(unbound.stable_code(), Some("E0202"));
    let missing = NuError::missing_effects(vec!["IO".to_string()], "{}", span);
    assert_eq!(missing.stable_code(), Some("E0301"));
}

// -- ariadne rendering (snapshot-style) --------------------------------

#[test]
fn test_render_parse_error_snapshot() {
    let source = "fn main() {\n    let x = [1, 2;\n}\n";
    with_source(source, |map| {
        let start = offset_of(source, ";") as u32;
        let err = NuError::ParseError {
            msg: "Expected ']'".to_string(),
            span: Span::new(start, start + 1),
            expected: Some("']'".to_string()),
            found: Some("';'".to_string()),
        };
        let rendered = render(&err, map, false).expect("should render with source");
        assert_eq!(
            rendered,
            "[E0102] Error: Expected ']'\n   ╭─[test.nula:2:18]\n   │\n 2 │     let x = [1, 2;\n   │                  ┬  \n   │                  ╰── Expected ']'\n   │ \n   │ Help: unclosed bracket — add a `]` to close the list or array type\n   │ \n   │ Note: expected: ']'; found: ';'\n───╯\n"
        );
        // Plain Display output is unchanged (no code, plain prefix).
        assert!(err.to_string(map).starts_with("Parse error at 2:18:"));
    });
}

#[test]
fn test_render_type_mismatch_snapshot() {
    let source = "fn add(a: Int, b: Int) -> Int = a + b\nfn main() = add(1, \"two\")\n";
    with_source(source, |map| {
        let start = offset_of(source, "\"two\"") as u32;
        let err = NuError::TypeError {
            msg: "Cannot unify Int with String".to_string(),
            span: Span::new(start, start + 5),
            expected_type: Some("Int".to_string()),
            found_type: Some("String".to_string()),
            similar_names: None,
        };
        let rendered = render(&err, map, false).expect("should render with source");
        assert_eq!(
            rendered,
            "[E0201] Error: Cannot unify Int with String\n   ╭─[test.nula:2:20]\n   │\n 2 │ fn main() = add(1, \"two\")\n   │                    ──┬──  \n   │                      ╰──── Cannot unify Int with String\n   │ \n   │ Help: the expression produces the wrong type — consider adding a type annotation or conversion\n   │ \n   │ Note: expected type: Int; found type: String\n───╯\n"
        );
    });
}

#[test]
fn test_render_effect_error_snapshot() {
    let source = "fn greet() -> Unit = perform IO.print(\"hi\")\n";
    with_source(source, |map| {
        let start = offset_of(source, "perform") as u32;
        let err = NuError::EffectError {
            msg: "effects {IO} are not a subset of allowed effects {}".to_string(),
            span: Span::new(start, start + 7),
            missing_effects: Some(vec!["IO".to_string()]),
            allowed_effects: Some("{}".to_string()),
        };
        let rendered = render(&err, map, false).expect("should render with source");
        assert!(
            rendered.starts_with("[E0301] Error:"),
            "header: {rendered:?}"
        );
        assert!(rendered.contains("perform"));
        assert!(rendered.contains("missing effects: IO"));
        assert!(rendered.contains("allowed effects: {}"));
    });
}

#[test]
fn test_render_unbound_variable_with_suggestion() {
    let source = "fn main() = countr + 1\n";
    with_source(source, |map| {
        let start = offset_of(source, "countr") as u32;
        let err = NuError::unbound_variable(
            "countr",
            Span::new(start, start + 6),
            Some(vec!["counter".to_string()]),
        );
        let rendered = render(&err, map, false).expect("should render with source");
        assert!(
            rendered.starts_with("[E0202] Error:"),
            "header: {rendered:?}"
        );
        assert!(rendered.contains("Unbound variable"));
        assert!(rendered.contains("did you mean one of: counter?"));
    });
}

#[test]
fn test_render_returns_none_without_source_map() {
    let err = NuError::vm_error("boom".into(), Span::default());
    assert!(render(&err, None, false).is_none());
    assert!(render(&err, None, true).is_none());
}

#[test]
fn test_render_suspended_returns_none() {
    let err = NuError::Suspended(VmSuspension::ReceiveWait);
    assert!(render(&err, None, false).is_none());
}

// -- warnings (RFC 0015 deprecations) -----------------------------------

#[test]
fn test_render_warning_snapshot() {
    let source = "let port = catch parse_port(env) 8080\n";
    with_source(source, |map| {
        let start = offset_of(source, "catch") as u32;
        let w = NuWarning::deprecated_catch(Span::new(start, start + 5));
        let rendered = render_warning(&w, map, false).expect("should render with source");
        assert!(
            rendered.starts_with("[W0101] Warning:"),
            "header: {rendered:?}"
        );
        assert!(rendered.contains("deprecated `catch`"));
        assert!(rendered.contains("RFC 0015"), "help line: {rendered:?}");
    });
}

#[test]
fn test_format_warning_plain_fallback_without_source() {
    let w = NuWarning::deprecated_fail(Span::new(0, 4));
    let plain = format_warning(&w, None, false);
    assert_eq!(
        plain,
        "warning[W0102]: use of deprecated `fail` expression\n  = help: `fail` is deprecated by RFC 0015 and will be removed in v2.0 — use `return` with an explicit `Error(...)` value under a `T ! E` signature"
    );
}

#[test]
fn test_render_warning_returns_none_without_source_map() {
    let w = NuWarning::deprecated_catch(Span::default());
    assert!(render_warning(&w, None, false).is_none());
}

#[test]
fn test_render_multiple_renders_each_child() {
    let source = "fn main() = @\n";
    with_source(source, |map| {
        let at = offset_of(source, "@") as u32;
        let errs = NuError::Multiple(vec![
            NuError::LexError {
                msg: "unexpected character '@'".to_string(),
                span: Span::new(at, at + 1),
            },
            NuError::parse_error("Unexpected end of file".to_string(), Span::new(at, at + 1)),
        ]);
        let rendered = render(&errs, map, false).expect("should render with source");
        assert!(
            rendered.contains("[E0101] Error:"),
            "lex code: {rendered:?}"
        );
        assert!(
            rendered.contains("[E0102] Error:"),
            "parse code: {rendered:?}"
        );
    });
}

// -- canonical format_diagnostic entry point ---------------------------

#[test]
fn test_format_diagnostic_uses_ariadne_with_source_map() {
    let source = "fn main() = countr + 1\n";
    with_source(source, |map| {
        let start = offset_of(source, "countr") as u32;
        let err = NuError::unbound_variable(
            "countr",
            Span::new(start, start + 6),
            Some(vec!["counter".to_string()]),
        );
        let rendered = format_diagnostic(&err, map, false);
        assert!(
            rendered.contains("[E0202] Error:"),
            "should contain stable code header: {rendered:?}"
        );
        assert!(
            rendered.contains("countr"),
            "should contain source span: {rendered:?}"
        );
        assert!(
            rendered.contains("did you mean one of: counter?"),
            "should contain suggestion note: {rendered:?}"
        );
    });
}

#[test]
fn test_format_diagnostic_plain_fallback_without_source_map() {
    let err = NuError::type_mismatch("Int", "String", Span::default());
    let rendered = format_diagnostic(&err, None, false);
    assert!(
        rendered.starts_with("error[E0201]:"),
        "should start with rustc-style header: {rendered:?}"
    );
    assert!(
        rendered.contains("expected type: Int"),
        "should contain expected type: {rendered:?}"
    );
    assert!(
        rendered.contains("found type: String"),
        "should contain found type: {rendered:?}"
    );
    assert!(
        rendered.contains("= help:"),
        "should contain help line: {rendered:?}"
    );
}

#[test]
fn test_format_diagnostic_plain_effect_error() {
    let err = NuError::missing_effects(vec!["IO".to_string()], "{}", Span::default());
    let rendered = format_diagnostic(&err, None, false);
    assert!(
        rendered.contains("missing effects: IO"),
        "should contain missing effects: {rendered:?}"
    );
    assert!(
        rendered.contains("allowed effects: {}"),
        "should contain allowed effects: {rendered:?}"
    );
}

#[test]
fn test_format_diagnostic_multiple_renders_each_child() {
    let errs = NuError::Multiple(vec![
        NuError::vm_error("boom".into(), Span::default()),
        NuError::parse_error("oops".into(), Span::default()),
    ]);
    let rendered = format_diagnostic(&errs, None, false);
    assert!(rendered.contains("error[E0502]:"), "vm code: {rendered:?}");
    assert!(
        rendered.contains("error[E0102]:"),
        "parse code: {rendered:?}"
    );
}

#[test]
fn test_format_diagnostic_suspended_returns_info() {
    let err = NuError::Suspended(VmSuspension::SignalWait);
    let rendered = format_diagnostic(&err, None, false);
    assert!(rendered.contains("VM suspended"), "{rendered:?}");
}

// -- further rules -----------------------------------------------------

#[test]
fn colour_codes_appear_only_on_request() {
    let source = "fn main() = countr + 1\n";
    with_source(source, |map| {
        let err = NuError::vm_error("boom".into(), Span::new(12, 18));
        let plain = render(&err, map, false).unwrap();
        let colored = render(&err, map, true).unwrap();
        assert!(!plain.contains('\u{1b}'));
        assert!(colored.contains('\u{1b}'));
        assert!(plain.contains("boom") && plain.contains("test.nula:1:13"));
    });
}

#[test]
fn warnings_with_a_source_are_drawn() {
    let source = "fail oops\n";
    with_source(source, |map| {
        let w = NuWarning::deprecated_fail(Span::new(0, 4));
        let text = format_warning(&w, map, false);
        assert_eq!(text, render_warning(&w, map, false).unwrap());
        assert!(text.contains("deprecated `fail`"));
    });
}
