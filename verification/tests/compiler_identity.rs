use nulang::compiler_identity::artifact_identity_for_typed_program;

/// The canonical encoding of a program without declarations.
const EMPTY_PROGRAM: &[u8] = b"identity-test";

fn flags(names: &[&str]) -> Vec<String> {
    names.iter().map(|name| name.to_string()).collect()
}

#[test]
fn source_only_changes_do_not_change_semantic_or_artifact_identity() {
    let first = artifact_identity_for_typed_program(
        Some(b"fn main() { 1 }"),
        EMPTY_PROGRAM,
        &vec![],
        "nulangc-test",
        "x86_64-unknown-linux-gnu",
        "nulang-abi-v1",
        "bytecode",
        &flags(&["opt=0"]),
    );
    let reformatted = artifact_identity_for_typed_program(
        Some(b"fn main() {\n    1\n}"),
        EMPTY_PROGRAM,
        &vec![],
        "nulangc-test",
        "x86_64-unknown-linux-gnu",
        "nulang-abi-v1",
        "bytecode",
        &flags(&["opt=0"]),
    );

    assert_ne!(first.source, reformatted.source);
    assert_eq!(first.semantic, reformatted.semantic);
    assert_eq!(first.artifact_id(), reformatted.artifact_id());
}

#[test]
fn backend_configuration_changes_artifact_but_not_semantic_identity() {
    let native = artifact_identity_for_typed_program(
        None,
        EMPTY_PROGRAM,
        &vec![],
        "nulangc-test",
        "x86_64-unknown-linux-gnu",
        "nulang-abi-v1",
        "native",
        &flags(&["opt=3"]),
    );
    let wasm = artifact_identity_for_typed_program(
        None,
        EMPTY_PROGRAM,
        &vec![],
        "nulangc-test",
        "wasm32-wasip2",
        "nulang-abi-v1",
        "wasm",
        &flags(&["opt=3"]),
    );

    assert_eq!(native.semantic, wasm.semantic);
    assert_ne!(native.artifact_id(), wasm.artifact_id());
}
