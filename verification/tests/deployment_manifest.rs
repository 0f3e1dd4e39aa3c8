use nulang::bytecode::{
    CodeModule, Constant, FfiType, ForeignFunctionDef, Instruction, NbcReader, OpCode,
};
use nulang::deployment_manifest::{
    CompiledExecutionManifest, ExecutionProfile, ModuleProfiler,
    DEPLOYMENT_MANIFEST_SCHEMA_VERSION,
};

/// What the feature analysis reports for a module with the given effects.
fn profile(effects: &[&str], reaches_host_boundary: bool) -> ExecutionProfile {
    ExecutionProfile {
        feature_names: Vec::new(),
        external_effects: effects.iter().map(|e| e.to_string()).collect(),
        external_effect_roots: effects
            .iter()
            .map(|e| e.split('.').next().unwrap_or("").to_string())
            .collect(),
        reaches_host_boundary,
        ephemeral: true,
        local_only: true,
    }
}

fn emit_effect(module: &mut CodeModule, name: &str) {
    let idx = module.add_constant(Constant::String(name.to_string()));
    module.emit(Instruction::new3(
        OpCode::Perform,
        ((idx >> 8) & 0xff) as u8,
        (idx & 0xff) as u8,
        0,
    ));
}

#[test]
fn manifest_is_bound_to_exact_artifact_bytes() {
    let module = CodeModule::new("manifest-test");
    let a = CompiledExecutionManifest::from_module_and_bytes(&module, b"artifact-a", &profile(&[], false));
    let b = CompiledExecutionManifest::from_module_and_bytes(&module, b"artifact-b", &profile(&[], false));
    assert_ne!(a.artifact_blake3, b.artifact_blake3);
    assert_eq!(a.schema_version, DEPLOYMENT_MANIFEST_SCHEMA_VERSION);
}

#[test]
fn manifest_exposes_compiled_effects_and_spawn_authority() {
    let mut module = CodeModule::new("manifest-test");
    emit_effect(&mut module, "DB.query");
    module.spawn_capability_grants.push((
        0,
        vec![
            "Net::TcpOut(api.example.com:443)".to_string(),
            "DB::Read(customers)".to_string(),
            "Net::TcpOut(api.example.com:443)".to_string(),
        ],
    ));

    let manifest = CompiledExecutionManifest::from_module_and_bytes(&module, b"nbc", &profile(&["DB.query"], true));
    assert_eq!(manifest.external_effects, vec!["DB.query"]);
    assert_eq!(manifest.external_effect_roots, vec!["DB"]);
    assert_eq!(
        manifest.spawn_capabilities,
        vec!["DB::Read(customers)", "Net::TcpOut(api.example.com:443)"]
    );
    assert!(manifest.reaches_host_boundary);
}

#[test]
fn manifest_exposes_exact_ffi_authority() {
    let mut module = CodeModule::new("manifest-test");
    module.foreign_functions.push(ForeignFunctionDef {
        library: "libc.so.6".to_string(),
        symbol: "getpid".to_string(),
        params: vec![],
        ret: FfiType::Int,
    });
    module.foreign_functions.push(ForeignFunctionDef {
        library: "libc.so.6".to_string(),
        symbol: "getuid".to_string(),
        params: vec![],
        ret: FfiType::Int,
    });

    let manifest = CompiledExecutionManifest::from_module_and_bytes(&module, b"nbc", &profile(&[], true));
    assert_eq!(manifest.ffi_libraries, vec!["libc.so.6"]);
    assert_eq!(
        manifest.ffi_functions,
        vec!["libc.so.6::getpid", "libc.so.6::getuid"]
    );
    assert!(manifest.reaches_host_boundary);
}

#[test]
fn manifest_json_has_stable_policy_fields() {
    let module = CodeModule::new("manifest-test");
    let manifest = CompiledExecutionManifest::from_module_and_bytes(&module, b"nbc", &profile(&[], false));
    let json = manifest.to_json();
    assert!(json.contains("\"schema_version\""));
    assert!(json.contains("\"artifact_blake3\""));
    assert!(json.contains("\"runtime_features\""));
    assert!(json.contains("\"external_effects\""));
    assert!(json.contains("\"ffi_functions\""));
}

#[test]
fn manifest_hash_covers_every_field() {
    let module = CodeModule::new("manifest-test");
    let a = CompiledExecutionManifest::from_module_and_bytes(&module, b"nbc", &profile(&[], false));
    let b = CompiledExecutionManifest::from_module_and_bytes(&module, b"nbc", &profile(&[], true));
    assert_eq!(a.artifact_blake3, blake3::hash(b"nbc").to_hex().to_string());
    assert_eq!(a.json_blake3(), blake3::hash(a.compact_json().as_bytes()).to_hex().to_string());
    assert_ne!(a.json_blake3(), b.json_blake3());
}

/// An artifact here is a magic word and the effects that the module performs.
struct EffectList;

impl NbcReader for EffectList {
    fn decode(&self, bytes: &[u8]) -> Result<CodeModule, String> {
        let text = String::from_utf8(bytes.to_vec()).map_err(|e| e.to_string())?;
        let mut words = text.split(' ');
        if words.next() != Some("NBC") {
            return Err("bad magic".to_string());
        }
        let mut module = CodeModule::new("manifest-test");
        for word in words {
            emit_effect(&mut module, word);
        }
        Ok(module)
    }
}

impl ModuleProfiler for EffectList {
    fn profile(&self, module: &CodeModule) -> ExecutionProfile {
        let mut effects = Vec::new();
        for instr in &module.instructions {
            if instr.opcode == OpCode::Perform {
                let idx = ((instr.op1 as usize) << 8) | instr.op2 as usize;
                if let Constant::String(name) = &module.constants[idx] {
                    effects.push(name.as_str());
                }
            }
        }
        profile(&effects, !effects.is_empty())
    }
}

#[test]
fn manifest_round_trips_from_real_nbc_bytes() {
    let bytes = b"NBC Net.fetch";
    let manifest =
        CompiledExecutionManifest::from_nbc_bytes(bytes, &EffectList).expect("decode nbc");
    assert_eq!(manifest.external_effects, vec!["Net.fetch"]);
    assert_eq!(
        manifest.artifact_blake3,
        blake3::hash(bytes).to_hex().to_string()
    );
}

#[test]
fn an_artifact_that_does_not_decode_has_no_manifest() {
    assert_eq!(
        CompiledExecutionManifest::from_nbc_bytes(b"ELF", &EffectList),
        Err("bad magic".to_string())
    );
}
