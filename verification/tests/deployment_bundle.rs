use flate2::write::GzEncoder;
use flate2::Compression;
use nulang::admission_policy::{
    AdmissionDecision, AdmissionEnvironment, AdmissionEvaluator, AdmissionPolicy,
};
use nulang::bytecode::{CodeModule, NbcReader};
use nulang::deployment_bundle::{
    validate_archive_path, BundleReaders, DeploymentBundle, DeploymentBundleError, DeploymentIr,
    PackageIdentity, INCOMPLETE_METADATA_CAPABILITY,
};
use nulang::deployment_manifest::{CompiledExecutionManifest, ExecutionProfile, ModuleProfiler};

/// Readers of the packaged documents, as far as these archives need them.
struct Readers;

impl BundleReaders for Readers {
    fn package(&self, source: &[u8]) -> Result<PackageIdentity, String> {
        let text = String::from_utf8(source.to_vec()).map_err(|e| e.to_string())?;
        let value = |key: &str| {
            text.lines()
                .find_map(|line| line.strip_prefix(key))
                .and_then(|rest| rest.trim().strip_prefix('='))
                .map(|rest| rest.trim().trim_matches('"').to_string())
                .ok_or(format!("missing {key}"))
        };
        Ok(PackageIdentity {
            name: value("name")?,
            version: value("version")?,
        })
    }

    fn web_ir(&self, encoded: &[u8]) -> Result<DeploymentIr, String> {
        let value: serde_json::Value =
            serde_json::from_slice(encoded).map_err(|e| e.to_string())?;
        let capabilities = value["capabilities"]
            .as_array()
            .ok_or("missing capabilities")?
            .iter()
            .filter_map(|c| c.as_str().map(|c| c.to_string()))
            .collect();
        Ok(DeploymentIr {
            capabilities,
            encoded: encoded.to_vec(),
        })
    }
}

impl NbcReader for Readers {
    fn decode(&self, bytes: &[u8]) -> Result<CodeModule, String> {
        if !bytes.starts_with(b"NBC") {
            return Err("bad magic".to_string());
        }
        Ok(CodeModule::new("bundle-test"))
    }
}

impl ModuleProfiler for Readers {
    fn profile(&self, _module: &CodeModule) -> ExecutionProfile {
        ExecutionProfile {
            feature_names: Vec::new(),
            external_effects: Vec::new(),
            external_effect_roots: Vec::new(),
            reaches_host_boundary: false,
            ephemeral: true,
            local_only: true,
        }
    }
}

/// Rules that object to artifacts whose manifest reaches the host.
struct Rules;

impl AdmissionEvaluator for Rules {
    fn evaluate(
        &self,
        artifact: &[u8],
        policy: &AdmissionPolicy,
        environment: &AdmissionEnvironment,
    ) -> AdmissionDecision {
        let manifest = CompiledExecutionManifest::from_nbc_bytes(artifact, &Readers);
        let admitted = manifest.as_ref().is_ok_and(|m| !m.reaches_host_boundary);
        AdmissionDecision {
            admitted,
            artifact_blake3: blake3::hash(artifact).to_hex().to_string(),
            derived_manifest_blake3: manifest.ok().map(|m| m.json_blake3()),
            policy_id: policy.policy_id.clone(),
            policy_version: policy.policy_version,
            actual_isolation_level: environment.isolation_level,
            reason_count: usize::from(!admitted),
            encoded: format!("{{\"admitted\":{admitted}}}"),
        }
    }
}

/// Web metadata with the given capabilities.
fn ir_bytes(capabilities: &[&str]) -> Vec<u8> {
    let list = capabilities
        .iter()
        .map(|c| serde_json::Value::from(*c))
        .collect();
    let mut map = serde_json::Map::new();
    map.insert("capabilities".to_string(), serde_json::Value::Array(list));
    serde_json::to_vec(&serde_json::Value::Object(map)).expect("serialize ir")
}

fn package_manifest(name: &str) -> Vec<u8> {
    format!("[package]\nname = \"{name}\"\nversion = \"0.1.0\"\n").into_bytes()
}

fn make_bundle(mut entries: Vec<(&str, Vec<u8>)>) -> Vec<u8> {
    if !entries.iter().any(|(path, _)| *path == "Nulang.toml") {
        entries.insert(0, ("Nulang.toml", package_manifest("app")));
    }
    let mut output = Vec::new();
    {
        let gzip = GzEncoder::new(&mut output, Compression::default());
        let mut builder = tar::Builder::new(gzip);
        for (path, data) in entries {
            let mut header = tar::Header::new_gnu();
            header.set_size(data.len() as u64);
            header.set_mode(0o644);
            header.set_cksum();
            builder
                .append_data(&mut header, path, data.as_slice())
                .expect("append entry");
        }
        let gzip = builder.into_inner().expect("finish tar");
        gzip.finish().expect("finish gzip");
    }
    output
}

fn pure_nbc() -> Vec<u8> {
    b"NBC bundle-test".to_vec()
}

#[test]
fn parses_current_deploy_bundle_and_binds_package_identity() {
    let bytes = make_bundle(vec![(".nula/dist/app.nbc", pure_nbc())]);
    let bundle = DeploymentBundle::parse(&bytes, &Readers).expect("parse bundle");
    assert_eq!(bundle.package_manifest.name, "app");
    assert_eq!(bundle.artifact_path, ".nula/dist/app.nbc");
    assert_eq!(
        bundle.execution_manifest.artifact_blake3,
        blake3::hash(&bundle.artifact_bytes).to_hex().to_string()
    );

    let policy = AdmissionPolicy {
        policy_id: "tenant/default".to_string(),
        policy_version: 1,
        encoded: "{}".to_string(),
    };
    let environment = AdmissionEnvironment {
        isolation_level: 0,
        encoded: "{}".to_string(),
    };
    let decision = bundle.evaluate_admission(&policy, &environment, &Rules);
    assert!(decision.admitted, "{decision:?}");
}

#[test]
fn rejects_artifact_name_that_does_not_match_package() {
    let bytes = make_bundle(vec![(".nula/dist/other.nbc", pure_nbc())]);
    assert!(matches!(
        DeploymentBundle::parse(&bytes, &Readers),
        Err(DeploymentBundleError::ArtifactNameMismatch { .. })
    ));
}

#[test]
fn rejects_multiple_compiled_artifacts() {
    let bytes = make_bundle(vec![
        (".nula/dist/app.nbc", pure_nbc()),
        (".nula/dist/other.nbc", pure_nbc()),
    ]);
    assert!(matches!(
        DeploymentBundle::parse(&bytes, &Readers),
        Err(DeploymentBundleError::MultipleArtifacts)
    ));
}

#[test]
fn rejects_missing_compiled_artifact() {
    let bytes = make_bundle(vec![]);
    assert!(matches!(
        DeploymentBundle::parse(&bytes, &Readers),
        Err(DeploymentBundleError::MissingArtifact)
    ));
}

#[test]
fn rejects_missing_package_manifest() {
    let mut output = Vec::new();
    {
        let gzip = GzEncoder::new(&mut output, Compression::default());
        let mut builder = tar::Builder::new(gzip);
        let data = pure_nbc();
        let mut header = tar::Header::new_gnu();
        header.set_size(data.len() as u64);
        header.set_mode(0o644);
        header.set_cksum();
        builder
            .append_data(&mut header, ".nula/dist/app.nbc", data.as_slice())
            .expect("append entry");
        let gzip = builder.into_inner().expect("finish tar");
        gzip.finish().expect("finish gzip");
    }
    assert!(matches!(
        DeploymentBundle::parse(&output, &Readers),
        Err(DeploymentBundleError::MissingPackageManifest)
    ));
}

#[test]
fn rejects_incomplete_web_metadata() {
    let ir = ir_bytes(&[INCOMPLETE_METADATA_CAPABILITY]);
    let bytes = make_bundle(vec![
        (".nula/dist/app.nbc", pure_nbc()),
        ("dist/nulang-app.ir.json", ir),
    ]);
    assert!(matches!(
        DeploymentBundle::parse(&bytes, &Readers),
        Err(DeploymentBundleError::IncompleteDeploymentMetadata)
    ));
}

#[test]
fn archive_path_validation_rejects_traversal_and_absolute_paths() {
    assert!(matches!(
        validate_archive_path("../escape"),
        Err(DeploymentBundleError::UnsafePath { .. })
    ));
    assert!(matches!(
        validate_archive_path("/absolute/path"),
        Err(DeploymentBundleError::UnsafePath { .. })
    ));
    assert!(validate_archive_path(".nula/dist/app.nbc").is_ok());
}

#[test]
fn rejects_invalid_nbc_payload() {
    let bytes = make_bundle(vec![(".nula/dist/app.nbc", b"not-nbc".to_vec())]);
    assert!(matches!(
        DeploymentBundle::parse(&bytes, &Readers),
        Err(DeploymentBundleError::InvalidArtifact(_))
    ));
}

#[test]
fn web_ir_round_trips_when_complete() {
    let ir = ir_bytes(&[]);
    let bytes = make_bundle(vec![
        (".nula/dist/app.nbc", pure_nbc()),
        ("dist/nulang-app.ir.json", ir),
    ]);
    let bundle = DeploymentBundle::parse(&bytes, &Readers).expect("parse bundle");
    assert!(bundle.web_ir.is_some());
}

#[test]
fn archive_that_is_no_gzip_stream_is_reported() {
    assert!(matches!(
        DeploymentBundle::parse(b"plain bytes", &Readers),
        Err(DeploymentBundleError::Archive(_))
    ));
}

#[test]
fn counts_cover_every_entry() {
    let bytes = make_bundle(vec![
        (".nula/dist/app.nbc", pure_nbc()),
        ("assets/logo.txt", b"logo".to_vec()),
    ]);
    let bundle = DeploymentBundle::parse(&bytes, &Readers).expect("parse bundle");
    assert_eq!(bundle.entry_count, 3);
    let total = package_manifest("app").len() + pure_nbc().len() + 4;
    assert_eq!(bundle.expanded_bytes, total as u64);
    assert_eq!(bundle.package_name(), "app");
    assert_eq!(bundle.artifact_bytes, pure_nbc());
}

#[test]
fn repeated_documents_are_rejected() {
    let bytes = make_bundle(vec![
        ("Nulang.toml", package_manifest("app")),
        ("Nulang.toml", package_manifest("app")),
        (".nula/dist/app.nbc", pure_nbc()),
    ]);
    assert!(matches!(
        DeploymentBundle::parse(&bytes, &Readers),
        Err(DeploymentBundleError::MultiplePackageManifests)
    ));
    let bytes = make_bundle(vec![
        (".nula/dist/app.nbc", pure_nbc()),
        ("dist/nulang-app.ir.json", ir_bytes(&[])),
        ("dist/nulang-app.ir.json", ir_bytes(&[])),
    ]);
    assert!(matches!(
        DeploymentBundle::parse(&bytes, &Readers),
        Err(DeploymentBundleError::MultipleDeploymentIr)
    ));
}

#[test]
fn unreadable_documents_are_reported() {
    let bytes = make_bundle(vec![
        ("Nulang.toml", b"nothing here".to_vec()),
        (".nula/dist/app.nbc", pure_nbc()),
    ]);
    assert!(matches!(
        DeploymentBundle::parse(&bytes, &Readers),
        Err(DeploymentBundleError::InvalidPackageManifest(_))
    ));
    let bytes = make_bundle(vec![
        (".nula/dist/app.nbc", pure_nbc()),
        ("dist/nulang-app.ir.json", b"{".to_vec()),
    ]);
    assert!(matches!(
        DeploymentBundle::parse(&bytes, &Readers),
        Err(DeploymentBundleError::InvalidDeploymentIr(_))
    ));
}
