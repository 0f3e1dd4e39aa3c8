use nulang::ast::Decl;
use nulang::cli::behavior::{
    contains_import, cwasm_path, default_manifest_path, default_output_path, parse_artifact_kind,
    parse_build_args, parse_emit_args, ArtifactKind,
};
use nulang::cli::bench::{
    delta, is_known, is_selected, parse_bench_args, BenchCommand, JitCompileStats, OutputFormat,
};
use nulang::cli::cache::{needs_new_journal, parse_cache_args, CacheDurabilityMode};
use nulang::cli::campaign::{parse_campaign_args, parse_u64};
use nulang::cli::shards::{parse_shards, shard_workload};
use nulang::types::Span;
use std::time::Instant;

fn words(list: &[&str]) -> Vec<String> {
    list.iter().map(|w| w.to_string()).collect()
}

// ---------------------------------------------------------------------------
// Behavior manifests
// ---------------------------------------------------------------------------

#[test]
fn manifest_path_replaces_wasm_extension() {
    assert_eq!(
        default_manifest_path(".nula/dist/demo.wasm"),
        ".nula/dist/demo.behavior.json"
    );
}

#[test]
fn required_dependency_provenance_fails_closed() {
    let error = parse_build_args(&words(&[
        "--source",
        "src/main.nula",
        "--package-name",
        "demo",
        "--package-version",
        "0.1.0",
        "--out",
        "demo.wasm",
    ]))
    .unwrap_err();
    assert!(error.contains("--dependency-lock"));
}

#[test]
fn nested_imports_are_rejected() {
    // module X { import stdlib::web }
    let decls = vec![Decl::Module {
        name: "X".to_string(),
        decls: vec![Decl::Import {
            path: "stdlib::web".to_string(),
            span: Span::new(11, 29),
        }],
        span: Span::new(0, 31),
    }];
    assert!(contains_import(&decls));
}

#[test]
fn artifact_kind_parser_is_strict() {
    assert_eq!(
        parse_artifact_kind("wasm-module").unwrap(),
        ArtifactKind::WasmModule
    );
    assert!(parse_artifact_kind("wasm").is_err());
}

#[test]
fn required_provenance_inputs_fail_closed() {
    let error = parse_emit_args(&words(&[
        "--source",
        "main.nula",
        "--artifact",
        "main.wasm",
        "--artifact-kind",
        "wasm-module",
        "--package-name",
        "demo",
        "--package-version",
        "0.1.0",
    ]))
    .unwrap_err();
    assert!(error.contains("--dependency-lock"));
}

#[test]
fn output_path_is_adjacent_to_artifact() {
    assert_eq!(
        default_output_path("dist/demo.wasm"),
        "dist/demo.wasm.behavior.json"
    );
}

#[test]
fn complete_build_arguments_are_kept() {
    let options = parse_build_args(&words(&[
        "--source",
        "src/main.nula",
        "--package-name",
        "demo",
        "--package-version",
        "0.1.0",
        "--dependency-lock",
        "nula.lock",
        "--out",
        "dist/demo.wasm",
    ]))
    .unwrap()
    .unwrap();
    assert_eq!(options.source, "src/main.nula");
    assert_eq!(options.manifest_out, "dist/demo.behavior.json");
    assert!(options.grants.is_empty());
    assert_eq!(cwasm_path(&options.out), "dist/demo.cwasm");
    assert!(parse_build_args(&words(&["--help"])).unwrap().is_none());
}

// ---------------------------------------------------------------------------
// Benchmarks
// ---------------------------------------------------------------------------

#[test]
fn bench_arguments_select_one_workload() {
    let args = words(&["--format", "jsonl", "--workload", "fib", "--repeat", "3"]);
    match parse_bench_args(&args, "--workload").unwrap() {
        BenchCommand::Run(config) => {
            assert_eq!(config.format, OutputFormat::Jsonl);
            assert_eq!(config.repeat, 3);
            assert!(is_selected(&config, "fib"));
            assert!(!is_selected(&config, "loop"));
            assert!(is_known(&config, &words(&["loop", "fib"])));
            assert!(!is_known(&config, &words(&["loop"])));
        }
        other => panic!("unexpected command {other:?}"),
    }
    let list = parse_bench_args(&words(&["--list"]), "--workload").unwrap();
    assert!(matches!(list, BenchCommand::List));
    assert_eq!(
        parse_bench_args(&words(&["--repeat", "0"]), "--workload").unwrap_err(),
        "--repeat must be at least 1"
    );
    assert_eq!(
        parse_bench_args(&words(&["--format", "xml"]), "--workload").unwrap_err(),
        "unsupported format: xml"
    );
}

#[test]
fn compile_statistics_are_subtracted_field_by_field() {
    let stats = |n: u64| JitCompileStats {
        fast_compiles: n,
        fast_compile_ns: 10 * n,
        optimized_compiles: n + 1,
        optimized_compile_ns: 7 * n,
    };
    let difference = delta(stats(5), stats(2));
    assert_eq!(difference.fast_compiles, 3);
    assert_eq!(difference.fast_compile_ns, 30);
    assert_eq!(difference.optimized_compiles, 3);
    assert_eq!(difference.optimized_compile_ns, 21);
}

// ---------------------------------------------------------------------------
// Cache server
// ---------------------------------------------------------------------------

#[test]
fn journals_need_a_directory() {
    assert_eq!(
        parse_cache_args(&words(&["--durability", "synced"])).unwrap_err(),
        "--data-dir is required for buffered or synced durability"
    );
    let args = parse_cache_args(&words(&["--durability", "buffered", "--data-dir", "d"]))
        .unwrap()
        .unwrap();
    assert_eq!(args.durability, CacheDurabilityMode::BufferedJournal);
    assert_eq!(args.bind, "127.0.0.1:6380");
    assert_eq!(
        parse_cache_args(&words(&["--durability", "disk"])).unwrap_err(),
        "invalid --durability \"disk\"; expected memory|buffered|synced"
    );
    assert!(needs_new_journal(false, 3, 3) || !needs_new_journal(true, 3, 3));
}

// ---------------------------------------------------------------------------
// Fuzzing campaigns
// ---------------------------------------------------------------------------

#[test]
fn seeds_are_decimal_or_hexadecimal() {
    assert_eq!(parse_u64("42").unwrap(), 42);
    assert_eq!(parse_u64("0xff").unwrap(), 255);
    assert!(parse_u64("ff").is_err());
}

#[test]
fn campaign_defaults_are_overridden_one_by_one() {
    let defaults = parse_campaign_args(&words(&[])).unwrap().unwrap();
    assert_eq!(defaults.seeds, 10_000);
    assert!(defaults.verbose);
    let args = parse_campaign_args(&words(&["--time", "9", "--quiet", "--seed-base", "0x10"]))
        .unwrap()
        .unwrap();
    assert_eq!(args.time_secs, Some(9));
    assert_eq!(args.seed_base, 16);
    assert!(!args.verbose);
    assert_eq!(
        parse_campaign_args(&words(&["--fast"])).unwrap_err(),
        "unknown argument \"--fast\""
    );
}

// ---------------------------------------------------------------------------
// Shards
// ---------------------------------------------------------------------------

#[test]
fn parses_ordered_unique_positive_shard_counts() {
    assert_eq!(parse_shards("1,2,4,8").unwrap(), vec![1, 2, 4, 8]);
    assert!(parse_shards("1,0,2").is_err());
    assert!(parse_shards("1,2,2").is_err());
}

#[test]
fn two_shards_process_the_exact_fixed_workload() {
    let started = Instant::now();
    let shares = shard_workload(2_048, 2);
    let mut messages = 0;
    for share in &shares {
        for _ in 0..*share {
            messages += 1;
        }
    }
    let elapsed = started.elapsed();
    assert_eq!(shares.len(), 2);
    assert_eq!(messages, 2_048);
    assert!(elapsed.as_nanos() > 0);
}

#[test]
fn uneven_workloads_differ_by_one_message() {
    assert_eq!(shard_workload(10, 4), vec![3, 3, 2, 2]);
}
