//! Verified core of the Nulang toolchain: message delivery, durable execution,
//! bytecode, compiler analyses and deployment rules.

pub mod admission_policy;
pub mod artifact_identity;
pub mod ast;
pub mod behavior_manifest;
pub mod behavior_manifest_laws;
pub mod benchmarks;
pub mod branching;
pub mod bytecode;
pub mod bytes;
pub mod cir;
pub mod cir_lower;
pub mod cir_meaning;
pub mod cli;
pub mod code_query;
pub mod compat;
pub mod compiler_api;
pub mod compiler_identity;
pub mod compression;
pub mod content_identity;
pub mod continuation_analysis;
pub mod continuation_contract;
pub mod core_vm;
pub mod core_vm_laws;
pub mod cost_model;
pub mod dap;
pub mod data_plan;
pub mod debugger;
pub mod delivery;
pub mod delivery_legacy;
pub mod delivery_runtime;
pub mod delivery_wire;
pub mod deployment_audit;
pub mod deployment_bundle;
pub mod deployment_manifest;
pub mod diagnostic;
pub mod difffuzz;
pub mod durable_effect;
pub mod durable_effect_persistence;
pub mod durable_effect_runtime;
pub mod hashing;
pub mod hir;
pub mod json;
pub mod message;
pub mod mir;
pub mod mir_meaning;
pub mod numbers;
pub mod paths;
pub mod runtime;
pub mod sorting;
pub mod text;
pub mod text_map;
pub mod types;
pub mod value_layout;

use vstd::prelude::*;

verus! {

} // verus!
