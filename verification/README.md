# nulang

The rules behind the Nulang toolchain as a verified library: what a message, a
durable effect, a bytecode module, a behavior manifest or a deployment bundle
means is written down in contracts, and Verus proves that the code keeps them.

## Layout

- `src/` — the library. Every function in it is verified.
  - messages and delivery: `message`, `delivery`, `delivery_wire`,
    `delivery_legacy`, `delivery_runtime`
  - identities and digests: `hashing`, `content_identity`,
    `artifact_identity`, `compiler_identity`
  - durable execution: `durable_effect`, `durable_effect_persistence`,
    `durable_effect_runtime`, `runtime`, `compat`, `continuation_contract`
  - bytecode: `bytecode`, `value_layout`, `core_vm`, `cost_model`
  - compiler: `ast`, `hir`, `mir`, `cir`, `cir_lower`, `continuation_analysis`,
    `types`, `diagnostic`, `compiler_api`, `code_query`, `data_plan`
  - deployment: `behavior_manifest`, `deployment_manifest`,
    `deployment_bundle`, `admission_policy`, `deployment_audit`
  - tools: `dap`, `debugger`, `branching`, `compression`, `difffuzz`,
    `benchmarks`, `cli`
  - shared: `text`, `bytes`, `numbers`, `paths`, `json`, `text_map`, `sorting`
- `tests/` — tests that run the library with its outside crates.
- `app/` — the commands: argument handling, files, sockets, clocks, JSON.

## What is not proved

The hash, hex, compression, archive, JSON-literal and report crates are called
through small functions whose contracts are believed. Each names the outside
function and says what is claimed of it. A front end, an artifact reader, an
admission engine and a differential oracle are traits: the library states what
it asks of them and what it makes of each answer, and promises nothing on their
behalf.
