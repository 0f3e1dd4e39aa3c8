//! Static mechanical-cost analysis for compiled bytecode.
//!
//! The analysis is conservative and structural: it counts bytecode sites, not
//! dynamic execution frequency.

use crate::bytecode::{self, CodeModule, DebugFunctionInfo, Instruction, OpCode};
use crate::text::{self, dec_of, push_dec, push_padded_left, push_padded_right, text};
use vstd::prelude::*;

verus! {

/// Classes of operations that cost the same mechanically.
#[derive(Debug, Clone, Copy, PartialEq, Eq, Structural)]
pub enum CostClass {
    /// Explicit heap allocations.
    HeapAllocation,
    /// Operations that materialize owned strings.
    StringMaterialization,
    /// Operations that copy an object.
    Copying,
    /// Calls.
    Calling,
    /// Jumps.
    Branching,
    /// Effect boundaries.
    Effectful,
    /// Suspension points.
    Suspending,
    /// Foreign boundaries.
    Foreign,
    /// Actor operations.
    Actor,
    /// Distribution operations.
    Distributed,
    /// Input and output.
    Io,
}

/// Whether an operation belongs to a class.
pub open spec fn in_class(op: OpCode, class: CostClass) -> bool {
    match class {
        CostClass::HeapAllocation => op is Alloc || op is ArrAlloc || op is TupleMk || op is RecMk || op is RecCopy,
        CostClass::StringMaterialization => op is FToS || op is SConcat,
        CostClass::Copying => op is Copy || op is RecCopy,
        CostClass::Calling => op is Call || op is TailCall || op is ClosureCall,
        CostClass::Branching => op is Jmp || op is JmpT || op is JmpF || op is Switch,
        CostClass::Effectful => op is Perform || op is PerformDirect || op is PerformAsync || op is Handle || op is Resume || op is Unwind,
        CostClass::Suspending => op is Receive || op is ReceiveWait || op is SignalWait || op is PerformAsync || op is Ask || op is RAsk,
        CostClass::Foreign => op is FFICall || op is PyImport || op is PyGetAttr || op is PyCall || op is PyCallKw || op is PySetAttr || op is PyToNu || op is PyFromNu || op is PyRelease,
        CostClass::Actor => op is Spawn || op is Send || op is Ask || op is SelfOp || op is Receive || op is Monitor || op is Demon || op is Link || op is Unlink || op is Exit || op is Yield || op is StateGet || op is StateSet || op is Emit || op is SignalWait || op is ReceiveMatch || op is ReceiveWait || op is ReceiveCommit,
        CostClass::Distributed => op is Migrate || op is RSend || op is RAsk || op is RSpawn || op is Gossip,
        CostClass::Io => op is SPrint || op is SRead || op is FOpen || op is FRead || op is FWrite || op is FClose || op is Print,
    }
}

/// Whether an operation belongs to a class.
pub fn belongs(op: OpCode, class: CostClass) -> (r: bool)
    ensures
        r == in_class(op, class),
{
    match class {
        CostClass::HeapAllocation => matches!(op, OpCode::Alloc | OpCode::ArrAlloc | OpCode::TupleMk | OpCode::RecMk | OpCode::RecCopy),
        CostClass::StringMaterialization => matches!(op, OpCode::FToS | OpCode::SConcat),
        CostClass::Copying => matches!(op, OpCode::Copy | OpCode::RecCopy),
        CostClass::Calling => matches!(op, OpCode::Call | OpCode::TailCall | OpCode::ClosureCall),
        CostClass::Branching => matches!(op, OpCode::Jmp | OpCode::JmpT | OpCode::JmpF | OpCode::Switch),
        CostClass::Effectful => matches!(op, OpCode::Perform | OpCode::PerformDirect | OpCode::PerformAsync | OpCode::Handle | OpCode::Resume | OpCode::Unwind),
        CostClass::Suspending => matches!(op, OpCode::Receive | OpCode::ReceiveWait | OpCode::SignalWait | OpCode::PerformAsync | OpCode::Ask | OpCode::RAsk),
        CostClass::Foreign => matches!(op, OpCode::FFICall | OpCode::PyImport | OpCode::PyGetAttr | OpCode::PyCall | OpCode::PyCallKw | OpCode::PySetAttr | OpCode::PyToNu | OpCode::PyFromNu | OpCode::PyRelease),
        CostClass::Actor => matches!(op, OpCode::Spawn | OpCode::Send | OpCode::Ask | OpCode::SelfOp | OpCode::Receive | OpCode::Monitor | OpCode::Demon | OpCode::Link | OpCode::Unlink | OpCode::Exit | OpCode::Yield | OpCode::StateGet | OpCode::StateSet | OpCode::Emit | OpCode::SignalWait | OpCode::ReceiveMatch | OpCode::ReceiveWait | OpCode::ReceiveCommit),
        CostClass::Distributed => matches!(op, OpCode::Migrate | OpCode::RSend | OpCode::RAsk | OpCode::RSpawn | OpCode::Gossip),
        CostClass::Io => matches!(op, OpCode::SPrint | OpCode::SRead | OpCode::FOpen | OpCode::FRead | OpCode::FWrite | OpCode::FClose | OpCode::Print),
    }
}

/// How many instructions of a sequence belong to a class.
pub open spec fn sites(ops: Seq<Instruction>, class: CostClass) -> nat
    decreases ops.len(),
{
    if ops.len() == 0 {
        0
    } else {
        sites(ops.drop_last(), class) + if in_class(ops.last().opcode, class) {
            1nat
        } else {
            0nat
        }
    }
}

/// There are no more sites than instructions, and no instruction is both a
/// heap allocation and a string materialization.
pub proof fn sites_bounded(ops: Seq<Instruction>, class: CostClass)
    ensures
        sites(ops, class) <= ops.len(),
        sites(ops, CostClass::HeapAllocation) + sites(ops, CostClass::StringMaterialization)
            <= ops.len(),
    decreases ops.len(),
{
    if ops.len() > 0 {
        sites_bounded(ops.drop_last(), class);
    }
}

/// Sites of a concatenation are the sites of its parts.
pub proof fn sites_add(a: Seq<Instruction>, b: Seq<Instruction>, class: CostClass)
    ensures
        sites(a + b, class) == sites(a, class) + sites(b, class),
    decreases b.len(),
{
    if b.len() == 0 {
        assert(a + b =~= a);
    } else {
        sites_add(a, b.drop_last(), class);
        assert((a + b).drop_last() =~= a + b.drop_last());
    }
}

#[derive(Debug, Clone, Copy, PartialEq, Eq, Structural)]
pub struct MechanicalCostSummary {
    pub instructions: usize,
    pub allocation_sites: usize,
    pub heap_allocation_sites: usize,
    pub string_materialization_sites: usize,
    pub copy_sites: usize,
    pub call_sites: usize,
    pub branch_sites: usize,
    pub effect_boundaries: usize,
    pub suspension_points: usize,
    pub ffi_boundaries: usize,
    pub actor_operations: usize,
    pub distributed_operations: usize,
    pub io_operations: usize,
}

impl Default for MechanicalCostSummary {
    fn default() -> (r: Self)
        ensures
            r.tallies(Seq::empty()),
    {
        MechanicalCostSummary {
            instructions: 0,
            allocation_sites: 0,
            heap_allocation_sites: 0,
            string_materialization_sites: 0,
            copy_sites: 0,
            call_sites: 0,
            branch_sites: 0,
            effect_boundaries: 0,
            suspension_points: 0,
            ffi_boundaries: 0,
            actor_operations: 0,
            distributed_operations: 0,
            io_operations: 0,
        }
    }
}

impl MechanicalCostSummary {
    /// Whether the summary counts exactly the sites of the given instructions.
    pub open spec fn tallies(self, ops: Seq<Instruction>) -> bool {
        &&& self.instructions == ops.len()
        &&& self.allocation_sites == sites(ops, CostClass::HeapAllocation) + sites(
            ops,
            CostClass::StringMaterialization,
        )
        &&& self.heap_allocation_sites == sites(ops, CostClass::HeapAllocation)
        &&& self.string_materialization_sites == sites(ops, CostClass::StringMaterialization)
        &&& self.copy_sites == sites(ops, CostClass::Copying)
        &&& self.call_sites == sites(ops, CostClass::Calling)
        &&& self.branch_sites == sites(ops, CostClass::Branching)
        &&& self.effect_boundaries == sites(ops, CostClass::Effectful)
        &&& self.suspension_points == sites(ops, CostClass::Suspending)
        &&& self.ffi_boundaries == sites(ops, CostClass::Foreign)
        &&& self.actor_operations == sites(ops, CostClass::Actor)
        &&& self.distributed_operations == sites(ops, CostClass::Distributed)
        &&& self.io_operations == sites(ops, CostClass::Io)
    }

    /// Counts one more instruction.
    fn observe(&mut self, instr: Instruction, ops: Ghost<Seq<Instruction>>)
        requires
            old(self).tallies(ops@),
            ops@.len() < usize::MAX,
        ensures
            final(self).tallies(ops@.push(instr)),
    {
        let op: OpCode = instr.opcode;
        proof {
            assert(ops@.push(instr).drop_last() =~= ops@);
            sites_bounded(ops@, CostClass::HeapAllocation);
            sites_bounded(ops@, CostClass::StringMaterialization);
            sites_bounded(ops@, CostClass::Copying);
            sites_bounded(ops@, CostClass::Calling);
            sites_bounded(ops@, CostClass::Branching);
            sites_bounded(ops@, CostClass::Effectful);
            sites_bounded(ops@, CostClass::Suspending);
            sites_bounded(ops@, CostClass::Foreign);
            sites_bounded(ops@, CostClass::Actor);
            sites_bounded(ops@, CostClass::Distributed);
            sites_bounded(ops@, CostClass::Io);
        }
        self.instructions += 1;
        if belongs(op, CostClass::HeapAllocation) {
            self.heap_allocation_sites += 1;
            self.allocation_sites += 1;
        }
        if belongs(op, CostClass::StringMaterialization) {
            self.string_materialization_sites += 1;
            self.allocation_sites += 1;
        }
        if belongs(op, CostClass::Copying) {
            self.copy_sites += 1;
        }
        if belongs(op, CostClass::Calling) {
            self.call_sites += 1;
        }
        if belongs(op, CostClass::Branching) {
            self.branch_sites += 1;
        }
        if belongs(op, CostClass::Effectful) {
            self.effect_boundaries += 1;
        }
        if belongs(op, CostClass::Suspending) {
            self.suspension_points += 1;
        }
        if belongs(op, CostClass::Foreign) {
            self.ffi_boundaries += 1;
        }
        if belongs(op, CostClass::Actor) {
            self.actor_operations += 1;
        }
        if belongs(op, CostClass::Distributed) {
            self.distributed_operations += 1;
        }
        if belongs(op, CostClass::Io) {
            self.io_operations += 1;
        }
    }

    pub fn is_allocation_free(&self) -> (r: bool)
        ensures
            r == (self.allocation_sites == 0),
    {
        self.allocation_sites == 0
    }
}

/// An allocation-free summary means that no instruction allocates.
pub proof fn allocation_free_means_no_allocation(s: MechanicalCostSummary, ops: Seq<Instruction>)
    requires
        s.tallies(ops),
    ensures
        s.allocation_sites == 0 <==> forall|i: int|
            0 <= i < ops.len() ==> allocation_class_of((#[trigger] ops[i]).opcode) is None,
    decreases ops.len(),
{
    no_sites(ops, CostClass::HeapAllocation);
    no_sites(ops, CostClass::StringMaterialization);
    if s.allocation_sites == 0 {
        assert forall|i: int| 0 <= i < ops.len() implies allocation_class_of(
            (#[trigger] ops[i]).opcode,
        ) is None by {
            assert(!in_class(ops[i].opcode, CostClass::HeapAllocation));
            assert(!in_class(ops[i].opcode, CostClass::StringMaterialization));
        }
    }
}

proof fn no_sites(ops: Seq<Instruction>, class: CostClass)
    ensures
        sites(ops, class) == 0 <==> forall|i: int|
            0 <= i < ops.len() ==> !in_class((#[trigger] ops[i]).opcode, class),
    decreases ops.len(),
{
    if ops.len() > 0 {
        let p = ops.drop_last();
        no_sites(p, class);
        assert(forall|i: int| 0 <= i < p.len() ==> p[i] == ops[i]);
        if sites(ops, class) == 0 {
            assert forall|i: int| 0 <= i < ops.len() implies !in_class(
                (#[trigger] ops[i]).opcode,
                class,
            ) by {
                if i < p.len() {
                    assert(!in_class(p[i].opcode, class));
                }
            }
        }
        if (forall|i: int| 0 <= i < ops.len() ==> !in_class((#[trigger] ops[i]).opcode, class)) {
            assert(!in_class(ops[ops.len() - 1].opcode, class));
            assert forall|i: int| 0 <= i < p.len() implies !in_class(
                (#[trigger] p[i]).opcode,
                class,
            ) by {
                assert(!in_class(ops[i].opcode, class));
            }
        }
    }
}

#[derive(Debug, Clone, PartialEq, Eq)]
pub struct AllocationSite {
    pub pc: usize,
    pub opcode: String,
    pub function: Option<String>,
    pub source_line: Option<u32>,
    pub class: AllocationClass,
}

#[derive(Debug, Clone, Copy, PartialEq, Eq, Structural)]
pub enum AllocationClass {
    HeapObject,
    StringMaterialization,
}

impl AllocationClass {
    pub open spec fn spec_name(self) -> Seq<char> {
        match self {
            AllocationClass::HeapObject => "HeapObject"@,
            AllocationClass::StringMaterialization => "StringMaterialization"@,
        }
    }

    pub fn name(self) -> (r: String)
        ensures
            r@ == self.spec_name(),
    {
        match self {
            AllocationClass::HeapObject => text("HeapObject"),
            AllocationClass::StringMaterialization => text("StringMaterialization"),
        }
    }
}

#[derive(Debug, Clone, PartialEq, Eq)]
pub struct FunctionCost {
    pub name: String,
    pub code_offset: usize,
    pub code_len: usize,
    pub summary: MechanicalCostSummary,
}

#[derive(Debug, Clone, PartialEq, Eq)]
pub struct MechanicalCostReport {
    pub module: String,
    pub total: MechanicalCostSummary,
    pub functions: Vec<FunctionCost>,
    pub unattributed: MechanicalCostSummary,
    pub allocation_sites: Vec<AllocationSite>,
}

/// Where a function's code ends: no further than the code itself.
pub open spec fn range_end(offset: usize, len: usize, n: nat) -> int {
    let e = if offset + len > usize::MAX {
        usize::MAX as int
    } else {
        offset + len
    };
    if e > n {
        n as int
    } else {
        e
    }
}

/// The instructions of a code range, cut off at the end of the code.
pub open spec fn range_ops(ops: Seq<Instruction>, offset: usize, len: usize) -> Seq<Instruction> {
    let e = range_end(offset, len, ops.len());
    ops.subrange(
        if offset <= e {
            offset as int
        } else {
            e
        },
        e,
    )
}

/// Whether a program counter lies in a function.
pub open spec fn in_function(f: DebugFunctionInfo, pc: int) -> bool {
    f.code_offset <= pc && pc < if f.code_offset + f.code_len > usize::MAX {
        usize::MAX as int
    } else {
        f.code_offset + f.code_len
    }
}

/// Whether a program counter lies in one of the functions.
pub open spec fn attributed(functions: Seq<DebugFunctionInfo>, pc: int) -> bool {
    exists|k: int| 0 <= k < functions.len() && in_function(#[trigger] functions[k], pc)
}

/// The instructions below `n` that lie in no function.
pub open spec fn loose_ops(
    ops: Seq<Instruction>,
    functions: Seq<DebugFunctionInfo>,
    n: int,
) -> Seq<Instruction>
    decreases n,
{
    if n <= 0 || n > ops.len() {
        Seq::empty()
    } else if attributed(functions, n - 1) {
        loose_ops(ops, functions, n - 1)
    } else {
        loose_ops(ops, functions, n - 1).push(ops[n - 1])
    }
}

/// The first function that holds a program counter.
pub open spec fn owner(functions: Seq<DebugFunctionInfo>, pc: int) -> Option<Seq<char>>
    decreases functions.len(),
{
    if functions.len() == 0 {
        None
    } else if in_function(functions[0], pc) {
        Some(functions[0].name@)
    } else {
        owner(functions.skip(1), pc)
    }
}

/// The allocation class of an operation.
pub open spec fn allocation_class_of(op: OpCode) -> Option<AllocationClass> {
    if in_class(op, CostClass::HeapAllocation) {
        Some(AllocationClass::HeapObject)
    } else if in_class(op, CostClass::StringMaterialization) {
        Some(AllocationClass::StringMaterialization)
    } else {
        None
    }
}

/// The program counters below `n` of allocating instructions, ascending.
pub open spec fn allocating_pcs(ops: Seq<Instruction>, n: int) -> Seq<int>
    decreases n,
{
    if n <= 0 || n > ops.len() {
        Seq::empty()
    } else if allocation_class_of(ops[n - 1].opcode) is Some {
        allocating_pcs(ops, n - 1).push(n - 1)
    } else {
        allocating_pcs(ops, n - 1)
    }
}

/// Whether a site describes the allocating instruction at `pc`.
pub open spec fn describes(site: AllocationSite, module: CodeModule, pc: int) -> bool {
    &&& site.pc == pc
    &&& site.opcode@ == module.instructions@[pc].opcode.spec_name()
    &&& text::opt_view(site.function) == owner(module.debug_functions@, pc)
    &&& site.source_line == match bytecode::line_entry(module.line_table@, site.pc) {
        Some(e) => Some(e.1),
        None => None::<u32>,
    }
    &&& allocation_class_of(module.instructions@[pc].opcode) == Some(site.class)
}

fn summary_for_range(module: &CodeModule, start: usize, len: usize) -> (r: MechanicalCostSummary)
    ensures
        r.tallies(range_ops(module.instructions@, start, len)),
{
    let n: usize = module.instructions.len();
    let sum: usize = start.saturating_add(len);
    let end: usize = if sum > n {
        n
    } else {
        sum
    };
    let from: usize = if start <= end {
        start
    } else {
        end
    };
    let mut summary: MechanicalCostSummary = MechanicalCostSummary::default();
    let ghost all = range_ops(module.instructions@, start, len);
    let mut pc: usize = from;
    assert(all.take(0) =~= Seq::<Instruction>::empty());
    while pc < end
        invariant
            from <= pc <= end <= module.instructions@.len(),
            n == module.instructions@.len(),
            all == module.instructions@.subrange(from as int, end as int),
            summary.tallies(all.take(pc - from)),
        decreases end - pc,
    {
        summary.observe(module.instructions[pc], Ghost(all.take(pc - from)));
        pc += 1;
        assert(all.take(pc - from) =~= all.take(pc - 1 - from).push(
            module.instructions@[pc - 1],
        ));
    }
    assert(all.take(end - from) =~= all);
    summary
}

fn holds(f: &DebugFunctionInfo, pc: usize) -> (r: bool)
    ensures
        r == in_function(*f, pc as int),
{
    pc >= f.code_offset && pc < f.code_offset.saturating_add(f.code_len)
}

fn function_name_at(module: &CodeModule, pc: usize) -> (r: Option<String>)
    ensures
        text::opt_view(r) == owner(module.debug_functions@, pc as int),
{
    let mut k: usize = 0;
    assert(module.debug_functions@.skip(0) =~= module.debug_functions@);
    while k < module.debug_functions.len()
        invariant
            k <= module.debug_functions@.len(),
            owner(module.debug_functions@, pc as int) == owner(
                module.debug_functions@.skip(k as int),
                pc as int,
            ),
        decreases module.debug_functions@.len() - k,
    {
        if holds(&module.debug_functions[k], pc) {
            return Some(module.debug_functions[k].name.clone());
        }
        assert(module.debug_functions@.skip(k as int).skip(1) =~= module.debug_functions@.skip(
            k + 1,
        ));
        k += 1;
    }
    None
}

fn is_attributed(functions: &Vec<DebugFunctionInfo>, pc: usize) -> (r: bool)
    ensures
        r == attributed(functions@, pc as int),
{
    let mut k: usize = 0;
    while k < functions.len()
        invariant
            k <= functions@.len(),
            forall|j: int| 0 <= j < k ==> !in_function(#[trigger] functions@[j], pc as int),
        decreases functions@.len() - k,
    {
        if holds(&functions[k], pc) {
            return true;
        }
        k += 1;
    }
    false
}

fn allocation_class(op: OpCode) -> (r: Option<AllocationClass>)
    ensures
        r == allocation_class_of(op),
{
    if belongs(op, CostClass::HeapAllocation) {
        Some(AllocationClass::HeapObject)
    } else if belongs(op, CostClass::StringMaterialization) {
        Some(AllocationClass::StringMaterialization)
    } else {
        None
    }
}

fn unattributed_summary(module: &CodeModule) -> (r: MechanicalCostSummary)
    ensures
        r.tallies(
            loose_ops(
                module.instructions@,
                module.debug_functions@,
                module.instructions@.len() as int,
            ),
        ),
{
    let n: usize = module.instructions.len();
    let mut summary: MechanicalCostSummary = MechanicalCostSummary::default();
    let mut pc: usize = 0;
    while pc < n
        invariant
            pc <= n,
            n == module.instructions@.len(),
            summary.tallies(loose_ops(module.instructions@, module.debug_functions@, pc as int)),
            loose_ops(module.instructions@, module.debug_functions@, pc as int).len() <= pc,
        decreases n - pc,
    {
        if !is_attributed(&module.debug_functions, pc) {
            summary.observe(
                module.instructions[pc],
                Ghost(loose_ops(module.instructions@, module.debug_functions@, pc as int)),
            );
        }
        pc += 1;
    }
    summary
}

fn allocation_site_list(module: &CodeModule) -> (r: Vec<AllocationSite>)
    ensures
        r@.len() == allocating_pcs(module.instructions@, module.instructions@.len() as int).len(),
        forall|k: int|
            0 <= k < r@.len() ==> describes(
                #[trigger] r@[k],
                *module,
                allocating_pcs(module.instructions@, module.instructions@.len() as int)[k],
            ),
{
    let mut out: Vec<AllocationSite> = Vec::new();
    let mut pc: usize = 0;
    while pc < module.instructions.len()
        invariant
            pc <= module.instructions@.len(),
            out@.len() == allocating_pcs(module.instructions@, pc as int).len(),
            forall|k: int|
                0 <= k < out@.len() ==> describes(
                    #[trigger] out@[k],
                    *module,
                    allocating_pcs(module.instructions@, pc as int)[k],
                ),
        decreases module.instructions@.len() - pc,
    {
        let op: OpCode = module.instructions[pc].opcode;
        match allocation_class(op) {
            Some(class) => {
                out.push(
                    AllocationSite {
                        pc,
                        opcode: op.name(),
                        function: function_name_at(module, pc),
                        source_line: module.line_at(pc),
                        class,
                    },
                );
            },
            None => {},
        }
        pc += 1;
    }
    out
}

/// Analyze a compiled bytecode module.
///
/// Function attribution uses `debug_functions`. Instructions outside all debug
/// ranges remain visible under `unattributed`.
pub fn analyze_module(module: &CodeModule) -> (r: MechanicalCostReport)
    ensures
        r.module@ == module.name@,
        r.total.tallies(module.instructions@),
        r.functions@.len() == module.debug_functions@.len(),
        forall|k: int|
            0 <= k < r.functions@.len() ==> {
                let f = module.debug_functions@[k];
                &&& (#[trigger] r.functions@[k]).name@ == f.name@
                &&& r.functions@[k].code_offset == f.code_offset
                &&& r.functions@[k].code_len == f.code_len
                &&& r.functions@[k].summary.tallies(
                    range_ops(module.instructions@, f.code_offset, f.code_len),
                )
            },
        r.unattributed.tallies(
            loose_ops(
                module.instructions@,
                module.debug_functions@,
                module.instructions@.len() as int,
            ),
        ),
        r.allocation_sites@.len() == allocating_pcs(
            module.instructions@,
            module.instructions@.len() as int,
        ).len(),
        forall|k: int|
            0 <= k < r.allocation_sites@.len() ==> describes(
                #[trigger] r.allocation_sites@[k],
                *module,
                allocating_pcs(module.instructions@, module.instructions@.len() as int)[k],
            ),
{
    let total: MechanicalCostSummary = summary_for_range(module, 0, module.instructions.len());
    assert(range_ops(module.instructions@, 0, module.instructions@.len() as usize)
        =~= module.instructions@);
    let mut functions: Vec<FunctionCost> = Vec::new();
    let mut k: usize = 0;
    while k < module.debug_functions.len()
        invariant
            k <= module.debug_functions@.len(),
            functions@.len() == k,
            forall|j: int|
                0 <= j < k ==> {
                    let f = module.debug_functions@[j];
                    &&& (#[trigger] functions@[j]).name@ == f.name@
                    &&& functions@[j].code_offset == f.code_offset
                    &&& functions@[j].code_len == f.code_len
                    &&& functions@[j].summary.tallies(
                        range_ops(module.instructions@, f.code_offset, f.code_len),
                    )
                },
        decreases module.debug_functions@.len() - k,
    {
        let f: &DebugFunctionInfo = &module.debug_functions[k];
        functions.push(
            FunctionCost {
                name: f.name.clone(),
                code_offset: f.code_offset,
                code_len: f.code_len,
                summary: summary_for_range(module, f.code_offset, f.code_len),
            },
        );
        k += 1;
    }
    MechanicalCostReport {
        module: module.name.clone(),
        total,
        functions,
        unattributed: unattributed_summary(module),
        allocation_sites: allocation_site_list(module),
    }
}

/// A counter in a column that is at least `width` characters wide.
pub open spec fn column(label: Seq<char>, n: usize, width: nat) -> Seq<char> {
    label + text::padded_right(text::dec(n as nat), width)
}

/// The line that describes one summary.
pub open spec fn summary_line(name: Seq<char>, s: MechanicalCostSummary) -> Seq<char> {
    "  "@ + text::padded_right(name, 24) + column(" instr="@, s.instructions, 5)
        + column(" alloc="@, s.allocation_sites, 4) + column(" heap="@, s.heap_allocation_sites, 4)
        + column(" strings="@, s.string_materialization_sites, 4) + column(
        " copies="@,
        s.copy_sites,
        4,
    ) + column(" calls="@, s.call_sites, 4) + column(" branches="@, s.branch_sites, 4)
        + column(" effects="@, s.effect_boundaries, 4) + column(
        " suspend="@,
        s.suspension_points,
        4,
    ) + column(" ffi="@, s.ffi_boundaries, 4) + column(" actor="@, s.actor_operations, 4)
        + column(" dist="@, s.distributed_operations, 4) + column(" io="@, s.io_operations, 0)
        + "\n"@
}

fn push_column(out: &mut String, label: &str, n: usize, width: usize)
    ensures
        final(out)@ == old(out)@ + column(label@, n, width as nat),
{
    out.append(label);
    let digits: String = dec_of(n as u64);
    push_padded_right(out, digits.as_str(), width);
    assert(out@ =~= old(out)@ + column(label@, n, width as nat));
}

fn push_summary(out: &mut String, name: &str, s: &MechanicalCostSummary)
    ensures
        final(out)@ == old(out)@ + summary_line(name@, *s),
{
    out.append("  ");
    push_padded_right(out, name, 24);
    push_column(out, " instr=", s.instructions, 5);
    push_column(out, " alloc=", s.allocation_sites, 4);
    push_column(out, " heap=", s.heap_allocation_sites, 4);
    push_column(out, " strings=", s.string_materialization_sites, 4);
    push_column(out, " copies=", s.copy_sites, 4);
    push_column(out, " calls=", s.call_sites, 4);
    push_column(out, " branches=", s.branch_sites, 4);
    push_column(out, " effects=", s.effect_boundaries, 4);
    push_column(out, " suspend=", s.suspension_points, 4);
    push_column(out, " ffi=", s.ffi_boundaries, 4);
    push_column(out, " actor=", s.actor_operations, 4);
    push_column(out, " dist=", s.distributed_operations, 4);
    push_column(out, " io=", s.io_operations, 0);
    out.append("\n");
    assert(out@ =~= old(out)@ + summary_line(name@, *s));
}

/// The lines of the first `n` function summaries.
pub open spec fn function_lines(f: Seq<FunctionCost>, n: int) -> Seq<char>
    decreases n,
{
    if n <= 0 || n > f.len() {
        Seq::empty()
    } else {
        function_lines(f, n - 1) + summary_line(f[n - 1].name@, f[n - 1].summary)
    }
}

/// The line that describes one allocation site.
pub open spec fn site_line(site: AllocationSite) -> Seq<char> {
    "  pc "@ + text::padded_left(text::dec(site.pc as nat), 5) + "  "@ + text::padded_right(
        site.opcode@,
        12,
    ) + " "@ + text::padded_right(site.class.spec_name(), 22) + " "@ + (match site.function {
        Some(f) => f@,
        None => "<module>"@,
    }) + (match site.source_line {
        Some(l) => " line "@ + text::dec(l as nat),
        None => ""@,
    }) + "\n"@
}

/// The lines of the first `n` allocation sites.
pub open spec fn site_lines(v: Seq<AllocationSite>, n: int) -> Seq<char>
    decreases n,
{
    if n <= 0 || n > v.len() {
        Seq::empty()
    } else {
        site_lines(v, n - 1) + site_line(v[n - 1])
    }
}

fn push_site(out: &mut String, site: &AllocationSite)
    ensures
        final(out)@ == old(out)@ + site_line(*site),
{
    out.append("  pc ");
    push_padded_left(out, dec_of(site.pc as u64).as_str(), 5);
    out.append("  ");
    push_padded_right(out, site.opcode.as_str(), 12);
    out.append(" ");
    push_padded_right(out, site.class.name().as_str(), 22);
    out.append(" ");
    match &site.function {
        Some(f) => out.append(f.as_str()),
        None => out.append("<module>"),
    }
    match site.source_line {
        Some(l) => {
            out.append(" line ");
            push_dec(out, l as u64);
        },
        None => out.append(""),
    }
    out.append("\n");
    assert(out@ =~= old(out)@ + site_line(*site));
}

impl MechanicalCostReport {
    pub fn is_allocation_free(&self) -> (r: bool)
        ensures
            r == (self.total.allocation_sites == 0),
    {
        self.total.is_allocation_free()
    }

    /// The section with one line per function.
    pub open spec fn functions_section(self) -> Seq<char> {
        if self.functions@.len() > 0 {
            "\nfunctions:\n"@ + function_lines(self.functions@, self.functions@.len() as int)
        } else {
            Seq::empty()
        }
    }

    /// The section on code outside all functions.
    pub open spec fn unattributed_section(self) -> Seq<char> {
        if self.unattributed.instructions > 0 {
            "\nunattributed bytecode:\n"@ + summary_line("module"@, self.unattributed)
        } else {
            Seq::empty()
        }
    }

    /// The section with one line per allocation site.
    pub open spec fn sites_section(self) -> Seq<char> {
        if self.allocation_sites@.len() > 0 {
            "\nallocation sites:\n"@ + site_lines(
                self.allocation_sites@,
                self.allocation_sites@.len() as int,
            )
        } else {
            Seq::empty()
        }
    }

    /// The human-readable report.
    pub open spec fn report_text(self) -> Seq<char> {
        "mechanical costs: "@ + self.module@ + "\n"@ + summary_line("total"@, self.total)
            + self.functions_section() + self.unattributed_section() + self.sites_section()
    }

    fn push_functions(&self, out: &mut String)
        ensures
            final(out)@ == old(out)@ + self.functions_section(),
    {
        let ghost start = out@;
        if self.functions.len() > 0 {
            out.append("\nfunctions:\n");
            let ghost base = out@;
            assert(base =~= base + function_lines(self.functions@, 0));
            let mut k: usize = 0;
            while k < self.functions.len()
                invariant
                    k <= self.functions@.len(),
                    out@ == base + function_lines(self.functions@, k as int),
                decreases self.functions@.len() - k,
            {
                push_summary(out, self.functions[k].name.as_str(), &self.functions[k].summary);
                k += 1;
                assert(out@ =~= base + function_lines(self.functions@, k as int));
            }
        }
        assert(out@ =~= start + self.functions_section());
    }

    fn push_sites(&self, out: &mut String)
        ensures
            final(out)@ == old(out)@ + self.sites_section(),
    {
        let ghost start = out@;
        if self.allocation_sites.len() > 0 {
            out.append("\nallocation sites:\n");
            let ghost base = out@;
            assert(base =~= base + site_lines(self.allocation_sites@, 0));
            let mut k: usize = 0;
            while k < self.allocation_sites.len()
                invariant
                    k <= self.allocation_sites@.len(),
                    out@ == base + site_lines(self.allocation_sites@, k as int),
                decreases self.allocation_sites@.len() - k,
            {
                push_site(out, &self.allocation_sites[k]);
                k += 1;
                assert(out@ =~= base + site_lines(self.allocation_sites@, k as int));
            }
        }
        assert(out@ =~= start + self.sites_section());
    }

    fn push_unattributed(&self, out: &mut String)
        ensures
            final(out)@ == old(out)@ + self.unattributed_section(),
    {
        let ghost start = out@;
        if self.unattributed.instructions > 0 {
            out.append("\nunattributed bytecode:\n");
            push_summary(out, "module", &self.unattributed);
        }
        assert(out@ =~= start + self.unattributed_section());
    }

    /// Human-readable report intended for the CLI and CI logs.
    pub fn render_text(&self) -> (r: String)
        ensures
            r@ == self.report_text(),
    {
        let mut out: String = crate::text::cat3("mechanical costs: ", self.module.as_str(), "\n");
        push_summary(&mut out, "total", &self.total);
        self.push_functions(&mut out);
        self.push_unattributed(&mut out);
        self.push_sites(&mut out);
        out
    }
}

/// Where the functions cover the whole code, nothing is left unattributed.
pub proof fn full_coverage_leaves_nothing(ops: Seq<Instruction>, functions: Seq<DebugFunctionInfo>, n: int)
    requires
        0 <= n <= ops.len(),
        forall|pc: int| 0 <= pc < n ==> attributed(functions, pc),
    ensures
        loose_ops(ops, functions, n).len() == 0,
    decreases n,
{
    if n > 0 {
        assert(attributed(functions, n - 1));
        full_coverage_leaves_nothing(ops, functions, n - 1);
    }
}

/// Whether a byte is one of four.
pub open spec fn one_of(b: u8, w: int, x: int, y: int, z: int) -> bool {
    b == w || b == x || b == y || b == z
}

/// The classes go by the families of the opcode bytes: branches and calls stand
/// in the control family, actor operations and input and output in families of
/// their own, as do foreign and distributed operations; allocation, copying and
/// suspension take single members.
pub proof fn classes_go_by_opcode_family(op: OpCode)
    ensures
        in_class(op, CostClass::Branching) <==> 0x50 <= op.byte() <= 0x53,
        in_class(op, CostClass::Calling) <==> one_of(op.byte(), 0x54, 0x55, 0x64, 0x64),
        in_class(op, CostClass::Actor) <==> 0x80 <= op.byte() <= 0x8f || 0xa0 <= op.byte() <= 0xa1,
        in_class(op, CostClass::Effectful) <==> 0x90 <= op.byte() <= 0x93 || op.byte() == 0x9c
            || op.byte() == 0xc6,
        in_class(op, CostClass::Foreign) <==> 0x94 <= op.byte() <= 0x9b || op.byte() == 0xb0,
        in_class(op, CostClass::Distributed) <==> 0xd1 <= op.byte() <= 0xd5,
        in_class(op, CostClass::Io) <==> 0xe1 <= op.byte() <= 0xe7,
        in_class(op, CostClass::HeapAllocation) <==> one_of(op.byte(), 0x70, 0x73, 0x77, 0x79)
            || op.byte() == 0x9d,
        in_class(op, CostClass::StringMaterialization) <==> op.byte() == 0x38 || op.byte() == 0xe0,
        in_class(op, CostClass::Copying) <==> op.byte() == 0x7e || op.byte() == 0x9d,
        in_class(op, CostClass::Suspending) <==> one_of(op.byte(), 0x82, 0x84, 0x8e, 0xa0)
            || op.byte() == 0xc6 || op.byte() == 0xd3,
{
}

/// The sites of a class are the instructions in it.
pub proof fn sites_count_the_class(ops: Seq<Instruction>, class: CostClass)
    ensures
        sites(ops, class) == ops.filter(|i: Instruction| in_class(i.opcode, class)).len(),
    decreases ops.len(),
{
    reveal(Seq::filter);
    if ops.len() > 0 {
        sites_count_the_class(ops.drop_last(), class);
    }
}

/// An instruction belongs to the first function that covers it, and to none
/// exactly where no function does.
pub proof fn owners_cover_their_instructions(functions: Seq<DebugFunctionInfo>, pc: int)
    ensures
        match owner(functions, pc) {
            Some(name) => exists|k: int|
                0 <= k < functions.len() && in_function(#[trigger] functions[k], pc)
                    && functions[k].name@ == name && (forall|j: int|
                    0 <= j < k ==> !in_function(#[trigger] functions[j], pc)),
            None => !attributed(functions, pc),
        },
    decreases functions.len(),
{
    if functions.len() > 0 {
        if in_function(functions[0], pc) {
            assert(functions[0].name@ == owner(functions, pc)->0);
        } else {
            let rest = functions.skip(1);
            owners_cover_their_instructions(rest, pc);
            if let Some(name) = owner(functions, pc) {
                let k = choose|k: int|
                    0 <= k < rest.len() && in_function(#[trigger] rest[k], pc) && rest[k].name@
                        == name && (forall|j: int|
                        0 <= j < k ==> !in_function(#[trigger] rest[j], pc));
                assert(functions[k + 1] == rest[k]);
                assert forall|j: int| 0 <= j < k + 1 implies !in_function(
                    #[trigger] functions[j],
                    pc,
                ) by {
                    if j > 0 {
                        assert(rest[j - 1] == functions[j]);
                    }
                }
            } else {
                assert forall|k: int| 0 <= k < functions.len() implies !in_function(
                    #[trigger] functions[k],
                    pc,
                ) by {
                    if k > 0 {
                        assert(rest[k - 1] == functions[k]);
                    }
                }
            }
        }
    }
}

/// The allocation sites are exactly the instructions that allocate, in the order
/// of the code.
pub proof fn allocation_sites_are_complete(ops: Seq<Instruction>, n: int)
    requires
        0 <= n <= ops.len(),
    ensures
        forall|pc: int|
            0 <= pc < n ==> (#[trigger] allocating_pcs(ops, n).contains(pc) <==> in_class(
                ops[pc].opcode,
                CostClass::HeapAllocation,
            ) || in_class(ops[pc].opcode, CostClass::StringMaterialization)),
        forall|i: int|
            0 <= i < allocating_pcs(ops, n).len() ==> 0 <= #[trigger] allocating_pcs(ops, n)[i] < n,
        forall|i: int, j: int|
            0 <= i < j < allocating_pcs(ops, n).len() ==> #[trigger] allocating_pcs(ops, n)[i]
                < #[trigger] allocating_pcs(ops, n)[j],
    decreases n,
{
    if n > 0 {
        let before = allocating_pcs(ops, n - 1);
        allocation_sites_are_complete(ops, n - 1);
        let now = allocating_pcs(ops, n);
        assert forall|pc: int| 0 <= pc < n implies (#[trigger] now.contains(pc) <==> in_class(
            ops[pc].opcode,
            CostClass::HeapAllocation,
        ) || in_class(ops[pc].opcode, CostClass::StringMaterialization)) by {
            if before.contains(pc) {
                let k = choose|k: int| 0 <= k < before.len() && before[k] == pc;
                assert(now[k] == pc);
            }
            if pc == n - 1 {
                if now.len() > before.len() {
                    assert(now[before.len() as int] == pc);
                } else if now.contains(pc) {
                    let k = choose|k: int| 0 <= k < now.len() && now[k] == pc;
                    assert(before[k] == pc);
                }
            } else if now.contains(pc) {
                let k = choose|k: int| 0 <= k < now.len() && now[k] == pc;
                assert(before[k] == pc);
                assert(before.contains(pc));
            }
        }
    }
}

/// The instructions of a range are those from its offset on, as many as it has
/// and the code holds.
pub proof fn ranges_hold_their_instructions(ops: Seq<Instruction>, offset: usize, len: usize)
    requires
        offset + len <= usize::MAX,
    ensures
        range_ops(ops, offset, len) == (if offset + len <= ops.len() {
            ops.subrange(offset as int, offset + len)
        } else if offset <= ops.len() {
            ops.skip(offset as int)
        } else {
            Seq::empty()
        }),
{
    assert(range_ops(ops, offset, len) =~= (if offset + len <= ops.len() {
        ops.subrange(offset as int, offset + len)
    } else if offset <= ops.len() {
        ops.skip(offset as int)
    } else {
        Seq::empty()
    }));
}

/// What belongs to no function is, in its order, every instruction that no
/// function covers.
pub proof fn loose_instructions_are_uncovered(
    ops: Seq<Instruction>,
    functions: Seq<DebugFunctionInfo>,
    n: int,
    i: Instruction,
)
    requires
        0 <= n <= ops.len(),
    ensures
        loose_ops(ops, functions, n).contains(i) <==> exists|pc: int|
            0 <= pc < n && #[trigger] ops[pc] == i && !attributed(functions, pc),
    decreases n,
{
    if n > 0 {
        loose_instructions_are_uncovered(ops, functions, n - 1, i);
        let before = loose_ops(ops, functions, n - 1);
        let now = loose_ops(ops, functions, n);
        if before.contains(i) {
            let k = choose|k: int| 0 <= k < before.len() && before[k] == i;
            assert(now[k] == i);
        }
        if !attributed(functions, n - 1) {
            assert(now[before.len() as int] == ops[n - 1]);
        }
        if now.contains(i) && !before.contains(i) {
            let k = choose|k: int| 0 <= k < now.len() && now[k] == i;
            if k < before.len() {
                assert(before[k] == i);
            }
            assert(ops[n - 1] == i);
        }
        if exists|pc: int| 0 <= pc < n && #[trigger] ops[pc] == i && !attributed(functions, pc) {
            let pc = choose|pc: int|
                0 <= pc < n && #[trigger] ops[pc] == i && !attributed(functions, pc);
            if pc < n - 1 {
                assert(before.contains(i));
            }
        }
    }
}

/// A site tells where it is: its function is the first that covers it, its line
/// that of the entry in force, and its class says why the instruction is listed.
pub proof fn sites_tell_where_they_are(site: AllocationSite, module: CodeModule, pc: int)
    requires
        describes(site, module, pc),
        0 <= pc < module.instructions@.len(),
    ensures
        site.pc == pc,
        site.function is Some <==> attributed(module.debug_functions@, pc),
        site.function matches Some(f) ==> exists|k: int|
            0 <= k < module.debug_functions@.len() && in_function(
                #[trigger] module.debug_functions@[k],
                pc,
            ) && module.debug_functions@[k].name@ == f@,
        site.source_line is Some <==> bytecode::line_entry(module.line_table@, site.pc) is Some,
        in_class(module.instructions@[pc].opcode, CostClass::HeapAllocation) || in_class(
            module.instructions@[pc].opcode,
            CostClass::StringMaterialization,
        ),
{
    let fs = module.debug_functions@;
    owners_cover_their_instructions(fs, pc);
}

} // verus!
