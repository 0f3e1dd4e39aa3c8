use nulang::bytecode::{CodeModule, DebugFunctionInfo, Instruction, OpCode};
use nulang::cost_model::analyze_module;

#[test]
fn classifies_allocations_copies_and_boundaries() {
    let mut module = CodeModule::new("cost-test");
    module.emit(Instruction::new2(OpCode::ArrAlloc, 1, 2));
    module.emit(Instruction::new2(OpCode::RecMk, 2, 3));
    module.emit(Instruction::new2(OpCode::RecCopy, 3, 4));
    module.emit(Instruction::new3(OpCode::SConcat, 4, 5, 6));
    module.emit(Instruction::new3(OpCode::Call, 7, 0, 8));
    module.emit(Instruction::new0(OpCode::PerformAsync));
    module.emit(Instruction::new0(OpCode::FFICall));
    module.emit(Instruction::new0(OpCode::RSend));

    let report = analyze_module(&module);
    assert_eq!(report.total.instructions, 8);
    assert_eq!(report.total.heap_allocation_sites, 3);
    assert_eq!(report.total.string_materialization_sites, 1);
    assert_eq!(report.total.allocation_sites, 4);
    assert_eq!(report.total.copy_sites, 1);
    assert_eq!(report.total.call_sites, 1);
    assert_eq!(report.total.effect_boundaries, 1);
    assert_eq!(report.total.suspension_points, 1);
    assert_eq!(report.total.ffi_boundaries, 1);
    assert_eq!(report.total.distributed_operations, 1);
    assert!(!report.is_allocation_free());
    assert_eq!(report.allocation_sites.len(), 4);
}

#[test]
fn attributes_costs_to_debug_function_ranges() {
    let mut module = CodeModule::new("ranges");
    module.emit(Instruction::new2(OpCode::ArrAlloc, 1, 2));
    module.emit(Instruction::new0(OpCode::Ret));
    module.emit(Instruction::new3(OpCode::IAdd, 1, 2, 3));
    module.emit(Instruction::new0(OpCode::Ret));
    module.debug_functions.push(DebugFunctionInfo {
        name: "allocating".into(),
        code_offset: 0,
        code_len: 2,
        params: Vec::new(),
        locals: Vec::new(),
    });
    module.debug_functions.push(DebugFunctionInfo {
        name: "pure".into(),
        code_offset: 2,
        code_len: 2,
        params: Vec::new(),
        locals: Vec::new(),
    });

    let report = analyze_module(&module);
    assert_eq!(report.functions.len(), 2);
    assert_eq!(report.functions[0].summary.allocation_sites, 1);
    assert!(report.functions[1].summary.is_allocation_free());
    assert_eq!(report.unattributed.instructions, 0);
    assert_eq!(
        report.allocation_sites[0].function.as_deref(),
        Some("allocating")
    );
}

#[test]
fn immediate_closure_is_not_reported_as_an_allocation() {
    let mut module = CodeModule::new("closure");
    module.emit(Instruction::new3(OpCode::Closure, 0, 0, 1));
    let report = analyze_module(&module);
    assert!(report.is_allocation_free());
}

#[test]
fn report_names_the_module_and_its_sites() {
    let mut module = CodeModule::new("text");
    module.emit(Instruction::new2(OpCode::ArrAlloc, 1, 2));
    let report = analyze_module(&module);
    let text = report.render_text();
    assert!(text.contains("text"));
    assert!(text.contains("ArrAlloc"));
}
