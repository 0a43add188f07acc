use crimp::linking::{ImportType, ModuleImport, TypeDef};
use crimp::r3::{
    build_scan_diff_helper, diff_runs, instrument_op, instrument_shadow, load_byte_size, memory_write_events,
    r3_component_wiring, r3_instance_for, retarget_funcs, shadow_source_instance, to_shadow, unpack_memory_write, LoadKind, LocalAlloc,
    MemArg, OpContext, Operator, R3Event, R3Instr, R3LocalFunc, R3ModuleView, R3ValType, R3Wiring, Slots, StoreKind, WireError,
};
use crimp::wasm::DataType;

fn mem(memory: u32) -> MemArg {
    MemArg { align: 2, max_align: 2, offset: 8, memory }
}

fn empty_slots() -> Slots {
    Slots {
        addr: None,
        val_i32: None,
        val_i64: None,
        val_f32: None,
        val_f64: None,
        val_v128: None,
        scratch_v128: None,
        bulk_arg1: None,
        bulk_arg2: None,
    }
}

fn func_import(module: &str, name: &str, ty: u32) -> ModuleImport {
    ModuleImport { module: module.to_string(), name: name.to_string(), ty: ImportType::Func(ty) }
}

fn small_module(body: Vec<Operator>) -> R3ModuleView {
    R3ModuleView {
        num_memories: 1,
        imports: vec![func_import("env", "log", 0)],
        types: vec![TypeDef::Func { params: vec![DataType::I32], results: vec![] }],
        num_funcs: 2,
        local_funcs: vec![R3LocalFunc { id: 1, num_params: 1, num_locals: 0, body }],
        elements: vec![vec![0, 1]],
    }
}

#[test]
fn shadow_targets_memory_one() {
    let st = Operator::Store { kind: StoreKind::I64Store8, memarg: mem(0) };
    assert_eq!(to_shadow(&st), Some(Operator::Store { kind: StoreKind::I64Store8, memarg: mem(1) }));
    assert_eq!(to_shadow(&Operator::Store { kind: StoreKind::I32Store, memarg: mem(1) }), None);
    assert_eq!(to_shadow(&Operator::Other), None);
}

#[test]
fn load_sizes() {
    assert_eq!(load_byte_size(&Operator::Load { kind: LoadKind::I32Load16U, memarg: mem(0) }), 2);
    assert_eq!(load_byte_size(&Operator::Load { kind: LoadKind::V128Load, memarg: mem(0) }), 16);
    assert_eq!(load_byte_size(&Operator::Load { kind: LoadKind::V128Load32x2S, memarg: mem(0) }), 8);
}

#[test]
fn store_is_mirrored() {
    let op = Operator::Store { kind: StoreKind::I32Store, memarg: mem(0) };
    let mut slots = empty_slots();
    let mut alloc = LocalAlloc { next: 3, added: vec![] };
    let ctx = OpContext { num_orig_fn_imports: 1, on_mismatch: 9, record_import_call: 8 };
    let (before, after) = instrument_op(&op, &mut slots, &mut alloc, &ctx);
    assert_eq!(before, vec![R3Instr::LocalSet(4), R3Instr::LocalTee(3), R3Instr::LocalGet(4)]);
    assert_eq!(
        after,
        vec![R3Instr::LocalGet(3), R3Instr::LocalGet(4), R3Instr::Op(Operator::Store { kind: StoreKind::I32Store, memarg: mem(1) })]
    );
    assert_eq!(alloc.added, vec![DataType::I32, DataType::I32]);
    // a second store reuses the locals
    let (before2, _) = instrument_op(&op, &mut slots, &mut alloc, &ctx);
    assert_eq!(before2, before);
    assert_eq!(alloc.next, 5);
}

#[test]
fn load_is_checked() {
    let op = Operator::Load { kind: LoadKind::I64Load, memarg: mem(0) };
    let mut slots = empty_slots();
    let mut alloc = LocalAlloc { next: 0, added: vec![] };
    let ctx = OpContext { num_orig_fn_imports: 0, on_mismatch: 9, record_import_call: 8 };
    let (before, after) = instrument_op(&op, &mut slots, &mut alloc, &ctx);
    assert_eq!(before, vec![R3Instr::LocalTee(0)]);
    assert_eq!(
        after,
        vec![
            R3Instr::LocalSet(1),
            R3Instr::LocalGet(0),
            R3Instr::Op(Operator::Load { kind: LoadKind::I64Load, memarg: mem(1) }),
            R3Instr::LocalGet(1),
            R3Instr::I64Ne,
            R3Instr::If,
            R3Instr::LocalGet(0),
            // the loaded bytes start at the operand plus the static offset
            R3Instr::I32Const(8),
            R3Instr::I32Add,
            R3Instr::I32Const(8),
            R3Instr::Call(9),
            R3Instr::End,
            R3Instr::LocalGet(1),
        ]
    );
}

#[test]
fn import_calls_are_reported() {
    let mut slots = empty_slots();
    let mut alloc = LocalAlloc { next: 0, added: vec![] };
    let ctx = OpContext { num_orig_fn_imports: 2, on_mismatch: 9, record_import_call: 8 };
    let (before, after) = instrument_op(&Operator::Call { function_index: 1 }, &mut slots, &mut alloc, &ctx);
    assert_eq!(before, vec![R3Instr::I32Const(1), R3Instr::Call(8)]);
    assert!(after.is_empty());
    let (before, _) = instrument_op(&Operator::Call { function_index: 2 }, &mut slots, &mut alloc, &ctx);
    assert!(before.is_empty());
}

#[test]
fn modules_without_own_memory_are_skipped() {
    let mut m = small_module(vec![]);
    m.num_memories = 0;
    assert!(instrument_shadow(&m, false).is_none());
    let mut m = small_module(vec![]);
    m.imports.push(ModuleImport { module: "env".to_string(), name: "memory".to_string(), ty: ImportType::Memory });
    assert!(instrument_shadow(&m, false).is_none());
    let mut m = small_module(vec![]);
    m.local_funcs.clear();
    assert!(instrument_shadow(&m, true).is_none());
}

#[test]
fn core_mode_plan() {
    let body = vec![Operator::Store { kind: StoreKind::I32Store, memarg: mem(0) }, Operator::Call { function_index: 0 }, Operator::Other];
    let p = instrument_shadow(&small_module(body), false).unwrap();
    assert_eq!(p.import_module, "r3");
    assert_eq!(p.record_import_call_params, vec![DataType::I32]);
    assert_eq!(p.shadow_type_of, 0);
    assert_eq!(p.shadow_memory, 1);
    assert_eq!(p.shadow_export, "__r3_shadow");
    assert_eq!(p.record_memory_name, "record_memory_diff");
    assert_eq!(p.record_memory_params, vec![DataType::I32, DataType::I32]);
    assert_eq!(p.record_memory_id, 2);
    assert_eq!(p.record_import_call_id, 3);
    assert_eq!(p.trampolines.len(), 1);
    let t = &p.trampolines[0];
    assert_eq!((t.orig, t.id), (0, 4));
    assert_eq!(t.body, vec![R3Instr::I32Const(0), R3Instr::Call(3), R3Instr::LocalGet(0), R3Instr::Call(0)]);
    assert_eq!(p.elements, vec![vec![4, 1]]);
    assert!(p.scan_diff.is_none());
    assert_eq!(p.funcs.len(), 1);
    let f = &p.funcs[0];
    assert_eq!(f.id, 1);
    assert_eq!(f.added_locals, vec![DataType::I32, DataType::I32]);
    assert_eq!(f.injections[0].0, vec![R3Instr::LocalSet(2), R3Instr::LocalTee(1), R3Instr::LocalGet(2)]);
    assert_eq!(f.injections[1].0, vec![R3Instr::I32Const(0), R3Instr::Call(3)]);
    assert!(f.injections[2].0.is_empty() && f.injections[2].1.is_empty());
}

#[test]
fn component_mode_plan() {
    let body = vec![Operator::Load { kind: LoadKind::I32Load8U, memarg: mem(0) }];
    let p = instrument_shadow(&small_module(body), true).unwrap();
    assert_eq!(p.record_memory_name, "record_memory_write");
    assert_eq!(p.record_memory_params, vec![DataType::I32, DataType::I32, DataType::I64, DataType::I64]);
    let sd = p.scan_diff.as_ref().unwrap();
    assert_eq!(sd.id, 5);
    assert_eq!(sd.locals.len(), 9);
    // a mismatching load calls the scan-diff helper
    assert!(p.funcs[0].injections[0].1.contains(&R3Instr::Call(5)));
    assert!(p.funcs[0].injections[0].1.contains(&R3Instr::I32Const(1)));
}

#[test]
fn scan_diff_helper_reports_through_given_import() {
    let (locals, body) = build_scan_diff_helper(7);
    assert_eq!(locals[5], DataType::I64);
    assert_eq!(body[0], R3Instr::LocalGet(0));
    assert!(body.contains(&R3Instr::Call(7)));
    assert!(body.contains(&R3Instr::I32Store8 { memory: 1 }));
}

#[test]
fn diff_runs_find_differing_bytes() {
    let m = vec![1u8, 2, 3, 4, 5];
    let s = vec![1u8, 0, 0, 4, 0];
    let runs = diff_runs(&m, &s);
    assert_eq!(runs, vec![(1u32, vec![2u8, 3]), (4u32, vec![5u8])]);
    assert!(diff_runs(&m, &m).is_empty());
}

#[test]
fn memory_write_events_are_absolute() {
    let events = memory_write_events(100, &vec![1u8, 2, 3], &vec![1u8, 9, 3]);
    assert_eq!(events.len(), 1);
    match &events[0] {
        R3Event::MemoryWrite { addr, data } => {
            assert_eq!(*addr, 101);
            assert_eq!(data, &vec![2u8]);
        },
        R3Event::ImportCall { .. } => panic!("expected a memory write"),
    }
}

#[test]
fn unpacking_a_packed_run() {
    match unpack_memory_write(8, 3, 0x0003_0201, 0) {
        R3Event::MemoryWrite { addr, data } => {
            assert_eq!(addr, 8);
            assert_eq!(data, vec![1u8, 2, 3]);
        },
        _ => panic!("expected a memory write"),
    }
    match unpack_memory_write(0, 10, 0x0807_0605_0403_0201, 0x0a09) {
        R3Event::MemoryWrite { data, .. } => assert_eq!(data, vec![1u8, 2, 3, 4, 5, 6, 7, 8, 9, 10]),
        _ => panic!("expected a memory write"),
    }
}

#[test]
fn element_references_go_to_trampolines() {
    let mut funcs = vec![0u32, 5, 1, 0];
    retarget_funcs(&mut funcs, &vec![(0, 10), (1, 11)]);
    assert_eq!(funcs, vec![10, 5, 11, 10]);
}

#[test]
fn r3_wiring_choices() {
    assert_eq!(r3_instance_for(1, &vec![0], &vec![1]), R3Wiring::Full);
    assert_eq!(r3_instance_for(0, &vec![0], &vec![1]), R3Wiring::Funcs);
    assert_eq!(r3_instance_for(2, &vec![0], &vec![1]), R3Wiring::Unwired);
    assert!(matches!(shadow_source_instance(&vec![], &vec![], &vec![]), Ok(None)));
    assert!(matches!(shadow_source_instance(&vec![], &vec![1], &vec![]), Err(WireError::NoLocalMemoryModule)));
    assert!(matches!(shadow_source_instance(&vec![0], &vec![1], &vec![(1, 3)]), Err(WireError::NoInstance(0))));
    assert!(matches!(shadow_source_instance(&vec![0], &vec![1], &vec![(0, 2), (1, 3), (0, 4)]), Ok(Some(4))));
}

#[test]
fn component_wiring_plan() {
    // module 0 defines its memory, module 1 imports it, module 2 is not instrumented
    let p = r3_component_wiring(&vec![0], &vec![1], &vec![(0, 2), (1, 3), (2, 4)]).ok().unwrap();
    assert_eq!(p.import_name, "r3");
    assert_eq!(p.funcs.len(), 2);
    assert_eq!(p.funcs[0].name, "record-import-call");
    assert_eq!(p.funcs[0].params, vec![("func-idx".to_string(), R3ValType::U32)]);
    assert_eq!(p.funcs[1].name, "record-memory-write");
    let names: Vec<&str> = p.funcs[1].params.iter().map(|(n, _)| n.as_str()).collect();
    assert_eq!(names, vec!["addr", "size", "lo", "hi"]);
    assert_eq!(p.funcs[1].params[3].1, R3ValType::U64);
    assert_eq!(p.core_funcs, vec!["record_import_call".to_string(), "record_memory_write".to_string()]);
    assert_eq!(p.shadow_source, Some(2));
    assert_eq!(p.shadow_export, "__r3_shadow");
    assert_eq!(p.arg_name, "r3");
    assert_eq!(p.args, vec![(2, R3Wiring::Funcs), (3, R3Wiring::Full), (4, R3Wiring::Unwired)]);
    // without a module that imports its memory, no full instance is needed
    let p = r3_component_wiring(&vec![0], &vec![], &vec![(0, 1)]).ok().unwrap();
    assert_eq!(p.shadow_source, None);
    assert_eq!(p.args, vec![(1, R3Wiring::Funcs)]);
    assert_eq!(r3_component_wiring(&vec![], &vec![1], &vec![(1, 0)]).err(), Some(WireError::NoLocalMemoryModule));
    assert_eq!(r3_component_wiring(&vec![0], &vec![1], &vec![(1, 0)]).err(), Some(WireError::NoInstance(0)));
}
