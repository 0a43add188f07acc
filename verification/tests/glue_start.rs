use std::collections::HashMap;

use crimp::binary::DriverGlueModules;
use crimp::glue::GlueBuilder;
use crimp::ids::ModuleInstanceID;
use crimp::linking::{BodyOp, ImportKind, ImportType, ModuleImport, ModuleSummary, TypeDef};
use crimp::r3::{LoadKind, MemArg, Operator};
use crimp::start_analysis::{body_op, check_op, start_module_checkable, validate_start_in, StartError, TrueImportIndices};
use crimp::wasm::{DataType, FuncRef, Instr};

fn host_module(start_body: Vec<BodyOp>) -> ModuleSummary {
    ModuleSummary {
        module_name: None,
        imports: vec![
            ModuleImport { module: "host".to_string(), name: "g".to_string(), ty: ImportType::Func(0) },
            ModuleImport { module: "host".to_string(), name: "mem".to_string(), ty: ImportType::Memory },
        ],
        types: vec![TypeDef::Func { params: vec![], results: vec![] }],
        exports: vec![],
        func_types: vec![0, 0, 0],
        start: Some(1),
        bodies: vec![start_body, vec![BodyOp::Call(0)]],
    }
}

#[test]
fn start_reaching_a_true_import_is_refused() {
    let m = host_module(vec![BodyOp::Other, BodyOp::Call(2)]);
    let idx = TrueImportIndices::build(&m, &HashMap::new());
    assert_eq!(idx.num_import_funcs, 1);
    assert_eq!(validate_start_in(&m, &idx, 1), Err(StartError::CallsTrueImport(0)));
}

#[test]
fn start_calling_a_linked_import_is_safe() {
    let m = host_module(vec![BodyOp::Call(2)]);
    let mut kinds: HashMap<u32, ImportKind> = HashMap::new();
    kinds.insert(0, ImportKind::Rename { package: ModuleInstanceID(0), member: "g".to_string() });
    let idx = TrueImportIndices::build(&m, &kinds);
    assert!(validate_start_in(&m, &idx, 1).is_ok());
}

#[test]
fn start_touching_true_memory_is_refused() {
    let m = host_module(vec![BodyOp::Memory(0)]);
    let idx = TrueImportIndices::build(&m, &HashMap::new());
    assert_eq!(validate_start_in(&m, &idx, 1), Err(StartError::TrueMemory(0)));
    let m = host_module(vec![BodyOp::CallIndirect]);
    let idx = TrueImportIndices::build(&m, &HashMap::new());
    assert_eq!(validate_start_in(&m, &idx, 1), Err(StartError::CallIndirect));
}

#[test]
fn empty_glue_module_exports_the_dispatch_interface() {
    let checksum = [3u8; 32];
    let b = GlueBuilder::new(checksum);
    assert_eq!(b.module.name, "crimp_glue");
    assert_eq!(b.module.func_imports.len(), 5);
    assert_eq!(b.module.func_imports[0].name, "replay_host_call");
    assert!(b.ready_to_finish());
    let m = b.finish();
    let names: Vec<&str> = m.exports.iter().map(|e| e.name.as_str()).collect();
    for n in [
        "get_sha256_checksum",
        "init_replayer",
        "replay_instruction",
        "dispatch_realloc",
        "dispatch_memory_write",
        "dispatch_post_return",
        "dispatch_core_func",
    ] {
        assert!(names.contains(&n), "missing export {}", n);
    }
    // the checksum is returned as four little-endian quadwords
    let e = m.exports.iter().find(|e| e.name == "get_sha256_checksum").unwrap();
    let k = match e.func {
        FuncRef::Local(k) => k as usize,
        FuncRef::Import(_) => panic!("checksum function is local"),
    };
    let consts: Vec<i64> = m.funcs[k]
        .instrs
        .iter()
        .filter_map(|i| match i {
            Instr::I64Const(v) => Some(*v),
            _ => None,
        })
        .collect();
    assert_eq!(consts, vec![0x0303_0303_0303_0303i64; 4]);
    assert_eq!(m.funcs[k].params, vec![DataType::I32]);
}

#[test]
fn glue_with_two_component_memories_cannot_finish() {
    let mut b = GlueBuilder::new([0u8; 32]);
    let m0 = b.ensure_memory_imported(ModuleInstanceID(0), &"memory".to_string(), "module0_instance0");
    // importing the same memory again reuses it
    assert_eq!(b.ensure_memory_imported(ModuleInstanceID(0), &"memory".to_string(), "module0_instance0"), m0);
    assert!(b.ready_to_finish());
    b.ensure_memory_imported(ModuleInstanceID(1), &"memory".to_string(), "module1_instance1");
    assert_eq!(b.imported_memories.len(), 2);
    assert!(!b.ready_to_finish());
}

#[test]
fn a_component_function_is_imported_once() {
    let mut b = GlueBuilder::new([0u8; 32]);
    let name = "realloc".to_string();
    let r1 = b.ensure_func_imported(ModuleInstanceID(2), &name, "module0_instance2", &vec![DataType::I32; 4], &vec![DataType::I32]);
    let imports = b.module.func_imports.len();
    let types = b.module.types.len();
    // a second request, even with another signature, gives the first import
    let r2 = b.ensure_func_imported(ModuleInstanceID(2), &name, "elsewhere", &vec![], &vec![]);
    assert_eq!(r1, r2);
    assert_eq!(b.module.func_imports.len(), imports);
    assert_eq!(b.module.types.len(), types);
    assert_eq!(imports, 6);
    assert_eq!(b.module.func_imports[5].module, "module0_instance2");
    assert_eq!(b.module.func_imports[5].name, "realloc");
}

#[test]
fn driver_is_named_and_glue_finished() {
    let bytes: &'static [u8] = &[0x00, 0x61, 0x73, 0x6d, 0x01, 0x00, 0x00, 0x00];
    let driver = wirm::ir::module::Module::parse(bytes, true, false).ok().unwrap();
    let d = DriverGlueModules::from_driver_and_builder(driver, GlueBuilder::new([5u8; 32]));
    assert_eq!(d.driver.module_name, Some("crimp_driver_mono".to_string()));
    assert_eq!(d.glue.name, "crimp_glue");
    assert_eq!(d.glue.exports.len(), 7);
}

#[test]
fn tail_calls_and_vector_loads_are_classified() {
    let m = host_module(vec![]);
    let idx = TrueImportIndices::build(&m, &HashMap::new());
    let tail = body_op(&Operator::ReturnCall { function_index: 0 });
    assert_eq!(tail, BodyOp::Call(0));
    assert_eq!(check_op(&tail, &idx), Err(StartError::CallsTrueImport(0)));
    let indirect = body_op(&Operator::ReturnCallIndirect { type_index: 0, table_index: 0 });
    assert_eq!(indirect, BodyOp::CallIndirect);
    assert_eq!(check_op(&indirect, &idx), Err(StartError::CallIndirect));
    let memarg = MemArg { align: 4, max_align: 4, offset: 0, memory: 0 };
    let v128 = body_op(&Operator::Load { kind: LoadKind::V128Load, memarg });
    assert_eq!(v128, BodyOp::Memory(0));
    assert_eq!(check_op(&v128, &idx), Err(StartError::TrueMemory(0)));
    assert_eq!(body_op(&Operator::GlobalSet { global_index: 3 }), BodyOp::Global(3));
    assert_eq!(body_op(&Operator::TableCopy { dst_table: 1, src_table: 2 }), BodyOp::TableCopy { dst: 1, src: 2 });
    assert_eq!(body_op(&Operator::Other), BodyOp::Other);
}

#[test]
fn start_modules_are_checked_before_analysis() {
    // one function import and two bodies: function indices 0..3
    assert!(start_module_checkable(&host_module(vec![BodyOp::Call(2)])));
    assert!(!start_module_checkable(&host_module(vec![BodyOp::Call(3)])));
    let mut m = host_module(vec![]);
    m.start = Some(3);
    assert!(!start_module_checkable(&m));
}
