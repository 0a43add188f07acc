use crimp::decompose::{
    check_options, component_linking, import_members, linking_metadata, prepare_driver_split, validate_assumptions,
    CanonicalOption, ComponentArg, ComponentExport, ComponentExternalKind, ComponentFuncSource, ComponentInstance,
    ComponentScope, ComponentView, CoreFuncSource, CoreInstance, CoreItemSource, DecomposeError, InstantiationArg,
    MergeOptions, ModuleNames, OptionsError, ResolvedComponentInstance, ResolvedCoreInstance, SubComponent,
};
use crimp::glue::GlueBuilder;
use crimp::ids::{ModuleID, ModuleImportIndex, ModuleInstanceID};
use crimp::names::{module_name_from_ids, REPLAY_IMPORT_MODULE};
use crimp::linking::{ExternalKind, ImportKind, ImportType, ModuleExport, ModuleImport, ModuleSummary};

fn export(name: &str, kind: ExternalKind, index: u32) -> ModuleExport {
    ModuleExport { name: name.to_string(), kind, index }
}

fn import(module: &str, name: &str, ty: ImportType) -> ModuleImport {
    ModuleImport { module: module.to_string(), name: name.to_string(), ty }
}

fn summary(imports: Vec<ModuleImport>, exports: Vec<ModuleExport>) -> ModuleSummary {
    ModuleSummary { module_name: None, imports, types: vec![], exports, func_types: vec![], start: None, bodies: vec![] }
}

/// Module 0 defines `f` and `memory`; module 1 imports `a.f` (from a
/// synthetic instance of module 0's `f`) and the host function `host.g`,
/// lowered with module 0's memory, and exports `run`, which the component
/// lifts and exports.
fn component() -> ComponentView {
    let m0 = summary(vec![], vec![export("f", ExternalKind::Func, 0), export("memory", ExternalKind::Memory, 0)]);
    let m1 = summary(
        vec![import("a", "f", ImportType::Func(0)), import("host", "g", ImportType::Func(0))],
        vec![export("run", ExternalKind::Func, 1)],
    );
    ComponentView {
        scope: ComponentScope {
            modules: vec![Some(m0), Some(m1)],
            core_funcs: vec![
                CoreFuncSource::FromModule { module_idx: 0, func_idx: 0 },
                CoreFuncSource::Lowered { func_idx: 0, options: vec![CanonicalOption::Memory(0), CanonicalOption::UTF8] },
                CoreFuncSource::FromModule { module_idx: 1, func_idx: 1 },
            ],
            core_tables: vec![],
            core_memories: vec![CoreItemSource { module_idx: 0, index: 0 }],
            funcs: vec![
                ComponentFuncSource::Imported { direct: Some("host-g".to_string()) },
                ComponentFuncSource::Lifted { core_func_idx: 2, options: vec![] },
            ],
        },
        core_instances: vec![
            CoreInstance { aliased: false, resolved: ResolvedCoreInstance::Instantiated { module_idx: 0, args: vec![] } },
            CoreInstance { aliased: false, resolved: ResolvedCoreInstance::FromExports(vec![export("g", ExternalKind::Func, 1)]) },
            CoreInstance { aliased: false, resolved: ResolvedCoreInstance::FromExports(vec![export("f", ExternalKind::Func, 0)]) },
            CoreInstance {
                aliased: false,
                resolved: ResolvedCoreInstance::Instantiated {
                    module_idx: 1,
                    args: vec![
                        InstantiationArg { name: "a".to_string(), index: 2 },
                        InstantiationArg { name: "host".to_string(), index: 1 },
                    ],
                },
            },
        ],
        instances: vec![],
        components: vec![],
        exports: vec![ComponentExport { name: "run".to_string(), kind: ComponentExternalKind::Func, index: 1 }],
    }
}

#[test]
fn options_need_glue_and_trace_together() {
    assert!(check_options(false, false, MergeOptions::FullSplit).is_ok());
    assert!(check_options(true, true, MergeOptions::DriverSplit).is_ok());
    assert_eq!(check_options(true, false, MergeOptions::FullMerge), Err(OptionsError::GlueArgsMismatch));
    assert_eq!(check_options(false, true, MergeOptions::FullSplit), Err(OptionsError::GlueArgsMismatch));
    assert_eq!(check_options(false, false, MergeOptions::DriverSplit), Err(OptionsError::DriverSplitNeedsGlue));
    assert!(!MergeOptions::FullSplit.any_merge());
    assert!(MergeOptions::FullMerge.any_merge());
    assert!(MergeOptions::DriverSplit.any_merge());
}

#[test]
fn linking_resolves_every_import() {
    let lm = linking_metadata(&component(), [7u8; 32]).ok().unwrap();
    assert_eq!(lm.checksum, [7u8; 32]);
    assert_eq!(lm.instance_map.len(), 2);
    assert_eq!(lm.instance_map.get(&0), Some(&ModuleID(0)));
    assert_eq!(lm.instance_map.get(&3), Some(&ModuleID(1)));
    assert_eq!(lm.mm.len(), 2);
    let md = lm.mm.get(&1).unwrap();
    assert_eq!(md.import_map.len(), 2);
    assert_eq!(md.import_map[1].0, "host");
    assert_eq!(md.import_map[1].2, ModuleImportIndex(1));
    assert_eq!(lm.instantiations.len(), 2);
    assert!(lm.instantiations.get(&0).unwrap().imports.is_empty());
    let inst = lm.instantiations.get(&3).unwrap();
    assert_eq!(inst.instantiate_order, 3);
    match inst.imports.get(&0).unwrap() {
        ImportKind::Rename { package, member } => {
            assert_eq!(package.0, 0);
            assert_eq!(member, "f");
        },
        _ => panic!("expected a rename"),
    }
    match inst.imports.get(&1).unwrap() {
        ImportKind::TrueImport(Some(o)) => {
            let m = o.memory.as_ref().unwrap();
            assert_eq!(m.mid.0, 0);
            assert_eq!(m.name, "memory");
            assert!(o.realloc.is_none());
            assert!(o.post_return.is_none());
        },
        _ => panic!("expected a real import with options"),
    }
    let exported = lm.export_funcs.get(&3).unwrap();
    assert_eq!(exported.len(), 1);
    assert_eq!(exported[0].name, "run");
    assert_eq!(exported[0].record_id.0, 0);
    assert!(exported[0].opts.memory.is_none());
}

#[test]
fn aliased_core_instance_is_refused() {
    let mut c = component();
    c.core_instances[0].aliased = true;
    assert!(matches!(linking_metadata(&c, [0u8; 32]), Err(DecomposeError::AliasedCoreInstance(0))));
}

#[test]
fn unsupported_export_kind_is_refused() {
    let mut c = component();
    c.core_instances[1] = CoreInstance {
        aliased: false,
        resolved: ResolvedCoreInstance::FromExports(vec![export("g", ExternalKind::Global, 0)]),
    };
    assert!(matches!(linking_metadata(&c, [0u8; 32]), Err(DecomposeError::UnsupportedExportKind(ExternalKind::Global))));
}

#[test]
fn from_exports_component_instance_is_refused() {
    let mut c = component();
    c.instances.push(ComponentInstance { exported: false, resolved: ResolvedComponentInstance::FromExports });
    assert!(matches!(linking_metadata(&c, [0u8; 32]), Err(DecomposeError::FromExportsComponentInstance)));
    assert!(matches!(validate_assumptions(&c), Err(DecomposeError::FromExportsComponentInstance)));
}

#[test]
fn assumptions_on_modules_and_nested_components() {
    assert!(validate_assumptions(&component()).is_ok());
    let mut c = component();
    c.scope.modules.push(None);
    assert!(matches!(validate_assumptions(&c), Err(DecomposeError::ImportedModule)));
    let nested = |imported: bool, modules: usize, core_instances: u32| SubComponent {
        imported,
        scope: ComponentScope {
            modules: (0..modules).map(|_| Some(summary(vec![], vec![]))).collect(),
            core_funcs: vec![],
            core_tables: vec![],
            core_memories: vec![],
            funcs: vec![],
        },
        num_core_instances: core_instances,
        imports: vec![],
        exports: vec![],
    };
    let mut c = component();
    c.components.push(nested(true, 0, 0));
    assert!(matches!(validate_assumptions(&c), Err(DecomposeError::ImportedComponent)));
    let mut c = component();
    c.components.push(nested(false, 1, 0));
    assert!(matches!(validate_assumptions(&c), Err(DecomposeError::NestedModules)));
    let mut c = component();
    c.components.push(nested(false, 0, 1));
    assert!(matches!(validate_assumptions(&c), Err(DecomposeError::NestedCoreInstances)));
}

#[test]
fn nested_component_exports_are_numbered_in_turn() {
    let mut c = component();
    c.components.push(SubComponent {
        imported: false,
        scope: ComponentScope {
            modules: vec![],
            core_funcs: vec![],
            core_tables: vec![],
            core_memories: vec![],
            funcs: vec![ComponentFuncSource::Imported { direct: Some("inner".to_string()) }],
        },
        num_core_instances: 0,
        imports: vec!["inner".to_string()],
        exports: vec![ComponentExport { name: "inner-run".to_string(), kind: ComponentExternalKind::Func, index: 0 }],
    });
    c.instances.push(ComponentInstance {
        exported: false,
        resolved: ResolvedComponentInstance::Instantiated {
            component_idx: 0,
            args: vec![ComponentArg { name: "inner".to_string(), kind: ComponentExternalKind::Func, index: 1 }],
        },
    });
    c.exports.push(ComponentExport { name: "nested".to_string(), kind: ComponentExternalKind::Instance, index: 0 });
    let lm = linking_metadata(&c, [0u8; 32]).ok().unwrap();
    let exported = lm.export_funcs.get(&3).unwrap();
    assert_eq!(exported.len(), 2);
    assert_eq!(exported[0].record_id.0, 0);
    assert_eq!(exported[1].record_id.0, 1);
    assert_eq!(exported[1].name, "run");
    assert_eq!(lm.clm.instance_map.len(), 1);
    let inst = lm.clm.instantiations.get(&0).unwrap();
    assert_eq!(inst.imports.len(), 1);
    assert_eq!(inst.imports[0].0, "inner");
    let md = lm.clm.cm.get(&0).unwrap();
    assert_eq!(md.component.func_exports, vec![("inner-run".to_string(), 0u32)]);
}

#[test]
fn component_checksum_is_sha256_of_bytes() {
    let lm = component_linking(&b"abc".to_vec(), &component()).ok().unwrap();
    let expected: [u8; 32] = [
        0xba, 0x78, 0x16, 0xbf, 0x8f, 0x01, 0xcf, 0xea, 0x41, 0x41, 0x40, 0xde, 0x5d, 0xae, 0x22, 0x23, 0xb0, 0x03,
        0x61, 0xa3, 0x96, 0x17, 0x7a, 0x9c, 0xb4, 0x10, 0xff, 0x61, 0xf2, 0x00, 0x15, 0xad,
    ];
    assert_eq!(lm.checksum, expected);
}

#[test]
fn members_group_by_module_name() {
    let imports = vec![
        import("env", "f", ImportType::Func(0)),
        import("wasi", "fd_write", ImportType::Func(1)),
        import("env", "g", ImportType::Func(0)),
        import("env", "f", ImportType::Func(0)),
    ];
    let members = import_members(&imports, &"env".to_string());
    assert_eq!(members.len(), 2);
    let f = members.iter().find(|(n, _)| n == "f").unwrap();
    assert_eq!(f.1, ModuleImportIndex(3));
    let g = members.iter().find(|(n, _)| n == "g").unwrap();
    assert_eq!(g.1, ModuleImportIndex(2));
}

#[test]
fn driver_split_renaming() {
    let mut modules = vec![
        ModuleNames {
            name: "module0_instance0".to_string(),
            exports: vec!["f".to_string()],
            imports: vec![],
        },
        ModuleNames {
            name: "module1_instance2".to_string(),
            exports: vec!["run".to_string()],
            imports: vec![
                ("module0_instance0".to_string(), "f".to_string()),
                ("crimp_glue".to_string(), "module1_instance2:g".to_string()),
                ("wasi".to_string(), "fd_write".to_string()),
            ],
        },
    ];
    let mut glue = Some(vec![
        ("module1_instance2".to_string(), "run".to_string()),
        ("crimp_driver_mono".to_string(), "replay_host_call".to_string()),
    ]);
    prepare_driver_split(&mut modules, &mut glue);
    assert_eq!(modules[0].exports, vec!["module0_instance0:f".to_string()]);
    assert_eq!(modules[1].exports, vec!["module1_instance2:run".to_string()]);
    assert_eq!(
        modules[1].imports,
        vec![
            ("module0_instance0".to_string(), "module0_instance0:f".to_string()),
            ("crimp_driver_mono".to_string(), "module1_instance2:g".to_string()),
            ("wasi".to_string(), "fd_write".to_string()),
        ]
    );
    assert_eq!(
        glue.unwrap(),
        vec![
            ("decomposed_component".to_string(), "module1_instance2:run".to_string()),
            ("crimp_driver_mono".to_string(), "replay_host_call".to_string()),
        ]
    );
}

#[test]
fn crimp_section_of_an_adapted_instance() {
    let lm = linking_metadata(&component(), [7u8; 32]).ok().unwrap();
    let (adapted, data) = lm.adapt_and_serialize_crimp_section(ModuleInstanceID(3));
    assert_eq!(adapted.module_name, module_name_from_ids(ModuleID(1), ModuleInstanceID(3)));
    assert_eq!(adapted.imports.len(), 2);
    assert_eq!(adapted.imports[0].0, module_name_from_ids(ModuleID(0), ModuleInstanceID(0)));
    assert_eq!(adapted.imports[0].1, "f");
    assert_eq!(adapted.imports[1].0, REPLAY_IMPORT_MODULE);
    assert_eq!(adapted.imports[1].1, "g");
    assert_eq!(data.checksum, [7u8; 32]);
    assert_eq!(data.instance_id, ModuleInstanceID(3));
    assert_eq!(data.instantiate_order, 3);
    assert_eq!(data.import_adapters.len(), 1);
    assert_eq!(data.import_adapters[0].target, ModuleImportIndex(1));
    let memory = data.import_adapters[0].memory.as_ref().unwrap();
    assert_eq!(memory.mid, ModuleInstanceID(0));
    assert_eq!(memory.name, "memory");
    assert!(data.import_adapters[0].realloc.is_none());
    assert!(data.import_adapters[0].builtin.is_none());
    assert_eq!(data.exports.len(), 1);
    assert_eq!(data.exports[0].name, "run");
    assert_eq!(data.exports[0].record_id.0, 0);
}

#[test]
fn linking_is_checked_before_decomposition() {
    let lm = linking_metadata(&component(), [7u8; 32]).ok().unwrap();
    assert!(lm.decomposable());
    let mut stray_export = linking_metadata(&component(), [7u8; 32]).ok().unwrap();
    stray_export.export_funcs.insert(99, vec![]);
    assert!(!stray_export.decomposable());
    let mut uninstantiated = linking_metadata(&component(), [7u8; 32]).ok().unwrap();
    uninstantiated.instantiations.remove(&0);
    assert!(!uninstantiated.decomposable());
    let mut unknown_instance = linking_metadata(&component(), [7u8; 32]).ok().unwrap();
    unknown_instance.instance_map.remove(&3);
    assert!(!unknown_instance.decomposable());
}

#[test]
fn adaptation_preconditions_are_checked() {
    let lm = linking_metadata(&component(), [7u8; 32]).ok().unwrap();
    assert!(lm.is_adaptable(ModuleInstanceID(0)));
    assert!(lm.is_adaptable(ModuleInstanceID(3)));
    assert!(!lm.is_adaptable(ModuleInstanceID(1)));
    assert!(!lm.is_adaptable(ModuleInstanceID(9)));
    let glue = GlueBuilder::new([7u8; 32]);
    assert!(lm.glue_ready_for(ModuleInstanceID(0), &glue));
    // `run` is exported by instance 3, but its module has no function types
    assert!(!lm.glue_ready_for(ModuleInstanceID(3), &glue));
}
