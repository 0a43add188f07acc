//! Decomposition of a component into its modules: the options of a run, what
//! is read of the resolved component, and the linking metadata built from it.
use sha2::{Digest, Sha256};
use std::collections::HashMap;
use vstd::prelude::*;

use crate::ids::{ComponentID, ComponentImportIndex, ModuleID, ModuleImportIndex, ModuleInstanceID};
use crate::component_linking::{ComponentImportBindInParent, ComponentInstantiationLinkingMetadata, ComponentMetadata, ComponentSummary};
use crate::ids::RecordExportIndex;
use crate::component_linking::ComponentLinkingMetadata;
use crate::linking::{BuiltinOptions, CanonicalOptionsIndex, Checksum, ExportFuncMetadata, LinkingMetadata, ExternalKind, ImportKind, InstantiationLinkingMetadata, ModuleExport, ModuleImport, ModuleInstanceExport, ModuleMetadata, ModuleSummary, same_summary};
use crate::linking::assumed_instance_id;
use crate::names::{decimal, decimal_spec, namespaced, namespaced_spec, DECOMPOSED_COMPONENT_NAME, DRIVER_MODULE_NAME, GLUE_MODULE_NAME};

verus! {

/// How the decomposed modules are merged on output.
#[derive(Debug, Copy, Clone, PartialEq, Eq, Structural)]
pub enum MergeOptions {
    /// No merging: decomposed modules, glue and driver are kept separate.
    FullSplit,
    /// Everything is merged into a single module.
    FullMerge,
    /// Decomposed modules are merged together, and glue and driver together.
    DriverSplit,
}

impl MergeOptions {
    /// Whether any merging is done at all.
    pub fn any_merge(&self) -> (r: bool)
        ensures
            r == !(*self is FullSplit),
    {
        match self {
            MergeOptions::FullSplit => false,
            _ => true,
        }
    }
}

/// Why the options of a run are refused.
#[derive(Debug, Copy, Clone, PartialEq, Eq, Structural)]
pub enum OptionsError {
    /// A trace path is given without `glue`, or `glue` without a trace path.
    GlueArgsMismatch,
    /// `DriverSplit` merging needs `glue`.
    DriverSplitNeedsGlue,
}

/// Checks that the glue flag and the trace path come together, and that
/// `DriverSplit` merging has glue.
pub fn check_options(glue: bool, has_trace_path: bool, merge: MergeOptions) -> (r: Result<(), OptionsError>)
    ensures
        r == (if glue != has_trace_path {
            Err::<(), OptionsError>(OptionsError::GlueArgsMismatch)
        } else if merge is DriverSplit && !glue {
            Err(OptionsError::DriverSplitNeedsGlue)
        } else {
            Ok(())
        }),
{
    if glue != has_trace_path {
        return Err(OptionsError::GlueArgsMismatch);
    }
    if matches!(merge, MergeOptions::DriverSplit) && !glue {
        return Err(OptionsError::DriverSplitNeedsGlue);
    }
    Ok(())
}

/// A canonical option of a lowered or lifted function.
#[derive(Debug, Copy, Clone, PartialEq, Eq, Structural)]
pub enum CanonicalOption {
    /// The memory, as a core memory index.
    Memory(u32),
    /// The realloc function, as a core function index.
    Realloc(u32),
    /// The post-return function, as a core function index.
    PostReturn(u32),
    UTF8,
    UTF16,
    /// Any other option.
    Unsupported,
}

/// Where a core function of the component comes from.
pub enum CoreFuncSource {
    /// Lowered from component function `func_idx`.
    Lowered { func_idx: u32, options: Vec<CanonicalOption> },
    /// Function `func_idx` of module `module_idx`.
    FromModule { module_idx: u32, func_idx: u32 },
    /// A resource drop, with the destructors it runs; the guest destructor
    /// as a core function index.
    ResourceDrop { host_dtor: bool, guest_dtor: Option<u32> },
}

/// A core table or memory: item `index` of module `module_idx`.
#[derive(Debug, Copy, Clone, PartialEq, Eq, Structural)]
pub struct CoreItemSource {
    pub module_idx: u32,
    pub index: u32,
}

/// Where a component function comes from.
pub enum ComponentFuncSource {
    /// Imported; with its name where it is a direct import.
    Imported { direct: Option<String> },
    /// Lifted from core function `core_func_idx`.
    Lifted { core_func_idx: u32, options: Vec<CanonicalOption> },
}

/// The resolved items of a component that linking reads: its modules
/// (`None` for an imported one), core functions, tables and memories, and
/// component functions.
pub struct ComponentScope {
    pub modules: Vec<Option<ModuleSummary>>,
    pub core_funcs: Vec<CoreFuncSource>,
    pub core_tables: Vec<CoreItemSource>,
    pub core_memories: Vec<CoreItemSource>,
    pub funcs: Vec<ComponentFuncSource>,
}

/// The export kinds that name a function.
pub open spec fn func_kinds() -> Seq<ExternalKind> {
    seq![ExternalKind::Func, ExternalKind::FuncExact]
}

/// Export `e` is of one of `kinds` and refers to item `idx`.
pub open spec fn kind_matches(kinds: Seq<ExternalKind>, e: (ExternalKind, u32), idx: u32) -> bool {
    kinds.contains(e.0) && e.1 == idx
}

/// `i` is the position of the first export of `m` of one of `kinds` for item `idx`.
pub open spec fn first_kind_export(m: ModuleSummary, kinds: Seq<ExternalKind>, idx: u32, i: int) -> bool {
    &&& 0 <= i < m.exports@.len()
    &&& kind_matches(kinds, (m.exports@[i].kind, m.exports@[i].index), idx)
    &&& forall|j: int| 0 <= j < i ==> !kind_matches(kinds, (#[trigger] m.exports@[j].kind, m.exports@[j].index), idx)
}

/// Module `mi` is defined in the component and exports item `idx` under one of `kinds`.
pub open spec fn exported_in(modules: Seq<Option<ModuleSummary>>, mi: u32, kinds: Seq<ExternalKind>, idx: u32) -> bool {
    &&& mi < modules.len()
    &&& modules[mi as int] is Some
    &&& exists|i: int| 0 <= i < modules[mi as int]->0.exports@.len()
        && kind_matches(kinds, (#[trigger] modules[mi as int]->0.exports@[i].kind, modules[mi as int]->0.exports@[i].index), idx)
}

/// The name of the first export of module `mi` of one of `kinds` for item `idx`.
pub open spec fn export_name_in(modules: Seq<Option<ModuleSummary>>, mi: u32, kinds: Seq<ExternalKind>, idx: u32) -> Seq<char> {
    let m = modules[mi as int]->0;
    m.exports@[choose|i: int| first_kind_export(m, kinds, idx, i)].name@
}

fn kind_in(kinds: &Vec<ExternalKind>, k: ExternalKind) -> (r: bool)
    ensures
        r == kinds@.contains(k),
{
    let n = kinds.len();
    for i in 0..n
        invariant
            n == kinds@.len(),
            forall|j: int| 0 <= j < i ==> kinds@[j] != k,
    {
        if kinds[i] == k {
            return true;
        }
    }
    false
}

/// The name of the first export of module `module_idx` that is of one of
/// `kinds` and refers to item `kind_idx`.
pub fn get_export_name_from_kind_idx(
    modules: &Vec<Option<ModuleSummary>>,
    module_idx: u32,
    kinds: &Vec<ExternalKind>,
    kind_idx: u32,
) -> (r: String)
    requires
        exported_in(modules@, module_idx, kinds@, kind_idx),
    ensures
        r@ == export_name_in(modules@, module_idx, kinds@, kind_idx),
{
    let m = match &modules[module_idx as usize] {
        Some(m) => m,
        None => {
            proof {
                assert(false);
            }
            return String::new();
        },
    };
    let n = m.exports.len();
    for i in 0..n
        invariant
            n == m.exports@.len(),
            *m == modules@[module_idx as int]->0,
            exported_in(modules@, module_idx, kinds@, kind_idx),
            forall|j: int| 0 <= j < i ==> !kind_matches(kinds@, (#[trigger] m.exports@[j].kind, m.exports@[j].index), kind_idx),
    {
        let e = &m.exports[i];
        if kind_in(kinds, e.kind) && e.index == kind_idx {
            proof {
                assert(first_kind_export(*m, kinds@, kind_idx, i as int));
                let c = choose|c: int| first_kind_export(*m, kinds@, kind_idx, c);
                if c < i {
                    assert(!kind_matches(kinds@, (m.exports@[c].kind, m.exports@[c].index), kind_idx));
                } else if c > i {
                    assert(!kind_matches(kinds@, (m.exports@[i as int].kind, m.exports@[i as int].index), kind_idx));
                }
            }
            return e.name.clone();
        }
    }
    proof {
        let i = choose|i: int| 0 <= i < m.exports@.len()
            && kind_matches(kinds@, (#[trigger] m.exports@[i].kind, m.exports@[i].index), kind_idx);
        assert(!kind_matches(kinds@, (m.exports@[i].kind, m.exports@[i].index), kind_idx));
    }
    String::new()
}

/// Some instance in the map instantiates module `mi`.
pub open spec fn instantiated_in(imap: Map<u32, ModuleID>, mi: u32) -> bool {
    exists|i: u32| #[trigger] imap.contains_key(i) && imap[i] == ModuleID(mi)
}

/// The module and export name of core function `f`, where it comes from a
/// module that exports it.
pub open spec fn core_func_target(scope: &ComponentScope, f: u32) -> Option<(u32, Seq<char>)> {
    if f < scope.core_funcs@.len() {
        match scope.core_funcs@[f as int] {
            CoreFuncSource::FromModule { module_idx, func_idx } => {
                if exported_in(scope.modules@, module_idx, func_kinds(), func_idx) {
                    Some((module_idx, export_name_in(scope.modules@, module_idx, func_kinds(), func_idx)))
                } else {
                    None
                }
            },
            _ => None,
        }
    } else {
        None
    }
}

/// The module and export name an option refers to (memory, realloc or post-return).
pub open spec fn option_target(scope: &ComponentScope, opt: CanonicalOption) -> Option<(u32, Seq<char>)> {
    match opt {
        CanonicalOption::Realloc(f) | CanonicalOption::PostReturn(f) => core_func_target(scope, f),
        CanonicalOption::Memory(k) => {
            if k < scope.core_memories@.len() && exported_in(scope.modules@, scope.core_memories@[k as int].module_idx,
                seq![ExternalKind::Memory], scope.core_memories@[k as int].index) {
                Some((scope.core_memories@[k as int].module_idx, export_name_in(scope.modules@,
                    scope.core_memories@[k as int].module_idx, seq![ExternalKind::Memory], scope.core_memories@[k as int].index)))
            } else {
                None
            }
        },
        _ => None,
    }
}

/// An option can be indexed: a memory, realloc or post-return that resolves
/// to an export of an instantiated module, or a string encoding.
pub open spec fn option_ok(scope: &ComponentScope, opt: CanonicalOption, imap: Map<u32, ModuleID>) -> bool {
    match opt {
        CanonicalOption::UTF8 | CanonicalOption::UTF16 => true,
        CanonicalOption::Unsupported => false,
        _ => option_target(scope, opt) matches Some(t) && instantiated_in(imap, t.0),
    }
}

/// Every option can be indexed.
pub open spec fn options_ok(scope: &ComponentScope, options: Seq<CanonicalOption>, imap: Map<u32, ModuleID>) -> bool {
    forall|i: int| 0 <= i < options.len() ==> option_ok(scope, #[trigger] options[i], imap)
}

/// The three kinds of options that are indexed.
#[derive(Debug, Copy, Clone, PartialEq, Eq, Structural)]
pub enum OptionKind {
    Memory,
    Realloc,
    PostReturn,
}

/// The option is of the given kind.
pub open spec fn is_kind(opt: CanonicalOption, kind: OptionKind) -> bool {
    match kind {
        OptionKind::Memory => opt is Memory,
        OptionKind::Realloc => opt is Realloc,
        OptionKind::PostReturn => opt is PostReturn,
    }
}

/// The position of the last option of `kind` among the first `n`.
pub open spec fn last_of(options: Seq<CanonicalOption>, kind: OptionKind, n: int) -> Option<int>
    decreases n,
{
    if n <= 0 {
        None
    } else if is_kind(options[n - 1], kind) {
        Some(n - 1)
    } else {
        last_of(options, kind, n - 1)
    }
}

/// `e` is an export of an instance of module `target.0` named `target.1`.
pub open spec fn export_resolves(e: ModuleInstanceExport, imap: Map<u32, ModuleID>, target: (u32, Seq<char>)) -> bool {
    &&& imap.contains_key(e.mid.0)
    &&& imap[e.mid.0] == ModuleID(target.0)
    &&& e.name@ == target.1
}

/// The indexed option of `kind` is that of the last option of that kind
/// among the first `n`, or absent if there is none.
pub open spec fn field_indexes(
    field: Option<ModuleInstanceExport>,
    scope: &ComponentScope,
    options: Seq<CanonicalOption>,
    kind: OptionKind,
    n: int,
    imap: Map<u32, ModuleID>,
) -> bool {
    match last_of(options, kind, n) {
        None => field is None,
        Some(i) => field matches Some(e) && export_resolves(e, imap, option_target(scope, options[i])->0),
    }
}

/// The indexed options are those of the last option of each kind among the first `n`.
pub open spec fn indexes_options(
    o: CanonicalOptionsIndex,
    scope: &ComponentScope,
    options: Seq<CanonicalOption>,
    n: int,
    imap: Map<u32, ModuleID>,
) -> bool {
    &&& field_indexes(o.memory, scope, options, OptionKind::Memory, n, imap)
    &&& field_indexes(o.realloc, scope, options, OptionKind::Realloc, n, imap)
    &&& field_indexes(o.post_return, scope, options, OptionKind::PostReturn, n, imap)
}

/// The export of an instance of module `module_idx` that is the first
/// export of one of `kinds` for item `idx`.
fn resolve_export(
    scope: &ComponentScope,
    instance_map: &HashMap<u32, ModuleID>,
    module_idx: u32,
    kinds: &Vec<ExternalKind>,
    idx: u32,
) -> (r: ModuleInstanceExport)
    requires
        exported_in(scope.modules@, module_idx, kinds@, idx),
        instantiated_in(instance_map@, module_idx),
    ensures
        export_resolves(r, instance_map@, (module_idx, export_name_in(scope.modules@, module_idx, kinds@, idx))),
{
    let mid = assumed_instance_id(instance_map, ModuleID(module_idx));
    let name = get_export_name_from_kind_idx(&scope.modules, module_idx, kinds, idx);
    ModuleInstanceExport { mid, name }
}

/// The export that a memory, realloc or post-return option refers to.
fn resolve_option(scope: &ComponentScope, opt: CanonicalOption, instance_map: &HashMap<u32, ModuleID>) -> (r: ModuleInstanceExport)
    requires
        !(opt is UTF8 || opt is UTF16),
        option_ok(scope, opt, instance_map@),
    ensures
        export_resolves(r, instance_map@, option_target(scope, opt)->0),
{
    match opt {
        CanonicalOption::Realloc(f) | CanonicalOption::PostReturn(f) => {
            match &scope.core_funcs[f as usize] {
                CoreFuncSource::FromModule { module_idx, func_idx } => {
                    let kinds = vec![ExternalKind::Func, ExternalKind::FuncExact];
                    assert(kinds@ =~= func_kinds());
                    resolve_export(scope, instance_map, *module_idx, &kinds, *func_idx)
                },
                _ => {
                    proof {
                        assert(false);
                    }
                    ModuleInstanceExport { mid: ModuleInstanceID(0), name: String::new() }
                },
            }
        },
        CanonicalOption::Memory(k) => {
            let mem = scope.core_memories[k as usize];
            let kinds = vec![ExternalKind::Memory];
            assert(kinds@ =~= seq![ExternalKind::Memory]);
            resolve_export(scope, instance_map, mem.module_idx, &kinds, mem.index)
        },
        _ => {
            proof {
                assert(false);
            }
            ModuleInstanceExport { mid: ModuleInstanceID(0), name: String::new() }
        },
    }
}

impl CanonicalOptionsIndex {
    /// Indexes the canonical options of a function as exports of module
    /// instances: the last memory, realloc and post-return option of each
    /// kind. `None` where there is no option at all.
    pub fn from_options(
        scope: &ComponentScope,
        options: &Vec<CanonicalOption>,
        instance_map: &HashMap<u32, ModuleID>,
    ) -> (r: Option<CanonicalOptionsIndex>)
        requires
            options_ok(scope, options@, instance_map@),
        ensures
            r is None <==> options@.len() == 0,
            r matches Some(o) ==> indexes_options(o, scope, options@, options@.len() as int, instance_map@),
    {
        let mut opts = CanonicalOptionsIndex { memory: None, realloc: None, post_return: None };
        let n = options.len();
        for i in 0..n
            invariant
                n == options@.len(),
                options_ok(scope, options@, instance_map@),
                indexes_options(opts, scope, options@, i as int, instance_map@),
        {
            let opt = options[i];
            assert(option_ok(scope, options@[i as int], instance_map@));
            match opt {
                CanonicalOption::Realloc(_) => {
                    opts.realloc = Some(resolve_option(scope, opt, instance_map));
                },
                CanonicalOption::PostReturn(_) => {
                    opts.post_return = Some(resolve_option(scope, opt, instance_map));
                },
                CanonicalOption::Memory(_) => {
                    opts.memory = Some(resolve_option(scope, opt, instance_map));
                },
                _ => {},
            }
        }
        if n == 0 {
            None
        } else {
            Some(opts)
        }
    }
}


/// Why a component cannot be decomposed (yet).
#[derive(Debug, Copy, Clone, PartialEq, Eq, Structural)]
pub enum DecomposeError {
    /// An aliased core instance, at its index.
    AliasedCoreInstance(u32),
    /// A synthetic core instance exports an item of this kind.
    UnsupportedExportKind(ExternalKind),
    /// A component instance of the main component is made from exports.
    FromExportsComponentInstance,
    /// The component imports a core module.
    ImportedModule,
    /// The component imports a component.
    ImportedComponent,
    /// A nested component has modules.
    NestedModules,
    /// A nested component has core instances.
    NestedCoreInstances,
}

/// An argument of a core instantiation: the instance `index` supplies the
/// imports of module name `name`.
pub struct InstantiationArg {
    pub name: String,
    pub index: u32,
}

/// What a core instance of the component resolves to.
pub enum ResolvedCoreInstance {
    /// A synthetic instance made of exports.
    FromExports(Vec<ModuleExport>),
    /// An instantiation of module `module_idx`.
    Instantiated { module_idx: u32, args: Vec<InstantiationArg> },
}

/// A core instance of the component: whether it is an alias, and what it resolves to.
pub struct CoreInstance {
    pub aliased: bool,
    pub resolved: ResolvedCoreInstance,
}

/// How the instance whose exports are linked was created.
#[derive(Debug, Copy, Clone, PartialEq, Eq, Structural)]
pub enum InstanceKind {
    FromExports,
    FromInstantiated(ModuleID),
}

/// The module of every instantiated core instance, by instance index.
pub open spec fn instance_map_spec(cis: Seq<CoreInstance>) -> Map<u32, ModuleID> {
    Map::new(
        |i: u32| (i as int) < cis.len() && cis[i as int].resolved is Instantiated,
        |i: u32| ModuleID(cis[i as int].resolved->module_idx),
    )
}

/// Maps every instantiated core instance to its module.
pub fn gather_instance_map(core_instances: &Vec<CoreInstance>) -> (r: HashMap<u32, ModuleID>)
    requires
        core_instances@.len() <= u32::MAX,
    ensures
        r@ == instance_map_spec(core_instances@),
{
    broadcast use vstd::std_specs::hash::group_hash_axioms;
    let mut r: HashMap<u32, ModuleID> = HashMap::new();
    let n = core_instances.len();
    for i in 0..n
        invariant
            n == core_instances@.len(),
            n <= u32::MAX,
            r@ == Map::new(
                |k: u32| (k as int) < i && core_instances@[k as int].resolved is Instantiated,
                |k: u32| ModuleID(core_instances@[k as int].resolved->module_idx),
            ),
    {
        if let ResolvedCoreInstance::Instantiated { module_idx, .. } = &core_instances[i].resolved {
            r.insert(i as u32, ModuleID(*module_idx));
        }
        assert(r@ =~= Map::new(
            |k: u32| (k as int) < i + 1 && core_instances@[k as int].resolved is Instantiated,
            |k: u32| ModuleID(core_instances@[k as int].resolved->module_idx),
        ));
    }
    assert(r@ =~= instance_map_spec(core_instances@));
    r
}

/// A synthetic instance exports an item of a kind that cannot be linked.
pub open spec fn unsupported_export(kind: InstanceKind, e: ModuleExport) -> bool {
    kind is FromExports && !(e.kind is Func || e.kind is Table || e.kind is Memory)
}

/// The position of the first export from `i` on that cannot be linked, or
/// the number of exports.
pub open spec fn link_stop_from(exports: Seq<ModuleExport>, kind: InstanceKind, i: int) -> int
    decreases exports.len() - i,
{
    if i >= exports.len() {
        exports.len() as int
    } else if unsupported_export(kind, exports[i]) {
        i
    } else {
        link_stop_from(exports, kind, i + 1)
    }
}

/// The position of the first export that cannot be linked, or the number of exports.
pub open spec fn link_stop(exports: Seq<ModuleExport>, kind: InstanceKind) -> int {
    link_stop_from(exports, kind, 0)
}

proof fn lemma_link_stop_from(exports: Seq<ModuleExport>, kind: InstanceKind, i: int)
    requires
        0 <= i <= exports.len(),
    ensures
        i <= link_stop_from(exports, kind, i) <= exports.len(),
        link_stop_from(exports, kind, i) < exports.len() ==> unsupported_export(kind, exports[link_stop_from(exports, kind, i)]),
        forall|j: int| i <= j < link_stop_from(exports, kind, i) ==> !unsupported_export(kind, #[trigger] exports[j]),
    decreases exports.len() - i,
{
    if i < exports.len() && !unsupported_export(kind, exports[i]) {
        lemma_link_stop_from(exports, kind, i + 1);
    }
}

proof fn lemma_link_stop(exports: Seq<ModuleExport>, kind: InstanceKind, i: int)
    requires
        0 <= i <= exports.len(),
        forall|j: int| 0 <= j < i ==> !unsupported_export(kind, #[trigger] exports[j]),
    ensures
        link_stop(exports, kind) == link_stop_from(exports, kind, i),
    decreases i,
{
    if i > 0 {
        lemma_link_stop(exports, kind, i - 1);
    }
}

/// The import `k` links export `e` of an instance of kind `kind`: a real
/// import for a lowered function, a builtin for a resource drop, and
/// otherwise a rename to the export of an instance of the module that
/// defines the item.
pub open spec fn links_export(k: ImportKind, scope: &ComponentScope, kind: InstanceKind, e: ModuleExport, imap: Map<u32, ModuleID>) -> bool {
    match kind {
        InstanceKind::FromInstantiated(m) => k matches ImportKind::Rename { package, member }
            && imap.contains_key(package.0) && imap[package.0] == m && member@ == e.name@,
        InstanceKind::FromExports => {
            if e.kind is Func {
                match scope.core_funcs@[e.index as int] {
                    CoreFuncSource::Lowered { options, .. } => k matches ImportKind::TrueImport(o)
                        && (o is None <==> options@.len() == 0)
                        && (o matches Some(x) ==> indexes_options(x, scope, options@, options@.len() as int, imap)),
                    CoreFuncSource::FromModule { module_idx, func_idx } => k matches ImportKind::Rename { package, member }
                        && export_resolves(ModuleInstanceExport { mid: package, name: member }, imap,
                            (module_idx, export_name_in(scope.modules@, module_idx, func_kinds(), func_idx))),
                    CoreFuncSource::ResourceDrop { host_dtor, guest_dtor } =>
                        k matches ImportKind::Builtin(BuiltinOptions::ResourceDrop { host_dtor: h, guest_dtor: g })
                        && h == host_dtor
                        && (g is Some <==> guest_dtor is Some)
                        && (g matches Some(x) ==> export_resolves(x, imap, core_func_target(scope, guest_dtor->0)->0)),
                }
            } else {
                let src = if e.kind is Table { scope.core_tables@[e.index as int] } else { scope.core_memories@[e.index as int] };
                let kinds = if e.kind is Table { seq![ExternalKind::Table] } else { seq![ExternalKind::Memory] };
                k matches ImportKind::Rename { package, member }
                    && export_resolves(ModuleInstanceExport { mid: package, name: member }, imap,
                        (src.module_idx, export_name_in(scope.modules@, src.module_idx, kinds, src.index)))
            }
        },
    }
}

/// An item of module `src.module_idx` exported under `kinds` that an
/// instance of the module can supply.
pub open spec fn item_linkable(scope: &ComponentScope, src: CoreItemSource, kinds: Seq<ExternalKind>, imap: Map<u32, ModuleID>) -> bool {
    exported_in(scope.modules@, src.module_idx, kinds, src.index) && instantiated_in(imap, src.module_idx)
}

/// Export `e` can be linked without an unmet assumption: the items it
/// refers to resolve, a lowered function comes from an imported component
/// function, and the modules involved are instantiated.
pub open spec fn export_linkable(scope: &ComponentScope, kind: InstanceKind, e: ModuleExport, imap: Map<u32, ModuleID>) -> bool {
    match kind {
        InstanceKind::FromInstantiated(m) => instantiated_in(imap, m.0),
        InstanceKind::FromExports => {
            if e.kind is Func {
                &&& e.index < scope.core_funcs@.len()
                &&& match scope.core_funcs@[e.index as int] {
                    CoreFuncSource::Lowered { func_idx, options } => func_idx < scope.funcs@.len()
                        && scope.funcs@[func_idx as int] is Imported && options_ok(scope, options@, imap),
                    CoreFuncSource::FromModule { module_idx, func_idx } =>
                        item_linkable(scope, CoreItemSource { module_idx, index: func_idx }, func_kinds(), imap),
                    CoreFuncSource::ResourceDrop { guest_dtor, .. } =>
                        guest_dtor matches Some(f) ==> core_func_target(scope, f) matches Some(t) && instantiated_in(imap, t.0),
                }
            } else if e.kind is Table {
                e.index < scope.core_tables@.len() && item_linkable(scope, scope.core_tables@[e.index as int], seq![ExternalKind::Table], imap)
            } else if e.kind is Memory {
                e.index < scope.core_memories@.len() && item_linkable(scope, scope.core_memories@[e.index as int], seq![ExternalKind::Memory], imap)
            } else {
                true
            }
        },
    }
}

/// Links one export: how the import it is matched with is resolved.
fn link_export(scope: &ComponentScope, kind: InstanceKind, e: &ModuleExport, instance_map: &HashMap<u32, ModuleID>) -> (r: Result<ImportKind, DecomposeError>)
    requires
        export_linkable(scope, kind, *e, instance_map@),
    ensures
        r is Err <==> unsupported_export(kind, *e),
        r matches Err(x) ==> x == DecomposeError::UnsupportedExportKind(e.kind),
        r matches Ok(k) ==> links_export(k, scope, kind, *e, instance_map@),
{
    match kind {
        InstanceKind::FromInstantiated(m) => {
            let package = assumed_instance_id(instance_map, m);
            Ok(ImportKind::Rename { package, member: e.name.clone() })
        },
        InstanceKind::FromExports => {
            match e.kind {
                ExternalKind::Func => {
                    match &scope.core_funcs[e.index as usize] {
                        CoreFuncSource::Lowered { options, .. } => {
                            Ok(ImportKind::TrueImport(CanonicalOptionsIndex::from_options(scope, options, instance_map)))
                        },
                        CoreFuncSource::FromModule { module_idx, func_idx } => {
                            let kinds = vec![ExternalKind::Func, ExternalKind::FuncExact];
                            assert(kinds@ =~= func_kinds());
                            let x = resolve_export(scope, instance_map, *module_idx, &kinds, *func_idx);
                            Ok(ImportKind::Rename { package: x.mid, member: x.name })
                        },
                        CoreFuncSource::ResourceDrop { host_dtor, guest_dtor } => {
                            let g = match guest_dtor {
                                Some(f) => Some(resolve_option(scope, CanonicalOption::Realloc(*f), instance_map)),
                                None => None,
                            };
                            Ok(ImportKind::Builtin(BuiltinOptions::ResourceDrop { host_dtor: *host_dtor, guest_dtor: g }))
                        },
                    }
                },
                ExternalKind::Table => {
                    let src = scope.core_tables[e.index as usize];
                    let kinds = vec![ExternalKind::Table];
                    assert(kinds@ =~= seq![ExternalKind::Table]);
                    let x = resolve_export(scope, instance_map, src.module_idx, &kinds, src.index);
                    Ok(ImportKind::Rename { package: x.mid, member: x.name })
                },
                ExternalKind::Memory => {
                    let src = scope.core_memories[e.index as usize];
                    let kinds = vec![ExternalKind::Memory];
                    assert(kinds@ =~= seq![ExternalKind::Memory]);
                    let x = resolve_export(scope, instance_map, src.module_idx, &kinds, src.index);
                    Ok(ImportKind::Rename { package: x.mid, member: x.name })
                },
                _ => Err(DecomposeError::UnsupportedExportKind(e.kind)),
            }
        },
    }
}

/// The imports of one module name, as (member, index), each member once.
pub open spec fn members_distinct(members: Seq<(String, ModuleImportIndex)>) -> bool {
    &&& forall|i: int, j: int| 0 <= i < j < members.len() ==> (#[trigger] members[i]).0@ != (#[trigger] members[j]).0@
    &&& forall|i: int, j: int| 0 <= i < j < members.len() ==> (#[trigger] members[i]).1 != (#[trigger] members[j]).1
}

/// Some member is named `name`.
pub open spec fn has_member(members: Seq<(String, ModuleImportIndex)>, name: Seq<char>) -> bool {
    exists|i: int| 0 <= i < members.len() && (#[trigger] members[i]).0@ == name
}

/// The import index of the member named `name`.
pub open spec fn member_index(members: Seq<(String, ModuleImportIndex)>, name: Seq<char>) -> ModuleImportIndex {
    members[choose|i: int| 0 <= i < members.len() && (#[trigger] members[i]).0@ == name].1
}

/// The exports can be matched with the members: up to the first one that
/// cannot be linked, each has a distinct name that some member has and can
/// be linked; and where all can be linked, every member is matched.
pub open spec fn exports_match(
    members: Seq<(String, ModuleImportIndex)>,
    scope: &ComponentScope,
    exports: Seq<ModuleExport>,
    kind: InstanceKind,
    imap: Map<u32, ModuleID>,
) -> bool {
    let stop = link_stop(exports, kind);
    &&& members_distinct(members)
    &&& forall|i: int, j: int| 0 <= i < j < stop ==> (#[trigger] exports[i]).name@ != (#[trigger] exports[j]).name@
    &&& forall|k: int| 0 <= k < stop ==> has_member(members, (#[trigger] exports[k]).name@)
    &&& forall|k: int| 0 <= k < stop ==> export_linkable(scope, kind, #[trigger] exports[k], imap)
    &&& stop == exports.len() ==> members.len() == exports.len()
}

/// The import indices linked by the first `n` exports.
pub open spec fn linked_key(members: Seq<(String, ModuleImportIndex)>, exports: Seq<ModuleExport>, n: int, key: u32) -> bool {
    exists|k: int| 0 <= k < n && member_index(members, (#[trigger] exports[k]).name@).0 == key
}

fn find_member(members: &Vec<(String, ModuleImportIndex)>, name: &String) -> (r: ModuleImportIndex)
    requires
        members_distinct(members@),
        has_member(members@, name@),
    ensures
        r == member_index(members@, name@),
{
    let n = members.len();
    for i in 0..n
        invariant
            n == members@.len(),
            has_member(members@, name@),
            members_distinct(members@),
            forall|j: int| 0 <= j < i ==> (#[trigger] members@[j]).0@ != name@,
    {
        if members[i].0 == *name {
            proof {
                let c = choose|c: int| 0 <= c < members@.len() && (#[trigger] members@[c]).0@ == name@;
                if c != i {
                    if c < i {
                        assert(members@[c].0@ != name@);
                    } else {
                        assert(members@[i as int].0@ != members@[c].0@);
                    }
                }
            }
            return members[i].1;
        }
    }
    proof {
        let c = choose|c: int| 0 <= c < members@.len() && (#[trigger] members@[c]).0@ == name@;
        assert(members@[c].0@ != name@);
    }
    ModuleImportIndex(0)
}

/// Links the imports of one module name of an instantiation to the exports
/// of the instance given as its argument, in `link_imports`.
pub fn gather_instance_link(
    link_imports: &mut HashMap<u32, ImportKind>,
    member_imports: &Vec<(String, ModuleImportIndex)>,
    scope: &ComponentScope,
    exports: &Vec<ModuleExport>,
    kind: InstanceKind,
    instance_map: &HashMap<u32, ModuleID>,
) -> (r: Result<(), DecomposeError>)
    requires
        exports_match(member_imports@, scope, exports@, kind, instance_map@),
    ensures
        ({
            let stop = link_stop(exports@, kind);
            &&& r is Err <==> stop < exports@.len()
            &&& r matches Err(x) ==> x == DecomposeError::UnsupportedExportKind(exports@[stop].kind)
            &&& forall|k: int| 0 <= k < stop ==> {
                let key = member_index(member_imports@, (#[trigger] exports@[k]).name@).0;
                &&& final(link_imports)@.contains_key(key)
                &&& links_export(final(link_imports)@[key], scope, kind, exports@[k], instance_map@)
            }
            &&& forall|key: u32| #[trigger] final(link_imports)@.contains_key(key)
                <==> old(link_imports)@.contains_key(key) || linked_key(member_imports@, exports@, stop, key)
            &&& forall|key: u32| old(link_imports)@.contains_key(key) && !linked_key(member_imports@, exports@, stop, key)
                ==> #[trigger] final(link_imports)@[key] == old(link_imports)@[key]
        }),
{
    broadcast use vstd::std_specs::hash::group_hash_axioms;
    let ghost stop = link_stop(exports@, kind);
    let ghost members = member_imports@;
    let ghost ex = exports@;
    proof {
        lemma_link_stop_from(ex, kind, 0);
    }
    let n = exports.len();
    for i in 0..n
        invariant
            n == ex.len(),
            ex == exports@,
            members == member_imports@,
            stop == link_stop(ex, kind),
            0 <= stop <= n,
            stop < n ==> unsupported_export(kind, ex[stop]),
            forall|j: int| 0 <= j < stop ==> !unsupported_export(kind, #[trigger] ex[j]),
            exports_match(members, scope, exports@, kind, instance_map@),
            i <= stop,
            linked_upto(link_imports@, old(link_imports)@, members, scope, kind, ex, i as int, instance_map@),
    {
        let e = &exports[i];
        let linked = link_export(scope, kind, e, instance_map);
        let ik = match linked {
            Ok(k) => k,
            Err(x) => {
                return Err(x);
            },
        };
        proof {
            if i == stop {
                assert(!unsupported_export(kind, ex[i as int]));
            }
        }
        let idx = find_member(member_imports, &e.name);
        let ghost prev = link_imports@;
        link_imports.insert(idx.0, ik);
        proof {
            lemma_link_step(prev, link_imports@, old(link_imports)@, members, scope, kind, ex, i as int, instance_map@);
        }
    }
    Ok(())
}

/// After linking the first `n` exports: each one's import is linked, the
/// keys are the old ones and those linked, and the other values are unchanged.
pub open spec fn linked_upto(
    cur: Map<u32, ImportKind>,
    orig: Map<u32, ImportKind>,
    members: Seq<(String, ModuleImportIndex)>,
    scope: &ComponentScope,
    kind: InstanceKind,
    exports: Seq<ModuleExport>,
    n: int,
    imap: Map<u32, ModuleID>,
) -> bool {
    &&& forall|k: int| 0 <= k < n ==> {
        let key = member_index(members, (#[trigger] exports[k]).name@).0;
        &&& cur.contains_key(key)
        &&& links_export(cur[key], scope, kind, exports[k], imap)
    }
    &&& forall|key: u32| #[trigger] cur.contains_key(key) <==> orig.contains_key(key) || linked_key(members, exports, n, key)
    &&& forall|key: u32| orig.contains_key(key) && !linked_key(members, exports, n, key) ==> #[trigger] cur[key] == orig[key]
}

proof fn lemma_link_step(
    prev: Map<u32, ImportKind>,
    cur: Map<u32, ImportKind>,
    orig: Map<u32, ImportKind>,
    members: Seq<(String, ModuleImportIndex)>,
    scope: &ComponentScope,
    kind: InstanceKind,
    exports: Seq<ModuleExport>,
    i: int,
    imap: Map<u32, ModuleID>,
)
    requires
        0 <= i < exports.len(),
        members_distinct(members),
        forall|a: int, b: int| 0 <= a < b <= i ==> (#[trigger] exports[a]).name@ != (#[trigger] exports[b]).name@,
        forall|k: int| 0 <= k <= i ==> has_member(members, (#[trigger] exports[k]).name@),
        linked_upto(prev, orig, members, scope, kind, exports, i, imap),
        cur == prev.insert(member_index(members, exports[i].name@).0, cur[member_index(members, exports[i].name@).0]),
        links_export(cur[member_index(members, exports[i].name@).0], scope, kind, exports[i], imap),
    ensures
        linked_upto(cur, orig, members, scope, kind, exports, i + 1, imap),
{
    let key_i = member_index(members, exports[i].name@).0;
    assert forall|k: int| 0 <= k < i + 1 implies {
        let key = member_index(members, (#[trigger] exports[k]).name@).0;
        &&& cur.contains_key(key)
        &&& links_export(cur[key], scope, kind, exports[k], imap)
    } by {
        if k < i {
            let c1 = choose|c: int| 0 <= c < members.len() && (#[trigger] members[c]).0@ == exports[k].name@;
            let c2 = choose|c: int| 0 <= c < members.len() && (#[trigger] members[c]).0@ == exports[i].name@;
            assert(exports[k].name@ != exports[i].name@);
            assert(c1 != c2);
        }
    }
    assert forall|key: u32| #[trigger] cur.contains_key(key) <==> orig.contains_key(key) || linked_key(members, exports, i + 1, key) by {
        if linked_key(members, exports, i + 1, key) && !linked_key(members, exports, i, key) {
            let k = choose|k: int| 0 <= k < i + 1 && member_index(members, (#[trigger] exports[k]).name@).0 == key;
            assert(k == i);
        }
        if key == key_i {
            assert(linked_key(members, exports, i + 1, key));
        }
        if linked_key(members, exports, i, key) {
            let k = choose|k: int| 0 <= k < i && member_index(members, (#[trigger] exports[k]).name@).0 == key;
            assert(linked_key(members, exports, i + 1, key));
        }
    }
    assert forall|key: u32| orig.contains_key(key) && !linked_key(members, exports, i + 1, key) implies #[trigger] cur[key] == orig[key] by {
        if key == key_i {
            assert(linked_key(members, exports, i + 1, key));
        }
        if linked_key(members, exports, i, key) {
            let k = choose|k: int| 0 <= k < i && member_index(members, (#[trigger] exports[k]).name@).0 == key;
            assert(linked_key(members, exports, i + 1, key));
        }
    }
}

/// The position of the last import among the first `n` of member `name`
/// of module `module`.
pub open spec fn last_import(imports: Seq<ModuleImport>, module: Seq<char>, name: Seq<char>, n: int) -> Option<int>
    decreases n,
{
    if n <= 0 {
        None
    } else if imports[n - 1].module@ == module && imports[n - 1].name@ == name {
        Some(n - 1)
    } else {
        last_import(imports, module, name, n - 1)
    }
}

proof fn lemma_last_import(imports: Seq<ModuleImport>, module: Seq<char>, name: Seq<char>, n: int)
    requires
        0 <= n <= imports.len(),
    ensures
        last_import(imports, module, name, n) matches Some(i) ==> 0 <= i < n && imports[i].module@ == module && imports[i].name@ == name,
    decreases n,
{
    if n > 0 {
        lemma_last_import(imports, module, name, n - 1);
    }
}

/// The members imported from module `module`.
pub open spec fn member_names(imports: Seq<ModuleImport>, module: Seq<char>) -> Set<Seq<char>> {
    Set::new(|nm: Seq<char>| last_import(imports, module, nm, imports.len() as int) is Some)
}

/// The module names imports come from.
pub open spec fn import_module_names(imports: Seq<ModuleImport>) -> Set<Seq<char>> {
    Set::new(|m: Seq<char>| exists|i: int| 0 <= i < imports.len() && (#[trigger] imports[i]).module@ == m)
}

/// The members of a module name: each name once, with the index of its last import.
pub open spec fn members_of(members: Seq<(String, ModuleImportIndex)>, imports: Seq<ModuleImport>, module: Seq<char>) -> bool {
    &&& members_distinct(members)
    &&& forall|nm: Seq<char>| has_member(members, nm) <==> (#[trigger] last_import(imports, module, nm, imports.len() as int)) is Some
    &&& forall|nm: Seq<char>| has_member(members, nm) ==> member_index(members, nm).0 == (#[trigger] last_import(imports, module, nm, imports.len() as int))->0
    &&& members.len() == member_names(imports, module).len()
}

/// Groups the imports of module `module` by member name, the last import of a name winning.
pub fn import_members(imports: &Vec<ModuleImport>, module: &String) -> (r: Vec<(String, ModuleImportIndex)>)
    requires
        imports@.len() <= u32::MAX,
    ensures
        members_of(r@, imports@, module@),
{
    let mut r: Vec<(String, ModuleImportIndex)> = Vec::new();
    let n = imports.len();
    let mut i: usize = 0;
    while i < n
        invariant
            n == imports@.len(),
            n <= u32::MAX,
            i <= n,
            members_distinct(r@),
            forall|p: int| 0 <= p < r@.len() ==> (#[trigger] r@[p]).1.0 < i
                && last_import(imports@, module@, r@[p].0@, i as int) == Some(r@[p].1.0 as int),
            forall|nm: Seq<char>| (#[trigger] last_import(imports@, module@, nm, i as int)) is Some ==> has_member(r@, nm),
        decreases n - i,
    {
        if imports[i].module == *module {
            let name = &imports[i].name;
            let mut found: Option<usize> = None;
            let ghost prev = r@;
            for p in 0..r.len()
                invariant
                    r@ == prev,
                    found is None ==> forall|q: int| 0 <= q < p ==> (#[trigger] r@[q]).0@ != name@,
                    found matches Some(f) ==> f < r@.len() && r@[f as int].0@ == name@,
            {
                if found.is_none() && r[p].0 == *name {
                    found = Some(p);
                }
            }
            match found {
                Some(f) => {
                    r.set(f, (name.clone(), ModuleImportIndex(i as u32)));
                    proof {
                        assert forall|a: int, b: int| 0 <= a < b < r@.len() implies (#[trigger] r@[a]).0@ != (#[trigger] r@[b]).0@ by {
                            assert(prev[a].0@ != prev[b].0@);
                        }
                        assert forall|a: int, b: int| 0 <= a < b < r@.len() implies (#[trigger] r@[a]).1 != (#[trigger] r@[b]).1 by {
                            assert(prev[a].1 != prev[b].1);
                        }
                        assert forall|p: int| 0 <= p < r@.len() implies (#[trigger] r@[p]).1.0 < i + 1
                            && last_import(imports@, module@, r@[p].0@, i + 1) == Some(r@[p].1.0 as int) by {
                            if p != f {
                                assert(prev[p].0@ != prev[f as int].0@);
                            }
                        }
                        assert forall|nm: Seq<char>| (#[trigger] last_import(imports@, module@, nm, i + 1)) is Some implies has_member(r@, nm) by {
                            if nm == name@ {
                                assert(r@[f as int].0@ == nm);
                            } else {
                                assert(last_import(imports@, module@, nm, i as int) is Some);
                                assert(has_member(prev, nm));
                                let q = choose|q: int| 0 <= q < prev.len() && (#[trigger] prev[q]).0@ == nm;
                                assert(0 <= q < prev.len());
                                assert(prev[q].0@ == nm);
                                assert(prev[f as int].0@ == name@);
                                assert(q != f);
                                assert(r@[q].0@ == nm);
                            }
                        }
                    }
                },
                None => {
                    r.push((name.clone(), ModuleImportIndex(i as u32)));
                    proof {
                        assert forall|a: int, b: int| 0 <= a < b < r@.len() implies (#[trigger] r@[a]).0@ != (#[trigger] r@[b]).0@ by {
                            if b < prev.len() {
                                assert(prev[a].0@ != prev[b].0@);
                            }
                        }
                        assert forall|a: int, b: int| 0 <= a < b < r@.len() implies (#[trigger] r@[a]).1 != (#[trigger] r@[b]).1 by {
                            if b < prev.len() {
                                assert(prev[a].1 != prev[b].1);
                            } else {
                                assert(prev[a].1.0 < i);
                            }
                        }
                        assert forall|p: int| 0 <= p < r@.len() implies (#[trigger] r@[p]).1.0 < i + 1
                            && last_import(imports@, module@, r@[p].0@, i + 1) == Some(r@[p].1.0 as int) by {
                            if p < prev.len() {
                                assert(prev[p].0@ != name@);
                            }
                        }
                        assert forall|nm: Seq<char>| (#[trigger] last_import(imports@, module@, nm, i + 1)) is Some implies has_member(r@, nm) by {
                            if nm == name@ {
                                assert(r@[prev.len() as int].0@ == nm);
                            } else {
                                assert(last_import(imports@, module@, nm, i as int) is Some);
                                let q = choose|q: int| 0 <= q < prev.len() && (#[trigger] prev[q]).0@ == nm;
                                assert(r@[q].0@ == nm);
                            }
                        }
                    }
                },
            }
        } else {
            proof {
                assert forall|nm: Seq<char>| (#[trigger] last_import(imports@, module@, nm, i + 1)) is Some implies has_member(r@, nm) by {
                    assert(last_import(imports@, module@, nm, i as int) is Some);
                }
            }
        }
        i = i + 1;
    }
    proof {
        let len = imports@.len() as int;
        assert forall|nm: Seq<char>| has_member(r@, nm) ==> member_index(r@, nm).0 == (#[trigger] last_import(imports@, module@, nm, len))->0 by {
            if has_member(r@, nm) {
                let q = choose|q: int| 0 <= q < r@.len() && (#[trigger] r@[q]).0@ == nm;
                assert(r@[q].0@ == nm);
            }
        }
        assert forall|nm: Seq<char>| has_member(r@, nm) <==> (#[trigger] last_import(imports@, module@, nm, len)) is Some by {
            if has_member(r@, nm) {
                let q = choose|q: int| 0 <= q < r@.len() && (#[trigger] r@[q]).0@ == nm;
                assert(r@[q].0@ == nm);
            }
        }
        let names = r@.map_values(|p: (String, ModuleImportIndex)| p.0@);
        assert(names.no_duplicates()) by {
            assert forall|a: int, b: int| 0 <= a < names.len() && 0 <= b < names.len() && a != b implies names[a] != names[b] by {
                if a < b {
                    assert(r@[a].0@ != r@[b].0@);
                } else {
                    assert(r@[b].0@ != r@[a].0@);
                }
            }
        }
        names.unique_seq_to_set();
        assert(names.to_set() =~= member_names(imports@, module@)) by {
            assert forall|nm: Seq<char>| names.to_set().contains(nm) <==> member_names(imports@, module@).contains(nm) by {
                if names.to_set().contains(nm) {
                    let q = choose|q: int| 0 <= q < names.len() && names[q] == nm;
                    assert(r@[q].0@ == nm);
                }
                if member_names(imports@, module@).contains(nm) {
                    assert(has_member(r@, nm));
                    let q = choose|q: int| 0 <= q < r@.len() && (#[trigger] r@[q]).0@ == nm;
                    assert(names[q] == nm);
                }
            }
        }
    }
    r
}

/// The kind of a component-level item.
#[derive(Debug, Copy, Clone, PartialEq, Eq, Structural)]
pub enum ComponentExternalKind {
    Func,
    Instance,
    /// Any other kind (module, component, type, value).
    Other,
}

/// An export of a component.
pub struct ComponentExport {
    pub name: String,
    pub kind: ComponentExternalKind,
    pub index: u32,
}

/// An argument of a component instantiation.
pub struct ComponentArg {
    pub name: String,
    pub kind: ComponentExternalKind,
    pub index: u32,
}

/// What a component instance resolves to.
pub enum ResolvedComponentInstance {
    Imported,
    FromExports,
    Instantiated { component_idx: u32, args: Vec<ComponentArg> },
}

/// A component instance of the main component: whether the node is an
/// export, and what it resolves to.
pub struct ComponentInstance {
    pub exported: bool,
    pub resolved: ResolvedComponentInstance,
}

/// A nested component: imported, or defined with its own items.
pub struct SubComponent {
    pub imported: bool,
    pub scope: ComponentScope,
    pub num_core_instances: u32,
    pub imports: Vec<String>,
    pub exports: Vec<ComponentExport>,
}

/// What linking reads of a component.
pub struct ComponentView {
    pub scope: ComponentScope,
    pub core_instances: Vec<CoreInstance>,
    pub instances: Vec<ComponentInstance>,
    pub components: Vec<SubComponent>,
    pub exports: Vec<ComponentExport>,
}

/// The instance map of a component.
pub open spec fn core_imap(c: &ComponentView) -> Map<u32, ModuleID> {
    instance_map_spec(c.core_instances@)
}

/// The exports of core instance `a`.
pub open spec fn exif_exports(c: &ComponentView, a: u32) -> Seq<ModuleExport> {
    match c.core_instances@[a as int].resolved {
        ResolvedCoreInstance::FromExports(ex) => ex@,
        ResolvedCoreInstance::Instantiated { module_idx, .. } => c.scope.modules@[module_idx as int]->0.exports@,
    }
}

/// How core instance `a` was created.
pub open spec fn exif_kind(c: &ComponentView, a: u32) -> InstanceKind {
    match c.core_instances@[a as int].resolved {
        ResolvedCoreInstance::FromExports(_) => InstanceKind::FromExports,
        ResolvedCoreInstance::Instantiated { module_idx, .. } => InstanceKind::FromInstantiated(ModuleID(module_idx)),
    }
}

/// The instance given as argument exports an item that cannot be linked.
pub open spec fn arg_error(c: &ComponentView, arg: InstantiationArg) -> bool {
    link_stop(exif_exports(c, arg.index), exif_kind(c, arg.index)) < exif_exports(c, arg.index).len()
}

/// The position of the first argument from `k` on whose exports cannot be
/// linked, or the number of arguments.
pub open spec fn first_arg_error(c: &ComponentView, args: Seq<InstantiationArg>, k: int) -> int
    decreases args.len() - k,
{
    if k >= args.len() {
        args.len() as int
    } else if arg_error(c, args[k]) {
        k
    } else {
        first_arg_error(c, args, k + 1)
    }
}

proof fn lemma_first_arg_error(c: &ComponentView, args: Seq<InstantiationArg>, k: int)
    requires
        0 <= k <= args.len(),
    ensures
        k <= first_arg_error(c, args, k) <= args.len(),
        first_arg_error(c, args, k) < args.len() ==> arg_error(c, args[first_arg_error(c, args, k)]),
        forall|j: int| k <= j < first_arg_error(c, args, k) ==> !arg_error(c, #[trigger] args[j]),
    decreases args.len() - k,
{
    if k < args.len() && !arg_error(c, args[k]) {
        lemma_first_arg_error(c, args, k + 1);
    }
}

proof fn lemma_first_arg_error_prefix(c: &ComponentView, args: Seq<InstantiationArg>, k: int)
    requires
        0 <= k <= args.len(),
        forall|j: int| 0 <= j < k ==> !arg_error(c, #[trigger] args[j]),
    ensures
        first_arg_error(c, args, 0) == first_arg_error(c, args, k),
    decreases k,
{
    if k > 0 {
        lemma_first_arg_error_prefix(c, args, k - 1);
    }
}

/// Core instance `idx` cannot be linked: it is an alias, or an argument of
/// its instantiation exports an item that cannot be linked.
pub open spec fn instance_error(c: &ComponentView, idx: int) -> bool {
    ||| c.core_instances@[idx].aliased
    ||| c.core_instances@[idx].resolved matches ResolvedCoreInstance::Instantiated { args, .. }
        && first_arg_error(c, args@, 0) < args@.len()
}

/// The error reported for core instance `idx`.
pub open spec fn error_of(c: &ComponentView, idx: int) -> DecomposeError {
    if c.core_instances@[idx].aliased {
        DecomposeError::AliasedCoreInstance(idx as u32)
    } else {
        let args = c.core_instances@[idx].resolved->args@;
        let a = args[first_arg_error(c, args, 0)];
        DecomposeError::UnsupportedExportKind(exif_exports(c, a.index)[link_stop(exif_exports(c, a.index), exif_kind(c, a.index))].kind)
    }
}

/// The exports can be matched with the members of module name `pkg`.
pub open spec fn exports_match_names(
    imports: Seq<ModuleImport>,
    pkg: Seq<char>,
    scope: &ComponentScope,
    exports: Seq<ModuleExport>,
    kind: InstanceKind,
    imap: Map<u32, ModuleID>,
) -> bool {
    let stop = link_stop(exports, kind);
    &&& forall|i: int, j: int| 0 <= i < j < stop ==> (#[trigger] exports[i]).name@ != (#[trigger] exports[j]).name@
    &&& forall|k: int| 0 <= k < stop ==> member_names(imports, pkg).contains((#[trigger] exports[k]).name@)
    &&& forall|k: int| 0 <= k < stop ==> export_linkable(scope, kind, #[trigger] exports[k], imap)
    &&& stop == exports.len() ==> member_names(imports, pkg).len() == exports.len()
}

/// Argument `arg` of instance `idx` of a module with `imports` can be linked.
pub open spec fn arg_ok(c: &ComponentView, idx: int, imports: Seq<ModuleImport>, arg: InstantiationArg) -> bool {
    &&& arg.index <= idx
    &&& exports_match_names(imports, arg.name@, &c.scope, exif_exports(c, arg.index), exif_kind(c, arg.index), core_imap(c))
}

/// Core instance `idx` meets the assumptions of linking: an instantiation
/// of a defined module with one argument per module name it imports from,
/// each of an earlier (or the same) instance whose exports match the members.
pub open spec fn instance_ok(c: &ComponentView, idx: int) -> bool {
    !c.core_instances@[idx].aliased ==> match c.core_instances@[idx].resolved {
        ResolvedCoreInstance::FromExports(_) => true,
        ResolvedCoreInstance::Instantiated { module_idx, args } => {
            let imports = c.scope.modules@[module_idx as int]->0.imports@;
            &&& module_idx < c.scope.modules@.len()
            &&& c.scope.modules@[module_idx as int] is Some
            &&& imports.len() <= u32::MAX
            &&& args@.len() == import_module_names(imports).len()
            &&& forall|a: int, b: int| 0 <= a < b < args@.len() ==> (#[trigger] args@[a]).name@ != (#[trigger] args@[b]).name@
            &&& forall|k: int| 0 <= k < args@.len() ==> import_module_names(imports).contains((#[trigger] args@[k]).name@)
            &&& forall|k: int| 0 <= k < args@.len() && k <= first_arg_error(c, args@, 0) ==> arg_ok(c, idx, imports, #[trigger] args@[k])
        },
    }
}

/// Every core instance reached without an earlier error meets the assumptions.
pub open spec fn core_ok(c: &ComponentView) -> bool {
    &&& c.core_instances@.len() <= u32::MAX
    &&& forall|idx: int| 0 <= idx < c.core_instances@.len() && (forall|j: int| 0 <= j < idx ==> !instance_error(c, j))
        ==> #[trigger] instance_ok(c, idx)
}

/// The import index linked to export `e` of argument `arg`.
pub open spec fn arg_key(c: &ComponentView, imports: Seq<ModuleImport>, arg: InstantiationArg, e: int) -> u32 {
    last_import(imports, arg.name@, exif_exports(c, arg.index)[e].name@, imports.len() as int)->0 as u32
}

/// Export `e` of argument `arg` is linked to the import of the member it matches.
pub open spec fn export_linked(map: Map<u32, ImportKind>, c: &ComponentView, imports: Seq<ModuleImport>, arg: InstantiationArg, e: int) -> bool {
    let key = arg_key(c, imports, arg, e);
    &&& last_import(imports, arg.name@, exif_exports(c, arg.index)[e].name@, imports.len() as int) is Some
    &&& map.contains_key(key)
    &&& links_export(map[key], &c.scope, exif_kind(c, arg.index), exif_exports(c, arg.index)[e], core_imap(c))
}

/// The imports linked by the first `n` arguments: each member matched by an
/// export is linked to it, and nothing else is.
pub open spec fn args_linked(
    map: Map<u32, ImportKind>,
    c: &ComponentView,
    imports: Seq<ModuleImport>,
    args: Seq<InstantiationArg>,
    n: int,
) -> bool {
    &&& forall|k: int, e: int| 0 <= k < n && 0 <= e < exif_exports(c, args[k].index).len() ==> #[trigger] export_linked(map, c, imports, args[k], e)
    &&& forall|key: u32| #[trigger] map.contains_key(key) ==>
        exists|k: int, e: int| 0 <= k < n && 0 <= e < exif_exports(c, args[k].index).len() && key == #[trigger] arg_key(c, imports, args[k], e)
}

/// The import map of a module: each import as (module, member, index).
pub open spec fn import_map_spec(map: Seq<(String, String, ModuleImportIndex)>, imports: Seq<ModuleImport>) -> bool {
    &&& map.len() == imports.len()
    &&& forall|i: int| 0 <= i < map.len() ==> (#[trigger] map[i]).0@ == imports[i].module@ && map[i].1@ == imports[i].name@
        && map[i].2 == ModuleImportIndex(i as u32)
}

/// Lists the imports of a module as (module, member, index).
pub fn import_map_of(imports: &Vec<ModuleImport>) -> (r: Vec<(String, String, ModuleImportIndex)>)
    requires
        imports@.len() <= u32::MAX,
    ensures
        import_map_spec(r@, imports@),
{
    let mut r: Vec<(String, String, ModuleImportIndex)> = Vec::new();
    let n = imports.len();
    for i in 0..n
        invariant
            n == imports@.len(),
            n <= u32::MAX,
            r@.len() == i,
            forall|j: int| 0 <= j < i ==> (#[trigger] r@[j]).0@ == imports@[j].module@ && r@[j].1@ == imports@[j].name@
                && r@[j].2 == ModuleImportIndex(j as u32),
    {
        r.push((imports[i].module.clone(), imports[i].name.clone(), ModuleImportIndex(i as u32)));
    }
    r
}

/// The imports of the module of instantiation `idx`.
pub open spec fn instance_imports(c: &ComponentView, idx: int) -> Seq<ModuleImport> {
    c.scope.modules@[c.core_instances@[idx].resolved->module_idx as int]->0.imports@
}

/// Core instance `j` instantiates module `m`.
pub open spec fn instantiates(c: &ComponentView, j: int, m: u32) -> bool {
    match c.core_instances@[j].resolved {
        ResolvedCoreInstance::Instantiated { module_idx, .. } => module_idx == m,
        _ => false,
    }
}

/// The module metadata gathered for the first `n` core instances (all of them by default).
pub open spec fn mm_spec(mm: Map<u32, ModuleMetadata>, c: &ComponentView, n: int) -> bool {
    &&& forall|m: u32| #[trigger] mm.contains_key(m) <==> exists|j: int| 0 <= j < n && #[trigger] instantiates(c, j, m)
    &&& forall|m: u32| #[trigger] mm.contains_key(m) ==> {
        &&& (m as int) < c.scope.modules@.len()
        &&& c.scope.modules@[m as int] is Some
        &&& same_summary(mm[m].module, c.scope.modules@[m as int]->0)
        &&& import_map_spec(mm[m].import_map@, c.scope.modules@[m as int]->0.imports@)
    }
}

/// The linking gathered for the first `n` core instances.
pub open spec fn insts_spec(insts: Map<u32, InstantiationLinkingMetadata>, c: &ComponentView, n: int) -> bool {
    &&& forall|i: u32| #[trigger] insts.contains_key(i) <==> (i as int) < n && core_imap(c).contains_key(i)
    &&& forall|i: u32| #[trigger] insts.contains_key(i) ==> {
        &&& insts[i].instantiate_order == i
        &&& args_linked(insts[i].imports@, c, instance_imports(c, i as int), c.core_instances@[i as int].resolved->args@,
            c.core_instances@[i as int].resolved->args@.len() as int)
    }
}

/// No two imports have the same module and name.
pub open spec fn imports_unique(imports: Seq<ModuleImport>) -> bool {
    forall|a: int, b: int| 0 <= a < b < imports.len() ==>
        !((#[trigger] imports[a]).module@ == (#[trigger] imports[b]).module@ && imports[a].name@ == imports[b].name@)
}

/// A finite set that contains the distinct elements of `s`, as many as `s`
/// has, holds exactly those elements.
proof fn lemma_distinct_fill(s: Seq<Seq<char>>, b: Set<Seq<char>>, x: Seq<char>)
    requires
        s.no_duplicates(),
        b.finite(),
        b.len() == s.len(),
        forall|j: int| 0 <= j < s.len() ==> b.contains(#[trigger] s[j]),
        b.contains(x),
    ensures
        s.contains(x),
{
    s.unique_seq_to_set();
    if !s.contains(x) {
        assert(s.to_set().subset_of(b.remove(x)));
        vstd::set_lib::lemma_len_subset(s.to_set(), b.remove(x));
    }
}

/// The module names of imports are finitely many.
proof fn lemma_import_module_names_finite(imports: Seq<ModuleImport>)
    ensures
        import_module_names(imports).finite(),
{
    let f = |i: ModuleImport| i.module@;
    let all = imports.map_values(f).to_set();
    assert(import_module_names(imports).subset_of(all)) by {
        assert forall|m: Seq<char>| import_module_names(imports).contains(m) implies all.contains(m) by {
            let i = choose|i: int| 0 <= i < imports.len() && (#[trigger] imports[i]).module@ == m;
            assert(imports.map_values(f)[i] == m);
        }
    }
    vstd::set_lib::lemma_set_subset_finite(all, import_module_names(imports));
}

/// The member names of a module are finitely many.
proof fn lemma_member_names_finite(imports: Seq<ModuleImport>, module: Seq<char>)
    ensures
        member_names(imports, module).finite(),
{
    let f = |i: ModuleImport| i.name@;
    let all = imports.map_values(f).to_set();
    assert(member_names(imports, module).subset_of(all)) by {
        assert forall|nm: Seq<char>| member_names(imports, module).contains(nm) implies all.contains(nm) by {
            lemma_last_import(imports, module, nm, imports.len() as int);
            let i = last_import(imports, module, nm, imports.len() as int)->0;
            assert(imports.map_values(f)[i] == nm);
        }
    }
    vstd::set_lib::lemma_set_subset_finite(all, member_names(imports, module));
}

/// The last import of a (module, name) pair is the only one when no two
/// imports share them.
proof fn lemma_last_import_unique(imports: Seq<ModuleImport>, k: int, n: int)
    requires
        imports_unique(imports),
        0 <= k < n <= imports.len(),
    ensures
        last_import(imports, imports[k].module@, imports[k].name@, n) == Some(k),
    decreases n,
{
    if n - 1 != k {
        assert(!(imports[k].module@ == imports[n - 1].module@ && imports[k].name@ == imports[n - 1].name@));
        lemma_last_import_unique(imports, k, n - 1);
    }
}

/// `first_arg_error` reaches the end when no argument has an error.
proof fn lemma_no_arg_error(c: &ComponentView, args: Seq<InstantiationArg>)
    requires
        first_arg_error(c, args, 0) >= args.len(),
    ensures
        forall|j: int| 0 <= j < args.len() ==> !arg_error(c, #[trigger] args[j]),
{
    assert forall|j: int| 0 <= j < args.len() implies !arg_error(c, #[trigger] args[j]) by {
        lemma_first_arg_error_before(c, args, 0, j);
    }
}

proof fn lemma_first_arg_error_before(c: &ComponentView, args: Seq<InstantiationArg>, k: int, j: int)
    requires
        0 <= k <= j < args.len(),
        first_arg_error(c, args, k) > j,
    ensures
        !arg_error(c, args[j]),
    decreases j - k,
{
    if k < j {
        lemma_first_arg_error_before(c, args, k + 1, j);
    }
}

/// A successful linking binds every import of every instantiation, where no
/// two imports of its module have the same module and name (of such a pair,
/// only the last import is bound).
pub proof fn lemma_every_import_bound(c: &ComponentView, insts: Map<u32, InstantiationLinkingMetadata>, i: u32, k: int)
    requires
        core_ok(c),
        !any_core_error(c),
        insts_spec(insts, c, c.core_instances@.len() as int),
        insts.contains_key(i),
        imports_unique(instance_imports(c, i as int)),
        0 <= k < instance_imports(c, i as int).len(),
    ensures
        insts[i].imports@.contains_key(k as u32),
{
    let idx = i as int;
    assert(!instance_error(c, idx));
    assert forall|j: int| 0 <= j < idx implies !instance_error(c, j) by {}
    assert(instance_ok(c, idx));
    let imports = instance_imports(c, idx);
    let args = c.core_instances@[idx].resolved->args@;
    assert(first_arg_error(c, args, 0) >= args.len());
    lemma_no_arg_error(c, args);
    let mk = imports[k].module@;
    let names = import_module_names(imports);
    lemma_import_module_names_finite(imports);
    assert(names.contains(mk));
    let an = args.map_values(|a: InstantiationArg| a.name@);
    assert forall|a: int, b: int| 0 <= a < an.len() && 0 <= b < an.len() && a != b implies an[a] != an[b] by {
        if a < b { assert(args[a].name@ != args[b].name@); } else { assert(args[b].name@ != args[a].name@); }
    }
    assert forall|j: int| 0 <= j < an.len() implies names.contains(#[trigger] an[j]) by {
        assert(import_module_names(imports).contains(args[j].name@));
    }
    lemma_distinct_fill(an, names, mk);
    let j = choose|j: int| 0 <= j < an.len() && an[j] == mk;
    let arg = args[j];
    assert(arg_ok(c, idx, imports, arg));
    assert(!arg_error(c, arg));
    let exports = exif_exports(c, arg.index);
    let kind = exif_kind(c, arg.index);
    let members = member_names(imports, mk);
    lemma_member_names_finite(imports, mk);
    lemma_link_stop_from(exports, kind, 0);
    assert(link_stop(exports, kind) == exports.len());
    let nk = imports[k].name@;
    lemma_last_import_unique(imports, k, imports.len() as int);
    assert(members.contains(nk));
    let en = exports.map_values(|e: ModuleExport| e.name@);
    assert forall|a: int, b: int| 0 <= a < en.len() && 0 <= b < en.len() && a != b implies en[a] != en[b] by {
        if a < b { assert(exports[a].name@ != exports[b].name@); } else { assert(exports[b].name@ != exports[a].name@); }
    }
    assert forall|q: int| 0 <= q < en.len() implies members.contains(#[trigger] en[q]) by {
        assert(member_names(imports, mk).contains(exports[q].name@));
    }
    lemma_distinct_fill(en, members, nk);
    let e = choose|e: int| 0 <= e < en.len() && en[e] == nk;
    assert(export_linked(insts[i].imports@, c, imports, args[j], e));
}

proof fn lemma_exports_match(
    members: Seq<(String, ModuleImportIndex)>,
    imports: Seq<ModuleImport>,
    pkg: Seq<char>,
    scope: &ComponentScope,
    exports: Seq<ModuleExport>,
    kind: InstanceKind,
    imap: Map<u32, ModuleID>,
)
    requires
        members_of(members, imports, pkg),
        exports_match_names(imports, pkg, scope, exports, kind, imap),
    ensures
        exports_match(members, scope, exports, kind, imap),
{
    let stop = link_stop(exports, kind);
    assert forall|k: int| 0 <= k < stop implies has_member(members, (#[trigger] exports[k]).name@) by {
        assert(member_names(imports, pkg).contains(exports[k].name@));
        assert(last_import(imports, pkg, exports[k].name@, imports.len() as int) is Some);
    }
}

proof fn lemma_args_step(
    prev: Map<u32, ImportKind>,
    cur: Map<u32, ImportKind>,
    c: &ComponentView,
    imports: Seq<ModuleImport>,
    args: Seq<InstantiationArg>,
    k: int,
    members: Seq<(String, ModuleImportIndex)>,
)
    requires
        0 <= k < args.len(),
        imports.len() <= u32::MAX,
        forall|a: int, b: int| 0 <= a < b < args.len() ==> (#[trigger] args[a]).name@ != (#[trigger] args[b]).name@,
        members_of(members, imports, args[k].name@),
        args_linked(prev, c, imports, args, k),
        ({
            let exports = exif_exports(c, args[k].index);
            let kind = exif_kind(c, args[k].index);
            &&& link_stop(exports, kind) == exports.len()
            &&& forall|e: int| 0 <= e < exports.len() ==> has_member(members, (#[trigger] exports[e]).name@)
            &&& forall|e: int| 0 <= e < exports.len() ==> {
                let key = member_index(members, (#[trigger] exports[e]).name@).0;
                &&& cur.contains_key(key)
                &&& links_export(cur[key], &c.scope, kind, exports[e], core_imap(c))
            }
            &&& forall|key: u32| #[trigger] cur.contains_key(key) <==> prev.contains_key(key) || linked_key(members, exports, exports.len() as int, key)
            &&& forall|key: u32| prev.contains_key(key) && !linked_key(members, exports, exports.len() as int, key)
                ==> #[trigger] cur[key] == prev[key]
        }),
    ensures
        args_linked(cur, c, imports, args, k + 1),
{
    let exports = exif_exports(c, args[k].index);
    let kind = exif_kind(c, args[k].index);
    let n = imports.len() as int;
    assert forall|e: int| 0 <= e < exports.len() implies member_index(members, (#[trigger] exports[e]).name@).0 == arg_key(c, imports, args[k], e) by {
        assert(has_member(members, exports[e].name@));
        lemma_last_import(imports, args[k].name@, exports[e].name@, n);
    }
    // keys of earlier arguments are imports of other module names
    assert forall|k2: int, e2: int| 0 <= k2 < k && 0 <= e2 < exif_exports(c, args[k2].index).len()
        implies !linked_key(members, exports, exports.len() as int, #[trigger] arg_key(c, imports, args[k2], e2)) by {
        let key = arg_key(c, imports, args[k2], e2);
        assert(export_linked(prev, c, imports, args[k2], e2));
        lemma_last_import(imports, args[k2].name@, exif_exports(c, args[k2].index)[e2].name@, n);
        if linked_key(members, exports, exports.len() as int, key) {
            let e = choose|e: int| 0 <= e < exports.len() && member_index(members, (#[trigger] exports[e]).name@).0 == key;
            assert(member_index(members, exports[e].name@).0 == arg_key(c, imports, args[k], e));
            lemma_last_import(imports, args[k].name@, exports[e].name@, n);
            assert(args[k2].name@ != args[k].name@);
        }
    }
    assert forall|k2: int, e2: int| 0 <= k2 < k + 1 && 0 <= e2 < exif_exports(c, args[k2].index).len() implies
        #[trigger] export_linked(cur, c, imports, args[k2], e2) by {
        if k2 == k {
            assert(member_index(members, exports[e2].name@).0 == arg_key(c, imports, args[k], e2));
            assert(has_member(members, exports[e2].name@));
            assert(last_import(imports, args[k].name@, exports[e2].name@, n) is Some);
            let key = member_index(members, exports[e2].name@).0;
            assert(cur.contains_key(key));
            assert(links_export(cur[key], &c.scope, kind, exports[e2], core_imap(c)));
        } else {
            assert(export_linked(prev, c, imports, args[k2], e2));
            assert(!linked_key(members, exports, exports.len() as int, arg_key(c, imports, args[k2], e2)));
        }
    }
    assert forall|key: u32| #[trigger] cur.contains_key(key) implies
        exists|k2: int, e2: int| 0 <= k2 < k + 1 && 0 <= e2 < exif_exports(c, args[k2].index).len() && key == #[trigger] arg_key(c, imports, args[k2], e2) by {
        if prev.contains_key(key) {
            let (k2, e2) = choose|k2: int, e2: int| 0 <= k2 < k && 0 <= e2 < exif_exports(c, args[k2].index).len() && key == #[trigger] arg_key(c, imports, args[k2], e2);
            assert(0 <= k2 < k + 1 && 0 <= e2 < exif_exports(c, args[k2].index).len() && key == arg_key(c, imports, args[k2], e2));
        } else {
            assert(linked_key(members, exports, exports.len() as int, key));
            let e = choose|e: int| 0 <= e < exports.len() && member_index(members, (#[trigger] exports[e]).name@).0 == key;
            assert(member_index(members, exports[e].name@).0 == arg_key(c, imports, args[k], e));
            assert(0 <= k < k + 1 && 0 <= e < exif_exports(c, args[k].index).len() && key == arg_key(c, imports, args[k], e));
        }
    }
}

/// Links every core instance of the component, in order: the metadata of
/// each instantiated module and, for each instantiation, how every import is
/// resolved from the instances given as arguments.
pub fn link_core_instances(c: &ComponentView, instance_map: &HashMap<u32, ModuleID>) -> (r: Result<
    (HashMap<u32, ModuleMetadata>, HashMap<u32, InstantiationLinkingMetadata>),
    DecomposeError,
>)
    requires
        core_ok(c),
        instance_map@ == core_imap(c),
    ensures
        r is Err <==> exists|idx: int| 0 <= idx < c.core_instances@.len() && instance_error(c, idx),
        r matches Err(x) ==> exists|idx: int| 0 <= idx < c.core_instances@.len() && instance_error(c, idx)
            && (forall|j: int| 0 <= j < idx ==> !instance_error(c, j)) && x == error_of(c, idx),
        r matches Ok((mm, insts)) ==> mm_spec(mm@, c, c.core_instances@.len() as int)
            && insts_spec(insts@, c, c.core_instances@.len() as int),
{
    broadcast use vstd::std_specs::hash::group_hash_axioms;
    let mut mm: HashMap<u32, ModuleMetadata> = HashMap::new();
    let mut insts: HashMap<u32, InstantiationLinkingMetadata> = HashMap::new();
    let n = c.core_instances.len();
    let mut idx: usize = 0;
    while idx < n
        invariant
            n == c.core_instances@.len(),
            idx <= n,
            core_ok(c),
            instance_map@ == core_imap(c),
            forall|j: int| 0 <= j < idx ==> !instance_error(c, j),
            mm_spec(mm@, c, idx as int),
            insts_spec(insts@, c, idx as int),
        decreases n - idx,
    {
        assert(instance_ok(c, idx as int));
        let ci = &c.core_instances[idx];
        if ci.aliased {
            assert(instance_error(c, idx as int));
            return Err(DecomposeError::AliasedCoreInstance(idx as u32));
        }
        match &ci.resolved {
            ResolvedCoreInstance::FromExports(_) => {
                assert(mm_spec(mm@, c, idx + 1));
                assert(insts_spec(insts@, c, idx + 1));
            },
            ResolvedCoreInstance::Instantiated { module_idx, args } => {
                let module = match &c.scope.modules[*module_idx as usize] {
                    Some(m) => m,
                    None => {
                        proof {
                            assert(false);
                        }
                        return Err(DecomposeError::ImportedModule);
                    },
                };
                let ghost imports = module.imports@;
                assert(instantiates(c, idx as int, *module_idx));
                if !mm.contains_key(module_idx) {
                    let md = ModuleMetadata { module: module.clone_summary(), import_map: import_map_of(&module.imports) };
                    mm.insert(*module_idx, md);
                }
                assert(mm_spec(mm@, c, idx + 1));
                let mut links: HashMap<u32, ImportKind> = HashMap::new();
                let na = args.len();
                let mut k: usize = 0;
                while k < na
                    invariant
                        n == c.core_instances@.len(),
                        idx < n,
                        na == args@.len(),
                        k <= na,
                        core_ok(c),
                        instance_map@ == core_imap(c),
                        forall|j: int| 0 <= j < idx ==> !instance_error(c, j),
                        !c.core_instances@[idx as int].aliased,
                        c.core_instances@[idx as int].resolved == (ResolvedCoreInstance::Instantiated { module_idx: *module_idx, args: *args }),
                        c.scope.modules@[*module_idx as int] == Some(*module),
                        imports == module.imports@,
                        instance_ok(c, idx as int),
                        forall|j: int| 0 <= j < k ==> !arg_error(c, #[trigger] args@[j]),
                        args_linked(links@, c, imports, args@, k as int),
                    decreases na - k,
                {
                    let arg = &args[k];
                    proof {
                        lemma_first_arg_error_prefix(c, args@, k as int);
                        lemma_first_arg_error(c, args@, k as int);
                        assert(arg_ok(c, idx as int, imports, args@[k as int]));
                    }
                    let a = arg.index as usize;
                    proof {
                        if (a as int) < idx {
                            assert(!instance_error(c, a as int));
                            assert(instance_ok(c, a as int));
                        }
                    }
                    let (exports, kind) = match &c.core_instances[a].resolved {
                        ResolvedCoreInstance::FromExports(ex) => (ex, InstanceKind::FromExports),
                        ResolvedCoreInstance::Instantiated { module_idx: mi, .. } => {
                            match &c.scope.modules[*mi as usize] {
                                Some(m) => (&m.exports, InstanceKind::FromInstantiated(ModuleID(*mi))),
                                None => {
                                    proof {
                                        assert(false);
                                    }
                                    return Err(DecomposeError::ImportedModule);
                                },
                            }
                        },
                    };
                    assert(exports@ == exif_exports(c, arg.index));
                    assert(kind == exif_kind(c, arg.index));
                    let members = import_members(&module.imports, &arg.name);
                    proof {
                        lemma_exports_match(members@, imports, arg.name@, &c.scope, exports@, kind, core_imap(c));
                        lemma_link_stop_from(exports@, kind, 0);
                    }
                    let ghost prev = links@;
                    match gather_instance_link(&mut links, &members, &c.scope, exports, kind, instance_map) {
                        Ok(()) => {},
                        Err(x) => {
                            proof {
                                assert(arg_error(c, args@[k as int]));
                                assert(first_arg_error(c, args@, k as int) == k);
                                assert(instance_error(c, idx as int));
                                assert(x == error_of(c, idx as int));
                            }
                            return Err(x);
                        },
                    }
                    proof {
                        assert(!arg_error(c, args@[k as int]));
                        assert forall|e: int| 0 <= e < exports@.len() implies has_member(members@, (#[trigger] exports@[e]).name@) by {
                            assert(member_names(imports, arg.name@).contains(exports@[e].name@));
                        }
                        lemma_args_step(prev, links@, c, imports, args@, k as int, members@);
                    }
                    k = k + 1;
                }
                proof {
                    lemma_first_arg_error_prefix(c, args@, na as int);
                    assert(!instance_error(c, idx as int));
                }
                insts.insert(idx as u32, InstantiationLinkingMetadata { instantiate_order: idx as u32, imports: links });
                assert(insts_spec(insts@, c, idx + 1));
            },
        }
        idx = idx + 1;
    }
    Ok((mm, insts))
}

/// The component of every instantiated component instance, by instance index.
pub open spec fn component_map_spec(cis: Seq<ComponentInstance>) -> Map<u32, ComponentID> {
    Map::new(
        |i: u32| (i as int) < cis.len() && cis[i as int].resolved is Instantiated,
        |i: u32| ComponentID(cis[i as int].resolved->component_idx),
    )
}

/// Maps every instantiated component instance to its component.
pub fn gather_component_instance_map(instances: &Vec<ComponentInstance>) -> (r: HashMap<u32, ComponentID>)
    requires
        instances@.len() <= u32::MAX,
    ensures
        r@ == component_map_spec(instances@),
{
    broadcast use vstd::std_specs::hash::group_hash_axioms;
    let mut r: HashMap<u32, ComponentID> = HashMap::new();
    let n = instances.len();
    for i in 0..n
        invariant
            n == instances@.len(),
            n <= u32::MAX,
            r@ == Map::new(
                |k: u32| (k as int) < i && instances@[k as int].resolved is Instantiated,
                |k: u32| ComponentID(instances@[k as int].resolved->component_idx),
            ),
    {
        if let ResolvedComponentInstance::Instantiated { component_idx, .. } = &instances[i].resolved {
            r.insert(i as u32, ComponentID(*component_idx));
        }
        assert(r@ =~= Map::new(
            |k: u32| (k as int) < i + 1 && instances@[k as int].resolved is Instantiated,
            |k: u32| ComponentID(instances@[k as int].resolved->component_idx),
        ));
    }
    assert(r@ =~= component_map_spec(instances@));
    r
}

/// Component instance `idx` is linked by the main component: it is not an exported node.
pub open spec fn linked_component_instance(c: &ComponentView, idx: int) -> bool {
    !c.instances@[idx].exported
}

/// Component instance `idx` is made from exports, which is not supported.
pub open spec fn component_instance_error(c: &ComponentView, idx: int) -> bool {
    linked_component_instance(c, idx) && c.instances@[idx].resolved is FromExports
}

/// The import names of a nested component are distinct.
pub open spec fn imports_distinct(imports: Seq<String>) -> bool {
    forall|a: int, b: int| 0 <= a < b < imports.len() ==> (#[trigger] imports[a])@ != (#[trigger] imports[b])@
}

/// Some import of the nested component is named `name`.
pub open spec fn imports_name(imports: Seq<String>, name: Seq<char>) -> bool {
    exists|i: int| 0 <= i < imports.len() && (#[trigger] imports[i])@ == name
}

/// Component instance `idx` meets the assumptions of linking: an
/// instantiation of a defined nested component binds each of its imports
/// once, with a function.
pub open spec fn component_instance_ok(c: &ComponentView, idx: int) -> bool {
    (linked_component_instance(c, idx) && c.instances@[idx].resolved is Instantiated) ==> {
        let ci = c.instances@[idx].resolved->component_idx;
        let args = c.instances@[idx].resolved->args@;
        &&& (ci as int) < c.components@.len()
        &&& !c.components@[ci as int].imported
        &&& c.components@[ci as int].imports@.len() <= u32::MAX
        &&& imports_distinct(c.components@[ci as int].imports@)
        &&& args.len() == c.components@[ci as int].imports@.len()
        &&& forall|a: int, b: int| 0 <= a < b < args.len() ==> (#[trigger] args[a]).name@ != (#[trigger] args[b]).name@
        &&& forall|k: int| 0 <= k < args.len() ==> imports_name(c.components@[ci as int].imports@, (#[trigger] args[k]).name@)
        &&& forall|k: int| 0 <= k < args.len() ==> (#[trigger] args[k]).kind is Func
    }
}

/// Every component instance reached without an earlier error meets the assumptions.
pub open spec fn components_ok(c: &ComponentView) -> bool {
    &&& c.instances@.len() <= u32::MAX
    &&& forall|idx: int| 0 <= idx < c.instances@.len() && (forall|j: int| 0 <= j < idx ==> !component_instance_error(c, j))
        ==> #[trigger] component_instance_ok(c, idx)
}

/// Component instance `j` is linked and instantiates nested component `m`.
pub open spec fn instantiates_component(c: &ComponentView, j: int, m: u32) -> bool {
    linked_component_instance(c, j) && match c.instances@[j].resolved {
        ResolvedComponentInstance::Instantiated { component_idx, .. } => component_idx == m,
        _ => false,
    }
}

/// The summary of a nested component: its import names and its function exports.
pub open spec fn summary_of(s: ComponentSummary, sub: SubComponent) -> bool {
    &&& s.imports@.len() == sub.imports@.len()
    &&& forall|i: int| 0 <= i < s.imports@.len() ==> (#[trigger] s.imports@[i])@ == sub.imports@[i]@
    &&& s.func_exports@.len() == sub.exports@.filter(|e: ComponentExport| e.kind is Func).len()
    &&& forall|i: int| 0 <= i < s.func_exports@.len() ==> (#[trigger] s.func_exports@[i]).0@
        == sub.exports@.filter(|e: ComponentExport| e.kind is Func)[i].name@
        && s.func_exports@[i].1 == sub.exports@.filter(|e: ComponentExport| e.kind is Func)[i].index
}

/// The metadata of a nested component: its summary and each import with its index.
pub open spec fn component_metadata_of(md: ComponentMetadata, sub: SubComponent) -> bool {
    &&& summary_of(md.component, sub)
    &&& md.import_map@.len() == sub.imports@.len()
    &&& forall|i: int| 0 <= i < md.import_map@.len() ==> (#[trigger] md.import_map@[i]).0@ == sub.imports@[i]@
        && md.import_map@[i].1 == ComponentImportIndex(i as u32)
}

/// The linking of a component instantiation: each argument binds the
/// import of its name to a function of the parent.
pub open spec fn component_linking_of(l: ComponentInstantiationLinkingMetadata, idx: int, args: Seq<ComponentArg>) -> bool {
    &&& l.instantiate_order == idx
    &&& l.imports@.len() == args.len()
    &&& forall|k: int| 0 <= k < args.len() ==> (#[trigger] l.imports@[k]).0@ == args[k].name@
        && l.imports@[k].1 == ComponentImportBindInParent::Func(args[k].index)
}

/// Summarizes a nested component.
pub fn summarize_component(sub: &SubComponent) -> (r: ComponentMetadata)
    requires
        sub.imports@.len() <= u32::MAX,
    ensures
        component_metadata_of(r, *sub),
{
    let mut imports: Vec<String> = Vec::new();
    let mut import_map: Vec<(String, ComponentImportIndex)> = Vec::new();
    let n = sub.imports.len();
    for i in 0..n
        invariant
            n == sub.imports@.len(),
            n <= u32::MAX,
            imports@.len() == i,
            import_map@.len() == i,
            forall|j: int| 0 <= j < i ==> (#[trigger] imports@[j])@ == sub.imports@[j]@,
            forall|j: int| 0 <= j < i ==> (#[trigger] import_map@[j]).0@ == sub.imports@[j]@
                && import_map@[j].1 == ComponentImportIndex(j as u32),
    {
        imports.push(sub.imports[i].clone());
        import_map.push((sub.imports[i].clone(), ComponentImportIndex(i as u32)));
    }
    let ghost funcs = sub.exports@.filter(|e: ComponentExport| e.kind is Func);
    let mut func_exports: Vec<(String, u32)> = Vec::new();
    let m = sub.exports.len();
    for i in 0..m
        invariant
            m == sub.exports@.len(),
            func_exports@.len() == sub.exports@.take(i as int).filter(|e: ComponentExport| e.kind is Func).len(),
            forall|j: int| 0 <= j < func_exports@.len() ==> (#[trigger] func_exports@[j]).0@
                == sub.exports@.take(i as int).filter(|e: ComponentExport| e.kind is Func)[j].name@
                && func_exports@[j].1 == sub.exports@.take(i as int).filter(|e: ComponentExport| e.kind is Func)[j].index,
    {
        let ghost pre = sub.exports@.take(i as int);
        assert(sub.exports@.take(i + 1) =~= pre.push(sub.exports@[i as int]));
        proof {
            pre.lemma_filter_push(sub.exports@[i as int], |e: ComponentExport| e.kind is Func);
        }
        let e = &sub.exports[i];
        if let ComponentExternalKind::Func = e.kind {
            func_exports.push((e.name.clone(), e.index));
        }
    }
    assert(sub.exports@.take(m as int) =~= sub.exports@);
    ComponentMetadata { component: ComponentSummary { imports, func_exports }, import_map }
}

/// Links every component instance of the main component, in order: the
/// metadata of each instantiated nested component and how the imports of
/// each instantiation are bound.
pub fn link_component_instances(c: &ComponentView) -> (r: Result<
    (HashMap<u32, ComponentMetadata>, HashMap<u32, ComponentInstantiationLinkingMetadata>),
    DecomposeError,
>)
    requires
        components_ok(c),
    ensures
        r is Err <==> exists|idx: int| 0 <= idx < c.instances@.len() && component_instance_error(c, idx),
        r matches Err(x) ==> x == DecomposeError::FromExportsComponentInstance,
        r matches Ok((cm, insts)) ==> {
            &&& forall|m: u32| #[trigger] cm@.contains_key(m) <==> exists|j: int| 0 <= j < c.instances@.len()
                && #[trigger] instantiates_component(c, j, m)
            &&& forall|m: u32| #[trigger] cm@.contains_key(m) ==> (m as int) < c.components@.len()
                && component_metadata_of(cm@[m], c.components@[m as int])
            &&& forall|i: u32| #[trigger] insts@.contains_key(i) <==> (i as int) < c.instances@.len()
                && linked_component_instance(c, i as int) && c.instances@[i as int].resolved is Instantiated
            &&& forall|i: u32| #[trigger] insts@.contains_key(i) ==>
                component_linking_of(insts@[i], i as int, c.instances@[i as int].resolved->args@)
        },
{
    broadcast use vstd::std_specs::hash::group_hash_axioms;
    let mut cm: HashMap<u32, ComponentMetadata> = HashMap::new();
    let mut insts: HashMap<u32, ComponentInstantiationLinkingMetadata> = HashMap::new();
    let n = c.instances.len();
    let mut idx: usize = 0;
    while idx < n
        invariant
            n == c.instances@.len(),
            idx <= n,
            components_ok(c),
            forall|j: int| 0 <= j < idx ==> !component_instance_error(c, j),
            forall|m: u32| #[trigger] cm@.contains_key(m) <==> exists|j: int| 0 <= j < idx && #[trigger] instantiates_component(c, j, m),
            forall|m: u32| #[trigger] cm@.contains_key(m) ==> (m as int) < c.components@.len()
                && component_metadata_of(cm@[m], c.components@[m as int]),
            forall|i: u32| #[trigger] insts@.contains_key(i) <==> (i as int) < idx
                && linked_component_instance(c, i as int) && c.instances@[i as int].resolved is Instantiated,
            forall|i: u32| #[trigger] insts@.contains_key(i) ==>
                component_linking_of(insts@[i], i as int, c.instances@[i as int].resolved->args@),
        decreases n - idx,
    {
        assert(component_instance_ok(c, idx as int));
        let inst = &c.instances[idx];
        if !inst.exported {
            match &inst.resolved {
                ResolvedComponentInstance::Imported => {},
                ResolvedComponentInstance::FromExports => {
                    assert(component_instance_error(c, idx as int));
                    return Err(DecomposeError::FromExportsComponentInstance);
                },
                ResolvedComponentInstance::Instantiated { component_idx, args } => {
                    let sub = &c.components[*component_idx as usize];
                    assert(instantiates_component(c, idx as int, *component_idx));
                    if !cm.contains_key(component_idx) {
                        cm.insert(*component_idx, summarize_component(sub));
                    }
                    let mut binds: Vec<(String, ComponentImportBindInParent)> = Vec::new();
                    for k in 0..args.len()
                        invariant
                            binds@.len() == k,
                            forall|q: int| 0 <= q < k ==> (#[trigger] binds@[q]).0@ == args@[q].name@
                                && binds@[q].1 == ComponentImportBindInParent::Func(args@[q].index),
                    {
                        binds.push((args[k].name.clone(), ComponentImportBindInParent::Func(args[k].index)));
                    }
                    insts.insert(idx as u32, ComponentInstantiationLinkingMetadata { instantiate_order: idx as u32, imports: binds });
                },
            }
        }
        idx = idx + 1;
    }
    Ok((cm, insts))
}

/// The scope a function is lifted in: the main component or a nested one.
pub open spec fn scope_of(c: &ComponentView, sub: Option<u32>) -> ComponentScope {
    match sub {
        None => c.scope,
        Some(sc) => c.components@[sc as int].scope,
    }
}

/// A function the component exports: the scope it is lifted in, its core
/// function and its canonical options.
pub type ExportEntry = (Option<u32>, u32, Seq<CanonicalOption>);

/// The entry of a function lifted by the main component.
pub open spec fn main_entry(c: &ComponentView, f: u32) -> ExportEntry {
    (None, c.scope.funcs@[f as int]->core_func_idx, c.scope.funcs@[f as int]->Lifted_options@)
}

/// The index bound to the import named `name` by the instantiation arguments.
pub open spec fn arg_index_named(args: Seq<ComponentArg>, name: Seq<char>) -> u32 {
    args[choose|k: int| 0 <= k < args.len() && (#[trigger] args[k]).name@ == name].index
}

/// The entry of function `f` of nested component `sc`, instantiated with
/// `args`: lifted there, or imported and bound to a function of the main component.
pub open spec fn sub_entry(c: &ComponentView, sc: u32, args: Seq<ComponentArg>, f: u32) -> ExportEntry {
    match c.components@[sc as int].scope.funcs@[f as int] {
        ComponentFuncSource::Lifted { core_func_idx, options } => (Some(sc), core_func_idx, options@),
        ComponentFuncSource::Imported { direct } => main_entry(c, arg_index_named(args, direct->0@)),
    }
}

/// The nested component of an exported component instance.
pub open spec fn instance_component(c: &ComponentView, inst: u32) -> u32 {
    c.instances@[inst as int].resolved->component_idx
}

/// The entries of the functions exported by the first `n` exports, in
/// order; the functions of an exported instance are listed in turn.
pub open spec fn export_entries(c: &ComponentView, n: int) -> Seq<ExportEntry>
    decreases n,
{
    if n <= 0 {
        Seq::empty()
    } else {
        let prev = export_entries(c, n - 1);
        let ex = c.exports@[n - 1];
        match ex.kind {
            ComponentExternalKind::Func => prev.push(main_entry(c, ex.index)),
            ComponentExternalKind::Instance => {
                let sc = instance_component(c, ex.index);
                let args = c.instances@[ex.index as int].resolved->args@;
                prev + Seq::new(c.components@[sc as int].exports@.len(), |i: int| sub_entry(c, sc, args, c.components@[sc as int].exports@[i].index))
            },
            ComponentExternalKind::Other => prev,
        }
    }
}

/// A function of the main component can be exported: it is lifted.
pub open spec fn main_func_ok(c: &ComponentView, f: u32) -> bool {
    (f as int) < c.scope.funcs@.len() && c.scope.funcs@[f as int] is Lifted
}

/// Function `f` of nested component `sc` can be exported: lifted, or a direct
/// import bound by an argument to a lifted function of the main component.
pub open spec fn sub_func_ok(c: &ComponentView, sc: u32, args: Seq<ComponentArg>, f: u32) -> bool {
    &&& (f as int) < c.components@[sc as int].scope.funcs@.len()
    &&& match c.components@[sc as int].scope.funcs@[f as int] {
        ComponentFuncSource::Lifted { .. } => true,
        ComponentFuncSource::Imported { direct } => direct is Some
            && (exists|k: int| 0 <= k < args.len() && (#[trigger] args[k]).name@ == direct->0@)
            && main_func_ok(c, arg_index_named(args, direct->0@)),
    }
}

/// The entry comes from a module function of its scope that an instance
/// can supply, with options that can be indexed.
pub open spec fn entry_ok(c: &ComponentView, e: ExportEntry) -> bool {
    let scope = scope_of(c, e.0);
    &&& (e.1 as int) < scope.core_funcs@.len()
    &&& scope.core_funcs@[e.1 as int] matches CoreFuncSource::FromModule { module_idx, func_idx }
        && exported_in(scope.modules@, module_idx, func_kinds(), func_idx)
        && instantiated_in(core_imap(c), module_idx)
    &&& options_ok(&scope, e.2, core_imap(c))
}

/// Export `ex` meets the assumptions: a lifted function, or an instance
/// made by the main component whose exports are all functions that can be
/// exported; others are skipped.
pub open spec fn export_ok(c: &ComponentView, ex: ComponentExport) -> bool {
    match ex.kind {
        ComponentExternalKind::Func => main_func_ok(c, ex.index),
        ComponentExternalKind::Instance => {
            &&& (ex.index as int) < c.instances@.len()
            &&& linked_component_instance(c, ex.index as int)
            &&& c.instances@[ex.index as int].resolved is Instantiated
            &&& forall|a: int, b: int| 0 <= a < b < c.instances@[ex.index as int].resolved->args@.len()
                ==> (#[trigger] c.instances@[ex.index as int].resolved->args@[a]).name@
                != (#[trigger] c.instances@[ex.index as int].resolved->args@[b]).name@
            &&& (instance_component(c, ex.index) as int) < c.components@.len()
            &&& forall|i: int| 0 <= i < c.components@[instance_component(c, ex.index) as int].exports@.len() ==> {
                let se = #[trigger] c.components@[instance_component(c, ex.index) as int].exports@[i];
                &&& se.kind is Func
                &&& sub_func_ok(c, instance_component(c, ex.index), c.instances@[ex.index as int].resolved->args@, se.index)
            }
        },
        ComponentExternalKind::Other => true,
    }
}

/// All exports meet the assumptions, and so does every function they export.
pub open spec fn exports_ok(c: &ComponentView) -> bool {
    &&& forall|i: int| 0 <= i < c.exports@.len() ==> export_ok(c, #[trigger] c.exports@[i])
    &&& forall|j: int| 0 <= j < export_entries(c, c.exports@.len() as int).len() ==> entry_ok(c, #[trigger] export_entries(c, c.exports@.len() as int)[j])
    &&& export_entries(c, c.exports@.len() as int).len() <= u32::MAX
}

/// The metadata of the exported function of entry `e`, with record index
/// `j`, and the instance it is exported from.
pub open spec fn entry_meta(c: &ComponentView, e: ExportEntry, j: int, p: (ModuleInstanceID, ExportFuncMetadata)) -> bool {
    let scope = scope_of(c, e.0);
    let module_idx = scope.core_funcs@[e.1 as int]->module_idx;
    let func_idx = scope.core_funcs@[e.1 as int]->FromModule_func_idx;
    &&& core_imap(c).contains_key(p.0.0)
    &&& core_imap(c)[p.0.0] == ModuleID(module_idx)
    &&& p.1.record_id == RecordExportIndex(j as u32)
    &&& p.1.name@ == export_name_in(scope.modules@, module_idx, func_kinds(), func_idx)
    &&& indexes_options(p.1.opts, &scope, e.2, e.2.len() as int, core_imap(c))
}

/// The exported functions grouped by instance, in order.
pub open spec fn grouped(map: Map<u32, Vec<ExportFuncMetadata>>, flat: Seq<(ModuleInstanceID, ExportFuncMetadata)>) -> bool {
    &&& forall|key: u32| #[trigger] map.contains_key(key) <==> exists|j: int| 0 <= j < flat.len() && (#[trigger] flat[j]).0.0 == key
    &&& forall|key: u32| #[trigger] map.contains_key(key) ==> map[key]@
        == flat.filter(|p: (ModuleInstanceID, ExportFuncMetadata)| p.0.0 == key).map_values(|p: (ModuleInstanceID, ExportFuncMetadata)| p.1)
}

/// The metadata of an exported function lifted in `scope` from core function `core`.
fn export_meta(
    c: &ComponentView,
    scope: &ComponentScope,
    core: u32,
    options: &Vec<CanonicalOption>,
    instance_map: &HashMap<u32, ModuleID>,
    record_id: u32,
    sub: Ghost<Option<u32>>,
) -> (r: (ModuleInstanceID, ExportFuncMetadata))
    requires
        *scope == scope_of(c, sub@),
        instance_map@ == core_imap(c),
        entry_ok(c, (sub@, core, options@)),
    ensures
        entry_meta(c, (sub@, core, options@), record_id as int, r),
{
    match &scope.core_funcs[core as usize] {
        CoreFuncSource::FromModule { module_idx, func_idx } => {
            let kinds = vec![ExternalKind::Func, ExternalKind::FuncExact];
            assert(kinds@ =~= func_kinds());
            let x = resolve_export(scope, instance_map, *module_idx, &kinds, *func_idx);
            let opts = match CanonicalOptionsIndex::from_options(scope, options, instance_map) {
                Some(o) => o,
                None => CanonicalOptionsIndex { memory: None, realloc: None, post_return: None },
            };
            (x.mid, ExportFuncMetadata { name: x.name, record_id: RecordExportIndex(record_id), opts })
        },
        _ => {
            proof {
                assert(false);
            }
            (ModuleInstanceID(0), ExportFuncMetadata {
                name: String::new(),
                record_id: RecordExportIndex(record_id),
                opts: CanonicalOptionsIndex { memory: None, realloc: None, post_return: None },
            })
        },
    }
}

proof fn lemma_filter_none<A>(s: Seq<A>, p: spec_fn(A) -> bool)
    requires
        forall|j: int| 0 <= j < s.len() ==> !p(#[trigger] s[j]),
    ensures
        s.filter(p).len() == 0,
    decreases s.len(),
{
    if s.len() > 0 {
        lemma_filter_none(s.drop_last(), p);
        s.drop_last().lemma_filter_push(s.last(), p);
        assert(s.drop_last().push(s.last()) =~= s);
    } else {
        assert(s.filter(p) =~= Seq::<A>::empty()) by {
            reveal(Seq::filter);
        }
    }
}

/// Appends an exported function to the group of its instance.
fn push_grouped(
    map: &mut HashMap<u32, Vec<ExportFuncMetadata>>,
    p: (ModuleInstanceID, ExportFuncMetadata),
    flat: Ghost<Seq<(ModuleInstanceID, ExportFuncMetadata)>>,
)
    requires
        grouped(old(map)@, flat@),
    ensures
        grouped(final(map)@, flat@.push(p)),
{
    broadcast use vstd::std_specs::hash::group_hash_axioms;
    let key = p.0.0;
    let mut v = match map.remove(&key) {
        Some(v) => v,
        None => Vec::new(),
    };
    let ghost before = v@;
    v.push(p.1);
    map.insert(key, v);
    proof {
        let pred = |q: (ModuleInstanceID, ExportFuncMetadata)| q.0.0 == key;
        let f = |q: (ModuleInstanceID, ExportFuncMetadata)| q.1;
        let nf = flat@.push(p);
        assert forall|k: u32| #[trigger] map@.contains_key(k) <==> exists|j: int| 0 <= j < nf.len() && (#[trigger] nf[j]).0.0 == k by {
            if k == key {
                assert(nf[flat@.len() as int].0.0 == k);
            } else {
                if exists|j: int| 0 <= j < nf.len() && (#[trigger] nf[j]).0.0 == k {
                    let j = choose|j: int| 0 <= j < nf.len() && (#[trigger] nf[j]).0.0 == k;
                    assert(j < flat@.len());
                    assert(flat@[j].0.0 == k);
                    assert(old(map)@.contains_key(k));
                }
                if old(map)@.contains_key(k) {
                    let j = choose|j: int| 0 <= j < flat@.len() && (#[trigger] flat@[j]).0.0 == k;
                    assert(nf[j].0.0 == k);
                }
            }
        }
        assert forall|k: u32| #[trigger] map@.contains_key(k) implies map@[k]@
            == nf.filter(|q: (ModuleInstanceID, ExportFuncMetadata)| q.0.0 == k).map_values(|q: (ModuleInstanceID, ExportFuncMetadata)| q.1) by {
            let pk = |q: (ModuleInstanceID, ExportFuncMetadata)| q.0.0 == k;
            flat@.lemma_filter_push(p, pk);
            if k == key {
                if !old(map)@.contains_key(key) {
                    assert forall|j: int| 0 <= j < flat@.len() implies !pk(#[trigger] flat@[j]) by {}
                    lemma_filter_none(flat@, pk);
                }
                assert(map@[k]@ =~= nf.filter(pk).map_values(|q: (ModuleInstanceID, ExportFuncMetadata)| q.1));
            } else {
                assert(nf.filter(pk) == flat@.filter(pk));
            }
        }
    }
}

proof fn lemma_export_entries_prefix(c: &ComponentView, i: int, n: int)
    requires
        0 <= i <= n <= c.exports@.len(),
    ensures
        export_entries(c, i).len() <= export_entries(c, n).len(),
        export_entries(c, n).take(export_entries(c, i).len() as int) == export_entries(c, i),
    decreases n - i,
{
    if i < n {
        lemma_export_entries_prefix(c, i, n - 1);
        let a = export_entries(c, i);
        let b = export_entries(c, n - 1);
        let d = export_entries(c, n);
        assert(d.take(b.len() as int) =~= b);
        assert(d.take(a.len() as int) =~= b.take(a.len() as int));
    } else {
        assert(export_entries(c, n).take(export_entries(c, n).len() as int) =~= export_entries(c, n));
    }
}

/// The index bound to the import named `name`.
fn find_arg(args: &Vec<ComponentArg>, name: &String) -> (r: u32)
    requires
        exists|k: int| 0 <= k < args@.len() && (#[trigger] args@[k]).name@ == name@,
        forall|a: int, b: int| 0 <= a < b < args@.len() ==> (#[trigger] args@[a]).name@ != (#[trigger] args@[b]).name@,
    ensures
        r == arg_index_named(args@, name@),
{
    let n = args.len();
    for k in 0..n
        invariant
            n == args@.len(),
            exists|q: int| 0 <= q < args@.len() && (#[trigger] args@[q]).name@ == name@,
            forall|a: int, b: int| 0 <= a < b < args@.len() ==> (#[trigger] args@[a]).name@ != (#[trigger] args@[b]).name@,
            forall|q: int| 0 <= q < k ==> (#[trigger] args@[q]).name@ != name@,
    {
        if args[k].name == *name {
            proof {
                let c = choose|q: int| 0 <= q < args@.len() && (#[trigger] args@[q]).name@ == name@;
                if c < k {
                    assert(args@[c].name@ != name@);
                } else if c > k {
                    assert(args@[k as int].name@ != args@[c].name@);
                }
            }
            return args[k].index;
        }
    }
    proof {
        let c = choose|q: int| 0 <= q < args@.len() && (#[trigger] args@[q]).name@ == name@;
        assert(args@[c].name@ != name@);
    }
    0
}

/// Gathers the functions the component exports, numbered in order by the
/// recorder's export index, grouped by the instance that defines them. The
/// functions of an exported component instance are numbered in turn.
pub fn gather_component_exports(c: &ComponentView, instance_map: &HashMap<u32, ModuleID>) -> (r: HashMap<u32, Vec<ExportFuncMetadata>>)
    requires
        exports_ok(c),
        instance_map@ == core_imap(c),
    ensures
        exists|flat: Seq<(ModuleInstanceID, ExportFuncMetadata)>| {
            let entries = export_entries(c, c.exports@.len() as int);
            &&& flat.len() == entries.len()
            &&& forall|j: int| 0 <= j < flat.len() ==> entry_meta(c, entries[j], j, #[trigger] flat[j])
            &&& #[trigger] grouped(r@, flat)
        },
{
    broadcast use vstd::std_specs::hash::group_hash_axioms;
    let mut map: HashMap<u32, Vec<ExportFuncMetadata>> = HashMap::new();
    let ghost mut flat: Seq<(ModuleInstanceID, ExportFuncMetadata)> = Seq::empty();
    let ghost all = export_entries(c, c.exports@.len() as int);
    let mut export_id: u32 = 0;
    let n = c.exports.len();
    proof {
        assert(grouped(map@, flat));
    }
    for i in 0..n
        invariant
            n == c.exports@.len(),
            all == export_entries(c, n as int),
            exports_ok(c),
            instance_map@ == core_imap(c),
            flat.len() == export_id,
            export_id == export_entries(c, i as int).len(),
            forall|j: int| 0 <= j < flat.len() ==> entry_meta(c, export_entries(c, i as int)[j], j, #[trigger] flat[j]),
            grouped(map@, flat),
    {
        proof {
            lemma_export_entries_prefix(c, i as int, n as int);
            lemma_export_entries_prefix(c, i + 1, n as int);
            lemma_export_entries_prefix(c, i as int, i + 1);
        }
        let ghost before = export_entries(c, i as int);
        let ghost after = export_entries(c, i + 1);
        let ex = &c.exports[i];
        assert(export_ok(c, c.exports@[i as int]));
        match ex.kind {
            ComponentExternalKind::Func => {
                match &c.scope.funcs[ex.index as usize] {
                    ComponentFuncSource::Lifted { core_func_idx, options } => {
                        assert(after == before.push(main_entry(c, ex.index)));
                        assert(all[export_id as int] == after[export_id as int]);
                        let p = export_meta(c, &c.scope, *core_func_idx, options, instance_map, export_id, Ghost(None));
                        push_grouped(&mut map, p, Ghost(flat));
                        proof {
                            flat = flat.push(p);
                        }
                        export_id = export_id + 1;
                    },
                    _ => {
                        proof {
                            assert(false);
                        }
                    },
                }
            },
            ComponentExternalKind::Instance => {
                let sc = match &c.instances[ex.index as usize].resolved {
                    ResolvedComponentInstance::Instantiated { component_idx, .. } => *component_idx,
                    _ => {
                        proof {
                            assert(false);
                        }
                        0
                    },
                };
                let args = match &c.instances[ex.index as usize].resolved {
                    ResolvedComponentInstance::Instantiated { args, .. } => args,
                    _ => {
                        proof {
                            assert(false);
                        }
                        return map;
                    },
                };
                let sub = &c.components[sc as usize];
                let ghost subs = Seq::new(sub.exports@.len(), |q: int| sub_entry(c, sc, args@, sub.exports@[q].index));
                assert(after == before + subs);
                let m = sub.exports.len();
                for k in 0..m
                    invariant
                        n == c.exports@.len(),
                        i < n,
                        all == export_entries(c, n as int),
                        after == export_entries(c, i + 1),
                        after == before + subs,
                        exports_ok(c),
                        instance_map@ == core_imap(c),
                        export_ok(c, c.exports@[i as int]),
                        c.exports@[i as int] == *ex,
                        ex.kind is Instance,
                        sc == instance_component(c, ex.index),
                        *args == c.instances@[ex.index as int].resolved->args,
                        *sub == c.components@[sc as int],
                        m == sub.exports@.len(),
                        subs == Seq::new(sub.exports@.len(), |q: int| sub_entry(c, sc, args@, sub.exports@[q].index)),
                        all.len() <= u32::MAX,
                        after.len() <= all.len(),
                        all.take(after.len() as int) == after,
                        flat.len() == export_id,
                        export_id == before.len() + k,
                        forall|j: int| 0 <= j < flat.len() ==> entry_meta(c, after[j], j, #[trigger] flat[j]),
                        grouped(map@, flat),
                {
                    let se = &sub.exports[k];
                    assert(c.components@[instance_component(c, ex.index) as int].exports@[k as int] == *se);
                    assert(after[export_id as int] == subs[k as int]);
                    assert(all[export_id as int] == after[export_id as int]);
                    let p = match &sub.scope.funcs[se.index as usize] {
                        ComponentFuncSource::Lifted { core_func_idx, options } => {
                            export_meta(c, &sub.scope, *core_func_idx, options, instance_map, export_id, Ghost(Some(sc)))
                        },
                        ComponentFuncSource::Imported { direct } => {
                            let name = match direct {
                                Some(name) => name,
                                None => {
                                    proof {
                                        assert(false);
                                    }
                                    return map;
                                },
                            };
                            let pf = find_arg(args, name);
                            match &c.scope.funcs[pf as usize] {
                                ComponentFuncSource::Lifted { core_func_idx, options } => {
                                    export_meta(c, &c.scope, *core_func_idx, options, instance_map, export_id, Ghost(None))
                                },
                                _ => {
                                    proof {
                                        assert(false);
                                    }
                                    return map;
                                },
                            }
                        },
                    };
                    push_grouped(&mut map, p, Ghost(flat));
                    proof {
                        flat = flat.push(p);
                    }
                    export_id = export_id + 1;
                }
            },
            ComponentExternalKind::Other => {
                assert(after == before);
            },
        }
    }
    map
}

/// Some core instance cannot be linked.
pub open spec fn any_core_error(c: &ComponentView) -> bool {
    exists|idx: int| 0 <= idx < c.core_instances@.len() && instance_error(c, idx)
}

/// Some component instance cannot be linked.
pub open spec fn any_component_error(c: &ComponentView) -> bool {
    exists|idx: int| 0 <= idx < c.instances@.len() && component_instance_error(c, idx)
}

/// Builds the linking metadata of a component: the module of every core
/// instance, the metadata of every instantiated module, how every import of
/// every instantiation is resolved, the linking of nested component
/// instances, and the exported functions with their recorder indices.
pub fn linking_metadata(c: &ComponentView, checksum: Checksum) -> (r: Result<LinkingMetadata, DecomposeError>)
    requires
        core_ok(c),
        !any_core_error(c) ==> components_ok(c),
        !any_core_error(c) && !any_component_error(c) ==> exports_ok(c),
    ensures
        r is Err <==> any_core_error(c) || any_component_error(c),
        r matches Err(x) ==> if any_core_error(c) {
            exists|idx: int| 0 <= idx < c.core_instances@.len() && instance_error(c, idx)
                && (forall|j: int| 0 <= j < idx ==> !instance_error(c, j)) && x == error_of(c, idx)
        } else {
            x == DecomposeError::FromExportsComponentInstance
        },
        r matches Ok(lm) ==> {
            &&& lm.checksum == checksum
            &&& lm.instance_map@ == core_imap(c)
            &&& mm_spec(lm.mm@, c, c.core_instances@.len() as int)
            &&& insts_spec(lm.instantiations@, c, c.core_instances@.len() as int)
            &&& lm.clm.instance_map@ == component_map_spec(c.instances@)
            &&& forall|m: u32| #[trigger] lm.clm.cm@.contains_key(m) <==> exists|j: int| 0 <= j < c.instances@.len()
                && #[trigger] instantiates_component(c, j, m)
            &&& forall|m: u32| #[trigger] lm.clm.cm@.contains_key(m) ==> (m as int) < c.components@.len()
                && component_metadata_of(lm.clm.cm@[m], c.components@[m as int])
            &&& forall|i: u32| #[trigger] lm.clm.instantiations@.contains_key(i) <==> (i as int) < c.instances@.len()
                && linked_component_instance(c, i as int) && c.instances@[i as int].resolved is Instantiated
            &&& forall|i: u32| #[trigger] lm.clm.instantiations@.contains_key(i) ==>
                component_linking_of(lm.clm.instantiations@[i], i as int, c.instances@[i as int].resolved->args@)
            &&& exists|flat: Seq<(ModuleInstanceID, ExportFuncMetadata)>| {
                let entries = export_entries(c, c.exports@.len() as int);
                &&& flat.len() == entries.len()
                &&& forall|j: int| 0 <= j < flat.len() ==> entry_meta(c, entries[j], j, #[trigger] flat[j])
                &&& #[trigger] grouped(lm.export_funcs@, flat)
            }
        },
{
    let instance_map = gather_instance_map(&c.core_instances);
    let (mm, instantiations) = match link_core_instances(c, &instance_map) {
        Ok(x) => x,
        Err(x) => {
            return Err(x);
        },
    };
    proof {
        if any_core_error(c) {
            let idx = choose|idx: int| 0 <= idx < c.core_instances@.len() && instance_error(c, idx);
            assert(instance_error(c, idx));
        }
    }
    let component_instance_map = gather_component_instance_map(&c.instances);
    let (cm, component_instantiations) = match link_component_instances(c) {
        Ok(x) => x,
        Err(x) => {
            return Err(x);
        },
    };
    let export_funcs = gather_component_exports(c, &instance_map);
    let ghost flat = choose|flat: Seq<(ModuleInstanceID, ExportFuncMetadata)>| {
        let entries = export_entries(c, c.exports@.len() as int);
        &&& flat.len() == entries.len()
        &&& forall|j: int| 0 <= j < flat.len() ==> entry_meta(c, entries[j], j, #[trigger] flat[j])
        &&& #[trigger] grouped(export_funcs@, flat)
    };
    let ghost ef = export_funcs@;
    let lm = LinkingMetadata {
        checksum,
        mm,
        instance_map,
        instantiations,
        export_funcs,
        clm: ComponentLinkingMetadata { cm, instance_map: component_instance_map, instantiations: component_instantiations },
    };
    assert(mm_spec(lm.mm@, c, c.core_instances@.len() as int));
    assert(insts_spec(lm.instantiations@, c, c.core_instances@.len() as int));
    assert(lm.export_funcs@ == ef);
    assert(grouped(lm.export_funcs@, flat));
    Ok(lm)
}

/// The first nested component from `k` on that breaks the assumptions, as an error.
pub open spec fn component_error_from(c: &ComponentView, k: int) -> Option<DecomposeError>
    decreases c.components@.len() - k,
{
    if k >= c.components@.len() {
        None
    } else if c.components@[k].imported {
        Some(DecomposeError::ImportedComponent)
    } else if c.components@[k].scope.modules@.len() > 0 {
        Some(DecomposeError::NestedModules)
    } else if c.components@[k].num_core_instances > 0 {
        Some(DecomposeError::NestedCoreInstances)
    } else {
        component_error_from(c, k + 1)
    }
}

/// The first assumption the component breaks: a component instance made
/// from exports, an imported module, or a nested component that is imported
/// or has modules or core instances.
pub open spec fn assumption_error(c: &ComponentView) -> Option<DecomposeError> {
    if exists|i: int| 0 <= i < c.instances@.len() && (#[trigger] c.instances@[i]).resolved is FromExports {
        Some(DecomposeError::FromExportsComponentInstance)
    } else if exists|m: int| 0 <= m < c.scope.modules@.len() && (#[trigger] c.scope.modules@[m]) is None {
        Some(DecomposeError::ImportedModule)
    } else {
        component_error_from(c, 0)
    }
}

/// Checks the assumptions under which a component can be decomposed.
pub fn validate_assumptions(c: &ComponentView) -> (r: Result<(), DecomposeError>)
    ensures
        r matches Ok(_) ==> assumption_error(c) is None,
        r matches Err(x) ==> assumption_error(c) == Some(x),
{
    for i in 0..c.instances.len()
        invariant
            forall|j: int| 0 <= j < i ==> !((#[trigger] c.instances@[j]).resolved is FromExports),
    {
        if let ResolvedComponentInstance::FromExports = c.instances[i].resolved {
            return Err(DecomposeError::FromExportsComponentInstance);
        }
    }
    for m in 0..c.scope.modules.len()
        invariant
            forall|j: int| 0 <= j < c.instances@.len() ==> !((#[trigger] c.instances@[j]).resolved is FromExports),
            forall|j: int| 0 <= j < m ==> !((#[trigger] c.scope.modules@[j]) is None),
    {
        if c.scope.modules[m].is_none() {
            return Err(DecomposeError::ImportedModule);
        }
    }
    let n = c.components.len();
    let mut k: usize = 0;
    while k < n
        invariant
            n == c.components@.len(),
            k <= n,
            forall|j: int| 0 <= j < c.instances@.len() ==> !((#[trigger] c.instances@[j]).resolved is FromExports),
            forall|j: int| 0 <= j < c.scope.modules@.len() ==> !((#[trigger] c.scope.modules@[j]) is None),
            component_error_from(c, 0) == component_error_from(c, k as int),
        decreases n - k,
    {
        let sc = &c.components[k];
        if sc.imported {
            return Err(DecomposeError::ImportedComponent);
        }
        if sc.scope.modules.len() > 0 {
            return Err(DecomposeError::NestedModules);
        }
        if sc.num_core_instances > 0 {
            return Err(DecomposeError::NestedCoreInstances);
        }
        k = k + 1;
    }
    Ok(())
}

/// The names of a decomposed module that merging reads and rewrites: its
/// own name, its export names, and its imports as (module, member).
pub struct ModuleNames {
    pub name: String,
    pub exports: Vec<String>,
    pub imports: Vec<(String, String)>,
}

/// Some decomposed module is named `name`.
pub open spec fn names_module(modules: Seq<ModuleNames>, name: Seq<char>) -> bool {
    exists|i: int| 0 <= i < modules.len() && (#[trigger] modules[i]).name@ == name
}

/// The import of a decomposed module after `DriverSplit` renaming: the
/// member of an import from a sister module is namespaced by that module,
/// and the glue module is reached through the merged driver.
pub open spec fn split_import(modules: Seq<ModuleNames>, imp: (Seq<char>, Seq<char>)) -> (Seq<char>, Seq<char>) {
    if names_module(modules, imp.0) {
        (imp.0, namespaced_spec(imp.0, imp.1))
    } else if imp.0 == GLUE_MODULE_NAME@ {
        (DRIVER_MODULE_NAME@, imp.1)
    } else {
        imp
    }
}

/// The import of the glue module after `DriverSplit` renaming: imports from
/// decomposed modules come from the merged component, with the member
/// namespaced by the module.
pub open spec fn split_glue_import(modules: Seq<ModuleNames>, imp: (Seq<char>, Seq<char>)) -> (Seq<char>, Seq<char>) {
    if names_module(modules, imp.0) {
        (DECOMPOSED_COMPONENT_NAME@, namespaced_spec(imp.0, imp.1))
    } else {
        imp
    }
}

fn names_module_exec(modules: &Vec<ModuleNames>, name: &String) -> (r: bool)
    ensures
        r == names_module(modules@, name@),
{
    let n = modules.len();
    for i in 0..n
        invariant
            n == modules@.len(),
            forall|j: int| 0 <= j < i ==> (#[trigger] modules@[j]).name@ != name@,
    {
        if modules[i].name == *name {
            return true;
        }
    }
    false
}

/// Prepares the modules for `DriverSplit` merging: exports of decomposed
/// modules are namespaced by their module, imports between decomposed
/// modules follow, imports from the glue go to the merged driver, and the
/// glue's imports from decomposed modules go to the merged component.
pub fn prepare_driver_split(modules: &mut Vec<ModuleNames>, glue_imports: &mut Option<Vec<(String, String)>>)
    ensures
        final(modules)@.len() == old(modules)@.len(),
        forall|i: int| 0 <= i < old(modules)@.len() ==> {
            let (o, f) = (old(modules)@[i], #[trigger] final(modules)@[i]);
            &&& f.name@ == o.name@
            &&& f.exports@.len() == o.exports@.len()
            &&& forall|j: int| 0 <= j < o.exports@.len() ==> (#[trigger] f.exports@[j])@ == namespaced_spec(o.name@, o.exports@[j]@)
            &&& f.imports@.len() == o.imports@.len()
            &&& forall|j: int| 0 <= j < o.imports@.len() ==> ((#[trigger] f.imports@[j]).0@, f.imports@[j].1@)
                == split_import(old(modules)@, (o.imports@[j].0@, o.imports@[j].1@))
        },
        (*old(glue_imports)) is Some <==> (*final(glue_imports)) is Some,
        *old(glue_imports) matches Some(g) ==> {
            let f = (*final(glue_imports))->0;
            &&& f@.len() == g@.len()
            &&& forall|j: int| 0 <= j < g@.len() ==> ((#[trigger] f@[j]).0@, f@[j].1@) == split_glue_import(old(modules)@, (g@[j].0@, g@[j].1@))
        },
{
    let ghost orig = modules@;
    let n = modules.len();
    let mut out: Vec<ModuleNames> = Vec::new();
    for i in 0..n
        invariant
            n == orig.len(),
            *modules == *old(modules),
            orig == old(modules)@,
            out@.len() == i,
            forall|q: int| 0 <= q < i ==> {
                let (o, f) = (orig[q], #[trigger] out@[q]);
                &&& f.name@ == o.name@
                &&& f.exports@.len() == o.exports@.len()
                &&& forall|j: int| 0 <= j < o.exports@.len() ==> (#[trigger] f.exports@[j])@ == namespaced_spec(o.name@, o.exports@[j]@)
                &&& f.imports@.len() == o.imports@.len()
                &&& forall|j: int| 0 <= j < o.imports@.len() ==> ((#[trigger] f.imports@[j]).0@, f.imports@[j].1@)
                    == split_import(orig, (o.imports@[j].0@, o.imports@[j].1@))
            },
    {
        let m = &modules[i];
        let mut exports: Vec<String> = Vec::new();
        for j in 0..m.exports.len()
            invariant
                exports@.len() == j,
                forall|q: int| 0 <= q < j ==> (#[trigger] exports@[q])@ == namespaced_spec(m.name@, m.exports@[q]@),
        {
            exports.push(namespaced(m.name.as_str(), m.exports[j].as_str()));
        }
        let mut imports: Vec<(String, String)> = Vec::new();
        for j in 0..m.imports.len()
            invariant
                orig == modules@,
                imports@.len() == j,
                forall|q: int| 0 <= q < j ==> ((#[trigger] imports@[q]).0@, imports@[q].1@)
                    == split_import(orig, (m.imports@[q].0@, m.imports@[q].1@)),
        {
            let (mo, nm) = (&m.imports[j].0, &m.imports[j].1);
            proof {
                reveal_strlit("crimp_glue");
                reveal_strlit("crimp_driver_mono");
            }
            let glue_name = String::from_str(GLUE_MODULE_NAME);
            if names_module_exec(modules, mo) {
                imports.push((mo.clone(), namespaced(mo.as_str(), nm.as_str())));
            } else if *mo == glue_name {
                imports.push((String::from_str(DRIVER_MODULE_NAME), nm.clone()));
            } else {
                imports.push((mo.clone(), nm.clone()));
            }
        }
        out.push(ModuleNames { name: m.name.clone(), exports, imports });
    }
    let new_glue = match glue_imports {
        Some(g) => {
            let mut v: Vec<(String, String)> = Vec::new();
            for j in 0..g.len()
                invariant
                    orig == modules@,
                    v@.len() == j,
                    forall|q: int| 0 <= q < j ==> ((#[trigger] v@[q]).0@, v@[q].1@) == split_glue_import(orig, (g@[q].0@, g@[q].1@)),
            {
                let (mo, nm) = (&g[j].0, &g[j].1);
                if names_module_exec(modules, mo) {
                    v.push((String::from_str(DECOMPOSED_COMPONENT_NAME), namespaced(mo.as_str(), nm.as_str())));
                } else {
                    v.push((mo.clone(), nm.clone()));
                }
            }
            Some(v)
        },
        None => None,
    };
    *modules = out;
    *glue_imports = new_glue;
}

/// The SHA-256 digest of a byte string.
pub uninterp spec fn sha256_digest(bytes: Seq<u8>) -> Seq<u8>;

/// The SHA-256 checksum of the component's bytes, computed by
/// `sha2::Sha256::digest`; its result is named by `sha256_digest`.
#[verifier::external_body]
fn sha256_checksum(bytes: &Vec<u8>) -> (r: Checksum)
    ensures
        r@ == sha256_digest(bytes@),
{
    let digest = Sha256::digest(bytes.as_slice());
    let mut out = [0u8; 32];
    out.copy_from_slice(digest.as_slice());
    out
}

/// Checks the assumptions on a component and builds its linking metadata,
/// with the checksum of its bytes.
pub fn component_linking(bytes: &Vec<u8>, c: &ComponentView) -> (r: Result<LinkingMetadata, DecomposeError>)
    requires
        assumption_error(c) is None ==> core_ok(c),
        assumption_error(c) is None && !any_core_error(c) ==> components_ok(c),
        assumption_error(c) is None && !any_core_error(c) && !any_component_error(c) ==> exports_ok(c),
    ensures
        assumption_error(c) matches Some(x) ==> r == Err::<LinkingMetadata, DecomposeError>(x),
        assumption_error(c) is None ==> (r is Err <==> any_core_error(c) || any_component_error(c)),
        r matches Ok(lm) ==> lm.checksum@ == sha256_digest(bytes@) && lm.instance_map@ == core_imap(c)
            && mm_spec(lm.mm@, c, c.core_instances@.len() as int)
            && insts_spec(lm.instantiations@, c, c.core_instances@.len() as int),
{
    match validate_assumptions(c) {
        Ok(()) => {},
        Err(x) => {
            return Err(x);
        },
    }
    let checksum = sha256_checksum(bytes);
    linking_metadata(c, checksum)
}

/// The debug name of a local function once prefixed by its module's name:
/// `{prefix}::{name}`, or `{prefix}::func{id}` for an unnamed one.
pub open spec fn prefixed_name_spec(prefix: Seq<char>, id: u32, name: Option<Seq<char>>) -> Seq<char> {
    match name {
        Some(n) => prefix + "::"@ + n,
        None => prefix + "::func"@ + decimal_spec(id as nat),
    }
}

/// Prefixes the names of a module's local functions, given as (function id,
/// name if any), with the module's name.
pub fn prefix_function_names(prefix: &String, funcs: &Vec<(u32, Option<String>)>) -> (r: Vec<(u32, String)>)
    ensures
        r@.len() == funcs@.len(),
        forall|i: int| 0 <= i < funcs@.len() ==> (#[trigger] r@[i]).0 == funcs@[i].0 && r@[i].1@ == prefixed_name_spec(prefix@, funcs@[i].0,
            match funcs@[i].1 {
                Some(n) => Some(n@),
                None => None,
            }),
{
    let mut r: Vec<(u32, String)> = Vec::new();
    for i in 0..funcs.len()
        invariant
            r@.len() == i,
            forall|j: int| 0 <= j < i ==> (#[trigger] r@[j]).0 == funcs@[j].0 && r@[j].1@ == prefixed_name_spec(prefix@, funcs@[j].0,
                match funcs@[j].1 {
                    Some(n) => Some(n@),
                    None => None,
                }),
    {
        let (id, name) = (&funcs[i].0, &funcs[i].1);
        let mut s = prefix.clone();
        match name {
            Some(n) => {
                s.append("::");
                s.append(n.as_str());
            },
            None => {
                s.append("::func");
                let d = decimal(*id);
                s.append(d.as_str());
            },
        }
        r.push((*id, s));
    }
    r
}

} // verus!
