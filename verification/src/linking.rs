//! Linking metadata of a decomposed component: how every import of every
//! module instance is bound, and which core functions the component exports.
use std::collections::HashMap;
use vstd::prelude::*;
use vstd::std_specs::hash::spec_keys_iter;
use vstd::std_specs::iter::IteratorSpec;

use crate::component_linking::ComponentLinkingMetadata;
use crate::ids::{ModuleID, ModuleImportIndex, ModuleInstanceID, RecordExportIndex};
use crate::wasm::DataType;

verus! {

/// A SHA-256 checksum.
pub type Checksum = [u8; 32];

/// The order in which instances are instantiated.
pub type InstantiateOrder = u32;

/// Identifies a particular export of a module instance.
pub struct ModuleInstanceExport {
    pub mid: ModuleInstanceID,
    pub name: String,
}

impl ModuleInstanceExport {
    /// A copy of the export.
    pub fn clone_export(&self) -> (r: ModuleInstanceExport)
        ensures
            r.mid == self.mid,
            r.name@ == self.name@,
    {
        ModuleInstanceExport { mid: self.mid, name: self.name.clone() }
    }
}

/// The canonical options of a lowered or lifted function, as exports of
/// specific module instances.
pub struct CanonicalOptionsIndex {
    pub memory: Option<ModuleInstanceExport>,
    pub realloc: Option<ModuleInstanceExport>,
    pub post_return: Option<ModuleInstanceExport>,
}

/// Side effects that the replay of a builtin must reproduce.
pub enum BuiltinOptions {
    /// The builtin has no side effect on the guest.
    NoSideEffects,
    /// A resource drop, which may run a host and/or a guest destructor.
    ResourceDrop { host_dtor: bool, guest_dtor: Option<ModuleInstanceExport> },
}

/// How an import of a module instance is resolved within the component.
pub enum ImportKind {
    /// A real import of the component, replayed; canonical options are
    /// present for lowered functions.
    TrueImport(Option<CanonicalOptionsIndex>),
    /// A builtin (such as a resource drop), replayed.
    Builtin(BuiltinOptions),
    /// An import linked to the export `member` of the sister instance `package`.
    Rename { package: ModuleInstanceID, member: String },
}

/// Linking information of one module instantiation.
pub struct InstantiationLinkingMetadata {
    /// The order in which this module is instantiated with respect to others.
    pub instantiate_order: InstantiateOrder,
    /// The resolution of every import, keyed by its index in the import section.
    pub imports: HashMap<u32, ImportKind>,
}

/// A core function exported by the component.
pub struct ExportFuncMetadata {
    pub name: String,
    /// The index assigned to this export by the recorder.
    pub record_id: RecordExportIndex,
    pub opts: CanonicalOptionsIndex,
}

/// The type of an import of a core module.
#[derive(Debug, Copy, Clone, PartialEq, Eq, Structural)]
pub enum ImportType {
    Func(u32),
    Table,
    Memory,
    Global,
    Tag,
}

/// An import of a core module.
pub struct ModuleImport {
    pub module: String,
    pub name: String,
    pub ty: ImportType,
}

/// An entry of a core module's type section.
pub enum TypeDef {
    Func { params: Vec<DataType>, results: Vec<DataType> },
    Other,
}

/// The kind of a core module export.
#[derive(Debug, Copy, Clone, PartialEq, Eq, Structural)]
pub enum ExternalKind {
    Func,
    /// A function export of an exact function type.
    FuncExact,
    Table,
    Memory,
    Global,
    Tag,
}

/// An export of a core module.
pub struct ModuleExport {
    pub name: String,
    pub kind: ExternalKind,
    pub index: u32,
}

/// What the start-function analysis reads of an instruction: the state it
/// touches, by index, or a direct call.
#[derive(Debug, Copy, Clone, PartialEq, Eq, Structural)]
pub enum BodyOp {
    /// A direct call, `call` or the tail call `return_call`.
    Call(u32),
    /// A call through a table or a reference: `call_indirect`,
    /// `return_call_indirect`, `call_ref` or `return_call_ref`.
    CallIndirect,
    /// `global.get` or `global.set`.
    Global(u32),
    /// A load, store, `memory.size`, `memory.grow`, `memory.fill` or `memory.init`.
    Memory(u32),
    MemoryCopy { dst: u32, src: u32 },
    /// `table.get`, `table.set`, `table.grow`, `table.size`, `table.fill` or `table.init`.
    Table(u32),
    TableCopy { dst: u32, src: u32 },
    /// Anything else: arithmetic, control flow, locals, ...
    Other,
}

/// What the linking logic reads of a core module.
pub struct ModuleSummary {
    pub module_name: Option<String>,
    pub imports: Vec<ModuleImport>,
    pub types: Vec<TypeDef>,
    pub exports: Vec<ModuleExport>,
    /// The type index of every function, imported functions first.
    pub func_types: Vec<u32>,
    /// The start function, if any.
    pub start: Option<u32>,
    /// The instructions of each locally defined function, in order.
    pub bodies: Vec<Vec<BodyOp>>,
}

/// Metadata of a module that is instantiated in the component.
pub struct ModuleMetadata {
    pub module: ModuleSummary,
    /// Its imports as (module, member, index in the import section).
    pub import_map: Vec<(String, String, ModuleImportIndex)>,
}

/// Complete linking information of a component.
pub struct LinkingMetadata {
    /// The checksum of the component.
    pub checksum: Checksum,
    /// Metadata of each module, keyed by module ID.
    pub mm: HashMap<u32, ModuleMetadata>,
    /// The module of each instantiated instance, keyed by instance ID.
    pub instance_map: HashMap<u32, ModuleID>,
    /// The linking of each module instantiation, keyed by instance ID.
    pub instantiations: HashMap<u32, InstantiationLinkingMetadata>,
    /// The exported functions, keyed by the instance that defines them.
    pub export_funcs: HashMap<u32, Vec<ExportFuncMetadata>>,
    /// Linking of nested component instances.
    pub clm: ComponentLinkingMetadata,
}

/// Replay adapter data of an import that is replayed rather than linked.
pub struct ImportAdapterCrimpData {
    /// The import this adapter is for.
    pub target: ModuleImportIndex,
    /// The memory used when lowering its results.
    pub memory: Option<ModuleInstanceExport>,
    /// The realloc used when lowering its results.
    pub realloc: Option<ModuleInstanceExport>,
    /// Present when the import is a builtin, with its side effects.
    pub builtin: Option<BuiltinOptions>,
}

/// The keys of a map, each once.
pub fn map_keys<V>(m: &HashMap<u32, V>) -> (r: Vec<u32>)
    ensures
        r@.no_duplicates(),
        r@.to_set() == m@.dom(),
{
    broadcast use vstd::std_specs::hash::group_hash_axioms;
    let mut r: Vec<u32> = Vec::new();
    proof {
        vstd::std_specs::hash::axiom_spec_keys_iter(m);
    }
    for k in it: m.keys()
        invariant
            r@ == it.seq().take(it.index()).unref(),
            it.seq() == spec_keys_iter(m).remaining(),
            spec_keys_iter(m).remaining().unref().to_set() == m@.dom(),
            spec_keys_iter(m).remaining().len() == m@.dom().len(),
            spec_keys_iter(m).remaining().no_duplicates(),
            forall|i: int| 0 <= i < r@.len() ==> m@.contains_key(#[trigger] r@[i]),
    {
        proof {
            let s = spec_keys_iter(m).remaining();
            assert(s.unref().contains(*k));
        }
        r.push(*k);
    }
    proof {
        r@.unique_seq_to_set();
        vstd::set_lib::lemma_subset_equality(r@.to_set(), m@.dom());
    }
    r
}

/// Some instance of the given module. Which one, where the module is
/// instantiated more than once, depends on the map's iteration order.
pub fn assumed_instance_id(instance_map: &HashMap<u32, ModuleID>, module_id: ModuleID) -> (r: ModuleInstanceID)
    requires
        exists|i: u32| #[trigger] instance_map@.contains_key(i) && instance_map@[i] == module_id,
    ensures
        instance_map@.contains_key(r.0),
        instance_map@[r.0] == module_id,
{
    broadcast use vstd::std_specs::hash::group_hash_axioms;
    let keys = map_keys(instance_map);
    let n = keys.len();
    for i in 0..n
        invariant
            n == keys@.len(),
            keys@.to_set() == instance_map@.dom(),
            forall|j: int| 0 <= j < i ==> instance_map@[#[trigger] keys@[j]] != module_id,
    {
        let k = keys[i];
        assert(keys@.to_set().contains(k));
        if *instance_map.get(&k).unwrap() == module_id {
            return ModuleInstanceID(k);
        }
    }
    proof {
        let i = choose|i: u32| #[trigger] instance_map@.contains_key(i) && instance_map@[i] == module_id;
        assert(keys@.to_set().contains(i));
        let j = choose|j: int| 0 <= j < keys@.len() && keys@[j] == i;
        assert(instance_map@[keys@[j]] != module_id);
    }
    ModuleInstanceID(0)
}

impl ModuleSummary {
    /// `i` is the position of the first export named `name`.
    pub open spec fn first_export_at(&self, name: Seq<char>, i: int) -> bool {
        &&& 0 <= i < self.exports@.len()
        &&& self.exports@[i].name@ == name
        &&& forall|j: int| 0 <= j < i ==> (#[trigger] self.exports@[j]).name@ != name
    }

    /// Some export is named `name`.
    pub open spec fn has_export(&self, name: Seq<char>) -> bool {
        exists|i: int| 0 <= i < self.exports@.len() && (#[trigger] self.exports@[i]).name@ == name
    }

    /// The index carried by the first export named `name`.
    pub open spec fn export_index(&self, name: Seq<char>) -> u32 {
        self.exports@[choose|i: int| self.first_export_at(name, i)].index
    }

    /// The type of function `f` (imported functions first) is a function type
    /// of the type section.
    pub open spec fn func_typed(&self, f: u32) -> bool {
        &&& f < self.func_types@.len()
        &&& self.func_types@[f as int] < self.types@.len()
        &&& self.types@[self.func_types@[f as int] as int] is Func
    }

    /// The type section entry of function `f`.
    pub open spec fn func_type_def(&self, f: u32) -> TypeDef {
        self.types@[self.func_types@[f as int] as int]
    }

    /// The parameters of function `f`.
    pub open spec fn func_params(&self, f: u32) -> Seq<DataType> {
        match self.func_type_def(f) {
            TypeDef::Func { params, .. } => params@,
            TypeDef::Other => Seq::empty(),
        }
    }

    /// The results of function `f`.
    pub open spec fn func_results(&self, f: u32) -> Seq<DataType> {
        match self.func_type_def(f) {
            TypeDef::Func { results, .. } => results@,
            TypeDef::Other => Seq::empty(),
        }
    }

    /// If an export is named `name`, the first one refers to a function whose
    /// type is a function type.
    pub open spec fn export_typed(&self, name: Seq<char>) -> bool {
        self.has_export(name) ==> self.func_typed(self.export_index(name))
    }

    /// The first export named `name` is at a single position.
    pub proof fn lemma_first_export_unique(&self, name: Seq<char>, i: int, j: int)
        requires
            self.first_export_at(name, i),
            self.first_export_at(name, j),
        ensures
            i == j,
    {
        if i < j {
            assert(self.exports@[i].name@ != name);
        } else if j < i {
            assert(self.exports@[j].name@ != name);
        }
    }

    /// Whether the first export named `name`, if there is one, refers to a
    /// function whose type is a function type.
    pub fn export_is_typed(&self, name: &String) -> (r: bool)
        ensures
            r == self.export_typed(name@),
    {
        match self.find_export(name) {
            None => true,
            Some(i) => {
                let f = self.exports[i].index;
                if f as usize >= self.func_types.len() {
                    return false;
                }
                let t = self.func_types[f as usize];
                if t as usize >= self.types.len() {
                    return false;
                }
                match &self.types[t as usize] {
                    TypeDef::Func { .. } => true,
                    TypeDef::Other => false,
                }
            },
        }
    }

    /// Finds the position of the first export with the given name.
    pub fn find_export(&self, name: &String) -> (r: Option<usize>)
        ensures
            match r {
                Some(i) => self.first_export_at(name@, i as int) && self.export_index(name@) == self.exports@[i as int].index,
                None => !self.has_export(name@),
            },
    {
        let n = self.exports.len();
        for i in 0..n
            invariant
                n == self.exports@.len(),
                forall|j: int| 0 <= j < i ==> (#[trigger] self.exports@[j]).name@ != name@,
        {
            if self.exports[i].name == *name {
                proof {
                    let c = choose|k: int| self.first_export_at(name@, k);
                    assert(self.first_export_at(name@, i as int));
                    self.lemma_first_export_unique(name@, c, i as int);
                }
                return Some(i);
            }
        }
        None
    }
}

/// The views of two imports agree.
pub open spec fn same_import(a: ModuleImport, b: ModuleImport) -> bool {
    a.module@ == b.module@ && a.name@ == b.name@ && a.ty == b.ty
}

/// The views of two type section entries agree.
pub open spec fn same_type(a: TypeDef, b: TypeDef) -> bool {
    match (a, b) {
        (TypeDef::Func { params: p1, results: r1 }, TypeDef::Func { params: p2, results: r2 }) => p1@ == p2@ && r1@ == r2@,
        (TypeDef::Other, TypeDef::Other) => true,
        _ => false,
    }
}

/// The views of two exports agree.
pub open spec fn same_export(a: ModuleExport, b: ModuleExport) -> bool {
    a.name@ == b.name@ && a.kind == b.kind && a.index == b.index
}

/// Two module summaries have the same contents.
pub open spec fn same_summary(a: ModuleSummary, b: ModuleSummary) -> bool {
    &&& (a.module_name is Some <==> b.module_name is Some)
    &&& (a.module_name is Some ==> a.module_name->0@ == b.module_name->0@)
    &&& a.imports@.len() == b.imports@.len()
    &&& (forall|i: int| 0 <= i < a.imports@.len() ==> same_import(#[trigger] a.imports@[i], b.imports@[i]))
    &&& a.types@.len() == b.types@.len()
    &&& (forall|i: int| 0 <= i < a.types@.len() ==> same_type(#[trigger] a.types@[i], b.types@[i]))
    &&& a.exports@.len() == b.exports@.len()
    &&& (forall|i: int| 0 <= i < a.exports@.len() ==> same_export(#[trigger] a.exports@[i], b.exports@[i]))
    &&& a.func_types@ == b.func_types@
    &&& a.start == b.start
    &&& a.bodies@.len() == b.bodies@.len()
    &&& (forall|i: int| 0 <= i < a.bodies@.len() ==> (#[trigger] a.bodies@[i])@ == b.bodies@[i]@)
}

impl ModuleSummary {
    /// A copy of the summary.
    pub fn clone_summary(&self) -> (r: ModuleSummary)
        ensures
            same_summary(r, *self),
    {
        let module_name = match &self.module_name {
            Some(n) => Some(n.clone()),
            None => None,
        };
        let mut imports: Vec<ModuleImport> = Vec::new();
        for i in 0..self.imports.len()
            invariant
                imports@.len() == i,
                forall|j: int| 0 <= j < i ==> same_import(#[trigger] imports@[j], self.imports@[j]),
        {
            let im = &self.imports[i];
            imports.push(ModuleImport { module: im.module.clone(), name: im.name.clone(), ty: im.ty });
        }
        let mut types: Vec<TypeDef> = Vec::new();
        for i in 0..self.types.len()
            invariant
                types@.len() == i,
                forall|j: int| 0 <= j < i ==> same_type(#[trigger] types@[j], self.types@[j]),
        {
            let t = match &self.types[i] {
                TypeDef::Func { params, results } => {
                    let mut p: Vec<DataType> = Vec::new();
                    for k in 0..params.len()
                        invariant
                            p@ == params@.take(k as int),
                    {
                        p.push(params[k]);
                        assert(p@ =~= params@.take(k + 1));
                    }
                    assert(params@.take(params@.len() as int) =~= params@);
                    let mut q: Vec<DataType> = Vec::new();
                    for k in 0..results.len()
                        invariant
                            q@ == results@.take(k as int),
                    {
                        q.push(results[k]);
                        assert(q@ =~= results@.take(k + 1));
                    }
                    assert(results@.take(results@.len() as int) =~= results@);
                    TypeDef::Func { params: p, results: q }
                },
                TypeDef::Other => TypeDef::Other,
            };
            types.push(t);
        }
        let mut exports: Vec<ModuleExport> = Vec::new();
        for i in 0..self.exports.len()
            invariant
                exports@.len() == i,
                forall|j: int| 0 <= j < i ==> same_export(#[trigger] exports@[j], self.exports@[j]),
        {
            let e = &self.exports[i];
            exports.push(ModuleExport { name: e.name.clone(), kind: e.kind, index: e.index });
        }
        let mut func_types: Vec<u32> = Vec::new();
        for i in 0..self.func_types.len()
            invariant
                func_types@ == self.func_types@.take(i as int),
        {
            func_types.push(self.func_types[i]);
            assert(func_types@ =~= self.func_types@.take(i + 1));
        }
        assert(self.func_types@.take(self.func_types@.len() as int) =~= self.func_types@);
        let mut bodies: Vec<Vec<BodyOp>> = Vec::new();
        for i in 0..self.bodies.len()
            invariant
                bodies@.len() == i,
                forall|j: int| 0 <= j < i ==> (#[trigger] bodies@[j])@ == self.bodies@[j]@,
        {
            let b = &self.bodies[i];
            let mut c: Vec<BodyOp> = Vec::new();
            for k in 0..b.len()
                invariant
                    c@ == b@.take(k as int),
            {
                c.push(b[k]);
                assert(c@ =~= b@.take(k + 1));
            }
            assert(b@.take(b@.len() as int) =~= b@);
            bodies.push(c);
        }
        ModuleSummary { module_name, imports, types, exports, func_types, start: self.start, bodies }
    }
}

impl LinkingMetadata {
    /// The linking can be decomposed: every instantiated instance has a
    /// module with metadata, the modules with metadata are exactly those of
    /// the instantiated instances, and every exported function comes from an
    /// instantiated instance.
    pub open spec fn decomposable_spec(&self) -> bool {
        &&& forall|i: u32| #[trigger] self.instantiations@.contains_key(i) ==> self.instance_map@.contains_key(i)
        &&& forall|m: u32| #[trigger] self.mm@.contains_key(m) <==> self.instantiates_module(m)
        &&& forall|i: u32| #[trigger] self.export_funcs@.contains_key(i) ==> self.instantiations@.contains_key(i)
    }

    /// Some instantiated instance is of module `m`.
    pub open spec fn instantiates_module(&self, m: u32) -> bool {
        exists|i: u32| #[trigger] self.instantiations@.contains_key(i) && self.instance_map@[i].0 == m
    }

    /// Checks the linking before decomposition (see `decomposable_spec`).
    pub fn decomposable(&self) -> (r: bool)
        ensures
            r == self.decomposable_spec(),
    {
        broadcast use vstd::std_specs::hash::group_hash_axioms;
        let insts = map_keys(&self.instantiations);
        let mut modules: Vec<u32> = Vec::new();
        for j in 0..insts.len()
            invariant
                insts@.to_set() == self.instantiations@.dom(),
                modules@.len() == j,
                forall|k: int| 0 <= k < j ==> self.instance_map@.contains_key(#[trigger] insts@[k])
                    && self.mm@.contains_key(self.instance_map@[insts@[k]].0)
                    && modules@[k] == self.instance_map@[insts@[k]].0,
        {
            let i = insts[j];
            assert(insts@.to_set().contains(i));
            match self.instance_map.get(&i) {
                Some(m) => {
                    if !self.mm.contains_key(&m.0) {
                        return false;
                    }
                    modules.push(m.0);
                },
                None => {
                    return false;
                },
            }
        }
        let mods = map_keys(&self.mm);
        for j in 0..mods.len()
            invariant
                insts@.to_set() == self.instantiations@.dom(),
                mods@.to_set() == self.mm@.dom(),
                modules@.len() == insts@.len(),
                forall|k: int| 0 <= k < insts@.len() ==> self.instance_map@.contains_key(#[trigger] insts@[k])
                    && self.mm@.contains_key(self.instance_map@[insts@[k]].0)
                    && modules@[k] == self.instance_map@[insts@[k]].0,
                forall|q: int| 0 <= q < j ==> self.instantiates_module(#[trigger] mods@[q]),
        {
            let m = mods[j];
            let mut found = false;
            for k in 0..modules.len()
                invariant
                    modules@.len() == insts@.len(),
                    forall|q: int| 0 <= q < insts@.len() ==> self.instance_map@.contains_key(#[trigger] insts@[q])
                        && modules@[q] == self.instance_map@[insts@[q]].0,
                    found <==> exists|q: int| 0 <= q < k && modules@[q] == m,
            {
                if modules[k] == m {
                    found = true;
                }
            }
            if !found {
                proof {
                    assert(mods@.to_set().contains(m));
                    assert forall|i: u32| #[trigger] self.instantiations@.contains_key(i) implies self.instance_map@[i].0 != m by {
                        assert(insts@.to_set().contains(i));
                        let q = choose|q: int| 0 <= q < insts@.len() && insts@[q] == i;
                        assert(modules@[q] == self.instance_map@[insts@[q]].0);
                    }
                }
                return false;
            }
            proof {
                let q = choose|q: int| 0 <= q < modules@.len() && modules@[q] == m;
                assert(self.instance_map@.contains_key(insts@[q]));
                assert(insts@.to_set().contains(insts@[q]));
                assert(self.instantiations@.contains_key(insts@[q]));
            }
        }
        let exps = map_keys(&self.export_funcs);
        for j in 0..exps.len()
            invariant
                exps@.to_set() == self.export_funcs@.dom(),
                forall|q: int| 0 <= q < j ==> self.instantiations@.contains_key(#[trigger] exps@[q]),
        {
            if !self.instantiations.contains_key(&exps[j]) {
                proof {
                    assert(exps@.to_set().contains(exps@[j as int]));
                }
                return false;
            }
        }
        proof {
            assert forall|i: u32| #[trigger] self.instantiations@.contains_key(i) implies self.instance_map@.contains_key(i) by {
                assert(insts@.to_set().contains(i));
            }
            assert forall|m: u32| #[trigger] self.mm@.contains_key(m) implies self.instantiates_module(m) by {
                assert(mods@.to_set().contains(m));
                let q = choose|q: int| 0 <= q < mods@.len() && mods@[q] == m;
                assert(self.instantiates_module(mods@[q]));
            }
            assert forall|i: u32| #[trigger] self.export_funcs@.contains_key(i) implies self.instantiations@.contains_key(i) by {
                assert(exps@.to_set().contains(i));
            }
        }
        true
    }

    /// The instance is known and so is its module.
    pub open spec fn instance_known(&self, mid: ModuleInstanceID) -> bool {
        &&& self.instance_map@.contains_key(mid.0)
        &&& self.mm@.contains_key(self.instance_map@[mid.0].0)
    }

    /// The module summary of a known instance.
    pub open spec fn instance_module(&self, mid: ModuleInstanceID) -> ModuleSummary {
        self.mm@[self.instance_map@[mid.0].0].module
    }

    /// The module of an instance.
    pub fn module_id(&self, instance_id: ModuleInstanceID) -> (r: ModuleID)
        requires
            self.instance_map@.contains_key(instance_id.0),
        ensures
            r == self.instance_map@[instance_id.0],
    {
        broadcast use vstd::std_specs::hash::group_hash_axioms;
        *self.instance_map.get(&instance_id.0).unwrap()
    }

    /// The module summary of an instance.
    pub fn module(&self, instance_id: ModuleInstanceID) -> (r: &ModuleSummary)
        requires
            self.instance_map@.contains_key(instance_id.0),
            self.mm@.contains_key(self.instance_map@[instance_id.0].0),
        ensures
            *r == self.mm@[self.instance_map@[instance_id.0].0].module,
    {
        broadcast use vstd::std_specs::hash::group_hash_axioms;
        let module_id = self.module_id(instance_id);
        &self.mm.get(&module_id.0).unwrap().module
    }
}

} // verus!
