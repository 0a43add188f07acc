//! Adaptation of a module instance for the decomposed component: its imports
//! are renamed to the sister instances that provide them, or to the glue
//! module for those that are replayed, and the glue module gets a replay stub
//! for each replayed import and the dispatch entries of the instance's
//! exported functions.
use vstd::prelude::*;

use crate::glue::{instance_name_spec, register_step, registered_entries, GlueBuilder, GlueError, ImportState, GLUE_CAPACITY};
use crate::glue::export_func_known;
use crate::ids::{ModuleImportIndex, ModuleInstanceID};
use crate::linking::{
    map_keys, BuiltinOptions, CanonicalOptionsIndex, Checksum, ExportFuncMetadata, ImportAdapterCrimpData, ImportKind,
    ImportType, InstantiateOrder, LinkingMetadata, ModuleImport, ModuleInstanceExport, ModuleSummary, TypeDef,
};
use crate::names::{module_name_from_ids, namespaced, namespaced_spec, GLUE_MODULE_NAME, REPLAY_IMPORT_MODULE};
use crate::wasm::{all_scalar, scalar_types, DataType, FuncRef};

verus! {

broadcast use vstd::std_specs::hash::group_hash_axioms;

/// Two exports of module instances are the same.
pub open spec fn same_export(a: ModuleInstanceExport, b: ModuleInstanceExport) -> bool {
    a.mid == b.mid && a.name@ == b.name@
}

/// Two optional exports of module instances are the same.
pub open spec fn same_opt_export(a: Option<ModuleInstanceExport>, b: Option<ModuleInstanceExport>) -> bool {
    match (a, b) {
        (Some(x), Some(y)) => same_export(x, y),
        (None, None) => true,
        _ => false,
    }
}

/// Two builtin side-effect descriptions are the same.
pub open spec fn same_builtin(a: BuiltinOptions, b: BuiltinOptions) -> bool {
    match (a, b) {
        (BuiltinOptions::NoSideEffects, BuiltinOptions::NoSideEffects) => true,
        (BuiltinOptions::ResourceDrop { host_dtor: h1, guest_dtor: g1 }, BuiltinOptions::ResourceDrop { host_dtor: h2, guest_dtor: g2 }) =>
            h1 == h2 && same_opt_export(g1, g2),
        _ => false,
    }
}

/// A copy of an optional export.
pub fn clone_opt_export(o: &Option<ModuleInstanceExport>) -> (r: Option<ModuleInstanceExport>)
    ensures
        same_opt_export(r, *o),
{
    match o {
        Some(e) => Some(e.clone_export()),
        None => None,
    }
}

/// A copy of a builtin side-effect description.
pub fn clone_builtin(b: &BuiltinOptions) -> (r: BuiltinOptions)
    ensures
        same_builtin(r, *b),
{
    match b {
        BuiltinOptions::NoSideEffects => BuiltinOptions::NoSideEffects,
        BuiltinOptions::ResourceDrop { host_dtor, guest_dtor } => BuiltinOptions::ResourceDrop {
            host_dtor: *host_dtor,
            guest_dtor: clone_opt_export(guest_dtor),
        },
    }
}

/// `a` is the replay adapter of import `k`, resolved as `kind`.
pub open spec fn adapter_for(a: ImportAdapterCrimpData, k: u32, kind: ImportKind) -> bool {
    &&& a.target.0 == k
    &&& match kind {
        ImportKind::Builtin(b) => a.memory is None && a.realloc is None && (a.builtin matches Some(ab) && same_builtin(ab, b)),
        ImportKind::TrueImport(None) => a.memory is None && a.realloc is None && a.builtin is None,
        ImportKind::TrueImport(Some(o)) => same_opt_export(a.memory, o.memory) && same_opt_export(a.realloc, o.realloc)
            && a.builtin is None,
        ImportKind::Rename { .. } => false,
    }
}

/// The (module, name) that an import is given: the providing sister instance
/// and its export for a renamed import, the replay module and its own
/// name otherwise.
pub open spec fn adapted_import_name(linking: &LinkingMetadata, kind: ImportKind, imp: ModuleImport) -> (Seq<char>, Seq<char>) {
    match kind {
        ImportKind::Rename { package, member } => (instance_name_spec(linking, package), member@),
        _ => (REPLAY_IMPORT_MODULE@, imp.name@),
    }
}

/// The import resolution of an instance.
pub open spec fn instance_kinds(linking: &LinkingMetadata, iid: ModuleInstanceID) -> Map<u32, ImportKind> {
    linking.instantiations@[iid.0].imports@
}

/// The instance can be adapted: its module is known, every import of its
/// module has a resolution and nothing else does, the lowered imports have
/// no post-return, and the providers of renamed imports are known.
pub open spec fn adaptable(linking: &LinkingMetadata, iid: ModuleInstanceID) -> bool {
    let m = linking.instance_module(iid);
    let kinds = instance_kinds(linking, iid);
    &&& linking.instance_known(iid)
    &&& linking.instantiations@.contains_key(iid.0)
    &&& m.imports@.len() <= u32::MAX
    &&& forall|k: u32| #[trigger] kinds.contains_key(k) <==> k < m.imports@.len()
    &&& forall|k: u32| #[trigger] kinds.contains_key(k) ==> (kinds[k] matches ImportKind::TrueImport(Some(o)) ==> o.post_return is None)
    &&& forall|k: u32| #[trigger] kinds.contains_key(k) ==> (kinds[k] matches ImportKind::Rename { package, .. } ==> linking.instance_map@.contains_key(package.0))
}

impl LinkingMetadata {
    /// Checks whether an instance can be adapted (see `adaptable`).
    pub fn is_adaptable(&self, instance_id: ModuleInstanceID) -> (r: bool)
        ensures
            r == adaptable(self, instance_id),
    {
        let module_id = match self.instance_map.get(&instance_id.0) {
            Some(m) => *m,
            None => {
                return false;
            },
        };
        let md = match self.mm.get(&module_id.0) {
            Some(md) => md,
            None => {
                return false;
            },
        };
        let inst = match self.instantiations.get(&instance_id.0) {
            Some(inst) => inst,
            None => {
                return false;
            },
        };
        let ghost m = self.instance_module(instance_id);
        let ghost kinds = instance_kinds(self, instance_id);
        assert(md.module == m);
        assert(inst.imports@ == kinds);
        let n = md.module.imports.len();
        if n as u64 > u32::MAX as u64 {
            return false;
        }
        for k in 0..n
            invariant
                n == m.imports@.len(),
                n <= u32::MAX,
                m == self.instance_module(instance_id),
                self.instance_known(instance_id),
                kinds == inst.imports@,
                self.instantiations@.contains_key(instance_id.0),
                kinds == instance_kinds(self, instance_id),
                forall|q: u32| q < k ==> #[trigger] kinds.contains_key(q),
                forall|q: u32| #[trigger] kinds.contains_key(q) && q < k ==>
                    (kinds[q] matches ImportKind::TrueImport(Some(o)) ==> o.post_return is None),
                forall|q: u32| #[trigger] kinds.contains_key(q) && q < k ==>
                    (kinds[q] matches ImportKind::Rename { package, .. } ==> self.instance_map@.contains_key(package.0)),
        {
            let kk = k as u32;
            match inst.imports.get(&kk) {
                None => {
                    proof {
                        assert(!instance_kinds(self, instance_id).contains_key(kk));
                    }
                    return false;
                },
                Some(ImportKind::TrueImport(Some(o))) => {
                    if o.post_return.is_some() {
                        return false;
                    }
                },
                Some(ImportKind::Rename { package, .. }) => {
                    if !self.instance_map.contains_key(&package.0) {
                        return false;
                    }
                },
                Some(_) => {},
            }
        }
        let keys = map_keys(&inst.imports);
        for j in 0..keys.len()
            invariant
                keys@.to_set() == kinds.dom(),
                n == m.imports@.len(),
                m == self.instance_module(instance_id),
                kinds == instance_kinds(self, instance_id),
                forall|q: int| 0 <= q < j ==> (#[trigger] keys@[q] as int) < n,
        {
            if keys[j] as usize >= n {
                proof {
                    assert(keys@.to_set().contains(keys@[j as int]));
                    assert(instance_kinds(self, instance_id).contains_key(keys@[j as int]));
                }
                return false;
            }
        }
        proof {
            assert forall|q: u32| #[trigger] kinds.contains_key(q) implies q < m.imports@.len() by {
                assert(keys@.to_set().contains(q));
                let p = choose|p: int| 0 <= p < keys@.len() && keys@[p] == q;
                assert((keys@[p] as int) < n);
            }
        }
        true
    }
}

/// A module instance with its imports renamed, and the replay adapters of
/// its replayed imports.
pub struct AdaptedModule {
    pub module_name: String,
    /// The (module, name) of every import, in the order of the import section.
    pub imports: Vec<(String, String)>,
    pub adapters: Vec<ImportAdapterCrimpData>,
}

/// The adapters are those of the replayed imports: one for each, built from
/// its resolution, in some order.
pub open spec fn adapters_of(adapters: Seq<ImportAdapterCrimpData>, kinds: Map<u32, ImportKind>) -> bool {
    &&& forall|i: int| 0 <= i < adapters.len() ==> kinds.contains_key((#[trigger] adapters[i]).target.0)
        && adapter_for(adapters[i], adapters[i].target.0, kinds[adapters[i].target.0])
    &&& forall|i: int, j: int| 0 <= i < j < adapters.len() ==> (#[trigger] adapters[i]).target != (#[trigger] adapters[j]).target
    &&& forall|k: u32| #[trigger] kinds.contains_key(k) && !(kinds[k] is Rename) ==>
        exists|i: int| 0 <= i < adapters.len() && (#[trigger] adapters[i]).target.0 == k
}

/// The replay adapter of an import resolved as `kind`, which is not a rename.
fn make_adapter(k: u32, kind: &ImportKind) -> (a: ImportAdapterCrimpData)
    requires
        !(kind is Rename),
    ensures
        adapter_for(a, k, *kind),
{
    match kind {
        ImportKind::Builtin(b) => ImportAdapterCrimpData {
            target: ModuleImportIndex(k),
            memory: None,
            realloc: None,
            builtin: Some(clone_builtin(b)),
        },
        ImportKind::TrueImport(opts) => {
            let (memory, realloc) = match opts {
                Some(o) => (clone_opt_export(&o.memory), clone_opt_export(&o.realloc)),
                None => (None, None),
            };
            ImportAdapterCrimpData { target: ModuleImportIndex(k), memory, realloc, builtin: None }
        },
        ImportKind::Rename { .. } => ImportAdapterCrimpData { target: ModuleImportIndex(k), memory: None, realloc: None, builtin: None },
    }
}

impl LinkingMetadata {
    /// The instance's module with its imports renamed: a renamed import to
    /// the instance that provides it, a replayed one (true import or builtin)
    /// to the replay module under its own name; with the replay adapter of
    /// every replayed import.
    pub fn construct_adapted_module(&self, instance_id: ModuleInstanceID) -> (r: AdaptedModule)
        requires
            adaptable(self, instance_id),
        ensures
            r.module_name@ == instance_name_spec(self, instance_id),
            r.imports@.len() == self.instance_module(instance_id).imports@.len(),
            forall|k: int| 0 <= k < r.imports@.len() ==> (#[trigger] r.imports@[k].0@, r.imports@[k].1@) == adapted_import_name(
                self, instance_kinds(self, instance_id)[k as u32], self.instance_module(instance_id).imports@[k]),
            adapters_of(r.adapters@, instance_kinds(self, instance_id)),
    {
        let module = self.module(instance_id);
        let module_name = module_name_from_ids(self.module_id(instance_id), instance_id);
        let inst = self.instantiations.get(&instance_id.0).unwrap();
        let ghost kinds = inst.imports@;
        let n = module.imports.len();
        let mut names: Vec<(String, String)> = Vec::new();
        for k in 0..n
            invariant
                n == module.imports@.len(),
                names@.len() == k,
                forall|j: int| 0 <= j < k ==> (#[trigger] names@[j].0@, names@[j].1@) == (module.imports@[j].module@, module.imports@[j].name@),
        {
            names.push((module.imports[k].module.clone(), module.imports[k].name.clone()));
        }
        let keys = map_keys(&inst.imports);
        let mut adapters: Vec<ImportAdapterCrimpData> = Vec::new();
        let nk = keys.len();
        for j in 0..nk
            invariant
                n == module.imports@.len(),
                n <= u32::MAX,
                nk == keys@.len(),
                keys@.no_duplicates(),
                keys@.to_set() == kinds.dom(),
                kinds == instance_kinds(self, instance_id),
                inst.imports@ == kinds,
                adaptable(self, instance_id),
                *module == self.instance_module(instance_id),
                names@.len() == n,
                forall|k: int| 0 <= k < n ==> (#[trigger] names@[k].0@, names@[k].1@) == (
                    if keys@.take(j as int).contains(k as u32) {
                        adapted_import_name(self, kinds[k as u32], module.imports@[k])
                    } else {
                        (module.imports@[k].module@, module.imports@[k].name@)
                    }),
                forall|i: int| 0 <= i < adapters@.len() ==> keys@.take(j as int).contains((#[trigger] adapters@[i]).target.0)
                    && kinds.contains_key(adapters@[i].target.0)
                    && adapter_for(adapters@[i], adapters@[i].target.0, kinds[adapters@[i].target.0]),
                forall|a: int, b: int| 0 <= a < b < adapters@.len() ==> (#[trigger] adapters@[a]).target != (#[trigger] adapters@[b]).target,
                forall|k: u32| keys@.take(j as int).contains(k) && #[trigger] kinds.contains_key(k) && !(kinds[k] is Rename) ==>
                    exists|i: int| 0 <= i < adapters@.len() && (#[trigger] adapters@[i]).target.0 == k,
        {
            let k = keys[j];
            assert(keys@.to_set().contains(k));
            assert(k < n);
            let kind = inst.imports.get(&k).unwrap();
            let ghost names0 = names@;
            let ghost adapters0 = adapters@;
            proof {
                assert(keys@.take(j + 1) =~= keys@.take(j as int).push(k));
                assert(!keys@.take(j as int).contains(k)) by {
                    if keys@.take(j as int).contains(k) {
                        let i = choose|i: int| 0 <= i < j && #[trigger] keys@.take(j as int)[i] == k;
                        assert(keys@[i] == keys@[j as int]);
                    }
                }
            }
            match kind {
                ImportKind::Rename { package, member } => {
                    let provider = module_name_from_ids(self.module_id(*package), *package);
                    names.set(k as usize, (provider, member.clone()));
                },
                _ => {
                    names.set(k as usize, (String::from_str(REPLAY_IMPORT_MODULE), module.imports[k as usize].name.clone()));
                    adapters.push(make_adapter(k, kind));
                    proof {
                        assert forall|a: int, b: int| 0 <= a < b < adapters@.len() implies (#[trigger] adapters@[a]).target != (#[trigger] adapters@[b]).target by {
                            if b == adapters@.len() - 1 {
                                assert(adapters@[a] == adapters0[a]);
                                assert(keys@.take(j as int).contains(adapters0[a].target.0));
                            } else {
                                assert(adapters@[a] == adapters0[a] && adapters@[b] == adapters0[b]);
                            }
                        }
                        assert(adapters@[adapters@.len() - 1].target.0 == k);
                    }
                },
            }
            proof {
                assert forall|kk: int| 0 <= kk < n implies (#[trigger] names@[kk].0@, names@[kk].1@) == (
                    if keys@.take(j + 1).contains(kk as u32) {
                        adapted_import_name(self, kinds[kk as u32], module.imports@[kk])
                    } else {
                        (module.imports@[kk].module@, module.imports@[kk].name@)
                    }) by {
                    if kk != k as int {
                        assert(names@[kk] == names0[kk]);
                        assert(keys@.take(j + 1).contains(kk as u32) == keys@.take(j as int).contains(kk as u32)) by {
                            if keys@.take(j + 1).contains(kk as u32) {
                                let i = choose|i: int| 0 <= i < j + 1 && #[trigger] keys@.take(j + 1)[i] == kk as u32;
                                if i < j {
                                    assert(keys@.take(j as int)[i] == kk as u32);
                                }
                            }
                            if keys@.take(j as int).contains(kk as u32) {
                                let i = choose|i: int| 0 <= i < j && #[trigger] keys@.take(j as int)[i] == kk as u32;
                                assert(keys@.take(j + 1)[i] == kk as u32);
                            }
                        }
                    } else {
                        assert(keys@.take(j + 1)[j as int] == k);
                    }
                }
                assert forall|i: int| 0 <= i < adapters@.len() implies keys@.take(j + 1).contains((#[trigger] adapters@[i]).target.0)
                    && kinds.contains_key(adapters@[i].target.0)
                    && adapter_for(adapters@[i], adapters@[i].target.0, kinds[adapters@[i].target.0]) by {
                    if i < adapters0.len() {
                        assert(adapters@[i] == adapters0[i]);
                        let x = adapters0[i].target.0;
                        let q = choose|q: int| 0 <= q < j && #[trigger] keys@.take(j as int)[q] == x;
                        assert(keys@.take(j + 1)[q] == x);
                    } else {
                        assert(keys@.take(j + 1)[j as int] == k);
                    }
                }
                assert forall|kk: u32| keys@.take(j + 1).contains(kk) && #[trigger] kinds.contains_key(kk) && !(kinds[kk] is Rename) implies
                    exists|i: int| 0 <= i < adapters@.len() && (#[trigger] adapters@[i]).target.0 == kk by {
                    if kk == k {
                        assert(adapters@[adapters@.len() - 1].target.0 == k);
                    } else {
                        let q = choose|q: int| 0 <= q < j + 1 && #[trigger] keys@.take(j + 1)[q] == kk;
                        assert(q < j);
                        assert(keys@.take(j as int)[q] == kk);
                        assert(keys@.take(j as int).contains(kk));
                        let i = choose|i: int| 0 <= i < adapters0.len() && (#[trigger] adapters0[i]).target.0 == kk;
                        assert(adapters@[i] == adapters0[i]);
                    }
                }
            }
        }
        proof {
            assert(keys@.take(nk as int) =~= keys@);
            assert forall|k: int| 0 <= k < n implies (#[trigger] names@[k].0@, names@[k].1@) == adapted_import_name(
                self, kinds[k as u32], module.imports@[k]) by {
                assert(kinds.contains_key(k as u32));
                assert(keys@.to_set().contains(k as u32));
            }
        }
        AdaptedModule { module_name, imports: names, adapters }
    }
}


/// Why an instance cannot be adapted.
pub enum AdaptError {
    /// A replayed import is not a function import.
    NotAFunction(u32),
    /// The type of a replayed import is not in the type section.
    TypeNotFound(u32),
    /// The type of a replayed import is not a function type.
    NotAFuncType(u32),
    /// An exported function of the instance cannot be registered.
    Export(GlueError),
}

/// Import `k` of `m` is a function import whose type is a function type.
pub open spec fn import_sig_ok(m: &ModuleSummary, k: int) -> bool {
    &&& m.imports@[k].ty matches ImportType::Func(t)
    &&& t < m.types@.len()
    &&& m.types@[t as int] is Func
}

/// The parameters of function import `k`.
pub open spec fn import_params(m: &ModuleSummary, k: int) -> Seq<DataType> {
    m.types@[m.imports@[k].ty->Func_0 as int]->params@
}

/// The results of function import `k`.
pub open spec fn import_results(m: &ModuleSummary, k: int) -> Seq<DataType> {
    m.types@[m.imports@[k].ty->Func_0 as int]->results@
}

/// The functions that an instance exports to the component.
pub open spec fn instance_exports(linking: &LinkingMetadata, iid: ModuleInstanceID) -> Seq<ExportFuncMetadata> {
    if linking.export_funcs@.contains_key(iid.0) { linking.export_funcs@[iid.0]@ } else { Seq::empty() }
}

/// An exported function can be registered: its core function, and its
/// post-return if it has one, are exports of their modules.
pub open spec fn export_registrable(linking: &LinkingMetadata, e: ExportFuncMetadata, iid: ModuleInstanceID) -> bool {
    &&& linking.instance_module(iid).has_export(e.name@)
    &&& e.opts.post_return matches Some(p) ==> linking.instance_module(p.mid).has_export(p.name@)
}

/// The instances that an import resolution refers to are known.
pub open spec fn kind_instances_known(linking: &LinkingMetadata, kind: ImportKind) -> bool {
    &&& kind matches ImportKind::TrueImport(Some(o)) ==> (o.realloc matches Some(r) ==> linking.instance_map@.contains_key(r.mid.0))
        && (o.memory matches Some(m) ==> linking.instance_map@.contains_key(m.mid.0))
    &&& kind matches ImportKind::Builtin(BuiltinOptions::ResourceDrop { guest_dtor: Some(g), .. }) ==> linking.instance_map@.contains_key(g.mid.0)
}

/// The glue module can take the replay stubs and export registrations of the
/// instance: the replayed function imports have scalar signatures, the
/// instances they refer to are known, and so are the exported functions.
pub open spec fn glue_ready(linking: &LinkingMetadata, iid: ModuleInstanceID, glue: &GlueBuilder) -> bool {
    let m = linking.instance_module(iid);
    let kinds = instance_kinds(linking, iid);
    &&& glue.wf()
    &&& glue.dispatch_wf()
    &&& glue.load() + 16 * (m.imports@.len() + instance_exports(linking, iid).len()) <= GLUE_CAPACITY
    &&& forall|k: u32| #[trigger] kinds.contains_key(k) && !(kinds[k] is Rename) ==> {
        &&& kind_instances_known(linking, kinds[k])
        &&& import_sig_ok(&m, k as int) ==> all_scalar(import_params(&m, k as int)) && import_params(&m, k as int).len() <= 0x1000_0000
            && all_scalar(import_results(&m, k as int)) && import_results(&m, k as int).len() <= 0x1000_0000
    }
    &&& forall|i: int| 0 <= i < instance_exports(linking, iid).len() ==> export_func_known(&#[trigger] instance_exports(linking, iid)[i], iid, linking)
}

/// The glue exports a function named `name` whose signature is `params -> results`.
pub open spec fn glue_exports_func(glue: &GlueBuilder, name: Seq<char>, params: Seq<DataType>, results: Seq<DataType>) -> bool {
    exists|i: int| 0 <= i < glue.module.exports@.len() && #[trigger] glue.module.exports@[i].name@ == name && {
        let f = glue.module.exports@[i].func;
        &&& f matches FuncRef::Local(k)
        &&& k < glue.module.funcs@.len()
        &&& glue.module.funcs@[k as int].params@ == params
        &&& glue.module.funcs@[k as int].results@ == results
    }
}

impl LinkingMetadata {
    /// Whether the instances that an import resolution refers to are known.
    fn kind_known(&self, kind: &ImportKind) -> (r: bool)
        ensures
            r == kind_instances_known(self, *kind),
    {
        broadcast use vstd::std_specs::hash::group_hash_axioms;
        match kind {
            ImportKind::TrueImport(Some(o)) => {
                let realloc_ok = match &o.realloc {
                    Some(r) => self.instance_map.contains_key(&r.mid.0),
                    None => true,
                };
                let memory_ok = match &o.memory {
                    Some(m) => self.instance_map.contains_key(&m.mid.0),
                    None => true,
                };
                realloc_ok && memory_ok
            },
            ImportKind::Builtin(BuiltinOptions::ResourceDrop { guest_dtor: Some(g), .. }) => self.instance_map.contains_key(&g.mid.0),
            _ => true,
        }
    }

    /// Whether an exported function of a known instance is known (see
    /// `export_func_known`).
    fn export_known(&self, e: &ExportFuncMetadata, instance_id: ModuleInstanceID) -> (r: bool)
        requires
            self.instance_known(instance_id),
        ensures
            r == export_func_known(e, instance_id, self),
    {
        broadcast use vstd::std_specs::hash::group_hash_axioms;
        if !self.module(instance_id).export_is_typed(&e.name) {
            return false;
        }
        if let Some(r) = &e.opts.realloc {
            if !self.instance_map.contains_key(&r.mid.0) {
                return false;
            }
        }
        if let Some(m) = &e.opts.memory {
            if !self.instance_map.contains_key(&m.mid.0) {
                return false;
            }
        }
        match &e.opts.post_return {
            Some(p) => {
                match self.instance_map.get(&p.mid.0) {
                    Some(pm) => {
                        if !self.mm.contains_key(&pm.0) {
                            return false;
                        }
                    },
                    None => {
                        return false;
                    },
                }
                self.module(p.mid).export_is_typed(&p.name)
            },
            None => true,
        }
    }

    /// Checks whether the glue can take the replay stubs and export
    /// registrations of an adaptable instance (see `glue_ready`).
    pub fn glue_ready_for(&self, instance_id: ModuleInstanceID, glue: &GlueBuilder) -> (r: bool)
        requires
            adaptable(self, instance_id),
            glue.wf(),
            glue.dispatch_wf(),
        ensures
            r == glue_ready(self, instance_id, glue),
    {
        broadcast use vstd::std_specs::hash::group_hash_axioms;
        let ghost m = self.instance_module(instance_id);
        let ghost kinds = instance_kinds(self, instance_id);
        let module = self.module(instance_id);
        let inst = self.instantiations.get(&instance_id.0).unwrap();
        let n = module.imports.len();
        let ne: usize = match self.export_funcs.get(&instance_id.0) {
            Some(v) => v.len(),
            None => 0,
        };
        assert(ne == instance_exports(self, instance_id).len());
        let load = match glue.load_within_capacity() {
            Some(l) => l,
            None => {
                return false;
            },
        };
        if ne as u64 > GLUE_CAPACITY {
            return false;
        }
        if load + 16 * (n as u64 + ne as u64) > GLUE_CAPACITY {
            return false;
        }
        for k in 0..n
            invariant
                n == m.imports@.len(),
                *module == m,
                m == self.instance_module(instance_id),
                kinds == instance_kinds(self, instance_id),
                inst.imports@ == kinds,
                adaptable(self, instance_id),
                forall|q: u32| #[trigger] kinds.contains_key(q) && !(kinds[q] is Rename) && q < k ==> {
                    &&& kind_instances_known(self, kinds[q])
                    &&& import_sig_ok(&m, q as int) ==> all_scalar(import_params(&m, q as int)) && import_params(&m, q as int).len() <= 0x1000_0000
                        && all_scalar(import_results(&m, q as int)) && import_results(&m, q as int).len() <= 0x1000_0000
                },
        {
            let kk = k as u32;
            assert(kinds.contains_key(kk));
            let kind = inst.imports.get(&kk).unwrap();
            match kind {
                ImportKind::Rename { .. } => {},
                _ => {
                    if !self.kind_known(kind) {
                        return false;
                    }
                    match module.imports[k].ty {
                        ImportType::Func(t) => {
                            if (t as usize) < module.types.len() {
                                match &module.types[t as usize] {
                                    TypeDef::Func { params, results } => {
                                        if !scalar_types(params) || params.len() > 0x1000_0000 || !scalar_types(results)
                                            || results.len() > 0x1000_0000 {
                                            return false;
                                        }
                                    },
                                    TypeDef::Other => {},
                                }
                            }
                        },
                        _ => {},
                    }
                },
            }
        }
        match self.export_funcs.get(&instance_id.0) {
            Some(efs) => {
                for i in 0..efs.len()
                    invariant
                        efs@ == instance_exports(self, instance_id),
                        self.instance_known(instance_id),
                        forall|j: int| 0 <= j < i ==> export_func_known(&#[trigger] efs@[j], instance_id, self),
                {
                    if !self.export_known(&efs[i], instance_id) {
                        return false;
                    }
                }
            },
            None => {},
        }
        true
    }
}

/// The glue's exports and functions only grew: what it exported stays exported.
pub proof fn lemma_glue_exports_preserved(g0: &GlueBuilder, g1: &GlueBuilder, name: Seq<char>, params: Seq<DataType>, results: Seq<DataType>)
    requires
        glue_exports_func(g0, name, params, results),
        g1.module.exports@.len() >= g0.module.exports@.len(),
        g1.module.exports@.take(g0.module.exports@.len() as int) == g0.module.exports@,
        g1.module.funcs@.len() >= g0.module.funcs@.len(),
        g1.module.funcs@.take(g0.module.funcs@.len() as int) == g0.module.funcs@,
    ensures
        glue_exports_func(g1, name, params, results),
{
    let i = choose|i: int| 0 <= i < g0.module.exports@.len() && #[trigger] g0.module.exports@[i].name@ == name && {
        let f = g0.module.exports@[i].func;
        &&& f matches FuncRef::Local(k)
        &&& k < g0.module.funcs@.len()
        &&& g0.module.funcs@[k as int].params@ == params
        &&& g0.module.funcs@[k as int].results@ == results
    };
    assert(g1.module.exports@[i] == g1.module.exports@.take(g0.module.exports@.len() as int)[i]);
    let k = g0.module.exports@[i].func->Local_0;
    assert(g1.module.funcs@[k as int] == g1.module.funcs@.take(g0.module.funcs@.len() as int)[k as int]);
}

impl LinkingMetadata {
    /// Adapts an instance's module and adds its bindings to the glue: every
    /// replayed import is renamed to the glue module under
    /// `{instance}:{name}`, where the glue exports a replay stub of the same
    /// signature; then the instance's exported functions are registered for
    /// dispatch.
    ///
    /// Fails when a replayed import is not a function import of a function
    /// type, or when an exported function cannot be registered.
    #[verifier::rlimit(60)]
    pub fn adapt_and_update_glue(&self, instance_id: ModuleInstanceID, glue: &mut GlueBuilder) -> (r: Result<AdaptedModule, AdaptError>)
        requires
            adaptable(self, instance_id),
            glue_ready(self, instance_id, old(glue)),
        ensures
            final(glue).wf(),
            final(glue).dispatch_wf(),
            ({
                let m = self.instance_module(instance_id);
                let kinds = instance_kinds(self, instance_id);
                let sigs_ok = forall|k: u32| #[trigger] kinds.contains_key(k) && !(kinds[k] is Rename) ==> import_sig_ok(&m, k as int);
                let exports_ok = forall|i: int| 0 <= i < instance_exports(self, instance_id).len()
                    ==> export_registrable(self, #[trigger] instance_exports(self, instance_id)[i], instance_id);
                &&& r is Ok <==> sigs_ok && exports_ok
                &&& r is Ok ==> exists|st: ImportState| {
                    let reg = #[trigger] registered_entries(st, instance_exports(self, instance_id), instance_id, self);
                    &&& final(glue).import_state() == reg.0
                    &&& final(glue).core_func_dispatch@ == old(glue).core_func_dispatch@ + reg.1
                    &&& final(glue).realloc_export_dispatch@ == old(glue).realloc_export_dispatch@ + reg.2
                    &&& final(glue).memwrite_export_dispatch@ == old(glue).memwrite_export_dispatch@ + reg.3
                    &&& final(glue).post_return_dispatch@ == old(glue).post_return_dispatch@ + reg.4
                }
                &&& r matches Ok(am) ==> {
                    &&& am.module_name@ == instance_name_spec(self, instance_id)
                    &&& am.imports@.len() == m.imports@.len()
                    &&& adapters_of(am.adapters@, kinds)
                    &&& forall|k: int| 0 <= k < am.imports@.len() ==> {
                        let kind = kinds[k as u32];
                        let (mn, nm) = (#[trigger] am.imports@[k].0@, am.imports@[k].1@);
                        if kind is Rename {
                            (mn, nm) == adapted_import_name(self, kind, m.imports@[k])
                        } else {
                            &&& mn == GLUE_MODULE_NAME@
                            &&& nm == namespaced_spec(instance_name_spec(self, instance_id), m.imports@[k].name@)
                            &&& glue_exports_func(final(glue), nm, import_params(&m, k), import_results(&m, k))
                        }
                    }
                }
            }),
    {
        let adapted = self.construct_adapted_module(instance_id);
        let ghost m = self.instance_module(instance_id);
        let ghost kinds = instance_kinds(self, instance_id);
        let module = self.module(instance_id);
        let instance_name = module_name_from_ids(self.module_id(instance_id), instance_id);
        let mut names = adapted.imports;
        let adapters = adapted.adapters;
        let ghost g_start = *glue;
        let ghost e0 = glue.module.exports@.len();
        let ghost l0 = glue.load();
        let na = adapters.len();
        proof {
            // every adapter is for a distinct import, so there are no more of them than imports
            assert(na <= m.imports@.len()) by {
                let ts = adapters@.map_values(|a: ImportAdapterCrimpData| a.target.0);
                assert forall|i: int, j: int| 0 <= i < ts.len() && 0 <= j < ts.len() && i != j implies ts[i] != ts[j] by {
                    if i < j {
                        assert(adapters@[i].target != adapters@[j].target);
                    } else {
                        assert(adapters@[j].target != adapters@[i].target);
                    }
                }
                ts.unique_seq_to_set();
                assert forall|x: u32| ts.to_set().contains(x) implies vstd::set_lib::set_int_range(0, m.imports@.len() as int).contains(x as int) by {
                    let i = choose|i: int| 0 <= i < ts.len() && ts[i] == x;
                    assert(kinds.contains_key(adapters@[i].target.0));
                }
                let f = |x: u32| x as int;
                vstd::set_lib::lemma_int_range(0, m.imports@.len() as int);
                ts.to_set().lemma_map_finite(f);
                assert(ts.to_set().map(f).subset_of(vstd::set_lib::set_int_range(0, m.imports@.len() as int)));
                vstd::set_lib::lemma_len_subset(ts.to_set().map(f), vstd::set_lib::set_int_range(0, m.imports@.len() as int));
                vstd::set_lib::lemma_map_size(ts.to_set(), ts.to_set().map(f), f);
            }
        }
        for j in 0..na
            invariant
                na == adapters@.len(),
                na <= m.imports@.len(),
                m == self.instance_module(instance_id),
                kinds == instance_kinds(self, instance_id),
                *module == m,
                adaptable(self, instance_id),
                instance_name@ == instance_name_spec(self, instance_id),
                adapters_of(adapters@, kinds),
                glue.wf(),
                glue.dispatch_wf(),
                glue.core_func_dispatch == g_start.core_func_dispatch,
                glue.realloc_export_dispatch == g_start.realloc_export_dispatch,
                glue.memwrite_export_dispatch == g_start.memwrite_export_dispatch,
                glue.post_return_dispatch == g_start.post_return_dispatch,
                glue.load() <= l0 + 16 * j,
                l0 + 16 * (m.imports@.len() + instance_exports(self, instance_id).len()) <= GLUE_CAPACITY,
                forall|k: u32| #[trigger] kinds.contains_key(k) && !(kinds[k] is Rename) ==> {
                    &&& kind_instances_known(self, kinds[k])
                    &&& import_sig_ok(&m, k as int) ==> all_scalar(import_params(&m, k as int)) && import_params(&m, k as int).len() <= 0x1000_0000
                        && all_scalar(import_results(&m, k as int)) && import_results(&m, k as int).len() <= 0x1000_0000
                },
                names@.len() == m.imports@.len(),
                forall|i: int| 0 <= i < j ==> import_sig_ok(&m, (#[trigger] adapters@[i]).target.0 as int),
                forall|k: int| 0 <= k < names@.len() ==> {
                    let kind = kinds[k as u32];
                    let (mn, nm) = (#[trigger] names@[k].0@, names@[k].1@);
                    if exists|i: int| 0 <= i < j && (#[trigger] adapters@[i]).target.0 == k {
                        &&& mn == GLUE_MODULE_NAME@
                        &&& nm == namespaced_spec(instance_name_spec(self, instance_id), m.imports@[k].name@)
                        &&& glue_exports_func(glue, nm, import_params(&m, k), import_results(&m, k))
                    } else {
                        (mn, nm) == adapted_import_name(self, kind, m.imports@[k])
                    }
                },
        {
            let adapter = &adapters[j];
            let k = adapter.target.0;
            assert(kinds.contains_key(k));
            let ghost kind = kinds[k];
            assert(!(kind is Rename));
            let import = &module.imports[k as usize];
            let type_idx = match import.ty {
                ImportType::Func(t) => t,
                _ => {
                    return Err(AdaptError::NotAFunction(k));
                },
            };
            // Rename this import to point to the glue module
            let namespaced_name = namespaced(instance_name.as_str(), import.name.as_str());
            if type_idx as usize >= module.types.len() {
                return Err(AdaptError::TypeNotFound(type_idx));
            }
            let (params, results) = match &module.types[type_idx as usize] {
                TypeDef::Func { params, results } => (params.clone(), results.clone()),
                TypeDef::Other => {
                    return Err(AdaptError::NotAFuncType(type_idx));
                },
            };
            let ghost g0 = *glue;
            let ghost names0 = names@;
            glue.add_replay_stub(namespaced_name.as_str(), &params, &results, adapter, self);
            names.set(k as usize, (String::from_str(GLUE_MODULE_NAME), namespaced_name));
            proof {
                let ns = namespaced_spec(instance_name_spec(self, instance_id), m.imports@[k as int].name@);
                let last = (glue.module.exports@.len() - 1) as int;
                assert(glue.module.exports@[last].name@ == ns);
                assert(glue_exports_func(glue, ns, import_params(&m, k as int), import_results(&m, k as int)));
                assert forall|kk: int| 0 <= kk < names@.len() implies {
                    let kind = kinds[kk as u32];
                    let (mn, nm) = (#[trigger] names@[kk].0@, names@[kk].1@);
                    if exists|i: int| 0 <= i < j + 1 && (#[trigger] adapters@[i]).target.0 == kk {
                        &&& mn == GLUE_MODULE_NAME@
                        &&& nm == namespaced_spec(instance_name_spec(self, instance_id), m.imports@[kk].name@)
                        &&& glue_exports_func(glue, nm, import_params(&m, kk), import_results(&m, kk))
                    } else {
                        (mn, nm) == adapted_import_name(self, kind, m.imports@[kk])
                    }
                } by {
                    if kk == k as int {
                        assert(adapters@[j as int].target.0 == kk);
                    } else {
                        assert(names@[kk] == names0[kk]);
                        assert((exists|i: int| 0 <= i < j + 1 && (#[trigger] adapters@[i]).target.0 == kk)
                            == (exists|i: int| 0 <= i < j && (#[trigger] adapters@[i]).target.0 == kk)) by {
                            if exists|i: int| 0 <= i < j + 1 && (#[trigger] adapters@[i]).target.0 == kk {
                                let i = choose|i: int| 0 <= i < j + 1 && (#[trigger] adapters@[i]).target.0 == kk;
                                assert(i != j);
                            }
                        }
                        if exists|i: int| 0 <= i < j && (#[trigger] adapters@[i]).target.0 == kk {
                            lemma_glue_exports_preserved(&g0, glue, names0[kk].1@, import_params(&m, kk), import_results(&m, kk));
                        }
                    }
                }
            }
        }
        let ghost e1 = glue.module.exports@;
        let ghost f1 = glue.module.funcs@;
        let ghost l1 = glue.load();
        let ghost s_e = glue.import_state();
        assert(glue.core_func_dispatch == g_start.core_func_dispatch);
        match self.export_funcs.get(&instance_id.0) {
            Some(efs) => {
                let ne = efs.len();
                for i in 0..ne
                    invariant
                        ne == efs@.len(),
                        efs@ == instance_exports(self, instance_id),
                        glue.wf(),
                        glue.dispatch_wf(),
                        glue.load() <= l1 + 16 * i,
                        l1 <= l0 + 16 * na,
                        na <= m.imports@.len(),
                        l0 + 16 * (m.imports@.len() + instance_exports(self, instance_id).len()) <= GLUE_CAPACITY,
                        glue.module.exports@ == e1,
                        glue.module.funcs@ == f1,
                        forall|q: int| 0 <= q < instance_exports(self, instance_id).len() ==>
                            export_func_known(&#[trigger] instance_exports(self, instance_id)[q], instance_id, self),
                        forall|q: int| 0 <= q < i ==> export_registrable(self, #[trigger] efs@[q], instance_id),
                        ({
                            let reg = registered_entries(s_e, efs@.take(i as int), instance_id, self);
                            &&& glue.import_state() == reg.0
                            &&& glue.core_func_dispatch@ == g_start.core_func_dispatch@ + reg.1
                            &&& glue.realloc_export_dispatch@ == g_start.realloc_export_dispatch@ + reg.2
                            &&& glue.memwrite_export_dispatch@ == g_start.memwrite_export_dispatch@ + reg.3
                            &&& glue.post_return_dispatch@ == g_start.post_return_dispatch@ + reg.4
                        }),
                {
                    let ghost g_before = *glue;
                    proof {
                        assert(efs@.take(i + 1).drop_last() == efs@.take(i as int));
                        assert(efs@.take(i + 1).last() == efs@[i as int]);
                    }
                    match glue.register_export(&efs[i], instance_id, self) {
                        Ok(()) => {
                            proof {
                                let prev = registered_entries(s_e, efs@.take(i as int), instance_id, self);
                                let step = register_step(prev.0, efs@[i as int], instance_id, self);
                                assert(glue.core_func_dispatch@ == g_start.core_func_dispatch@ + prev.1.push(step.1));
                                assert(glue.realloc_export_dispatch@ == g_start.realloc_export_dispatch@ + (prev.2 + step.2));
                                assert(glue.memwrite_export_dispatch@ == g_start.memwrite_export_dispatch@ + (prev.3 + step.3));
                                assert(glue.post_return_dispatch@ == g_start.post_return_dispatch@ + (prev.4 + step.4));
                            }
                        },
                        Err(e) => {
                            return Err(AdaptError::Export(e));
                        },
                    }
                }
            },
            None => {},
        }
        proof {
            let efs_all = instance_exports(self, instance_id);
            assert(efs_all.take(efs_all.len() as int) == efs_all);
            if efs_all.len() == 0 {
                assert(registered_entries(s_e, efs_all, instance_id, self).1 == Seq::<(u32, FuncRef, u32)>::empty());
                assert(glue.core_func_dispatch@ == g_start.core_func_dispatch@ + Seq::<(u32, FuncRef, u32)>::empty());
                assert(glue.realloc_export_dispatch@ == g_start.realloc_export_dispatch@ + Seq::<(u32, FuncRef)>::empty());
                assert(glue.memwrite_export_dispatch@ == g_start.memwrite_export_dispatch@ + Seq::<(u32, u32)>::empty());
                assert(glue.post_return_dispatch@ == g_start.post_return_dispatch@ + Seq::<(u32, FuncRef, u32)>::empty());
            }
        }
        proof {
            assert forall|k: u32| #[trigger] kinds.contains_key(k) && !(kinds[k] is Rename) implies import_sig_ok(&m, k as int) by {
                let i = choose|i: int| 0 <= i < adapters@.len() && (#[trigger] adapters@[i]).target.0 == k;
            }
            assert forall|kk: int| 0 <= kk < names@.len() implies {
                let kind = kinds[kk as u32];
                let (mn, nm) = (#[trigger] names@[kk].0@, names@[kk].1@);
                if kind is Rename {
                    (mn, nm) == adapted_import_name(self, kind, m.imports@[kk])
                } else {
                    &&& mn == GLUE_MODULE_NAME@
                    &&& nm == namespaced_spec(instance_name_spec(self, instance_id), m.imports@[kk].name@)
                    &&& glue_exports_func(glue, nm, import_params(&m, kk), import_results(&m, kk))
                }
            } by {
                if kinds[kk as u32] is Rename {
                    if exists|i: int| 0 <= i < na && (#[trigger] adapters@[i]).target.0 == kk {
                        let i = choose|i: int| 0 <= i < na && (#[trigger] adapters@[i]).target.0 == kk;
                        assert(adapter_for(adapters@[i], kk as u32, kinds[kk as u32]));
                    }
                } else {
                    assert(kinds.contains_key(kk as u32));
                    let i = choose|i: int| 0 <= i < adapters@.len() && (#[trigger] adapters@[i]).target.0 == kk as u32;
                }
            }
        }
        Ok(AdaptedModule { module_name: adapted.module_name, imports: names, adapters })
    }
}


/// What the replay custom section of an adapted instance holds: the
/// component's checksum, the instance and its instantiation order, the replay
/// adapters of its imports and the functions it exports to the component.
pub struct CrimpSectionData {
    pub checksum: Checksum,
    pub instance_id: ModuleInstanceID,
    pub instantiate_order: InstantiateOrder,
    pub import_adapters: Vec<ImportAdapterCrimpData>,
    pub exports: Vec<ExportFuncMetadata>,
}

/// Two replay adapters are the same.
pub open spec fn same_adapter(a: ImportAdapterCrimpData, b: ImportAdapterCrimpData) -> bool {
    &&& a.target == b.target
    &&& same_opt_export(a.memory, b.memory)
    &&& same_opt_export(a.realloc, b.realloc)
    &&& match (a.builtin, b.builtin) {
        (Some(x), Some(y)) => same_builtin(x, y),
        (None, None) => true,
        _ => false,
    }
}

/// Two exported-function descriptions are the same.
pub open spec fn same_export_func(a: ExportFuncMetadata, b: ExportFuncMetadata) -> bool {
    &&& a.name@ == b.name@
    &&& a.record_id == b.record_id
    &&& same_opt_export(a.opts.memory, b.opts.memory)
    &&& same_opt_export(a.opts.realloc, b.opts.realloc)
    &&& same_opt_export(a.opts.post_return, b.opts.post_return)
}

fn clone_adapter(a: &ImportAdapterCrimpData) -> (r: ImportAdapterCrimpData)
    ensures
        same_adapter(r, *a),
{
    ImportAdapterCrimpData {
        target: a.target,
        memory: clone_opt_export(&a.memory),
        realloc: clone_opt_export(&a.realloc),
        builtin: match &a.builtin {
            Some(b) => Some(clone_builtin(b)),
            None => None,
        },
    }
}

fn clone_export_func(e: &ExportFuncMetadata) -> (r: ExportFuncMetadata)
    ensures
        same_export_func(r, *e),
{
    ExportFuncMetadata {
        name: e.name.clone(),
        record_id: e.record_id,
        opts: CanonicalOptionsIndex {
            memory: clone_opt_export(&e.opts.memory),
            realloc: clone_opt_export(&e.opts.realloc),
            post_return: clone_opt_export(&e.opts.post_return),
        },
    }
}

impl LinkingMetadata {
    /// The adapted module of an instance, with the contents of its replay
    /// custom section: the component's checksum, the instance, its
    /// instantiation order, the replay adapters of its imports and the
    /// functions that it exports. The caller encodes the section.
    pub fn adapt_and_serialize_crimp_section(&self, instance_id: ModuleInstanceID) -> (r: (AdaptedModule, CrimpSectionData))
        requires
            adaptable(self, instance_id),
        ensures
            r.0.module_name@ == instance_name_spec(self, instance_id),
            r.0.imports@.len() == self.instance_module(instance_id).imports@.len(),
            forall|k: int| 0 <= k < r.0.imports@.len() ==> (#[trigger] r.0.imports@[k].0@, r.0.imports@[k].1@) == adapted_import_name(
                self, instance_kinds(self, instance_id)[k as u32], self.instance_module(instance_id).imports@[k]),
            adapters_of(r.0.adapters@, instance_kinds(self, instance_id)),
            r.1.checksum == self.checksum,
            r.1.instance_id == instance_id,
            r.1.instantiate_order == self.instantiations@[instance_id.0].instantiate_order,
            r.1.import_adapters@.len() == r.0.adapters@.len(),
            forall|i: int| 0 <= i < r.1.import_adapters@.len() ==> same_adapter(#[trigger] r.1.import_adapters@[i], r.0.adapters@[i]),
            r.1.exports@.len() == instance_exports(self, instance_id).len(),
            forall|i: int| 0 <= i < r.1.exports@.len() ==> same_export_func(#[trigger] r.1.exports@[i], instance_exports(self, instance_id)[i]),
    {
        let adapted = self.construct_adapted_module(instance_id);
        let mut import_adapters: Vec<ImportAdapterCrimpData> = Vec::new();
        for i in 0..adapted.adapters.len()
            invariant
                import_adapters@.len() == i,
                forall|j: int| 0 <= j < i ==> same_adapter(#[trigger] import_adapters@[j], adapted.adapters@[j]),
        {
            import_adapters.push(clone_adapter(&adapted.adapters[i]));
        }
        let mut exports: Vec<ExportFuncMetadata> = Vec::new();
        match self.export_funcs.get(&instance_id.0) {
            Some(efs) => {
                for i in 0..efs.len()
                    invariant
                        efs@ == instance_exports(self, instance_id),
                        exports@.len() == i,
                        forall|j: int| 0 <= j < i ==> same_export_func(#[trigger] exports@[j], efs@[j]),
                {
                    exports.push(clone_export_func(&efs[i]));
                }
            },
            None => {},
        }
        let instantiate_order = self.instantiations.get(&instance_id.0).unwrap().instantiate_order;
        let data = CrimpSectionData {
            checksum: self.checksum,
            instance_id,
            instantiate_order,
            import_adapters,
            exports,
        };
        (adapted, data)
    }
}

} // verus!
