//! Static analysis of start functions: a single start function is allowed
//! provided that it, and every function it calls transitively, touches no
//! true import (an import that is not linked to a sister module's export).
//! `call_indirect` is rejected conservatively.
use std::collections::{HashMap, HashSet, VecDeque};
use vstd::prelude::*;

use crate::ids::ModuleID;
use crate::linking::{assumed_instance_id, map_keys, BodyOp, ImportKind, ImportType, LinkingMetadata, ModuleImport, ModuleSummary};
use crate::r3::Operator;

verus! {

broadcast use vstd::std_specs::hash::group_hash_axioms;

/// Why a start function is refused.
#[derive(Debug, Copy, Clone, PartialEq, Eq, Structural)]
pub enum StartError {
    /// It transitively calls a true-imported function.
    CallsTrueImport(u32),
    /// It uses `call_indirect`.
    CallIndirect,
    /// It accesses a true-imported global.
    TrueGlobal(u32),
    /// It accesses a true-imported memory.
    TrueMemory(u32),
    /// It copies between memories one of which is true-imported.
    TrueMemoryCopy { src: u32, dst: u32 },
    /// It accesses a true-imported table.
    TrueTable(u32),
    /// It copies between tables one of which is true-imported.
    TrueTableCopy { src: u32, dst: u32 },
    /// More than one module has a start function.
    MultipleStarts(usize),
    /// The instance of the module with the start function has no instantiation metadata.
    MissingInstantiation,
    /// The start function is, or transitively reaches, an imported function.
    ReachesImport(u32),
}

/// The true imports of a module, by kind-specific index: those that are not
/// linked to a sister module's export.
pub struct TrueView {
    pub funcs: Set<u32>,
    pub globals: Set<u32>,
    pub memories: Set<u32>,
    pub tables: Set<u32>,
    /// The number of imported functions.
    pub nf: nat,
}

/// The import at position `i` is linked to a sister module's export.
pub open spec fn is_rename(kinds: Map<u32, ImportKind>, i: int) -> bool {
    kinds.contains_key(i as u32) && kinds[i as u32] is Rename
}

/// The true imports among the first `n` imports, with the numbers of
/// imported globals, memories and tables.
pub open spec fn true_scan(imports: Seq<ModuleImport>, kinds: Map<u32, ImportKind>, n: int) -> (TrueView, nat, nat, nat)
    decreases n,
{
    if n <= 0 {
        (TrueView { funcs: Set::empty(), globals: Set::empty(), memories: Set::empty(), tables: Set::empty(), nf: 0 }, 0, 0, 0)
    } else {
        let (v, ng, nm, nt) = true_scan(imports, kinds, n - 1);
        let r = is_rename(kinds, n - 1);
        match imports[n - 1].ty {
            ImportType::Func(_) => (TrueView { funcs: if r { v.funcs } else { v.funcs.insert(v.nf as u32) }, nf: v.nf + 1, ..v }, ng, nm, nt),
            ImportType::Global => (TrueView { globals: if r { v.globals } else { v.globals.insert(ng as u32) }, ..v }, ng + 1, nm, nt),
            ImportType::Memory => (TrueView { memories: if r { v.memories } else { v.memories.insert(nm as u32) }, ..v }, ng, nm + 1, nt),
            ImportType::Table => (TrueView { tables: if r { v.tables } else { v.tables.insert(nt as u32) }, ..v }, ng, nm, nt + 1),
            ImportType::Tag => (v, ng, nm, nt),
        }
    }
}

/// The true imports among the first `n` imports.
pub open spec fn true_view(imports: Seq<ModuleImport>, kinds: Map<u32, ImportKind>, n: int) -> TrueView {
    true_scan(imports, kinds, n).0
}

/// Each count of the scan is at most the number of imports seen.
pub proof fn lemma_true_view_counts(imports: Seq<ModuleImport>, kinds: Map<u32, ImportKind>, n: int)
    requires
        0 <= n <= imports.len(),
    ensures
        ({
            let (v, ng, nm, nt) = true_scan(imports, kinds, n);
            v.nf <= n && ng <= n && nm <= n && nt <= n
        }),
    decreases n,
{
    if n > 0 {
        lemma_true_view_counts(imports, kinds, n - 1);
    }
}

/// The true imports of a module, by kind-specific index.
pub struct TrueImportIndices {
    pub funcs: HashSet<u32>,
    pub globals: HashSet<u32>,
    pub memories: HashSet<u32>,
    pub tables: HashSet<u32>,
    /// The number of imported functions: calls below it are import calls.
    pub num_import_funcs: u32,
}

impl TrueImportIndices {
    /// The index sets and the import count as plain values.
    pub open spec fn view(&self) -> TrueView {
        TrueView {
            funcs: self.funcs@,
            globals: self.globals@,
            memories: self.memories@,
            tables: self.tables@,
            nf: self.num_import_funcs as nat,
        }
    }

    /// The true imports of `module`, given how each import is resolved.
    pub fn build(module: &ModuleSummary, import_kinds: &HashMap<u32, ImportKind>) -> (r: TrueImportIndices)
        requires
            module.imports@.len() < u32::MAX,
        ensures
            ({
                let v = true_view(module.imports@, import_kinds@, module.imports@.len() as int);
                &&& r.funcs@ == v.funcs
                &&& r.globals@ == v.globals
                &&& r.memories@ == v.memories
                &&& r.tables@ == v.tables
                &&& r.num_import_funcs == v.nf
            }),
    {
        let mut funcs: HashSet<u32> = HashSet::new();
        let mut globals: HashSet<u32> = HashSet::new();
        let mut memories: HashSet<u32> = HashSet::new();
        let mut tables: HashSet<u32> = HashSet::new();
        let mut func_idx: u32 = 0;
        let mut global_idx: u32 = 0;
        let mut memory_idx: u32 = 0;
        let mut table_idx: u32 = 0;
        let n = module.imports.len();
        for i in 0..n
            invariant
                n == module.imports@.len(),
                n < u32::MAX,
                ({
                    let (v, ng, nm, nt) = true_scan(module.imports@, import_kinds@, i as int);
                    &&& funcs@ == v.funcs
                    &&& globals@ == v.globals
                    &&& memories@ == v.memories
                    &&& tables@ == v.tables
                    &&& func_idx == v.nf
                    &&& global_idx == ng
                    &&& memory_idx == nm
                    &&& table_idx == nt
                }),
        {
            proof { lemma_true_view_counts(module.imports@, import_kinds@, i as int); }
            let is_rename = match import_kinds.get(&(i as u32)) {
                Some(ImportKind::Rename { .. }) => true,
                _ => false,
            };
            match module.imports[i].ty {
                ImportType::Func(_) => {
                    if !is_rename {
                        funcs.insert(func_idx);
                    }
                    func_idx = func_idx + 1;
                },
                ImportType::Global => {
                    if !is_rename {
                        globals.insert(global_idx);
                    }
                    global_idx = global_idx + 1;
                },
                ImportType::Memory => {
                    if !is_rename {
                        memories.insert(memory_idx);
                    }
                    memory_idx = memory_idx + 1;
                },
                ImportType::Table => {
                    if !is_rename {
                        tables.insert(table_idx);
                    }
                    table_idx = table_idx + 1;
                },
                ImportType::Tag => {},
            }
        }
        TrueImportIndices { funcs, globals, memories, tables, num_import_funcs: func_idx }
    }
}

/// What the start-function analysis reads of an instruction: a direct call
/// (also the tail call `return_call`), a call through a table or a reference
/// (also as a tail call), and the global, memory and table that it touches.
pub open spec fn body_op_spec(op: Operator) -> BodyOp {
    match op {
        Operator::Call { function_index } => BodyOp::Call(function_index),
        Operator::ReturnCall { function_index } => BodyOp::Call(function_index),
        Operator::CallIndirect { .. } | Operator::ReturnCallIndirect { .. } | Operator::CallRef { .. }
            | Operator::ReturnCallRef { .. } => BodyOp::CallIndirect,
        Operator::GlobalGet { global_index } => BodyOp::Global(global_index),
        Operator::GlobalSet { global_index } => BodyOp::Global(global_index),
        Operator::Load { memarg, .. } => BodyOp::Memory(memarg.memory),
        Operator::Store { memarg, .. } => BodyOp::Memory(memarg.memory),
        Operator::LoadLane { memarg, .. } => BodyOp::Memory(memarg.memory),
        Operator::StoreLane { memarg, .. } => BodyOp::Memory(memarg.memory),
        Operator::MemorySize { mem } => BodyOp::Memory(mem),
        Operator::MemoryGrow { mem } => BodyOp::Memory(mem),
        Operator::MemoryFill { mem } => BodyOp::Memory(mem),
        Operator::MemoryInit { mem, .. } => BodyOp::Memory(mem),
        Operator::MemoryCopy { dst_mem, src_mem } => BodyOp::MemoryCopy { dst: dst_mem, src: src_mem },
        Operator::TableGet { table } => BodyOp::Table(table),
        Operator::TableSet { table } => BodyOp::Table(table),
        Operator::TableGrow { table } => BodyOp::Table(table),
        Operator::TableSize { table } => BodyOp::Table(table),
        Operator::TableFill { table } => BodyOp::Table(table),
        Operator::TableInit { table, .. } => BodyOp::Table(table),
        Operator::TableCopy { dst_table, src_table } => BodyOp::TableCopy { dst: dst_table, src: src_table },
        Operator::Other => BodyOp::Other,
    }
}

/// Classifies an instruction for the start-function analysis (see
/// `body_op_spec`).
pub fn body_op(op: &Operator) -> (r: BodyOp)
    ensures
        r == body_op_spec(*op),
{
    match *op {
        Operator::Call { function_index } => BodyOp::Call(function_index),
        Operator::ReturnCall { function_index } => BodyOp::Call(function_index),
        Operator::CallIndirect { .. } | Operator::ReturnCallIndirect { .. } | Operator::CallRef { .. }
            | Operator::ReturnCallRef { .. } => BodyOp::CallIndirect,
        Operator::GlobalGet { global_index } => BodyOp::Global(global_index),
        Operator::GlobalSet { global_index } => BodyOp::Global(global_index),
        Operator::Load { memarg, .. } => BodyOp::Memory(memarg.memory),
        Operator::Store { memarg, .. } => BodyOp::Memory(memarg.memory),
        Operator::LoadLane { memarg, .. } => BodyOp::Memory(memarg.memory),
        Operator::StoreLane { memarg, .. } => BodyOp::Memory(memarg.memory),
        Operator::MemorySize { mem } => BodyOp::Memory(mem),
        Operator::MemoryGrow { mem } => BodyOp::Memory(mem),
        Operator::MemoryFill { mem } => BodyOp::Memory(mem),
        Operator::MemoryInit { mem, .. } => BodyOp::Memory(mem),
        Operator::MemoryCopy { dst_mem, src_mem } => BodyOp::MemoryCopy { dst: dst_mem, src: src_mem },
        Operator::TableGet { table } => BodyOp::Table(table),
        Operator::TableSet { table } => BodyOp::Table(table),
        Operator::TableGrow { table } => BodyOp::Table(table),
        Operator::TableSize { table } => BodyOp::Table(table),
        Operator::TableFill { table } => BodyOp::Table(table),
        Operator::TableInit { table, .. } => BodyOp::Table(table),
        Operator::TableCopy { dst_table, src_table } => BodyOp::TableCopy { dst: dst_table, src: src_table },
        Operator::Other => BodyOp::Other,
    }
}

/// The classified instructions of a function body.
pub fn body_ops(ops: &Vec<Operator>) -> (r: Vec<BodyOp>)
    ensures
        r@ == ops@.map_values(|op: Operator| body_op_spec(op)),
{
    let mut r: Vec<BodyOp> = Vec::new();
    for i in 0..ops.len()
        invariant
            r@ == ops@.take(i as int).map_values(|op: Operator| body_op_spec(op)),
    {
        r.push(body_op(&ops[i]));
        assert(ops@.take(i + 1).drop_last() == ops@.take(i as int));
        assert(r@ =~= ops@.take(i + 1).map_values(|op: Operator| body_op_spec(op)));
    }
    assert(ops@.take(ops@.len() as int) == ops@);
    r
}

/// The memory that an instruction reads, writes, sizes or grows, where it
/// touches exactly one: the one named in the memory immediate of a load or
/// store, or the memory operand of `memory.size`, `memory.grow`,
/// `memory.fill` and `memory.init`.
pub open spec fn addressed_memory(op: Operator) -> Option<u32> {
    match op {
        Operator::Load { memarg, .. } => Some(memarg.memory),
        Operator::Store { memarg, .. } => Some(memarg.memory),
        Operator::LoadLane { memarg, .. } => Some(memarg.memory),
        Operator::StoreLane { memarg, .. } => Some(memarg.memory),
        Operator::MemorySize { mem } => Some(mem),
        Operator::MemoryGrow { mem } => Some(mem),
        Operator::MemoryFill { mem } => Some(mem),
        Operator::MemoryInit { mem, .. } => Some(mem),
        _ => None,
    }
}

/// The global that `global.get` or `global.set` reads or writes.
pub open spec fn addressed_global(op: Operator) -> Option<u32> {
    match op {
        Operator::GlobalGet { global_index } => Some(global_index),
        Operator::GlobalSet { global_index } => Some(global_index),
        _ => None,
    }
}

/// The table that an instruction on a single table touches.
pub open spec fn addressed_table(op: Operator) -> Option<u32> {
    match op {
        Operator::TableGet { table } => Some(table),
        Operator::TableSet { table } => Some(table),
        Operator::TableGrow { table } => Some(table),
        Operator::TableSize { table } => Some(table),
        Operator::TableFill { table } => Some(table),
        Operator::TableInit { table, .. } => Some(table),
        _ => None,
    }
}

/// Every instruction that touches one memory is checked against that
/// memory: it is refused with `TrueMemory` of that memory exactly when that
/// memory is true-imported, and otherwise passes.
pub proof fn lemma_memory_access_checked(op: Operator, t: TrueView)
    requires
        addressed_memory(op) is Some,
    ensures
        ({
            let m = addressed_memory(op)->0;
            &&& t.memories.contains(m) ==> op_outcome(body_op_spec(op), t)
                == Err::<Option<u32>, StartError>(StartError::TrueMemory(m))
            &&& !t.memories.contains(m) ==> op_outcome(body_op_spec(op), t) == Ok::<Option<u32>, StartError>(None)
        }),
{
}

/// Every read or write of a global is checked against that global: it is
/// refused with `TrueGlobal` of that global exactly when the global is
/// true-imported, and otherwise passes.
pub proof fn lemma_global_access_checked(op: Operator, t: TrueView)
    requires
        addressed_global(op) is Some,
    ensures
        ({
            let g = addressed_global(op)->0;
            &&& t.globals.contains(g) ==> op_outcome(body_op_spec(op), t)
                == Err::<Option<u32>, StartError>(StartError::TrueGlobal(g))
            &&& !t.globals.contains(g) ==> op_outcome(body_op_spec(op), t) == Ok::<Option<u32>, StartError>(None)
        }),
{
}

/// Every instruction on one table is checked against that table: it is
/// refused with `TrueTable` of that table exactly when the table is
/// true-imported, and otherwise passes.
pub proof fn lemma_table_access_checked(op: Operator, t: TrueView)
    requires
        addressed_table(op) is Some,
    ensures
        ({
            let x = addressed_table(op)->0;
            &&& t.tables.contains(x) ==> op_outcome(body_op_spec(op), t)
                == Err::<Option<u32>, StartError>(StartError::TrueTable(x))
            &&& !t.tables.contains(x) ==> op_outcome(body_op_spec(op), t) == Ok::<Option<u32>, StartError>(None)
        }),
{
}

/// A direct call, or tail call, of a function below the number of imported
/// functions is refused with `CallsTrueImport` exactly when that import is
/// true; a call of a renamed import passes, and a call of a local function
/// gives that function to follow. A call through a table or a reference,
/// tail call or not, is always refused.
pub proof fn lemma_call_checked(op: Operator, t: TrueView)
    ensures
        op matches Operator::Call { function_index } ==> op_outcome(body_op_spec(op), t) == (
            if function_index >= t.nf {
                Ok::<Option<u32>, StartError>(Some(function_index))
            } else if t.funcs.contains(function_index) {
                Err(StartError::CallsTrueImport(function_index))
            } else {
                Ok(None)
            }),
        op matches Operator::ReturnCall { function_index } ==> op_outcome(body_op_spec(op), t) == (
            if function_index >= t.nf {
                Ok::<Option<u32>, StartError>(Some(function_index))
            } else if t.funcs.contains(function_index) {
                Err(StartError::CallsTrueImport(function_index))
            } else {
                Ok(None)
            }),
        (op is CallIndirect || op is ReturnCallIndirect || op is CallRef || op is ReturnCallRef)
            ==> op_outcome(body_op_spec(op), t) == Err::<Option<u32>, StartError>(StartError::CallIndirect),
{
}

/// `memory.copy` is refused, naming both memories, exactly when its source
/// or its destination is true-imported; `table.copy` likewise with tables.
pub proof fn lemma_copy_checked(op: Operator, t: TrueView)
    ensures
        op matches Operator::MemoryCopy { dst_mem, src_mem } ==> op_outcome(body_op_spec(op), t) == (
            if t.memories.contains(dst_mem) || t.memories.contains(src_mem) {
                Err::<Option<u32>, StartError>(StartError::TrueMemoryCopy { src: src_mem, dst: dst_mem })
            } else {
                Ok(None)
            }),
        op matches Operator::TableCopy { dst_table, src_table } ==> op_outcome(body_op_spec(op), t) == (
            if t.tables.contains(dst_table) || t.tables.contains(src_table) {
                Err::<Option<u32>, StartError>(StartError::TrueTableCopy { src: src_table, dst: dst_table })
            } else {
                Ok(None)
            }),
{
}

/// A start function whose own body touches a true-imported memory (a load
/// or store to it, or its size, growth, fill or init) is refused: where the
/// start function's instructions are the classification of `ops` and
/// `ops[i]` touches a true-imported memory `m`, the start function is not
/// safe, and `TrueMemory(m)` is a violation found in it.
pub proof fn lemma_true_memory_access_refused(m: &ModuleSummary, t: TrueView, ops: Seq<Operator>, i: int)
    requires
        m.start is Some,
        m.start->0 >= t.nf,
        m.start->0 - t.nf < m.bodies@.len(),
        body_of(m, t, m.start->0) == ops.map_values(|op: Operator| body_op_spec(op)),
        0 <= i < ops.len(),
        addressed_memory(ops[i]) is Some,
        t.memories.contains(addressed_memory(ops[i])->0),
    ensures
        !start_safe(m, t, m.start->0),
        violation_at(m, t, m.start->0, StartError::TrueMemory(addressed_memory(ops[i])->0)),
{
    let s = m.start->0;
    lemma_memory_access_checked(ops[i], t);
    assert(body_of(m, t, s)[i] == body_op_spec(ops[i]));
    lemma_reaches_start(m, t, s);
    assert(op_outcome(body_of(m, t, s)[i], t) is Err);
    assert(violates(m, t, s));
}

/// What checking one instruction gives: a violation, a local function that
/// it calls, or nothing.
pub open spec fn op_outcome(op: BodyOp, t: TrueView) -> Result<Option<u32>, StartError> {
    match op {
        BodyOp::Call(f) => if f < t.nf {
            if t.funcs.contains(f) { Err(StartError::CallsTrueImport(f)) } else { Ok(None) }
        } else {
            Ok(Some(f))
        },
        BodyOp::CallIndirect => Err(StartError::CallIndirect),
        BodyOp::Global(g) => if t.globals.contains(g) { Err(StartError::TrueGlobal(g)) } else { Ok(None) },
        BodyOp::Memory(m) => if t.memories.contains(m) { Err(StartError::TrueMemory(m)) } else { Ok(None) },
        BodyOp::MemoryCopy { dst, src } => if t.memories.contains(dst) || t.memories.contains(src) {
            Err(StartError::TrueMemoryCopy { src, dst })
        } else {
            Ok(None)
        },
        BodyOp::Table(x) => if t.tables.contains(x) { Err(StartError::TrueTable(x)) } else { Ok(None) },
        BodyOp::TableCopy { dst, src } => if t.tables.contains(dst) || t.tables.contains(src) {
            Err(StartError::TrueTableCopy { src, dst })
        } else {
            Ok(None)
        },
        BodyOp::Other => Ok(None),
    }
}

/// Checks one instruction for access to true-imported state: a violation is
/// an error; a call to a local function gives the function to follow; calls
/// to renamed imports and everything else are safe.
pub fn check_op(op: &BodyOp, idx: &TrueImportIndices) -> (r: Result<Option<u32>, StartError>)
    ensures
        r == op_outcome(*op, idx.view()),
{
    match op {
        BodyOp::Call(f) => {
            if *f < idx.num_import_funcs {
                if idx.funcs.contains(f) {
                    return Err(StartError::CallsTrueImport(*f));
                }
                return Ok(None);
            }
            Ok(Some(*f))
        },
        BodyOp::CallIndirect => Err(StartError::CallIndirect),
        BodyOp::Global(g) => {
            if idx.globals.contains(g) {
                return Err(StartError::TrueGlobal(*g));
            }
            Ok(None)
        },
        BodyOp::Memory(m) => {
            if idx.memories.contains(m) {
                return Err(StartError::TrueMemory(*m));
            }
            Ok(None)
        },
        BodyOp::MemoryCopy { dst, src } => {
            if idx.memories.contains(dst) || idx.memories.contains(src) {
                return Err(StartError::TrueMemoryCopy { src: *src, dst: *dst });
            }
            Ok(None)
        },
        BodyOp::Table(x) => {
            if idx.tables.contains(x) {
                return Err(StartError::TrueTable(*x));
            }
            Ok(None)
        },
        BodyOp::TableCopy { dst, src } => {
            if idx.tables.contains(dst) || idx.tables.contains(src) {
                return Err(StartError::TrueTableCopy { src: *src, dst: *dst });
            }
            Ok(None)
        },
        BodyOp::Other => Ok(None),
    }
}


/// The instructions of function `f`, which is local.
pub open spec fn body_of(m: &ModuleSummary, t: TrueView, f: u32) -> Seq<BodyOp> {
    m.bodies@[f - t.nf]@
}

/// `f` is a local function that calls the local function `g`.
pub open spec fn calls_local(m: &ModuleSummary, t: TrueView, f: u32, g: u32) -> bool {
    &&& f >= t.nf
    &&& f - t.nf < m.bodies@.len()
    &&& exists|i: int| 0 <= i < body_of(m, t, f).len()
        && op_outcome(#[trigger] body_of(m, t, f)[i], t) == Ok::<Option<u32>, StartError>(Some(g))
}

/// Function `f` is an import, or one of its instructions touches true-imported state.
pub open spec fn violates(m: &ModuleSummary, t: TrueView, f: u32) -> bool {
    f < t.nf || exists|i: int| 0 <= i < body_of(m, t, f).len() && (#[trigger] op_outcome(body_of(m, t, f)[i], t)) is Err
}

/// `e` is what checking function `f` finds wrong with it.
pub open spec fn violation_at(m: &ModuleSummary, t: TrueView, f: u32, e: StartError) -> bool {
    ||| f < t.nf && e == StartError::ReachesImport(f)
    ||| f >= t.nf && exists|i: int| 0 <= i < body_of(m, t, f).len()
            && #[trigger] op_outcome(body_of(m, t, f)[i], t) == Err::<Option<u32>, StartError>(e)
}

/// Each function of `p` calls the next one.
pub open spec fn is_call_path(m: &ModuleSummary, t: TrueView, p: Seq<u32>) -> bool {
    forall|i: int| 0 <= i < p.len() - 1 ==> calls_local(m, t, #[trigger] p[i], p[i + 1])
}

/// `f` is reachable from `s` by direct calls between local functions.
pub open spec fn reaches(m: &ModuleSummary, t: TrueView, s: u32, f: u32) -> bool {
    exists|p: Seq<u32>| p.len() > 0 && p[0] == s && p.last() == f && #[trigger] is_call_path(m, t, p)
}

/// No function reachable from `s` touches true-imported state.
pub open spec fn start_safe(m: &ModuleSummary, t: TrueView, s: u32) -> bool {
    forall|f: u32| #[trigger] reaches(m, t, s, f) ==> !violates(m, t, f)
}

/// Every function of a module, and every call target, lies in its function
/// index space, of which the first `nf` are imports.
pub open spec fn calls_in_range(m: &ModuleSummary, nf: nat) -> bool {
    &&& nf + m.bodies@.len() <= u32::MAX
    &&& forall|f: int, i: int| 0 <= f < m.bodies@.len() && 0 <= i < m.bodies@[f]@.len() ==>
        (#[trigger] m.bodies@[f]@[i] matches BodyOp::Call(g) ==> g < nf + m.bodies@.len())
}

/// The start function reaches itself.
pub proof fn lemma_reaches_start(m: &ModuleSummary, t: TrueView, s: u32)
    ensures
        reaches(m, t, s, s),
{
    let p = seq![s];
    assert(is_call_path(m, t, p));
}

/// A local callee of a reachable function is reachable.
pub proof fn lemma_reaches_step(m: &ModuleSummary, t: TrueView, s: u32, f: u32, g: u32)
    requires
        reaches(m, t, s, f),
        calls_local(m, t, f, g),
    ensures
        reaches(m, t, s, g),
{
    let p = choose|p: Seq<u32>| p.len() > 0 && p[0] == s && p.last() == f && #[trigger] is_call_path(m, t, p);
    let q = p.push(g);
    assert forall|i: int| 0 <= i < q.len() - 1 implies calls_local(m, t, #[trigger] q[i], q[i + 1]) by {
        if i < p.len() - 1 {
            assert(q[i] == p[i] && q[i + 1] == p[i + 1]);
        } else {
            assert(q[i] == f && q[i + 1] == g);
        }
    }
    assert(is_call_path(m, t, q));
}

/// A set of functions that contains `s` and every local callee of its
/// members contains every function reachable from `s`.
pub proof fn lemma_closed_contains_reachable(m: &ModuleSummary, t: TrueView, s: u32, vis: Set<u32>, f: u32)
    requires
        vis.contains(s),
        forall|a: u32, b: u32| vis.contains(a) && #[trigger] calls_local(m, t, a, b) ==> vis.contains(b),
        reaches(m, t, s, f),
    ensures
        vis.contains(f),
{
    let p = choose|p: Seq<u32>| p.len() > 0 && p[0] == s && p.last() == f && #[trigger] is_call_path(m, t, p);
    lemma_path_in(m, t, vis, p, p.len() - 1);
}

proof fn lemma_path_in(m: &ModuleSummary, t: TrueView, vis: Set<u32>, p: Seq<u32>, k: int)
    requires
        0 <= k < p.len(),
        vis.contains(p[0]),
        is_call_path(m, t, p),
        forall|a: u32, b: u32| vis.contains(a) && #[trigger] calls_local(m, t, a, b) ==> vis.contains(b),
    ensures
        vis.contains(p[k]),
    decreases k,
{
    if k > 0 {
        lemma_path_in(m, t, vis, p, k - 1);
        assert(calls_local(m, t, p[k - 1], p[k]));
    }
}

/// Walks the call graph from `start` through direct calls between local
/// functions, checking every instruction of every function reached.
///
/// Succeeds exactly when no function reachable from `start` is an import or
/// touches true-imported state; otherwise returns what was found wrong with
/// one such function.
pub fn validate_start_in(module: &ModuleSummary, idx: &TrueImportIndices, start: u32) -> (r: Result<(), StartError>)
    requires
        calls_in_range(module, idx.num_import_funcs as nat),
        start < idx.num_import_funcs + module.bodies@.len(),
    ensures
        r is Ok <==> start_safe(module, idx.view(), start),
        r matches Err(e) ==> exists|f: u32| reaches(module, idx.view(), start, f) && violation_at(module, idx.view(), f, e),
{
    let ghost t = idx.view();
    let nf = idx.num_import_funcs;
    let ghost total: int = nf + module.bodies@.len();
    let mut visited: HashSet<u32> = HashSet::new();
    let mut worklist: VecDeque<u32> = VecDeque::new();
    worklist.push_back(start);
    visited.insert(start);
    let ghost mut gv: Set<int> = set![start as int];
    proof {
        lemma_reaches_start(module, t, start);
        assert(worklist@ =~= seq![start]);
        assert(worklist@[0] == start);
        assert(worklist@.contains(start));
        assert(visited@ == Set::<u32>::empty().insert(start));
    }
    while worklist.len() > 0
        invariant
            t == idx.view(),
            nf == idx.num_import_funcs,
            total == nf + module.bodies@.len(),
            calls_in_range(module, nf as nat),
            visited@.contains(start),
            forall|f: u32| #[trigger] visited@.contains(f) ==> reaches(module, t, start, f) && f < total,
            forall|i: int| 0 <= i < worklist@.len() ==> visited@.contains(#[trigger] worklist@[i]),
            worklist@.no_duplicates(),
            forall|f: u32| #[trigger] visited@.contains(f) && !worklist@.contains(f) ==> !violates(module, t, f),
            forall|a: u32, b: u32| visited@.contains(a) && !worklist@.contains(a) && #[trigger] calls_local(module, t, a, b) ==> visited@.contains(b),
            forall|x: u32| #[trigger] visited@.contains(x) <==> gv.contains(x as int),
            forall|y: int| #[trigger] gv.contains(y) ==> 0 <= y < total,
            gv.finite(),
        decreases total - gv.len(), worklist@.len(),
    {
        let ghost g0 = gv.len();
        let ghost w0 = worklist@;
        let fid = match worklist.pop_front() {
            Some(f) => f,
            None => { return Ok(()); },
        };
        proof {
            assert(!worklist@.contains(fid)) by {
                if worklist@.contains(fid) {
                    let j = choose|j: int| 0 <= j < worklist@.len() && worklist@[j] == fid;
                    assert(w0[j + 1] == fid && w0[0] == fid);
                }
            }
            assert(visited@.contains(w0[0]));
            assert forall|f: u32| worklist@.contains(f) implies w0.contains(f) by {
                let j = choose|j: int| 0 <= j < worklist@.len() && worklist@[j] == f;
                assert(w0[j + 1] == f);
            }
            assert forall|f: u32| w0.contains(f) && f != fid implies worklist@.contains(f) by {
                let j = choose|j: int| 0 <= j < w0.len() && w0[j] == f;
                assert(j > 0);
                assert(worklist@[j - 1] == f);
            }
        }
        if fid < nf {
            proof {
                assert(violation_at(module, t, fid, StartError::ReachesImport(fid)));
                assert(violates(module, t, fid));
            }
            return Err(StartError::ReachesImport(fid));
        }
        let body = &module.bodies[(fid - nf) as usize];
        assert(body@ == body_of(module, t, fid));
        let n = body.len();
        for i in 0..n
            invariant
                t == idx.view(),
                nf == idx.num_import_funcs,
                total == nf + module.bodies@.len(),
                calls_in_range(module, nf as nat),
                nf <= fid < total,
                n == body@.len(),
                body@ == body_of(module, t, fid),
                body@ == module.bodies@[fid - nf]@,
                visited@.contains(start),
                visited@.contains(fid),
                !worklist@.contains(fid),
                forall|f: u32| #[trigger] visited@.contains(f) ==> reaches(module, t, start, f) && f < total,
                forall|i: int| 0 <= i < worklist@.len() ==> visited@.contains(#[trigger] worklist@[i]),
                worklist@.no_duplicates(),
                forall|f: u32| #[trigger] visited@.contains(f) && !worklist@.contains(f) && f != fid ==> !violates(module, t, f),
                forall|a: u32, b: u32| visited@.contains(a) && !worklist@.contains(a) && a != fid && #[trigger] calls_local(module, t, a, b) ==> visited@.contains(b),
                forall|x: u32| #[trigger] visited@.contains(x) <==> gv.contains(x as int),
                forall|y: int| #[trigger] gv.contains(y) ==> 0 <= y < total,
                gv.finite(),
                gv.len() - g0 == worklist@.len() - (w0.len() - 1),
                worklist@.len() >= w0.len() - 1,
                w0.len() >= 1,
                forall|j: int| 0 <= j < i ==> (#[trigger] op_outcome(body@[j], t)) is Ok,
                forall|j: int| 0 <= j < i ==> (op_outcome(#[trigger] body@[j], t) matches Ok(Some(g)) ==> visited@.contains(g)),
        {
            match check_op(&body[i], idx) {
                Err(e) => {
                    proof {
                        assert(violation_at(module, t, fid, e));
                        assert(violates(module, t, fid));
                    }
                    return Err(e);
                },
                Ok(Some(callee)) => {
                    proof {
                        assert(body@[i as int] == BodyOp::Call(callee));
                        assert(module.bodies@[fid - nf]@[i as int] matches BodyOp::Call(g));
                        assert(calls_local(module, t, fid, callee));
                        lemma_reaches_step(module, t, start, fid, callee);
                    }
                    let ghost v0 = visited@;
                    if visited.insert(callee) {
                        let ghost wl0 = worklist@;
                        worklist.push_back(callee);
                        proof {
                            assert(!v0.contains(callee));
                            assert(!gv.contains(callee as int));
                            gv = gv.insert(callee as int);
                            assert forall|x: u32| #[trigger] visited@.contains(x) <==> gv.contains(x as int) by {
                                if x != callee {
                                    assert(visited@.contains(x) == v0.contains(x));
                                }
                            }
                            assert forall|j: int| 0 <= j < worklist@.len() implies visited@.contains(#[trigger] worklist@[j]) by {
                                if j < wl0.len() {
                                    assert(worklist@[j] == wl0[j]);
                                }
                            }
                            assert(!wl0.contains(callee)) by {
                                if wl0.contains(callee) {
                                    let j = choose|j: int| 0 <= j < wl0.len() && wl0[j] == callee;
                                    assert(v0.contains(wl0[j]));
                                }
                            }
                            assert(worklist@.no_duplicates()) by {
                                assert forall|a: int, b: int| 0 <= a < worklist@.len() && 0 <= b < worklist@.len() && a != b
                                    implies worklist@[a] != worklist@[b] by {
                                    if a < wl0.len() && b < wl0.len() {
                                        assert(worklist@[a] == wl0[a] && worklist@[b] == wl0[b]);
                                    } else if a < wl0.len() {
                                        assert(worklist@[a] == wl0[a]);
                                        assert(wl0.contains(wl0[a]));
                                    } else if b < wl0.len() {
                                        assert(worklist@[b] == wl0[b]);
                                        assert(wl0.contains(wl0[b]));
                                    }
                                }
                            }
                            assert forall|f: u32| worklist@.contains(f) <==> wl0.contains(f) || f == callee by {
                                if worklist@.contains(f) {
                                    let j = choose|j: int| 0 <= j < worklist@.len() && worklist@[j] == f;
                                    if j < wl0.len() {
                                        assert(wl0[j] == f);
                                    }
                                }
                                if wl0.contains(f) {
                                    let j = choose|j: int| 0 <= j < wl0.len() && wl0[j] == f;
                                    assert(worklist@[j] == f);
                                }
                                if f == callee {
                                    assert(worklist@[wl0.len() as int] == f);
                                }
                            }
                        }
                    }
                },
                Ok(None) => {},
            }
        }
        proof {
            assert(!violates(module, t, fid)) by {
                if exists|i: int| 0 <= i < body_of(module, t, fid).len() && (#[trigger] op_outcome(body_of(module, t, fid)[i], t)) is Err {
                    let i = choose|i: int| 0 <= i < body_of(module, t, fid).len() && (#[trigger] op_outcome(body_of(module, t, fid)[i], t)) is Err;
                    assert(op_outcome(body@[i], t) is Ok);
                }
            }
            assert forall|b: u32| #[trigger] calls_local(module, t, fid, b) implies visited@.contains(b) by {
                let i = choose|i: int| 0 <= i < body_of(module, t, fid).len()
                    && op_outcome(#[trigger] body_of(module, t, fid)[i], t) == Ok::<Option<u32>, StartError>(Some(b));
                assert(op_outcome(body@[i], t) matches Ok(Some(g)) ==> visited@.contains(g));
            }
            vstd::set_lib::lemma_int_range(0, total);
            assert(gv.subset_of(vstd::set_lib::set_int_range(0, total)));
            vstd::set_lib::lemma_len_subset(gv, vstd::set_lib::set_int_range(0, total));
        }
    }
    proof {
        assert forall|f: u32| #[trigger] reaches(module, t, start, f) implies !violates(module, t, f) by {
            assert forall|a: u32, b: u32| visited@.contains(a) && #[trigger] calls_local(module, t, a, b) implies visited@.contains(b) by {
                assert(!worklist@.contains(a));
            }
            lemma_closed_contains_reachable(module, t, start, visited@, f);
            assert(!worklist@.contains(f));
        }
    }
    Ok(())
}


/// The number of imported functions among the first `n` imports.
pub open spec fn func_import_count(imports: Seq<ModuleImport>, n: int) -> nat
    decreases n,
{
    if n <= 0 {
        0
    } else {
        func_import_count(imports, n - 1) + (if imports[n - 1].ty is Func { 1nat } else { 0nat })
    }
}

/// The scan counts the function imports.
pub proof fn lemma_true_view_nf(imports: Seq<ModuleImport>, kinds: Map<u32, ImportKind>, n: int)
    ensures
        true_view(imports, kinds, n).nf == func_import_count(imports, n),
    decreases n,
{
    if n > 0 {
        lemma_true_view_nf(imports, kinds, n - 1);
    }
}

/// The module has a start function.
pub open spec fn has_start(linking: &LinkingMetadata, k: u32) -> bool {
    linking.mm@[k].module.start is Some
}

/// The modules that have a start function.
pub open spec fn modules_with_start(linking: &LinkingMetadata) -> Set<u32> {
    linking.mm@.dom().filter(|k: u32| has_start(linking, k))
}

/// A module whose start function can be analysed: its imports are countable,
/// its calls lie in its function index space, and so does its start function.
pub open spec fn start_module_wf(m: &ModuleSummary) -> bool {
    let nf = func_import_count(m.imports@, m.imports@.len() as int);
    &&& m.imports@.len() < u32::MAX
    &&& calls_in_range(m, nf)
    &&& m.start matches Some(s) ==> s < nf + m.bodies@.len()
}

/// Pushing an element adds it to the set of elements.
pub proof fn lemma_push_to_set(s: Seq<u32>, x: u32)
    ensures
        s.push(x).to_set() == s.to_set().insert(x),
{
    assert forall|a: u32| s.push(x).to_set().contains(a) <==> s.to_set().insert(x).contains(a) by {
        if s.push(x).contains(a) {
            let j = choose|j: int| 0 <= j < s.push(x).len() && s.push(x)[j] == a;
            if j < s.len() {
                assert(s[j] == a);
                assert(s.contains(a));
            }
        }
        if s.contains(a) {
            let j = choose|j: int| 0 <= j < s.len() && s[j] == a;
            assert(s.push(x)[j] == a);
        }
        if a == x {
            assert(s.push(x)[s.len() as int] == a);
        }
    }
    assert(s.push(x).to_set() =~= s.to_set().insert(x));
}

/// The number of function imports of a module.
fn count_func_imports(imports: &Vec<ModuleImport>) -> (r: u64)
    ensures
        r == func_import_count(imports@, imports@.len() as int),
        r <= imports@.len(),
{
    let mut n: u64 = 0;
    for i in 0..imports.len()
        invariant
            n == func_import_count(imports@, i as int),
            n <= i,
    {
        if let ImportType::Func(_) = imports[i].ty {
            n = n + 1;
        }
    }
    n
}

/// Whether a module's start function can be analysed (see `start_module_wf`).
pub fn start_module_checkable(m: &ModuleSummary) -> (r: bool)
    ensures
        r == start_module_wf(m),
{
    if m.imports.len() as u64 >= u32::MAX as u64 {
        return false;
    }
    let nf = count_func_imports(&m.imports);
    if m.bodies.len() as u64 > u32::MAX as u64 {
        return false;
    }
    let nb = m.bodies.len() as u64;
    if nf + nb > u32::MAX as u64 {
        return false;
    }
    let limit = nf + nb;
    for f in 0..m.bodies.len()
        invariant
            limit == func_import_count(m.imports@, m.imports@.len() as int) + m.bodies@.len(),
            limit <= u32::MAX,
            forall|g: int, i: int| 0 <= g < f && 0 <= i < m.bodies@[g]@.len() ==>
                (#[trigger] m.bodies@[g]@[i] matches BodyOp::Call(c) ==> c < limit),
    {
        let body = &m.bodies[f];
        for i in 0..body.len()
            invariant
                f < m.bodies@.len(),
                *body == m.bodies@[f as int],
                limit == func_import_count(m.imports@, m.imports@.len() as int) + m.bodies@.len(),
                limit <= u32::MAX,
                forall|g: int, j: int| 0 <= g < f && 0 <= j < m.bodies@[g]@.len() ==>
                    (#[trigger] m.bodies@[g]@[j] matches BodyOp::Call(c) ==> c < limit),
                forall|j: int| 0 <= j < i ==> (#[trigger] body@[j] matches BodyOp::Call(c) ==> c < limit),
        {
            if let BodyOp::Call(c) = body[i] {
                if c as u64 >= limit {
                    proof {
                        assert(m.bodies@[f as int]@[i as int] == body@[i as int]);
                    }
                    return false;
                }
            }
        }
        proof {
            assert forall|g: int, j: int| 0 <= g < f + 1 && 0 <= j < m.bodies@[g]@.len() implies
                (#[trigger] m.bodies@[g]@[j] matches BodyOp::Call(c) ==> c < limit) by {
                if g == f {
                    assert(m.bodies@[g]@[j] == body@[j]);
                }
            }
        }
    }
    match m.start {
        Some(s) => (s as u64) < limit,
        None => true,
    }
}

/// Checks what `validate_start_functions` needs: every module with a start
/// function can be analysed and has an instance.
pub fn start_functions_checkable(linking: &LinkingMetadata) -> (r: bool)
    ensures
        r == (forall|k: u32| #[trigger] modules_with_start(linking).contains(k) ==> {
            &&& start_module_wf(&linking.mm@[k].module)
            &&& exists|i: u32| #[trigger] linking.instance_map@.contains_key(i) && linking.instance_map@[i] == ModuleID(k)
        }),
{
    broadcast use vstd::std_specs::hash::group_hash_axioms;
    let with_start = collect_modules_with_start(linking);
    let insts = map_keys(&linking.instance_map);
    for j in 0..with_start.len()
        invariant
            with_start@.to_set() == modules_with_start(linking),
            insts@.to_set() == linking.instance_map@.dom(),
            forall|q: int| 0 <= q < j ==> {
                let k = #[trigger] with_start@[q];
                &&& start_module_wf(&linking.mm@[k].module)
                &&& exists|i: u32| #[trigger] linking.instance_map@.contains_key(i) && linking.instance_map@[i] == ModuleID(k)
            },
    {
        let k = with_start[j];
        assert(with_start@.to_set().contains(k));
        assert(modules_with_start(linking).contains(k));
        let md = linking.mm.get(&k).unwrap();
        if !start_module_checkable(&md.module) {
            return false;
        }
        let mut found = false;
        for q in 0..insts.len()
            invariant
                insts@.to_set() == linking.instance_map@.dom(),
                found ==> exists|i: u32| #[trigger] linking.instance_map@.contains_key(i) && linking.instance_map@[i] == ModuleID(k),
                !found ==> forall|p: int| 0 <= p < q ==> linking.instance_map@[#[trigger] insts@[p]] != ModuleID(k),
        {
            let i = insts[q];
            assert(insts@.to_set().contains(i));
            let mid = linking.instance_map.get(&i).unwrap();
            if mid.0 == k {
                found = true;
            }
        }
        if !found {
            proof {
                assert forall|i: u32| #[trigger] linking.instance_map@.contains_key(i) implies linking.instance_map@[i] != ModuleID(k) by {
                    assert(insts@.to_set().contains(i));
                    let p = choose|p: int| 0 <= p < insts@.len() && insts@[p] == i;
                }
            }
            return false;
        }
    }
    proof {
        assert forall|k: u32| #[trigger] modules_with_start(linking).contains(k) implies {
            &&& start_module_wf(&linking.mm@[k].module)
            &&& exists|i: u32| #[trigger] linking.instance_map@.contains_key(i) && linking.instance_map@[i] == ModuleID(k)
        } by {
            assert(with_start@.to_set().contains(k));
            let q = choose|q: int| 0 <= q < with_start@.len() && with_start@[q] == k;
        }
    }
    true
}

/// The modules of a component that have a start function.
pub fn collect_modules_with_start(linking: &LinkingMetadata) -> (r: Vec<u32>)
    ensures
        r@.no_duplicates(),
        r@.to_set() == modules_with_start(linking),
{
    let keys = map_keys(&linking.mm);
    let mut r: Vec<u32> = Vec::new();
    let n = keys.len();
    for i in 0..n
        invariant
            n == keys@.len(),
            keys@.no_duplicates(),
            keys@.to_set() == linking.mm@.dom(),
            r@.no_duplicates(),
            r@.to_set() == keys@.take(i as int).to_set().filter(|k: u32| has_start(linking, k)),
    {
        let k = keys[i];
        assert(keys@.to_set().contains(k));
        let ghost r0 = r@;
        proof {
            assert(keys@.take(i + 1) =~= keys@.take(i as int).push(k));
            lemma_push_to_set(keys@.take(i as int), k);
        }
        if linking.mm.get(&k).unwrap().module.start.is_some() {
            r.push(k);
            proof {
                assert(!r0.contains(k)) by {
                    if r0.contains(k) {
                        assert(r0.to_set().contains(k));
                        assert(keys@.take(i as int).to_set().contains(k));
                        let j = choose|j: int| 0 <= j < i && keys@.take(i as int)[j] == k;
                        assert(keys@[j] == keys@[i as int]);
                    }
                }
                lemma_push_to_set(r0, k);
                assert(r@.no_duplicates()) by {
                    assert forall|a: int, b: int| 0 <= a < r@.len() && 0 <= b < r@.len() && a != b implies r@[a] != r@[b] by {
                        if a < r0.len() && b < r0.len() {
                        } else if a < r0.len() {
                            assert(r0.contains(r0[a]));
                        } else if b < r0.len() {
                            assert(r0.contains(r0[b]));
                        }
                    }
                }
            }
        }
        proof {
            assert(r@.to_set() =~= keys@.take(i + 1).to_set().filter(|k: u32| has_start(linking, k)));
        }
    }
    assert(keys@.take(n as int) =~= keys@);
    r
}

/// Validates the start functions of a component's modules: at most one
/// module may have a start function, and nothing that it reaches by direct
/// calls may touch true-imported state.
///
/// The module's import resolution is that of one of its instances; which
/// one, where it is instantiated more than once, depends on the iteration
/// order of the instance map.
pub fn validate_start_functions(linking: &LinkingMetadata) -> (r: Result<(), StartError>)
    requires
        forall|k: u32| #[trigger] modules_with_start(linking).contains(k) ==> {
            &&& start_module_wf(&linking.mm@[k].module)
            &&& exists|i: u32| #[trigger] linking.instance_map@.contains_key(i) && linking.instance_map@[i] == ModuleID(k)
        },
    ensures
        modules_with_start(linking).len() == 0 ==> r is Ok,
        modules_with_start(linking).len() > 1 ==> r == Err::<(), StartError>(StartError::MultipleStarts(modules_with_start(linking).len() as usize)),
        modules_with_start(linking).len() == 1 ==> exists|k: u32, i: u32| {
            &&& #[trigger] modules_with_start(linking).contains(k)
            &&& #[trigger] linking.instance_map@.contains_key(i)
            &&& linking.instance_map@[i] == ModuleID(k)
            &&& !linking.instantiations@.contains_key(i) ==> r == Err::<(), StartError>(StartError::MissingInstantiation)
            &&& linking.instantiations@.contains_key(i) ==> {
                let m = linking.mm@[k].module;
                let t = true_view(m.imports@, linking.instantiations@[i].imports@, m.imports@.len() as int);
                &&& r is Ok <==> start_safe(&m, t, m.start->0)
                &&& r matches Err(e) ==> exists|f: u32| reaches(&m, t, m.start->0, f) && violation_at(&m, t, f, e)
            }
        },
{
    let with_start = collect_modules_with_start(linking);
    proof { with_start@.unique_seq_to_set(); }
    if with_start.len() == 0 {
        return Ok(());
    }
    if with_start.len() > 1 {
        return Err(StartError::MultipleStarts(with_start.len()));
    }
    let module_id = with_start[0];
    assert(with_start@.to_set().contains(module_id));
    let module = &linking.mm.get(&module_id).unwrap().module;
    let start = match module.start {
        Some(s) => s,
        None => 0,
    };
    assert(modules_with_start(linking).contains(module_id));
    let instance_id = assumed_instance_id(&linking.instance_map, ModuleID(module_id));
    assert(linking.instance_map@.contains_key(instance_id.0));
    let inst_meta = match linking.instantiations.get(&instance_id.0) {
        Some(x) => x,
        None => {
            return Err(StartError::MissingInstantiation);
        },
    };
    let true_imports = TrueImportIndices::build(module, &inst_meta.imports);
    proof {
        lemma_true_view_nf(module.imports@, inst_meta.imports@, module.imports@.len() as int);
    }
    let r = validate_start_in(module, &true_imports, start);
    assert(module.start->0 == start);
    r
}

} // verus!
