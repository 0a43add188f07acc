//! Construction of the synthetic glue module that connects the decomposed
//! modules of a component with the replay driver.
//!
//! The glue module exports a replay stub for every replayed import of the
//! decomposed modules, and a dispatch interface that the driver calls to
//! run reallocs, memory writes, exported core functions and post-returns of
//! the component.
use vstd::prelude::*;

use crate::ids::ModuleInstanceID;
use crate::linking::{BuiltinOptions, Checksum, ExportFuncMetadata, ImportAdapterCrimpData, LinkingMetadata, ModuleInstanceExport, TypeDef};
use crate::names::{module_name_from_ids, module_name_spec};
use crate::names::{DRIVER_MODULE_NAME, GLUE_MODULE_NAME};
use crate::wasm::{WasmModule, FuncType, FuncImport, MemoryImport, 
    all_scalar, byte_size, is_scalar, prefix_bytes, total_bytes, lemma_prefix_bytes_bounds, BlockType, DataType,
    FuncBody, FuncRef, Instr,
};

verus! {

// ====================================
// ==== Code generation helpers ====
// ====================================

/// Byte size of a scalar Wasm value type.
pub fn data_type_byte_size(ty: DataType) -> (r: u32)
    requires
        is_scalar(ty),
    ensures
        r == byte_size(ty),
{
    match ty {
        DataType::I32 | DataType::F32 => 4,
        _ => 8,
    }
}

/// `local.get` of each local in order.
pub open spec fn local_gets(locals: Seq<u32>) -> Seq<Instr> {
    Seq::new(locals.len(), |i: int| Instr::LocalGet(locals[i]))
}

/// Stores of the values held in locals `vals` at consecutive offsets from the
/// pointer held in local `base`: for each value, `local.get base`,
/// `local.get val`, and a typed store at the sum of the sizes before it.
pub open spec fn store_vals_instrs(tys: Seq<DataType>, vals: Seq<u32>, base: u32, memory: u32, n: int) -> Seq<Instr>
    decreases n,
{
    if n <= 0 {
        Seq::empty()
    } else {
        store_vals_instrs(tys, vals, base, memory, n - 1) + seq![
            Instr::LocalGet(base),
            Instr::LocalGet(vals[n - 1]),
            Instr::Store { ty: tys[n - 1], offset: prefix_bytes(tys, n - 1) as u64, memory },
        ]
    }
}

/// Loads of consecutive values of types `tys` from the pointer held in local
/// `base`: for each value, `local.get base` and a typed load at the sum of
/// the sizes before it.
pub open spec fn load_vals_instrs(tys: Seq<DataType>, base: u32, memory: u32, n: int) -> Seq<Instr>
    decreases n,
{
    if n <= 0 {
        Seq::empty()
    } else {
        load_vals_instrs(tys, base, memory, n - 1) + seq![
            Instr::LocalGet(base),
            Instr::Load { ty: tys[n - 1], offset: prefix_bytes(tys, n - 1) as u64, memory },
        ]
    }
}

/// One-byte size descriptors of `tys`, stored at consecutive offsets from the
/// pointer held in local `sizes_ptr`.
pub open spec fn size_desc_instrs(tys: Seq<DataType>, sizes_ptr: u32, memory: u32, n: int) -> Seq<Instr>
    decreases n,
{
    if n <= 0 {
        Seq::empty()
    } else {
        size_desc_instrs(tys, sizes_ptr, memory, n - 1) + seq![
            Instr::LocalGet(sizes_ptr),
            Instr::I32Const(byte_size(tys[n - 1]) as i32),
            Instr::I32Store8 { offset: (n - 1) as u64, memory },
        ]
    }
}

/// The allocation of an FFI buffer of `total` bytes and `count` values
/// through the driver, keeping the returned descriptor, its byte pointer
/// (offset 0) and its sizes pointer (offset 4) in three locals.
pub open spec fn alloc_ffi_instrs(total: u32, count: u32, alloc: FuncRef, memory: u32, ffi: u32) -> Seq<Instr> {
    seq![
        Instr::I32Const(total as i32),
        Instr::I32Const(count as i32),
        Instr::Call(alloc),
        Instr::LocalSet(ffi),
        Instr::LocalGet(ffi),
        Instr::Load { ty: DataType::I32, offset: 0, memory },
        Instr::LocalSet((ffi + 1) as u32),
        Instr::LocalGet(ffi),
        Instr::Load { ty: DataType::I32, offset: 4, memory },
        Instr::LocalSet((ffi + 2) as u32),
    ]
}

/// Dispatch on a direction flag held in a local: a non-zero direction calls
/// indirectly through the export table, zero through the import table, with
/// the argument locals followed by the index local.
pub open spec fn direction_dispatch_instrs(
    direction: u32,
    index: u32,
    args: Seq<u32>,
    call_type: u32,
    import_table: u32,
    export_table: u32,
    block: BlockType,
) -> Seq<Instr> {
    seq![Instr::LocalGet(direction), Instr::If(block)]
        + local_gets(args)
        + seq![Instr::LocalGet(index), Instr::CallIndirect { type_index: call_type, table: export_table }, Instr::Else]
        + local_gets(args)
        + seq![Instr::LocalGet(index), Instr::CallIndirect { type_index: call_type, table: import_table }, Instr::End]
}

/// The body, locals and signature of `fb` are unchanged, except that
/// `added` was appended to the body.
pub open spec fn emitted(old_fb: &FuncBody, new_fb: &FuncBody, added: Seq<Instr>) -> bool {
    &&& new_fb.instrs@ == old_fb.instrs@ + added
    &&& new_fb.locals@ == old_fb.locals@
    &&& new_fb.params@ == old_fb.params@
    &&& new_fb.results@ == old_fb.results@
    &&& new_fb.name@ == old_fb.name@
}

/// Emits a typed load at `offset` (the base pointer is already on the stack)
/// and returns the offset just past the loaded value.
pub fn emit_typed_load(fb: &mut FuncBody, ty: DataType, memory: u32, offset: u64) -> (next: u64)
    requires
        is_scalar(ty),
        offset + 8 <= u64::MAX,
    ensures
        emitted(old(fb), final(fb), seq![Instr::Load { ty, offset, memory }]),
        next == offset + byte_size(ty),
{
    let size = data_type_byte_size(ty);
    fb.emit(Instr::Load { ty, offset, memory });
    assert(fb.instrs@ =~= old(fb).instrs@ + seq![Instr::Load { ty, offset, memory }]);
    offset + size as u64
}

/// Emits a typed store at `offset` (the base pointer and the value are
/// already on the stack) and returns the offset just past the stored value.
pub fn emit_typed_store(fb: &mut FuncBody, ty: DataType, memory: u32, offset: u64) -> (next: u64)
    requires
        is_scalar(ty),
        offset + 8 <= u64::MAX,
    ensures
        emitted(old(fb), final(fb), seq![Instr::Store { ty, offset, memory }]),
        next == offset + byte_size(ty),
{
    let size = data_type_byte_size(ty);
    fb.emit(Instr::Store { ty, offset, memory });
    assert(fb.instrs@ =~= old(fb).instrs@ + seq![Instr::Store { ty, offset, memory }]);
    offset + size as u64
}

/// Emits stores of one-byte size descriptors for each type into `sizes_ptr`.
pub fn emit_store_size_descriptors(fb: &mut FuncBody, types: &Vec<DataType>, sizes_ptr: u32, memory: u32)
    requires
        all_scalar(types@),
    ensures
        emitted(old(fb), final(fb), size_desc_instrs(types@, sizes_ptr, memory, types@.len() as int)),
{
    let n = types.len();
    for i in 0..n
        invariant
            n == types@.len(),
            all_scalar(types@),
            emitted(old(fb), fb, size_desc_instrs(types@, sizes_ptr, memory, i as int)),
    {
        let size = data_type_byte_size(types[i]);
        fb.emit(Instr::LocalGet(sizes_ptr));
        fb.emit(Instr::I32Const(size as i32));
        fb.emit(Instr::I32Store8 { offset: i as u64, memory });
        assert(fb.instrs@ =~= old(fb).instrs@ + size_desc_instrs(types@, sizes_ptr, memory, i + 1));
    }
}

/// Emits the loads of consecutive values of types `tys` from the pointer held
/// in local `base` and returns the offset past the last one.
pub fn emit_load_values(fb: &mut FuncBody, tys: &Vec<DataType>, base: u32, memory: u32) -> (end: u64)
    requires
        all_scalar(tys@),
        tys@.len() <= 0x1000_0000,
    ensures
        emitted(old(fb), final(fb), load_vals_instrs(tys@, base, memory, tys@.len() as int)),
        end == total_bytes(tys@),
{
    let n = tys.len();
    let mut offset: u64 = 0;
    for i in 0..n
        invariant
            n == tys@.len(),
            n <= 0x1000_0000,
            all_scalar(tys@),
            offset == prefix_bytes(tys@, i as int),
            emitted(old(fb), fb, load_vals_instrs(tys@, base, memory, i as int)),
    {
        proof { lemma_prefix_bytes_bounds(tys@, i as int); }
        fb.emit(Instr::LocalGet(base));
        offset = emit_typed_load(fb, tys[i], memory, offset);
        assert(fb.instrs@ =~= old(fb).instrs@ + load_vals_instrs(tys@, base, memory, i + 1));
    }
    offset
}

/// Emits the stores of the values held in locals `vals` (of types `tys`) at
/// consecutive offsets from the pointer held in local `base`.
pub fn emit_store_values(fb: &mut FuncBody, tys: &Vec<DataType>, vals: &Vec<u32>, base: u32, memory: u32) -> (end: u64)
    requires
        all_scalar(tys@),
        tys@.len() <= 0x1000_0000,
        vals@.len() == tys@.len(),
    ensures
        emitted(old(fb), final(fb), store_vals_instrs(tys@, vals@, base, memory, tys@.len() as int)),
        end == total_bytes(tys@),
{
    let n = tys.len();
    let mut offset: u64 = 0;
    for i in 0..n
        invariant
            n == tys@.len(),
            n <= 0x1000_0000,
            vals@.len() == n,
            all_scalar(tys@),
            offset == prefix_bytes(tys@, i as int),
            emitted(old(fb), fb, store_vals_instrs(tys@, vals@, base, memory, i as int)),
    {
        proof { lemma_prefix_bytes_bounds(tys@, i as int); }
        fb.emit(Instr::LocalGet(base));
        fb.emit(Instr::LocalGet(vals[i]));
        offset = emit_typed_store(fb, tys[i], memory, offset);
        assert(fb.instrs@ =~= old(fb).instrs@ + store_vals_instrs(tys@, vals@, base, memory, i + 1));
    }
    offset
}

/// Emits the allocation of an FFI buffer through `allocate_fn` and returns
/// the three new locals `(ffi_ptr, bytes_ptr, sizes_ptr)`.
pub fn emit_alloc_ffi_buffer(
    fb: &mut FuncBody,
    total_bytes: u32,
    count: u32,
    allocate_fn: FuncRef,
    driver_mem: u32,
) -> (r: (u32, u32, u32))
    requires
        old(fb).params@.len() + old(fb).locals@.len() + 3 < u32::MAX,
    ensures
        r.0 == old(fb).params@.len() + old(fb).locals@.len(),
        r.1 == r.0 + 1,
        r.2 == r.0 + 2,
        final(fb).locals@ == old(fb).locals@ + seq![DataType::I32, DataType::I32, DataType::I32],
        final(fb).instrs@ == old(fb).instrs@ + alloc_ffi_instrs(total_bytes, count, allocate_fn, driver_mem, r.0),
        final(fb).params@ == old(fb).params@,
        final(fb).results@ == old(fb).results@,
        final(fb).name@ == old(fb).name@,
{
    let ffi_ptr = fb.add_local(DataType::I32);
    let bytes_ptr = fb.add_local(DataType::I32);
    let sizes_ptr = fb.add_local(DataType::I32);
    fb.emit(Instr::I32Const(total_bytes as i32));
    fb.emit(Instr::I32Const(count as i32));
    fb.emit(Instr::Call(allocate_fn));
    fb.emit(Instr::LocalSet(ffi_ptr));
    fb.emit(Instr::LocalGet(ffi_ptr));
    fb.emit(Instr::Load { ty: DataType::I32, offset: 0, memory: driver_mem });
    fb.emit(Instr::LocalSet(bytes_ptr));
    fb.emit(Instr::LocalGet(ffi_ptr));
    fb.emit(Instr::Load { ty: DataType::I32, offset: 4, memory: driver_mem });
    fb.emit(Instr::LocalSet(sizes_ptr));
    (ffi_ptr, bytes_ptr, sizes_ptr)
}

fn emit_local_gets(fb: &mut FuncBody, locals: &Vec<u32>)
    ensures
        emitted(old(fb), final(fb), local_gets(locals@)),
{
    let n = locals.len();
    for i in 0..n
        invariant
            n == locals@.len(),
            emitted(old(fb), fb, local_gets(locals@.take(i as int))),
    {
        fb.emit(Instr::LocalGet(locals[i]));
        assert(local_gets(locals@.take(i + 1)) =~= local_gets(locals@.take(i as int)).push(Instr::LocalGet(locals@[i as int])));
    }
    assert(locals@.take(n as int) =~= locals@);
}

/// Emits a dispatch on the `direction` local: non-zero calls through the
/// export table and zero through the import table, passing `args` and then
/// `index` to `call_indirect` of type `call_type`.
pub fn emit_direction_dispatch(
    fb: &mut FuncBody,
    direction: u32,
    index: u32,
    args: &Vec<u32>,
    call_type: u32,
    import_table_idx: u32,
    export_table_idx: u32,
    result_block_type: BlockType,
)
    ensures
        emitted(old(fb), final(fb), direction_dispatch_instrs(direction, index, args@, call_type, import_table_idx, export_table_idx, result_block_type)),
{
    fb.emit(Instr::LocalGet(direction));
    fb.emit(Instr::If(result_block_type));
    emit_local_gets(fb, args);
    fb.emit(Instr::LocalGet(index));
    fb.emit(Instr::CallIndirect { type_index: call_type, table: export_table_idx });
    fb.emit(Instr::Else);
    emit_local_gets(fb, args);
    fb.emit(Instr::LocalGet(index));
    fb.emit(Instr::CallIndirect { type_index: call_type, table: import_table_idx });
    fb.emit(Instr::End);
    assert(fb.instrs@ =~= old(fb).instrs@ + direction_dispatch_instrs(direction, index, args@, call_type, import_table_idx, export_table_idx, result_block_type));
}

// ====================================
// ==== Builder state ====
// ====================================

/// A component function imported into the glue module, cached by
/// (instance, export name).
pub struct ImportedFunc {
    pub mid: ModuleInstanceID,
    pub name: String,
    pub func: FuncRef,
    pub type_index: u32,
}

/// A component memory imported into the glue module, cached by
/// (instance, export name).
pub struct ImportedMemory {
    pub mid: ModuleInstanceID,
    pub name: String,
    pub memory: u32,
}

/// A bound on the sizes of everything a builder accumulates, so that every
/// index fits in 32 bits. It is 2^28: `finish` adds at most twice the load
/// plus a constant (`room_to_finish` asks for three times the load), and a
/// signature of up to 2^28 values of at most 8 bytes each has a byte size
/// below 2^31, which the glue code handles as a non-negative `i32`.
/// WebAssembly engines limit a module to far fewer functions, imports,
/// exports and parameters (wasmparser allows 1,000,000 functions and 1,000
/// parameters), so no module that an engine accepts reaches it.
pub const GLUE_CAPACITY: u64 = 0x1000_0000;

/// The sum of a sequence of numbers.
pub open spec fn sum_u64(s: Seq<u64>) -> int
    decreases s.len(),
{
    if s.len() == 0 { 0 } else { sum_u64(s.drop_last()) + s.last() }
}

/// A sum over a longer prefix is no smaller.
proof fn lemma_sum_take_monotone(s: Seq<u64>, i: int, j: int)
    requires
        0 <= i <= j <= s.len(),
    ensures
        sum_u64(s.take(i)) <= sum_u64(s.take(j)),
    decreases j - i,
{
    if i < j {
        lemma_sum_take_monotone(s, i, j - 1);
        assert(s.take(j).drop_last() == s.take(j - 1));
    }
}

/// The sum of sixteen numbers, written out.
proof fn lemma_sum16(s: Seq<u64>)
    requires
        s.len() == 16,
    ensures
        sum_u64(s) == s[0] + s[1] + s[2] + s[3] + s[4] + s[5] + s[6] + s[7] + s[8] + s[9]
            + s[10] + s[11] + s[12] + s[13] + s[14] + s[15],
{
    reveal_with_fuel(sum_u64, 17);
    assert(s.drop_last().drop_last().drop_last().drop_last().drop_last().drop_last().drop_last().drop_last().drop_last().drop_last().drop_last().drop_last().drop_last().drop_last().drop_last().drop_last().len() == 0);
}

/// Options of glue generation: the trace file the replay driver embeds.
pub struct GlueArgs {
    pub trace_path: Option<String>,
}

/// Builder for the synthetic glue module.
///
/// The glue module bridges decomposed component modules with the replay driver:
/// it exports a stub for every replayed import, and a dispatch interface
/// (checksum, realloc, memory write, core function, post-return) for the driver.
pub struct GlueBuilder {
    pub module: WasmModule,
    pub checksum: Checksum,
    /// The driver's memory in the glue module.
    pub driver_memory: u32,
    /// Functions imported from the driver.
    pub replay_host_call: FuncRef,
    pub replay_builtin_call: FuncRef,
    pub replay_instruction: FuncRef,
    pub init_replayer: FuncRef,
    pub allocate_args_results_buffer: FuncRef,
    /// Deduplication caches of component imports.
    pub imported_memories: Vec<ImportedMemory>,
    pub imported_funcs: Vec<ImportedFunc>,
    /// The next replayed-import index, unique across all modules.
    pub next_import_id: u32,
    /// Dispatch entries: (import id or record id, target).
    pub realloc_import_dispatch: Vec<(u32, FuncRef)>,
    pub realloc_export_dispatch: Vec<(u32, FuncRef)>,
    pub memwrite_import_dispatch: Vec<(u32, u32)>,
    pub memwrite_export_dispatch: Vec<(u32, u32)>,
    /// (record id, function, type in the glue module); exports only.
    pub core_func_dispatch: Vec<(u32, FuncRef, u32)>,
    pub post_return_dispatch: Vec<(u32, FuncRef, u32)>,
}

/// Some entry of a per-export dispatch list has record index `rid`.
pub open spec fn has_record(entries: Seq<(u32, FuncRef, u32)>, rid: u32) -> bool {
    exists|j: int| 0 <= j < entries.len() && (#[trigger] entries[j]).0 == rid
}

/// The key (instance, name) is cached at position `i`.
pub open spec fn func_cached_at(c: Seq<ImportedFunc>, mid: ModuleInstanceID, name: Seq<char>, i: int) -> bool {
    0 <= i < c.len() && c[i].mid == mid && c[i].name@ == name
}

/// The key (instance, name) is cached at position `i`.
pub open spec fn memory_cached_at(c: Seq<ImportedMemory>, mid: ModuleInstanceID, name: Seq<char>, i: int) -> bool {
    0 <= i < c.len() && c[i].mid == mid && c[i].name@ == name
}

/// The import-related state of a glue builder: function types, imported
/// functions (module, name, type), imported memories (module, name), and the
/// caches of component imports keyed by (instance, export name).
pub struct ImportState {
    pub types: Seq<(Seq<DataType>, Seq<DataType>)>,
    pub funcs: Seq<(Seq<char>, Seq<char>, u32)>,
    pub memories: Seq<(Seq<char>, Seq<char>)>,
    pub func_cache: Seq<(ModuleInstanceID, Seq<char>, FuncRef, u32)>,
    pub memory_cache: Seq<(ModuleInstanceID, Seq<char>, u32)>,
}

/// Importing the function `name` of instance `mid` (under module name
/// `module`, with the given signature): a cached import is returned as it is;
/// otherwise a type and a function import are appended and cached.
pub open spec fn import_func_spec(
    s: ImportState,
    mid: ModuleInstanceID,
    name: Seq<char>,
    module: Seq<char>,
    params: Seq<DataType>,
    results: Seq<DataType>,
) -> (ImportState, (FuncRef, u32)) {
    if exists|i: int| 0 <= i < s.func_cache.len() && s.func_cache[i].0 == mid && s.func_cache[i].1 == name {
        let i = choose|i: int| 0 <= i < s.func_cache.len() && s.func_cache[i].0 == mid && s.func_cache[i].1 == name;
        (s, (s.func_cache[i].2, s.func_cache[i].3))
    } else {
        let t = s.types.len() as u32;
        let f = FuncRef::Import(s.funcs.len() as u32);
        (
            ImportState {
                types: s.types.push((params, results)),
                funcs: s.funcs.push((module, name, t)),
                func_cache: s.func_cache.push((mid, name, f, t)),
                ..s
            },
            (f, t),
        )
    }
}

/// Importing the memory `name` of instance `mid` (under module name
/// `module`): a cached import is returned as it is; otherwise a memory import
/// is appended and cached.
pub open spec fn import_memory_spec(s: ImportState, mid: ModuleInstanceID, name: Seq<char>, module: Seq<char>) -> (ImportState, u32) {
    if exists|i: int| 0 <= i < s.memory_cache.len() && s.memory_cache[i].0 == mid && s.memory_cache[i].1 == name {
        let i = choose|i: int| 0 <= i < s.memory_cache.len() && s.memory_cache[i].0 == mid && s.memory_cache[i].1 == name;
        (s, s.memory_cache[i].2)
    } else {
        let m = s.memories.len() as u32;
        (
            ImportState {
                memories: s.memories.push((module, name)),
                memory_cache: s.memory_cache.push((mid, name, m)),
                ..s
            },
            m,
        )
    }
}

/// The next replayed-import index after stubs whose host-destructor flags are
/// `dtors`, starting from `n0`: each stub takes one index, and one more for
/// the host destructor of a resource drop.
pub open spec fn stubs_next_id(n0: int, dtors: Seq<bool>) -> int
    decreases dtors.len(),
{
    if dtors.len() == 0 {
        n0
    } else {
        stubs_next_id(n0, dtors.drop_last()) + 1 + (if dtors.last() { 1int } else { 0int })
    }
}

/// Index `x` is one of those that stub `j` takes, for some stub.
pub open spec fn stub_takes(n0: int, dtors: Seq<bool>, x: int) -> bool {
    exists|j: int| 0 <= j < dtors.len()
        && stubs_next_id(n0, dtors.take(j)) <= x < #[trigger] stubs_next_id(n0, dtors.take(j + 1))
}

/// The replayed-import indices of successive stubs on one builder are apart
/// and leave no gap: stub `j` takes the indices from
/// `stubs_next_id(n0, dtors.take(j))` up to the next stub's, and together
/// they take exactly the indices from `n0` up to the builder's next index.
pub proof fn lemma_stub_ids_partition(n0: int, dtors: Seq<bool>)
    ensures
        forall|i: int, j: int| 0 <= i < j <= dtors.len() ==>
            #[trigger] stubs_next_id(n0, dtors.take(i)) < #[trigger] stubs_next_id(n0, dtors.take(j)),
        forall|x: int| n0 <= x < stubs_next_id(n0, dtors) ==> #[trigger] stub_takes(n0, dtors, x),
    decreases dtors.len(),
{
    assert(dtors.take(dtors.len() as int) == dtors);
    if dtors.len() > 0 {
        let d = dtors.drop_last();
        lemma_stub_ids_partition(n0, d);
        assert forall|j: int| 0 <= j <= d.len() implies #[trigger] dtors.take(j) == d.take(j) by {}
        assert(dtors.take(dtors.len() as int).drop_last() == d);
        assert forall|i: int, j: int| 0 <= i < j <= dtors.len() implies
            #[trigger] stubs_next_id(n0, dtors.take(i)) < #[trigger] stubs_next_id(n0, dtors.take(j)) by {
            assert(dtors.take(i) == d.take(i));
            if j < dtors.len() {
                assert(dtors.take(j) == d.take(j));
            } else {
                assert(d.take(d.len() as int) == d);
                if i < d.len() {
                    assert(stubs_next_id(n0, d.take(i)) < stubs_next_id(n0, d.take(d.len() as int)));
                }
            }
        }
        assert forall|x: int| n0 <= x < stubs_next_id(n0, dtors) implies #[trigger] stub_takes(n0, dtors, x) by {
            assert(d.take(d.len() as int) == d);
            if x < stubs_next_id(n0, d) {
                assert(stub_takes(n0, d, x));
                let j = choose|j: int| 0 <= j < d.len()
                    && stubs_next_id(n0, d.take(j)) <= x < #[trigger] stubs_next_id(n0, d.take(j + 1));
                assert(dtors.take(j) == d.take(j));
                assert(dtors.take(j + 1) == d.take(j + 1));
            } else {
                let j = d.len() as int;
                assert(dtors.take(j) == d);
                assert(dtors.take(j + 1) == dtors);
            }
        }
    }
}

/// Importing the same component function twice gives the same import, and
/// the second time changes nothing: one import per (instance, name), with
/// the signature of the first request.
pub proof fn lemma_func_import_idempotent(
    s: ImportState,
    mid: ModuleInstanceID,
    name: Seq<char>,
    m1: Seq<char>,
    p1: Seq<DataType>,
    q1: Seq<DataType>,
    m2: Seq<char>,
    p2: Seq<DataType>,
    q2: Seq<DataType>,
)
    ensures
        ({
            let (s1, r1) = import_func_spec(s, mid, name, m1, p1, q1);
            let (s2, r2) = import_func_spec(s1, mid, name, m2, p2, q2);
            s2 == s1 && r2 == r1
        }),
{
    let (s1, r1) = import_func_spec(s, mid, name, m1, p1, q1);
    if !(exists|i: int| 0 <= i < s.func_cache.len() && s.func_cache[i].0 == mid && s.func_cache[i].1 == name) {
        let n = s.func_cache.len() as int;
        assert(s1.func_cache[n].0 == mid && s1.func_cache[n].1 == name);
        let i = choose|i: int| 0 <= i < s1.func_cache.len() && s1.func_cache[i].0 == mid && s1.func_cache[i].1 == name;
        if i < n {
            assert(s.func_cache[i] == s1.func_cache[i]);
        }
    }
}

/// Importing the same component memory twice gives the same import, and the
/// second time changes nothing.
pub proof fn lemma_memory_import_idempotent(s: ImportState, mid: ModuleInstanceID, name: Seq<char>, m1: Seq<char>, m2: Seq<char>)
    ensures
        ({
            let (s1, r1) = import_memory_spec(s, mid, name, m1);
            let (s2, r2) = import_memory_spec(s1, mid, name, m2);
            s2 == s1 && r2 == r1
        }),
{
    let (s1, r1) = import_memory_spec(s, mid, name, m1);
    if !(exists|i: int| 0 <= i < s.memory_cache.len() && s.memory_cache[i].0 == mid && s.memory_cache[i].1 == name) {
        let n = s.memory_cache.len() as int;
        assert(s1.memory_cache[n].0 == mid && s1.memory_cache[n].1 == name);
        let i = choose|i: int| 0 <= i < s1.memory_cache.len() && s1.memory_cache[i].0 == mid && s1.memory_cache[i].1 == name;
        if i < n {
            assert(s.memory_cache[i] == s1.memory_cache[i]);
        }
    }
}

impl GlueBuilder {
    /// The total size of what the builder has accumulated.
    pub open spec fn load(&self) -> nat {
        self.module.types@.len() + self.module.func_imports@.len() + self.module.memory_imports@.len()
            + self.module.funcs@.len() + self.module.exports@.len() + self.module.tables@.len()
            + self.module.elements@.len() + self.imported_memories@.len() + self.imported_funcs@.len()
            + self.next_import_id as nat + self.realloc_import_dispatch@.len()
            + self.realloc_export_dispatch@.len() + self.memwrite_import_dispatch@.len()
            + self.memwrite_export_dispatch@.len() + self.core_func_dispatch@.len()
            + self.post_return_dispatch@.len()
    }

    /// The builder's load, where it is within the glue's capacity.
    pub fn load_within_capacity(&self) -> (r: Option<u64>)
        ensures
            match r {
                Some(l) => l == self.load() && l <= GLUE_CAPACITY,
                None => self.load() > GLUE_CAPACITY,
            },
    {
        let parts: [u64; 16] = [
            self.module.types.len() as u64,
            self.module.func_imports.len() as u64,
            self.module.memory_imports.len() as u64,
            self.module.funcs.len() as u64,
            self.module.exports.len() as u64,
            self.module.tables.len() as u64,
            self.module.elements.len() as u64,
            self.imported_memories.len() as u64,
            self.imported_funcs.len() as u64,
            self.next_import_id as u64,
            self.realloc_import_dispatch.len() as u64,
            self.realloc_export_dispatch.len() as u64,
            self.memwrite_import_dispatch.len() as u64,
            self.memwrite_export_dispatch.len() as u64,
            self.core_func_dispatch.len() as u64,
            self.post_return_dispatch.len() as u64,
        ];
        let ghost ps = parts@;
        assert(self.load() == ps[0] + ps[1] + ps[2] + ps[3] + ps[4] + ps[5] + ps[6] + ps[7] + ps[8] + ps[9]
            + ps[10] + ps[11] + ps[12] + ps[13] + ps[14] + ps[15]);
        let mut total: u64 = 0;
        for i in 0..16
            invariant
                parts@ == ps,
                ps.len() == 16,
                self.load() == ps[0] + ps[1] + ps[2] + ps[3] + ps[4] + ps[5] + ps[6] + ps[7] + ps[8] + ps[9]
                    + ps[10] + ps[11] + ps[12] + ps[13] + ps[14] + ps[15],
                total == sum_u64(ps.take(i as int)),
                total <= GLUE_CAPACITY,
        {
            proof {
                assert(ps.take(i + 1).drop_last() == ps.take(i as int));
            }
            if parts[i] > GLUE_CAPACITY - total {
                proof {
                    assert(sum_u64(ps.take(i + 1)) == sum_u64(ps.take(i as int)) + ps[i as int]);
                    lemma_sum_take_monotone(ps, i + 1, 16);
                    assert(ps.take(16) == ps);
                    lemma_sum16(ps);
                }
                return None;
            }
            total = total + parts[i];
        }
        proof {
            assert(ps.take(16) == ps);
            lemma_sum16(ps);
        }
        Some(total)
    }

    /// The builder's invariant: the driver imports are in place and the
    /// caches hold distinct keys that refer to existing imports.
    pub open spec fn wf(&self) -> bool {
        &&& self.driver_memory == 0
        &&& self.module.memory_imports@.len() >= 1
        &&& self.module.func_imports@.len() >= 5
        &&& self.replay_host_call == FuncRef::Import(0)
        &&& self.replay_builtin_call == FuncRef::Import(1)
        &&& self.replay_instruction == FuncRef::Import(2)
        &&& self.init_replayer == FuncRef::Import(3)
        &&& self.allocate_args_results_buffer == FuncRef::Import(4)
        &&& self.load() <= GLUE_CAPACITY
        &&& forall|i: int| 0 <= i < self.imported_funcs@.len() ==> {
            &&& (#[trigger] self.imported_funcs@[i]).func matches FuncRef::Import(k)
            &&& self.imported_funcs@[i].func->Import_0 < self.module.func_imports@.len()
            &&& self.imported_funcs@[i].type_index < self.module.types@.len()
        }
        &&& forall|i: int, j: int| 0 <= i < j < self.imported_funcs@.len() ==>
            !(#[trigger] self.imported_funcs@[i].mid == #[trigger] self.imported_funcs@[j].mid
                && self.imported_funcs@[i].name@ == self.imported_funcs@[j].name@)
        &&& forall|i: int| 0 <= i < self.imported_memories@.len() ==>
            (#[trigger] self.imported_memories@[i]).memory < self.module.memory_imports@.len()
        &&& forall|i: int, j: int| 0 <= i < j < self.imported_memories@.len() ==>
            !(#[trigger] self.imported_memories@[i].mid == #[trigger] self.imported_memories@[j].mid
                && self.imported_memories@[i].name@ == self.imported_memories@[j].name@)
    }

    /// The dispatch entries' invariant: import-side entries use assigned
    /// import indices, type indices refer to the type section, and every
    /// post-return belongs to a registered core function.
    pub open spec fn dispatch_wf(&self) -> bool {
        &&& forall|i: int| 0 <= i < self.realloc_import_dispatch@.len() ==>
            (#[trigger] self.realloc_import_dispatch@[i]).0 < self.next_import_id
        &&& forall|i: int| 0 <= i < self.memwrite_import_dispatch@.len() ==>
            (#[trigger] self.memwrite_import_dispatch@[i]).0 < self.next_import_id
        &&& forall|i: int| 0 <= i < self.core_func_dispatch@.len() ==>
            (#[trigger] self.core_func_dispatch@[i]).2 < self.module.types@.len()
        &&& forall|i: int| 0 <= i < self.post_return_dispatch@.len() ==>
            (#[trigger] self.post_return_dispatch@[i]).2 < self.module.types@.len()
        &&& forall|i: int| 0 <= i < self.post_return_dispatch@.len() ==>
            has_record(self.core_func_dispatch@, (#[trigger] self.post_return_dispatch@[i]).0)
    }

    /// The dispatch invariant survives a change that keeps the dispatch
    /// entries and does not shrink the import indices or the type section.
    pub proof fn lemma_dispatch_wf_frame(&self, other: &GlueBuilder)
        requires
            self.dispatch_wf(),
            other.realloc_import_dispatch == self.realloc_import_dispatch,
            other.memwrite_import_dispatch == self.memwrite_import_dispatch,
            other.core_func_dispatch == self.core_func_dispatch,
            other.post_return_dispatch == self.post_return_dispatch,
            other.next_import_id >= self.next_import_id,
            other.module.types@.len() >= self.module.types@.len(),
        ensures
            other.dispatch_wf(),
    {
        assert forall|i: int| 0 <= i < other.post_return_dispatch@.len() implies
            has_record(other.core_func_dispatch@, (#[trigger] other.post_return_dispatch@[i]).0) by {
            assert(self.post_return_dispatch@[i] == other.post_return_dispatch@[i]);
        }
        assert forall|i: int| 0 <= i < other.core_func_dispatch@.len() implies
            (#[trigger] other.core_func_dispatch@[i]).2 < other.module.types@.len() by {
            assert(self.core_func_dispatch@[i] == other.core_func_dispatch@[i]);
        }
        assert forall|i: int| 0 <= i < other.post_return_dispatch@.len() implies
            (#[trigger] other.post_return_dispatch@[i]).2 < other.module.types@.len() by {
            assert(self.post_return_dispatch@[i] == other.post_return_dispatch@[i]);
        }
        assert forall|i: int| 0 <= i < other.realloc_import_dispatch@.len() implies
            (#[trigger] other.realloc_import_dispatch@[i]).0 < other.next_import_id by {
            assert(self.realloc_import_dispatch@[i] == other.realloc_import_dispatch@[i]);
        }
        assert forall|i: int| 0 <= i < other.memwrite_import_dispatch@.len() implies
            (#[trigger] other.memwrite_import_dispatch@[i]).0 < other.next_import_id by {
            assert(self.memwrite_import_dispatch@[i] == other.memwrite_import_dispatch@[i]);
        }
    }

    /// The import-related state of the builder.
    pub open spec fn import_state(&self) -> ImportState {
        ImportState {
            types: self.module.types@.map_values(|t: FuncType| (t.params@, t.results@)),
            funcs: self.module.func_imports@.map_values(|f: FuncImport| (f.module@, f.name@, f.type_index)),
            memories: self.module.memory_imports@.map_values(|m: MemoryImport| (m.module@, m.name@)),
            func_cache: self.imported_funcs@.map_values(|c: ImportedFunc| (c.mid, c.name@, c.func, c.type_index)),
            memory_cache: self.imported_memories@.map_values(|c: ImportedMemory| (c.mid, c.name@, c.memory)),
        }
    }

    /// The module's functions, exports, tables and elements, the checksum and
    /// the driver imports are unchanged.
    pub open spec fn same_core(&self, other: &GlueBuilder) -> bool {
        &&& self.module.name == other.module.name
        &&& self.module.funcs == other.module.funcs
        &&& self.module.exports == other.module.exports
        &&& self.module.tables == other.module.tables
        &&& self.module.elements == other.module.elements
        &&& self.checksum == other.checksum
        &&& self.driver_memory == other.driver_memory
        &&& self.replay_host_call == other.replay_host_call
        &&& self.replay_builtin_call == other.replay_builtin_call
        &&& self.replay_instruction == other.replay_instruction
        &&& self.init_replayer == other.init_replayer
        &&& self.allocate_args_results_buffer == other.allocate_args_results_buffer
    }

    /// Everything but the import-related state, the import index counter and
    /// the import-side dispatch entries is unchanged.
    pub open spec fn same_frame(&self, other: &GlueBuilder) -> bool {
        &&& self.same_core(other)
        &&& self.realloc_export_dispatch == other.realloc_export_dispatch
        &&& self.memwrite_export_dispatch == other.memwrite_export_dispatch
        &&& self.core_func_dispatch == other.core_func_dispatch
        &&& self.post_return_dispatch == other.post_return_dispatch
    }

    /// Everything but the import-related state is unchanged.
    pub open spec fn same_except_imports(&self, other: &GlueBuilder) -> bool {
        &&& self.same_frame(other)
        &&& self.next_import_id == other.next_import_id
        &&& self.realloc_import_dispatch == other.realloc_import_dispatch
        &&& self.memwrite_import_dispatch == other.memwrite_import_dispatch
    }

    /// An empty glue module for the component with `checksum`: it imports the
    /// driver's memory and its five entry points, and has no dispatch entry yet.
    pub fn new(checksum: Checksum) -> (b: GlueBuilder)
        ensures
            b.wf(),
            b.checksum == checksum,
            b.module.name@ == GLUE_MODULE_NAME@,
            b.module.memory_imports@.len() == 1,
            b.module.memory_imports@[0].module@ == DRIVER_MODULE_NAME@,
            b.module.memory_imports@[0].name@ == "memory"@,
            b.module.func_imports@.len() == 5,
            b.module.types@.len() == 5,
            forall|i: int| 0 <= i < 5 ==> (#[trigger] b.module.func_imports@[i]).module@ == DRIVER_MODULE_NAME@
                && b.module.func_imports@[i].type_index == i,
            b.module.func_imports@[0].name@ == "replay_host_call"@,
            b.module.func_imports@[1].name@ == "replay_builtin_call"@,
            b.module.func_imports@[2].name@ == "replay_instruction"@,
            b.module.func_imports@[3].name@ == "init_replayer"@,
            b.module.func_imports@[4].name@ == "allocate_args_results_buffer"@,
            b.module.types@[0].params@ == seq![DataType::I32, DataType::I32, DataType::I32],
            b.module.types@[0].results@ == seq![DataType::I32],
            b.module.types@[1].params@ == seq![DataType::I32, DataType::I32, DataType::I32],
            b.module.types@[1].results@ == seq![DataType::I32],
            b.module.types@[2].params@ == seq![DataType::I32],
            b.module.types@[2].results@ == seq![DataType::I32],
            b.module.types@[3].params@ == Seq::<DataType>::empty(),
            b.module.types@[3].results@ == Seq::<DataType>::empty(),
            b.module.types@[4].params@ == seq![DataType::I32, DataType::I32],
            b.module.types@[4].results@ == seq![DataType::I32],
            b.module.funcs@.len() == 0,
            b.module.exports@.len() == 0,
            b.module.tables@.len() == 0,
            b.module.elements@.len() == 0,
            b.imported_memories@.len() == 0,
            b.imported_funcs@.len() == 0,
            b.next_import_id == 0,
            b.realloc_import_dispatch@.len() == 0,
            b.realloc_export_dispatch@.len() == 0,
            b.memwrite_import_dispatch@.len() == 0,
            b.memwrite_export_dispatch@.len() == 0,
            b.core_func_dispatch@.len() == 0,
            b.post_return_dispatch@.len() == 0,
    {
        let mut module = WasmModule::new(String::from_str(GLUE_MODULE_NAME));
        let driver_memory = module.add_import_memory(String::from_str(DRIVER_MODULE_NAME), String::from_str("memory"));

        // replay_host_call: (import_index, params_bytes_len, params_sizes_len) -> i32
        let t = module.add_func_type(&vec![DataType::I32, DataType::I32, DataType::I32], &vec![DataType::I32]);
        let replay_host_call = module.add_import_func(String::from_str(DRIVER_MODULE_NAME), String::from_str("replay_host_call"), t);
        // replay_builtin_call: (import_index, params_bytes_len, params_sizes_len) -> i32
        let t = module.add_func_type(&vec![DataType::I32, DataType::I32, DataType::I32], &vec![DataType::I32]);
        let replay_builtin_call = module.add_import_func(String::from_str(DRIVER_MODULE_NAME), String::from_str("replay_builtin_call"), t);
        // replay_instruction: (result) -> i32
        let t = module.add_func_type(&vec![DataType::I32], &vec![DataType::I32]);
        let replay_instruction = module.add_import_func(String::from_str(DRIVER_MODULE_NAME), String::from_str("replay_instruction"), t);
        // init_replayer: () -> ()
        let t = module.add_func_type(&Vec::new(), &Vec::new());
        let init_replayer = module.add_import_func(String::from_str(DRIVER_MODULE_NAME), String::from_str("init_replayer"), t);
        // allocate_args_results_buffer: (total_size, num_elements) -> pointer to the FFI descriptor
        let t = module.add_func_type(&vec![DataType::I32, DataType::I32], &vec![DataType::I32]);
        let allocate_args_results_buffer = module.add_import_func(
            String::from_str(DRIVER_MODULE_NAME),
            String::from_str("allocate_args_results_buffer"),
            t,
        );

        GlueBuilder {
            module,
            checksum,
            driver_memory,
            replay_host_call,
            replay_builtin_call,
            replay_instruction,
            init_replayer,
            allocate_args_results_buffer,
            imported_memories: Vec::new(),
            imported_funcs: Vec::new(),
            next_import_id: 0,
            realloc_import_dispatch: Vec::new(),
            realloc_export_dispatch: Vec::new(),
            memwrite_import_dispatch: Vec::new(),
            memwrite_export_dispatch: Vec::new(),
            core_func_dispatch: Vec::new(),
            post_return_dispatch: Vec::new(),
        }
    }

    /// Imports a component memory unless it already was; returns its index
    /// in the glue module.
    pub fn ensure_memory_imported(&mut self, mid: ModuleInstanceID, name: &String, instance_name: &str) -> (mem: u32)
        requires
            old(self).wf(),
            old(self).load() + 2 <= GLUE_CAPACITY,
        ensures
            final(self).wf(),
            final(self).load() <= old(self).load() + 2,
            final(self).same_except_imports(old(self)),
            (final(self).import_state(), mem) == import_memory_spec(old(self).import_state(), mid, name@, instance_name@),
            final(self).module.types == old(self).module.types,
            old(self).dispatch_wf() ==> final(self).dispatch_wf(),
    {
        let n = self.imported_memories.len();
        for i in 0..n
            invariant
                n == self.imported_memories@.len(),
                *self == *old(self),
                old(self).wf(),
                forall|j: int| 0 <= j < i ==> !memory_cached_at(self.imported_memories@, mid, name@, j),
        {
            if self.imported_memories[i].mid == mid && self.imported_memories[i].name == *name {
                proof {
                    let st = old(self).import_state();
                    assert(st.memory_cache[i as int].0 == mid && st.memory_cache[i as int].1 == name@);
                    let j = choose|j: int| 0 <= j < st.memory_cache.len() && st.memory_cache[j].0 == mid && st.memory_cache[j].1 == name@;
                    assert(old(self).imported_memories@[j].mid == mid);
                    assert(j == i);
                    if old(self).dispatch_wf() { old(self).lemma_dispatch_wf_frame(self); }
                }
                return self.imported_memories[i].memory;
            }
        }
        let mem = self.module.add_import_memory(String::from_str(instance_name), name.clone());
        self.imported_memories.push(ImportedMemory { mid, name: name.clone(), memory: mem });
        proof {
            assert(self.module.memory_imports@.take(mem as int) =~= old(self).module.memory_imports@);
            assert(self.imported_memories@.drop_last() =~= old(self).imported_memories@);
            let st = old(self).import_state();
            assert(!(exists|j: int| 0 <= j < st.memory_cache.len() && st.memory_cache[j].0 == mid && st.memory_cache[j].1 == name@)) by {
                if exists|j: int| 0 <= j < st.memory_cache.len() && st.memory_cache[j].0 == mid && st.memory_cache[j].1 == name@ {
                    let j = choose|j: int| 0 <= j < st.memory_cache.len() && st.memory_cache[j].0 == mid && st.memory_cache[j].1 == name@;
                    assert(memory_cached_at(old(self).imported_memories@, mid, name@, j));
                }
            }
            if old(self).dispatch_wf() { old(self).lemma_dispatch_wf_frame(self); }
            let ns = self.import_state();
            let es = import_memory_spec(st, mid, name@, instance_name@).0;
            assert(ns.types =~= es.types);
            assert(ns.funcs =~= es.funcs);
            assert(ns.memories =~= es.memories);
            assert(ns.func_cache =~= es.func_cache);
            assert(ns.memory_cache =~= es.memory_cache);
            assert forall|i: int| 0 <= i < self.imported_memories@.len() implies
                (#[trigger] self.imported_memories@[i]).memory < self.module.memory_imports@.len() by {
                if i < n {
                    assert(self.imported_memories@[i] == old(self).imported_memories@[i]);
                }
            }
            assert forall|i: int, j: int| 0 <= i < j < self.imported_memories@.len() implies
                !(#[trigger] self.imported_memories@[i].mid == #[trigger] self.imported_memories@[j].mid
                    && self.imported_memories@[i].name@ == self.imported_memories@[j].name@) by {
                assert(self.imported_memories@[i] == old(self).imported_memories@[i]);
                if j < n {
                    assert(self.imported_memories@[j] == old(self).imported_memories@[j]);
                } else {
                    assert(!memory_cached_at(old(self).imported_memories@, mid, name@, i));
                }
            }
        }
        mem
    }

    /// Imports a component function unless it already was; returns its
    /// reference and type index in the glue module.
    pub fn ensure_func_imported(
        &mut self,
        instance_id: ModuleInstanceID,
        func_name: &String,
        instance_name: &str,
        params: &Vec<DataType>,
        results: &Vec<DataType>,
    ) -> (r: (FuncRef, u32))
        requires
            old(self).wf(),
            old(self).load() + 3 <= GLUE_CAPACITY,
        ensures
            final(self).wf(),
            final(self).load() <= old(self).load() + 3,
            final(self).same_except_imports(old(self)),
            (final(self).import_state(), r) == import_func_spec(old(self).import_state(), instance_id, func_name@, instance_name@, params@, results@),
            final(self).module.types@.len() >= old(self).module.types@.len(),
            r.1 < final(self).module.types@.len(),
            old(self).dispatch_wf() ==> final(self).dispatch_wf(),
    {
        let n = self.imported_funcs.len();
        for i in 0..n
            invariant
                n == self.imported_funcs@.len(),
                *self == *old(self),
                old(self).wf(),
                forall|j: int| 0 <= j < i ==> !func_cached_at(self.imported_funcs@, instance_id, func_name@, j),
        {
            if self.imported_funcs[i].mid == instance_id && self.imported_funcs[i].name == *func_name {
                proof {
                    let st = old(self).import_state();
                    assert(st.func_cache[i as int].0 == instance_id && st.func_cache[i as int].1 == func_name@);
                    let j = choose|j: int| 0 <= j < st.func_cache.len() && st.func_cache[j].0 == instance_id && st.func_cache[j].1 == func_name@;
                    assert(old(self).imported_funcs@[j].mid == instance_id);
                    assert(j == i);
                    if old(self).dispatch_wf() { old(self).lemma_dispatch_wf_frame(self); }
                }
                return (self.imported_funcs[i].func, self.imported_funcs[i].type_index);
            }
        }
        let type_id = self.module.add_func_type(params, results);
        let func_id = self.module.add_import_func(String::from_str(instance_name), func_name.clone(), type_id);
        self.imported_funcs.push(ImportedFunc { mid: instance_id, name: func_name.clone(), func: func_id, type_index: type_id });
        proof {
            assert(self.module.types@.take(type_id as int) =~= old(self).module.types@);
            assert(self.module.func_imports@.take(old(self).module.func_imports@.len() as int) =~= old(self).module.func_imports@);
            assert(self.imported_funcs@.drop_last() =~= old(self).imported_funcs@);
            let st = old(self).import_state();
            assert(!(exists|j: int| 0 <= j < st.func_cache.len() && st.func_cache[j].0 == instance_id && st.func_cache[j].1 == func_name@)) by {
                if exists|j: int| 0 <= j < st.func_cache.len() && st.func_cache[j].0 == instance_id && st.func_cache[j].1 == func_name@ {
                    let j = choose|j: int| 0 <= j < st.func_cache.len() && st.func_cache[j].0 == instance_id && st.func_cache[j].1 == func_name@;
                    assert(func_cached_at(old(self).imported_funcs@, instance_id, func_name@, j));
                }
            }
            if old(self).dispatch_wf() { old(self).lemma_dispatch_wf_frame(self); }
            let ns = self.import_state();
            let es = import_func_spec(st, instance_id, func_name@, instance_name@, params@, results@).0;
            assert(ns.types =~= es.types);
            assert(ns.funcs =~= es.funcs);
            assert(ns.memories =~= es.memories);
            assert(ns.func_cache =~= es.func_cache);
            assert(ns.memory_cache =~= es.memory_cache);
            assert forall|i: int| 0 <= i < self.imported_funcs@.len() implies {
                &&& (#[trigger] self.imported_funcs@[i]).func matches FuncRef::Import(k)
                &&& self.imported_funcs@[i].func->Import_0 < self.module.func_imports@.len()
                &&& self.imported_funcs@[i].type_index < self.module.types@.len()
            } by {
                if i < n {
                    assert(self.imported_funcs@[i] == old(self).imported_funcs@[i]);
                }
            }
            assert forall|i: int, j: int| 0 <= i < j < self.imported_funcs@.len() implies
                !(#[trigger] self.imported_funcs@[i].mid == #[trigger] self.imported_funcs@[j].mid
                    && self.imported_funcs@[i].name@ == self.imported_funcs@[j].name@) by {
                assert(self.imported_funcs@[i] == old(self).imported_funcs@[i]);
                if j < n {
                    assert(self.imported_funcs@[j] == old(self).imported_funcs@[j]);
                } else {
                    assert(!func_cached_at(old(self).imported_funcs@, instance_id, func_name@, i));
                }
            }
        }
        (func_id, type_id)
    }
}

// ====================================
// ==== Replay stubs ====
// ====================================

/// The module name of an instance's decomposed module.
pub open spec fn instance_name_spec(linking: &LinkingMetadata, mid: ModuleInstanceID) -> Seq<char> {
    module_name_spec(linking.instance_map@[mid.0].0 as nat, mid.0 as nat)
}

/// The adapter is a resource drop whose replay runs a destructor.
pub open spec fn adapter_has_dtor(a: &ImportAdapterCrimpData) -> bool {
    a.builtin matches Some(BuiltinOptions::ResourceDrop { host_dtor, guest_dtor }) && (host_dtor || guest_dtor is Some)
}

/// The adapter is a resource drop with a host destructor.
pub open spec fn adapter_host_dtor(a: &ImportAdapterCrimpData) -> bool {
    a.builtin matches Some(BuiltinOptions::ResourceDrop { host_dtor, .. }) && host_dtor
}

/// The guest destructor of a resource-drop adapter, if any.
pub open spec fn adapter_guest_dtor(a: &ImportAdapterCrimpData) -> Option<ModuleInstanceExport> {
    match a.builtin {
        Some(BuiltinOptions::ResourceDrop { guest_dtor, .. }) => guest_dtor,
        _ => None,
    }
}

/// The instances that an adapter refers to are all known to the linking metadata.
pub open spec fn adapter_instances_known(a: &ImportAdapterCrimpData, linking: &LinkingMetadata) -> bool {
    &&& a.realloc matches Some(r) ==> linking.instance_map@.contains_key(r.mid.0)
    &&& a.memory matches Some(m) ==> linking.instance_map@.contains_key(m.mid.0)
    &&& adapter_guest_dtor(a) matches Some(g) ==> linking.instance_map@.contains_key(g.mid.0)
}

/// The signature of a realloc: (old_addr, old_size, old_align, new_size) -> addr.
pub open spec fn realloc_params() -> Seq<DataType> {
    seq![DataType::I32, DataType::I32, DataType::I32, DataType::I32]
}

/// The imports made for a realloc and a memory, in that order; with the
/// realloc reference and the memory index.
pub open spec fn realloc_memory_imports_spec(
    s: ImportState,
    realloc: Option<ModuleInstanceExport>,
    memory: Option<ModuleInstanceExport>,
    linking: &LinkingMetadata,
) -> (ImportState, FuncRef, u32) {
    let (s1, rf) = match realloc {
        Some(r) => import_func_spec(s, r.mid, r.name@, instance_name_spec(linking, r.mid), realloc_params(), seq![DataType::I32]),
        None => (s, (FuncRef::Import(0), 0u32)),
    };
    let (s2, m) = match memory {
        Some(mem) => import_memory_spec(s1, mem.mid, mem.name@, instance_name_spec(linking, mem.mid)),
        None => (s1, 0u32),
    };
    (s2, rf.0, m)
}

/// The imports made for the realloc and the memory of an adapter.
pub open spec fn adapter_imports_spec(s: ImportState, a: &ImportAdapterCrimpData, linking: &LinkingMetadata) -> (ImportState, FuncRef, u32) {
    realloc_memory_imports_spec(s, a.realloc, a.memory, linking)
}

/// The import of a guest destructor `[rep] -> []`, if there is one; with its reference.
pub open spec fn guest_dtor_import_spec(s: ImportState, g: Option<ModuleInstanceExport>, linking: &LinkingMetadata) -> (ImportState, Option<FuncRef>) {
    match g {
        Some(gd) => {
            let (s1, r) = import_func_spec(s, gd.mid, gd.name@, instance_name_spec(linking, gd.mid), seq![DataType::I32], Seq::empty());
            (s1, Some(r.0))
        },
        None => (s, None),
    }
}

/// The imports made for a replay stub, in order: the realloc, the memory and
/// the guest destructor of the adapter; with the realloc reference, the
/// memory index and the guest destructor reference.
pub open spec fn stub_imports_spec(s: ImportState, a: &ImportAdapterCrimpData, linking: &LinkingMetadata) -> (ImportState, FuncRef, u32, Option<FuncRef>) {
    let (s2, rf, m) = adapter_imports_spec(s, a, linking);
    let (s3, g) = guest_dtor_import_spec(s2, adapter_guest_dtor(a), linking);
    (s3, rf, m, g)
}

/// The first part of a replay stub: allocate a driver buffer, store the
/// parameters and their size descriptors into it, call the replay function
/// with (import index, byte length, count) and keep the result pointer.
pub open spec fn stub_call_instrs(params: Seq<DataType>, import_id: u32, replay_func: FuncRef, alloc: FuncRef, dm: u32) -> Seq<Instr> {
    let p = params.len();
    let total = total_bytes(params) as u32;
    alloc_ffi_instrs(total, p as u32, alloc, dm, p as u32)
        + store_vals_instrs(params, index_locals(p), (p + 1) as u32, dm, p as int)
        + size_desc_instrs(params, (p + 2) as u32, dm, p as int)
        + seq![
            Instr::I32Const(import_id as i32),
            Instr::I32Const(total as i32),
            Instr::I32Const(p as i32),
            Instr::Call(replay_func),
            Instr::LocalSet((p + 3) as u32),
        ]
}

/// The destructor part of a resource-drop stub: load the resource rep and the
/// some/none flag from the replay result, and if the flag is set, replay the
/// host destructor call and/or call the guest destructor.
pub open spec fn dtor_instrs(
    p: nat,
    host: bool,
    guest: Option<FuncRef>,
    dtor_import_id: u32,
    alloc: FuncRef,
    host_call: FuncRef,
    dm: u32,
) -> Seq<Instr> {
    let result_ptr = (p + 3) as u32;
    let dtor_rep = (p + 4) as u32;
    seq![
        Instr::LocalGet(result_ptr),
        Instr::Load { ty: DataType::I32, offset: 0, memory: dm },
        Instr::LocalSet(dtor_rep),
        Instr::LocalGet(result_ptr),
        Instr::I32Load8U { offset: 4, memory: dm },
        Instr::If(BlockType::Empty),
    ] + (if host {
        alloc_ffi_instrs(4, 1, alloc, dm, (p + 5) as u32)
            + seq![Instr::LocalGet((p + 6) as u32), Instr::LocalGet(dtor_rep), Instr::Store { ty: DataType::I32, offset: 0, memory: dm }]
            + size_desc_instrs(seq![DataType::I32], (p + 7) as u32, dm, 1)
            + seq![
                Instr::I32Const(dtor_import_id as i32),
                Instr::I32Const(4),
                Instr::I32Const(1),
                Instr::Call(host_call),
                Instr::Drop,
            ]
    } else {
        Seq::empty()
    }) + (match guest {
        Some(g) => seq![Instr::LocalGet(dtor_rep), Instr::Call(g)],
        None => Seq::empty(),
    }) + seq![Instr::End]
}

/// The body of a replay stub: store the parameters into a driver buffer with
/// their size descriptors, call the replay function with the import index,
/// run the destructor part for resource drops, and load the results from the
/// returned pointer.
pub open spec fn replay_stub_instrs(
    params: Seq<DataType>,
    results: Seq<DataType>,
    import_id: u32,
    replay_func: FuncRef,
    alloc: FuncRef,
    host_call: FuncRef,
    dm: u32,
    has_dtor: bool,
    host: bool,
    guest: Option<FuncRef>,
) -> Seq<Instr> {
    let p = params.len();
    stub_call_instrs(params, import_id, replay_func, alloc, dm)
        + (if has_dtor { dtor_instrs(p, host, guest, (import_id + 1) as u32, alloc, host_call, dm) } else { Seq::empty() })
        + load_vals_instrs(results, (p + 3) as u32, dm, results.len() as int)
}

/// None of `s` is a direct call.
pub open spec fn no_calls(s: Seq<Instr>) -> bool {
    forall|k: int| 0 <= k < s.len() ==> !(#[trigger] s[k] is Call)
}

proof fn lemma_store_vals_shape(tys: Seq<DataType>, vals: Seq<u32>, base: u32, memory: u32, n: int)
    requires
        0 <= n,
    ensures
        store_vals_instrs(tys, vals, base, memory, n).len() == 3 * n,
        no_calls(store_vals_instrs(tys, vals, base, memory, n)),
    decreases n,
{
    if n > 0 {
        lemma_store_vals_shape(tys, vals, base, memory, n - 1);
        let a = store_vals_instrs(tys, vals, base, memory, n - 1);
        let s = store_vals_instrs(tys, vals, base, memory, n);
        assert forall|k: int| 0 <= k < s.len() implies !(#[trigger] s[k] is Call) by {
            if k < a.len() {
                assert(s[k] == a[k]);
            }
        }
    }
}

proof fn lemma_size_desc_shape(tys: Seq<DataType>, sizes_ptr: u32, memory: u32, n: int)
    requires
        0 <= n,
    ensures
        size_desc_instrs(tys, sizes_ptr, memory, n).len() == 3 * n,
        no_calls(size_desc_instrs(tys, sizes_ptr, memory, n)),
    decreases n,
{
    if n > 0 {
        lemma_size_desc_shape(tys, sizes_ptr, memory, n - 1);
        let a = size_desc_instrs(tys, sizes_ptr, memory, n - 1);
        let s = size_desc_instrs(tys, sizes_ptr, memory, n);
        assert forall|k: int| 0 <= k < s.len() implies !(#[trigger] s[k] is Call) by {
            if k < a.len() {
                assert(s[k] == a[k]);
            }
        }
    }
}

/// What a replay stub hands the driver: the stub first asks the driver's
/// allocator for a buffer of the parameters' total byte size and count, in
/// that order; its next call is of the replay function, with the import
/// index, the parameters' total byte size and their count, in that order
/// (the byte length and the number of size descriptors of the buffer that
/// the driver reads the parameters from).
pub proof fn lemma_replay_stub_call_args(
    params: Seq<DataType>,
    results: Seq<DataType>,
    import_id: u32,
    replay_func: FuncRef,
    alloc: FuncRef,
    host_call: FuncRef,
    dm: u32,
    has_dtor: bool,
    host: bool,
    guest: Option<FuncRef>,
)
    requires
        params.len() <= 0x1000_0000,
    ensures
        ({
            let s = replay_stub_instrs(params, results, import_id, replay_func, alloc, host_call, dm, has_dtor, host, guest);
            let total = total_bytes(params) as u32;
            let count = params.len() as i32;
            &&& s[0] == Instr::I32Const(total as i32)
            &&& s[1] == Instr::I32Const(count)
            &&& s[2] == Instr::Call(alloc)
            &&& exists|j: int| {
                &&& 3 <= j < s.len()
                &&& #[trigger] s[j] == Instr::Call(replay_func)
                &&& forall|k: int| 2 < k < j ==> !(#[trigger] s[k] is Call)
                &&& s[j - 3] == Instr::I32Const(import_id as i32)
                &&& s[j - 2] == Instr::I32Const(total as i32)
                &&& s[j - 1] == Instr::I32Const(count)
            }
        }),
{
    let s = replay_stub_instrs(params, results, import_id, replay_func, alloc, host_call, dm, has_dtor, host, guest);
    let c = stub_call_instrs(params, import_id, replay_func, alloc, dm);
    let p = params.len();
    let j: int = (10 + 6 * p + 3) as int;
    lemma_stub_call_shape(params, import_id, replay_func, alloc, dm);
    let d = if has_dtor { dtor_instrs(p, host, guest, (import_id + 1) as u32, alloc, host_call, dm) } else { Seq::empty() };
    let l = load_vals_instrs(results, (p + 3) as u32, dm, results.len() as int);
    assert(s == c + d + l);
    assert forall|k: int| 0 <= k < c.len() implies s[k] == c[k] by {
        assert((c + d + l)[k] == (c + d)[k]);
    }
    assert forall|k: int| 2 < k < j implies !(#[trigger] s[k] is Call) by {
        assert(s[k] == c[k]);
    }
    assert(s[j] == c[j]);
    assert(s[j - 3] == c[j - 3]);
    assert(s[j - 2] == c[j - 2]);
    assert(s[j - 1] == c[j - 1]);
    assert(s[0] == c[0] && s[1] == c[1] && s[2] == c[2]);
}

/// What a resource-drop stub hands the driver when it replays a host
/// destructor: it asks the driver's allocator for a buffer of the byte size
/// and count of the destructor's one `i32` parameter, and its next call is
/// of the host-call replay, with the import index that follows the stub's
/// own, that byte size and that count; the call's result is dropped.
pub proof fn lemma_replay_stub_dtor_call_args(
    params: Seq<DataType>,
    results: Seq<DataType>,
    import_id: u32,
    replay_func: FuncRef,
    alloc: FuncRef,
    host_call: FuncRef,
    dm: u32,
    guest: Option<FuncRef>,
)
    requires
        params.len() <= 0x1000_0000,
    ensures
        ({
            let s = replay_stub_instrs(params, results, import_id, replay_func, alloc, host_call, dm, true, true, guest);
            let one = seq![DataType::I32];
            let total = total_bytes(one) as i32;
            let count = one.len() as i32;
            exists|i: int, j: int| {
                &&& 0 <= i && i + 2 < j && j + 1 < s.len()
                &&& s[i] == Instr::I32Const(total)
                &&& s[i + 1] == Instr::I32Const(count)
                &&& #[trigger] s[i + 2] == Instr::Call(alloc)
                &&& forall|k: int| i + 2 < k < j ==> !(#[trigger] s[k] is Call)
                &&& #[trigger] s[j] == Instr::Call(host_call)
                &&& s[j - 3] == Instr::I32Const((import_id + 1) as u32 as i32)
                &&& s[j - 2] == Instr::I32Const(total)
                &&& s[j - 1] == Instr::I32Const(count)
                &&& s[j + 1] == Instr::Drop
            }
        }),
{
    let s = replay_stub_instrs(params, results, import_id, replay_func, alloc, host_call, dm, true, true, guest);
    let c = stub_call_instrs(params, import_id, replay_func, alloc, dm);
    let p = params.len();
    lemma_stub_call_shape(params, import_id, replay_func, alloc, dm);
    let d = dtor_instrs(p, true, guest, (import_id + 1) as u32, alloc, host_call, dm);
    let l = load_vals_instrs(results, (p + 3) as u32, dm, results.len() as int);
    lemma_dtor_shape(p, guest, (import_id + 1) as u32, alloc, host_call, dm);
    assert(s == c + d + l);
    let n = c.len() as int;
    assert forall|k: int| 0 <= k < d.len() implies s[n + k] == d[k] by {
        assert((c + d + l)[n + k] == (c + d)[n + k]);
    }
    let i = n + 6;
    let j = n + 25;
    assert(s[i] == d[6] && s[i + 1] == d[7] && s[i + 2] == d[8]);
    assert(s[j] == d[25] && s[j - 3] == d[22] && s[j - 2] == d[23] && s[j - 1] == d[24] && s[j + 1] == d[26]);
    assert forall|k: int| i + 2 < k < j implies !(#[trigger] s[k] is Call) by {
        assert(s[k] == d[k - n]);
    }
    assert(total_bytes(seq![DataType::I32]) == 4) by {
        reveal_with_fuel(prefix_bytes, 2);
    }
}

/// The host-destructor part of a resource-drop stub, where it calls.
#[verifier::rlimit(30)]
proof fn lemma_dtor_shape(p: nat, guest: Option<FuncRef>, dtor_import_id: u32, alloc: FuncRef, host_call: FuncRef, dm: u32)
    ensures
        ({
            let d = dtor_instrs(p, true, guest, dtor_import_id, alloc, host_call, dm);
            &&& d.len() >= 27
            &&& d[6] == Instr::I32Const(4)
            &&& d[7] == Instr::I32Const(1)
            &&& d[8] == Instr::Call(alloc)
            &&& forall|k: int| 8 < k < 25 ==> !(#[trigger] d[k] is Call)
            &&& d[22] == Instr::I32Const(dtor_import_id as i32)
            &&& d[23] == Instr::I32Const(4)
            &&& d[24] == Instr::I32Const(1)
            &&& d[25] == Instr::Call(host_call)
            &&& d[26] == Instr::Drop
        }),
{
    let d = dtor_instrs(p, true, guest, dtor_import_id, alloc, host_call, dm);
    let result_ptr = (p + 3) as u32;
    let dtor_rep = (p + 4) as u32;
    let head = seq![
        Instr::LocalGet(result_ptr),
        Instr::Load { ty: DataType::I32, offset: 0, memory: dm },
        Instr::LocalSet(dtor_rep),
        Instr::LocalGet(result_ptr),
        Instr::I32Load8U { offset: 4, memory: dm },
        Instr::If(BlockType::Empty),
    ];
    let a = alloc_ffi_instrs(4, 1, alloc, dm, (p + 5) as u32);
    let st = seq![Instr::LocalGet((p + 6) as u32), Instr::LocalGet(dtor_rep), Instr::Store { ty: DataType::I32, offset: 0, memory: dm }];
    let sd = size_desc_instrs(seq![DataType::I32], (p + 7) as u32, dm, 1);
    lemma_size_desc_shape(seq![DataType::I32], (p + 7) as u32, dm, 1);
    let call = seq![
        Instr::I32Const(dtor_import_id as i32),
        Instr::I32Const(4),
        Instr::I32Const(1),
        Instr::Call(host_call),
        Instr::Drop,
    ];
    let host = a + st + sd + call;
    let g = match guest {
        Some(g) => seq![Instr::LocalGet(dtor_rep), Instr::Call(g)],
        None => Seq::empty(),
    };
    assert(d == head + host + g + seq![Instr::End]);
    assert(host.len() == 21);
    assert forall|k: int| 0 <= k < 21 implies d[6 + k] == host[k] by {
        assert((head + host + g + seq![Instr::End])[6 + k] == (head + host)[6 + k]);
    }
    assert(host[0] == a[0] && host[1] == a[1] && host[2] == a[2]);
    assert forall|k: int| 8 < k < 25 implies !(#[trigger] d[k] is Call) by {
        assert(d[k] == host[k - 6]);
        if k - 6 < 10 {
            assert(host[k - 6] == a[k - 6]);
        } else if k - 6 < 13 {
            assert(host[k - 6] == st[k - 16]);
        } else if k - 6 < 16 {
            assert(host[k - 6] == sd[k - 19]);
        } else {
            assert(host[k - 6] == call[k - 22]);
        }
    }
    assert(host[16] == call[0] && host[17] == call[1] && host[18] == call[2] && host[19] == call[3] && host[20] == call[4]);
}

#[verifier::rlimit(30)]
proof fn lemma_stub_call_shape(params: Seq<DataType>, import_id: u32, replay_func: FuncRef, alloc: FuncRef, dm: u32)
    requires
        params.len() <= 0x1000_0000,
    ensures
        ({
            let c = stub_call_instrs(params, import_id, replay_func, alloc, dm);
            let p = params.len();
            let total = total_bytes(params) as u32;
            let j: int = (10 + 6 * p + 3) as int;
            &&& c.len() == j + 2
            &&& c[0] == Instr::I32Const(total as i32)
            &&& c[1] == Instr::I32Const(p as i32)
            &&& c[2] == Instr::Call(alloc)
            &&& c[j] == Instr::Call(replay_func)
            &&& forall|k: int| 2 < k < j ==> !(#[trigger] c[k] is Call)
            &&& c[j - 3] == Instr::I32Const(import_id as i32)
            &&& c[j - 2] == Instr::I32Const(total as i32)
            &&& c[j - 1] == Instr::I32Const(p as i32)
        }),
{
    let c = stub_call_instrs(params, import_id, replay_func, alloc, dm);
    let p = params.len();
    let total = total_bytes(params) as u32;
    let a = alloc_ffi_instrs(total, p as u32, alloc, dm, p as u32);
    let sv = store_vals_instrs(params, index_locals(p), (p + 1) as u32, dm, p as int);
    let sd = size_desc_instrs(params, (p + 2) as u32, dm, p as int);
    lemma_store_vals_shape(params, index_locals(p), (p + 1) as u32, dm, p as int);
    lemma_size_desc_shape(params, (p + 2) as u32, dm, p as int);
    let tail = seq![
        Instr::I32Const(import_id as i32),
        Instr::I32Const(total as i32),
        Instr::I32Const(p as i32),
        Instr::Call(replay_func),
        Instr::LocalSet((p + 3) as u32),
    ];
    let j: int = (10 + 6 * p + 3) as int;
    let asv = a + sv;
    let asd = asv + sd;
    assert(c == asd + tail);
    assert forall|k: int| 2 < k < j implies !(#[trigger] c[k] is Call) by {
        if k < 10 + 6 * p {
            assert(c[k] == asd[k]);
            if k < 10 + 3 * p {
                assert(asd[k] == asv[k]);
                if k < 10 {
                    assert(asv[k] == a[k]);
                } else {
                    assert(asv[k] == sv[k - 10]);
                }
            } else {
                assert(asd[k] == sd[k - 10 - 3 * p]);
            }
        } else {
            assert(c[k] == tail[k - 10 - 6 * p]);
        }
    }
    assert(c[j] == tail[3]);
    assert(c[j - 3] == tail[0]);
    assert(c[j - 2] == tail[1]);
    assert(c[j - 1] == tail[2]);
    assert(c[0] == asd[0] && asd[0] == asv[0] && asv[0] == a[0]);
    assert(c[1] == asd[1] && asd[1] == asv[1] && asv[1] == a[1]);
    assert((p as u32) as i32 == p as i32);
    assert(c[2] == asd[2] && asd[2] == asv[2] && asv[2] == a[2]);
}

/// The locals `0, 1, ..., n - 1`.
pub open spec fn index_locals(n: nat) -> Seq<u32> {
    Seq::new(n, |i: int| i as u32)
}

/// The locals of a replay stub.
pub open spec fn replay_stub_locals(has_dtor: bool, host: bool) -> Seq<DataType> {
    seq![DataType::I32, DataType::I32, DataType::I32, DataType::I32]
        + (if has_dtor { seq![DataType::I32] } else { Seq::empty() })
        + (if has_dtor && host { seq![DataType::I32, DataType::I32, DataType::I32] } else { Seq::empty() })
}

/// Emits the first part of a replay stub (see `stub_call_instrs`) into a
/// fresh function body whose parameters are `params`; returns the local that
/// holds the result pointer.
fn emit_replay_call(
    fb: &mut FuncBody,
    params: &Vec<DataType>,
    import_id: u32,
    replay_func: FuncRef,
    alloc: FuncRef,
    dm: u32,
) -> (result_ptr: u32)
    requires
        old(fb).params@ == params@,
        old(fb).locals@.len() == 0,
        old(fb).instrs@.len() == 0,
        all_scalar(params@),
        params@.len() <= 0x1000_0000,
    ensures
        result_ptr == params@.len() + 3,
        final(fb).instrs@ == stub_call_instrs(params@, import_id, replay_func, alloc, dm),
        final(fb).locals@ == seq![DataType::I32, DataType::I32, DataType::I32, DataType::I32],
        final(fb).params@ == old(fb).params@,
        final(fb).results@ == old(fb).results@,
        final(fb).name@ == old(fb).name@,
{
    let num_params = params.len() as u32;
    let mut param_locals: Vec<u32> = Vec::new();
    for i in 0..num_params
        invariant
            param_locals@ =~= Seq::new(i as nat, |j: int| j as u32),
    {
        param_locals.push(i);
    }
    assert(param_locals@ =~= index_locals(params@.len()));

    proof { lemma_prefix_bytes_bounds(params@, params@.len() as int); }
    let total_param_bytes = total_bytes_of(params);
    let (_ffi_ptr, bytes_ptr, sizes_ptr) = emit_alloc_ffi_buffer(fb, total_param_bytes, num_params, alloc, dm);
    assert(fb.instrs@ =~= alloc_ffi_instrs(total_param_bytes, num_params, alloc, dm, num_params));
    // Store each parameter into the driver buffer
    emit_store_values(fb, params, &param_locals, bytes_ptr, dm);
    // Store one-byte size descriptors
    emit_store_size_descriptors(fb, params, sizes_ptr, dm);
    let ghost i3 = fb.instrs@;

    // Call the replay function with (import index, params byte length, params count)
    fb.emit(Instr::I32Const(import_id as i32));
    fb.emit(Instr::I32Const(total_param_bytes as i32));
    fb.emit(Instr::I32Const(num_params as i32));
    fb.emit(Instr::Call(replay_func));

    // Keep the returned result pointer
    let result_ptr = fb.add_local(DataType::I32);
    fb.emit(Instr::LocalSet(result_ptr));
    assert(fb.instrs@ =~= i3 + seq![
        Instr::I32Const(import_id as i32),
        Instr::I32Const(total_param_bytes as i32),
        Instr::I32Const(num_params as i32),
        Instr::Call(replay_func),
        Instr::LocalSet(result_ptr),
    ]);
    assert(fb.locals@ =~= seq![DataType::I32, DataType::I32, DataType::I32, DataType::I32]);
    result_ptr
}

impl GlueBuilder {
    /// Imports a realloc and a memory (each if present), in that order.
    fn import_realloc_and_memory(
        &mut self,
        realloc: &Option<ModuleInstanceExport>,
        memory: &Option<ModuleInstanceExport>,
        linking: &LinkingMetadata,
    ) -> (r: (Option<FuncRef>, Option<u32>))
        requires
            old(self).wf(),
            old(self).load() + 5 <= GLUE_CAPACITY,
            realloc matches Some(x) ==> linking.instance_map@.contains_key(x.mid.0),
            memory matches Some(x) ==> linking.instance_map@.contains_key(x.mid.0),
        ensures
            final(self).wf(),
            final(self).load() <= old(self).load() + 5,
            final(self).same_except_imports(old(self)),
            ({
                let (st, rf, mem) = realloc_memory_imports_spec(old(self).import_state(), *realloc, *memory, linking);
                &&& final(self).import_state() == st
                &&& r.0 == (if realloc is Some { Some(rf) } else { None::<FuncRef> })
                &&& r.1 == (if memory is Some { Some(mem) } else { None::<u32> })
            }),
            final(self).module.types@.len() >= old(self).module.types@.len(),
            old(self).dispatch_wf() ==> final(self).dispatch_wf(),
    {
        let mut rf: Option<FuncRef> = None;
        if let Some(realloc) = realloc {
            let realloc_instance_name = module_name_from_ids(linking.module_id(realloc.mid), realloc.mid);
            let realloc_params_v = vec![DataType::I32, DataType::I32, DataType::I32, DataType::I32];
            let realloc_results_v = vec![DataType::I32];
            assert(realloc_params_v@ =~= realloc_params());
            assert(realloc_results_v@ =~= seq![DataType::I32]);
            let (realloc_func_id, _) = self.ensure_func_imported(
                realloc.mid,
                &realloc.name,
                realloc_instance_name.as_str(),
                &realloc_params_v,
                &realloc_results_v,
            );
            rf = Some(realloc_func_id);
        }
        let mut mem: Option<u32> = None;
        if let Some(memory) = memory {
            let memory_instance_name = module_name_from_ids(linking.module_id(memory.mid), memory.mid);
            let mem_id = self.ensure_memory_imported(memory.mid, &memory.name, memory_instance_name.as_str());
            mem = Some(mem_id);
        }
        (rf, mem)
    }

    /// Imports the realloc and the memory of an adapter and registers them for
    /// import-side dispatch under `import_id`.
    fn register_adapter_imports(&mut self, import_id: u32, adapter: &ImportAdapterCrimpData, linking: &LinkingMetadata)
        requires
            old(self).wf(),
            old(self).load() + 7 <= GLUE_CAPACITY,
            old(self).dispatch_wf(),
            import_id < old(self).next_import_id,
            adapter_instances_known(adapter, linking),
        ensures
            final(self).wf(),
            final(self).dispatch_wf(),
            final(self).load() <= old(self).load() + 7,
            final(self).same_frame(old(self)),
            final(self).next_import_id == old(self).next_import_id,
            ({
                let (st, rf, mem) = adapter_imports_spec(old(self).import_state(), adapter, linking);
                &&& final(self).import_state() == st
                &&& final(self).realloc_import_dispatch@ == old(self).realloc_import_dispatch@
                    + (if adapter.realloc is Some { seq![(import_id, rf)] } else { Seq::empty() })
                &&& final(self).memwrite_import_dispatch@ == old(self).memwrite_import_dispatch@
                    + (if adapter.memory is Some { seq![(import_id, mem)] } else { Seq::empty() })
            }),
    {
        let (rf, mem) = self.import_realloc_and_memory(&adapter.realloc, &adapter.memory, linking);
        let ghost s1 = *self;
        if let Some(f) = rf {
            self.realloc_import_dispatch.push((import_id, f));
        } else {
            assert(self.realloc_import_dispatch@ =~= old(self).realloc_import_dispatch@ + Seq::empty());
        }
        if let Some(m) = mem {
            self.memwrite_import_dispatch.push((import_id, m));
        } else {
            assert(self.memwrite_import_dispatch@ =~= old(self).memwrite_import_dispatch@ + Seq::empty());
        }
        assert forall|i: int| 0 <= i < self.realloc_import_dispatch@.len() implies
            (#[trigger] self.realloc_import_dispatch@[i]).0 < self.next_import_id by {
            if i < s1.realloc_import_dispatch@.len() {
                assert(self.realloc_import_dispatch@[i] == s1.realloc_import_dispatch@[i]);
            }
        }
        assert forall|i: int| 0 <= i < self.memwrite_import_dispatch@.len() implies
            (#[trigger] self.memwrite_import_dispatch@[i]).0 < self.next_import_id by {
            if i < s1.memwrite_import_dispatch@.len() {
                assert(self.memwrite_import_dispatch@[i] == s1.memwrite_import_dispatch@[i]);
            }
        }
        assert forall|i: int| 0 <= i < self.post_return_dispatch@.len() implies
            has_record(self.core_func_dispatch@, (#[trigger] self.post_return_dispatch@[i]).0) by {
            assert(self.post_return_dispatch@[i] == s1.post_return_dispatch@[i]);
        }
    }

    /// Emits the destructor part of a resource-drop stub (see `dtor_instrs`):
    /// a host destructor is replayed under the next import index, and a guest
    /// destructor is imported and called.
    #[verifier::rlimit(40)]
    fn emit_resource_dtor(
        &mut self,
        fb: &mut FuncBody,
        result_ptr: u32,
        host_dtor: bool,
        guest_dtor: &Option<ModuleInstanceExport>,
        linking: &LinkingMetadata,
    )
        requires
            old(self).wf(),
            old(self).load() + 4 <= GLUE_CAPACITY,
            old(fb).locals@.len() == 4,
            old(fb).params@.len() <= 0x1000_0000,
            result_ptr == old(fb).params@.len() + 3,
            guest_dtor matches Some(g) ==> linking.instance_map@.contains_key(g.mid.0),
        ensures
            final(self).wf(),
            final(self).load() <= old(self).load() + 4,
            final(self).same_frame(old(self)),
            final(self).realloc_import_dispatch == old(self).realloc_import_dispatch,
            final(self).memwrite_import_dispatch == old(self).memwrite_import_dispatch,
            final(self).next_import_id == old(self).next_import_id + (if host_dtor { 1int } else { 0int }),
            old(self).dispatch_wf() ==> final(self).dispatch_wf(),
            ({
                let (st, g) = guest_dtor_import_spec(old(self).import_state(), *guest_dtor, linking);
                &&& final(self).import_state() == st
                &&& final(fb).instrs@ == old(fb).instrs@ + dtor_instrs(
                    old(fb).params@.len(), host_dtor, g, old(self).next_import_id,
                    old(self).allocate_args_results_buffer, old(self).replay_host_call, old(self).driver_memory)
            }),
            final(fb).locals@ == old(fb).locals@ + seq![DataType::I32]
                + (if host_dtor { seq![DataType::I32, DataType::I32, DataType::I32] } else { Seq::empty() }),
            final(fb).params@ == old(fb).params@,
            final(fb).results@ == old(fb).results@,
            final(fb).name@ == old(fb).name@,
    {
        let driver_mem = self.driver_memory;
        let ghost p = fb.params@.len();
        // The replay result holds the resource rep (i32 at offset 0) and a
        // some/none flag (u8 at offset 4).
        let dtor_rep = fb.add_local(DataType::I32);
        fb.emit(Instr::LocalGet(result_ptr));
        fb.emit(Instr::Load { ty: DataType::I32, offset: 0, memory: driver_mem });
        fb.emit(Instr::LocalSet(dtor_rep));
        fb.emit(Instr::LocalGet(result_ptr));
        fb.emit(Instr::I32Load8U { offset: 4, memory: driver_mem });
        // Run the destructors only when the flag is set
        fb.emit(Instr::If(BlockType::Empty));
        let ghost j0 = fb.instrs@;
        let ghost l0 = fb.locals@;
        if host_dtor {
            // Replay the host destructor call with [rep] -> []
            let dtor_import_id = self.next_import_id;
            self.next_import_id = self.next_import_id + 1;
            proof { if old(self).dispatch_wf() { old(self).lemma_dispatch_wf_frame(self); } }
            let (_dtor_ffi_ptr, dtor_bytes_ptr, dtor_sizes_ptr) = emit_alloc_ffi_buffer(
                fb,
                4,
                1,
                self.allocate_args_results_buffer,
                driver_mem,
            );
            let ghost j1 = fb.instrs@;
            fb.emit(Instr::LocalGet(dtor_bytes_ptr));
            fb.emit(Instr::LocalGet(dtor_rep));
            fb.emit(Instr::Store { ty: DataType::I32, offset: 0, memory: driver_mem });
            let ghost j2 = fb.instrs@;
            let one_i32 = vec![DataType::I32];
            assert(one_i32@ =~= seq![DataType::I32]);
            emit_store_size_descriptors(fb, &one_i32, dtor_sizes_ptr, driver_mem);
            let ghost j3 = fb.instrs@;
            fb.emit(Instr::I32Const(dtor_import_id as i32));
            fb.emit(Instr::I32Const(4));
            fb.emit(Instr::I32Const(1));
            fb.emit(Instr::Call(self.replay_host_call));
            fb.emit(Instr::Drop);
            assert(j2 =~= j1 + seq![Instr::LocalGet((p + 6) as u32), Instr::LocalGet(dtor_rep), Instr::Store { ty: DataType::I32, offset: 0, memory: driver_mem }]);
            assert(fb.instrs@ =~= j3 + seq![
                Instr::I32Const(dtor_import_id as i32),
                Instr::I32Const(4),
                Instr::I32Const(1),
                Instr::Call(self.replay_host_call),
                Instr::Drop,
            ]);
            assert(fb.instrs@ =~= j0 + (
                alloc_ffi_instrs(4, 1, self.allocate_args_results_buffer, driver_mem, (p + 5) as u32)
                + seq![Instr::LocalGet((p + 6) as u32), Instr::LocalGet(dtor_rep), Instr::Store { ty: DataType::I32, offset: 0, memory: driver_mem }]
                + size_desc_instrs(seq![DataType::I32], (p + 7) as u32, driver_mem, 1)
                + seq![
                    Instr::I32Const(dtor_import_id as i32),
                    Instr::I32Const(4),
                    Instr::I32Const(1),
                    Instr::Call(self.replay_host_call),
                    Instr::Drop,
                ]));
        } else {
            assert(fb.instrs@ =~= j0 + Seq::empty());
            assert(fb.locals@ =~= l0 + Seq::empty());
        }
        let ghost j4 = fb.instrs@;
        let ghost mut guest_g: Option<FuncRef> = None;
        if let Some(guest_dtor_export) = guest_dtor {
            // Import and call the guest destructor
            let dtor_instance_name = module_name_from_ids(
                linking.module_id(guest_dtor_export.mid),
                guest_dtor_export.mid,
            );
            let dtor_params = vec![DataType::I32];
            let dtor_results: Vec<DataType> = Vec::new();
            assert(dtor_params@ =~= seq![DataType::I32]);
            assert(dtor_results@ =~= Seq::<DataType>::empty());
            let (dtor_func_id, _) = self.ensure_func_imported(
                guest_dtor_export.mid,
                &guest_dtor_export.name,
                dtor_instance_name.as_str(),
                &dtor_params,
                &dtor_results,
            );
            fb.emit(Instr::LocalGet(dtor_rep));
            fb.emit(Instr::Call(dtor_func_id));
            proof { guest_g = Some(dtor_func_id); }
            assert(fb.instrs@ =~= j4 + seq![Instr::LocalGet(dtor_rep), Instr::Call(dtor_func_id)]);
        } else {
            assert(fb.instrs@ =~= j4 + Seq::empty());
        }
        fb.emit(Instr::End);
        assert(fb.instrs@ =~= old(fb).instrs@ + dtor_instrs(
            p,
            host_dtor,
            guest_g,
            old(self).next_import_id,
            self.allocate_args_results_buffer,
            self.replay_host_call,
            driver_mem,
        ));
    }
}

impl GlueBuilder {
    /// Adds a replay stub for a replaced import of a decomposed module and
    /// exports it as `export_name`.
    ///
    /// The stub allocates an FFI buffer through the driver and stores the
    /// parameters into it, calls `replay_host_call` (or `replay_builtin_call`
    /// for builtins) with a fresh import index, runs resource destructors
    /// where the builtin calls for them, and loads the results from the
    /// returned pointer. The adapter's realloc and memory are imported and
    /// registered for import-side dispatch under that index.
    #[verifier::rlimit(60)]
    pub fn add_replay_stub(
        &mut self,
        export_name: &str,
        params: &Vec<DataType>,
        results: &Vec<DataType>,
        adapter: &ImportAdapterCrimpData,
        linking: &LinkingMetadata,
    )
        requires
            old(self).wf(),
            old(self).load() + 16 <= GLUE_CAPACITY,
            old(self).dispatch_wf(),
            all_scalar(params@),
            all_scalar(results@),
            params@.len() <= 0x1000_0000,
            results@.len() <= 0x1000_0000,
            adapter_instances_known(adapter, linking),
        ensures
            final(self).wf(),
            final(self).dispatch_wf(),
            final(self).load() <= old(self).load() + 16,
            ({
                let (st, rf, mem, guest) = stub_imports_spec(old(self).import_state(), adapter, linking);
                let import_id = old(self).next_import_id;
                let has_dtor = adapter_has_dtor(adapter);
                let host = adapter_host_dtor(adapter);
                let replay_func = if adapter.builtin is Some { old(self).replay_builtin_call } else { old(self).replay_host_call };
                let k = old(self).module.funcs@.len();
                &&& final(self).import_state() == st
                &&& final(self).next_import_id == import_id + 1 + (if has_dtor && host { 1int } else { 0int })
                &&& final(self).realloc_import_dispatch@ == old(self).realloc_import_dispatch@
                    + (if adapter.realloc is Some { seq![(import_id, rf)] } else { Seq::empty() })
                &&& final(self).memwrite_import_dispatch@ == old(self).memwrite_import_dispatch@
                    + (if adapter.memory is Some { seq![(import_id, mem)] } else { Seq::empty() })
                &&& final(self).module.funcs@.len() == k + 1
                &&& final(self).module.funcs@.take(k as int) == old(self).module.funcs@
                &&& final(self).module.funcs@[k as int].name@ == "stub_"@ + export_name@
                &&& final(self).module.funcs@[k as int].params@ == params@
                &&& final(self).module.funcs@[k as int].results@ == results@
                &&& final(self).module.funcs@[k as int].locals@ == replay_stub_locals(has_dtor, host)
                &&& final(self).module.funcs@[k as int].instrs@ == replay_stub_instrs(
                    params@, results@, import_id, replay_func, old(self).allocate_args_results_buffer,
                    old(self).replay_host_call, old(self).driver_memory, has_dtor, host, guest)
                &&& final(self).module.exports@.len() == old(self).module.exports@.len() + 1
                &&& final(self).module.exports@.drop_last() == old(self).module.exports@
                &&& final(self).module.exports@.last().name@ == export_name@
                &&& final(self).module.exports@.last().func == FuncRef::Local(k as u32)
            }),
            final(self).module.name == old(self).module.name,
            final(self).module.tables == old(self).module.tables,
            final(self).module.elements == old(self).module.elements,
            final(self).checksum == old(self).checksum,
            final(self).driver_memory == old(self).driver_memory,
            final(self).replay_host_call == old(self).replay_host_call,
            final(self).replay_builtin_call == old(self).replay_builtin_call,
            final(self).replay_instruction == old(self).replay_instruction,
            final(self).init_replayer == old(self).init_replayer,
            final(self).allocate_args_results_buffer == old(self).allocate_args_results_buffer,
            final(self).realloc_export_dispatch == old(self).realloc_export_dispatch,
            final(self).memwrite_export_dispatch == old(self).memwrite_export_dispatch,
            final(self).core_func_dispatch == old(self).core_func_dispatch,
            final(self).post_return_dispatch == old(self).post_return_dispatch,
    {
        let ghost st0 = self.import_state();
        let import_id = self.next_import_id;
        self.next_import_id = self.next_import_id + 1;
        proof { old(self).lemma_dispatch_wf_frame(self); }

        // Register the realloc and memory dispatch entries of this import
        self.register_adapter_imports(import_id, adapter, linking);
        let ghost st2 = self.import_state();

        let mut stub_name = String::from_str("stub_");
        stub_name.append(export_name);
        let mut fb = FuncBody::new(params, results);
        fb.name = stub_name;
        let driver_mem = self.driver_memory;

        let replay_func = if adapter.builtin.is_some() {
            self.replay_builtin_call
        } else {
            self.replay_host_call
        };
        let result_ptr = emit_replay_call(&mut fb, params, import_id, replay_func, self.allocate_args_results_buffer, driver_mem);
        let ghost i4 = fb.instrs@;
        let ghost l4 = fb.locals@;

        // Builtin side effects: resource destructors
        if let Some(builtin) = &adapter.builtin {
            match builtin {
                BuiltinOptions::NoSideEffects => {}
                BuiltinOptions::ResourceDrop { host_dtor, guest_dtor } => {
                    if *host_dtor || guest_dtor.is_some() {
                        self.emit_resource_dtor(&mut fb, result_ptr, *host_dtor, guest_dtor, linking);
                    }
                }
            }
        }
        let ghost i5 = fb.instrs@;
        let ghost (st3, guest) = guest_dtor_import_spec(st2, adapter_guest_dtor(adapter), linking);
        let ghost has_dtor = adapter_has_dtor(adapter);
        let ghost host = adapter_host_dtor(adapter);
        assert(self.import_state() == st3);
        assert(i5 =~= i4 + (if has_dtor {
            dtor_instrs(params@.len(), host, guest, (import_id + 1) as u32, self.allocate_args_results_buffer, self.replay_host_call, driver_mem)
        } else {
            Seq::empty()
        }));
        assert(fb.locals@ =~= replay_stub_locals(has_dtor, host));

        // Load each result from the returned pointer
        emit_load_values(&mut fb, results, result_ptr, driver_mem);
        assert(fb.instrs@ =~= replay_stub_instrs(
            params@, results@, import_id, replay_func, self.allocate_args_results_buffer,
            self.replay_host_call, driver_mem, has_dtor, host, guest));

        let ghost funcs0 = self.module.funcs@;
        let func_id = self.module.add_func(fb);
        self.module.add_export_func(String::from_str(export_name), func_id);
        assert(self.module.funcs@.take(funcs0.len() as int) =~= funcs0);
        assert(self.module.exports@.drop_last() =~= old(self).module.exports@);
    }
}

// ====================================
// ==== Exports ====
// ====================================

/// Why an export cannot be registered with the glue module.
pub enum GlueError {
    /// The exported core function is not an export of its module.
    ExportNotFound { name: String, instance: ModuleInstanceID },
    /// The post-return function is not an export of its module.
    PostReturnNotFound { name: String, instance: ModuleInstanceID },
}

/// The parameters and results of a function type.
pub fn get_func_type_params_results(ty: &TypeDef) -> (r: (Vec<DataType>, Vec<DataType>))
    requires
        ty is Func,
    ensures
        r.0@ == ty->params@,
        r.1@ == ty->results@,
{
    match ty {
        TypeDef::Func { params, results } => (params.clone(), results.clone()),
        TypeDef::Other => (Vec::new(), Vec::new()),
    }
}

/// The import of a post-return function with the signature it has in its
/// module, if there is one; with its reference and type index.
pub open spec fn post_return_import_spec(
    s: ImportState,
    pr: Option<ModuleInstanceExport>,
    linking: &LinkingMetadata,
) -> (ImportState, (FuncRef, u32)) {
    match pr {
        Some(p) => {
            let pm = linking.instance_module(p.mid);
            let f = pm.export_index(p.name@);
            import_func_spec(s, p.mid, p.name@, instance_name_spec(linking, p.mid), pm.func_params(f), pm.func_results(f))
        },
        None => (s, (FuncRef::Import(0), 0u32)),
    }
}

/// The instances that an exported function refers to are known, and its
/// core function and post-return are well typed where they are exports.
pub open spec fn export_func_known(e: &ExportFuncMetadata, instance_id: ModuleInstanceID, linking: &LinkingMetadata) -> bool {
    &&& linking.instance_known(instance_id)
    &&& linking.instance_module(instance_id).export_typed(e.name@)
    &&& e.opts.realloc matches Some(r) ==> linking.instance_map@.contains_key(r.mid.0)
    &&& e.opts.memory matches Some(m) ==> linking.instance_map@.contains_key(m.mid.0)
    &&& e.opts.post_return matches Some(p) ==> linking.instance_known(p.mid)
        && linking.instance_module(p.mid).export_typed(p.name@)
}

impl GlueBuilder {
    /// Imports a core function with the signature it has in its module.
    fn import_module_func(
        &mut self,
        mid: ModuleInstanceID,
        name: &String,
        linking: &LinkingMetadata,
    ) -> (r: Option<(FuncRef, u32)>)
        requires
            old(self).wf(),
            old(self).load() + 3 <= GLUE_CAPACITY,
            linking.instance_known(mid),
            linking.instance_module(mid).export_typed(name@),
        ensures
            final(self).wf(),
            final(self).load() <= old(self).load() + 3,
            final(self).same_except_imports(old(self)),
            final(self).module.types@.len() >= old(self).module.types@.len(),
            old(self).dispatch_wf() ==> final(self).dispatch_wf(),
            r matches Some(x) ==> x.1 < final(self).module.types@.len(),
            ({
                let m = linking.instance_module(mid);
                let f = m.export_index(name@);
                if m.has_export(name@) {
                    r is Some && (final(self).import_state(), r->0) == import_func_spec(
                        old(self).import_state(), mid, name@, instance_name_spec(linking, mid), m.func_params(f), m.func_results(f))
                } else {
                    r is None && *final(self) == *old(self)
                }
            }),
    {
        let module_id = linking.module_id(mid);
        let instance_name = module_name_from_ids(module_id, mid);
        let src_module = linking.module(mid);
        let pos = match src_module.find_export(name) {
            Some(i) => i,
            None => return None,
        };
        let f = src_module.exports[pos].index;
        let type_index = src_module.func_types[f as usize];
        let (params, results) = get_func_type_params_results(&src_module.types[type_index as usize]);
        Some(self.ensure_func_imported(mid, name, instance_name.as_str(), &params, &results))
    }

    /// Registers a core function exported by the component for dispatch from
    /// the driver: the function, its realloc and memory, and its post-return
    /// are imported into the glue module, and the dispatch entries are added
    /// under the export's record index.
    ///
    /// Fails when the function, or its post-return, is not an export of its
    /// module; in the latter case the function, realloc and memory have been
    /// registered already.
    #[verifier::rlimit(80)]
    pub fn register_export(
        &mut self,
        export_func: &ExportFuncMetadata,
        instance_id: ModuleInstanceID,
        linking: &LinkingMetadata,
    ) -> (r: Result<(), GlueError>)
        requires
            old(self).wf(),
            old(self).load() + 16 <= GLUE_CAPACITY,
            old(self).dispatch_wf(),
            export_func_known(export_func, instance_id, linking),
        ensures
            final(self).wf(),
            final(self).dispatch_wf(),
            final(self).load() <= old(self).load() + 16,
            final(self).same_core(old(self)),
            final(self).next_import_id == old(self).next_import_id,
            final(self).realloc_import_dispatch == old(self).realloc_import_dispatch,
            final(self).memwrite_import_dispatch == old(self).memwrite_import_dispatch,
            ({
                let m = linking.instance_module(instance_id);
                let name = export_func.name@;
                let rid = export_func.record_id.0;
                let f = m.export_index(name);
                let opts = export_func.opts;
                let (s1, (gf, gt)) = import_func_spec(
                    old(self).import_state(), instance_id, name, instance_name_spec(linking, instance_id),
                    m.func_params(f), m.func_results(f));
                let (s2, rf, mem) = realloc_memory_imports_spec(s1, opts.realloc, opts.memory, linking);
                let (s3, (pf, pt)) = post_return_import_spec(s2, opts.post_return, linking);
                let pr_missing = opts.post_return matches Some(p)
                    && !linking.instance_module(p.mid).has_export(p.name@);
                if !m.has_export(name) {
                    &&& r matches Err(GlueError::ExportNotFound { name: n, instance: i }) && n@ == name && i == instance_id
                    &&& *final(self) == *old(self)
                } else {
                    &&& final(self).core_func_dispatch@ == old(self).core_func_dispatch@.push((rid, gf, gt))
                    &&& final(self).realloc_export_dispatch@ == old(self).realloc_export_dispatch@
                        + (if opts.realloc is Some { seq![(rid, rf)] } else { Seq::empty() })
                    &&& final(self).memwrite_export_dispatch@ == old(self).memwrite_export_dispatch@
                        + (if opts.memory is Some { seq![(rid, mem)] } else { Seq::empty() })
                    &&& if pr_missing {
                        &&& r matches Err(GlueError::PostReturnNotFound { name: n, instance: i })
                            && n@ == opts.post_return->0.name@ && i == opts.post_return->0.mid
                        &&& final(self).import_state() == s2
                        &&& final(self).post_return_dispatch == old(self).post_return_dispatch
                    } else {
                        &&& r is Ok
                        &&& final(self).import_state() == s3
                        &&& final(self).post_return_dispatch@ == old(self).post_return_dispatch@
                            + (if opts.post_return is Some { seq![(rid, pf, pt)] } else { Seq::empty() })
                    }
                }
            }),
    {
        let rid = export_func.record_id.0;
        // Import the core function with the signature it has in its module
        let (glue_func_id, glue_type_id) = match self.import_module_func(instance_id, &export_func.name, linking) {
            Some(x) => x,
            None => {
                return Err(GlueError::ExportNotFound { name: export_func.name.clone(), instance: instance_id });
            },
        };
        let ghost s0 = *self;
        self.core_func_dispatch.push((rid, glue_func_id, glue_type_id));
        proof {
            assert(has_record(self.core_func_dispatch@, rid)) by {
                assert(self.core_func_dispatch@[self.core_func_dispatch@.len() - 1].0 == rid);
            }
            assert forall|i: int| 0 <= i < self.core_func_dispatch@.len() implies
                (#[trigger] self.core_func_dispatch@[i]).2 < self.module.types@.len() by {
                if i < s0.core_func_dispatch@.len() {
                    assert(self.core_func_dispatch@[i] == s0.core_func_dispatch@[i]);
                }
            }
            assert forall|i: int| 0 <= i < self.post_return_dispatch@.len() implies
                has_record(self.core_func_dispatch@, (#[trigger] self.post_return_dispatch@[i]).0) by {
                let x = self.post_return_dispatch@[i].0;
                assert(has_record(s0.core_func_dispatch@, x));
                let j = choose|j: int| 0 <= j < s0.core_func_dispatch@.len() && (#[trigger] s0.core_func_dispatch@[j]).0 == x;
                assert(self.core_func_dispatch@[j] == s0.core_func_dispatch@[j]);
            }
        }

        // Import realloc and memory if present in the canonical options
        let opts = &export_func.opts;
        let (rf, mem) = self.import_realloc_and_memory(&opts.realloc, &opts.memory, linking);
        if let Some(f) = rf {
            self.realloc_export_dispatch.push((rid, f));
        } else {
            assert(self.realloc_export_dispatch@ =~= old(self).realloc_export_dispatch@ + Seq::empty());
        }
        if let Some(m) = mem {
            self.memwrite_export_dispatch.push((rid, m));
        } else {
            assert(self.memwrite_export_dispatch@ =~= old(self).memwrite_export_dispatch@ + Seq::empty());
        }
        if let Some(post_return) = &opts.post_return {
            let (pr_func_id, pr_type_id) = match self.import_module_func(post_return.mid, &post_return.name, linking) {
                Some(x) => x,
                None => {
                    return Err(GlueError::PostReturnNotFound { name: post_return.name.clone(), instance: post_return.mid });
                },
            };
            let ghost s2 = *self;
            self.post_return_dispatch.push((rid, pr_func_id, pr_type_id));
            proof {
                assert forall|i: int| 0 <= i < self.post_return_dispatch@.len() implies
                    (#[trigger] self.post_return_dispatch@[i]).2 < self.module.types@.len()
                    && has_record(self.core_func_dispatch@, self.post_return_dispatch@[i].0) by {
                    if i < s2.post_return_dispatch@.len() {
                        assert(self.post_return_dispatch@[i] == s2.post_return_dispatch@[i]);
                    }
                }
            }
        } else {
            assert(self.post_return_dispatch@ =~= old(self).post_return_dispatch@ + Seq::empty());
        }
        Ok(())
    }
}

/// What registering exported function `e` of instance `iid` adds, from import
/// state `st`: the import state afterwards, the core-function entry, and the
/// realloc, memory-write and post-return entries (each present where the
/// export has that option).
pub open spec fn register_step(st: ImportState, e: ExportFuncMetadata, iid: ModuleInstanceID, linking: &LinkingMetadata)
    -> (ImportState, (u32, FuncRef, u32), Seq<(u32, FuncRef)>, Seq<(u32, u32)>, Seq<(u32, FuncRef, u32)>)
{
    let m = linking.instance_module(iid);
    let name = e.name@;
    let rid = e.record_id.0;
    let f = m.export_index(name);
    let opts = e.opts;
    let (s1, (gf, gt)) = import_func_spec(st, iid, name, instance_name_spec(linking, iid), m.func_params(f), m.func_results(f));
    let (s2, rf, mem) = realloc_memory_imports_spec(s1, opts.realloc, opts.memory, linking);
    let (s3, (pf, pt)) = post_return_import_spec(s2, opts.post_return, linking);
    (
        s3,
        (rid, gf, gt),
        if opts.realloc is Some { seq![(rid, rf)] } else { Seq::empty() },
        if opts.memory is Some { seq![(rid, mem)] } else { Seq::empty() },
        if opts.post_return is Some { seq![(rid, pf, pt)] } else { Seq::empty() },
    )
}

/// What registering the exported functions `efs` of instance `iid` in turn
/// adds, from import state `st`: the import state afterwards, and the
/// core-function, realloc, memory-write and post-return entries in order.
pub open spec fn registered_entries(st: ImportState, efs: Seq<ExportFuncMetadata>, iid: ModuleInstanceID, linking: &LinkingMetadata)
    -> (ImportState, Seq<(u32, FuncRef, u32)>, Seq<(u32, FuncRef)>, Seq<(u32, u32)>, Seq<(u32, FuncRef, u32)>)
    decreases efs.len(),
{
    if efs.len() == 0 {
        (st, Seq::empty(), Seq::empty(), Seq::empty(), Seq::empty())
    } else {
        let (s0, cf, ra, mw, pr) = registered_entries(st, efs.drop_last(), iid, linking);
        let (s1, c, r, w, p) = register_step(s0, efs.last(), iid, linking);
        (s1, cf.push(c), ra + r, mw + w, pr + p)
    }
}

/// The total byte size of scalar types.
pub fn total_bytes_of(tys: &Vec<DataType>) -> (r: u32)
    requires
        all_scalar(tys@),
        tys@.len() <= 0x1000_0000,
    ensures
        r == total_bytes(tys@),
{
    let n = tys.len();
    let mut total: u32 = 0;
    for i in 0..n
        invariant
            n == tys@.len(),
            n <= 0x1000_0000,
            all_scalar(tys@),
            total == prefix_bytes(tys@, i as int),
    {
        proof { lemma_prefix_bytes_bounds(tys@, i + 1); }
        total = total + data_type_byte_size(tys[i]);
    }
    total
}

} // verus!
