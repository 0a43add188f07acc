//! The dispatch interface of the glue module: dispatch tables, the functions
//! that the driver calls (checksum, realloc, memory write, core function,
//! post-return) and the finished module.
use vstd::prelude::*;

use vstd::array::array_as_slice;
use vstd::bytes::{lemma_auto_spec_u64_to_from_le_bytes, spec_u64_from_le_bytes, spec_u64_to_le_bytes, u64_from_le_bytes};
use vstd::slice::slice_subrange;

use crate::names::{decimal, decimal_spec};
use crate::glue::{
    alloc_ffi_instrs, direction_dispatch_instrs, emit_alloc_ffi_buffer, emit_direction_dispatch, emit_load_values,
    emit_store_size_descriptors, emit_store_values, load_vals_instrs, size_desc_instrs, store_vals_instrs, total_bytes_of,
    has_record, GlueBuilder, GLUE_CAPACITY,
};
use crate::wasm::{WasmModule, all_scalar, scalar_types, lemma_prefix_bytes_bounds, total_bytes, BlockType, DataType, Element, FuncBody, FuncExport, FuncRef, FuncType, Instr, Table};

verus! {

/// A function body as (name, params, results, locals, instrs).
pub open spec fn func_view(f: FuncBody) -> (Seq<char>, Seq<DataType>, Seq<DataType>, Seq<DataType>, Seq<Instr>) {
    (f.name@, f.params@, f.results@, f.locals@, f.instrs@)
}

/// An export as (name, function).
pub open spec fn export_view(e: FuncExport) -> (Seq<char>, FuncRef) {
    (e.name@, e.func)
}

/// An element segment as (table, offset, functions).
pub open spec fn element_view(e: Element) -> (u32, u32, Seq<FuncRef>) {
    (e.table, e.offset, e.funcs@)
}

/// A function type as (params, results).
pub open spec fn type_view(t: FuncType) -> (Seq<DataType>, Seq<DataType>) {
    (t.params@, t.results@)
}

/// `n` times `i32`.
pub open spec fn i32s(n: nat) -> Seq<DataType> {
    Seq::new(n, |i: int| DataType::I32)
}

/// The index of each dispatch entry.
pub open spec fn entry_ids(entries: Seq<(u32, FuncRef)>) -> Seq<u32> {
    entries.map_values(|e: (u32, FuncRef)| e.0)
}

/// The smallest table size that covers every index: one more than the
/// largest index, or zero without any.
pub open spec fn table_size_for(ids: Seq<u32>) -> nat
    decreases ids.len(),
{
    if ids.len() == 0 {
        0
    } else {
        let r = table_size_for(ids.drop_last());
        let c = ids.last() + 1;
        if c > r { c as nat } else { r }
    }
}

/// `table_size_for` covers every index, and is the smallest size that does.
pub proof fn lemma_table_size_for(ids: Seq<u32>)
    ensures
        forall|i: int| 0 <= i < ids.len() ==> ids[i] < table_size_for(ids),
        ids.len() == 0 ==> table_size_for(ids) == 0,
        ids.len() > 0 ==> exists|i: int| 0 <= i < ids.len() && ids[i] + 1 == table_size_for(ids),
    decreases ids.len(),
{
    if ids.len() > 0 {
        let d = ids.drop_last();
        lemma_table_size_for(d);
        assert forall|i: int| 0 <= i < ids.len() implies ids[i] < table_size_for(ids) by {
            if i < ids.len() - 1 {
                assert(ids[i] == d[i]);
            }
        }
        if d.len() > 0 && table_size_for(d) >= ids.last() + 1 {
            let j = choose|j: int| 0 <= j < d.len() && d[j] + 1 == table_size_for(d);
            assert(ids[j] == d[j]);
        } else {
            assert(ids[ids.len() - 1] + 1 == table_size_for(ids));
        }
    }
}

/// The element segments for dispatch entries: one per entry, placing its
/// function at its index in table `t`.
pub open spec fn entry_elements(t: u32, entries: Seq<(u32, FuncRef)>) -> Seq<(u32, u32, Seq<FuncRef>)> {
    entries.map_values(|e: (u32, FuncRef)| (t, e.0, seq![e.1]))
}

/// Computes `table_size_for` of the given indices.
pub fn table_size(ids: &Vec<u32>) -> (size: u32)
    requires
        forall|i: int| 0 <= i < ids@.len() ==> ids@[i] < u32::MAX,
    ensures
        size == table_size_for(ids@),
{
    let mut size: u32 = 0;
    let n = ids.len();
    for i in 0..n
        invariant
            n == ids@.len(),
            forall|i: int| 0 <= i < ids@.len() ==> ids@[i] < u32::MAX,
            size == table_size_for(ids@.take(i as int)),
    {
        assert(ids@.take(i + 1).drop_last() =~= ids@.take(i as int));
        if ids[i] + 1 > size {
            size = ids[i] + 1;
        }
    }
    assert(ids@.take(n as int) =~= ids@);
    size
}

/// The indices of dispatch entries.
pub fn entry_indices(entries: &Vec<(u32, FuncRef)>) -> (ids: Vec<u32>)
    ensures
        ids@ == entry_ids(entries@),
{
    let mut ids: Vec<u32> = Vec::new();
    let n = entries.len();
    for i in 0..n
        invariant
            n == entries@.len(),
            ids@ =~= entry_ids(entries@.take(i as int)),
    {
        ids.push(entries[i].0);
    }
    assert(entries@.take(n as int) =~= entries@);
    ids
}

impl GlueBuilder {
    /// The imports, caches, counters and dispatch entries are unchanged:
    /// only the module's types, functions, exports, tables and elements may
    /// have grown.
    pub open spec fn same_registrations(&self, other: &GlueBuilder) -> bool {
        &&& self.module.name == other.module.name
        &&& self.module.func_imports == other.module.func_imports
        &&& self.module.memory_imports == other.module.memory_imports
        &&& self.checksum == other.checksum
        &&& self.driver_memory == other.driver_memory
        &&& self.replay_host_call == other.replay_host_call
        &&& self.replay_builtin_call == other.replay_builtin_call
        &&& self.replay_instruction == other.replay_instruction
        &&& self.init_replayer == other.init_replayer
        &&& self.allocate_args_results_buffer == other.allocate_args_results_buffer
        &&& self.imported_memories == other.imported_memories
        &&& self.imported_funcs == other.imported_funcs
        &&& self.next_import_id == other.next_import_id
        &&& self.realloc_import_dispatch == other.realloc_import_dispatch
        &&& self.realloc_export_dispatch == other.realloc_export_dispatch
        &&& self.memwrite_import_dispatch == other.memwrite_import_dispatch
        &&& self.memwrite_export_dispatch == other.memwrite_export_dispatch
        &&& self.core_func_dispatch == other.core_func_dispatch
        &&& self.post_return_dispatch == other.post_return_dispatch
    }

    /// The invariants survive a change that only grows the module's types,
    /// functions, exports, tables and elements within the capacity.
    pub proof fn lemma_wf_registrations(&self, other: &GlueBuilder)
        requires
            self.wf(),
            self.dispatch_wf(),
            other.same_registrations(self),
            other.module.types@.len() >= self.module.types@.len(),
            other.load() <= GLUE_CAPACITY,
        ensures
            other.wf(),
            other.dispatch_wf(),
    {
        self.lemma_dispatch_wf_frame(other);
        assert forall|i: int| 0 <= i < other.imported_funcs@.len() implies {
            &&& (#[trigger] other.imported_funcs@[i]).func matches FuncRef::Import(k)
            &&& other.imported_funcs@[i].func->Import_0 < other.module.func_imports@.len()
            &&& other.imported_funcs@[i].type_index < other.module.types@.len()
        } by {
            assert(other.imported_funcs@[i] == self.imported_funcs@[i]);
        }
    }

    /// Adds one element segment per entry, placing its function at its index
    /// in table `t`.
    pub fn add_entry_elements(&mut self, t: u32, entries: &Vec<(u32, FuncRef)>)
        requires
            old(self).wf(),
            old(self).dispatch_wf(),
            old(self).load() + entries@.len() <= GLUE_CAPACITY,
        ensures
            final(self).wf(),
            final(self).dispatch_wf(),
            final(self).load() == old(self).load() + entries@.len(),
            final(self).same_registrations(old(self)),
            final(self).module.elements@.map_values(|e: Element| element_view(e))
                == old(self).module.elements@.map_values(|e: Element| element_view(e)) + entry_elements(t, entries@),
            final(self).module.tables == old(self).module.tables,
            final(self).module.types == old(self).module.types,
            final(self).module.funcs == old(self).module.funcs,
            final(self).module.exports == old(self).module.exports,
    {
        let n = entries.len();
        let ghost e0 = self.module.elements@;
        for i in 0..n
            invariant
                n == entries@.len(),
                self.module.elements@.len() == e0.len() + i,
                self.module.elements@.take(e0.len() as int) == e0,
                forall|j: int| 0 <= j < i ==>
                    element_view(#[trigger] self.module.elements@[e0.len() + j]) == (t, entries@[j].0, seq![entries@[j].1]),
                self.module.name == old(self).module.name,
                self.module.func_imports == old(self).module.func_imports,
                self.module.memory_imports == old(self).module.memory_imports,
                self.module.types == old(self).module.types,
                self.module.funcs == old(self).module.funcs,
                self.module.exports == old(self).module.exports,
                self.module.tables == old(self).module.tables,
                self.checksum == old(self).checksum,
                self.driver_memory == old(self).driver_memory,
                self.replay_host_call == old(self).replay_host_call,
                self.replay_builtin_call == old(self).replay_builtin_call,
                self.replay_instruction == old(self).replay_instruction,
                self.init_replayer == old(self).init_replayer,
                self.allocate_args_results_buffer == old(self).allocate_args_results_buffer,
                self.imported_memories == old(self).imported_memories,
                self.imported_funcs == old(self).imported_funcs,
                self.next_import_id == old(self).next_import_id,
                self.realloc_import_dispatch == old(self).realloc_import_dispatch,
                self.realloc_export_dispatch == old(self).realloc_export_dispatch,
                self.memwrite_import_dispatch == old(self).memwrite_import_dispatch,
                self.memwrite_export_dispatch == old(self).memwrite_export_dispatch,
                self.core_func_dispatch == old(self).core_func_dispatch,
                self.post_return_dispatch == old(self).post_return_dispatch,
        {
            let (idx, func) = entries[i];
            let mut funcs: Vec<FuncRef> = Vec::new();
            funcs.push(func);
            let ghost before = self.module.elements@;
            self.module.elements.push(Element { table: t, offset: idx, funcs });
            proof {
                assert forall|j: int| 0 <= j < i + 1 implies
                    element_view(#[trigger] self.module.elements@[e0.len() + j]) == (t, entries@[j].0, seq![entries@[j].1]) by {
                    if j < i {
                        assert(self.module.elements@[e0.len() + j] == before[e0.len() + j]);
                    } else {
                        assert(funcs@ =~= seq![entries@[j].1]);
                    }
                }
                assert(self.module.elements@.take(e0.len() as int) =~= before.take(e0.len() as int));
            }
        }
        proof {
            let lhs = self.module.elements@.map_values(|e: Element| element_view(e));
            let rhs = old(self).module.elements@.map_values(|e: Element| element_view(e)) + entry_elements(t, entries@);
            assert forall|j: int| 0 <= j < lhs.len() implies lhs[j] == rhs[j] by {
                if j < e0.len() {
                    assert(self.module.elements@[j] == self.module.elements@.take(e0.len() as int)[j]);
                } else {
                    assert(element_view(self.module.elements@[e0.len() + (j - e0.len())]) == (t, entries@[j - e0.len()].0, seq![entries@[j - e0.len()].1]));
                }
            }
            assert(lhs =~= rhs);
            old(self).lemma_wf_registrations(self);
        }
    }

    /// Adds a `funcref` table of the given size, with one element segment per
    /// entry placing its function at its index; returns the table's index.
    pub fn add_dispatch_table(&mut self, size: u32, entries: &Vec<(u32, FuncRef)>) -> (t: u32)
        requires
            old(self).wf(),
            old(self).dispatch_wf(),
            old(self).load() + 1 + entries@.len() <= GLUE_CAPACITY,
        ensures
            final(self).wf(),
            final(self).dispatch_wf(),
            final(self).load() == old(self).load() + 1 + entries@.len(),
            final(self).same_registrations(old(self)),
            t == old(self).module.tables@.len(),
            final(self).module.tables@ == old(self).module.tables@.push(Table { size }),
            final(self).module.elements@.map_values(|e: Element| element_view(e))
                == old(self).module.elements@.map_values(|e: Element| element_view(e)) + entry_elements(t, entries@),
            final(self).module.types == old(self).module.types,
            final(self).module.funcs == old(self).module.funcs,
            final(self).module.exports == old(self).module.exports,
    {
        let t = self.module.tables.len() as u32;
        self.module.tables.push(Table { size });
        proof { old(self).lemma_wf_registrations(self); }
        self.add_entry_elements(t, entries);
        t
    }

    /// Adds the import-side table, whose size is the number of assigned import
    /// indices, and the export-side table, whose size covers the largest
    /// record index; returns their indices.
    pub fn add_import_export_table_pair(
        &mut self,
        import_entries: &Vec<(u32, FuncRef)>,
        export_entries: &Vec<(u32, FuncRef)>,
    ) -> (r: (u32, u32))
        requires
            old(self).wf(),
            old(self).dispatch_wf(),
            old(self).load() + 2 + import_entries@.len() + export_entries@.len() <= GLUE_CAPACITY,
            forall|i: int| 0 <= i < export_entries@.len() ==> export_entries@[i].0 < u32::MAX,
        ensures
            final(self).wf(),
            final(self).dispatch_wf(),
            final(self).load() == old(self).load() + 2 + import_entries@.len() + export_entries@.len(),
            final(self).same_registrations(old(self)),
            r.0 == old(self).module.tables@.len(),
            r.1 == r.0 + 1,
            final(self).module.tables@ == old(self).module.tables@
                + seq![Table { size: old(self).next_import_id }, Table { size: table_size_for(entry_ids(export_entries@)) as u32 }],
            final(self).module.elements@.map_values(|e: Element| element_view(e))
                == old(self).module.elements@.map_values(|e: Element| element_view(e))
                    + entry_elements(r.0, import_entries@) + entry_elements(r.1, export_entries@),
            final(self).module.types == old(self).module.types,
            final(self).module.funcs == old(self).module.funcs,
            final(self).module.exports == old(self).module.exports,
    {
        let import_table_size = self.next_import_id;
        let import_table_idx = self.add_dispatch_table(import_table_size, import_entries);
        let ids = entry_indices(export_entries);
        assert forall|i: int| 0 <= i < ids@.len() implies ids@[i] < u32::MAX by {
            assert(ids@[i] == export_entries@[i].0);
        }
        let export_table_size = table_size(&ids);
        let export_table_idx = self.add_dispatch_table(export_table_size, export_entries);
        assert(self.module.tables@ =~= old(self).module.tables@
            + seq![Table { size: old(self).next_import_id }, Table { size: export_table_size }]);
        (import_table_idx, export_table_idx)
    }
}


/// The `i`-th little-endian quadword of a checksum.
pub open spec fn checksum_qword(c: Seq<u8>, i: int) -> u64 {
    spec_u64_from_le_bytes(c.subrange(8 * i, 8 * i + 8))
}

/// Stores of the first `n` quadwords of a checksum at the pointer held in
/// local 0, each at its byte offset.
pub open spec fn checksum_instrs(c: Seq<u8>, dm: u32, n: int) -> Seq<Instr>
    decreases n,
{
    if n <= 0 {
        Seq::empty()
    } else {
        checksum_instrs(c, dm, n - 1) + seq![
            Instr::LocalGet(0),
            Instr::I64Const(checksum_qword(c, n - 1) as i64),
            Instr::Store { ty: DataType::I64, offset: (8 * (n - 1)) as u64, memory: dm },
        ]
    }
}

/// The four quadwords stored by `get_sha256_checksum` hold the checksum's
/// bytes: the little-endian bytes of quadword `i` are bytes `8i..8i+8`.
pub proof fn lemma_checksum_qwords(c: Seq<u8>)
    requires
        c.len() == 32,
    ensures
        forall|i: int| 0 <= i < 4 ==> #[trigger] spec_u64_to_le_bytes(checksum_qword(c, i)) == c.subrange(8 * i, 8 * i + 8),
        spec_u64_to_le_bytes(checksum_qword(c, 0)) + spec_u64_to_le_bytes(checksum_qword(c, 1))
            + spec_u64_to_le_bytes(checksum_qword(c, 2)) + spec_u64_to_le_bytes(checksum_qword(c, 3)) == c,
{
    lemma_auto_spec_u64_to_from_le_bytes();
    assert forall|i: int| 0 <= i < 4 implies #[trigger] spec_u64_to_le_bytes(checksum_qword(c, i)) == c.subrange(8 * i, 8 * i + 8) by {
        assert(c.subrange(8 * i, 8 * i + 8).len() == 8);
    }
    assert(spec_u64_to_le_bytes(checksum_qword(c, 0)) == c.subrange(0, 8));
    assert(spec_u64_to_le_bytes(checksum_qword(c, 1)) == c.subrange(8, 16));
    assert(spec_u64_to_le_bytes(checksum_qword(c, 2)) == c.subrange(16, 24));
    assert(spec_u64_to_le_bytes(checksum_qword(c, 3)) == c.subrange(24, 32));
    assert(c.subrange(0, 8) + c.subrange(8, 16) + c.subrange(16, 24) + c.subrange(24, 32) =~= c);
}

/// The body of the realloc dispatch: `(direction, index, old_addr, old_size,
/// old_align, new_size) -> addr` calls the realloc at `index` of the export
/// table when `direction` is non-zero, of the import table otherwise.
pub open spec fn dispatch_realloc_instrs(realloc_type: u32, import_table: u32, export_table: u32) -> Seq<Instr> {
    direction_dispatch_instrs(0, 1, seq![2u32, 3u32, 4u32, 5u32], realloc_type, import_table, export_table, BlockType::Value(DataType::I32))
}

impl GlueBuilder {
    /// Adds a finished function and exports it under `name`.
    fn add_exported_func(&mut self, fb: FuncBody, name: &str) -> (f: FuncRef)
        requires
            old(self).wf(),
            old(self).dispatch_wf(),
            old(self).load() + 2 <= GLUE_CAPACITY,
        ensures
            final(self).wf(),
            final(self).dispatch_wf(),
            final(self).load() == old(self).load() + 2,
            final(self).same_registrations(old(self)),
            final(self).module.types == old(self).module.types,
            final(self).module.tables == old(self).module.tables,
            final(self).module.elements == old(self).module.elements,
            f == FuncRef::Local(old(self).module.funcs@.len() as u32),
            final(self).module.funcs@ == old(self).module.funcs@.push(fb),
            final(self).module.exports@.len() == old(self).module.exports@.len() + 1,
            final(self).module.exports@.drop_last() == old(self).module.exports@,
            export_view(final(self).module.exports@.last()) == (name@, f),
    {
        let f = self.module.add_func(fb);
        self.module.add_export_func(String::from_str(name), f);
        proof {
            assert(self.module.exports@.drop_last() =~= old(self).module.exports@);
            old(self).lemma_wf_registrations(self);
        }
        f
    }

    /// Builds `get_sha256_checksum(buf)`, which stores the embedded 32-byte
    /// checksum into driver memory at `buf` as four little-endian quadwords.
    pub fn build_get_sha256_checksum(&mut self)
        requires
            old(self).wf(),
            old(self).dispatch_wf(),
            old(self).load() + 2 <= GLUE_CAPACITY,
        ensures
            final(self).wf(),
            final(self).dispatch_wf(),
            final(self).load() == old(self).load() + 2,
            final(self).same_registrations(old(self)),
            final(self).module.types == old(self).module.types,
            final(self).module.tables == old(self).module.tables,
            final(self).module.elements == old(self).module.elements,
            final(self).module.funcs@.len() == old(self).module.funcs@.len() + 1,
            final(self).module.funcs@.drop_last() == old(self).module.funcs@,
            func_view(final(self).module.funcs@.last()) == (
                "get_sha256_checksum"@, seq![DataType::I32], Seq::<DataType>::empty(), Seq::<DataType>::empty(),
                checksum_instrs(old(self).checksum@, old(self).driver_memory, 4)),
            final(self).module.exports@.len() == old(self).module.exports@.len() + 1,
            final(self).module.exports@.drop_last() == old(self).module.exports@,
            export_view(final(self).module.exports@.last())
                == ("get_sha256_checksum"@, FuncRef::Local(old(self).module.funcs@.len() as u32)),
    {
        let params = vec![DataType::I32];
        let results: Vec<DataType> = Vec::new();
        let mut fb = FuncBody::new(&params, &results);
        fb.name = String::from_str("get_sha256_checksum");
        let driver_mem = self.driver_memory;
        let bytes = array_as_slice(&self.checksum);
        for i in 0..4usize
            invariant
                bytes@ == self.checksum@,
                self.checksum@.len() == 32,
                fb.instrs@ == checksum_instrs(self.checksum@, driver_mem, i as int),
                fb.locals@.len() == 0,
                fb.params@ == params@,
                fb.results@ == results@,
                fb.name@ == "get_sha256_checksum"@,
        {
            let byte_offset = i * 8;
            let qword = u64_from_le_bytes(slice_subrange(bytes, byte_offset, byte_offset + 8));
            fb.emit(Instr::LocalGet(0));
            fb.emit(Instr::I64Const(qword as i64));
            fb.emit(Instr::Store { ty: DataType::I64, offset: byte_offset as u64, memory: driver_mem });
            assert(fb.instrs@ =~= checksum_instrs(self.checksum@, driver_mem, i + 1));
        }
        assert(params@ =~= seq![DataType::I32]);
        assert(results@ =~= Seq::<DataType>::empty());
        self.add_exported_func(fb, "get_sha256_checksum");
        assert(self.module.funcs@.drop_last() =~= old(self).module.funcs@);
    }

    /// Builds `init_replayer()`, which forwards to the driver's `init_replayer`.
    pub fn build_init_replayer(&mut self)
        requires
            old(self).wf(),
            old(self).dispatch_wf(),
            old(self).load() + 2 <= GLUE_CAPACITY,
        ensures
            final(self).wf(),
            final(self).dispatch_wf(),
            final(self).load() == old(self).load() + 2,
            final(self).same_registrations(old(self)),
            final(self).module.types == old(self).module.types,
            final(self).module.tables == old(self).module.tables,
            final(self).module.elements == old(self).module.elements,
            final(self).module.funcs@.len() == old(self).module.funcs@.len() + 1,
            final(self).module.funcs@.drop_last() == old(self).module.funcs@,
            func_view(final(self).module.funcs@.last()) == (
                "init_replayer"@, Seq::<DataType>::empty(), Seq::<DataType>::empty(), Seq::<DataType>::empty(),
                seq![Instr::Call(old(self).init_replayer)]),
            final(self).module.exports@.len() == old(self).module.exports@.len() + 1,
            final(self).module.exports@.drop_last() == old(self).module.exports@,
            export_view(final(self).module.exports@.last())
                == ("init_replayer"@, FuncRef::Local(old(self).module.funcs@.len() as u32)),
    {
        let none: Vec<DataType> = Vec::new();
        let mut fb = FuncBody::new(&none, &none);
        fb.name = String::from_str("init_replayer");
        fb.emit(Instr::Call(self.init_replayer));
        assert(none@ =~= Seq::<DataType>::empty());
        assert(fb.instrs@ =~= seq![Instr::Call(self.init_replayer)]);
        self.add_exported_func(fb, "init_replayer");
        assert(self.module.funcs@.drop_last() =~= old(self).module.funcs@);
    }

    /// Builds `replay_instruction(result) -> i32`, which forwards the result
    /// of an instruction to the driver for validation and returns what the
    /// driver returns.
    pub fn build_replay_instruction(&mut self)
        requires
            old(self).wf(),
            old(self).dispatch_wf(),
            old(self).load() + 2 <= GLUE_CAPACITY,
        ensures
            final(self).wf(),
            final(self).dispatch_wf(),
            final(self).load() == old(self).load() + 2,
            final(self).same_registrations(old(self)),
            final(self).module.types == old(self).module.types,
            final(self).module.tables == old(self).module.tables,
            final(self).module.elements == old(self).module.elements,
            final(self).module.funcs@.len() == old(self).module.funcs@.len() + 1,
            final(self).module.funcs@.drop_last() == old(self).module.funcs@,
            func_view(final(self).module.funcs@.last()) == (
                "replay_instruction"@, seq![DataType::I32], seq![DataType::I32], Seq::<DataType>::empty(),
                seq![Instr::LocalGet(0), Instr::Call(old(self).replay_instruction)]),
            final(self).module.exports@.len() == old(self).module.exports@.len() + 1,
            final(self).module.exports@.drop_last() == old(self).module.exports@,
            export_view(final(self).module.exports@.last())
                == ("replay_instruction"@, FuncRef::Local(old(self).module.funcs@.len() as u32)),
    {
        let one = vec![DataType::I32];
        let mut fb = FuncBody::new(&one, &one);
        fb.name = String::from_str("replay_instruction");
        // Validate the result with the driver, which returns the recorded one
        fb.emit(Instr::LocalGet(0));
        fb.emit(Instr::Call(self.replay_instruction));
        assert(one@ =~= seq![DataType::I32]);
        assert(fb.instrs@ =~= seq![Instr::LocalGet(0), Instr::Call(self.replay_instruction)]);
        self.add_exported_func(fb, "replay_instruction");
        assert(self.module.funcs@.drop_last() =~= old(self).module.funcs@);
    }

    /// Builds `dispatch_realloc(direction, index, old_addr, old_size,
    /// old_align, new_size) -> i32`, which calls the registered realloc of an
    /// import (direction 0) or an export (otherwise) through a dispatch table.
    pub fn build_dispatch_realloc(&mut self)
        requires
            old(self).wf(),
            old(self).dispatch_wf(),
            old(self).load() + 5 + old(self).realloc_import_dispatch@.len()
                + old(self).realloc_export_dispatch@.len() <= GLUE_CAPACITY,
            forall|i: int| 0 <= i < old(self).realloc_export_dispatch@.len() ==>
                (#[trigger] old(self).realloc_export_dispatch@[i]).0 < u32::MAX,
        ensures
            final(self).wf(),
            final(self).dispatch_wf(),
            final(self).load() == old(self).load() + 5 + old(self).realloc_import_dispatch@.len()
                + old(self).realloc_export_dispatch@.len(),
            final(self).same_registrations(old(self)),
            ({
                let t = old(self).module.types@.len();
                let it = old(self).module.tables@.len() as u32;
                let k = old(self).module.funcs@.len();
                &&& final(self).module.types@.len() == old(self).module.types@.len() + 1
                &&& final(self).module.types@.drop_last() == old(self).module.types@
                &&& type_view(final(self).module.types@.last()) == (i32s(4), i32s(1))
                &&& final(self).module.tables@ == old(self).module.tables@ + seq![
                    Table { size: old(self).next_import_id },
                    Table { size: table_size_for(entry_ids(old(self).realloc_export_dispatch@)) as u32 },
                ]
                &&& final(self).module.elements@.map_values(|e: Element| element_view(e))
                    == old(self).module.elements@.map_values(|e: Element| element_view(e))
                        + entry_elements(it, old(self).realloc_import_dispatch@)
                        + entry_elements((it + 1) as u32, old(self).realloc_export_dispatch@)
                &&& final(self).module.funcs@.drop_last() == old(self).module.funcs@
                &&& func_view(final(self).module.funcs@.last()) == (
                    "dispatch_realloc"@, i32s(6), i32s(1), Seq::<DataType>::empty(),
                    dispatch_realloc_instrs(t as u32, it, (it + 1) as u32))
                &&& final(self).module.exports@.len() == old(self).module.exports@.len() + 1
                &&& final(self).module.exports@.drop_last() == old(self).module.exports@
                &&& export_view(final(self).module.exports@.last()) == ("dispatch_realloc"@, FuncRef::Local(k as u32))
            }),
    {
        // All reallocs share the type (i32, i32, i32, i32) -> i32
        let realloc_params = vec![DataType::I32, DataType::I32, DataType::I32, DataType::I32];
        let one = vec![DataType::I32];
        let realloc_type = self.module.add_func_type(&realloc_params, &one);
        proof {
            old(self).lemma_wf_registrations(self);
            assert(self.module.types@.drop_last() =~= old(self).module.types@);
        }
        let import_entries = clone_entries(&self.realloc_import_dispatch);
        let export_entries = clone_entries(&self.realloc_export_dispatch);
        let (import_table_idx, export_table_idx) = self.add_import_export_table_pair(&import_entries, &export_entries);

        let params = vec![DataType::I32, DataType::I32, DataType::I32, DataType::I32, DataType::I32, DataType::I32];
        let mut fb = FuncBody::new(&params, &one);
        fb.name = String::from_str("dispatch_realloc");
        // Locals: direction, index, old_addr, old_size, old_align, new_size
        let args = vec![2u32, 3u32, 4u32, 5u32];
        emit_direction_dispatch(
            &mut fb,
            0,
            1,
            &args,
            realloc_type,
            import_table_idx,
            export_table_idx,
            BlockType::Value(DataType::I32),
        );
        assert(args@ =~= seq![2u32, 3u32, 4u32, 5u32]);
        assert(params@ =~= i32s(6));
        assert(one@ =~= i32s(1));
        assert(realloc_params@ =~= i32s(4));
        assert(fb.instrs@ =~= dispatch_realloc_instrs(realloc_type, import_table_idx, export_table_idx));
        self.add_exported_func(fb, "dispatch_realloc");
        assert(self.module.funcs@.drop_last() =~= old(self).module.funcs@);
    }
}

/// A copy of dispatch entries.
pub fn clone_entries(entries: &Vec<(u32, FuncRef)>) -> (r: Vec<(u32, FuncRef)>)
    ensures
        r@ == entries@,
{
    let mut r: Vec<(u32, FuncRef)> = Vec::new();
    let n = entries.len();
    for i in 0..n
        invariant
            n == entries@.len(),
            r@ =~= entries@.take(i as int),
    {
        r.push(entries[i]);
    }
    assert(entries@.take(n as int) =~= entries@);
    r
}


/// The distinct elements of a sequence, in the order of their first occurrence.
pub open spec fn distinct_in_order(s: Seq<u32>) -> Seq<u32>
    decreases s.len(),
{
    if s.len() == 0 {
        Seq::empty()
    } else {
        let d = distinct_in_order(s.drop_last());
        if d.contains(s.last()) { d } else { d.push(s.last()) }
    }
}

/// The distinct elements in order of first appearance have no duplicates,
/// the same members, and are no more than the sequence.
pub proof fn lemma_distinct_in_order(s: Seq<u32>)
    ensures
        distinct_in_order(s).no_duplicates(),
        forall|x: u32| s.contains(x) <==> distinct_in_order(s).contains(x),
        distinct_in_order(s).len() <= s.len(),
    decreases s.len(),
{
    if s.len() > 0 {
        let t = s.drop_last();
        lemma_distinct_in_order(t);
        let d = distinct_in_order(t);
        let ds = distinct_in_order(s);
        assert forall|x: u32| s.contains(x) <==> ds.contains(x) by {
            if s.contains(x) {
                let i = choose|i: int| 0 <= i < s.len() && s[i] == x;
                if i < s.len() - 1 {
                    assert(t[i] == x);
                    assert(t.contains(x));
                    assert(d.contains(x));
                    let k = choose|k: int| 0 <= k < d.len() && d[k] == x;
                    assert(ds[k] == x);
                } else if d.contains(x) {
                    let k = choose|k: int| 0 <= k < d.len() && d[k] == x;
                    assert(ds[k] == x);
                } else {
                    assert(ds[ds.len() - 1] == x);
                }
            }
            if ds.contains(x) {
                let k = choose|k: int| 0 <= k < ds.len() && ds[k] == x;
                if k < d.len() {
                    assert(d[k] == x);
                    assert(d.contains(x));
                    assert(t.contains(x));
                    let i = choose|i: int| 0 <= i < t.len() && t[i] == x;
                    assert(s[i] == x);
                } else {
                    assert(s[s.len() - 1] == x);
                }
            }
        }
    }
}

/// The memories targeted by memory-write dispatch entries: those of the
/// import side, then those of the export side.
pub open spec fn memwrite_memories(imports: Seq<(u32, u32)>, exports: Seq<(u32, u32)>) -> Seq<u32> {
    imports.map_values(|e: (u32, u32)| e.1) + exports.map_values(|e: (u32, u32)| e.1)
}

/// The body of the memory-write wrapper of memory `m`: `(offset, bytes_ptr,
/// num_bytes)` copies `num_bytes` bytes from the driver memory at
/// `bytes_ptr` to memory `m` at `offset`.
pub open spec fn memwrite_wrapper_instrs(m: u32, dm: u32) -> Seq<Instr> {
    seq![Instr::LocalGet(0), Instr::LocalGet(1), Instr::LocalGet(2), Instr::MemoryCopy { dst: m, src: dm }]
}

/// The wrapper of memory `m`, the wrappers of the distinct memories `uniq`
/// being the functions from `k0` on.
pub open spec fn wrapper_ref(uniq: Seq<u32>, k0: nat, m: u32) -> FuncRef {
    FuncRef::Local((k0 + uniq.index_of(m)) as u32)
}

/// Memory-write dispatch entries with each memory replaced by its wrapper.
pub open spec fn wrapper_entries(entries: Seq<(u32, u32)>, uniq: Seq<u32>, k0: nat) -> Seq<(u32, FuncRef)> {
    entries.map_values(|e: (u32, u32)| (e.0, wrapper_ref(uniq, k0, e.1)))
}

/// The body of the memory-write dispatch: `(direction, index, offset,
/// bytes_ptr, num_bytes)` calls the wrapper at `index` of the export table
/// when `direction` is non-zero, of the import table otherwise.
pub open spec fn dispatch_memory_write_instrs(wrapper_type: u32, import_table: u32, export_table: u32) -> Seq<Instr> {
    direction_dispatch_instrs(0, 1, seq![2u32, 3u32, 4u32], wrapper_type, import_table, export_table, BlockType::Empty)
}

/// The position of `x` in `s`, if it occurs.
pub fn position_of(s: &Vec<u32>, x: u32) -> (r: Option<usize>)
    ensures
        match r {
            Some(i) => i < s@.len() && s@[i as int] == x,
            None => !s@.contains(x),
        },
{
    let n = s.len();
    for i in 0..n
        invariant
            n == s@.len(),
            forall|j: int| 0 <= j < i ==> s@[j] != x,
    {
        if s[i] == x {
            return Some(i);
        }
    }
    None
}

/// The memories of memory-write dispatch entries, import side first.
pub fn collect_memories(imports: &Vec<(u32, u32)>, exports: &Vec<(u32, u32)>) -> (r: Vec<u32>)
    ensures
        r@ == memwrite_memories(imports@, exports@),
{
    let mut r: Vec<u32> = Vec::new();
    let n = imports.len();
    for i in 0..n
        invariant
            n == imports@.len(),
            r@ =~= imports@.take(i as int).map_values(|e: (u32, u32)| e.1),
    {
        r.push(imports[i].1);
    }
    let ghost r0 = r@;
    assert(imports@.take(n as int) =~= imports@);
    let m = exports.len();
    for i in 0..m
        invariant
            m == exports@.len(),
            r@ =~= r0 + exports@.take(i as int).map_values(|e: (u32, u32)| e.1),
    {
        r.push(exports[i].1);
    }
    assert(exports@.take(m as int) =~= exports@);
    r
}

/// Replaces the memory of each entry by its wrapper.
pub fn map_to_wrappers(entries: &Vec<(u32, u32)>, uniq: &Vec<u32>, k0: u32) -> (r: Vec<(u32, FuncRef)>)
    requires
        uniq@.no_duplicates(),
        forall|i: int| 0 <= i < entries@.len() ==> uniq@.contains(#[trigger] entries@[i].1),
        k0 + uniq@.len() <= u32::MAX,
    ensures
        r@ == wrapper_entries(entries@, uniq@, k0 as nat),
{
    let mut r: Vec<(u32, FuncRef)> = Vec::new();
    let n = entries.len();
    for i in 0..n
        invariant
            n == entries@.len(),
            uniq@.no_duplicates(),
            forall|i: int| 0 <= i < entries@.len() ==> uniq@.contains(#[trigger] entries@[i].1),
            k0 + uniq@.len() <= u32::MAX,
            r@ =~= wrapper_entries(entries@.take(i as int), uniq@, k0 as nat),
    {
        let (idx, m) = entries[i];
        assert(uniq@.contains(entries@[i as int].1));
        let j = match position_of(uniq, m) {
            Some(j) => j,
            None => 0,
        };
        proof {
            let c = uniq@.index_of(m);
            assert(0 <= c < uniq@.len() && uniq@[c] == m);
            assert(c == j);
        }
        r.push((idx, FuncRef::Local(k0 + j as u32)));
    }
    assert(entries@.take(n as int) =~= entries@);
    r
}

impl GlueBuilder {
    /// Adds a memory-write wrapper for each distinct memory of `mems`, in the
    /// order of their first occurrence; returns those memories.
    fn add_memwrite_wrappers(&mut self, mems: &Vec<u32>) -> (uniq: Vec<u32>)
        requires
            old(self).wf(),
            old(self).dispatch_wf(),
            old(self).load() + mems@.len() <= GLUE_CAPACITY,
        ensures
            final(self).wf(),
            final(self).dispatch_wf(),
            uniq@ == distinct_in_order(mems@),
            final(self).load() == old(self).load() + uniq@.len(),
            final(self).same_registrations(old(self)),
            final(self).module.types == old(self).module.types,
            final(self).module.tables == old(self).module.tables,
            final(self).module.elements == old(self).module.elements,
            final(self).module.exports == old(self).module.exports,
            final(self).module.funcs@.len() == old(self).module.funcs@.len() + uniq@.len(),
            final(self).module.funcs@.take(old(self).module.funcs@.len() as int) == old(self).module.funcs@,
            forall|j: int| 0 <= j < uniq@.len() ==> func_view(#[trigger] final(self).module.funcs@[old(self).module.funcs@.len() + j]) == (
                "memwrite_wrapper_"@ + decimal_spec(uniq@[j] as nat), i32s(3), Seq::<DataType>::empty(),
                Seq::<DataType>::empty(), memwrite_wrapper_instrs(uniq@[j], old(self).driver_memory)),
    {
        let driver_mem = self.driver_memory;
        let three = vec![DataType::I32, DataType::I32, DataType::I32];
        let none: Vec<DataType> = Vec::new();
        assert(three@ =~= i32s(3));
        assert(none@ =~= Seq::<DataType>::empty());
        let mut uniq: Vec<u32> = Vec::new();
        let ghost k0 = self.module.funcs@.len();
        let n = mems.len();
        for i in 0..n
            invariant
                n == mems@.len(),
                three@ == i32s(3),
                none@ == Seq::<DataType>::empty(),
                driver_mem == old(self).driver_memory,
                k0 == old(self).module.funcs@.len(),
                old(self).wf(),
                old(self).dispatch_wf(),
                old(self).load() + mems@.len() <= GLUE_CAPACITY,
                uniq@ == distinct_in_order(mems@.take(i as int)),
                uniq@.len() <= i,
                self.wf(),
                self.dispatch_wf(),
                self.load() == old(self).load() + uniq@.len(),
                self.same_registrations(old(self)),
                self.module.types == old(self).module.types,
                self.module.tables == old(self).module.tables,
                self.module.elements == old(self).module.elements,
                self.module.exports == old(self).module.exports,
                self.module.funcs@.len() == k0 + uniq@.len(),
                self.module.funcs@.take(k0 as int) == old(self).module.funcs@,
                forall|j: int| 0 <= j < uniq@.len() ==> func_view(#[trigger] self.module.funcs@[k0 + j]) == (
                    "memwrite_wrapper_"@ + decimal_spec(uniq@[j] as nat), i32s(3), Seq::<DataType>::empty(),
                    Seq::<DataType>::empty(), memwrite_wrapper_instrs(uniq@[j], driver_mem)),
        {
            proof { lemma_distinct_in_order(mems@.take(i as int)); }
            assert(mems@.take(i + 1).drop_last() =~= mems@.take(i as int));
            let m = mems[i];
            if position_of(&uniq, m).is_none() {
                let mut wfb = FuncBody::new(&three, &none);
                let mut name = String::from_str("memwrite_wrapper_");
                let digits = decimal(m);
                name.append(digits.as_str());
                wfb.name = name;
                wfb.emit(Instr::LocalGet(0));
                wfb.emit(Instr::LocalGet(1));
                wfb.emit(Instr::LocalGet(2));
                wfb.emit(Instr::MemoryCopy { dst: m, src: driver_mem });
                assert(wfb.instrs@ =~= memwrite_wrapper_instrs(m, driver_mem));
                let ghost before = *self;
                self.module.add_func(wfb);
                uniq.push(m);
                proof {
                    before.lemma_wf_registrations(self);
                    assert(self.module.funcs@.take(k0 as int) =~= before.module.funcs@.take(k0 as int));
                    assert forall|j: int| 0 <= j < uniq@.len() implies func_view(#[trigger] self.module.funcs@[k0 + j]) == (
                        "memwrite_wrapper_"@ + decimal_spec(uniq@[j] as nat), i32s(3), Seq::<DataType>::empty(),
                        Seq::<DataType>::empty(), memwrite_wrapper_instrs(uniq@[j], driver_mem)) by {
                        if j < uniq@.len() - 1 {
                            assert(self.module.funcs@[k0 + j] == before.module.funcs@[k0 + j]);
                        }
                    }
                }
            }
        }
        assert(mems@.take(n as int) =~= mems@);
        uniq
    }

    /// Builds `dispatch_memory_write(direction, index, offset, bytes_ptr,
    /// num_bytes)`, which copies bytes from the driver memory into the
    /// registered memory of an import (direction 0) or an export (otherwise),
    /// through a wrapper per distinct memory and a dispatch table.
    pub fn build_dispatch_memory_write(&mut self)
        requires
            old(self).wf(),
            old(self).dispatch_wf(),
            old(self).load() + 5 + 2 * (old(self).memwrite_import_dispatch@.len()
                + old(self).memwrite_export_dispatch@.len()) <= GLUE_CAPACITY,
            forall|i: int| 0 <= i < old(self).memwrite_export_dispatch@.len() ==>
                (#[trigger] old(self).memwrite_export_dispatch@[i]).0 < u32::MAX,
        ensures
            final(self).wf(),
            final(self).dispatch_wf(),
            final(self).load() <= old(self).load() + 5 + 2 * (old(self).memwrite_import_dispatch@.len()
                + old(self).memwrite_export_dispatch@.len()),
            final(self).same_registrations(old(self)),
            ({
                let t = old(self).module.types@.len();
                let it = old(self).module.tables@.len() as u32;
                let k0 = old(self).module.funcs@.len();
                let dm = old(self).driver_memory;
                let uniq = distinct_in_order(memwrite_memories(old(self).memwrite_import_dispatch@, old(self).memwrite_export_dispatch@));
                let u = uniq.len();
                &&& final(self).module.types@.len() == old(self).module.types@.len() + 1
                &&& final(self).module.types@.drop_last() == old(self).module.types@
                &&& type_view(final(self).module.types@.last()) == (i32s(3), Seq::<DataType>::empty())
                &&& final(self).module.funcs@.len() == k0 + u + 1
                &&& final(self).module.funcs@.take(k0 as int) == old(self).module.funcs@
                &&& forall|j: int| 0 <= j < u ==> func_view(#[trigger] final(self).module.funcs@[k0 + j]) == (
                    "memwrite_wrapper_"@ + decimal_spec(uniq[j] as nat), i32s(3), Seq::<DataType>::empty(),
                    Seq::<DataType>::empty(), memwrite_wrapper_instrs(uniq[j], dm))
                &&& final(self).module.tables@ == old(self).module.tables@ + seq![
                    Table { size: old(self).next_import_id },
                    Table { size: table_size_for(entry_ids(wrapper_entries(old(self).memwrite_export_dispatch@, uniq, k0))) as u32 },
                ]
                &&& final(self).module.elements@.map_values(|e: Element| element_view(e))
                    == old(self).module.elements@.map_values(|e: Element| element_view(e))
                        + entry_elements(it, wrapper_entries(old(self).memwrite_import_dispatch@, uniq, k0))
                        + entry_elements((it + 1) as u32, wrapper_entries(old(self).memwrite_export_dispatch@, uniq, k0))
                &&& func_view(final(self).module.funcs@.last()) == (
                    "dispatch_memory_write"@, i32s(5), Seq::<DataType>::empty(), Seq::<DataType>::empty(),
                    dispatch_memory_write_instrs(t as u32, it, (it + 1) as u32))
                &&& final(self).module.exports@.len() == old(self).module.exports@.len() + 1
                &&& final(self).module.exports@.drop_last() == old(self).module.exports@
                &&& export_view(final(self).module.exports@.last()) == ("dispatch_memory_write"@, FuncRef::Local((k0 + u) as u32))
            }),
    {
        // Wrapper type: (i32, i32, i32) -> ()
        let three = vec![DataType::I32, DataType::I32, DataType::I32];
        let none: Vec<DataType> = Vec::new();
        let wrapper_type = self.module.add_func_type(&three, &none);
        proof {
            old(self).lemma_wf_registrations(self);
            assert(self.module.types@.drop_last() =~= old(self).module.types@);
            assert(three@ =~= i32s(3));
            assert(none@ =~= Seq::<DataType>::empty());
        }
        let k0 = self.module.funcs.len() as u32;

        // A wrapper per distinct memory
        let mems = collect_memories(&self.memwrite_import_dispatch, &self.memwrite_export_dispatch);
        let uniq = self.add_memwrite_wrappers(&mems);
        proof { lemma_distinct_in_order(mems@); }
        assert forall|i: int| 0 <= i < self.memwrite_import_dispatch@.len() implies
            uniq@.contains(#[trigger] self.memwrite_import_dispatch@[i].1) by {
            assert(mems@[i] == self.memwrite_import_dispatch@[i].1);
            assert(mems@.contains(mems@[i]));
        }
        assert forall|i: int| 0 <= i < self.memwrite_export_dispatch@.len() implies
            uniq@.contains(#[trigger] self.memwrite_export_dispatch@[i].1) by {
            let k = self.memwrite_import_dispatch@.len() + i;
            assert(mems@[k] == self.memwrite_export_dispatch@[i].1);
            assert(mems@.contains(mems@[k]));
        }
        let import_entries = map_to_wrappers(&self.memwrite_import_dispatch, &uniq, k0);
        let export_entries = map_to_wrappers(&self.memwrite_export_dispatch, &uniq, k0);
        assert forall|i: int| 0 <= i < export_entries@.len() implies export_entries@[i].0 < u32::MAX by {
            assert(export_entries@[i].0 == old(self).memwrite_export_dispatch@[i].0);
        }
        let (import_table_idx, export_table_idx) = self.add_import_export_table_pair(&import_entries, &export_entries);

        let params = vec![DataType::I32, DataType::I32, DataType::I32, DataType::I32, DataType::I32];
        let mut fb = FuncBody::new(&params, &none);
        fb.name = String::from_str("dispatch_memory_write");
        // Locals: direction, index, offset, bytes_ptr, num_bytes
        let args = vec![2u32, 3u32, 4u32];
        emit_direction_dispatch(&mut fb, 0, 1, &args, wrapper_type, import_table_idx, export_table_idx, BlockType::Empty);
        assert(args@ =~= seq![2u32, 3u32, 4u32]);
        assert(params@ =~= i32s(5));
        assert(fb.instrs@ =~= dispatch_memory_write_instrs(wrapper_type, import_table_idx, export_table_idx));
        let ghost funcs1 = self.module.funcs@;
        self.add_exported_func(fb, "dispatch_memory_write");
        proof {
            assert(self.module.funcs@.take(k0 as int) =~= funcs1.take(k0 as int));
            assert forall|j: int| 0 <= j < uniq@.len() implies #[trigger] self.module.funcs@[k0 + j] == funcs1[k0 + j] by {}
        }
    }
}


/// The locals `base, base + 1, ..., base + n - 1`.
pub open spec fn locals_from(base: nat, n: nat) -> Seq<u32> {
    Seq::new(n, |i: int| (base + i) as u32)
}

/// The body of the post-return wrapper of a function with parameters
/// `params`: `(args_ptr)` loads the arguments from the driver memory at
/// `args_ptr` and calls the function.
pub open spec fn post_return_wrapper_instrs(params: Seq<DataType>, f: FuncRef, dm: u32) -> Seq<Instr> {
    load_vals_instrs(params, 0, dm, params.len() as int) + seq![Instr::Call(f)]
}

/// The body of the core-function wrapper of a function with signature
/// `params -> results`: `(args_ptr, return_bytes_len, return_sizes_len)`
/// loads the arguments from `args_ptr`, calls the function, stores the
/// results with their size descriptors into a fresh driver buffer, and writes
/// the byte length and the count of the results to the two out-pointers.
pub open spec fn core_wrapper_instrs(params: Seq<DataType>, results: Seq<DataType>, f: FuncRef, alloc: FuncRef, dm: u32) -> Seq<Instr> {
    let nr = results.len();
    let total = total_bytes(results) as u32;
    load_vals_instrs(params, 0, dm, params.len() as int) + seq![Instr::Call(f)]
        + (if nr > 0 {
            Seq::new(nr, |i: int| Instr::LocalSet((3 + nr - 1 - i) as u32))
                + alloc_ffi_instrs(total, nr as u32, alloc, dm, (3 + nr) as u32)
                + store_vals_instrs(results, locals_from(3, nr), (4 + nr) as u32, dm, nr as int)
                + size_desc_instrs(results, (5 + nr) as u32, dm, nr as int)
        } else {
            Seq::empty()
        })
        + seq![
            Instr::LocalGet(1),
            Instr::I32Const(total as i32),
            Instr::Store { ty: DataType::I32, offset: 0, memory: dm },
            Instr::LocalGet(2),
            Instr::I32Const(nr as i32),
            Instr::Store { ty: DataType::I32, offset: 0, memory: dm },
        ]
}

/// The locals of a core-function wrapper.
pub open spec fn core_wrapper_locals(results: Seq<DataType>) -> Seq<DataType> {
    if results.len() > 0 { results + i32s(3) } else { Seq::empty() }
}

/// The record indices of per-export dispatch entries.
pub open spec fn record_ids(entries: Seq<(u32, FuncRef, u32)>) -> Seq<u32> {
    entries.map_values(|e: (u32, FuncRef, u32)| e.0)
}

/// The dispatch entries of per-export wrappers that are the functions from `k0` on.
pub open spec fn wrapper_table_entries(entries: Seq<(u32, FuncRef, u32)>, k0: nat) -> Seq<(u32, FuncRef)> {
    Seq::new(entries.len(), |j: int| (entries[j].0, FuncRef::Local((k0 + j) as u32)))
}

/// The record indices of per-export dispatch entries.
pub fn record_indices(entries: &Vec<(u32, FuncRef, u32)>) -> (ids: Vec<u32>)
    ensures
        ids@ == record_ids(entries@),
{
    let mut ids: Vec<u32> = Vec::new();
    let n = entries.len();
    for i in 0..n
        invariant
            n == entries@.len(),
            ids@ =~= record_ids(entries@.take(i as int)),
    {
        ids.push(entries[i].0);
    }
    assert(entries@.take(n as int) =~= entries@);
    ids
}

/// The post-return wrapper of record `rid` for a function with parameters `params`.
pub fn post_return_wrapper(rid: u32, params: &Vec<DataType>, f: FuncRef, dm: u32) -> (fb: FuncBody)
    requires
        all_scalar(params@),
        params@.len() <= 0x1000_0000,
    ensures
        func_view(fb) == ("post_return_wrapper_"@ + decimal_spec(rid as nat), seq![DataType::I32],
            Seq::<DataType>::empty(), Seq::<DataType>::empty(), post_return_wrapper_instrs(params@, f, dm)),
{
    let one = vec![DataType::I32];
    let none: Vec<DataType> = Vec::new();
    let mut wfb = FuncBody::new(&one, &none);
    let mut name = String::from_str("post_return_wrapper_");
    let digits = decimal(rid);
    name.append(digits.as_str());
    wfb.name = name;
    // Load each argument from args_ptr
    emit_load_values(&mut wfb, params, 0, dm);
    wfb.emit(Instr::Call(f));
    assert(one@ =~= seq![DataType::I32]);
    assert(none@ =~= Seq::<DataType>::empty());
    assert(wfb.instrs@ =~= post_return_wrapper_instrs(params@, f, dm));
    wfb
}

/// The core-function wrapper of record `rid` for a function with signature
/// `params -> results`.
pub fn core_func_wrapper(
    rid: u32,
    params: &Vec<DataType>,
    results: &Vec<DataType>,
    f: FuncRef,
    alloc: FuncRef,
    dm: u32,
) -> (fb: FuncBody)
    requires
        all_scalar(params@),
        all_scalar(results@),
        params@.len() <= 0x1000_0000,
        results@.len() <= 0x1000_0000,
    ensures
        func_view(fb) == ("core_func_wrapper_"@ + decimal_spec(rid as nat), i32s(3), Seq::<DataType>::empty(),
            core_wrapper_locals(results@), core_wrapper_instrs(params@, results@, f, alloc, dm)),
{
    let three = vec![DataType::I32, DataType::I32, DataType::I32];
    let none: Vec<DataType> = Vec::new();
    let mut wfb = FuncBody::new(&three, &none);
    let mut name = String::from_str("core_func_wrapper_");
    let digits = decimal(rid);
    name.append(digits.as_str());
    wfb.name = name;
    proof { lemma_prefix_bytes_bounds(results@, results@.len() as int); }
    let total = total_bytes_of(results);
    let num_results = results.len() as u32;

    // Load each argument from args_ptr (driver memory), then call
    emit_load_values(&mut wfb, params, 0, dm);
    wfb.emit(Instr::Call(f));
    let ghost i1 = wfb.instrs@;

    let ghost nm = wfb.name@;
    let ghost ps = wfb.params@;
    let ghost rs = wfb.results@;
    // Save the results to locals and store them into an FFI buffer
    if num_results > 0 {
        let mut result_locals: Vec<u32> = Vec::new();
        for i in 0..num_results
            invariant
                num_results == results@.len(),
                num_results <= 0x1000_0000,
                wfb.params@ == ps && ps.len() == 3,
                wfb.name@ == nm,
                wfb.results@ == rs,
                wfb.locals@ =~= results@.take(i as int),
                result_locals@ =~= locals_from(3, i as nat),
                wfb.instrs@ == i1,
        {
            let l = wfb.add_local(results[i as usize]);
            result_locals.push(l);
        }
        assert(results@.take(num_results as int) =~= results@);
        let ghost i2 = wfb.instrs@;
        let mut j = num_results;
        while j > 0
            invariant
                j <= num_results,
                num_results == results@.len(),
                result_locals@ == locals_from(3, num_results as nat),
                wfb.instrs@ =~= i2 + Seq::new((num_results - j) as nat, |i: int| Instr::LocalSet((3 + num_results - 1 - i) as u32)),
                wfb.locals@ == results@,
                wfb.params@ == ps && ps.len() == 3,
                wfb.name@ == nm,
                wfb.results@ == rs,
            decreases j,
        {
            j = j - 1;
            wfb.emit(Instr::LocalSet(result_locals[j as usize]));
        }
        let ghost i3 = wfb.instrs@;
        let (_ffi_ptr, w_bytes_ptr, w_sizes_ptr) = emit_alloc_ffi_buffer(&mut wfb, total, num_results, alloc, dm);
        let ghost i4 = wfb.instrs@;
        // Store each result value into bytes_ptr, then the size descriptors
        emit_store_values(&mut wfb, results, &result_locals, w_bytes_ptr, dm);
        emit_store_size_descriptors(&mut wfb, results, w_sizes_ptr, dm);
        assert(wfb.instrs@ =~= i1
            + Seq::new(num_results as nat, |i: int| Instr::LocalSet((3 + num_results - 1 - i) as u32))
            + alloc_ffi_instrs(total, num_results, alloc, dm, (3 + num_results) as u32)
            + store_vals_instrs(results@, locals_from(3, num_results as nat), (4 + num_results) as u32, dm, num_results as int)
            + size_desc_instrs(results@, (5 + num_results) as u32, dm, num_results as int));
        assert(wfb.locals@ =~= core_wrapper_locals(results@));
    } else {
        assert(wfb.locals@ =~= core_wrapper_locals(results@));
        assert(wfb.instrs@ =~= i1 + Seq::empty());
    }
    let ghost i5 = wfb.instrs@;

    // Write the return lengths to the out-pointers
    wfb.emit(Instr::LocalGet(1));
    wfb.emit(Instr::I32Const(total as i32));
    wfb.emit(Instr::Store { ty: DataType::I32, offset: 0, memory: dm });
    wfb.emit(Instr::LocalGet(2));
    wfb.emit(Instr::I32Const(num_results as i32));
    wfb.emit(Instr::Store { ty: DataType::I32, offset: 0, memory: dm });
    assert(three@ =~= i32s(3));
    assert(none@ =~= Seq::<DataType>::empty());
    assert(wfb.instrs@ =~= core_wrapper_instrs(params@, results@, f, alloc, dm));
    wfb
}


/// The body of the post-return dispatch: `(export_index, args_ptr)` calls the
/// wrapper at `export_index` of the post-return table.
pub open spec fn dispatch_post_return_instrs(wrapper_type: u32, table: u32) -> Seq<Instr> {
    seq![Instr::LocalGet(1), Instr::LocalGet(0), Instr::CallIndirect { type_index: wrapper_type, table }]
}

/// The body of the core-function dispatch: `(export_index, args_ptr,
/// return_bytes_len, return_sizes_len)` calls the wrapper at `export_index`
/// of the core-function table.
pub open spec fn dispatch_core_func_instrs(wrapper_type: u32, table: u32) -> Seq<Instr> {
    seq![
        Instr::LocalGet(1),
        Instr::LocalGet(2),
        Instr::LocalGet(3),
        Instr::LocalGet(0),
        Instr::CallIndirect { type_index: wrapper_type, table },
    ]
}

/// The parameters of the function type at `t` of a builder's module.
pub open spec fn type_params(b: &GlueBuilder, t: u32) -> Seq<DataType> {
    b.module.types@[t as int].params@
}

/// The results of the function type at `t` of a builder's module.
pub open spec fn type_results(b: &GlueBuilder, t: u32) -> Seq<DataType> {
    b.module.types@[t as int].results@
}

/// Every registered post-return has scalar parameters.
pub open spec fn post_returns_scalar(b: &GlueBuilder) -> bool {
    forall|i: int| 0 <= i < b.post_return_dispatch@.len() ==> {
        let ps = type_params(b, (#[trigger] b.post_return_dispatch@[i]).2);
        all_scalar(ps) && ps.len() <= 0x1000_0000
    }
}

/// Every registered core function has scalar parameters and results.
pub open spec fn core_funcs_scalar(b: &GlueBuilder) -> bool {
    forall|i: int| 0 <= i < b.core_func_dispatch@.len() ==> {
        let ps = type_params(b, (#[trigger] b.core_func_dispatch@[i]).2);
        let rs = type_results(b, b.core_func_dispatch@[i].2);
        all_scalar(ps) && ps.len() <= 0x1000_0000 && all_scalar(rs) && rs.len() <= 0x1000_0000
    }
}

/// Every record index of the registered core functions is below `u32::MAX`.
pub open spec fn record_ids_bounded(b: &GlueBuilder) -> bool {
    forall|i: int| 0 <= i < b.core_func_dispatch@.len() ==> (#[trigger] b.core_func_dispatch@[i]).0 < u32::MAX
}

impl GlueBuilder {
    /// Adds the post-return wrappers of the registered post-returns, in
    /// order; returns their dispatch entries.
    fn add_post_return_wrappers(&mut self) -> (entries: Vec<(u32, FuncRef)>)
        requires
            old(self).wf(),
            old(self).dispatch_wf(),
            post_returns_scalar(old(self)),
            old(self).load() + old(self).post_return_dispatch@.len() <= GLUE_CAPACITY,
        ensures
            final(self).wf(),
            final(self).dispatch_wf(),
            post_returns_scalar(final(self)),
            final(self).load() == old(self).load() + old(self).post_return_dispatch@.len(),
            final(self).same_registrations(old(self)),
            final(self).module.types == old(self).module.types,
            final(self).module.tables == old(self).module.tables,
            final(self).module.elements == old(self).module.elements,
            final(self).module.exports == old(self).module.exports,
            final(self).module.funcs@.len() == old(self).module.funcs@.len() + old(self).post_return_dispatch@.len(),
            final(self).module.funcs@.take(old(self).module.funcs@.len() as int) == old(self).module.funcs@,
            forall|j: int| 0 <= j < old(self).post_return_dispatch@.len() ==> func_view(
                #[trigger] final(self).module.funcs@[old(self).module.funcs@.len() + j]) == (
                "post_return_wrapper_"@ + decimal_spec(old(self).post_return_dispatch@[j].0 as nat),
                seq![DataType::I32], Seq::<DataType>::empty(), Seq::<DataType>::empty(),
                post_return_wrapper_instrs(type_params(old(self), old(self).post_return_dispatch@[j].2),
                    old(self).post_return_dispatch@[j].1, old(self).driver_memory)),
            entries@ == wrapper_table_entries(old(self).post_return_dispatch@, old(self).module.funcs@.len()),
    {
        let driver_mem = self.driver_memory;
        let ghost k0 = self.module.funcs@.len();
        let mut entries: Vec<(u32, FuncRef)> = Vec::new();
        let n = self.post_return_dispatch.len();
        for j in 0..n
            invariant
                n == old(self).post_return_dispatch@.len(),
                driver_mem == old(self).driver_memory,
                k0 == old(self).module.funcs@.len(),
                old(self).load() + n <= GLUE_CAPACITY,
                self.wf(),
                self.dispatch_wf(),
                post_returns_scalar(self),
                self.load() == old(self).load() + j,
                self.same_registrations(old(self)),
                self.module.types == old(self).module.types,
                self.module.tables == old(self).module.tables,
                self.module.elements == old(self).module.elements,
                self.module.exports == old(self).module.exports,
                self.module.funcs@.len() == k0 + j,
                self.module.funcs@.take(k0 as int) == old(self).module.funcs@,
                forall|i: int| 0 <= i < j ==> func_view(#[trigger] self.module.funcs@[k0 + i]) == (
                    "post_return_wrapper_"@ + decimal_spec(old(self).post_return_dispatch@[i].0 as nat),
                    seq![DataType::I32], Seq::<DataType>::empty(), Seq::<DataType>::empty(),
                    post_return_wrapper_instrs(type_params(old(self), old(self).post_return_dispatch@[i].2),
                        old(self).post_return_dispatch@[i].1, driver_mem)),
                entries@ =~= wrapper_table_entries(old(self).post_return_dispatch@.take(j as int), k0),
        {
            let (rid, f, ti) = self.post_return_dispatch[j];
            assert(ti < self.module.types@.len());
            let params = self.module.types[ti as usize].params.clone();
            let w = post_return_wrapper(rid, &params, f, driver_mem);
            let ghost before = *self;
            let wid = self.module.add_func(w);
            entries.push((rid, wid));
            proof {
                before.lemma_wf_registrations(self);
                assert(self.module.funcs@.take(k0 as int) =~= before.module.funcs@.take(k0 as int));
                assert forall|i: int| 0 <= i < j + 1 implies func_view(#[trigger] self.module.funcs@[k0 + i]) == (
                    "post_return_wrapper_"@ + decimal_spec(old(self).post_return_dispatch@[i].0 as nat),
                    seq![DataType::I32], Seq::<DataType>::empty(), Seq::<DataType>::empty(),
                    post_return_wrapper_instrs(type_params(old(self), old(self).post_return_dispatch@[i].2),
                        old(self).post_return_dispatch@[i].1, driver_mem)) by {
                    if i < j {
                        assert(self.module.funcs@[k0 + i] == before.module.funcs@[k0 + i]);
                    }
                }
            }
        }
        assert(old(self).post_return_dispatch@.take(n as int) =~= old(self).post_return_dispatch@);
        entries
    }

    /// Builds `dispatch_post_return(export_index, args_ptr)`: a wrapper
    /// `(args_ptr)` per registered post-return, a table whose every slot up to
    /// the largest record index holds a no-op and whose registered slots hold
    /// the wrappers, and the dispatch through that table.
    #[verifier::rlimit(40)]
    pub fn build_dispatch_post_return(&mut self)
        requires
            old(self).wf(),
            old(self).dispatch_wf(),
            post_returns_scalar(old(self)),
            record_ids_bounded(old(self)),
            old(self).load() + 6 + 2 * old(self).post_return_dispatch@.len() <= GLUE_CAPACITY,
        ensures
            final(self).wf(),
            final(self).dispatch_wf(),
            final(self).load() <= old(self).load() + 6 + 2 * old(self).post_return_dispatch@.len(),
            final(self).same_registrations(old(self)),
            ({
                let t = old(self).module.types@.len();
                let it = old(self).module.tables@.len() as u32;
                let k0 = old(self).module.funcs@.len();
                let pr = old(self).post_return_dispatch@;
                let n = pr.len();
                let size = table_size_for(record_ids(old(self).core_func_dispatch@));
                &&& final(self).module.types@.len() == old(self).module.types@.len() + 1
                &&& final(self).module.types@.drop_last() == old(self).module.types@
                &&& type_view(final(self).module.types@.last()) == (seq![DataType::I32], Seq::<DataType>::empty())
                &&& final(self).module.funcs@.len() == k0 + n + 2
                &&& final(self).module.funcs@.take(k0 as int) == old(self).module.funcs@
                &&& func_view(final(self).module.funcs@[k0 as int]) == ("post_return_noop"@, seq![DataType::I32],
                    Seq::<DataType>::empty(), Seq::<DataType>::empty(), Seq::<Instr>::empty())
                &&& forall|j: int| 0 <= j < n ==> func_view(#[trigger] final(self).module.funcs@[k0 + 1 + j]) == (
                    "post_return_wrapper_"@ + decimal_spec(pr[j].0 as nat),
                    seq![DataType::I32], Seq::<DataType>::empty(), Seq::<DataType>::empty(),
                    post_return_wrapper_instrs(type_params(old(self), pr[j].2), pr[j].1, old(self).driver_memory))
                &&& func_view(final(self).module.funcs@[(k0 + n + 1) as int]) == ("dispatch_post_return"@,
                    seq![DataType::I32, DataType::I32], Seq::<DataType>::empty(), Seq::<DataType>::empty(),
                    dispatch_post_return_instrs(t as u32, it))
                &&& final(self).module.tables@ == old(self).module.tables@.push(Table { size: size as u32 })
                &&& final(self).module.elements@.map_values(|e: Element| element_view(e))
                    == old(self).module.elements@.map_values(|e: Element| element_view(e))
                        + (if size > 0 { seq![(it, 0u32, Seq::new(size, |i: int| FuncRef::Local(k0 as u32)))] } else { Seq::empty() })
                        + entry_elements(it, wrapper_table_entries(pr, k0 + 1))
                &&& final(self).module.exports@.len() == old(self).module.exports@.len() + 1
                &&& final(self).module.exports@.drop_last() == old(self).module.exports@
                &&& export_view(final(self).module.exports@.last()) == ("dispatch_post_return"@, FuncRef::Local((k0 + n + 1) as u32))
                &&& forall|j: int| 0 <= j < n ==> (#[trigger] pr[j]).0 < size
            }),
    {
        let driver_mem = self.driver_memory;
        // Wrapper type: (i32) -> ()
        let one = vec![DataType::I32];
        let none: Vec<DataType> = Vec::new();
        let wrapper_type = self.module.add_func_type(&one, &none);
        proof {
            old(self).lemma_wf_registrations(self);
            assert(self.module.types@.drop_last() =~= old(self).module.types@);
            assert(one@ =~= seq![DataType::I32]);
            assert(none@ =~= Seq::<DataType>::empty());
        }
        let ghost s1 = *self;

        // The no-op for unregistered slots
        let mut noop_fb = FuncBody::new(&one, &none);
        noop_fb.name = String::from_str("post_return_noop");
        let noop_id = self.module.add_func(noop_fb);
        proof { s1.lemma_wf_registrations(self); }
        let ghost s2 = *self;

        // The table covers every record index of the registered exports
        let ids = record_indices(&self.core_func_dispatch);
        assert forall|i: int| 0 <= i < ids@.len() implies ids@[i] < u32::MAX by {
            assert(ids@[i] == self.core_func_dispatch@[i].0);
        }
        let table_size = table_size(&ids);

        // A wrapper per registered post-return
        let table_entries = self.add_post_return_wrappers();
        let ghost s3 = *self;

        // The table: every slot holds the no-op, then the registered slots
        // are overwritten
        let table_index = self.module.tables.len() as u32;
        self.module.tables.push(Table { size: table_size });
        let ghost e0 = self.module.elements@;
        if table_size > 0 {
            let mut funcs: Vec<FuncRef> = Vec::new();
            for i in 0..table_size
                invariant
                    funcs@ =~= Seq::new(i as nat, |k: int| noop_id),
            {
                funcs.push(noop_id);
            }
            self.module.elements.push(Element { table: table_index, offset: 0, funcs });
        }
        proof { s3.lemma_wf_registrations(self); }
        let ghost e1 = self.module.elements@;
        self.add_entry_elements(table_index, &table_entries);

        // The dispatch: forward to call_indirect
        let two = vec![DataType::I32, DataType::I32];
        let mut fb = FuncBody::new(&two, &none);
        fb.name = String::from_str("dispatch_post_return");
        fb.emit(Instr::LocalGet(1));
        fb.emit(Instr::LocalGet(0));
        fb.emit(Instr::CallIndirect { type_index: wrapper_type, table: table_index });
        assert(two@ =~= seq![DataType::I32, DataType::I32]);
        assert(fb.instrs@ =~= dispatch_post_return_instrs(wrapper_type, table_index));
        let ghost s4 = *self;
        self.add_exported_func(fb, "dispatch_post_return");
        proof {
            let k0 = old(self).module.funcs@.len();
            let n = old(self).post_return_dispatch@.len();
            assert(self.module.funcs@.take(k0 as int) =~= s2.module.funcs@.take(k0 as int));
            assert(s2.module.funcs@.take(k0 as int) =~= old(self).module.funcs@);
            assert(self.module.funcs@[k0 as int] == s2.module.funcs@[k0 as int]);
            assert forall|j: int| 0 <= j < n implies #[trigger] self.module.funcs@[k0 + 1 + j] == s3.module.funcs@[k0 + 1 + j] by {}
            let size = table_size_for(record_ids(old(self).core_func_dispatch@));
            let noops = if size > 0 { seq![(table_index, 0u32, Seq::new(size, |i: int| FuncRef::Local(k0 as u32)))] } else { Seq::<(u32, u32, Seq<FuncRef>)>::empty() };
            let ev = |e: Element| element_view(e);
            assert(e1.map_values(ev) =~= e0.map_values(ev) + noops);
            lemma_table_size_for(record_ids(old(self).core_func_dispatch@));
            assert forall|j: int| 0 <= j < n implies (#[trigger] old(self).post_return_dispatch@[j]).0 < size by {
                let x = old(self).post_return_dispatch@[j].0;
                assert(has_record(old(self).core_func_dispatch@, x));
                let c = choose|c: int| 0 <= c < old(self).core_func_dispatch@.len() && (#[trigger] old(self).core_func_dispatch@[c]).0 == x;
                assert(record_ids(old(self).core_func_dispatch@)[c] == x);
            }
        }
    }

    /// Adds the wrappers of the registered core functions, in order; returns
    /// their dispatch entries.
    fn add_core_func_wrappers(&mut self) -> (entries: Vec<(u32, FuncRef)>)
        requires
            old(self).wf(),
            old(self).dispatch_wf(),
            core_funcs_scalar(old(self)),
            old(self).load() + old(self).core_func_dispatch@.len() <= GLUE_CAPACITY,
        ensures
            final(self).wf(),
            final(self).dispatch_wf(),
            final(self).load() == old(self).load() + old(self).core_func_dispatch@.len(),
            final(self).same_registrations(old(self)),
            final(self).module.types == old(self).module.types,
            final(self).module.tables == old(self).module.tables,
            final(self).module.elements == old(self).module.elements,
            final(self).module.exports == old(self).module.exports,
            final(self).module.funcs@.len() == old(self).module.funcs@.len() + old(self).core_func_dispatch@.len(),
            final(self).module.funcs@.take(old(self).module.funcs@.len() as int) == old(self).module.funcs@,
            forall|j: int| 0 <= j < old(self).core_func_dispatch@.len() ==> func_view(
                #[trigger] final(self).module.funcs@[old(self).module.funcs@.len() + j]) == (
                "core_func_wrapper_"@ + decimal_spec(old(self).core_func_dispatch@[j].0 as nat), i32s(3), Seq::<DataType>::empty(),
                core_wrapper_locals(type_results(old(self), old(self).core_func_dispatch@[j].2)),
                core_wrapper_instrs(type_params(old(self), old(self).core_func_dispatch@[j].2),
                    type_results(old(self), old(self).core_func_dispatch@[j].2), old(self).core_func_dispatch@[j].1,
                    old(self).allocate_args_results_buffer, old(self).driver_memory)),
            entries@ == wrapper_table_entries(old(self).core_func_dispatch@, old(self).module.funcs@.len()),
    {
        let driver_mem = self.driver_memory;
        let allocate_fn = self.allocate_args_results_buffer;
        let ghost k0 = self.module.funcs@.len();
        let mut entries: Vec<(u32, FuncRef)> = Vec::new();
        let n = self.core_func_dispatch.len();
        for j in 0..n
            invariant
                n == old(self).core_func_dispatch@.len(),
                driver_mem == old(self).driver_memory,
                allocate_fn == old(self).allocate_args_results_buffer,
                k0 == old(self).module.funcs@.len(),
                old(self).load() + n <= GLUE_CAPACITY,
                self.wf(),
                self.dispatch_wf(),
                core_funcs_scalar(self),
                self.load() == old(self).load() + j,
                self.same_registrations(old(self)),
                self.module.types == old(self).module.types,
                self.module.tables == old(self).module.tables,
                self.module.elements == old(self).module.elements,
                self.module.exports == old(self).module.exports,
                self.module.funcs@.len() == k0 + j,
                self.module.funcs@.take(k0 as int) == old(self).module.funcs@,
                forall|i: int| 0 <= i < j ==> func_view(#[trigger] self.module.funcs@[k0 + i]) == (
                    "core_func_wrapper_"@ + decimal_spec(old(self).core_func_dispatch@[i].0 as nat), i32s(3), Seq::<DataType>::empty(),
                    core_wrapper_locals(type_results(old(self), old(self).core_func_dispatch@[i].2)),
                    core_wrapper_instrs(type_params(old(self), old(self).core_func_dispatch@[i].2),
                        type_results(old(self), old(self).core_func_dispatch@[i].2), old(self).core_func_dispatch@[i].1,
                        allocate_fn, driver_mem)),
                entries@ =~= wrapper_table_entries(old(self).core_func_dispatch@.take(j as int), k0),
        {
            let (record_id, core_func_id, type_id) = self.core_func_dispatch[j];
            assert(type_id < self.module.types@.len());
            let params = self.module.types[type_id as usize].params.clone();
            let results = self.module.types[type_id as usize].results.clone();
            let w = core_func_wrapper(record_id, &params, &results, core_func_id, allocate_fn, driver_mem);
            let ghost before = *self;
            let wid = self.module.add_func(w);
            entries.push((record_id, wid));
            proof {
                before.lemma_wf_registrations(self);
                assert(self.module.funcs@.take(k0 as int) =~= before.module.funcs@.take(k0 as int));
                assert forall|i: int| 0 <= i < j + 1 implies func_view(#[trigger] self.module.funcs@[k0 + i]) == (
                    "core_func_wrapper_"@ + decimal_spec(old(self).core_func_dispatch@[i].0 as nat), i32s(3), Seq::<DataType>::empty(),
                    core_wrapper_locals(type_results(old(self), old(self).core_func_dispatch@[i].2)),
                    core_wrapper_instrs(type_params(old(self), old(self).core_func_dispatch@[i].2),
                        type_results(old(self), old(self).core_func_dispatch@[i].2), old(self).core_func_dispatch@[i].1,
                        allocate_fn, driver_mem)) by {
                    if i < j {
                        assert(self.module.funcs@[k0 + i] == before.module.funcs@[k0 + i]);
                    }
                }
            }
        }
        assert(old(self).core_func_dispatch@.take(n as int) =~= old(self).core_func_dispatch@);
        entries
    }

    /// Builds `dispatch_core_func(export_index, args_ptr, return_bytes_len,
    /// return_sizes_len)`: a wrapper `(args_ptr, return_bytes_len,
    /// return_sizes_len)` per registered core function, a table placing each
    /// at its record index, and the dispatch through that table.
    #[verifier::rlimit(40)]
    pub fn build_dispatch_core_func(&mut self)
        requires
            old(self).wf(),
            old(self).dispatch_wf(),
            core_funcs_scalar(old(self)),
            record_ids_bounded(old(self)),
            old(self).load() + 5 + 2 * old(self).core_func_dispatch@.len() <= GLUE_CAPACITY,
        ensures
            final(self).wf(),
            final(self).dispatch_wf(),
            final(self).load() == old(self).load() + 4 + 2 * old(self).core_func_dispatch@.len(),
            final(self).same_registrations(old(self)),
            ({
                let t = old(self).module.types@.len();
                let it = old(self).module.tables@.len() as u32;
                let k0 = old(self).module.funcs@.len();
                let cf = old(self).core_func_dispatch@;
                let n = cf.len();
                &&& final(self).module.types@.len() == old(self).module.types@.len() + 1
                &&& final(self).module.types@.drop_last() == old(self).module.types@
                &&& type_view(final(self).module.types@.last()) == (i32s(3), Seq::<DataType>::empty())
                &&& final(self).module.funcs@.len() == k0 + n + 1
                &&& final(self).module.funcs@.take(k0 as int) == old(self).module.funcs@
                &&& forall|j: int| 0 <= j < n ==> func_view(#[trigger] final(self).module.funcs@[k0 + j]) == (
                    "core_func_wrapper_"@ + decimal_spec(cf[j].0 as nat), i32s(3), Seq::<DataType>::empty(),
                    core_wrapper_locals(type_results(old(self), cf[j].2)),
                    core_wrapper_instrs(type_params(old(self), cf[j].2), type_results(old(self), cf[j].2), cf[j].1,
                        old(self).allocate_args_results_buffer, old(self).driver_memory))
                &&& func_view(final(self).module.funcs@[(k0 + n) as int]) == ("dispatch_core_func"@, i32s(4),
                    Seq::<DataType>::empty(), Seq::<DataType>::empty(), dispatch_core_func_instrs(t as u32, it))
                &&& final(self).module.tables@ == old(self).module.tables@.push(Table { size: table_size_for(record_ids(cf)) as u32 })
                &&& final(self).module.elements@.map_values(|e: Element| element_view(e))
                    == old(self).module.elements@.map_values(|e: Element| element_view(e))
                        + entry_elements(it, wrapper_table_entries(cf, k0))
                &&& final(self).module.exports@.len() == old(self).module.exports@.len() + 1
                &&& final(self).module.exports@.drop_last() == old(self).module.exports@
                &&& export_view(final(self).module.exports@.last()) == ("dispatch_core_func"@, FuncRef::Local((k0 + n) as u32))
            }),
    {
        let driver_mem = self.driver_memory;
        let allocate_fn = self.allocate_args_results_buffer;
        // Uniform wrapper type: (i32, i32, i32) -> ()
        let three = vec![DataType::I32, DataType::I32, DataType::I32];
        let none: Vec<DataType> = Vec::new();
        let wrapper_type = self.module.add_func_type(&three, &none);
        proof {
            old(self).lemma_wf_registrations(self);
            assert(self.module.types@.drop_last() =~= old(self).module.types@);
            assert(three@ =~= i32s(3));
            assert(none@ =~= Seq::<DataType>::empty());
        }
        proof {
            assert forall|i: int| 0 <= i < self.core_func_dispatch@.len() implies
                #[trigger] self.module.types@[self.core_func_dispatch@[i].2 as int] == old(self).module.types@[self.core_func_dispatch@[i].2 as int] by {
                assert(old(self).core_func_dispatch@[i].2 < old(self).module.types@.len());
            }
        }
        let ghost k0 = self.module.funcs@.len();

        // A wrapper per registered core function
        let table_entries = self.add_core_func_wrappers();
        let ghost s3 = *self;

        // The dispatch table places each wrapper at its record index
        let ids = record_indices(&self.core_func_dispatch);
        assert forall|i: int| 0 <= i < ids@.len() implies ids@[i] < u32::MAX by {
            assert(ids@[i] == self.core_func_dispatch@[i].0);
        }
        let table_size = table_size(&ids);
        let table_idx = self.add_dispatch_table(table_size, &table_entries);

        // The dispatch: forward to call_indirect
        let four = vec![DataType::I32, DataType::I32, DataType::I32, DataType::I32];
        let mut fb = FuncBody::new(&four, &none);
        fb.name = String::from_str("dispatch_core_func");
        fb.emit(Instr::LocalGet(1));
        fb.emit(Instr::LocalGet(2));
        fb.emit(Instr::LocalGet(3));
        fb.emit(Instr::LocalGet(0));
        fb.emit(Instr::CallIndirect { type_index: wrapper_type, table: table_idx });
        assert(four@ =~= i32s(4));
        assert(fb.instrs@ =~= dispatch_core_func_instrs(wrapper_type, table_idx));
        self.add_exported_func(fb, "dispatch_core_func");
        proof {
            assert(self.module.funcs@.take(k0 as int) =~= s3.module.funcs@.take(k0 as int));
            assert forall|j: int| 0 <= j < old(self).core_func_dispatch@.len() implies #[trigger] self.module.funcs@[k0 + j] == s3.module.funcs@[k0 + j] by {}
        }
    }
}


/// Every element segment lies within its table.
pub open spec fn segments_in_bounds(segs: Seq<(u32, u32, Seq<FuncRef>)>, tables: Seq<Table>) -> bool {
    forall|i: int| 0 <= i < segs.len() ==> {
        let (t, off, fs) = #[trigger] segs[i];
        t < tables.len() && off + fs.len() <= tables[t as int].size
    }
}

/// Every element segment of a module lies within its table.
pub open spec fn elements_in_bounds(m: &WasmModule) -> bool {
    segments_in_bounds(m.elements@.map_values(|e: Element| element_view(e)), m.tables@)
}

/// Two lists of segments within the tables stay within them together.
pub proof fn lemma_segments_append(a: Seq<(u32, u32, Seq<FuncRef>)>, b: Seq<(u32, u32, Seq<FuncRef>)>, tables: Seq<Table>)
    requires
        segments_in_bounds(a, tables),
        segments_in_bounds(b, tables),
    ensures
        segments_in_bounds(a + b, tables),
{
    assert forall|i: int| 0 <= i < (a + b).len() implies {
        let (t, off, fs) = #[trigger] (a + b)[i];
        t < tables.len() && off + fs.len() <= tables[t as int].size
    } by {
        if i < a.len() {
            assert((a + b)[i] == a[i]);
        } else {
            assert((a + b)[i] == b[i - a.len()]);
        }
    }
}

/// Segments within the tables stay within them when tables are added.
pub proof fn lemma_segments_more_tables(a: Seq<(u32, u32, Seq<FuncRef>)>, tables: Seq<Table>, more: Seq<Table>)
    requires
        segments_in_bounds(a, tables),
    ensures
        segments_in_bounds(a, tables + more),
{
    assert forall|i: int| 0 <= i < a.len() implies {
        let (t, off, fs) = #[trigger] a[i];
        t < (tables + more).len() && off + fs.len() <= (tables + more)[t as int].size
    } by {
        let (t, off, fs) = a[i];
        assert((tables + more)[t as int] == tables[t as int]);
    }
}

/// The segments of dispatch entries whose indices are below the size of
/// table `t` lie within it.
pub proof fn lemma_entry_elements_in_bounds(t: u32, entries: Seq<(u32, FuncRef)>, tables: Seq<Table>)
    requires
        t < tables.len(),
        forall|i: int| 0 <= i < entries.len() ==> (#[trigger] entries[i]).0 < tables[t as int].size,
    ensures
        segments_in_bounds(entry_elements(t, entries), tables),
{
    assert forall|i: int| 0 <= i < entry_elements(t, entries).len() implies {
        let (tt, off, fs) = #[trigger] entry_elements(t, entries)[i];
        tt < tables.len() && off + fs.len() <= tables[tt as int].size
    } by {
        assert(entries[i].0 < tables[t as int].size);
    }
}



/// The tables that `finish` adds: the import and export tables of the realloc
/// and memory-write dispatch, then the post-return and core-function tables.
pub open spec fn dispatch_tables(b: &GlueBuilder) -> Seq<Table> {
    let k = b.module.funcs@.len() as int;
    let uniq = distinct_in_order(memwrite_memories(b.memwrite_import_dispatch@, b.memwrite_export_dispatch@));
    seq![
        Table { size: b.next_import_id },
        Table { size: table_size_for(entry_ids(b.realloc_export_dispatch@)) as u32 },
        Table { size: b.next_import_id },
        Table { size: table_size_for(entry_ids(wrapper_entries(b.memwrite_export_dispatch@, uniq, (k + 4) as nat))) as u32 },
        Table { size: table_size_for(record_ids(b.core_func_dispatch@)) as u32 },
        Table { size: table_size_for(record_ids(b.core_func_dispatch@)) as u32 },
    ]
}

/// The element segments that `finish` adds, table by table.
pub open spec fn dispatch_segments(b: &GlueBuilder) -> Seq<(u32, u32, Seq<FuncRef>)> {
    let k = b.module.funcs@.len() as int;
    let tt = b.module.tables@.len() as int;
    let uniq = distinct_in_order(memwrite_memories(b.memwrite_import_dispatch@, b.memwrite_export_dispatch@));
    let u = uniq.len() as int;
    let np = b.post_return_dispatch@.len() as int;
    let size = table_size_for(record_ids(b.core_func_dispatch@));
    entry_elements(tt as u32, b.realloc_import_dispatch@)
        + entry_elements((tt + 1) as u32, b.realloc_export_dispatch@)
        + entry_elements((tt + 2) as u32, wrapper_entries(b.memwrite_import_dispatch@, uniq, (k + 4) as nat))
        + entry_elements((tt + 3) as u32, wrapper_entries(b.memwrite_export_dispatch@, uniq, (k + 4) as nat))
        + (if size > 0 {
            seq![((tt + 4) as u32, 0u32, Seq::new(size, |i: int| FuncRef::Local((k + 5 + u) as u32)))]
        } else {
            Seq::empty()
        })
        + entry_elements((tt + 4) as u32, wrapper_table_entries(b.post_return_dispatch@, (k + 6 + u) as nat))
        + entry_elements((tt + 5) as u32, wrapper_table_entries(b.core_func_dispatch@, (k + 7 + u + np) as nat))
}

/// Each table that `finish` adds covers the indices of its entries: every
/// element segment it adds lies within its table.
pub proof fn lemma_dispatch_segments_in_bounds(b: &GlueBuilder)
    requires
        b.dispatch_wf(),
        b.export_ids_bounded(),
        b.module.tables@.len() + 6 <= u32::MAX,
    ensures
        segments_in_bounds(dispatch_segments(b), b.module.tables@ + dispatch_tables(b)),
{
    let k = b.module.funcs@.len() as int;
    let tt = b.module.tables@.len() as int;
    let tables = b.module.tables@ + dispatch_tables(b);
    let uniq = distinct_in_order(memwrite_memories(b.memwrite_import_dispatch@, b.memwrite_export_dispatch@));
    let u = uniq.len() as int;
    let np = b.post_return_dispatch@.len() as int;
    let cids = record_ids(b.core_func_dispatch@);
    let size = table_size_for(cids);
    lemma_table_size_for(cids);
    let re_ids = entry_ids(b.realloc_export_dispatch@);
    lemma_table_size_for(re_ids);
    let me = wrapper_entries(b.memwrite_export_dispatch@, uniq, (k + 4) as nat);
    lemma_table_size_for(entry_ids(me));
    assert forall|i: int| 0 <= i < re_ids.len() implies re_ids[i] < u32::MAX by {
        assert(re_ids[i] == b.realloc_export_dispatch@[i].0);
    }
    assert(size <= u32::MAX) by {
        if cids.len() > 0 {
            let i = choose|i: int| 0 <= i < cids.len() && cids[i] + 1 == size;
            assert(cids[i] == b.core_func_dispatch@[i].0);
        }
    }
    assert(table_size_for(re_ids) <= u32::MAX) by {
        if re_ids.len() > 0 {
            let i = choose|i: int| 0 <= i < re_ids.len() && re_ids[i] + 1 == table_size_for(re_ids);
            assert(re_ids[i] == b.realloc_export_dispatch@[i].0);
        }
    }
    assert(table_size_for(entry_ids(me)) <= u32::MAX) by {
        if entry_ids(me).len() > 0 {
            let i = choose|i: int| 0 <= i < entry_ids(me).len() && entry_ids(me)[i] + 1 == table_size_for(entry_ids(me));
            assert(entry_ids(me)[i] == b.memwrite_export_dispatch@[i].0);
        }
    }
    assert(tables[tt] == Table { size: b.next_import_id });
    assert(tables[tt + 1] == Table { size: table_size_for(re_ids) as u32 });
    assert(tables[tt + 2] == Table { size: b.next_import_id });
    assert(tables[tt + 3] == Table { size: table_size_for(entry_ids(me)) as u32 });
    assert(tables[tt + 4] == Table { size: size as u32 });
    assert(tables[tt + 5] == Table { size: size as u32 });
    lemma_entry_elements_in_bounds(tt as u32, b.realloc_import_dispatch@, tables);
    assert forall|i: int| 0 <= i < b.realloc_export_dispatch@.len() implies
        (#[trigger] b.realloc_export_dispatch@[i]).0 < tables[tt + 1].size by {
        assert(re_ids[i] == b.realloc_export_dispatch@[i].0);
    }
    lemma_entry_elements_in_bounds((tt + 1) as u32, b.realloc_export_dispatch@, tables);
    let mi = wrapper_entries(b.memwrite_import_dispatch@, uniq, (k + 4) as nat);
    assert forall|i: int| 0 <= i < mi.len() implies (#[trigger] mi[i]).0 < tables[tt + 2].size by {
        assert(mi[i].0 == b.memwrite_import_dispatch@[i].0);
    }
    lemma_entry_elements_in_bounds((tt + 2) as u32, mi, tables);
    assert forall|i: int| 0 <= i < me.len() implies (#[trigger] me[i]).0 < tables[tt + 3].size by {
        assert(entry_ids(me)[i] == me[i].0);
    }
    lemma_entry_elements_in_bounds((tt + 3) as u32, me, tables);
    let noops = if size > 0 {
        seq![((tt + 4) as u32, 0u32, Seq::new(size, |i: int| FuncRef::Local((k + 5 + u) as u32)))]
    } else {
        Seq::<(u32, u32, Seq<FuncRef>)>::empty()
    };
    assert(segments_in_bounds(noops, tables));
    let pe = wrapper_table_entries(b.post_return_dispatch@, (k + 6 + u) as nat);
    assert forall|i: int| 0 <= i < pe.len() implies (#[trigger] pe[i]).0 < tables[tt + 4].size by {
        let x = b.post_return_dispatch@[i].0;
        assert(pe[i].0 == x);
        assert(has_record(b.core_func_dispatch@, x));
        let c = choose|c: int| 0 <= c < b.core_func_dispatch@.len() && (#[trigger] b.core_func_dispatch@[c]).0 == x;
        assert(cids[c] == x);
    }
    lemma_entry_elements_in_bounds((tt + 4) as u32, pe, tables);
    let ce = wrapper_table_entries(b.core_func_dispatch@, (k + 7 + u + np) as nat);
    assert forall|i: int| 0 <= i < ce.len() implies (#[trigger] ce[i]).0 < tables[tt + 5].size by {
        assert(ce[i].0 == cids[i]);
    }
    lemma_entry_elements_in_bounds((tt + 5) as u32, ce, tables);
    let s1 = entry_elements(tt as u32, b.realloc_import_dispatch@);
    let s2 = entry_elements((tt + 1) as u32, b.realloc_export_dispatch@);
    let s3 = entry_elements((tt + 2) as u32, mi);
    let s4 = entry_elements((tt + 3) as u32, me);
    let s6 = entry_elements((tt + 4) as u32, pe);
    let s7 = entry_elements((tt + 5) as u32, ce);
    lemma_segments_append(s1, s2, tables);
    lemma_segments_append(s1 + s2, s3, tables);
    lemma_segments_append(s1 + s2 + s3, s4, tables);
    lemma_segments_append(s1 + s2 + s3 + s4, noops, tables);
    lemma_segments_append(s1 + s2 + s3 + s4 + noops, s6, tables);
    lemma_segments_append(s1 + s2 + s3 + s4 + noops + s6, s7, tables);
}

/// The names of the functions that the glue module exports to the driver,
/// in the order `finish` builds them.
pub open spec fn dispatch_export_names() -> Seq<Seq<char>> {
    seq![
        "get_sha256_checksum"@,
        "init_replayer"@,
        "replay_instruction"@,
        "dispatch_realloc"@,
        "dispatch_memory_write"@,
        "dispatch_post_return"@,
        "dispatch_core_func"@,
    ]
}

/// The module that `finish` makes of builder `b`: the builder's module with
/// the checksum, init, instruction, realloc, memory-write, post-return and
/// core-function interface of the driver.
pub open spec fn finished(b: GlueBuilder, m: WasmModule) -> bool {
    ({
        let k = b.module.funcs@.len() as int;
        let t = b.module.types@.len() as int;
        let tt = b.module.tables@.len() as int;
        let e = b.module.exports@.len() as int;
        let dm = b.driver_memory;
        let uniq = distinct_in_order(memwrite_memories(b.memwrite_import_dispatch@, b.memwrite_export_dispatch@));
        let u = uniq.len() as int;
        let pr = b.post_return_dispatch@;
        let cf = b.core_func_dispatch@;
        let np = pr.len() as int;
        let nc = cf.len() as int;
        &&& m.name == b.module.name
        &&& m.func_imports == b.module.func_imports
        &&& m.memory_imports == b.module.memory_imports
        // Types: realloc, memory-write wrapper, post-return wrapper, core wrapper
        &&& m.types@.len() == t + 4
        &&& m.types@.take(t) == b.module.types@
        &&& type_view(m.types@[t]) == (i32s(4), i32s(1))
        &&& type_view(m.types@[t + 1]) == (i32s(3), Seq::<DataType>::empty())
        &&& type_view(m.types@[t + 2]) == (seq![DataType::I32], Seq::<DataType>::empty())
        &&& type_view(m.types@[t + 3]) == (i32s(3), Seq::<DataType>::empty())
        // Functions
        &&& m.funcs@.len() == k + 8 + u + np + nc
        &&& m.funcs@.take(k) == b.module.funcs@
        &&& func_view(m.funcs@[k]) == ("get_sha256_checksum"@, seq![DataType::I32], Seq::<DataType>::empty(),
            Seq::<DataType>::empty(), checksum_instrs(b.checksum@, dm, 4))
        &&& func_view(m.funcs@[k + 1]) == ("init_replayer"@, Seq::<DataType>::empty(), Seq::<DataType>::empty(),
            Seq::<DataType>::empty(), seq![Instr::Call(b.init_replayer)])
        &&& func_view(m.funcs@[k + 2]) == ("replay_instruction"@, seq![DataType::I32], seq![DataType::I32],
            Seq::<DataType>::empty(), seq![Instr::LocalGet(0), Instr::Call(b.replay_instruction)])
        &&& func_view(m.funcs@[k + 3]) == ("dispatch_realloc"@, i32s(6), i32s(1), Seq::<DataType>::empty(),
            dispatch_realloc_instrs(t as u32, tt as u32, (tt + 1) as u32))
        &&& forall|j: int| 0 <= j < u ==> func_view(#[trigger] m.funcs@[k + 4 + j]) == (
            "memwrite_wrapper_"@ + decimal_spec(uniq[j] as nat), i32s(3), Seq::<DataType>::empty(),
            Seq::<DataType>::empty(), memwrite_wrapper_instrs(uniq[j], dm))
        &&& func_view(m.funcs@[k + 4 + u]) == ("dispatch_memory_write"@, i32s(5), Seq::<DataType>::empty(),
            Seq::<DataType>::empty(), dispatch_memory_write_instrs((t + 1) as u32, (tt + 2) as u32, (tt + 3) as u32))
        &&& func_view(m.funcs@[k + 5 + u]) == ("post_return_noop"@, seq![DataType::I32],
            Seq::<DataType>::empty(), Seq::<DataType>::empty(), Seq::<Instr>::empty())
        &&& forall|j: int| 0 <= j < np ==> func_view(#[trigger] m.funcs@[k + 6 + u + j]) == (
            "post_return_wrapper_"@ + decimal_spec(pr[j].0 as nat),
            seq![DataType::I32], Seq::<DataType>::empty(), Seq::<DataType>::empty(),
            post_return_wrapper_instrs(type_params(&b, pr[j].2), pr[j].1, dm))
        &&& func_view(m.funcs@[k + 6 + u + np]) == ("dispatch_post_return"@,
            seq![DataType::I32, DataType::I32], Seq::<DataType>::empty(), Seq::<DataType>::empty(),
            dispatch_post_return_instrs((t + 2) as u32, (tt + 4) as u32))
        &&& forall|j: int| 0 <= j < nc ==> func_view(#[trigger] m.funcs@[k + 7 + u + np + j]) == (
            "core_func_wrapper_"@ + decimal_spec(cf[j].0 as nat), i32s(3), Seq::<DataType>::empty(),
            core_wrapper_locals(type_results(&b, cf[j].2)),
            core_wrapper_instrs(type_params(&b, cf[j].2), type_results(&b, cf[j].2), cf[j].1,
                b.allocate_args_results_buffer, dm))
        &&& func_view(m.funcs@[k + 7 + u + np + nc]) == ("dispatch_core_func"@, i32s(4),
            Seq::<DataType>::empty(), Seq::<DataType>::empty(), dispatch_core_func_instrs((t + 3) as u32, (tt + 5) as u32))
        // Exports
        &&& m.exports@.len() == e + 7
        &&& m.exports@.take(e) == b.module.exports@
        &&& forall|i: int| 0 <= i < 7 ==> (#[trigger] m.exports@[e + i]).name@ == dispatch_export_names()[i]
        &&& m.exports@[e + 0].func == FuncRef::Local(k as u32)
        &&& m.exports@[e + 1].func == FuncRef::Local((k + 1) as u32)
        &&& m.exports@[e + 2].func == FuncRef::Local((k + 2) as u32)
        &&& m.exports@[e + 3].func == FuncRef::Local((k + 3) as u32)
        &&& m.exports@[e + 4].func == FuncRef::Local((k + 4 + u) as u32)
        &&& m.exports@[e + 5].func == FuncRef::Local((k + 6 + u + np) as u32)
        &&& m.exports@[e + 6].func == FuncRef::Local((k + 7 + u + np + nc) as u32)
        // Tables and elements
        &&& m.tables@ == b.module.tables@ + dispatch_tables(&b)
        &&& m.elements@.map_values(|x: Element| element_view(x))
            == b.module.elements@.map_values(|x: Element| element_view(x)) + dispatch_segments(&b)
        &&& elements_in_bounds(&b.module) ==> elements_in_bounds(&m)
    })
}

/// What `finish` needs of a builder.
pub open spec fn finish_ready(b: GlueBuilder) -> bool {
    &&& b.wf()
    &&& b.dispatch_wf()
    &&& b.imported_memories@.len() <= 1
    &&& post_returns_scalar(&b)
    &&& core_funcs_scalar(&b)
    &&& b.export_ids_bounded()
    &&& b.room_to_finish()
}

impl GlueBuilder {
    /// Enough room is left to build the dispatch interface.
    pub open spec fn room_to_finish(&self) -> bool {
        3 * self.load() + 32 <= GLUE_CAPACITY
    }

    /// Every record index of the export side is below `u32::MAX`.
    pub open spec fn export_ids_bounded(&self) -> bool {
        &&& record_ids_bounded(self)
        &&& forall|i: int| 0 <= i < self.realloc_export_dispatch@.len() ==> (#[trigger] self.realloc_export_dispatch@[i]).0 < u32::MAX
        &&& forall|i: int| 0 <= i < self.memwrite_export_dispatch@.len() ==> (#[trigger] self.memwrite_export_dispatch@[i]).0 < u32::MAX
    }

    /// Checks what `finish` needs beyond the builder's invariants: at most one
    /// component memory, scalar signatures of the registered functions,
    /// record indices below `u32::MAX`, and room in the glue.
    pub fn ready_to_finish(&self) -> (r: bool)
        requires
            self.wf(),
            self.dispatch_wf(),
        ensures
            r == (self.imported_memories@.len() <= 1 && post_returns_scalar(self) && core_funcs_scalar(self)
                && self.export_ids_bounded() && self.room_to_finish()),
    {
        if self.imported_memories.len() > 1 {
            return false;
        }
        match self.load_within_capacity() {
            Some(l) => {
                if 3 * l + 32 > GLUE_CAPACITY {
                    return false;
                }
            },
            None => {
                return false;
            },
        }
        for i in 0..self.post_return_dispatch.len()
            invariant
                self.dispatch_wf(),
                forall|j: int| 0 <= j < i ==> {
                    let ps = type_params(self, (#[trigger] self.post_return_dispatch@[j]).2);
                    all_scalar(ps) && ps.len() <= 0x1000_0000
                },
        {
            let t = self.post_return_dispatch[i].2;
            let ty = &self.module.types[t as usize];
            if !scalar_types(&ty.params) || ty.params.len() > 0x1000_0000 {
                return false;
            }
        }
        for i in 0..self.core_func_dispatch.len()
            invariant
                self.dispatch_wf(),
                post_returns_scalar(self),
                forall|j: int| 0 <= j < i ==> {
                    let ps = type_params(self, (#[trigger] self.core_func_dispatch@[j]).2);
                    let rs = type_results(self, self.core_func_dispatch@[j].2);
                    all_scalar(ps) && ps.len() <= 0x1000_0000 && all_scalar(rs) && rs.len() <= 0x1000_0000
                },
                forall|j: int| 0 <= j < i ==> (#[trigger] self.core_func_dispatch@[j]).0 < u32::MAX,
        {
            let (rid, _, t) = self.core_func_dispatch[i];
            let ty = &self.module.types[t as usize];
            if !scalar_types(&ty.params) || ty.params.len() > 0x1000_0000 || !scalar_types(&ty.results)
                || ty.results.len() > 0x1000_0000 || rid == u32::MAX {
                return false;
            }
        }
        for i in 0..self.realloc_export_dispatch.len()
            invariant
                forall|j: int| 0 <= j < i ==> (#[trigger] self.realloc_export_dispatch@[j]).0 < u32::MAX,
        {
            if self.realloc_export_dispatch[i].0 == u32::MAX {
                return false;
            }
        }
        for i in 0..self.memwrite_export_dispatch.len()
            invariant
                forall|j: int| 0 <= j < i ==> (#[trigger] self.memwrite_export_dispatch@[j]).0 < u32::MAX,
        {
            if self.memwrite_export_dispatch[i].0 == u32::MAX {
                return false;
            }
        }
        true
    }

    /// Finalizes the glue module: builds the checksum, init, instruction,
    /// realloc, memory-write, post-return and core-function interface of the
    /// driver, and returns the module.
    ///
    /// Every element segment of the result lies within its table when those
    /// of the builder's module did.
    #[verifier::rlimit(100)]
    pub fn finish(self) -> (m: WasmModule)
        requires
            self.wf(),
            self.dispatch_wf(),
            self.imported_memories@.len() <= 1,
            post_returns_scalar(&self),
            core_funcs_scalar(&self),
            self.export_ids_bounded(),
            self.room_to_finish(),
        ensures
            finished(self, m),
    {
        let mut b = self;
        proof { assert(b.load() * 3 + 32 <= GLUE_CAPACITY); }
        b.build_get_sha256_checksum();
        let ghost b1 = b;
        b.build_init_replayer();
        let ghost b2 = b;
        b.build_replay_instruction();
        let ghost b3 = b;
        b.build_dispatch_realloc();
        let ghost b4 = b;
        b.build_dispatch_memory_write();
        let ghost b5 = b;
        b.build_dispatch_post_return();
        let ghost b6 = b;
        b.build_dispatch_core_func();
        proof {
            let k = self.module.funcs@.len() as int;
            let e = self.module.exports@.len() as int;
            let t = self.module.types@.len() as int;
            let uniq = distinct_in_order(memwrite_memories(self.memwrite_import_dispatch@, self.memwrite_export_dispatch@));
            let u = uniq.len() as int;
            let np = self.post_return_dispatch@.len() as int;
            let nc = self.core_func_dispatch@.len() as int;
            // Functions: every later builder keeps the earlier functions
            let f = b.module.funcs@;
            let l1 = k + 1;
            let l2 = k + 2;
            let l3 = k + 3;
            let l4 = k + 4;
            let l5 = k + 5 + u;
            let l6 = k + 7 + u + np;
            assert(b2.module.funcs@.take(l1 as int) =~= b1.module.funcs@);
            assert(b3.module.funcs@.take(l2 as int) =~= b2.module.funcs@);
            assert(b4.module.funcs@.take(l3 as int) =~= b3.module.funcs@);
            assert(b5.module.funcs@.take(l4 as int) == b4.module.funcs@);
            assert(b6.module.funcs@.take(l5 as int) == b5.module.funcs@);
            assert(f.take(l6 as int) == b6.module.funcs@);
            assert(f.take(l5 as int) =~= b5.module.funcs@);
            assert(f.take(l4 as int) =~= b4.module.funcs@);
            assert(f.take(l3 as int) =~= b3.module.funcs@);
            assert(f.take(l2 as int) =~= b2.module.funcs@);
            assert(f.take(l1 as int) =~= b1.module.funcs@);
            assert(f.take(k as int) =~= self.module.funcs@);
            assert(f[k as int] == f.take(l1 as int)[k as int]);
            assert(f[k + 1] == f.take(l2 as int)[k + 1]);
            assert(f[k + 2] == f.take(l3 as int)[k + 2]);
            assert(f[k + 3] == f.take(l4 as int)[k + 3]);
            assert forall|j: int| 0 <= j < u implies #[trigger] f[k + 4 + j] == b5.module.funcs@[k + 4 + j] by {
                assert(f[k + 4 + j] == f.take(l5 as int)[k + 4 + j]);
            }
            assert(f[k + 4 + u] == f.take(l5 as int)[k + 4 + u]);
            assert(f[k + 5 + u] == f.take(l6 as int)[k + 5 + u]);
            assert forall|j: int| 0 <= j < np implies #[trigger] f[k + 6 + u + j] == b6.module.funcs@[k + 6 + u + j] by {
                assert(f[k + 6 + u + j] == f.take(l6 as int)[k + 6 + u + j]);
            }
            assert(f[k + 6 + u + np] == f.take(l6 as int)[k + 6 + u + np]);
            // The wrappers refer to the types of the registered functions
            assert forall|i: int| 0 <= i < np implies type_params(&b5, #[trigger] self.post_return_dispatch@[i].2) == type_params(&self, self.post_return_dispatch@[i].2) by {
                assert(self.post_return_dispatch@[i].2 < t);
                assert(b5.module.types@.take(t as int) =~= self.module.types@) by {
                    assert(b4.module.types@.drop_last() == self.module.types@);
                    assert(b5.module.types@.drop_last() == b4.module.types@);
                }
                assert(b5.module.types@[self.post_return_dispatch@[i].2 as int] == b5.module.types@.take(t as int)[self.post_return_dispatch@[i].2 as int]);
            }
            assert forall|i: int| 0 <= i < nc implies type_params(&b6, #[trigger] self.core_func_dispatch@[i].2) == type_params(&self, self.core_func_dispatch@[i].2)
                && type_results(&b6, self.core_func_dispatch@[i].2) == type_results(&self, self.core_func_dispatch@[i].2) by {
                assert(self.core_func_dispatch@[i].2 < t);
                assert(b6.module.types@.take(t as int) =~= self.module.types@) by {
                    assert(b4.module.types@.drop_last() == self.module.types@);
                    assert(b5.module.types@.drop_last() == b4.module.types@);
                    assert(b6.module.types@.drop_last() == b5.module.types@);
                }
                assert(b6.module.types@[self.core_func_dispatch@[i].2 as int] == b6.module.types@.take(t as int)[self.core_func_dispatch@[i].2 as int]);
            }
            // Types
            let ty = b.module.types@;
            assert(b3.module.types == self.module.types);
            assert(b4.module.types@.drop_last() == b3.module.types@);
            assert(b4.module.types@.len() == t + 1);
            assert(b5.module.types@.drop_last() == b4.module.types@);
            assert(b5.module.types@.len() == t + 2);
            assert(b6.module.types@.drop_last() == b5.module.types@);
            assert(b6.module.types@.len() == t + 3);
            assert(b4.module.types@.take(t) =~= b3.module.types@);
            assert(b5.module.types@.take(t + 1) =~= b4.module.types@);
            assert(b6.module.types@.take(t + 2) =~= b5.module.types@);
            assert(ty.take(t + 3) =~= b6.module.types@);
            assert(ty.take(t + 2) =~= b5.module.types@);
            assert(ty.take(t + 1) =~= b4.module.types@);
            assert(ty.take(t) =~= self.module.types@);
            assert(ty[t] == ty.take(t + 1)[t]);
            assert(ty[t + 1] == ty.take(t + 2)[t + 1]);
            assert(ty[t + 2] == ty.take(t + 3)[t + 2]);
            // Exports
            let ex = b.module.exports@;
            assert(ex.take(e as int) =~= self.module.exports@);
            assert(ex[e + 0] == b1.module.exports@.last());
            assert(ex[e + 1] == b2.module.exports@.last());
            assert(ex[e + 2] == b3.module.exports@.last());
            assert(ex[e + 3] == b4.module.exports@.last());
            assert(ex[e + 4] == b5.module.exports@.last());
            assert(ex[e + 5] == b6.module.exports@.last());
            assert forall|i: int| 0 <= i < 7 implies (#[trigger] ex[e + i]).name@ == dispatch_export_names()[i] by {}
            // Tables
            assert(b.module.tables@ =~= self.module.tables@ + dispatch_tables(&self));
            let ev = |x: Element| element_view(x);
            assert(b.module.elements@.map_values(ev) =~= self.module.elements@.map_values(ev) + dispatch_segments(&self));
            if elements_in_bounds(&self.module) {
                lemma_dispatch_segments_in_bounds(&self);
                lemma_segments_more_tables(self.module.elements@.map_values(ev), self.module.tables@, dispatch_tables(&self));
                lemma_segments_append(self.module.elements@.map_values(ev), dispatch_segments(&self), b.module.tables@);
            }
        }
        b.module
    }
}


/// An element segment targets table `t`.
pub open spec fn on_table(t: u32) -> spec_fn((u32, u32, Seq<FuncRef>)) -> bool {
    |e: (u32, u32, Seq<FuncRef>)| e.0 == t
}

/// The element segments of table `t`, in order.
pub open spec fn segments_of(segs: Seq<(u32, u32, Seq<FuncRef>)>, t: u32) -> Seq<(u32, u32, Seq<FuncRef>)> {
    segs.filter(on_table(t))
}

proof fn lemma_filter_keeps_all<A>(s: Seq<A>, p: spec_fn(A) -> bool)
    requires
        forall|i: int| 0 <= i < s.len() ==> p(#[trigger] s[i]),
    ensures
        s.filter(p) == s,
    decreases s.len(),
{
    reveal(Seq::filter);
    if s.len() > 0 {
        lemma_filter_keeps_all(s.drop_last(), p);
        assert(s.drop_last().push(s.last()) =~= s);
    }
}

proof fn lemma_filter_drops_all<A>(s: Seq<A>, p: spec_fn(A) -> bool)
    requires
        forall|i: int| 0 <= i < s.len() ==> !p(#[trigger] s[i]),
    ensures
        s.filter(p) == Seq::<A>::empty(),
    decreases s.len(),
{
    reveal(Seq::filter);
    if s.len() > 0 {
        lemma_filter_drops_all(s.drop_last(), p);
    }
}

/// The segments made of dispatch entries for table `t2` are all of table
/// `t`'s segments among them when `t2 == t`, and none otherwise.
proof fn lemma_segments_of_entries(t2: u32, entries: Seq<(u32, FuncRef)>, t: u32)
    ensures
        segments_of(entry_elements(t2, entries), t) == (if t2 == t { entry_elements(t2, entries) } else { Seq::empty() }),
{
    let s = entry_elements(t2, entries);
    if t2 == t {
        assert forall|i: int| 0 <= i < s.len() implies on_table(t)(#[trigger] s[i]) by {}
        lemma_filter_keeps_all(s, on_table(t));
    } else {
        assert forall|i: int| 0 <= i < s.len() implies !on_table(t)(#[trigger] s[i]) by {}
        lemma_filter_drops_all(s, on_table(t));
    }
}

/// In the finished module, the segments of each of the four realloc and
/// memory-write dispatch tables are exactly the entries registered for it.
#[verifier::rlimit(40)]
proof fn lemma_dispatch_table_segments(b: GlueBuilder, segs: Seq<(u32, u32, Seq<FuncRef>)>, i: int)
    requires
        segs == b.module.elements@.map_values(|x: Element| element_view(x)) + dispatch_segments(&b),
        elements_in_bounds(&b.module),
        b.module.tables@.len() + 6 <= u32::MAX,
        0 <= i < 4,
    ensures
        ({
            let k = b.module.funcs@.len() as int;
            let tt = b.module.tables@.len() as int;
            let uniq = distinct_in_order(memwrite_memories(b.memwrite_import_dispatch@, b.memwrite_export_dispatch@));
            let entries = if i == 0 {
                b.realloc_import_dispatch@
            } else if i == 1 {
                b.realloc_export_dispatch@
            } else if i == 2 {
                wrapper_entries(b.memwrite_import_dispatch@, uniq, (k + 4) as nat)
            } else {
                wrapper_entries(b.memwrite_export_dispatch@, uniq, (k + 4) as nat)
            };
            segments_of(segs, (tt + i) as u32) == entry_elements((tt + i) as u32, entries)
        }),
{
    let k = b.module.funcs@.len() as int;
    let tt = b.module.tables@.len() as int;
    let t = (tt + i) as u32;
    let uniq = distinct_in_order(memwrite_memories(b.memwrite_import_dispatch@, b.memwrite_export_dispatch@));
    let u = uniq.len() as int;
    let np = b.post_return_dispatch@.len() as int;
    let size = table_size_for(record_ids(b.core_func_dispatch@));
    let old_segs = b.module.elements@.map_values(|x: Element| element_view(x));
    let p = on_table(t);
    let e0 = entry_elements(tt as u32, b.realloc_import_dispatch@);
    let e1 = entry_elements((tt + 1) as u32, b.realloc_export_dispatch@);
    let e2 = entry_elements((tt + 2) as u32, wrapper_entries(b.memwrite_import_dispatch@, uniq, (k + 4) as nat));
    let e3 = entry_elements((tt + 3) as u32, wrapper_entries(b.memwrite_export_dispatch@, uniq, (k + 4) as nat));
    let f = if size > 0 {
        seq![((tt + 4) as u32, 0u32, Seq::new(size, |j: int| FuncRef::Local((k + 5 + u) as u32)))]
    } else {
        Seq::empty()
    };
    let e4 = entry_elements((tt + 4) as u32, wrapper_table_entries(b.post_return_dispatch@, (k + 6 + u) as nat));
    let e5 = entry_elements((tt + 5) as u32, wrapper_table_entries(b.core_func_dispatch@, (k + 7 + u + np) as nat));
    assert(dispatch_segments(&b) == e0 + e1 + e2 + e3 + f + e4 + e5);
    // The builder's own segments lie in its own tables, below `tt`.
    assert forall|j: int| 0 <= j < old_segs.len() implies !p(#[trigger] old_segs[j]) by {}
    lemma_filter_drops_all(old_segs, p);
    assert forall|j: int| 0 <= j < f.len() implies !p(#[trigger] f[j]) by {}
    lemma_filter_drops_all(f, p);
    lemma_segments_of_entries(tt as u32, b.realloc_import_dispatch@, t);
    lemma_segments_of_entries((tt + 1) as u32, b.realloc_export_dispatch@, t);
    lemma_segments_of_entries((tt + 2) as u32, wrapper_entries(b.memwrite_import_dispatch@, uniq, (k + 4) as nat), t);
    lemma_segments_of_entries((tt + 3) as u32, wrapper_entries(b.memwrite_export_dispatch@, uniq, (k + 4) as nat), t);
    lemma_segments_of_entries((tt + 4) as u32, wrapper_table_entries(b.post_return_dispatch@, (k + 6 + u) as nat), t);
    lemma_segments_of_entries((tt + 5) as u32, wrapper_table_entries(b.core_func_dispatch@, (k + 7 + u + np) as nat), t);
    Seq::filter_distributes_over_add(old_segs, e0 + e1 + e2 + e3 + f + e4 + e5, p);
    Seq::filter_distributes_over_add(e0 + e1 + e2 + e3 + f + e4, e5, p);
    Seq::filter_distributes_over_add(e0 + e1 + e2 + e3 + f, e4, p);
    Seq::filter_distributes_over_add(e0 + e1 + e2 + e3, f, p);
    Seq::filter_distributes_over_add(e0 + e1 + e2, e3, p);
    Seq::filter_distributes_over_add(e0 + e1, e2, p);
    Seq::filter_distributes_over_add(e0, e1, p);
    assert(segs == old_segs + (e0 + e1 + e2 + e3 + f + e4 + e5));
}

/// The direction flag of the realloc and memory-write dispatch picks the
/// side: in the finished module, `dispatch_realloc` branches on its first
/// parameter; where it is non-zero the branch calls indirectly through the
/// table whose element segments are exactly the export-side realloc entries,
/// where it is zero through the table whose segments are exactly the
/// import-side entries. `dispatch_memory_write` does the same with the
/// memory-write entries, each memory replaced by its wrapper.
#[verifier::rlimit(30)]
pub proof fn lemma_direction_selects_side(b: GlueBuilder, m: WasmModule)
    requires
        finished(b, m),
        elements_in_bounds(&b.module),
        b.module.tables@.len() + 6 <= u32::MAX,
    ensures
        ({
            let k = b.module.funcs@.len() as int;
            let uniq = distinct_in_order(memwrite_memories(b.memwrite_import_dispatch@, b.memwrite_export_dispatch@));
            let u = uniq.len() as int;
            let segs = m.elements@.map_values(|x: Element| element_view(x));
            let ra = m.funcs@[k + 3].instrs@;
            let mw = m.funcs@[k + 4 + u].instrs@;
            &&& ra.len() == 16
            &&& ra[0] == Instr::LocalGet(0) && ra[1] is If && ra[8] == Instr::Else && ra[15] == Instr::End
            &&& ra[7] matches Instr::CallIndirect { table: tn, .. }
                && segments_of(segs, tn) == entry_elements(tn, b.realloc_export_dispatch@)
            &&& ra[14] matches Instr::CallIndirect { table: tz, .. }
                && segments_of(segs, tz) == entry_elements(tz, b.realloc_import_dispatch@)
            &&& mw.len() == 14
            &&& mw[0] == Instr::LocalGet(0) && mw[1] is If && mw[7] == Instr::Else && mw[13] == Instr::End
            &&& mw[6] matches Instr::CallIndirect { table: tn, .. }
                && segments_of(segs, tn) == entry_elements(tn, wrapper_entries(b.memwrite_export_dispatch@, uniq, (k + 4) as nat))
            &&& mw[12] matches Instr::CallIndirect { table: tz, .. }
                && segments_of(segs, tz) == entry_elements(tz, wrapper_entries(b.memwrite_import_dispatch@, uniq, (k + 4) as nat))
        }),
{
    let k = b.module.funcs@.len() as int;
    let t = b.module.types@.len() as int;
    let tt = b.module.tables@.len() as int;
    let uniq = distinct_in_order(memwrite_memories(b.memwrite_import_dispatch@, b.memwrite_export_dispatch@));
    let u = uniq.len() as int;
    let ra = m.funcs@[k + 3].instrs@;
    let mw = m.funcs@[k + 4 + u].instrs@;
    let segs = m.elements@.map_values(|x: Element| element_view(x));
    assert(func_view(m.funcs@[k + 3]).4 == ra);
    assert(func_view(m.funcs@[k + 4 + u]).4 == mw);
    lemma_dispatch_sides(b, ra, mw, segs);
}

/// The realloc and memory-write dispatch of `finish`, as instructions, call
/// through the tables whose segments hold the entries of their side.
#[verifier::rlimit(30)]
proof fn lemma_dispatch_sides(b: GlueBuilder, ra: Seq<Instr>, mw: Seq<Instr>, segs: Seq<(u32, u32, Seq<FuncRef>)>)
    requires
        ({
            let t = b.module.types@.len() as int;
            let tt = b.module.tables@.len() as int;
            &&& ra == dispatch_realloc_instrs(t as u32, tt as u32, (tt + 1) as u32)
            &&& mw == dispatch_memory_write_instrs((t + 1) as u32, (tt + 2) as u32, (tt + 3) as u32)
        }),
        segs == b.module.elements@.map_values(|x: Element| element_view(x)) + dispatch_segments(&b),
        elements_in_bounds(&b.module),
        b.module.tables@.len() + 6 <= u32::MAX,
    ensures
        ({
            let k = b.module.funcs@.len() as int;
            let uniq = distinct_in_order(memwrite_memories(b.memwrite_import_dispatch@, b.memwrite_export_dispatch@));
            &&& ra.len() == 16
            &&& ra[0] == Instr::LocalGet(0) && ra[1] is If && ra[8] == Instr::Else && ra[15] == Instr::End
            &&& ra[7] matches Instr::CallIndirect { table: tn, .. }
                && segments_of(segs, tn) == entry_elements(tn, b.realloc_export_dispatch@)
            &&& ra[14] matches Instr::CallIndirect { table: tz, .. }
                && segments_of(segs, tz) == entry_elements(tz, b.realloc_import_dispatch@)
            &&& mw.len() == 14
            &&& mw[0] == Instr::LocalGet(0) && mw[1] is If && mw[7] == Instr::Else && mw[13] == Instr::End
            &&& mw[6] matches Instr::CallIndirect { table: tn, .. }
                && segments_of(segs, tn) == entry_elements(tn, wrapper_entries(b.memwrite_export_dispatch@, uniq, (k + 4) as nat))
            &&& mw[12] matches Instr::CallIndirect { table: tz, .. }
                && segments_of(segs, tz) == entry_elements(tz, wrapper_entries(b.memwrite_import_dispatch@, uniq, (k + 4) as nat))
        }),
{
    let t = b.module.types@.len() as int;
    let tt = b.module.tables@.len() as int;
    lemma_realloc_dispatch_shape(t as u32, tt as u32, (tt + 1) as u32);
    lemma_memory_write_dispatch_shape((t + 1) as u32, (tt + 2) as u32, (tt + 3) as u32);
    lemma_dispatch_table_segments(b, segs, 0);
    lemma_dispatch_table_segments(b, segs, 1);
    lemma_dispatch_table_segments(b, segs, 2);
    lemma_dispatch_table_segments(b, segs, 3);
}

/// The realloc dispatch, instruction by instruction.
proof fn lemma_realloc_dispatch_shape(realloc_type: u32, import_table: u32, export_table: u32)
    ensures
        ({
            let s = dispatch_realloc_instrs(realloc_type, import_table, export_table);
            &&& s.len() == 16
            &&& s[0] == Instr::LocalGet(0)
            &&& s[1] == Instr::If(BlockType::Value(DataType::I32))
            &&& s[7] == Instr::CallIndirect { type_index: realloc_type, table: export_table }
            &&& s[8] == Instr::Else
            &&& s[14] == Instr::CallIndirect { type_index: realloc_type, table: import_table }
            &&& s[15] == Instr::End
        }),
{
    assert(dispatch_realloc_instrs(realloc_type, import_table, export_table) =~= seq![
        Instr::LocalGet(0), Instr::If(BlockType::Value(DataType::I32)),
        Instr::LocalGet(2), Instr::LocalGet(3), Instr::LocalGet(4), Instr::LocalGet(5), Instr::LocalGet(1),
        Instr::CallIndirect { type_index: realloc_type, table: export_table }, Instr::Else,
        Instr::LocalGet(2), Instr::LocalGet(3), Instr::LocalGet(4), Instr::LocalGet(5), Instr::LocalGet(1),
        Instr::CallIndirect { type_index: realloc_type, table: import_table }, Instr::End]);
}

/// The memory-write dispatch, instruction by instruction.
proof fn lemma_memory_write_dispatch_shape(wrapper_type: u32, import_table: u32, export_table: u32)
    ensures
        ({
            let s = dispatch_memory_write_instrs(wrapper_type, import_table, export_table);
            &&& s.len() == 14
            &&& s[0] == Instr::LocalGet(0)
            &&& s[1] == Instr::If(BlockType::Empty)
            &&& s[6] == Instr::CallIndirect { type_index: wrapper_type, table: export_table }
            &&& s[7] == Instr::Else
            &&& s[12] == Instr::CallIndirect { type_index: wrapper_type, table: import_table }
            &&& s[13] == Instr::End
        }),
{
    assert(dispatch_memory_write_instrs(wrapper_type, import_table, export_table) =~= seq![
        Instr::LocalGet(0), Instr::If(BlockType::Empty),
        Instr::LocalGet(2), Instr::LocalGet(3), Instr::LocalGet(4), Instr::LocalGet(1),
        Instr::CallIndirect { type_index: wrapper_type, table: export_table }, Instr::Else,
        Instr::LocalGet(2), Instr::LocalGet(3), Instr::LocalGet(4), Instr::LocalGet(1),
        Instr::CallIndirect { type_index: wrapper_type, table: import_table }, Instr::End]);
}


/// The segment that first fills table `t`, the post-return table, with the
/// no-op `post_return_noop`, where that table has any slot.
pub open spec fn post_return_fill(b: &GlueBuilder, t: u32) -> Seq<(u32, u32, Seq<FuncRef>)> {
    let k = b.module.funcs@.len() as int;
    let u = distinct_in_order(memwrite_memories(b.memwrite_import_dispatch@, b.memwrite_export_dispatch@)).len() as int;
    let size = table_size_for(record_ids(b.core_func_dispatch@));
    if size > 0 {
        seq![(t, 0u32, Seq::new(size, |j: int| FuncRef::Local((k + 5 + u) as u32)))]
    } else {
        Seq::empty()
    }
}

/// In the finished module, the segments of the post-return table (`j` = 4)
/// are the no-op fill followed by the post-return wrappers, and those of
/// the core-function table (`j` = 5) are the core-function wrappers.
#[verifier::rlimit(40)]
proof fn lemma_post_core_table_segments(b: GlueBuilder, segs: Seq<(u32, u32, Seq<FuncRef>)>, j: int)
    requires
        segs == b.module.elements@.map_values(|x: Element| element_view(x)) + dispatch_segments(&b),
        elements_in_bounds(&b.module),
        b.module.tables@.len() + 6 <= u32::MAX,
        j == 4 || j == 5,
    ensures
        ({
            let k = b.module.funcs@.len() as int;
            let tt = b.module.tables@.len() as int;
            let u = distinct_in_order(memwrite_memories(b.memwrite_import_dispatch@, b.memwrite_export_dispatch@)).len() as int;
            let np = b.post_return_dispatch@.len() as int;
            &&& j == 4 ==> segments_of(segs, (tt + 4) as u32) == post_return_fill(&b, (tt + 4) as u32)
                + entry_elements((tt + 4) as u32, wrapper_table_entries(b.post_return_dispatch@, (k + 6 + u) as nat))
            &&& j == 5 ==> segments_of(segs, (tt + 5) as u32)
                == entry_elements((tt + 5) as u32, wrapper_table_entries(b.core_func_dispatch@, (k + 7 + u + np) as nat))
        }),
{
    let k = b.module.funcs@.len() as int;
    let tt = b.module.tables@.len() as int;
    let uniq = distinct_in_order(memwrite_memories(b.memwrite_import_dispatch@, b.memwrite_export_dispatch@));
    let u = uniq.len() as int;
    let np = b.post_return_dispatch@.len() as int;
    let old_segs = b.module.elements@.map_values(|x: Element| element_view(x));
    let e0 = entry_elements(tt as u32, b.realloc_import_dispatch@);
    let e1 = entry_elements((tt + 1) as u32, b.realloc_export_dispatch@);
    let e2 = entry_elements((tt + 2) as u32, wrapper_entries(b.memwrite_import_dispatch@, uniq, (k + 4) as nat));
    let e3 = entry_elements((tt + 3) as u32, wrapper_entries(b.memwrite_export_dispatch@, uniq, (k + 4) as nat));
    let f = post_return_fill(&b, (tt + 4) as u32);
    let e4 = entry_elements((tt + 4) as u32, wrapper_table_entries(b.post_return_dispatch@, (k + 6 + u) as nat));
    let e5 = entry_elements((tt + 5) as u32, wrapper_table_entries(b.core_func_dispatch@, (k + 7 + u + np) as nat));
    assert(dispatch_segments(&b) == e0 + e1 + e2 + e3 + f + e4 + e5);
    assert(segs == old_segs + (e0 + e1 + e2 + e3 + f + e4 + e5));
    let t = (tt + j) as u32;
    let p = on_table(t);
    assert forall|q: int| 0 <= q < old_segs.len() implies !p(#[trigger] old_segs[q]) by {}
    lemma_filter_drops_all(old_segs, p);
    lemma_segments_of_entries(tt as u32, b.realloc_import_dispatch@, t);
    lemma_segments_of_entries((tt + 1) as u32, b.realloc_export_dispatch@, t);
    lemma_segments_of_entries((tt + 2) as u32, wrapper_entries(b.memwrite_import_dispatch@, uniq, (k + 4) as nat), t);
    lemma_segments_of_entries((tt + 3) as u32, wrapper_entries(b.memwrite_export_dispatch@, uniq, (k + 4) as nat), t);
    lemma_segments_of_entries((tt + 4) as u32, wrapper_table_entries(b.post_return_dispatch@, (k + 6 + u) as nat), t);
    lemma_segments_of_entries((tt + 5) as u32, wrapper_table_entries(b.core_func_dispatch@, (k + 7 + u + np) as nat), t);
    if j == 4 {
        assert forall|q: int| 0 <= q < f.len() implies p(#[trigger] f[q]) by {}
        lemma_filter_keeps_all(f, p);
    } else {
        assert forall|q: int| 0 <= q < f.len() implies !p(#[trigger] f[q]) by {}
        lemma_filter_drops_all(f, p);
    }
    Seq::filter_distributes_over_add(old_segs, e0 + e1 + e2 + e3 + f + e4 + e5, p);
    Seq::filter_distributes_over_add(e0 + e1 + e2 + e3 + f + e4, e5, p);
    Seq::filter_distributes_over_add(e0 + e1 + e2 + e3 + f, e4, p);
    Seq::filter_distributes_over_add(e0 + e1 + e2 + e3, f, p);
    Seq::filter_distributes_over_add(e0 + e1 + e2, e3, p);
    Seq::filter_distributes_over_add(e0 + e1, e2, p);
    Seq::filter_distributes_over_add(e0, e1, p);
}

/// The post-return and core-function dispatch call through their own
/// tables: in the finished module, `dispatch_post_return` calls indirectly
/// through the table whose segments are the fill with the no-op followed by
/// the post-return wrappers, and `dispatch_core_func` through the table
/// whose segments are exactly the core-function wrappers.
#[verifier::rlimit(30)]
pub proof fn lemma_post_return_and_core_dispatch_tables(b: GlueBuilder, m: WasmModule)
    requires
        finished(b, m),
        elements_in_bounds(&b.module),
        b.module.tables@.len() + 6 <= u32::MAX,
    ensures
        ({
            let k = b.module.funcs@.len() as int;
            let u = distinct_in_order(memwrite_memories(b.memwrite_import_dispatch@, b.memwrite_export_dispatch@)).len() as int;
            let np = b.post_return_dispatch@.len() as int;
            let nc = b.core_func_dispatch@.len() as int;
            let segs = m.elements@.map_values(|x: Element| element_view(x));
            let pr = m.funcs@[k + 6 + u + np].instrs@;
            let cf = m.funcs@[k + 7 + u + np + nc].instrs@;
            &&& pr.len() == 3
            &&& pr[2] matches Instr::CallIndirect { table: tp, .. }
                && segments_of(segs, tp) == post_return_fill(&b, tp)
                    + entry_elements(tp, wrapper_table_entries(b.post_return_dispatch@, (k + 6 + u) as nat))
            &&& cf.len() == 5
            &&& cf[4] matches Instr::CallIndirect { table: tc, .. }
                && segments_of(segs, tc) == entry_elements(tc, wrapper_table_entries(b.core_func_dispatch@, (k + 7 + u + np) as nat))
        }),
{
    let k = b.module.funcs@.len() as int;
    let t = b.module.types@.len() as int;
    let tt = b.module.tables@.len() as int;
    let u = distinct_in_order(memwrite_memories(b.memwrite_import_dispatch@, b.memwrite_export_dispatch@)).len() as int;
    let np = b.post_return_dispatch@.len() as int;
    let nc = b.core_func_dispatch@.len() as int;
    let segs = m.elements@.map_values(|x: Element| element_view(x));
    let pr = m.funcs@[k + 6 + u + np].instrs@;
    let cf = m.funcs@[k + 7 + u + np + nc].instrs@;
    assert(func_view(m.funcs@[k + 6 + u + np]).4 == pr);
    assert(func_view(m.funcs@[k + 7 + u + np + nc]).4 == cf);
    lemma_post_core_sides(b, pr, cf, segs);
}

/// The post-return and core-function dispatch of `finish`, as
/// instructions, call through the tables that hold their wrappers.
#[verifier::rlimit(30)]
proof fn lemma_post_core_sides(b: GlueBuilder, pr: Seq<Instr>, cf: Seq<Instr>, segs: Seq<(u32, u32, Seq<FuncRef>)>)
    requires
        ({
            let t = b.module.types@.len() as int;
            let tt = b.module.tables@.len() as int;
            &&& pr == dispatch_post_return_instrs((t + 2) as u32, (tt + 4) as u32)
            &&& cf == dispatch_core_func_instrs((t + 3) as u32, (tt + 5) as u32)
        }),
        segs == b.module.elements@.map_values(|x: Element| element_view(x)) + dispatch_segments(&b),
        elements_in_bounds(&b.module),
        b.module.tables@.len() + 6 <= u32::MAX,
    ensures
        ({
            let k = b.module.funcs@.len() as int;
            let u = distinct_in_order(memwrite_memories(b.memwrite_import_dispatch@, b.memwrite_export_dispatch@)).len() as int;
            let np = b.post_return_dispatch@.len() as int;
            &&& pr.len() == 3
            &&& pr[2] matches Instr::CallIndirect { table: tp, .. }
                && segments_of(segs, tp) == post_return_fill(&b, tp)
                    + entry_elements(tp, wrapper_table_entries(b.post_return_dispatch@, (k + 6 + u) as nat))
            &&& cf.len() == 5
            &&& cf[4] matches Instr::CallIndirect { table: tc, .. }
                && segments_of(segs, tc) == entry_elements(tc, wrapper_table_entries(b.core_func_dispatch@, (k + 7 + u + np) as nat))
        }),
{
    let t = b.module.types@.len() as int;
    let tt = b.module.tables@.len() as int;
    assert(pr[2] == Instr::CallIndirect { type_index: (t + 2) as u32, table: (tt + 4) as u32 });
    assert(cf[4] == Instr::CallIndirect { type_index: (t + 3) as u32, table: (tt + 5) as u32 });
    lemma_post_core_table_segments(b, segs, 4);
    lemma_post_core_table_segments(b, segs, 5);
}

} // verus!
