//! The r3 baseline: shadow-memory instrumentation of a core module and the
//! recording side of its events.
//!
//! A shadow memory (memory 1) mirrors memory 0. Every store to memory 0 is
//! duplicated to memory 1; every load from memory 0 is compared with memory
//! 1 and a divergence is reported; bulk memory operations and `memory.grow`
//! are mirrored; every call to an existing import is reported first.
use vstd::prelude::*;

use vstd::bytes::{lemma_auto_spec_u64_to_from_le_bytes, spec_u64_from_le_bytes, spec_u64_to_le_bytes, u64_to_le_bytes};

use crate::linking::{ImportType, ModuleImport, TypeDef};
use crate::wasm::DataType;

verus! {

/// Trace events emitted by the r3 host functions during recording.
pub enum R3Event {
    ImportCall { func_idx: u32 },
    /// A contiguous run of differing bytes of the real memory at `addr`.
    MemoryWrite { addr: u32, data: Vec<u8> },
}

/// The export name of the shadow memory.
pub const SHADOW_MEMORY_EXPORT: &'static str = "__r3_shadow";

/// The module name of the recorder's imports.
pub const R3_IMPORT_MODULE: &'static str = "r3";

/// The memory immediate of a load or store.
#[derive(Debug, Copy, Clone, PartialEq, Eq, Structural)]
pub struct MemArg {
    pub align: u8,
    pub max_align: u8,
    pub offset: u64,
    pub memory: u32,
}

/// Scalar and vector loads of the form `[addr] -> [val]`.
#[derive(Debug, Copy, Clone, PartialEq, Eq, Structural)]
pub enum LoadKind {
    I32Load,
    I32Load8S,
    I32Load8U,
    I32Load16S,
    I32Load16U,
    I64Load,
    I64Load8S,
    I64Load8U,
    I64Load16S,
    I64Load16U,
    I64Load32S,
    I64Load32U,
    F32Load,
    F64Load,
    V128Load,
    V128Load8x8S,
    V128Load8x8U,
    V128Load16x4S,
    V128Load16x4U,
    V128Load32x2S,
    V128Load32x2U,
    V128Load8Splat,
    V128Load16Splat,
    V128Load32Splat,
    V128Load64Splat,
    V128Load32Zero,
    V128Load64Zero,
}

/// Stores of the form `[addr, val] -> []`.
#[derive(Debug, Copy, Clone, PartialEq, Eq, Structural)]
pub enum StoreKind {
    I32Store,
    I32Store8,
    I32Store16,
    I64Store,
    I64Store8,
    I64Store16,
    I64Store32,
    F32Store,
    F64Store,
    V128Store,
}

/// The lane width of a v128 lane load or store.
#[derive(Debug, Copy, Clone, PartialEq, Eq, Structural)]
pub enum LaneWidth {
    W8,
    W16,
    W32,
    W64,
}

/// The instructions that the instrumentation and the start-function analysis
/// read: memory accesses, bulk memory operations, calls, global and table
/// accesses, and everything else.
#[derive(Debug, Copy, Clone, PartialEq, Eq, Structural)]
pub enum Operator {
    Load { kind: LoadKind, memarg: MemArg },
    Store { kind: StoreKind, memarg: MemArg },
    /// `[addr, v128] -> [v128]`
    LoadLane { width: LaneWidth, memarg: MemArg, lane: u8 },
    /// `[addr, v128] -> []`
    StoreLane { width: LaneWidth, memarg: MemArg, lane: u8 },
    MemoryGrow { mem: u32 },
    MemoryCopy { dst_mem: u32, src_mem: u32 },
    MemoryInit { data_index: u32, mem: u32 },
    MemoryFill { mem: u32 },
    MemorySize { mem: u32 },
    Call { function_index: u32 },
    ReturnCall { function_index: u32 },
    CallIndirect { type_index: u32, table_index: u32 },
    ReturnCallIndirect { type_index: u32, table_index: u32 },
    CallRef { type_index: u32 },
    ReturnCallRef { type_index: u32 },
    GlobalGet { global_index: u32 },
    GlobalSet { global_index: u32 },
    TableGet { table: u32 },
    TableSet { table: u32 },
    TableGrow { table: u32 },
    TableSize { table: u32 },
    TableFill { table: u32 },
    TableInit { elem_index: u32, table: u32 },
    TableCopy { dst_table: u32, src_table: u32 },
    /// Any other instruction: arithmetic, control flow, locals, ...
    Other,
}

/// The value type of the stored value.
pub open spec fn store_kind_type(k: StoreKind) -> DataType {
    match k {
        StoreKind::I32Store | StoreKind::I32Store8 | StoreKind::I32Store16 => DataType::I32,
        StoreKind::I64Store | StoreKind::I64Store8 | StoreKind::I64Store16 | StoreKind::I64Store32 => DataType::I64,
        StoreKind::F32Store => DataType::F32,
        StoreKind::F64Store => DataType::F64,
        StoreKind::V128Store => DataType::V128,
    }
}

/// The value type of the loaded value.
pub open spec fn load_kind_type(k: LoadKind) -> DataType {
    match k {
        LoadKind::I32Load | LoadKind::I32Load8S | LoadKind::I32Load8U | LoadKind::I32Load16S | LoadKind::I32Load16U => DataType::I32,
        LoadKind::I64Load | LoadKind::I64Load8S | LoadKind::I64Load8U | LoadKind::I64Load16S | LoadKind::I64Load16U
            | LoadKind::I64Load32S | LoadKind::I64Load32U => DataType::I64,
        LoadKind::F32Load => DataType::F32,
        LoadKind::F64Load => DataType::F64,
        _ => DataType::V128,
    }
}

/// The number of bytes a load reads.
pub open spec fn load_kind_size(k: LoadKind) -> i32 {
    match k {
        LoadKind::I32Load => 4,
        LoadKind::I32Load8S | LoadKind::I32Load8U => 1,
        LoadKind::I32Load16S | LoadKind::I32Load16U => 2,
        LoadKind::I64Load => 8,
        LoadKind::I64Load8S | LoadKind::I64Load8U => 1,
        LoadKind::I64Load16S | LoadKind::I64Load16U => 2,
        LoadKind::I64Load32S | LoadKind::I64Load32U => 4,
        LoadKind::F32Load => 4,
        LoadKind::F64Load => 8,
        LoadKind::V128Load => 16,
        LoadKind::V128Load8x8S | LoadKind::V128Load8x8U => 8,
        LoadKind::V128Load16x4S | LoadKind::V128Load16x4U => 8,
        LoadKind::V128Load32x2S | LoadKind::V128Load32x2U => 8,
        LoadKind::V128Load8Splat => 1,
        LoadKind::V128Load16Splat => 2,
        LoadKind::V128Load32Splat => 4,
        LoadKind::V128Load64Splat => 8,
        LoadKind::V128Load32Zero => 4,
        LoadKind::V128Load64Zero => 8,
    }
}

/// The number of bytes a lane load reads.
pub open spec fn lane_size(w: LaneWidth) -> i32 {
    match w {
        LaneWidth::W8 => 1,
        LaneWidth::W16 => 2,
        LaneWidth::W32 => 4,
        LaneWidth::W64 => 8,
    }
}

/// The value type stored by a store to memory 0, if `op` is one.
pub open spec fn store_val_type_spec(op: Operator) -> Option<DataType> {
    match op {
        Operator::Store { kind, memarg } => if memarg.memory == 0 { Some(store_kind_type(kind)) } else { None },
        Operator::StoreLane { memarg, .. } => if memarg.memory == 0 { Some(DataType::V128) } else { None },
        _ => None,
    }
}

/// The value type produced by a simple load `[addr] -> [val]` from memory
/// 0, if `op` is one; lane loads are not simple loads.
pub open spec fn load_val_type_spec(op: Operator) -> Option<DataType> {
    match op {
        Operator::Load { kind, memarg } => if memarg.memory == 0 { Some(load_kind_type(kind)) } else { None },
        _ => None,
    }
}

/// The same access to memory 1, if `op` is a load or store on memory 0.
pub open spec fn to_shadow_spec(op: Operator) -> Option<Operator> {
    match op {
        Operator::Load { kind, memarg } => if memarg.memory == 0 { Some(Operator::Load { kind, memarg: MemArg { memory: 1, ..memarg } }) } else { None },
        Operator::Store { kind, memarg } => if memarg.memory == 0 { Some(Operator::Store { kind, memarg: MemArg { memory: 1, ..memarg } }) } else { None },
        Operator::LoadLane { width, memarg, lane } => if memarg.memory == 0 {
            Some(Operator::LoadLane { width, memarg: MemArg { memory: 1, ..memarg }, lane })
        } else {
            None
        },
        Operator::StoreLane { width, memarg, lane } => if memarg.memory == 0 {
            Some(Operator::StoreLane { width, memarg: MemArg { memory: 1, ..memarg }, lane })
        } else {
            None
        },
        _ => None,
    }
}

/// Gets the value type on the stack of a store to memory 0.
pub fn store_val_type(op: &Operator) -> (r: Option<DataType>)
    ensures
        r == store_val_type_spec(*op),
{
    match op {
        Operator::Store { kind, memarg } => {
            if memarg.memory == 0 {
                Some(match kind {
                    StoreKind::I32Store | StoreKind::I32Store8 | StoreKind::I32Store16 => DataType::I32,
                    StoreKind::I64Store | StoreKind::I64Store8 | StoreKind::I64Store16 | StoreKind::I64Store32 => DataType::I64,
                    StoreKind::F32Store => DataType::F32,
                    StoreKind::F64Store => DataType::F64,
                    StoreKind::V128Store => DataType::V128,
                })
            } else {
                None
            }
        },
        Operator::StoreLane { memarg, .. } => {
            if memarg.memory == 0 { Some(DataType::V128) } else { None }
        },
        _ => None,
    }
}

/// Gets the value type produced by a simple load from memory 0 (stack:
/// `[addr] -> [val]`); lane loads are excluded.
pub fn load_val_type(op: &Operator) -> (r: Option<DataType>)
    ensures
        r == load_val_type_spec(*op),
{
    match op {
        Operator::Load { kind, memarg } => {
            if memarg.memory == 0 {
                Some(match kind {
                    LoadKind::I32Load | LoadKind::I32Load8S | LoadKind::I32Load8U | LoadKind::I32Load16S
                    | LoadKind::I32Load16U => DataType::I32,
                    LoadKind::I64Load | LoadKind::I64Load8S | LoadKind::I64Load8U | LoadKind::I64Load16S
                    | LoadKind::I64Load16U | LoadKind::I64Load32S | LoadKind::I64Load32U => DataType::I64,
                    LoadKind::F32Load => DataType::F32,
                    LoadKind::F64Load => DataType::F64,
                    _ => DataType::V128,
                })
            } else {
                None
            }
        },
        _ => None,
    }
}

/// The same memory access targeting memory 1 (the shadow), for loads and
/// stores on memory 0.
pub fn to_shadow(op: &Operator) -> (r: Option<Operator>)
    ensures
        r == to_shadow_spec(*op),
{
    match op {
        Operator::Load { kind, memarg } => {
            if memarg.memory == 0 {
                Some(Operator::Load { kind: *kind, memarg: MemArg { memory: 1, ..*memarg } })
            } else {
                None
            }
        },
        Operator::Store { kind, memarg } => {
            if memarg.memory == 0 {
                Some(Operator::Store { kind: *kind, memarg: MemArg { memory: 1, ..*memarg } })
            } else {
                None
            }
        },
        Operator::LoadLane { width, memarg, lane } => {
            if memarg.memory == 0 {
                Some(Operator::LoadLane { width: *width, memarg: MemArg { memory: 1, ..*memarg }, lane: *lane })
            } else {
                None
            }
        },
        Operator::StoreLane { width, memarg, lane } => {
            if memarg.memory == 0 {
                Some(Operator::StoreLane { width: *width, memarg: MemArg { memory: 1, ..*memarg }, lane: *lane })
            } else {
                None
            }
        },
        _ => None,
    }
}

/// Whether `op` is a v128 lane load on memory 0 (stack: `[addr, v128] -> [v128]`).
pub fn is_lane_load(op: &Operator) -> (r: bool)
    ensures
        r == (*op matches Operator::LoadLane { memarg, .. } && memarg.memory == 0),
{
    match op {
        Operator::LoadLane { memarg, .. } => memarg.memory == 0,
        _ => false,
    }
}

/// The number of bytes a load reads.
pub fn load_byte_size(op: &Operator) -> (r: i32)
    requires
        op is Load || op is LoadLane,
    ensures
        *op matches Operator::Load { kind, .. } ==> r == load_kind_size(kind),
        *op matches Operator::LoadLane { width, .. } ==> r == lane_size(width),
{
    match op {
        Operator::Load { kind, .. } => match kind {
            LoadKind::I32Load => 4,
            LoadKind::I32Load8S | LoadKind::I32Load8U => 1,
            LoadKind::I32Load16S | LoadKind::I32Load16U => 2,
            LoadKind::I64Load => 8,
            LoadKind::I64Load8S | LoadKind::I64Load8U => 1,
            LoadKind::I64Load16S | LoadKind::I64Load16U => 2,
            LoadKind::I64Load32S | LoadKind::I64Load32U => 4,
            LoadKind::F32Load => 4,
            LoadKind::F64Load => 8,
            LoadKind::V128Load => 16,
            LoadKind::V128Load8x8S | LoadKind::V128Load8x8U => 8,
            LoadKind::V128Load16x4S | LoadKind::V128Load16x4U => 8,
            LoadKind::V128Load32x2S | LoadKind::V128Load32x2U => 8,
            LoadKind::V128Load8Splat => 1,
            LoadKind::V128Load16Splat => 2,
            LoadKind::V128Load32Splat => 4,
            LoadKind::V128Load64Splat => 8,
            LoadKind::V128Load32Zero => 4,
            LoadKind::V128Load64Zero => 8,
        },
        Operator::LoadLane { width, .. } => match width {
            LaneWidth::W8 => 1,
            LaneWidth::W16 => 2,
            LaneWidth::W32 => 4,
            LaneWidth::W64 => 8,
        },
        _ => 0,
    }
}

/// Every store to memory 0 is mirrored: it has a value type and a shadow
/// counterpart, which is the same store on memory 1.
pub proof fn lemma_stores_mirrored(op: Operator)
    requires
        store_val_type_spec(op) is Some,
    ensures
        to_shadow_spec(op) matches Some(s) && s == shadow_of(op),
{
}

/// Every simple load from memory 0 is checked against its shadow counterpart.
pub proof fn lemma_loads_checked(op: Operator)
    requires
        load_val_type_spec(op) is Some,
    ensures
        to_shadow_spec(op) matches Some(s) && s == shadow_of(op),
{
}

/// The access `op` on memory 1.
pub open spec fn shadow_of(op: Operator) -> Operator {
    match op {
        Operator::Load { kind, memarg } => Operator::Load { kind, memarg: MemArg { memory: 1, ..memarg } },
        Operator::Store { kind, memarg } => Operator::Store { kind, memarg: MemArg { memory: 1, ..memarg } },
        Operator::LoadLane { width, memarg, lane } => Operator::LoadLane { width, memarg: MemArg { memory: 1, ..memarg }, lane },
        Operator::StoreLane { width, memarg, lane } => Operator::StoreLane { width, memarg: MemArg { memory: 1, ..memarg }, lane },
        _ => op,
    }
}


/// The instructions that the instrumentation injects around an existing one.
#[derive(Debug, Copy, Clone, PartialEq, Eq, Structural)]
pub enum R3Instr {
    Op(Operator),
    LocalGet(u32),
    LocalSet(u32),
    LocalTee(u32),
    I32Const(i32),
    I64Const(i64),
    Call(u32),
    If,
    Else,
    End,
    Block,
    Loop,
    Br(u32),
    BrIf(u32),
    Drop,
    I32Eq,
    I32Ne,
    I64Ne,
    F32Ne,
    F64Ne,
    V128Xor,
    V128AnyTrue,
    I32Add,
    I32Sub,
    I32And,
    I32Shl,
    I32GeU,
    I32LtU,
    I64ExtendI32U,
    I64Shl,
    I64Or,
    I32Load8U { memory: u32 },
    I32Store8 { memory: u32 },
}

/// A not-equal comparison of two values of type `vt` (for v128: whether any
/// bit differs).
pub open spec fn ne_instrs(vt: DataType) -> Seq<R3Instr> {
    match vt {
        DataType::I32 => seq![R3Instr::I32Ne],
        DataType::I64 => seq![R3Instr::I64Ne],
        DataType::F32 => seq![R3Instr::F32Ne],
        DataType::F64 => seq![R3Instr::F64Ne],
        DataType::V128 => seq![R3Instr::V128Xor, R3Instr::V128AnyTrue],
        DataType::Other => Seq::empty(),
    }
}

/// Emits a not-equal comparison for the given value type.
pub fn emit_ne(out: &mut Vec<R3Instr>, vt: DataType)
    ensures
        final(out)@ == old(out)@ + ne_instrs(vt),
{
    match vt {
        DataType::I32 => out.push(R3Instr::I32Ne),
        DataType::I64 => out.push(R3Instr::I64Ne),
        DataType::F32 => out.push(R3Instr::F32Ne),
        DataType::F64 => out.push(R3Instr::F64Ne),
        DataType::V128 => {
            out.push(R3Instr::V128Xor);
            out.push(R3Instr::V128AnyTrue);
        },
        DataType::Other => {},
    }
    assert(out@ =~= old(out)@ + ne_instrs(vt));
}

/// The locals that the instrumentation of a function has added so far: the
/// next free local index and the types of the added locals.
pub struct LocalAlloc {
    pub next: u32,
    pub added: Vec<DataType>,
}

/// The scratch locals of the function being instrumented, each added the
/// first time it is needed.
#[derive(Debug, Copy, Clone, PartialEq, Eq, Structural)]
pub struct Slots {
    pub addr: Option<u32>,
    pub val_i32: Option<u32>,
    pub val_i64: Option<u32>,
    pub val_f32: Option<u32>,
    pub val_f64: Option<u32>,
    pub val_v128: Option<u32>,
    pub scratch_v128: Option<u32>,
    pub bulk_arg1: Option<u32>,
    pub bulk_arg2: Option<u32>,
}

/// The allocation state: the slots, the next free local and the added locals.
pub struct AllocState {
    pub slots: Slots,
    pub next: nat,
    pub added: Seq<DataType>,
}

/// The local of a slot, added with type `ty` if the slot is empty; with the
/// slot and the allocation state afterwards.
pub open spec fn slot_local(slot: Option<u32>, next: nat, added: Seq<DataType>, ty: DataType) -> (u32, Option<u32>, nat, Seq<DataType>) {
    match slot {
        Some(l) => (l, slot, next, added),
        None => (next as u32, Some(next as u32), next + 1, added.push(ty)),
    }
}

/// Gets the local of a slot, adding one of type `ty` the first time.
pub fn get_or_add_local(alloc: &mut LocalAlloc, slot: &mut Option<u32>, ty: DataType) -> (l: u32)
    requires
        old(alloc).next < u32::MAX,
    ensures
        (l, *final(slot), final(alloc).next as nat, final(alloc).added@)
            == slot_local(*old(slot), old(alloc).next as nat, old(alloc).added@, ty),
{
    match slot {
        Some(l) => *l,
        None => {
            let l = alloc.next;
            alloc.next = alloc.next + 1;
            alloc.added.push(ty);
            *slot = Some(l);
            l
        },
    }
}

/// The slot that holds values of type `vt`.
pub open spec fn val_slot(s: Slots, vt: DataType) -> Option<u32> {
    match vt {
        DataType::I32 => s.val_i32,
        DataType::I64 => s.val_i64,
        DataType::F32 => s.val_f32,
        DataType::F64 => s.val_f64,
        _ => s.val_v128,
    }
}

/// The slots with the slot of values of type `vt` replaced.
pub open spec fn with_val_slot(s: Slots, vt: DataType, v: Option<u32>) -> Slots {
    match vt {
        DataType::I32 => Slots { val_i32: v, ..s },
        DataType::I64 => Slots { val_i64: v, ..s },
        DataType::F32 => Slots { val_f32: v, ..s },
        DataType::F64 => Slots { val_f64: v, ..s },
        _ => Slots { val_v128: v, ..s },
    }
}

/// Gets the value local for a value type, adding it the first time.
pub fn get_val_local(alloc: &mut LocalAlloc, slots: &mut Slots, vt: DataType) -> (l: u32)
    requires
        old(alloc).next < u32::MAX,
        vt != DataType::Other,
    ensures
        ({
            let (ll, s, n, a) = slot_local(val_slot(*old(slots), vt), old(alloc).next as nat, old(alloc).added@, vt);
            &&& l == ll
            &&& *final(slots) == with_val_slot(*old(slots), vt, s)
            &&& final(alloc).next == n
            &&& final(alloc).added@ == a
        }),
{
    match vt {
        DataType::I32 => get_or_add_local(alloc, &mut slots.val_i32, DataType::I32),
        DataType::I64 => get_or_add_local(alloc, &mut slots.val_i64, DataType::I64),
        DataType::F32 => get_or_add_local(alloc, &mut slots.val_f32, DataType::F32),
        DataType::F64 => get_or_add_local(alloc, &mut slots.val_f64, DataType::F64),
        _ => get_or_add_local(alloc, &mut slots.val_v128, DataType::V128),
    }
}

/// What the rewrite of an instruction refers to: the number of existing
/// function imports, the function called on a load mismatch, and
/// `record_import_call`.
#[derive(Debug, Copy, Clone, PartialEq, Eq, Structural)]
pub struct OpContext {
    pub num_orig_fn_imports: u32,
    pub on_mismatch: u32,
    pub record_import_call: u32,
}

/// The instructions injected before and after an existing instruction, and
/// the allocation state afterwards.
pub open spec fn instrument_op_spec(op: Operator, st: AllocState, ctx: OpContext) -> (Seq<R3Instr>, Seq<R3Instr>, AllocState) {
    let s = st.slots;
    if store_val_type_spec(op) is Some && to_shadow_spec(op) is Some {
        // Stores: duplicate to the shadow memory
        let vt = store_val_type_spec(op)->0;
        let sh = to_shadow_spec(op)->0;
        let (addr, sa, n1, a1) = slot_local(s.addr, st.next, st.added, DataType::I32);
        let (val, sv, n2, a2) = slot_local(val_slot(s, vt), n1, a1, vt);
        (
            seq![R3Instr::LocalSet(val), R3Instr::LocalTee(addr), R3Instr::LocalGet(val)],
            seq![R3Instr::LocalGet(addr), R3Instr::LocalGet(val), R3Instr::Op(sh)],
            AllocState { slots: with_val_slot(Slots { addr: sa, ..s }, vt, sv), next: n2, added: a2 },
        )
    } else if load_val_type_spec(op) is Some && to_shadow_spec(op) is Some {
        // Simple loads: compare real and shadow, report a divergence at the
        // address of the loaded bytes (operand plus static offset)
        let vt = load_val_type_spec(op)->0;
        let sh = to_shadow_spec(op)->0;
        let size = load_kind_size(op->Load_kind);
        let (addr, sa, n1, a1) = slot_local(s.addr, st.next, st.added, DataType::I32);
        let (val, sv, n2, a2) = slot_local(val_slot(s, vt), n1, a1, vt);
        (
            seq![R3Instr::LocalTee(addr)],
            seq![R3Instr::LocalSet(val), R3Instr::LocalGet(addr), R3Instr::Op(sh), R3Instr::LocalGet(val)]
                + ne_instrs(vt)
                + seq![R3Instr::If, R3Instr::LocalGet(addr), R3Instr::I32Const(load_offset_spec(op)), R3Instr::I32Add,
                    R3Instr::I32Const(size), R3Instr::Call(ctx.on_mismatch), R3Instr::End, R3Instr::LocalGet(val)],
            AllocState { slots: with_val_slot(Slots { addr: sa, ..s }, vt, sv), next: n2, added: a2 },
        )
    } else if op matches Operator::LoadLane { width, memarg, .. } && memarg.memory == 0 {
        // Lane loads: [addr, v128] -> [v128]
        let sh = to_shadow_spec(op)->0;
        let size = lane_size(op->LoadLane_width);
        let (addr, sa, n1, a1) = slot_local(s.addr, st.next, st.added, DataType::I32);
        let (input, si, n2, a2) = slot_local(s.scratch_v128, n1, a1, DataType::V128);
        let (result, sr, n3, a3) = slot_local(s.val_v128, n2, a2, DataType::V128);
        (
            seq![R3Instr::LocalSet(input), R3Instr::LocalTee(addr), R3Instr::LocalGet(input)],
            seq![
                R3Instr::LocalSet(result), R3Instr::LocalGet(addr), R3Instr::LocalGet(input), R3Instr::Op(sh),
                R3Instr::LocalGet(result), R3Instr::V128Xor, R3Instr::V128AnyTrue, R3Instr::If, R3Instr::LocalGet(addr),
                R3Instr::I32Const(load_offset_spec(op)), R3Instr::I32Add, R3Instr::I32Const(size), R3Instr::Call(ctx.on_mismatch),
                R3Instr::End, R3Instr::LocalGet(result),
            ],
            AllocState { slots: Slots { addr: sa, scratch_v128: si, val_v128: sr, ..s }, next: n3, added: a3 },
        )
    } else if op == (Operator::MemoryGrow { mem: 0 }) {
        // memory.grow: grow the shadow too
        let (delta, sa, n1, a1) = slot_local(s.addr, st.next, st.added, DataType::I32);
        let (saved, sb, n2, a2) = slot_local(s.bulk_arg1, n1, a1, DataType::I32);
        (
            seq![R3Instr::LocalTee(delta)],
            seq![R3Instr::LocalSet(saved), R3Instr::LocalGet(delta), R3Instr::Op(Operator::MemoryGrow { mem: 1 }), R3Instr::Drop,
                R3Instr::LocalGet(saved)],
            AllocState { slots: Slots { addr: sa, bulk_arg1: sb, ..s }, next: n2, added: a2 },
        )
    } else if op == (Operator::MemoryCopy { dst_mem: 0, src_mem: 0 }) || (op matches Operator::MemoryInit { mem, .. } && mem == 0)
        || op == (Operator::MemoryFill { mem: 0 }) {
        // memory.copy, memory.init, memory.fill: mirror to the shadow
        let mirrored = match op {
            Operator::MemoryCopy { .. } => Operator::MemoryCopy { dst_mem: 1, src_mem: 1 },
            Operator::MemoryInit { data_index, .. } => Operator::MemoryInit { data_index, mem: 1 },
            _ => Operator::MemoryFill { mem: 1 },
        };
        let (dst, sa, n1, a1) = slot_local(s.addr, st.next, st.added, DataType::I32);
        let (arg1, s1, n2, a2) = slot_local(s.bulk_arg1, n1, a1, DataType::I32);
        let (len, s2, n3, a3) = slot_local(s.bulk_arg2, n2, a2, DataType::I32);
        (
            seq![R3Instr::LocalSet(len), R3Instr::LocalSet(arg1), R3Instr::LocalTee(dst), R3Instr::LocalGet(arg1), R3Instr::LocalGet(len)],
            seq![R3Instr::LocalGet(dst), R3Instr::LocalGet(arg1), R3Instr::LocalGet(len), R3Instr::Op(mirrored)],
            AllocState { slots: Slots { addr: sa, bulk_arg1: s1, bulk_arg2: s2, ..s }, next: n3, added: a3 },
        )
    } else if op matches Operator::Call { function_index } && function_index < ctx.num_orig_fn_imports {
        // Direct calls to existing imports: record the call first
        (
            seq![R3Instr::I32Const(op->Call_function_index as i32), R3Instr::Call(ctx.record_import_call)],
            Seq::empty(),
            st,
        )
    } else {
        (Seq::empty(), Seq::empty(), st)
    }
}

/// The static offset of a load's memory immediate, as the `i32` added to the
/// address operand to give the address of the loaded bytes (the offsets of a
/// 32-bit memory fit in 32 bits).
pub open spec fn load_offset_spec(op: Operator) -> i32 {
    match op {
        Operator::Load { memarg, .. } => memarg.offset as u32 as i32,
        Operator::LoadLane { memarg, .. } => memarg.offset as u32 as i32,
        _ => 0,
    }
}

/// The static offset of a load, as `load_offset_spec` gives it.
pub fn load_offset(op: &Operator) -> (r: i32)
    ensures
        r == load_offset_spec(*op),
{
    let o: u64 = match op {
        Operator::Load { memarg, .. } => memarg.offset,
        Operator::LoadLane { memarg, .. } => memarg.offset,
        _ => {
            return 0;
        },
    };
    let low: u32 = #[verifier::truncate] (o as u32);
    #[verifier::truncate] (low as i32)
}

/// The allocation state of a function being instrumented.
pub open spec fn alloc_state(slots: Slots, alloc: &LocalAlloc) -> AllocState {
    AllocState { slots, next: alloc.next as nat, added: alloc.added@ }
}

/// Rewrites one instruction of a function: returns the instructions to inject
/// before it and after it, adding scratch locals as needed.
pub fn instrument_op(op: &Operator, slots: &mut Slots, alloc: &mut LocalAlloc, ctx: &OpContext) -> (r: (Vec<R3Instr>, Vec<R3Instr>))
    requires
        old(alloc).next + 3 <= u32::MAX,
    ensures
        (r.0@, r.1@, alloc_state(*final(slots), final(alloc))) == instrument_op_spec(*op, alloc_state(*old(slots), old(alloc)), *ctx),
{
    let mut before: Vec<R3Instr> = Vec::new();
    let mut after: Vec<R3Instr> = Vec::new();
    let store_vt = store_val_type(op);
    let load_vt = load_val_type(op);
    let shadow = to_shadow(op);
    if store_vt.is_some() && shadow.is_some() {
        let vt = store_vt.unwrap();
        let shadow_store = shadow.unwrap();
        let addr = get_or_add_local(alloc, &mut slots.addr, DataType::I32);
        let val = get_val_local(alloc, slots, vt);
        before.push(R3Instr::LocalSet(val));
        before.push(R3Instr::LocalTee(addr));
        before.push(R3Instr::LocalGet(val));
        after.push(R3Instr::LocalGet(addr));
        after.push(R3Instr::LocalGet(val));
        after.push(R3Instr::Op(shadow_store));
        assert(before@ =~= seq![R3Instr::LocalSet(val), R3Instr::LocalTee(addr), R3Instr::LocalGet(val)]);
        assert(after@ =~= seq![R3Instr::LocalGet(addr), R3Instr::LocalGet(val), R3Instr::Op(shadow_store)]);
    } else if load_vt.is_some() && shadow.is_some() {
        let vt = load_vt.unwrap();
        let shadow_load = shadow.unwrap();
        let byte_size = load_byte_size(op);
        let addr = get_or_add_local(alloc, &mut slots.addr, DataType::I32);
        let val = get_val_local(alloc, slots, vt);
        before.push(R3Instr::LocalTee(addr));
        after.push(R3Instr::LocalSet(val));
        after.push(R3Instr::LocalGet(addr));
        after.push(R3Instr::Op(shadow_load));
        after.push(R3Instr::LocalGet(val));
        emit_ne(&mut after, vt);
        after.push(R3Instr::If);
        after.push(R3Instr::LocalGet(addr));
        after.push(R3Instr::I32Const(load_offset(op)));
        after.push(R3Instr::I32Add);
        after.push(R3Instr::I32Const(byte_size));
        after.push(R3Instr::Call(ctx.on_mismatch));
        after.push(R3Instr::End);
        after.push(R3Instr::LocalGet(val));
        assert(before@ =~= seq![R3Instr::LocalTee(addr)]);
        assert(after@ =~= seq![R3Instr::LocalSet(val), R3Instr::LocalGet(addr), R3Instr::Op(shadow_load), R3Instr::LocalGet(val)]
            + ne_instrs(vt)
            + seq![R3Instr::If, R3Instr::LocalGet(addr), R3Instr::I32Const(load_offset_spec(*op)), R3Instr::I32Add,
                R3Instr::I32Const(byte_size), R3Instr::Call(ctx.on_mismatch), R3Instr::End, R3Instr::LocalGet(val)]);
    } else if is_lane_load(op) {
        let shadow_lane_load = shadow.unwrap();
        let byte_size = load_byte_size(op);
        let addr = get_or_add_local(alloc, &mut slots.addr, DataType::I32);
        let input = get_or_add_local(alloc, &mut slots.scratch_v128, DataType::V128);
        let result = get_or_add_local(alloc, &mut slots.val_v128, DataType::V128);
        before.push(R3Instr::LocalSet(input));
        before.push(R3Instr::LocalTee(addr));
        before.push(R3Instr::LocalGet(input));
        after.push(R3Instr::LocalSet(result));
        after.push(R3Instr::LocalGet(addr));
        after.push(R3Instr::LocalGet(input));
        after.push(R3Instr::Op(shadow_lane_load));
        after.push(R3Instr::LocalGet(result));
        after.push(R3Instr::V128Xor);
        after.push(R3Instr::V128AnyTrue);
        after.push(R3Instr::If);
        after.push(R3Instr::LocalGet(addr));
        after.push(R3Instr::I32Const(load_offset(op)));
        after.push(R3Instr::I32Add);
        after.push(R3Instr::I32Const(byte_size));
        after.push(R3Instr::Call(ctx.on_mismatch));
        after.push(R3Instr::End);
        after.push(R3Instr::LocalGet(result));
        assert(before@ =~= seq![R3Instr::LocalSet(input), R3Instr::LocalTee(addr), R3Instr::LocalGet(input)]);
        assert(after@ =~= seq![
            R3Instr::LocalSet(result), R3Instr::LocalGet(addr), R3Instr::LocalGet(input), R3Instr::Op(shadow_lane_load),
            R3Instr::LocalGet(result), R3Instr::V128Xor, R3Instr::V128AnyTrue, R3Instr::If, R3Instr::LocalGet(addr),
            R3Instr::I32Const(load_offset_spec(*op)), R3Instr::I32Add, R3Instr::I32Const(byte_size), R3Instr::Call(ctx.on_mismatch),
            R3Instr::End, R3Instr::LocalGet(result),
        ]);
    } else if *op == (Operator::MemoryGrow { mem: 0 }) {
        let delta = get_or_add_local(alloc, &mut slots.addr, DataType::I32);
        let saved_result = get_or_add_local(alloc, &mut slots.bulk_arg1, DataType::I32);
        before.push(R3Instr::LocalTee(delta));
        after.push(R3Instr::LocalSet(saved_result));
        after.push(R3Instr::LocalGet(delta));
        after.push(R3Instr::Op(Operator::MemoryGrow { mem: 1 }));
        after.push(R3Instr::Drop);
        after.push(R3Instr::LocalGet(saved_result));
        assert(before@ =~= seq![R3Instr::LocalTee(delta)]);
        assert(after@ =~= seq![R3Instr::LocalSet(saved_result), R3Instr::LocalGet(delta), R3Instr::Op(Operator::MemoryGrow { mem: 1 }),
            R3Instr::Drop, R3Instr::LocalGet(saved_result)]);
    } else if let Some(mirrored) = mirrored_bulk_op(op) {
        let dst = get_or_add_local(alloc, &mut slots.addr, DataType::I32);
        let arg1 = get_or_add_local(alloc, &mut slots.bulk_arg1, DataType::I32);
        let len = get_or_add_local(alloc, &mut slots.bulk_arg2, DataType::I32);
        before.push(R3Instr::LocalSet(len));
        before.push(R3Instr::LocalSet(arg1));
        before.push(R3Instr::LocalTee(dst));
        before.push(R3Instr::LocalGet(arg1));
        before.push(R3Instr::LocalGet(len));
        after.push(R3Instr::LocalGet(dst));
        after.push(R3Instr::LocalGet(arg1));
        after.push(R3Instr::LocalGet(len));
        after.push(R3Instr::Op(mirrored));
        assert(before@ =~= seq![R3Instr::LocalSet(len), R3Instr::LocalSet(arg1), R3Instr::LocalTee(dst), R3Instr::LocalGet(arg1),
            R3Instr::LocalGet(len)]);
        assert(after@ =~= seq![R3Instr::LocalGet(dst), R3Instr::LocalGet(arg1), R3Instr::LocalGet(len), R3Instr::Op(mirrored)]);
    } else if let Operator::Call { function_index } = op {
        if *function_index < ctx.num_orig_fn_imports {
            before.push(R3Instr::I32Const(*function_index as i32));
            before.push(R3Instr::Call(ctx.record_import_call));
            assert(before@ =~= seq![R3Instr::I32Const(*function_index as i32), R3Instr::Call(ctx.record_import_call)]);
        }
    }
    (before, after)
}

/// The mirror on memory 1 of `memory.copy`, `memory.init` or `memory.fill`
/// on memory 0.
pub fn mirrored_bulk_op(op: &Operator) -> (r: Option<Operator>)
    ensures
        r == (if *op == (Operator::MemoryCopy { dst_mem: 0, src_mem: 0 }) {
            Some(Operator::MemoryCopy { dst_mem: 1, src_mem: 1 })
        } else if *op matches Operator::MemoryInit { data_index, mem } && mem == 0 {
            Some(Operator::MemoryInit { data_index: op->data_index, mem: 1 })
        } else if *op == (Operator::MemoryFill { mem: 0 }) {
            Some(Operator::MemoryFill { mem: 1 })
        } else {
            None::<Operator>
        }),
{
    match op {
        Operator::MemoryCopy { dst_mem, src_mem } => {
            if *dst_mem == 0 && *src_mem == 0 { Some(Operator::MemoryCopy { dst_mem: 1, src_mem: 1 }) } else { None }
        },
        Operator::MemoryInit { data_index, mem } => {
            if *mem == 0 { Some(Operator::MemoryInit { data_index: *data_index, mem: 1 }) } else { None }
        },
        Operator::MemoryFill { mem } => {
            if *mem == 0 { Some(Operator::MemoryFill { mem: 1 }) } else { None }
        },
        _ => None,
    }
}


/// The body of the trampoline of an existing function import: report the
/// call, then call the import with the trampoline's own parameters.
pub open spec fn trampoline_instrs(orig: u32, num_params: nat, record_import_call: u32) -> Seq<R3Instr> {
    seq![R3Instr::I32Const(orig as i32), R3Instr::Call(record_import_call)]
        + Seq::new(num_params, |i: int| R3Instr::LocalGet(i as u32))
        + seq![R3Instr::Call(orig)]
}

/// Builds the trampoline body of an existing function import.
pub fn trampoline_body(orig: u32, num_params: usize, record_import_call: u32) -> (r: Vec<R3Instr>)
    ensures
        r@ == trampoline_instrs(orig, num_params as nat, record_import_call),
{
    let mut r: Vec<R3Instr> = Vec::new();
    r.push(R3Instr::I32Const(orig as i32));
    r.push(R3Instr::Call(record_import_call));
    for i in 0..num_params
        invariant
            r@ =~= seq![R3Instr::I32Const(orig as i32), R3Instr::Call(record_import_call)]
                + Seq::new(i as nat, |j: int| R3Instr::LocalGet(j as u32)),
    {
        r.push(R3Instr::LocalGet(#[verifier::truncate] (i as u32)));
    }
    r.push(R3Instr::Call(orig));
    r
}

/// The function a reference goes to once existing imports are replaced by
/// their trampolines.
pub open spec fn retargeted(tramps: Seq<(u32, u32)>, f: u32) -> u32 {
    if exists|i: int| 0 <= i < tramps.len() && tramps[i].0 == f {
        tramps[choose|i: int| 0 <= i < tramps.len() && tramps[i].0 == f].1
    } else {
        f
    }
}

/// Each existing import occurs once among the trampolines.
pub open spec fn distinct_originals(tramps: Seq<(u32, u32)>) -> bool {
    forall|i: int, j: int| 0 <= i < j < tramps.len() ==> tramps[i].0 != tramps[j].0
}

/// Replaces every reference to an existing import by its trampoline (the
/// function references of an element segment).
pub fn retarget_funcs(funcs: &mut Vec<u32>, tramps: &Vec<(u32, u32)>)
    requires
        distinct_originals(tramps@),
    ensures
        final(funcs)@.len() == old(funcs)@.len(),
        forall|k: int| 0 <= k < final(funcs)@.len() ==> #[trigger] final(funcs)@[k] == retargeted(tramps@, old(funcs)@[k]),
{
    let n = funcs.len();
    for k in 0..n
        invariant
            n == funcs@.len(),
            n == old(funcs)@.len(),
            distinct_originals(tramps@),
            forall|q: int| 0 <= q < k ==> #[trigger] funcs@[q] == retargeted(tramps@, old(funcs)@[q]),
            forall|q: int| k <= q < n ==> #[trigger] funcs@[q] == old(funcs)@[q],
    {
        let f = funcs[k];
        let found = find_trampoline(tramps, f);
        if let Some(t) = found {
            funcs.set(k, t);
        }
    }
}

/// The trampoline of `f`, if `f` is an existing import.
pub fn find_trampoline(tramps: &Vec<(u32, u32)>, f: u32) -> (r: Option<u32>)
    requires
        distinct_originals(tramps@),
    ensures
        match r {
            Some(t) => t == retargeted(tramps@, f),
            None => retargeted(tramps@, f) == f,
        },
{
    let m = tramps.len();
    for i in 0..m
        invariant
            m == tramps@.len(),
            distinct_originals(tramps@),
            forall|j: int| 0 <= j < i ==> tramps@[j].0 != f,
    {
        if tramps[i].0 == f {
            proof {
                let c = choose|c: int| 0 <= c < tramps@.len() && tramps@[c].0 == f;
                assert(c == i) by {
                    if c > i {
                        assert(tramps@[i as int].0 != tramps@[c].0);
                    }
                }
            }
            return Some(tramps[i].1);
        }
    }
    None
}

/// Whether the module gets instrumented: it has a memory, memory 0 is not
/// imported, and it defines at least one function.
pub fn should_instrument(num_memories: u32, imports_memory: bool, num_local_funcs: usize) -> (r: bool)
    ensures
        r == (num_memories > 0 && !imports_memory && num_local_funcs > 0),
{
    if num_memories == 0 {
        return false;
    }
    if imports_memory {
        return false;
    }
    if num_local_funcs == 0 {
        return false;
    }
    true
}

/// The locals of the scan-diff helper `(addr, size)`: end, i, run_start,
/// byte_real, byte_shadow, lo, hi, offset, shift.
pub open spec fn scan_diff_locals() -> Seq<DataType> {
    seq![DataType::I32, DataType::I32, DataType::I32, DataType::I32, DataType::I32, DataType::I64, DataType::I64,
        DataType::I32, DataType::I64]
}

/// The body of the scan-diff helper `(addr, size)`: it scans memories 0 and
/// 1 byte by byte over `[addr, addr + size)`, packs every run of differing
/// bytes into two little-endian quadwords (offsets 0..8 into `lo`, the
/// others into `hi` at their offset modulo 8), reports it with
/// `record_memory_write(run_start, run_len, lo, hi)`, and copies each
/// differing byte into memory 1.
pub open spec fn scan_diff_instrs(record_memory_write: u32) -> Seq<R3Instr> {
    let (addr, size, end, i, run_start, byte_real, byte_shadow, lo, hi, offset, shift) = (0u32, 1u32, 2u32, 3u32, 4u32, 5u32, 6u32, 7u32, 8u32, 9u32, 10u32);
    seq![
        R3Instr::LocalGet(addr), R3Instr::LocalGet(size), R3Instr::I32Add, R3Instr::LocalSet(end),
        R3Instr::LocalGet(addr), R3Instr::LocalSet(i),
        R3Instr::Block, R3Instr::Loop,
        R3Instr::LocalGet(i), R3Instr::LocalGet(end), R3Instr::I32GeU, R3Instr::BrIf(1),
        R3Instr::LocalGet(i), R3Instr::I32Load8U { memory: 0 }, R3Instr::LocalSet(byte_real),
        R3Instr::LocalGet(i), R3Instr::I32Load8U { memory: 1 }, R3Instr::LocalSet(byte_shadow),
        R3Instr::LocalGet(byte_real), R3Instr::LocalGet(byte_shadow), R3Instr::I32Eq, R3Instr::If,
        R3Instr::LocalGet(i), R3Instr::I32Const(1), R3Instr::I32Add, R3Instr::LocalSet(i), R3Instr::Br(1),
        R3Instr::End,
        R3Instr::LocalGet(i), R3Instr::LocalSet(run_start),
        R3Instr::I64Const(0), R3Instr::LocalSet(lo), R3Instr::I64Const(0), R3Instr::LocalSet(hi),
        R3Instr::Block, R3Instr::Loop,
        R3Instr::LocalGet(i), R3Instr::LocalGet(end), R3Instr::I32GeU, R3Instr::BrIf(1),
        R3Instr::LocalGet(i), R3Instr::I32Load8U { memory: 0 }, R3Instr::LocalSet(byte_real),
        R3Instr::LocalGet(i), R3Instr::I32Load8U { memory: 1 }, R3Instr::LocalSet(byte_shadow),
        R3Instr::LocalGet(byte_real), R3Instr::LocalGet(byte_shadow), R3Instr::I32Eq, R3Instr::BrIf(1),
        R3Instr::LocalGet(i), R3Instr::LocalGet(run_start), R3Instr::I32Sub, R3Instr::LocalSet(offset),
        R3Instr::LocalGet(offset), R3Instr::I32Const(7), R3Instr::I32And, R3Instr::I32Const(3), R3Instr::I32Shl,
        R3Instr::I64ExtendI32U, R3Instr::LocalSet(shift),
        R3Instr::LocalGet(offset), R3Instr::I32Const(8), R3Instr::I32LtU, R3Instr::If,
        R3Instr::LocalGet(lo), R3Instr::LocalGet(byte_real), R3Instr::I64ExtendI32U, R3Instr::LocalGet(shift), R3Instr::I64Shl,
        R3Instr::I64Or, R3Instr::LocalSet(lo),
        R3Instr::Else,
        R3Instr::LocalGet(hi), R3Instr::LocalGet(byte_real), R3Instr::I64ExtendI32U, R3Instr::LocalGet(shift), R3Instr::I64Shl,
        R3Instr::I64Or, R3Instr::LocalSet(hi),
        R3Instr::End,
        R3Instr::LocalGet(i), R3Instr::LocalGet(byte_real), R3Instr::I32Store8 { memory: 1 },
        R3Instr::LocalGet(i), R3Instr::I32Const(1), R3Instr::I32Add, R3Instr::LocalSet(i),
        R3Instr::Br(0),
        R3Instr::End, R3Instr::End,
        R3Instr::LocalGet(run_start), R3Instr::LocalGet(i), R3Instr::LocalGet(run_start), R3Instr::I32Sub,
        R3Instr::LocalGet(lo), R3Instr::LocalGet(hi), R3Instr::Call(record_memory_write),
        R3Instr::Br(0),
        R3Instr::End, R3Instr::End,
    ]
}


/// Builds the scan-diff helper `(addr, size)` of component mode: its added
/// locals and its body, which reports through `record_memory_write`.
pub fn build_scan_diff_helper(record_memory_write: u32) -> (r: (Vec<DataType>, Vec<R3Instr>))
    ensures
        r.0@ == scan_diff_locals(),
        r.1@ == scan_diff_instrs(record_memory_write),
{
    let (addr, size, end, i, run_start, byte_real, byte_shadow, lo, hi, offset, shift) = (0u32, 1u32, 2u32, 3u32, 4u32, 5u32, 6u32, 7u32, 8u32, 9u32, 10u32);
    let locals = vec![DataType::I32, DataType::I32, DataType::I32, DataType::I32, DataType::I32, DataType::I64, DataType::I64,
        DataType::I32, DataType::I64];
    let body = vec![
        R3Instr::LocalGet(addr), R3Instr::LocalGet(size), R3Instr::I32Add, R3Instr::LocalSet(end),
        R3Instr::LocalGet(addr), R3Instr::LocalSet(i),
        R3Instr::Block, R3Instr::Loop,
        R3Instr::LocalGet(i), R3Instr::LocalGet(end), R3Instr::I32GeU, R3Instr::BrIf(1),
        R3Instr::LocalGet(i), R3Instr::I32Load8U { memory: 0 }, R3Instr::LocalSet(byte_real),
        R3Instr::LocalGet(i), R3Instr::I32Load8U { memory: 1 }, R3Instr::LocalSet(byte_shadow),
        R3Instr::LocalGet(byte_real), R3Instr::LocalGet(byte_shadow), R3Instr::I32Eq, R3Instr::If,
        R3Instr::LocalGet(i), R3Instr::I32Const(1), R3Instr::I32Add, R3Instr::LocalSet(i), R3Instr::Br(1),
        R3Instr::End,
        R3Instr::LocalGet(i), R3Instr::LocalSet(run_start),
        R3Instr::I64Const(0), R3Instr::LocalSet(lo), R3Instr::I64Const(0), R3Instr::LocalSet(hi),
        R3Instr::Block, R3Instr::Loop,
        R3Instr::LocalGet(i), R3Instr::LocalGet(end), R3Instr::I32GeU, R3Instr::BrIf(1),
        R3Instr::LocalGet(i), R3Instr::I32Load8U { memory: 0 }, R3Instr::LocalSet(byte_real),
        R3Instr::LocalGet(i), R3Instr::I32Load8U { memory: 1 }, R3Instr::LocalSet(byte_shadow),
        R3Instr::LocalGet(byte_real), R3Instr::LocalGet(byte_shadow), R3Instr::I32Eq, R3Instr::BrIf(1),
        R3Instr::LocalGet(i), R3Instr::LocalGet(run_start), R3Instr::I32Sub, R3Instr::LocalSet(offset),
        R3Instr::LocalGet(offset), R3Instr::I32Const(7), R3Instr::I32And, R3Instr::I32Const(3), R3Instr::I32Shl,
        R3Instr::I64ExtendI32U, R3Instr::LocalSet(shift),
        R3Instr::LocalGet(offset), R3Instr::I32Const(8), R3Instr::I32LtU, R3Instr::If,
        R3Instr::LocalGet(lo), R3Instr::LocalGet(byte_real), R3Instr::I64ExtendI32U, R3Instr::LocalGet(shift), R3Instr::I64Shl,
        R3Instr::I64Or, R3Instr::LocalSet(lo),
        R3Instr::Else,
        R3Instr::LocalGet(hi), R3Instr::LocalGet(byte_real), R3Instr::I64ExtendI32U, R3Instr::LocalGet(shift), R3Instr::I64Shl,
        R3Instr::I64Or, R3Instr::LocalSet(hi),
        R3Instr::End,
        R3Instr::LocalGet(i), R3Instr::LocalGet(byte_real), R3Instr::I32Store8 { memory: 1 },
        R3Instr::LocalGet(i), R3Instr::I32Const(1), R3Instr::I32Add, R3Instr::LocalSet(i),
        R3Instr::Br(0),
        R3Instr::End, R3Instr::End,
        R3Instr::LocalGet(run_start), R3Instr::LocalGet(i), R3Instr::LocalGet(run_start), R3Instr::I32Sub,
        R3Instr::LocalGet(lo), R3Instr::LocalGet(hi), R3Instr::Call(record_memory_write),
        R3Instr::Br(0),
        R3Instr::End, R3Instr::End,
    ];
    assert(locals@ =~= scan_diff_locals());
    assert(body@ =~= scan_diff_instrs(record_memory_write));
    (locals, body)
}

/// Run `r` (offset, bytes) covers position `j`.
pub open spec fn run_covers(r: (int, Seq<u8>), j: int) -> bool {
    r.0 <= j < r.0 + r.1.len()
}

/// The view of runs: (offset, bytes).
pub open spec fn runs_view(runs: Seq<(u32, Vec<u8>)>) -> Seq<(int, Seq<u8>)> {
    runs.map_values(|r: (u32, Vec<u8>)| (r.0 as int, r.1@))
}

/// The runs recorded by memory-write events of the range at `addr`.
pub open spec fn event_runs(addr: u32, events: Seq<R3Event>) -> Seq<(int, Seq<u8>)> {
    events.map_values(|e: R3Event| match e {
        R3Event::MemoryWrite { addr: a, data } => (a - addr, data@),
        R3Event::ImportCall { .. } => (-1, Seq::empty()),
    })
}

/// The runs are the maximal runs of positions where `real` and `shadow`
/// differ, in order, each with the bytes of `real`.
pub open spec fn diff_runs_of(mem: Seq<u8>, shadow: Seq<u8>, runs: Seq<(int, Seq<u8>)>) -> bool {
    let n = mem.len();
    &&& forall|k: int| 0 <= k < runs.len() ==> {
        let (s, d) = #[trigger] runs[k];
        &&& d.len() > 0
        &&& 0 <= s
        &&& s + d.len() <= n
        &&& d == mem.subrange(s, s + d.len())
        &&& forall|p: int| s <= p < s + d.len() ==> mem[p] != shadow[p]
        &&& (s == 0 || mem[s - 1] == shadow[s - 1])
        &&& (s + d.len() == n || mem[s + d.len()] == shadow[s + d.len()])
    }
    &&& forall|k: int| 0 <= k < runs.len() - 1 ==> (#[trigger] runs[k]).0 + runs[k].1.len() < runs[k + 1].0
    &&& forall|j: int| 0 <= j < n && mem[j] != shadow[j] ==> exists|k: int| 0 <= k < runs.len() && run_covers(#[trigger] runs[k], j)
}

/// The memory `shadow` after writing each run at its offset.
pub open spec fn after_writes(shadow: Seq<u8>, runs: Seq<(int, Seq<u8>)>) -> Seq<u8> {
    Seq::new(shadow.len(), |j: int|
        if exists|k: int| 0 <= k < runs.len() && run_covers(#[trigger] runs[k], j) {
            let k = choose|k: int| 0 <= k < runs.len() && run_covers(#[trigger] runs[k], j);
            runs[k].1[j - runs[k].0]
        } else {
            shadow[j]
        })
}

/// Writing the runs into the shadow memory gives the real memory.
pub proof fn lemma_diff_runs_restore(mem: Seq<u8>, shadow: Seq<u8>, runs: Seq<(int, Seq<u8>)>)
    requires
        mem.len() == shadow.len(),
        diff_runs_of(mem, shadow, runs),
    ensures
        after_writes(shadow, runs) == mem,
{
    assert forall|j: int| 0 <= j < mem.len() implies #[trigger] after_writes(shadow, runs)[j] == mem[j] by {
        if exists|k: int| 0 <= k < runs.len() && run_covers(#[trigger] runs[k], j) {
            let k = choose|k: int| 0 <= k < runs.len() && run_covers(#[trigger] runs[k], j);
            let (s, d) = runs[k];
            assert(d == mem.subrange(s, s + d.len()));
            assert(d[j - s] == mem[j]);
        }
    }
    assert(after_writes(shadow, runs) =~= mem);
}

/// Run `r` (offset, bytes) covers position `j`.
pub open spec fn run_covers_exec(r: (u32, Vec<u8>), j: int) -> bool {
    r.0 <= j < r.0 + r.1@.len()
}

/// A copy of `v[lo..hi]`.
pub fn copy_range(v: &Vec<u8>, lo: usize, hi: usize) -> (r: Vec<u8>)
    requires
        lo <= hi <= v@.len(),
    ensures
        r@ == v@.subrange(lo as int, hi as int),
{
    let mut r: Vec<u8> = Vec::new();
    for i in lo..hi
        invariant
            lo <= hi <= v@.len(),
            r@ =~= v@.subrange(lo as int, i as int),
    {
        r.push(v[i]);
    }
    r
}

/// The maximal runs of differing bytes between the real memory and its
/// shadow over the same range, in order, each as (offset, real bytes).
pub fn diff_runs(mem: &Vec<u8>, shadow: &Vec<u8>) -> (runs: Vec<(u32, Vec<u8>)>)
    requires
        mem@.len() == shadow@.len(),
        mem@.len() <= u32::MAX + 1,
    ensures
        diff_runs_of(mem@, shadow@, runs_view(runs@)),
{
    let n = mem.len();
    let mut runs: Vec<(u32, Vec<u8>)> = Vec::new();
    let mut i: usize = 0;
    while i < n
        invariant
            n == mem@.len(),
            n == shadow@.len(),
            n <= u32::MAX + 1,
            i <= n,
            forall|k: int| 0 <= k < runs@.len() ==> {
                let (s, d) = #[trigger] runs@[k];
                &&& d@.len() > 0
                &&& s + d@.len() <= i
                &&& d@ == mem@.subrange(s as int, s + d@.len())
                &&& forall|p: int| s <= p < s + d@.len() ==> mem@[p] != shadow@[p]
                &&& (s == 0 || mem@[s - 1] == shadow@[s - 1])
                &&& (s + d@.len() == n || mem@[s + d@.len()] == shadow@[s + d@.len()])
            },
            forall|k: int| 0 <= k < runs@.len() - 1 ==> (#[trigger] runs@[k]).0 + runs@[k].1@.len() < runs@[k + 1].0,
            forall|j: int| 0 <= j < i && mem@[j] != shadow@[j] ==> exists|k: int| 0 <= k < runs@.len() && run_covers_exec(#[trigger] runs@[k], j),
            i == 0 || mem@[i - 1] == shadow@[i - 1]
                || (runs@.len() > 0 && runs@.last().0 + runs@.last().1@.len() == i),
            runs@.len() > 0 ==> runs@.last().0 + runs@.last().1@.len() <= i,
        decreases n - i,
    {
        if mem[i] == shadow[i] {
            i = i + 1;
        } else {
            let run_start = i;
            while i < n && mem[i] != shadow[i]
                invariant
                    n == mem@.len(),
                    n == shadow@.len(),
                    run_start <= i <= n,
                    forall|p: int| run_start <= p < i ==> mem@[p] != shadow@[p],
                decreases n - i,
            {
                i = i + 1;
            }
            let data = copy_range(mem, run_start, i);
            let ghost runs0 = runs@;
            proof {
                if run_start > 0 && mem@[run_start - 1] != shadow@[run_start - 1] {
                    assert(runs0.last().0 + runs0.last().1@.len() == run_start);
                    assert(mem@[run_start as int] == shadow@[run_start as int]);
                }
            }
            runs.push((run_start as u32, data));
            proof {
                assert forall|k: int| 0 <= k < runs@.len() - 1 implies (#[trigger] runs@[k]).0 + runs@[k].1@.len() < runs@[k + 1].0 by {
                    if k < runs0.len() - 1 {
                        assert(runs@[k] == runs0[k] && runs@[k + 1] == runs0[k + 1]);
                    } else {
                        assert(runs@[k] == runs0.last());
                        assert(runs0.last().0 + runs0.last().1@.len() <= run_start);
                        if runs0.last().0 + runs0.last().1@.len() == run_start {
                            assert(mem@[run_start as int] == shadow@[run_start as int]);
                        }
                    }
                }
                assert forall|j: int| 0 <= j < i && mem@[j] != shadow@[j] implies exists|k: int| 0 <= k < runs@.len() && run_covers_exec(#[trigger] runs@[k], j) by {
                    if j < run_start {
                        let k = choose|k: int| 0 <= k < runs0.len() && run_covers_exec(#[trigger] runs0[k], j);
                        assert(runs@[k] == runs0[k]);
                    } else {
                        assert(run_covers_exec(runs@[runs@.len() - 1], j));
                    }
                }
                assert forall|k: int| 0 <= k < runs@.len() implies {
                    let (s, d) = #[trigger] runs@[k];
                    &&& d@.len() > 0
                    &&& s + d@.len() <= i
                    &&& d@ == mem@.subrange(s as int, s + d@.len())
                    &&& forall|p: int| s <= p < s + d@.len() ==> mem@[p] != shadow@[p]
                    &&& (s == 0 || mem@[s - 1] == shadow@[s - 1])
                    &&& (s + d@.len() == n || mem@[s + d@.len()] == shadow@[s + d@.len()])
                } by {
                    if k < runs0.len() {
                        assert(runs@[k] == runs0[k]);
                    }
                }
            }
        }
    }
    proof {
        let rv = runs_view(runs@);
        assert forall|k: int| 0 <= k < rv.len() implies {
            let (s, d) = #[trigger] rv[k];
            &&& d.len() > 0
            &&& 0 <= s
            &&& s + d.len() <= n
            &&& d == mem@.subrange(s, s + d.len())
            &&& forall|p: int| s <= p < s + d.len() ==> mem@[p] != shadow@[p]
            &&& (s == 0 || mem@[s - 1] == shadow@[s - 1])
            &&& (s + d.len() == n || mem@[s + d.len()] == shadow@[s + d.len()])
        } by {
            assert(rv[k] == (runs@[k].0 as int, runs@[k].1@));
        }
        assert forall|k: int| 0 <= k < rv.len() - 1 implies (#[trigger] rv[k]).0 + rv[k].1.len() < rv[k + 1].0 by {
            assert(rv[k] == (runs@[k].0 as int, runs@[k].1@));
            assert(rv[k + 1] == (runs@[k + 1].0 as int, runs@[k + 1].1@));
        }
        assert forall|j: int| 0 <= j < n && mem@[j] != shadow@[j] implies exists|k: int| 0 <= k < rv.len() && run_covers(#[trigger] rv[k], j) by {
            let k = choose|k: int| 0 <= k < runs@.len() && run_covers_exec(#[trigger] runs@[k], j);
            assert(rv[k] == (runs@[k].0 as int, runs@[k].1@));
        }
    }
    runs
}

/// The events that record the runs of differing bytes of the range at
/// `addr`: one memory write per maximal run, in order.
pub fn memory_write_events(addr: u32, mem: &Vec<u8>, shadow: &Vec<u8>) -> (events: Vec<R3Event>)
    requires
        mem@.len() == shadow@.len(),
        addr + mem@.len() <= u32::MAX + 1,
    ensures
        forall|k: int| 0 <= k < events@.len() ==> (#[trigger] events@[k]) is MemoryWrite,
        diff_runs_of(mem@, shadow@, event_runs(addr, events@)),
{
    let runs = diff_runs(mem, shadow);
    let mut events: Vec<R3Event> = Vec::new();
    let n = runs.len();
    for k in 0..n
        invariant
            n == runs@.len(),
            diff_runs_of(mem@, shadow@, runs_view(runs@)),
            addr + mem@.len() <= u32::MAX + 1,
            events@.len() == k,
            forall|q: int| 0 <= q < k ==> ((#[trigger] events@[q]) matches R3Event::MemoryWrite { addr: a, data }
                && a == addr + runs@[q].0 && data@ == runs@[q].1@),
    {
        let data = copy_range(&runs[k].1, 0, runs[k].1.len());
        assert(data@ =~= runs@[k as int].1@);
        proof {
            let rv = runs_view(runs@);
            assert(rv[k as int] == (runs@[k as int].0 as int, runs@[k as int].1@));
        }
        events.push(R3Event::MemoryWrite { addr: addr + runs[k].0, data });
    }
    proof {
        assert(event_runs(addr, events@) =~= runs_view(runs@)) by {
            assert forall|q: int| 0 <= q < n implies event_runs(addr, events@)[q] == runs_view(runs@)[q] by {
                assert(events@[q] matches R3Event::MemoryWrite { addr: a, data } && a == addr + runs@[q].0 && data@ == runs@[q].1@);
                assert(runs_view(runs@)[q] == (runs@[q].0 as int, runs@[q].1@));
            }
        }
    }
    events
}


/// `s`, of at most 8 bytes, padded with zeros to 8 bytes.
pub open spec fn pad8(s: Seq<u8>) -> Seq<u8> {
    s + Seq::new((8 - s.len()) as nat, |i: int| 0u8)
}

/// How the instrumented code packs a run of at most 16 bytes into two
/// quadwords: bytes 0..8 little-endian into the first, the rest into the
/// second.
pub open spec fn pack_run(data: Seq<u8>) -> (u64, u64) {
    if data.len() <= 8 {
        (spec_u64_from_le_bytes(pad8(data)), spec_u64_from_le_bytes(pad8(Seq::empty())))
    } else {
        (spec_u64_from_le_bytes(pad8(data.take(8))), spec_u64_from_le_bytes(pad8(data.skip(8))))
    }
}

/// The bytes that a memory write of `size` bytes packed as `(lo, hi)` carries.
pub open spec fn unpacked_bytes(size: u32, lo: u64, hi: u64) -> Seq<u8> {
    (spec_u64_to_le_bytes(lo) + spec_u64_to_le_bytes(hi)).take(size as int)
}

/// The event of a memory write reported by the instrumented code as
/// `(addr, size, lo, hi)`: the first `size` bytes of `lo` and `hi` in
/// little-endian order.
pub fn unpack_memory_write(addr: u32, size: u32, lo: u64, hi: u64) -> (e: R3Event)
    requires
        size <= 16,
    ensures
        e matches R3Event::MemoryWrite { addr: a, data } && a == addr && data@ == unpacked_bytes(size, lo, hi),
{
    let mut bytes = u64_to_le_bytes(lo);
    let mut high = u64_to_le_bytes(hi);
    bytes.append(&mut high);
    let data = copy_range(&bytes, 0, size as usize);
    assert(data@ =~= unpacked_bytes(size, lo, hi));
    R3Event::MemoryWrite { addr, data }
}

/// Unpacking a packed run gives the run back: a run of at most 16 bytes
/// survives the trip through the two quadword parameters.
pub proof fn lemma_pack_unpack(data: Seq<u8>)
    requires
        data.len() <= 16,
    ensures
        unpacked_bytes(data.len() as u32, pack_run(data).0, pack_run(data).1) == data,
{
    lemma_auto_spec_u64_to_from_le_bytes();
    let (lo, hi) = pack_run(data);
    if data.len() <= 8 {
        assert(pad8(data).len() == 8);
        assert(pad8(Seq::<u8>::empty()).len() == 8);
        assert(spec_u64_to_le_bytes(lo) == pad8(data));
        assert((spec_u64_to_le_bytes(lo) + spec_u64_to_le_bytes(hi)).take(data.len() as int) =~= data);
    } else {
        assert(pad8(data.take(8)).len() == 8);
        assert(pad8(data.skip(8)).len() == 8);
        assert(spec_u64_to_le_bytes(lo) == pad8(data.take(8)));
        assert(spec_u64_to_le_bytes(hi) == pad8(data.skip(8)));
        assert((spec_u64_to_le_bytes(lo) + spec_u64_to_le_bytes(hi)).take(data.len() as int) =~= data);
    }
}

/// The function imports of a module with a function type, as (function
/// index, parameters, results), where the function index counts every
/// function import.
pub open spec fn import_infos_spec(imports: Seq<ModuleImport>, types: Seq<TypeDef>, n: int) -> (Seq<(u32, Seq<DataType>, Seq<DataType>)>, nat)
    decreases n,
{
    if n <= 0 {
        (Seq::empty(), 0)
    } else {
        let (infos, nf) = import_infos_spec(imports, types, n - 1);
        match imports[n - 1].ty {
            ImportType::Func(t) => {
                let infos2 = if t < types.len() && types[t as int] is Func {
                    infos.push((nf as u32, types[t as int]->params@, types[t as int]->results@))
                } else {
                    infos
                };
                (infos2, nf + 1)
            },
            _ => (infos, nf),
        }
    }
}

/// No more function imports are counted than imports were seen.
pub proof fn lemma_import_infos_count(imports: Seq<ModuleImport>, types: Seq<TypeDef>, n: int)
    requires
        0 <= n <= imports.len(),
    ensures
        import_infos_spec(imports, types, n).1 <= n,
    decreases n,
{
    if n > 0 {
        lemma_import_infos_count(imports, types, n - 1);
    }
}

/// A function import: its function index, parameters and results.
pub struct ImportInfo {
    pub func: u32,
    pub params: Vec<DataType>,
    pub results: Vec<DataType>,
}

/// Collects the function imports with a function type, before the module
/// is changed.
pub fn import_infos(imports: &Vec<ModuleImport>, types: &Vec<TypeDef>) -> (r: Vec<ImportInfo>)
    requires
        imports@.len() <= u32::MAX,
    ensures
        r@.map_values(|x: ImportInfo| (x.func, x.params@, x.results@))
            == import_infos_spec(imports@, types@, imports@.len() as int).0,
{
    let mut func_idx: u32 = 0;
    let mut infos: Vec<ImportInfo> = Vec::new();
    let n = imports.len();
    for i in 0..n
        invariant
            n == imports@.len(),
            n <= u32::MAX,
            func_idx == import_infos_spec(imports@, types@, i as int).1,
            infos@.map_values(|x: ImportInfo| (x.func, x.params@, x.results@)) == import_infos_spec(imports@, types@, i as int).0,
    {
        proof { lemma_import_infos_count(imports@, types@, i as int); }
        let ghost before = infos@;
        if let ImportType::Func(t) = imports[i].ty {
            if (t as usize) < types.len() {
                if let TypeDef::Func { params, results } = &types[t as usize] {
                    infos.push(ImportInfo { func: func_idx, params: params.clone(), results: results.clone() });
                    assert(infos@.map_values(|x: ImportInfo| (x.func, x.params@, x.results@))
                        =~= before.map_values(|x: ImportInfo| (x.func, x.params@, x.results@)).push(
                            (func_idx, types@[t as int]->params@, types@[t as int]->results@)));
                }
            }
            func_idx = func_idx + 1;
        }
    }
    infos
}

/// Which r3 core instance a module's instantiation gets.
#[derive(Debug, Copy, Clone, PartialEq, Eq, Structural)]
pub enum R3Wiring {
    /// The functions only, for modules that define their memory.
    Funcs,
    /// The functions and the shadow memory, for modules that import their memory.
    Full,
    /// None: the module is not instrumented.
    Unwired,
}

/// The r3 core instance for the instantiation of module `module_index`.
pub fn r3_instance_for(module_index: u32, local_memory_modules: &Vec<u32>, imported_memory_modules: &Vec<u32>) -> (r: R3Wiring)
    ensures
        r == (if imported_memory_modules@.contains(module_index) {
            R3Wiring::Full
        } else if local_memory_modules@.contains(module_index) {
            R3Wiring::Funcs
        } else {
            R3Wiring::Unwired
        }),
{
    if contains_u32(imported_memory_modules, module_index) {
        R3Wiring::Full
    } else if contains_u32(local_memory_modules, module_index) {
        R3Wiring::Funcs
    } else {
        R3Wiring::Unwired
    }
}

/// Whether `v` contains `x`.
pub fn contains_u32(v: &Vec<u32>, x: u32) -> (r: bool)
    ensures
        r == v@.contains(x),
{
    let n = v.len();
    for i in 0..n
        invariant
            n == v@.len(),
            forall|j: int| 0 <= j < i ==> v@[j] != x,
    {
        if v[i] == x {
            return true;
        }
    }
    false
}

/// Why the r3 imports of a component cannot be wired.
#[derive(Debug, Copy, Clone, PartialEq, Eq, Structural)]
pub enum WireError {
    /// Some module imports its memory but no instrumented module defines one.
    NoLocalMemoryModule,
    /// The module whose shadow memory is shared has no core instance.
    NoInstance(u32),
}

/// The instance registered last for `module` in (module, instance) pairs
/// collected in order, if any.
pub open spec fn last_instance_of(pairs: Seq<(u32, u32)>, module: u32) -> Option<u32>
    decreases pairs.len(),
{
    if pairs.len() == 0 {
        None
    } else if pairs.last().0 == module {
        Some(pairs.last().1)
    } else {
        last_instance_of(pairs.drop_last(), module)
    }
}

/// The core instance whose shadow memory the modules that import their
/// memory share: that of the first module that defines its memory. None is
/// needed when no module imports its memory.
pub fn shadow_source_instance(
    local_memory_modules: &Vec<u32>,
    imported_memory_modules: &Vec<u32>,
    module_to_instance: &Vec<(u32, u32)>,
) -> (r: Result<Option<u32>, WireError>)
    ensures
        imported_memory_modules@.len() == 0 ==> r == Ok::<Option<u32>, WireError>(None),
        imported_memory_modules@.len() > 0 && local_memory_modules@.len() == 0 ==> r is Err && r->Err_0 is NoLocalMemoryModule,
        imported_memory_modules@.len() > 0 && local_memory_modules@.len() > 0 ==> match last_instance_of(module_to_instance@, local_memory_modules@[0]) {
            Some(i) => r == Ok::<Option<u32>, WireError>(Some(i)),
            None => r matches Err(WireError::NoInstance(m)) && m == local_memory_modules@[0],
        },
{
    if imported_memory_modules.len() == 0 {
        return Ok(None);
    }
    if local_memory_modules.len() == 0 {
        return Err(WireError::NoLocalMemoryModule);
    }
    let source = local_memory_modules[0];
    let mut i = module_to_instance.len();
    assert(module_to_instance@.take(i as int) =~= module_to_instance@);
    while i > 0
        invariant
            imported_memory_modules@.len() > 0,
            local_memory_modules@.len() > 0,
            source == local_memory_modules@[0],
            i <= module_to_instance@.len(),
            last_instance_of(module_to_instance@, source) == last_instance_of(module_to_instance@.take(i as int), source),
        decreases i,
    {
        let ghost t = module_to_instance@.take(i as int);
        assert(t.drop_last() =~= module_to_instance@.take(i - 1));
        if module_to_instance[i - 1].0 == source {
            return Ok(Some(module_to_instance[i - 1].1));
        }
        i = i - 1;
    }
    assert(module_to_instance@.take(0) =~= Seq::<(u32, u32)>::empty());
    Err(WireError::NoInstance(source))
}

/// The r3 core instance that the instantiation of `module` gets.
pub open spec fn wiring_spec(module: u32, local_memory_modules: Seq<u32>, imported_memory_modules: Seq<u32>) -> R3Wiring {
    if imported_memory_modules.contains(module) {
        R3Wiring::Full
    } else if local_memory_modules.contains(module) {
        R3Wiring::Funcs
    } else {
        R3Wiring::Unwired
    }
}

/// The core instance whose shadow memory is shared, as `shadow_source_instance` finds it.
pub open spec fn shadow_source_spec(
    local_memory_modules: Seq<u32>,
    imported_memory_modules: Seq<u32>,
    pairs: Seq<(u32, u32)>,
) -> Result<Option<u32>, WireError> {
    if imported_memory_modules.len() == 0 {
        Ok(None)
    } else if local_memory_modules.len() == 0 {
        Err(WireError::NoLocalMemoryModule)
    } else {
        match last_instance_of(pairs, local_memory_modules[0]) {
            Some(i) => Ok(Some(i)),
            None => Err(WireError::NoInstance(local_memory_modules[0])),
        }
    }
}

/// A component value type of the recorder's functions.
#[derive(Debug, Copy, Clone, PartialEq, Eq, Structural)]
pub enum R3ValType {
    U32,
    U64,
}

/// A function of the recorder's instance type: its export name and its
/// named parameters; it has no result.
pub struct R3ComponentFunc {
    pub name: String,
    pub params: Vec<(String, R3ValType)>,
}

/// The component-level wiring of the recorder.
///
/// The component imports an instance named `import_name` whose type exports
/// `funcs`. Each of them is aliased and lowered, in order, into a core
/// function; the functions-only core instance exports the lowered function
/// `k` under `core_funcs[k]`. Where `shadow_source` is a core instance, a
/// full core instance exports the same functions and, under
/// `shadow_export`, the shadow memory aliased from that instance. Every
/// instantiation `(instance, wiring)` of `args` gets the matching core
/// instance as its argument `arg_name`, unless it is unwired.
pub struct R3ComponentPlan {
    pub import_name: String,
    pub funcs: Vec<R3ComponentFunc>,
    pub core_funcs: Vec<String>,
    pub shadow_source: Option<u32>,
    pub shadow_export: String,
    pub arg_name: String,
    pub args: Vec<(u32, R3Wiring)>,
}

fn r3_param(name: &str, ty: R3ValType) -> (r: (String, R3ValType))
    ensures
        r.0@ == name@,
        r.1 == ty,
{
    (String::from_str(name), ty)
}

/// Plans the component-level wiring of the recorder for a component whose
/// instrumented modules either define their memory or import it, given the
/// (module, core instance) pairs of its instantiations in order.
pub fn r3_component_wiring(
    local_memory_modules: &Vec<u32>,
    imported_memory_modules: &Vec<u32>,
    pairs: &Vec<(u32, u32)>,
) -> (r: Result<R3ComponentPlan, WireError>)
    ensures
        match shadow_source_spec(local_memory_modules@, imported_memory_modules@, pairs@) {
            Err(e) => r == Err::<R3ComponentPlan, WireError>(e),
            Ok(source) => r matches Ok(p) && {
                &&& p.import_name@ == R3_IMPORT_MODULE@
                &&& p.funcs@.len() == 2
                &&& p.funcs@[0].name@ == "record-import-call"@
                &&& p.funcs@[0].params@.len() == 1
                &&& p.funcs@[0].params@[0].0@ == "func-idx"@ && p.funcs@[0].params@[0].1 == R3ValType::U32
                &&& p.funcs@[1].name@ == "record-memory-write"@
                &&& p.funcs@[1].params@.len() == 4
                &&& p.funcs@[1].params@[0].0@ == "addr"@ && p.funcs@[1].params@[0].1 == R3ValType::U32
                &&& p.funcs@[1].params@[1].0@ == "size"@ && p.funcs@[1].params@[1].1 == R3ValType::U32
                &&& p.funcs@[1].params@[2].0@ == "lo"@ && p.funcs@[1].params@[2].1 == R3ValType::U64
                &&& p.funcs@[1].params@[3].0@ == "hi"@ && p.funcs@[1].params@[3].1 == R3ValType::U64
                &&& p.core_funcs@.len() == 2
                &&& p.core_funcs@[0]@ == "record_import_call"@
                &&& p.core_funcs@[1]@ == "record_memory_write"@
                &&& p.shadow_source == source
                &&& p.shadow_export@ == SHADOW_MEMORY_EXPORT@
                &&& p.arg_name@ == R3_IMPORT_MODULE@
                &&& p.args@.len() == pairs@.len()
                &&& forall|k: int| 0 <= k < pairs@.len() ==> #[trigger] p.args@[k]
                    == (pairs@[k].1, wiring_spec(pairs@[k].0, local_memory_modules@, imported_memory_modules@))
                &&& forall|k: int| 0 <= k < pairs@.len() ==> (#[trigger] p.args@[k]).1 is Full ==> p.shadow_source is Some
            },
        },
{
    let source = match shadow_source_instance(local_memory_modules, imported_memory_modules, pairs) {
        Ok(s) => s,
        Err(e) => {
            return Err(e);
        },
    };
    let mut args: Vec<(u32, R3Wiring)> = Vec::new();
    for k in 0..pairs.len()
        invariant
            args@.len() == k,
            forall|j: int| 0 <= j < k ==> #[trigger] args@[j]
                == (pairs@[j].1, wiring_spec(pairs@[j].0, local_memory_modules@, imported_memory_modules@)),
    {
        let (m, i) = pairs[k];
        args.push((i, r3_instance_for(m, local_memory_modules, imported_memory_modules)));
    }
    let import_call = R3ComponentFunc {
        name: String::from_str("record-import-call"),
        params: vec![r3_param("func-idx", R3ValType::U32)],
    };
    let memory_write = R3ComponentFunc {
        name: String::from_str("record-memory-write"),
        params: vec![
            r3_param("addr", R3ValType::U32),
            r3_param("size", R3ValType::U32),
            r3_param("lo", R3ValType::U64),
            r3_param("hi", R3ValType::U64),
        ],
    };
    proof {
        assert forall|k: int| 0 <= k < pairs@.len() implies (#[trigger] args@[k]).1 is Full ==> source is Some by {
            if args@[k].1 is Full {
                assert(imported_memory_modules@.contains(pairs@[k].0));
                assert(imported_memory_modules@.len() > 0);
            }
        }
    }
    Ok(R3ComponentPlan {
        import_name: String::from_str(R3_IMPORT_MODULE),
        funcs: vec![import_call, memory_write],
        core_funcs: vec![String::from_str("record_import_call"), String::from_str("record_memory_write")],
        shadow_source: source,
        shadow_export: String::from_str(SHADOW_MEMORY_EXPORT),
        arg_name: String::from_str(R3_IMPORT_MODULE),
        args,
    })
}

/// No slot is taken yet: the state at the start of every function.
pub open spec fn empty_slots() -> Slots {
    Slots {
        addr: None,
        val_i32: None,
        val_i64: None,
        val_f32: None,
        val_f64: None,
        val_v128: None,
        scratch_v128: None,
        bulk_arg1: None,
        bulk_arg2: None,
    }
}

/// How many slots are taken.
pub open spec fn slots_used(s: Slots) -> nat {
    (if s.addr is Some { 1nat } else { 0nat }) + (if s.val_i32 is Some { 1nat } else { 0nat })
        + (if s.val_i64 is Some { 1nat } else { 0nat }) + (if s.val_f32 is Some { 1nat } else { 0nat })
        + (if s.val_f64 is Some { 1nat } else { 0nat }) + (if s.val_v128 is Some { 1nat } else { 0nat })
        + (if s.scratch_v128 is Some { 1nat } else { 0nat }) + (if s.bulk_arg1 is Some { 1nat } else { 0nat })
        + (if s.bulk_arg2 is Some { 1nat } else { 0nat })
}

/// Rewriting one instruction adds exactly one local per slot it takes.
#[verifier::rlimit(100)]
pub proof fn lemma_instrument_op_alloc(op: Operator, st: AllocState, ctx: OpContext)
    ensures
        ({
            let st2 = instrument_op_spec(op, st, ctx).2;
            &&& st2.next - st.next == slots_used(st2.slots) - slots_used(st.slots)
            &&& slots_used(st.slots) <= slots_used(st2.slots)
        }),
{
    let s = st.slots;
    let st2 = instrument_op_spec(op, st, ctx).2;
    match op {
        Operator::Store { kind, memarg } => {
            if memarg.memory == 0 {
                let vt = store_kind_type(kind);
                assert(vt is I32 || vt is I64 || vt is F32 || vt is F64 || vt is V128);
            }
        },
        Operator::StoreLane { .. } => {},
        Operator::Load { kind, memarg } => {
            if memarg.memory == 0 {
                let vt = load_kind_type(kind);
                assert(vt is I32 || vt is I64 || vt is F32 || vt is F64 || vt is V128);
            }
        },
        Operator::LoadLane { .. } => {},
        Operator::MemoryGrow { .. } => {},
        Operator::MemoryCopy { .. } => {},
        Operator::MemoryInit { .. } => {},
        Operator::MemoryFill { .. } => {},
        _ => {},
    }
}

/// The injections (before, after) of each instruction of a function body,
/// rewritten in order, and the allocation state at the end.
pub open spec fn rewrite_ops(ops: Seq<Operator>, st: AllocState, ctx: OpContext) -> (Seq<(Seq<R3Instr>, Seq<R3Instr>)>, AllocState)
    decreases ops.len(),
{
    if ops.len() == 0 {
        (Seq::empty(), st)
    } else {
        let (inj, st1) = rewrite_ops(ops.drop_last(), st, ctx);
        let (b, a, st2) = instrument_op_spec(ops.last(), st1, ctx);
        (inj.push((b, a)), st2)
    }
}

/// The instrumented body: each existing instruction between its injections.
pub open spec fn instrumented_body(ops: Seq<Operator>, inj: Seq<(Seq<R3Instr>, Seq<R3Instr>)>) -> Seq<R3Instr>
    decreases ops.len(),
{
    if ops.len() == 0 || inj.len() == 0 {
        Seq::empty()
    } else {
        instrumented_body(ops.drop_last(), inj.drop_last()) + inj.last().0 + seq![R3Instr::Op(ops.last())] + inj.last().1
    }
}

/// Rewriting instructions adds exactly one local per slot they take.
pub proof fn lemma_rewrite_ops_alloc(ops: Seq<Operator>, st: AllocState, ctx: OpContext)
    ensures
        ({
            let (inj, st2) = rewrite_ops(ops, st, ctx);
            &&& inj.len() == ops.len()
            &&& st2.next - st.next == slots_used(st2.slots) - slots_used(st.slots)
            &&& slots_used(st.slots) <= slots_used(st2.slots)
        }),
    decreases ops.len(),
{
    if ops.len() > 0 {
        lemma_rewrite_ops_alloc(ops.drop_last(), st, ctx);
        let st1 = rewrite_ops(ops.drop_last(), st, ctx).1;
        lemma_instrument_op_alloc(ops.last(), st1, ctx);
    }
}

/// A locally defined function as the instrumentation reads it.
pub struct R3LocalFunc {
    /// Its index in the module's function index space.
    pub id: u32,
    pub num_params: u32,
    pub num_locals: u32,
    /// Its instructions, the final `end` excluded.
    pub body: Vec<Operator>,
}

/// The rewrite of a locally defined function: the locals it gets and the
/// instructions injected before and after each of its instructions.
pub struct R3FuncRewrite {
    pub id: u32,
    pub added_locals: Vec<DataType>,
    pub injections: Vec<(Vec<R3Instr>, Vec<R3Instr>)>,
}

/// The view of a list of injections.
pub open spec fn injections_view(v: Seq<(Vec<R3Instr>, Vec<R3Instr>)>) -> Seq<(Seq<R3Instr>, Seq<R3Instr>)> {
    v.map_values(|p: (Vec<R3Instr>, Vec<R3Instr>)| (p.0@, p.1@))
}

/// The allocation state at the start of a function: no slot, and new locals
/// numbered after its parameters and locals.
pub open spec fn initial_alloc(f: &R3LocalFunc) -> AllocState {
    AllocState { slots: empty_slots(), next: (f.num_params + f.num_locals) as nat, added: Seq::empty() }
}

/// Instruments every instruction of a function, in order, with fresh slots.
pub fn rewrite_function(f: &R3LocalFunc, ctx: &OpContext) -> (r: R3FuncRewrite)
    requires
        f.num_params + f.num_locals + 12 <= u32::MAX,
    ensures
        r.id == f.id,
        (injections_view(r.injections@), r.added_locals@) == ({
            let (inj, st) = rewrite_ops(f.body@, initial_alloc(f), *ctx);
            (inj, st.added)
        }),
{
    let mut slots = Slots {
        addr: None,
        val_i32: None,
        val_i64: None,
        val_f32: None,
        val_f64: None,
        val_v128: None,
        scratch_v128: None,
        bulk_arg1: None,
        bulk_arg2: None,
    };
    let mut alloc = LocalAlloc { next: f.num_params + f.num_locals, added: Vec::new() };
    let mut injections: Vec<(Vec<R3Instr>, Vec<R3Instr>)> = Vec::new();
    let n = f.body.len();
    for k in 0..n
        invariant
            n == f.body@.len(),
            f.num_params + f.num_locals + 12 <= u32::MAX,
            (injections_view(injections@), alloc_state(slots, &alloc)) == rewrite_ops(f.body@.take(k as int), initial_alloc(f), *ctx),
    {
        proof {
            lemma_rewrite_ops_alloc(f.body@.take(k as int), initial_alloc(f), *ctx);
            assert(f.body@.take(k + 1).drop_last() =~= f.body@.take(k as int));
        }
        let ghost before = injections@;
        let (b, a) = instrument_op(&f.body[k], &mut slots, &mut alloc, ctx);
        injections.push((b, a));
        assert(injections_view(injections@) =~= injections_view(before).push((b@, a@)));
    }
    assert(f.body@.take(n as int) =~= f.body@);
    R3FuncRewrite { id: f.id, added_locals: alloc.added, injections }
}


/// The function imports of the collected infos are numbered in increasing
/// order, below the number of function imports seen.
pub proof fn lemma_import_infos_increasing(imports: Seq<ModuleImport>, types: Seq<TypeDef>, n: int)
    requires
        0 <= n <= imports.len(),
        imports.len() <= u32::MAX,
    ensures
        ({
            let (infos, nf) = import_infos_spec(imports, types, n);
            &&& forall|i: int, j: int| 0 <= i < j < infos.len() ==> infos[i].0 < infos[j].0
            &&& forall|i: int| 0 <= i < infos.len() ==> infos[i].0 < nf
            &&& infos.len() <= nf <= n
        }),
    decreases n,
{
    if n > 0 {
        lemma_import_infos_increasing(imports, types, n - 1);
        lemma_import_infos_count(imports, types, n - 1);
    }
}

/// Memory is among the imports.
pub open spec fn imports_memory(imports: Seq<ModuleImport>) -> bool {
    exists|i: int| 0 <= i < imports.len() && imports[i].ty is Memory
}

/// Whether some import is a memory.
pub fn has_memory_import(imports: &Vec<ModuleImport>) -> (r: bool)
    ensures
        r == imports_memory(imports@),
{
    let n = imports.len();
    for i in 0..n
        invariant
            n == imports@.len(),
            forall|j: int| 0 <= j < i ==> !(imports@[j].ty is Memory),
    {
        if let ImportType::Memory = imports[i].ty {
            return true;
        }
    }
    false
}

/// What the instrumentation reads of a core module.
pub struct R3ModuleView {
    /// The number of memories, imported ones included.
    pub num_memories: u32,
    pub imports: Vec<ModuleImport>,
    pub types: Vec<TypeDef>,
    /// The number of functions, imported ones included.
    pub num_funcs: u32,
    pub local_funcs: Vec<R3LocalFunc>,
    /// The function references of each element segment, in order.
    pub elements: Vec<Vec<u32>>,
}

/// A trampoline that reports a call to an existing import, then makes it.
pub struct R3Trampoline {
    /// The existing import it wraps.
    pub orig: u32,
    /// The index it gets in the function index space.
    pub id: u32,
    pub params: Vec<DataType>,
    pub results: Vec<DataType>,
    pub body: Vec<R3Instr>,
}

/// The scan-diff helper of component mode.
pub struct R3ScanDiff {
    pub id: u32,
    pub locals: Vec<DataType>,
    pub body: Vec<R3Instr>,
}

/// The changes that instrument a module, in the order they are made: the
/// memory-reporting import and `record_import_call` (both of module `r3`),
/// the shadow memory exported as `__r3_shadow`, the trampolines, the
/// retargeted element segments, the scan-diff helper (component mode) and
/// the rewrite of every existing local function.
pub struct R3Plan {
    /// The module of both imports: `r3`.
    pub import_module: String,
    pub record_memory_name: String,
    pub record_memory_params: Vec<DataType>,
    pub record_memory_id: u32,
    pub record_import_call_id: u32,
    /// The parameters of `record_import_call`: the index of the called import.
    pub record_import_call_params: Vec<DataType>,
    /// The memory whose type the shadow memory takes: memory 0.
    pub shadow_type_of: u32,
    /// The index of the shadow memory, a local memory after all others.
    pub shadow_memory: u32,
    /// The name under which the shadow memory is exported.
    pub shadow_export: String,
    pub trampolines: Vec<R3Trampoline>,
    pub elements: Vec<Vec<u32>>,
    pub scan_diff: Option<R3ScanDiff>,
    pub funcs: Vec<R3FuncRewrite>,
}

/// The module is instrumented: it has a memory, none imported, and a local function.
pub open spec fn instrumentable(m: &R3ModuleView) -> bool {
    m.num_memories > 0 && !imports_memory(m.imports@) && m.local_funcs@.len() > 0
}

/// The existing function imports with a function type.
pub open spec fn r3_import_infos(m: &R3ModuleView) -> Seq<(u32, Seq<DataType>, Seq<DataType>)> {
    import_infos_spec(m.imports@, m.types@, m.imports@.len() as int).0
}

/// Each existing import with the index of its trampoline.
pub open spec fn trampoline_pairs(m: &R3ModuleView) -> Seq<(u32, u32)> {
    Seq::new(r3_import_infos(m).len(), |k: int| (r3_import_infos(m)[k].0, (m.num_funcs + 2 + k) as u32))
}

/// The context in which existing instructions are rewritten.
pub open spec fn r3_context(m: &R3ModuleView, component_mode: bool) -> OpContext {
    let t = r3_import_infos(m).len();
    OpContext {
        num_orig_fn_imports: t as u32,
        on_mismatch: if component_mode { (m.num_funcs + 2 + t) as u32 } else { m.num_funcs },
        record_import_call: (m.num_funcs + 1) as u32,
    }
}

/// The module fits the index spaces once instrumented.
pub open spec fn r3_fits(m: &R3ModuleView) -> bool {
    &&& m.imports@.len() <= u32::MAX
    &&& m.num_funcs + m.imports@.len() + 3 <= u32::MAX
    &&& forall|i: int| 0 <= i < m.local_funcs@.len() ==> (#[trigger] m.local_funcs@[i]).num_params + m.local_funcs@[i].num_locals + 12 <= u32::MAX
}

/// Instruments a core module with a shadow memory and r3 recording.
///
/// In component mode, memory divergences are reported through
/// `record_memory_write(addr, size, lo, hi)` by a helper that finds the runs
/// of differing bytes; otherwise through `record_memory_diff(addr, size)`.
/// Returns `None` where the module is skipped: it has no memory, imports its
/// memory, or defines no function.
pub fn instrument_shadow(m: &R3ModuleView, component_mode: bool) -> (r: Option<R3Plan>)
    requires
        r3_fits(m),
    ensures
        r is None <==> !instrumentable(m),
        r matches Some(p) ==> {
            let infos = r3_import_infos(m);
            let t = infos.len();
            let ctx = r3_context(m, component_mode);
            &&& p.import_module@ == R3_IMPORT_MODULE@
            &&& p.record_import_call_params@ == seq![DataType::I32]
            &&& p.shadow_type_of == 0
            &&& p.shadow_memory == m.num_memories
            &&& p.shadow_export@ == SHADOW_MEMORY_EXPORT@
            &&& p.record_memory_name@ == (if component_mode { "record_memory_write"@ } else { "record_memory_diff"@ })
            &&& p.record_memory_params@ == (if component_mode {
                seq![DataType::I32, DataType::I32, DataType::I64, DataType::I64]
            } else {
                seq![DataType::I32, DataType::I32]
            })
            &&& p.record_memory_id == m.num_funcs
            &&& p.record_import_call_id == m.num_funcs + 1
            &&& p.trampolines@.len() == t
            &&& forall|k: int| 0 <= k < t ==> {
                let tr = #[trigger] p.trampolines@[k];
                &&& tr.orig == infos[k].0
                &&& tr.id == m.num_funcs + 2 + k
                &&& tr.params@ == infos[k].1
                &&& tr.results@ == infos[k].2
                &&& tr.body@ == trampoline_instrs(infos[k].0, infos[k].1.len(), (m.num_funcs + 1) as u32)
            }
            &&& p.elements@.len() == m.elements@.len()
            &&& forall|e: int| 0 <= e < m.elements@.len() ==> {
                &&& (#[trigger] p.elements@[e])@.len() == m.elements@[e]@.len()
                &&& forall|k: int| 0 <= k < m.elements@[e]@.len() ==>
                    p.elements@[e]@[k] == retargeted(trampoline_pairs(m), #[trigger] m.elements@[e]@[k])
            }
            &&& component_mode <==> p.scan_diff is Some
            &&& p.scan_diff matches Some(sd) ==> {
                &&& sd.id == m.num_funcs + 2 + t
                &&& sd.locals@ == scan_diff_locals()
                &&& sd.body@ == scan_diff_instrs(m.num_funcs)
            }
            &&& p.funcs@.len() == m.local_funcs@.len()
            &&& forall|i: int| 0 <= i < m.local_funcs@.len() ==> {
                let f = #[trigger] m.local_funcs@[i];
                let (inj, st) = rewrite_ops(f.body@, initial_alloc(&f), ctx);
                &&& p.funcs@[i].id == f.id
                &&& injections_view(p.funcs@[i].injections@) == inj
                &&& p.funcs@[i].added_locals@ == st.added
            }
        },
{
    let imports_mem = has_memory_import(&m.imports);
    if !should_instrument(m.num_memories, imports_mem, m.local_funcs.len()) {
        return None;
    }
    // Phase 1: the existing function imports
    let infos = import_infos(&m.imports, &m.types);
    proof {
        lemma_import_infos_increasing(m.imports@, m.types@, m.imports@.len() as int);
    }
    let t = infos.len() as u32;
    let ghost infos_v = r3_import_infos(m);
    assert(infos@.len() == infos_v.len());
    // Phase 2: the r3 imports
    let record_memory_id = m.num_funcs;
    let record_import_call_id = m.num_funcs + 1;
    let (record_memory_name, record_memory_params) = if component_mode {
        (String::from_str("record_memory_write"), vec![DataType::I32, DataType::I32, DataType::I64, DataType::I64])
    } else {
        (String::from_str("record_memory_diff"), vec![DataType::I32, DataType::I32])
    };
    // Phase 4: a trampoline for each existing import
    let mut trampolines: Vec<R3Trampoline> = Vec::new();
    let mut pairs: Vec<(u32, u32)> = Vec::new();
    for k in 0..t
        invariant
            t == infos@.len(),
            infos@.len() == infos_v.len(),
            infos@.map_values(|x: ImportInfo| (x.func, x.params@, x.results@)) == infos_v,
            infos_v == r3_import_infos(m),
            r3_fits(m),
            t <= m.imports@.len(),
            record_import_call_id == m.num_funcs + 1,
            trampolines@.len() == k,
            pairs@ == trampoline_pairs(m).take(k as int),
            forall|j: int| 0 <= j < k ==> {
                let tr = #[trigger] trampolines@[j];
                &&& tr.orig == infos_v[j].0
                &&& tr.id == m.num_funcs + 2 + j
                &&& tr.params@ == infos_v[j].1
                &&& tr.results@ == infos_v[j].2
                &&& tr.body@ == trampoline_instrs(infos_v[j].0, infos_v[j].1.len(), (m.num_funcs + 1) as u32)
            },
    {
        let info = &infos[k as usize];
        assert(infos@.map_values(|x: ImportInfo| (x.func, x.params@, x.results@))[k as int] == infos_v[k as int]);
        let np = info.params.len();
        let id = m.num_funcs + 2 + k;
        let body = trampoline_body(info.func, np, record_import_call_id);
        trampolines.push(R3Trampoline {
            orig: info.func,
            id,
            params: info.params.clone(),
            results: info.results.clone(),
            body,
        });
        pairs.push((info.func, id));
        assert(pairs@ =~= trampoline_pairs(m).take(k + 1));
    }
    assert(pairs@ =~= trampoline_pairs(m));
    // Phase 5: element segments refer to the trampolines
    let mut elements: Vec<Vec<u32>> = Vec::new();
    let ne = m.elements.len();
    for e in 0..ne
        invariant
            ne == m.elements@.len(),
            pairs@ == trampoline_pairs(m),
            distinct_originals(pairs@),
            elements@.len() == e,
            forall|q: int| 0 <= q < e ==> {
                &&& (#[trigger] elements@[q])@.len() == m.elements@[q]@.len()
                &&& forall|k: int| 0 <= k < m.elements@[q]@.len() ==>
                    elements@[q]@[k] == retargeted(trampoline_pairs(m), #[trigger] m.elements@[q]@[k])
            },
    {
        let mut funcs = m.elements[e].clone();
        retarget_funcs(&mut funcs, &pairs);
        elements.push(funcs);
    }
    // Phase 5b: the scan-diff helper (component mode)
    let scan_diff = if component_mode {
        let (locals, body) = build_scan_diff_helper(record_memory_id);
        Some(R3ScanDiff { id: m.num_funcs + 2 + t, locals, body })
    } else {
        None
    };
    let on_mismatch = if component_mode { m.num_funcs + 2 + t } else { record_memory_id };
    let ctx = OpContext { num_orig_fn_imports: t, on_mismatch, record_import_call: record_import_call_id };
    assert(ctx == r3_context(m, component_mode));
    // Phase 6: every existing instruction
    let mut funcs: Vec<R3FuncRewrite> = Vec::new();
    let nf = m.local_funcs.len();
    for i in 0..nf
        invariant
            nf == m.local_funcs@.len(),
            r3_fits(m),
            ctx == r3_context(m, component_mode),
            funcs@.len() == i,
            forall|j: int| 0 <= j < i ==> {
                let f = #[trigger] m.local_funcs@[j];
                let (inj, st) = rewrite_ops(f.body@, initial_alloc(&f), ctx);
                &&& funcs@[j].id == f.id
                &&& injections_view(funcs@[j].injections@) == inj
                &&& funcs@[j].added_locals@ == st.added
            },
    {
        let rw = rewrite_function(&m.local_funcs[i], &ctx);
        funcs.push(rw);
    }
    Some(R3Plan {
        import_module: String::from_str(R3_IMPORT_MODULE),
        record_memory_name,
        record_memory_params,
        record_memory_id,
        record_import_call_id,
        record_import_call_params: vec![DataType::I32],
        shadow_type_of: 0,
        shadow_memory: m.num_memories,
        shadow_export: String::from_str(SHADOW_MEMORY_EXPORT),
        trampolines,
        elements,
        scan_diff,
        funcs,
    })
}

} // verus!
