//! What the injected instrumentation of stores and loads does when it runs:
//! a small model of the value stack, the locals, the memories and the calls
//! of the mismatch handler, enough for the stores, integer loads,
//! `memory.grow`, `memory.fill`, `memory.copy` and `memory.init` of the
//! instrumentation and the instructions injected around them.
use vstd::prelude::*;

use crate::r3::{
    initial_alloc, instrument_op_spec, lane_size, load_kind_size, load_offset_spec, MemArg, lemma_rewrite_ops_alloc, rewrite_ops, slots_used, R3LocalFunc, load_val_type_spec, slot_local, store_val_type_spec, to_shadow_spec, val_slot, with_val_slot,
    AllocState, OpContext, Operator, R3Instr, Slots, StoreKind,
};
use crate::wasm::DataType;

verus! {

/// The state the model runs on: the value stack (values as their bit
/// patterns), the locals, the bytes of each memory, the bytes of each data
/// segment, and the calls made so far as (function, first argument, second
/// argument): the calls that the model runs are those of the mismatch
/// handler, which takes two arguments and returns nothing.
pub struct Machine {
    pub stack: Seq<int>,
    pub locals: Map<u32, int>,
    pub mems: Map<u32, Seq<u8>>,
    pub datas: Map<u32, Seq<u8>>,
    pub calls: Seq<(u32, int, int)>,
}

/// The little-endian value of some bytes.
pub open spec fn le_value(bytes: Seq<u8>) -> int
    decreases bytes.len(),
{
    if bytes.len() == 0 { 0 } else { bytes[0] + 256 * le_value(bytes.drop_first()) }
}

/// The value a load takes from the bytes it reads. The model takes a loaded
/// integer as the bits it was loaded from: sign or zero extension maps
/// different bits to different values.
pub open spec fn load_value(bytes: Seq<u8>) -> int {
    le_value(bytes)
}

/// The bytes that a load of `n` bytes at `ea` reads from `mem`.
pub open spec fn loaded(mem: Seq<u8>, ea: int, n: int) -> Seq<u8> {
    mem.subrange(ea, ea + n)
}

/// The number of bytes a store writes.
pub open spec fn store_width(kind: StoreKind) -> nat {
    match kind {
        StoreKind::I32Store8 | StoreKind::I64Store8 => 1,
        StoreKind::I32Store16 | StoreKind::I64Store16 => 2,
        StoreKind::I32Store | StoreKind::I64Store32 | StoreKind::F32Store => 4,
        StoreKind::I64Store | StoreKind::F64Store => 8,
        StoreKind::V128Store => 16,
    }
}

/// Byte `i` of the little-endian representation of `v`.
pub open spec fn le_byte(v: int, i: nat) -> u8 {
    ((v / vstd::arithmetic::power::pow(256, i)) % 256) as u8
}

/// The bytes a store writes for value `v`, and where they start relative to
/// the effective address: the low bytes of the value, or the bytes of a lane.
pub open spec fn store_bytes(op: Operator, v: int) -> Option<(int, Seq<u8>)> {
    match op {
        Operator::Store { kind, memarg } => Some((
            memarg.offset as int,
            Seq::new(store_width(kind), |i: int| le_byte(v, i as nat)),
        )),
        Operator::StoreLane { width, memarg, lane } => {
            let w = lane_size(width) as nat;
            Some((memarg.offset as int, Seq::new(w, |i: int| le_byte(v, (lane as nat) * w + i as nat))))
        },
        _ => None,
    }
}

/// The memory a store writes to.
pub open spec fn store_memory(op: Operator) -> u32 {
    match op {
        Operator::Store { memarg, .. } => memarg.memory,
        Operator::StoreLane { memarg, .. } => memarg.memory,
        _ => 0,
    }
}

/// `bytes` written into `mem` at `at`.
pub open spec fn write_bytes(mem: Seq<u8>, at: int, bytes: Seq<u8>) -> Seq<u8> {
    Seq::new(mem.len(), |j: int| if at <= j < at + bytes.len() { bytes[j - at] } else { mem[j] })
}

/// One step of the model; `None` where the instruction traps, or is not one
/// the model runs. `memory.grow` takes the number of pages to add and gives
/// the former size in pages (of 65536 bytes), the new pages zeroed; where
/// the memory would pass 65536 pages it fails, gives -1 (as its bit
/// pattern) and leaves the memory as it was. The model gives every memory
/// that one limit. `memory.fill` takes the address, the byte value and the
/// length; `memory.copy` the destination, the source and the length, and
/// copies the source bytes as they were before the copy; `memory.init` the
/// destination, the offset in the data segment and the length; each traps
/// where a range passes the end of its memory or segment.
pub open spec fn step(m: Machine, i: R3Instr) -> Option<Machine> {
    match i {
        R3Instr::LocalGet(l) => if m.locals.contains_key(l) {
            Some(Machine { stack: m.stack.push(m.locals[l]), ..m })
        } else {
            None
        },
        R3Instr::LocalSet(l) => if m.stack.len() > 0 {
            Some(Machine { stack: m.stack.drop_last(), locals: m.locals.insert(l, m.stack.last()), ..m })
        } else {
            None
        },
        R3Instr::LocalTee(l) => if m.stack.len() > 0 {
            Some(Machine { locals: m.locals.insert(l, m.stack.last()), ..m })
        } else {
            None
        },
        R3Instr::Op(op) => match op {
            Operator::Load { kind, memarg } => if m.stack.len() >= 1 && m.mems.contains_key(memarg.memory) {
                let a = m.stack.last();
                let ea = a + memarg.offset;
                let n = load_kind_size(kind) as int;
                let mem = m.mems[memarg.memory];
                if 0 <= a && ea + n <= mem.len() {
                    Some(Machine { stack: m.stack.drop_last().push(load_value(loaded(mem, ea, n))), ..m })
                } else {
                    None
                }
            } else {
                None
            },
            Operator::MemoryGrow { mem } => if m.stack.len() >= 1 && m.mems.contains_key(mem) {
                let d = m.stack.last();
                let old = m.mems[mem];
                if 0 <= d && old.len() + d * 65536 <= 0x1_0000_0000 {
                    Some(Machine {
                        stack: m.stack.drop_last().push((old.len() / 65536) as int),
                        mems: m.mems.insert(mem, old + Seq::new((d * 65536) as nat, |j: int| 0u8)),
                        ..m
                    })
                } else {
                    Some(Machine { stack: m.stack.drop_last().push(0xFFFF_FFFF), ..m })
                }
            } else {
                None
            },
            Operator::MemoryFill { mem } => if m.stack.len() >= 3 && m.mems.contains_key(mem) {
                let n = m.stack.last();
                let v = m.stack[m.stack.len() - 2];
                let d = m.stack[m.stack.len() - 3];
                let old = m.mems[mem];
                if 0 <= d && 0 <= n && d + n <= old.len() {
                    Some(Machine {
                        stack: m.stack.drop_last().drop_last().drop_last(),
                        mems: m.mems.insert(mem, write_bytes(old, d, Seq::new(n as nat, |j: int| (v % 256) as u8))),
                        ..m
                    })
                } else {
                    None
                }
            } else {
                None
            },
            Operator::MemoryInit { data_index, mem } => if m.stack.len() >= 3 && m.mems.contains_key(mem)
                && m.datas.contains_key(data_index) {
                let n = m.stack.last();
                let sr = m.stack[m.stack.len() - 2];
                let d = m.stack[m.stack.len() - 3];
                let dmem = m.mems[mem];
                let data = m.datas[data_index];
                if 0 <= d && 0 <= sr && 0 <= n && d + n <= dmem.len() && sr + n <= data.len() {
                    Some(Machine {
                        stack: m.stack.drop_last().drop_last().drop_last(),
                        mems: m.mems.insert(mem, write_bytes(dmem, d, data.subrange(sr, sr + n))),
                        ..m
                    })
                } else {
                    None
                }
            } else {
                None
            },
            Operator::MemoryCopy { dst_mem, src_mem } => if m.stack.len() >= 3 && m.mems.contains_key(dst_mem)
                && m.mems.contains_key(src_mem) {
                let n = m.stack.last();
                let sr = m.stack[m.stack.len() - 2];
                let d = m.stack[m.stack.len() - 3];
                let dmem = m.mems[dst_mem];
                let smem = m.mems[src_mem];
                if 0 <= d && 0 <= sr && 0 <= n && d + n <= dmem.len() && sr + n <= smem.len() {
                    Some(Machine {
                        stack: m.stack.drop_last().drop_last().drop_last(),
                        mems: m.mems.insert(dst_mem, write_bytes(dmem, d, smem.subrange(sr, sr + n))),
                        ..m
                    })
                } else {
                    None
                }
            } else {
                None
            },
            _ => match store_bytes(op, 0) {
                Some(_) => if m.stack.len() >= 2 && m.mems.contains_key(store_memory(op)) {
                    let v = m.stack.last();
                    let a = m.stack[m.stack.len() - 2];
                    let (off, bytes) = store_bytes(op, v)->0;
                    let mem = m.mems[store_memory(op)];
                    if 0 <= a && a + off + bytes.len() <= mem.len() {
                        Some(Machine {
                            stack: m.stack.drop_last().drop_last(),
                            mems: m.mems.insert(store_memory(op), write_bytes(mem, a + off, bytes)),
                            ..m
                        })
                    } else {
                        None
                    }
                } else {
                    None
                },
                None => None,
            },
        },
        R3Instr::I32Const(c) => Some(Machine { stack: m.stack.push((c as u32) as int), ..m }),
        R3Instr::I32Add => if m.stack.len() >= 2 {
            let b = m.stack.last();
            let a = m.stack[m.stack.len() - 2];
            Some(Machine { stack: m.stack.drop_last().drop_last().push((a + b) % 0x1_0000_0000), ..m })
        } else {
            None
        },
        R3Instr::I32Ne | R3Instr::I64Ne => if m.stack.len() >= 2 {
            let b = m.stack.last();
            let a = m.stack[m.stack.len() - 2];
            Some(Machine { stack: m.stack.drop_last().drop_last().push(if a != b { 1int } else { 0int }), ..m })
        } else {
            None
        },
        R3Instr::Call(f) => if m.stack.len() >= 2 {
            let b = m.stack.last();
            let a = m.stack[m.stack.len() - 2];
            Some(Machine { stack: m.stack.drop_last().drop_last(), calls: m.calls.push((f, a, b)), ..m })
        } else {
            None
        },
        R3Instr::Drop => if m.stack.len() > 0 {
            Some(Machine { stack: m.stack.drop_last(), ..m })
        } else {
            None
        },
        R3Instr::End => Some(m),
        _ => None,
    }
}

/// Runs instructions in order; `None` where one traps or is not modelled.
pub open spec fn run(m: Machine, instrs: Seq<R3Instr>) -> Option<Machine>
    decreases instrs.len(),
{
    if instrs.len() == 0 {
        Some(m)
    } else if instrs[0] is If {
        if m.stack.len() == 0 {
            None
        } else {
            let m1 = Machine { stack: m.stack.drop_last(), ..m };
            if m.stack.last() != 0 {
                run(m1, instrs.drop_first())
            } else {
                proof { lemma_skip_end_len(instrs.drop_first()); }
                run(m1, skip_end(instrs.drop_first()))
            }
        }
    } else {
        match step(m, instrs[0]) {
            Some(m1) => run(m1, instrs.drop_first()),
            None => None,
        }
    }
}

/// The instructions after the first `end`: what a false `if` without an
/// `else` skips to.
pub open spec fn skip_end(s: Seq<R3Instr>) -> Seq<R3Instr>
    decreases s.len(),
{
    if s.len() == 0 {
        s
    } else if s[0] is End {
        s.drop_first()
    } else {
        skip_end(s.drop_first())
    }
}

/// Skipping to after the first `end` shortens the instructions.
pub proof fn lemma_skip_end_len(s: Seq<R3Instr>)
    ensures
        skip_end(s).len() <= s.len(),
    decreases s.len(),
{
    if s.len() > 0 && !(s[0] is End) {
        lemma_skip_end_len(s.drop_first());
    }
}

/// The slots, in a fixed order.
pub open spec fn slot_list(s: Slots) -> Seq<Option<u32>> {
    seq![s.addr, s.val_i32, s.val_i64, s.val_f32, s.val_f64, s.val_v128, s.scratch_v128, s.bulk_arg1, s.bulk_arg2]
}

/// The scratch locals of the instrumentation that are taken are distinct
/// and below the next free local, as the rewrite of a function keeps them.
pub open spec fn slots_apart(st: AllocState) -> bool {
    let l = slot_list(st.slots);
    &&& forall|i: int| 0 <= i < l.len() ==> (#[trigger] l[i] matches Some(x) ==> x < st.next)
    &&& forall|i: int, j: int| 0 <= i < j < l.len() ==> (#[trigger] l[i] matches Some(x) ==> (#[trigger] l[j] matches Some(y) ==> x != y))
}

/// Running instructions that do not start with an `if` runs the first, then the rest.
proof fn lemma_run_cons(m: Machine, s: Seq<R3Instr>)
    requires
        s.len() > 0,
        !(s[0] is If),
    ensures
        run(m, s) == (match step(m, s[0]) {
            Some(m1) => run(m1, s.drop_first()),
            None => None,
        }),
{
}

/// Runs a sequence of three instructions that are not `if`s, step by step.
proof fn lemma_run3(m: Machine, s: Seq<R3Instr>)
    requires
        s.len() == 3,
        !(s[0] is If), !(s[1] is If), !(s[2] is If),
    ensures
        run(m, s) == (match step(m, s[0]) {
            Some(m1) => match step(m1, s[1]) {
                Some(m2) => step(m2, s[2]),
                None => None,
            },
            None => None,
        }),
{
    lemma_run_cons(m, s);
    if let Some(m1) = step(m, s[0]) {
        let t = s.drop_first();
        lemma_run_cons(m1, t);
        if let Some(m2) = step(m1, t[0]) {
            let u = t.drop_first();
            lemma_run_cons(m2, u);
            if let Some(m3) = step(m2, u[0]) {
                assert(u.drop_first().len() == 0);
            }
        }
    }
}

proof fn lemma_run_concat(m: Machine, a: Seq<R3Instr>, b: Seq<R3Instr>)
    requires
        forall|i: int| 0 <= i < a.len() ==> !(#[trigger] a[i] is If),
    ensures
        run(m, a + b) == (match run(m, a) {
            Some(m1) => run(m1, b),
            None => None,
        }),
    decreases a.len(),
{
    if a.len() > 0 {
        assert((a + b).drop_first() == a.drop_first() + b);
        assert((a + b)[0] == a[0]);
        assert(forall|i: int| 0 <= i < a.drop_first().len() ==> a.drop_first()[i] == a[i + 1]);
        match step(m, a[0]) {
            Some(m1) => lemma_run_concat(m1, a.drop_first(), b),
            None => {},
        }
    } else {
        assert(a + b == b);
    }
}

/// The taken slots of `l` are distinct and below `next`.
pub open spec fn apart(l: Seq<Option<u32>>, next: nat) -> bool {
    &&& forall|i: int| 0 <= i < l.len() ==> (#[trigger] l[i] matches Some(x) ==> x < next)
    &&& forall|i: int, j: int| 0 <= i < j < l.len() ==> (#[trigger] l[i] matches Some(x) ==> (#[trigger] l[j] matches Some(y) ==> x != y))
}

/// Taking slot `k` keeps the slots apart.
proof fn lemma_take_slot(l: Seq<Option<u32>>, next: nat, added: Seq<DataType>, ty: DataType, k: int)
    requires
        apart(l, next),
        0 <= k < l.len(),
        next + 1 <= u32::MAX,
    ensures
        ({
            let (_, sk, n2, _) = slot_local(l[k], next, added, ty);
            apart(l.update(k, sk), n2) && n2 <= next + 1
        }),
{
    let (_, sk, n2, _) = slot_local(l[k], next, added, ty);
    let l2 = l.update(k, sk);
    assert forall|i: int, j: int| 0 <= i < j < l2.len() implies
        (#[trigger] l2[i] matches Some(x) ==> (#[trigger] l2[j] matches Some(y) ==> x != y)) by {
        assert(l[i] matches Some(x) ==> x < next);
        assert(l[j] matches Some(y) ==> y < next);
    }
    assert forall|i: int| 0 <= i < l2.len() implies (#[trigger] l2[i] matches Some(x) ==> x < n2) by {
        assert(l[i] matches Some(x) ==> x < next);
    }
}

/// The position of the value slot of type `vt` in `slot_list`.
pub open spec fn val_pos(vt: DataType) -> int {
    if vt is I32 { 1 } else if vt is I64 { 2 } else if vt is F32 { 3 } else if vt is F64 { 4 } else { 5 }
}

/// Rewriting an instruction keeps the scratch locals apart.
#[verifier::rlimit(100)]
pub proof fn lemma_slots_apart_kept(op: Operator, st: AllocState, ctx: OpContext)
    requires
        slots_apart(st),
        st.next + 3 <= u32::MAX,
    ensures
        slots_apart(instrument_op_spec(op, st, ctx).2),
        instrument_op_spec(op, st, ctx).2.next <= st.next + 3,
{
    let s = st.slots;
    let l = slot_list(s);
    assert(apart(l, st.next));
    if store_val_type_spec(op) is Some && to_shadow_spec(op) is Some {
        let vt = store_val_type_spec(op)->0;
        let (addr, sa, n1, a1) = slot_local(s.addr, st.next, st.added, DataType::I32);
        lemma_take_slot(l, st.next, st.added, DataType::I32, 0);
        let l1 = l.update(0, sa);
        assert(l1[val_pos(vt)] == val_slot(s, vt));
        lemma_take_slot(l1, n1, a1, vt, val_pos(vt));
        let (val, sv, n2, a2) = slot_local(val_slot(s, vt), n1, a1, vt);
        assert(slot_list(with_val_slot(Slots { addr: sa, ..s }, vt, sv)) == l1.update(val_pos(vt), sv));
    } else if load_val_type_spec(op) is Some && to_shadow_spec(op) is Some {
        let vt = load_val_type_spec(op)->0;
        let (addr, sa, n1, a1) = slot_local(s.addr, st.next, st.added, DataType::I32);
        lemma_take_slot(l, st.next, st.added, DataType::I32, 0);
        let l1 = l.update(0, sa);
        assert(l1[val_pos(vt)] == val_slot(s, vt));
        lemma_take_slot(l1, n1, a1, vt, val_pos(vt));
        let (val, sv, n2, a2) = slot_local(val_slot(s, vt), n1, a1, vt);
        assert(slot_list(with_val_slot(Slots { addr: sa, ..s }, vt, sv)) == l1.update(val_pos(vt), sv));
    } else if op matches Operator::LoadLane { width, memarg, .. } && memarg.memory == 0 {
        let (addr, sa, n1, a1) = slot_local(s.addr, st.next, st.added, DataType::I32);
        lemma_take_slot(l, st.next, st.added, DataType::I32, 0);
        let l1 = l.update(0, sa);
        let (input, si, n2, a2) = slot_local(s.scratch_v128, n1, a1, DataType::V128);
        lemma_take_slot(l1, n1, a1, DataType::V128, 6);
        let l2 = l1.update(6, si);
        let (result, sr, n3, a3) = slot_local(s.val_v128, n2, a2, DataType::V128);
        lemma_take_slot(l2, n2, a2, DataType::V128, 5);
        assert(slot_list(Slots { addr: sa, scratch_v128: si, val_v128: sr, ..s }) == l2.update(5, sr));
    } else if op == (Operator::MemoryGrow { mem: 0 }) {
        let (delta, sa, n1, a1) = slot_local(s.addr, st.next, st.added, DataType::I32);
        lemma_take_slot(l, st.next, st.added, DataType::I32, 0);
        let l1 = l.update(0, sa);
        let (saved, sb, n2, a2) = slot_local(s.bulk_arg1, n1, a1, DataType::I32);
        lemma_take_slot(l1, n1, a1, DataType::I32, 7);
        assert(slot_list(Slots { addr: sa, bulk_arg1: sb, ..s }) == l1.update(7, sb));
    } else if op == (Operator::MemoryCopy { dst_mem: 0, src_mem: 0 }) || (op matches Operator::MemoryInit { mem, .. } && mem == 0)
        || op == (Operator::MemoryFill { mem: 0 }) {
        let (dst, sa, n1, a1) = slot_local(s.addr, st.next, st.added, DataType::I32);
        lemma_take_slot(l, st.next, st.added, DataType::I32, 0);
        let l1 = l.update(0, sa);
        let (arg1, s1, n2, a2) = slot_local(s.bulk_arg1, n1, a1, DataType::I32);
        lemma_take_slot(l1, n1, a1, DataType::I32, 7);
        let l2 = l1.update(7, s1);
        let (len, s2, n3, a3) = slot_local(s.bulk_arg2, n2, a2, DataType::I32);
        lemma_take_slot(l2, n2, a2, DataType::I32, 8);
        assert(slot_list(Slots { addr: sa, bulk_arg1: s1, bulk_arg2: s2, ..s }) == l2.update(8, s2));
    }
}

/// A store to memory 0 keeps the shadow memory equal to memory 0: run with
/// the instructions injected around it, on a state whose memory 1 equals
/// memory 0, a store that does not trap on its own writes memory 0 as it
/// does on its own, leaves the stack as it does, and leaves memory 1 equal
/// to memory 0.
#[verifier::rlimit(100)]
pub proof fn lemma_store_keeps_shadow(op: Operator, st: AllocState, ctx: OpContext, m: Machine)
    requires
        store_val_type_spec(op) is Some,
        slots_apart(st),
        st.next + 3 <= u32::MAX,
        m.mems.contains_key(0),
        m.mems.contains_key(1),
        m.mems[0] == m.mems[1],
    ensures
        ({
            let (before, after, _) = instrument_op_spec(op, st, ctx);
            run(m, seq![R3Instr::Op(op)]) matches Some(m1) ==> {
                &&& run(m, before + seq![R3Instr::Op(op)] + after) matches Some(m2)
                &&& m2.stack == m1.stack
                &&& m2.mems[0] == m1.mems[0]
                &&& m2.mems[1] == m2.mems[0]
            }
        }),
{
    let (before, after, _) = instrument_op_spec(op, st, ctx);
    let single = seq![R3Instr::Op(op)];
    let sh = to_shadow_spec(op)->0;
    assert(to_shadow_spec(op) is Some);
    if let Some(m1) = run(m, single) {
        let s = st.slots;
        let vt = store_val_type_spec(op)->0;
        let (addr, sa, n1, a1) = slot_local(s.addr, st.next, st.added, DataType::I32);
        let (val, sv, n2, a2) = slot_local(val_slot(s, vt), n1, a1, vt);
        let l = slot_list(s);
        assert(addr != val) by {
            let k: int = if vt is I32 { 1 } else if vt is I64 { 2 } else if vt is F32 { 3 } else if vt is F64 { 4 } else { 5 };
            assert(l[0] == s.addr);
            assert(l[k] == val_slot(s, vt));
            assert(l[0] matches Some(x) ==> x < st.next);
            assert(l[k] matches Some(y) ==> y < st.next);
            assert(l[0] matches Some(x) ==> (l[k] matches Some(y) ==> x != y));
            match s.addr {
                Some(x) => {
                    assert(addr == x && n1 == st.next);
                    match val_slot(s, vt) {
                        Some(y) => assert(val == y),
                        None => assert(val == st.next as u32),
                    }
                },
                None => {
                    assert(addr == st.next as u32 && n1 == st.next + 1);
                    match val_slot(s, vt) {
                        Some(y) => assert(val == y && y < st.next),
                        None => assert(val == (st.next + 1) as u32),
                    }
                },
            }
        }
        assert(before == seq![R3Instr::LocalSet(val), R3Instr::LocalTee(addr), R3Instr::LocalGet(val)]);
        assert(after == seq![R3Instr::LocalGet(addr), R3Instr::LocalGet(val), R3Instr::Op(sh)]);
        assert(m.stack.len() >= 2);
        let v = m.stack.last();
        let a = m.stack[m.stack.len() - 2];
        // before: [.., a, v] -> locals val = v, addr = a, stack [.., a, v]
        let ma = Machine { stack: m.stack.drop_last(), locals: m.locals.insert(val, v), ..m };
        let mb = Machine { locals: ma.locals.insert(addr, a), ..ma };
        let mc = Machine { stack: mb.stack.push(v), ..mb };
        assert(ma.stack.last() == a);
        assert(mc.stack == m.stack);
        lemma_run3(m, before);
        assert(run(m, before) == Some(mc));
        let md = step(mc, R3Instr::Op(op))->0;
        assert(step(mc, R3Instr::Op(op)) is Some);
        lemma_run_cons(mc, single);
        assert(run(mc, single) == Some(md));
        lemma_run_cons(m, single);
        assert(run(m, single) == step(m, R3Instr::Op(op)));
        assert(mc.mems == m.mems);
        lemma_run_concat(m, before, single);
        assert(md.stack == m1.stack);
        assert(md.mems[0] == m1.mems[0]);
        let me = Machine { stack: md.stack.push(a), ..md };
        let mf = Machine { stack: me.stack.push(v), ..me };
        assert(md.locals == mb.locals);
        assert(mb.locals[addr] == a);
        assert(mb.locals[val] == v);
        assert(store_bytes(sh, v) == store_bytes(op, v));
        assert(store_memory(sh) == 1);
        let mg = step(mf, R3Instr::Op(sh))->0;
        assert(step(mf, R3Instr::Op(sh)) is Some);
        lemma_run3(md, after);
        assert(run(md, after) == Some(mg));
        lemma_run_concat(m, before + single, after);
        assert(mg.stack == md.stack);
        assert(mg.mems[1] == mg.mems[0]);
    }
}

/// The injections of instruction `i` are those of rewriting it in the state
/// that rewriting the instructions before it reaches.
proof fn lemma_rewrite_ops_at(ops: Seq<Operator>, st: AllocState, ctx: OpContext, i: int)
    requires
        0 <= i < ops.len(),
    ensures
        ({
            let (b, a, _) = instrument_op_spec(ops[i], rewrite_ops(ops.take(i), st, ctx).1, ctx);
            rewrite_ops(ops, st, ctx).0[i] == (b, a)
        }),
    decreases ops.len(),
{
    lemma_rewrite_ops_alloc(ops.drop_last(), st, ctx);
    if i == ops.len() - 1 {
        assert(ops.drop_last() == ops.take(i));
    } else {
        lemma_rewrite_ops_at(ops.drop_last(), st, ctx, i);
        assert(ops.drop_last().take(i) == ops.take(i));
        assert(ops.drop_last()[i] == ops[i]);
    }
}

/// Along the rewrite of a function the scratch locals stay apart, below nine
/// more than the function's own locals.
proof fn lemma_rewrite_ops_apart(ops: Seq<Operator>, st: AllocState, ctx: OpContext, n: int)
    requires
        0 <= n <= ops.len(),
        slots_apart(st),
        slots_used(st.slots) == 0,
        st.next + 12 <= u32::MAX,
    ensures
        slots_apart(rewrite_ops(ops.take(n), st, ctx).1),
        rewrite_ops(ops.take(n), st, ctx).1.next <= st.next + 9,
    decreases n,
{
    lemma_rewrite_ops_alloc(ops.take(n), st, ctx);
    if n > 0 {
        lemma_rewrite_ops_apart(ops, st, ctx, n - 1);
        assert(ops.take(n).drop_last() == ops.take(n - 1));
        let st1 = rewrite_ops(ops.take(n - 1), st, ctx).1;
        lemma_rewrite_ops_alloc(ops.take(n - 1), st, ctx);
        lemma_slots_apart_kept(ops.take(n).last(), st1, ctx);
    }
}

/// Every store to memory 0 of an instrumented function keeps the shadow
/// memory equal to memory 0: run with the instructions injected around it,
/// on a state whose memory 1 equals memory 0, a store that does not trap on
/// its own writes memory 0 and leaves the stack as it does on its own, and
/// leaves memory 1 equal to memory 0.
pub proof fn lemma_function_stores_keep_shadow(f: R3LocalFunc, ctx: OpContext, i: int, m: Machine)
    requires
        f.num_params + f.num_locals + 12 <= u32::MAX,
        0 <= i < f.body@.len(),
        store_val_type_spec(f.body@[i]) is Some,
        m.mems.contains_key(0),
        m.mems.contains_key(1),
        m.mems[0] == m.mems[1],
    ensures
        ({
            let inj = rewrite_ops(f.body@, initial_alloc(&f), ctx).0;
            let op = f.body@[i];
            run(m, seq![R3Instr::Op(op)]) matches Some(m1) ==> {
                &&& run(m, inj[i].0 + seq![R3Instr::Op(op)] + inj[i].1) matches Some(m2)
                &&& m2.stack == m1.stack
                &&& m2.mems[0] == m1.mems[0]
                &&& m2.mems[1] == m2.mems[0]
            }
        }),
{
    let st0 = initial_alloc(&f);
    let ops = f.body@;
    assert(slots_apart(st0)) by {
        let l = slot_list(st0.slots);
        assert forall|k: int| 0 <= k < l.len() implies l[k] is None by {}
    }
    lemma_rewrite_ops_apart(ops, st0, ctx, i);
    lemma_rewrite_ops_at(ops, st0, ctx, i);
    let st_i = rewrite_ops(ops.take(i), st0, ctx).1;
    lemma_store_keeps_shadow(ops[i], st_i, ctx, m);
}

/// Runs instructions in order, each by `step` (an `if` stops it).
pub open spec fn run_steps(m: Machine, s: Seq<R3Instr>) -> Option<Machine>
    decreases s.len(),
{
    if s.len() == 0 {
        Some(m)
    } else {
        match step(m, s[0]) {
            Some(m1) => run_steps(m1, s.drop_first()),
            None => None,
        }
    }
}

/// Without an `if`, running is stepping.
proof fn lemma_run_steps(m: Machine, s: Seq<R3Instr>)
    requires
        forall|i: int| 0 <= i < s.len() ==> !(#[trigger] s[i] is If),
    ensures
        run(m, s) == run_steps(m, s),
    decreases s.len(),
{
    if s.len() > 0 {
        assert(forall|i: int| 0 <= i < s.drop_first().len() ==> s.drop_first()[i] == s[i + 1]);
        if let Some(m1) = step(m, s[0]) {
            lemma_run_steps(m1, s.drop_first());
        }
    }
}

/// One step of `run_steps`.
proof fn lemma_steps_cons(m: Machine, s: Seq<R3Instr>, m1: Machine)
    requires
        s.len() > 0,
        step(m, s[0]) == Some(m1),
    ensures
        run_steps(m, s) == run_steps(m1, s.drop_first()),
{
}

/// The comparison after a checked load: the value goes to its local, the
/// shadow memory is read at the same address, and the two are compared.
#[verifier::rlimit(60)]
proof fn lemma_load_compare(mc: Machine, addr: u32, val: u32, sh: Operator, ne: R3Instr, a: int, v0: int, v1: int)
    requires
        addr != val,
        mc.locals.contains_key(addr),
        mc.locals[addr] == a,
        mc.stack.len() >= 1,
        mc.stack.last() == v0,
        sh matches Operator::Load { kind, memarg } && memarg.memory == 1 && mc.mems.contains_key(1) && 0 <= a
            && a + memarg.offset + load_kind_size(kind) <= mc.mems[1].len()
            && v1 == load_value(loaded(mc.mems[1], a + memarg.offset, load_kind_size(kind) as int)),
        ne is I32Ne || ne is I64Ne,
    ensures
        run_steps(mc, seq![R3Instr::LocalSet(val), R3Instr::LocalGet(addr), R3Instr::Op(sh), R3Instr::LocalGet(val), ne])
            == Some(Machine {
                stack: mc.stack.drop_last().push(if v1 != v0 { 1int } else { 0int }),
                locals: mc.locals.insert(val, v0),
                ..mc
            }),
{
    let s0 = seq![R3Instr::LocalSet(val), R3Instr::LocalGet(addr), R3Instr::Op(sh), R3Instr::LocalGet(val), ne];
    let base = mc.stack.drop_last();
    let locs = mc.locals.insert(val, v0);
    let x1 = Machine { stack: base, locals: locs, ..mc };
    lemma_steps_cons(mc, s0, x1);
    let s1 = s0.drop_first();
    let x2 = Machine { stack: base.push(a), ..x1 };
    assert(locs[addr] == a);
    lemma_steps_cons(x1, s1, x2);
    let s2 = s1.drop_first();
    let x3 = Machine { stack: base.push(v1), ..x1 };
    assert(x2.stack.last() == a);
    assert(x2.stack.drop_last() == base);
    lemma_steps_cons(x2, s2, x3);
    let s3 = s2.drop_first();
    let x4 = Machine { stack: base.push(v1).push(v0), ..x1 };
    lemma_steps_cons(x3, s3, x4);
    let s4 = s3.drop_first();
    let x5 = Machine { stack: base.push(if v1 != v0 { 1int } else { 0int }), ..x1 };
    assert(x4.stack.drop_last().drop_last() == base);
    assert(x4.stack[x4.stack.len() - 2] == v1);
    lemma_steps_cons(x4, s4, x5);
    assert(s4.drop_first().len() == 0);
}

/// The check after the comparison: where the values differ, the mismatch
/// handler is called with the address of the loaded bytes and their number;
/// then the loaded value is pushed back.
#[verifier::rlimit(60)]
proof fn lemma_load_branch(me: Machine, addr: u32, val: u32, off: i32, size: i32, h: u32, a: int, o: u64, v0: int)
    requires
        me.locals.contains_key(addr),
        me.locals.contains_key(val),
        me.locals[addr] == a,
        me.locals[val] == v0,
        off == o as u32 as i32,
        0 <= o < 0x1_0000_0000,
        0 <= a,
        a + o < 0x1_0000_0000,
    ensures
        ({
            let branch = seq![R3Instr::LocalGet(addr), R3Instr::I32Const(off), R3Instr::I32Add, R3Instr::I32Const(size),
                R3Instr::Call(h), R3Instr::End, R3Instr::LocalGet(val)];
            &&& run_steps(me, branch) == Some(Machine {
                stack: me.stack.push(v0),
                calls: me.calls.push((h, a + o, (size as u32) as int)),
                ..me
            })
            &&& skip_end(branch) == seq![R3Instr::LocalGet(val)]
        }),
{
    let b0 = seq![R3Instr::LocalGet(addr), R3Instr::I32Const(off), R3Instr::I32Add, R3Instr::I32Const(size),
        R3Instr::Call(h), R3Instr::End, R3Instr::LocalGet(val)];
    let st = me.stack;
    let y1 = Machine { stack: st.push(a), ..me };
    lemma_steps_cons(me, b0, y1);
    let b1 = b0.drop_first();
    let y2 = Machine { stack: st.push(a).push((off as u32) as int), ..me };
    lemma_steps_cons(y1, b1, y2);
    let b2 = b1.drop_first();
    assert((off as u32) as u64 == o) by (bit_vector)
        requires
            off == o as u32 as i32,
            o < 0x1_0000_0000;
    assert((a + (off as u32) as int) % 0x1_0000_0000 == a + o);
    let y3 = Machine { stack: st.push(a + o), ..me };
    assert(y2.stack.drop_last().drop_last() == st);
    lemma_steps_cons(y2, b2, y3);
    let b3 = b2.drop_first();
    let y4 = Machine { stack: st.push(a + o).push((size as u32) as int), ..me };
    lemma_steps_cons(y3, b3, y4);
    let b4 = b3.drop_first();
    let y5 = Machine { stack: st, calls: me.calls.push((h, a + o, (size as u32) as int)), ..me };
    assert(y4.stack.drop_last().drop_last() == st);
    lemma_steps_cons(y4, b4, y5);
    let b5 = b4.drop_first();
    lemma_steps_cons(y5, b5, y5);
    let b6 = b5.drop_first();
    let y6 = Machine { stack: st.push(v0), ..y5 };
    lemma_steps_cons(y5, b6, y6);
    assert(b6.drop_first().len() == 0);
    reveal_with_fuel(skip_end, 7);
    assert(b0.drop_first().drop_first().drop_first().drop_first().drop_first().drop_first() == seq![R3Instr::LocalGet(val)]);
}

/// A load from memory 0 of an integer is checked against the shadow memory:
/// run with the instructions injected around it, on a state whose memory 1
/// is as long as memory 0 (at most 2^32 bytes), a load that does not trap on
/// its own leaves the stack and the memories as it does, and calls the
/// mismatch handler once, with the address of the loaded bytes (the address
/// operand plus the static offset) and their number, exactly when memory 1
/// holds a different value there.
#[verifier::rlimit(100)]
pub proof fn lemma_load_checked_run(op: Operator, st: AllocState, ctx: OpContext, m: Machine)
    requires
        load_val_type_spec(op) matches Some(vt) && (vt is I32 || vt is I64),
        op->Load_memarg.offset < 0x1_0000_0000,
        slots_apart(st),
        st.next + 3 <= u32::MAX,
        m.mems.contains_key(0),
        m.mems.contains_key(1),
        m.mems[1].len() == m.mems[0].len(),
        m.mems[0].len() <= 0x1_0000_0000,
    ensures
        ({
            let (before, after, _) = instrument_op_spec(op, st, ctx);
            run(m, seq![R3Instr::Op(op)]) matches Some(m1) ==> {
                let ea = m.stack.last() + op->Load_memarg.offset;
                let n = load_kind_size(op->Load_kind) as int;
                let differ = load_value(loaded(m.mems[0], ea, n)) != load_value(loaded(m.mems[1], ea, n));
                &&& run(m, before + seq![R3Instr::Op(op)] + after) matches Some(m2)
                &&& m2.stack == m1.stack
                &&& m2.mems == m.mems
                &&& m2.calls == (if differ { m.calls.push((ctx.on_mismatch, ea, n)) } else { m.calls })
            }
        }),
{
    let (before, after, _) = instrument_op_spec(op, st, ctx);
    let single = seq![R3Instr::Op(op)];
    if let Some(m1) = run(m, single) {
        let kind = op->Load_kind;
        let memarg = op->Load_memarg;
        let vt = load_val_type_spec(op)->0;
        let sh = to_shadow_spec(op)->0;
        let s = st.slots;
        let (addr, sa, n1, a1) = slot_local(s.addr, st.next, st.added, DataType::I32);
        let (val, sv, n2, a2) = slot_local(val_slot(s, vt), n1, a1, vt);
        let l = slot_list(s);
        assert(addr != val) by {
            let k: int = if vt is I32 { 1 } else { 2 };
            assert(l[0] == s.addr);
            assert(l[k] == val_slot(s, vt));
            assert(l[0] matches Some(x) ==> x < st.next);
            assert(l[k] matches Some(y) ==> y < st.next);
            assert(l[0] matches Some(x) ==> (l[k] matches Some(y) ==> x != y));
        }
        let ne = if vt is I32 { R3Instr::I32Ne } else { R3Instr::I64Ne };
        let off = load_offset_spec(op);
        let size = load_kind_size(kind);
        let h = ctx.on_mismatch;
        let after1 = seq![R3Instr::LocalSet(val), R3Instr::LocalGet(addr), R3Instr::Op(sh), R3Instr::LocalGet(val), ne];
        let branch = seq![R3Instr::LocalGet(addr), R3Instr::I32Const(off), R3Instr::I32Add, R3Instr::I32Const(size),
            R3Instr::Call(h), R3Instr::End, R3Instr::LocalGet(val)];
        let rest = seq![R3Instr::If] + branch;
        assert(before == seq![R3Instr::LocalTee(addr)]);
        assert(after == after1 + rest);
        let a = m.stack.last();
        let ea = a + memarg.offset;
        let n = size as int;
        let v0 = load_value(loaded(m.mems[0], ea, n));
        let v1 = load_value(loaded(m.mems[1], ea, n));
        lemma_run_cons(m, single);
        assert(m1.stack == m.stack.drop_last().push(v0));
        // the address goes to its local, then the load runs
        let pre = before + single;
        assert(forall|i: int| 0 <= i < pre.len() ==> !(#[trigger] pre[i] is If));
        lemma_run_steps(m, pre);
        let mb = Machine { locals: m.locals.insert(addr, a), ..m };
        let mc = Machine { stack: m.stack.drop_last().push(v0), ..mb };
        lemma_steps_cons(m, pre, mb);
        lemma_steps_cons(mb, pre.drop_first(), mc);
        assert(pre.drop_first().drop_first().len() == 0);
        assert(run(m, pre) == Some(mc));
        // the comparison
        assert(forall|i: int| 0 <= i < after1.len() ==> !(#[trigger] after1[i] is If));
        lemma_run_steps(mc, after1);
        assert(sh == Operator::Load { kind, memarg: MemArg { memory: 1, ..memarg } });
        assert(mc.stack.drop_last() == m.stack.drop_last());
        assert(mc.stack.last() == v0);
        lemma_load_compare(mc, addr, val, sh, ne, a, v0, v1);
        let md = Machine { stack: m.stack.drop_last().push(if v1 != v0 { 1int } else { 0int }), locals: mc.locals.insert(val, v0), ..mc };
        assert(run(mc, after1) == Some(md));
        // the check
        let me = Machine { stack: m.stack.drop_last(), ..md };
        assert(rest.drop_first() == branch);
        assert(rest[0] is If);
        lemma_load_branch(me, addr, val, off, size, h, a, memarg.offset, v0);
        assert((size as u32) as int == n);
        assert(forall|i: int| 0 <= i < branch.len() ==> !(#[trigger] branch[i] is If));
        lemma_run_steps(me, branch);
        let tail = seq![R3Instr::LocalGet(val)];
        assert(forall|i: int| 0 <= i < tail.len() ==> !(#[trigger] tail[i] is If));
        lemma_run_steps(me, tail);
        lemma_steps_cons(me, tail, Machine { stack: me.stack.push(v0), ..me });
        assert(tail.drop_first().len() == 0);
        assert(md.stack.drop_last() == m.stack.drop_last());
        assert(md.stack.len() > 0);
        assert(Machine { stack: md.stack.drop_last(), ..md } == me);
        assert(md.stack.last() == (if v1 != v0 { 1int } else { 0int }));
        assert(run(md, rest) == (if v1 != v0 { run(me, branch) } else { run(me, tail) }));
        lemma_run_concat(m, pre, after1);
        assert(pre + after == (pre + after1) + rest);
        assert(forall|i: int| 0 <= i < (pre + after1).len() ==> !(#[trigger] (pre + after1)[i] is If));
        lemma_run_concat(m, pre + after1, rest);
    }
}

/// Every integer load from memory 0 of an instrumented function is checked:
/// run with the instructions injected around it, a load that does not trap
/// on its own leaves the stack and the memories as it does, and calls the
/// mismatch handler with the address of the loaded bytes and their number
/// exactly when memory 1 holds a different value there.
pub proof fn lemma_function_loads_checked(f: R3LocalFunc, ctx: OpContext, i: int, m: Machine)
    requires
        f.num_params + f.num_locals + 12 <= u32::MAX,
        0 <= i < f.body@.len(),
        load_val_type_spec(f.body@[i]) matches Some(vt) && (vt is I32 || vt is I64),
        f.body@[i]->Load_memarg.offset < 0x1_0000_0000,
        m.mems.contains_key(0),
        m.mems.contains_key(1),
        m.mems[1].len() == m.mems[0].len(),
        m.mems[0].len() <= 0x1_0000_0000,
    ensures
        ({
            let inj = rewrite_ops(f.body@, initial_alloc(&f), ctx).0;
            let op = f.body@[i];
            run(m, seq![R3Instr::Op(op)]) matches Some(m1) ==> {
                let ea = m.stack.last() + op->Load_memarg.offset;
                let n = load_kind_size(op->Load_kind) as int;
                let differ = load_value(loaded(m.mems[0], ea, n)) != load_value(loaded(m.mems[1], ea, n));
                &&& run(m, inj[i].0 + seq![R3Instr::Op(op)] + inj[i].1) matches Some(m2)
                &&& m2.stack == m1.stack
                &&& m2.mems == m.mems
                &&& m2.calls == (if differ { m.calls.push((ctx.on_mismatch, ea, n)) } else { m.calls })
            }
        }),
{
    let st0 = initial_alloc(&f);
    let ops = f.body@;
    assert(slots_apart(st0)) by {
        let l = slot_list(st0.slots);
        assert forall|k: int| 0 <= k < l.len() implies l[k] is None by {}
    }
    lemma_rewrite_ops_apart(ops, st0, ctx, i);
    lemma_rewrite_ops_at(ops, st0, ctx, i);
    let st_i = rewrite_ops(ops.take(i), st0, ctx).1;
    lemma_load_checked_run(ops[i], st_i, ctx, m);
}


/// The slots that the rewrite of `memory.grow` takes for the delta and the
/// saved result are two distinct locals.
proof fn lemma_grow_slots_distinct(st: AllocState)
    requires
        slots_apart(st),
        st.next + 3 <= u32::MAX,
    ensures
        ({
            let s = st.slots;
            let (delta, sa, n1, a1) = slot_local(s.addr, st.next, st.added, DataType::I32);
            let (saved, sb, n2, a2) = slot_local(s.bulk_arg1, n1, a1, DataType::I32);
            delta != saved
        }),
{
    let s = st.slots;
    let l = slot_list(s);
    assert(l[0] == s.addr);
    assert(l[7] == s.bulk_arg1);
    assert(l[0] matches Some(x) ==> x < st.next);
    assert(l[7] matches Some(y) ==> y < st.next);
    assert(l[0] matches Some(x) ==> (l[7] matches Some(y) ==> x != y));
    let (delta, sa, n1, a1) = slot_local(s.addr, st.next, st.added, DataType::I32);
    let (saved, sb, n2, a2) = slot_local(s.bulk_arg1, n1, a1, DataType::I32);
    match s.addr {
        Some(x) => {
            assert(delta == x && n1 == st.next);
            match s.bulk_arg1 {
                Some(y) => assert(saved == y),
                None => assert(saved == st.next as u32),
            }
        },
        None => {
            assert(delta == st.next as u32 && n1 == st.next + 1);
            match s.bulk_arg1 {
                Some(y) => assert(saved == y && y < st.next),
                None => assert(saved == (st.next + 1) as u32),
            }
        },
    }
}

/// `memory.grow` of memory 0 grows the shadow memory alike: run with the
/// instructions injected around it, on a state whose memory 1 is as long as
/// memory 0, a grow that does not trap on its own grows memory 0 once, as
/// it does on its own, leaves the stack as it does (the former size in
/// pages, or -1), and adds to memory 1 the same zeroed bytes that memory 0
/// gained, so that the two memories stay equally long.
#[verifier::rlimit(100)]
pub proof fn lemma_grow_keeps_shadow(st: AllocState, ctx: OpContext, m: Machine)
    requires
        slots_apart(st),
        st.next + 3 <= u32::MAX,
        m.mems.contains_key(0),
        m.mems.contains_key(1),
        m.mems[1].len() == m.mems[0].len(),
    ensures
        ({
            let op = Operator::MemoryGrow { mem: 0 };
            let (before, after, _) = instrument_op_spec(op, st, ctx);
            run(m, seq![R3Instr::Op(op)]) matches Some(m1) ==> {
                &&& run(m, before + seq![R3Instr::Op(op)] + after) matches Some(m2)
                &&& m2.stack == m1.stack
                &&& m2.mems[0] == m1.mems[0]
                &&& m2.mems[1] == m.mems[1] + m1.mems[0].skip(m.mems[0].len() as int)
                &&& m2.mems[1].len() == m2.mems[0].len()
            }
        }),
{
    let op = Operator::MemoryGrow { mem: 0 };
    let grow1 = Operator::MemoryGrow { mem: 1 };
    let (before, after, _) = instrument_op_spec(op, st, ctx);
    let single = seq![R3Instr::Op(op)];
    if let Some(m1) = run(m, single) {
        let s = st.slots;
        let (delta, sa, n1, a1) = slot_local(s.addr, st.next, st.added, DataType::I32);
        let (saved, sb, n2, a2) = slot_local(s.bulk_arg1, n1, a1, DataType::I32);
        lemma_grow_slots_distinct(st);
        assert(before == seq![R3Instr::LocalTee(delta)]);
        assert(after == seq![R3Instr::LocalSet(saved), R3Instr::LocalGet(delta), R3Instr::Op(grow1), R3Instr::Drop,
            R3Instr::LocalGet(saved)]);
        lemma_run_cons(m, single);
        assert(m1 == step(m, R3Instr::Op(op))->0);
        let all = before + single + after;
        assert(all == seq![R3Instr::LocalTee(delta), R3Instr::Op(op), R3Instr::LocalSet(saved), R3Instr::LocalGet(delta),
            R3Instr::Op(grow1), R3Instr::Drop, R3Instr::LocalGet(saved)]);
        assert(forall|i: int| 0 <= i < all.len() ==> !(#[trigger] all[i] is If));
        lemma_run_steps(m, all);
        let d = m.stack.last();
        let len0 = m.mems[0].len();
        let ok = 0 <= d && len0 + d * 65536 <= 0x1_0000_0000;
        let zeros = Seq::new((d * 65536) as nat, |j: int| 0u8);
        let r0: int = if ok { (len0 / 65536) as int } else { 0xFFFF_FFFF };
        let base = m.stack.drop_last();
        // local.tee delta
        let xa = Machine { locals: m.locals.insert(delta, d), ..m };
        lemma_steps_cons(m, all, xa);
        let s1 = all.drop_first();
        // memory.grow 0
        let xb = Machine { stack: base.push(r0), mems: m1.mems, ..xa };
        assert(m1.stack == base.push(r0));
        assert(m1.mems == (if ok { m.mems.insert(0, m.mems[0] + zeros) } else { m.mems }));
        lemma_steps_cons(xa, s1, xb);
        let s2 = s1.drop_first();
        // local.set saved
        let xc = Machine { stack: base, locals: xa.locals.insert(saved, r0), ..xb };
        assert(xb.stack.drop_last() == base);
        lemma_steps_cons(xb, s2, xc);
        let s3 = s2.drop_first();
        // local.get delta
        assert(xc.locals[delta] == d);
        let xd = Machine { stack: base.push(d), ..xc };
        lemma_steps_cons(xc, s3, xd);
        let s4 = s3.drop_first();
        // memory.grow 1
        assert(xd.mems.contains_key(1));
        assert(xd.mems[1] == m.mems[1]);
        let r1: int = if ok { (len0 / 65536) as int } else { 0xFFFF_FFFF };
        let xe = Machine {
            stack: base.push(r1),
            mems: if ok { xd.mems.insert(1, m.mems[1] + zeros) } else { xd.mems },
            ..xd
        };
        assert(xd.stack.drop_last() == base);
        lemma_steps_cons(xd, s4, xe);
        let s5 = s4.drop_first();
        // drop
        let xf = Machine { stack: base, ..xe };
        assert(xe.stack.drop_last() == base);
        lemma_steps_cons(xe, s5, xf);
        let s6 = s5.drop_first();
        // local.get saved
        assert(xf.locals[saved] == r0);
        let xg = Machine { stack: base.push(r0), ..xf };
        lemma_steps_cons(xf, s6, xg);
        assert(s6.drop_first().len() == 0);
        assert(run(m, all) == Some(xg));
        assert(xg.mems[0] == m1.mems[0]);
        if ok {
            assert(m1.mems[0] == m.mems[0] + zeros);
            assert(m1.mems[0].skip(len0 as int) =~= zeros);
        } else {
            assert(m1.mems[0].skip(len0 as int) =~= Seq::<u8>::empty());
            assert(m.mems[1] + Seq::<u8>::empty() =~= m.mems[1]);
        }
    }
}

/// Every `memory.grow` of memory 0 in an instrumented function grows the
/// shadow memory alike: run with the instructions injected around it, on a
/// state whose memory 1 is as long as memory 0, a grow that does not trap
/// on its own grows memory 0 once and leaves the stack as it does, and adds
/// the same zeroed bytes to memory 1, so that the two stay equally long.
pub proof fn lemma_function_grows_keep_shadow(f: R3LocalFunc, ctx: OpContext, i: int, m: Machine)
    requires
        f.num_params + f.num_locals + 12 <= u32::MAX,
        0 <= i < f.body@.len(),
        f.body@[i] == (Operator::MemoryGrow { mem: 0 }),
        m.mems.contains_key(0),
        m.mems.contains_key(1),
        m.mems[1].len() == m.mems[0].len(),
    ensures
        ({
            let inj = rewrite_ops(f.body@, initial_alloc(&f), ctx).0;
            let op = f.body@[i];
            run(m, seq![R3Instr::Op(op)]) matches Some(m1) ==> {
                &&& run(m, inj[i].0 + seq![R3Instr::Op(op)] + inj[i].1) matches Some(m2)
                &&& m2.stack == m1.stack
                &&& m2.mems[0] == m1.mems[0]
                &&& m2.mems[1] == m.mems[1] + m1.mems[0].skip(m.mems[0].len() as int)
                &&& m2.mems[1].len() == m2.mems[0].len()
            }
        }),
{
    let st0 = initial_alloc(&f);
    let ops = f.body@;
    assert(slots_apart(st0)) by {
        let l = slot_list(st0.slots);
        assert forall|k: int| 0 <= k < l.len() implies l[k] is None by {}
    }
    lemma_rewrite_ops_apart(ops, st0, ctx, i);
    lemma_rewrite_ops_at(ops, st0, ctx, i);
    let st_i = rewrite_ops(ops.take(i), st0, ctx).1;
    lemma_grow_keeps_shadow(st_i, ctx, m);
}


/// The three slots that the rewrite of a bulk memory instruction takes, for
/// the destination, the second operand and the length, are distinct locals.
proof fn lemma_bulk_slots_distinct(st: AllocState)
    requires
        slots_apart(st),
        st.next + 3 <= u32::MAX,
    ensures
        ({
            let s = st.slots;
            let (dst, sa, n1, a1) = slot_local(s.addr, st.next, st.added, DataType::I32);
            let (arg1, s1, n2, a2) = slot_local(s.bulk_arg1, n1, a1, DataType::I32);
            let (len, s2, n3, a3) = slot_local(s.bulk_arg2, n2, a2, DataType::I32);
            dst != arg1 && dst != len && arg1 != len
        }),
{
    let s = st.slots;
    let l = slot_list(s);
    assert(l[0] == s.addr);
    assert(l[7] == s.bulk_arg1);
    assert(l[8] == s.bulk_arg2);
    assert(l[0] matches Some(x) ==> x < st.next);
    assert(l[7] matches Some(y) ==> y < st.next);
    assert(l[8] matches Some(z) ==> z < st.next);
    assert(l[0] matches Some(x) ==> (l[7] matches Some(y) ==> x != y));
    assert(l[0] matches Some(x) ==> (l[8] matches Some(z) ==> x != z));
    assert(l[7] matches Some(y) ==> (l[8] matches Some(z) ==> y != z));
}

/// `memory.fill`, `memory.copy` and `memory.init` within memory 0 are
/// mirrored on the shadow memory: run with the instructions injected around
/// them, on a state whose memory 1 equals memory 0, such an instruction
/// that does not trap on its own writes memory 0 as it does on its own,
/// leaves the stack as it does, and leaves memory 1 equal to memory 0.
#[verifier::rlimit(100)]
pub proof fn lemma_bulk_keeps_shadow(op: Operator, st: AllocState, ctx: OpContext, m: Machine)
    requires
        op == (Operator::MemoryFill { mem: 0 }) || op == (Operator::MemoryCopy { dst_mem: 0, src_mem: 0 })
            || (op matches Operator::MemoryInit { mem, .. } && mem == 0),
        slots_apart(st),
        st.next + 3 <= u32::MAX,
        m.mems.contains_key(0),
        m.mems.contains_key(1),
        m.mems[0] == m.mems[1],
    ensures
        ({
            let (before, after, _) = instrument_op_spec(op, st, ctx);
            run(m, seq![R3Instr::Op(op)]) matches Some(m1) ==> {
                &&& run(m, before + seq![R3Instr::Op(op)] + after) matches Some(m2)
                &&& m2.stack == m1.stack
                &&& m2.mems[0] == m1.mems[0]
                &&& m2.mems[1] == m2.mems[0]
            }
        }),
{
    let (before, after, _) = instrument_op_spec(op, st, ctx);
    let single = seq![R3Instr::Op(op)];
    if let Some(m1) = run(m, single) {
        let s = st.slots;
        let (dst, sa, n1, a1) = slot_local(s.addr, st.next, st.added, DataType::I32);
        let (arg1, s1, n2, a2) = slot_local(s.bulk_arg1, n1, a1, DataType::I32);
        let (len, s2, n3, a3) = slot_local(s.bulk_arg2, n2, a2, DataType::I32);
        lemma_bulk_slots_distinct(st);
        let mirrored = match op {
            Operator::MemoryCopy { .. } => Operator::MemoryCopy { dst_mem: 1, src_mem: 1 },
            Operator::MemoryInit { data_index, .. } => Operator::MemoryInit { data_index, mem: 1 },
            _ => Operator::MemoryFill { mem: 1 },
        };
        assert(before == seq![R3Instr::LocalSet(len), R3Instr::LocalSet(arg1), R3Instr::LocalTee(dst), R3Instr::LocalGet(arg1),
            R3Instr::LocalGet(len)]);
        assert(after == seq![R3Instr::LocalGet(dst), R3Instr::LocalGet(arg1), R3Instr::LocalGet(len), R3Instr::Op(mirrored)]);
        lemma_run_cons(m, single);
        assert(m1 == step(m, R3Instr::Op(op))->0);
        let all = before + single + after;
        assert(all == seq![R3Instr::LocalSet(len), R3Instr::LocalSet(arg1), R3Instr::LocalTee(dst), R3Instr::LocalGet(arg1),
            R3Instr::LocalGet(len), R3Instr::Op(op), R3Instr::LocalGet(dst), R3Instr::LocalGet(arg1), R3Instr::LocalGet(len),
            R3Instr::Op(mirrored)]);
        assert(forall|i: int| 0 <= i < all.len() ==> !(#[trigger] all[i] is If));
        lemma_run_steps(m, all);
        let n = m.stack.last();
        let y = m.stack[m.stack.len() - 2];
        let x = m.stack[m.stack.len() - 3];
        let base = m.stack.drop_last().drop_last().drop_last();
        assert(m.stack.len() >= 3);
        assert(m.stack =~= base.push(x).push(y).push(n));
        assert(m.stack.drop_last() =~= base.push(x).push(y));
        assert(base.push(x).push(y).drop_last() =~= base.push(x));
        assert(base.push(x).drop_last() =~= base);
        // local.set len; local.set arg1; local.tee dst
        let xa = Machine { stack: base.push(x).push(y), locals: m.locals.insert(len, n), ..m };
        lemma_steps_cons(m, all, xa);
        let s1 = all.drop_first();
        let xb = Machine { stack: base.push(x), locals: xa.locals.insert(arg1, y), ..m };
        lemma_steps_cons(xa, s1, xb);
        let s2 = s1.drop_first();
        let locs = xb.locals.insert(dst, x);
        let xc = Machine { locals: locs, ..xb };
        lemma_steps_cons(xb, s2, xc);
        let s3 = s2.drop_first();
        assert(locs[arg1] == y && locs[len] == n && locs[dst] == x);
        // local.get arg1; local.get len
        let xd = Machine { stack: base.push(x).push(y), ..xc };
        lemma_steps_cons(xc, s3, xd);
        let s4 = s3.drop_first();
        let xe = Machine { stack: m.stack, ..xc };
        lemma_steps_cons(xd, s4, xe);
        let s5 = s4.drop_first();
        // the instruction itself
        let xf = Machine { stack: base, locals: locs, mems: m1.mems, ..m };
        assert(m1.stack == base);
        lemma_steps_cons(xe, s5, xf);
        let s6 = s5.drop_first();
        // local.get dst; local.get arg1; local.get len
        let xg = Machine { stack: base.push(x), ..xf };
        lemma_steps_cons(xf, s6, xg);
        let s7 = s6.drop_first();
        let xh = Machine { stack: base.push(x).push(y), ..xf };
        lemma_steps_cons(xg, s7, xh);
        let s8 = s7.drop_first();
        let xi = Machine { stack: m.stack, ..xf };
        lemma_steps_cons(xh, s8, xi);
        let s9 = s8.drop_first();
        // the mirrored instruction on the shadow memory, whose bytes are
        // those memory 0 had before
        assert(xi.mems[1] == m.mems[0]);
        let xj = Machine { stack: base, mems: xf.mems.insert(1, m1.mems[0]), ..xf };
        lemma_steps_cons(xi, s9, xj);
        assert(s9.drop_first().len() == 0);
        assert(run(m, all) == Some(xj));
    }
}

/// Every `memory.fill`, `memory.copy` and `memory.init` within memory 0 of
/// an instrumented function is mirrored on the shadow memory: run with the
/// instructions injected around it, on a state whose memory 1 equals
/// memory 0, such an instruction that does not trap on its own writes
/// memory 0 and leaves the stack as it does on its own, and leaves memory 1
/// equal to memory 0.
pub proof fn lemma_function_bulk_keeps_shadow(f: R3LocalFunc, ctx: OpContext, i: int, m: Machine)
    requires
        f.num_params + f.num_locals + 12 <= u32::MAX,
        0 <= i < f.body@.len(),
        f.body@[i] == (Operator::MemoryFill { mem: 0 }) || f.body@[i] == (Operator::MemoryCopy { dst_mem: 0, src_mem: 0 })
            || (f.body@[i] matches Operator::MemoryInit { mem, .. } && mem == 0),
        m.mems.contains_key(0),
        m.mems.contains_key(1),
        m.mems[0] == m.mems[1],
    ensures
        ({
            let inj = rewrite_ops(f.body@, initial_alloc(&f), ctx).0;
            let op = f.body@[i];
            run(m, seq![R3Instr::Op(op)]) matches Some(m1) ==> {
                &&& run(m, inj[i].0 + seq![R3Instr::Op(op)] + inj[i].1) matches Some(m2)
                &&& m2.stack == m1.stack
                &&& m2.mems[0] == m1.mems[0]
                &&& m2.mems[1] == m2.mems[0]
            }
        }),
{
    let st0 = initial_alloc(&f);
    let ops = f.body@;
    assert(slots_apart(st0)) by {
        let l = slot_list(st0.slots);
        assert forall|k: int| 0 <= k < l.len() implies l[k] is None by {}
    }
    lemma_rewrite_ops_apart(ops, st0, ctx, i);
    lemma_rewrite_ops_at(ops, st0, ctx, i);
    let st_i = rewrite_ops(ops.take(i), st0, ctx).1;
    lemma_bulk_keeps_shadow(ops[i], st_i, ctx, m);
}


/// Every direct call of an original import in an instrumented function is
/// recorded first: right before it, the recorder is called with the index
/// of the called import, and nothing is injected after it. A direct call of
/// any other function gets nothing injected.
pub proof fn lemma_function_import_calls_recorded(f: R3LocalFunc, ctx: OpContext, i: int)
    requires
        0 <= i < f.body@.len(),
        f.body@[i] is Call,
    ensures
        ({
            let inj = rewrite_ops(f.body@, initial_alloc(&f), ctx).0;
            let callee = f.body@[i]->Call_function_index;
            &&& callee < ctx.num_orig_fn_imports ==> inj[i].0 == seq![R3Instr::I32Const(callee as i32), R3Instr::Call(ctx.record_import_call)]
            &&& callee >= ctx.num_orig_fn_imports ==> inj[i].0 == Seq::<R3Instr>::empty()
            &&& inj[i].1 == Seq::<R3Instr>::empty()
        }),
{
    lemma_rewrite_ops_at(f.body@, initial_alloc(&f), ctx, i);
}

} // verus!
