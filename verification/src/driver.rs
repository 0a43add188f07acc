//! The decisions of the replay driver: how each event of a trace moves the
//! driver's state and which call into the glue module it asks for. The
//! driver program around it reads the trace and makes the calls.
use vstd::prelude::*;

verus! {

/// Whether a lowering is performed for an import or an export.
#[derive(Debug, Copy, Clone, PartialEq, Eq, Structural)]
pub enum LoweringDirection {
    Import,
    Export,
}

impl LoweringDirection {
    /// The value passed to the glue module for the direction.
    pub fn code(&self) -> (r: i32)
        ensures
            r == (if *self is Import { 0i32 } else { 1i32 }),
    {
        match self {
            LoweringDirection::Import => 0,
            LoweringDirection::Export => 1,
        }
    }
}

/// The buffer descriptor that the glue module fills for the driver: the
/// addresses of the value bytes and of the value sizes in linear memory,
/// and their lengths (only set on the return of a wasm function).
#[derive(Debug, Copy, Clone, PartialEq, Eq, Structural)]
pub struct RRFuncArgValsFFI {
    pub bytes_ptr: u32,
    pub sizes_ptr: u32,
    pub bytes_len: u32,
    pub sizes_len: u32,
}

/// Function arguments or results as recorded: the little-endian bytes of
/// the values, one after another, and the size of each value.
pub struct FuncArgVals {
    pub bytes: Vec<u8>,
    pub sizes: Vec<u8>,
}

/// Two recorded value lists agree.
pub open spec fn same_vals(a: &FuncArgVals, b: &FuncArgVals) -> bool {
    a.bytes@ == b.bytes@ && a.sizes@ == b.sizes@
}

/// The little-endian bytes of a `u32`.
pub open spec fn le_u32(v: u32) -> Seq<u8> {
    seq![(v & 0xff) as u8, ((v >> 8) & 0xff) as u8, ((v >> 16) & 0xff) as u8, ((v >> 24) & 0xff) as u8]
}

fn le_bytes(v: u32) -> (r: Vec<u8>)
    ensures
        r@ == le_u32(v),
{
    let r = vec![(v & 0xff) as u8, ((v >> 8) & 0xff) as u8, ((v >> 16) & 0xff) as u8, ((v >> 24) & 0xff) as u8];
    assert(r@ =~= le_u32(v));
    r
}

/// The arguments of a resource drop: the resource index, a 4-byte value.
pub fn resource_drop_args(idx: u32) -> (r: FuncArgVals)
    ensures
        r.bytes@ == le_u32(idx),
        r.sizes@ == seq![4u8],
{
    let sizes = vec![4u8];
    assert(sizes@ =~= seq![4u8]);
    FuncArgVals { bytes: le_bytes(idx), sizes }
}

/// The result of a resource drop as passed back to the glue: a 5-byte
/// value, the little-endian index followed by 1 where there is one, or
/// five zero bytes where there is none.
pub fn resource_drop_result(ret: Option<u32>) -> (r: FuncArgVals)
    ensures
        r.bytes@ == (match ret {
            Some(v) => le_u32(v).push(1u8),
            None => seq![0u8, 0u8, 0u8, 0u8, 0u8],
        }),
        r.sizes@ == seq![5u8],
{
    let mut bytes = vec![0u8, 0u8, 0u8, 0u8, 0u8];
    match ret {
        Some(v) => {
            let le = le_bytes(v);
            bytes.set(0, le[0]);
            bytes.set(1, le[1]);
            bytes.set(2, le[2]);
            bytes.set(3, le[3]);
            bytes.set(4, 1u8);
            assert(bytes@ =~= le_u32(v).push(1u8));
        },
        None => {
            assert(bytes@ =~= seq![0u8, 0u8, 0u8, 0u8, 0u8]);
        },
    }
    let sizes = vec![5u8];
    assert(sizes@ =~= seq![5u8]);
    FuncArgVals { bytes, sizes }
}

/// Makes room in the shared buffer for `total_size` value bytes and
/// `num_elements` value sizes, zeroed, for the glue to fill; the lengths in
/// the descriptor are left for the glue to set.
pub fn allocate_args_results_buffer(backing: &mut FuncArgVals, total_size: u32, num_elements: u32) -> (r: (u32, u32))
    ensures
        final(backing).bytes@ == Seq::new(total_size as nat, |_i: int| 0u8),
        final(backing).sizes@ == Seq::new(num_elements as nat, |_i: int| 0u8),
        r == (0u32, 0u32),
{
    backing.bytes = Vec::new();
    for i in 0..total_size
        invariant
            backing.bytes@ == Seq::new(i as nat, |_i: int| 0u8),
    {
        backing.bytes.push(0u8);
    }
    backing.sizes = Vec::new();
    for j in 0..num_elements
        invariant
            backing.bytes@ == Seq::new(total_size as nat, |_i: int| 0u8),
            backing.sizes@ == Seq::new(j as nat, |_i: int| 0u8),
    {
        backing.sizes.push(0u8);
    }
    (0, 0)
}

/// The state of the driver, which tells the context of an event.
#[derive(Debug, Copy, Clone, PartialEq, Eq, Structural)]
pub enum DriverState {
    /// In the host, outside any call from wasm.
    Root,
    /// Setting up the lowerings of a call to export `export_index`.
    WasmCallLoweringSetup { export_index: u32 },
    /// Replaying the lowerings and results of a call to host import `import_index`.
    HostCall { import_index: u32 },
    /// Replaying the results of a call to builtin import `import_index`.
    BuiltinCall { import_index: u32 },
}

/// Why the replay stops.
#[derive(Debug, Copy, Clone, PartialEq, Eq, Structural)]
pub enum DriverError {
    /// The event cannot occur in the current state.
    InvalidState,
    /// The event cannot occur in this part of the replay.
    InvalidEvent,
    /// The trace records an error where the replay expects a value.
    EventError,
    /// A second instantiation.
    MultipleInstantiations,
    /// The checksum of the trace is not that of the component.
    ChecksumMismatch,
    /// A recorded value differs from the replayed one.
    ValidationFailed,
    /// A realloc returns without a pending call.
    NoPendingRealloc,
    /// A post-return for a function that was not called.
    UnknownPostReturn,
    /// A builtin that cannot be replayed yet.
    UnsupportedBuiltin,
    /// A core wasm function entry, which a component trace never holds.
    CoreWasmFuncEntry,
    /// The trace ends inside a host or builtin call.
    MissingReturn,
    /// The call is entered while realloc results are still pending.
    PendingRealloc,
}

/// A builtin entry event.
pub enum BuiltinEntryEvent {
    ResourceDrop { idx: u32 },
    Other,
}

/// A builtin return event; `failed` where the trace records an error.
pub enum BuiltinReturnEvent {
    ResourceDrop { failed: bool, ret: Option<u32> },
    Other,
}

/// An event of a replay trace, with what the driver reads of it. A value
/// that the trace may record as an error is an `Option`, `None` for the error.
pub enum ReplayEvent {
    ComponentInstantiation { checksum: [u8; 32] },
    CoreWasmInstantiation { checksum: [u8; 32] },
    ComponentWasmFuncBegin { func_index: u32 },
    ComponentWasmFuncEntry { args: FuncArgVals },
    ComponentPostReturn { func_index: u32 },
    WasmFuncReturn { ret: Option<FuncArgVals> },
    CoreWasmFuncEntry,
    LowerFlatEntry,
    LowerMemoryEntry,
    LowerFlatReturn { ok: bool },
    LowerMemoryReturn { ok: bool },
    ReallocEntry { old_addr: u32, old_size: u32, old_align: u32, new_size: u32 },
    ReallocReturn { ret: Option<u32> },
    MemorySliceWrite { offset: u32, bytes: Vec<u8> },
    HostFuncEntry { args: FuncArgVals },
    HostFuncReturn { args: FuncArgVals },
    BuiltinEntry(BuiltinEntryEvent),
    BuiltinReturn(BuiltinReturnEvent),
    /// Any other event.
    Other,
}

/// A call into the glue module that an event asks for.
#[derive(Debug, Copy, Clone, PartialEq, Eq, Structural)]
pub enum GlueCall {
    /// Nothing to call.
    Nothing,
    /// Lower the recorded arguments into the core function of export
    /// `export_index`; the glue writes the results into the shared buffer.
    CoreFunc { export_index: u32 },
    /// Call the post-return of export `export_index` with its saved results.
    PostReturn { export_index: u32 },
    /// Call the realloc of the lowering; its result is pushed for the realloc return.
    Realloc { direction: LoweringDirection, index: u32, old_addr: u32, old_size: u32, old_align: u32, new_size: u32 },
    /// Write the recorded bytes at `offset` in the memory of the lowering.
    MemoryWrite { direction: LoweringDirection, index: u32, offset: u32 },
}

/// The lowering an event belongs to in a state: the export of the call being
/// set up, or the import of the host call.
pub open spec fn lowering_of(state: DriverState) -> Option<(LoweringDirection, u32)> {
    match state {
        DriverState::WasmCallLoweringSetup { export_index } => Some((LoweringDirection::Export, export_index)),
        DriverState::HostCall { import_index } => Some((LoweringDirection::Import, import_index)),
        _ => None,
    }
}

fn lowering(state: DriverState) -> (r: Option<(LoweringDirection, u32)>)
    ensures
        r == lowering_of(state),
{
    match state {
        DriverState::WasmCallLoweringSetup { export_index } => Some((LoweringDirection::Export, export_index)),
        DriverState::HostCall { import_index } => Some((LoweringDirection::Import, import_index)),
        _ => None,
    }
}

fn same_bytes(a: &Vec<u8>, b: &Vec<u8>) -> (r: bool)
    ensures
        r == (a@ == b@),
{
    if a.len() != b.len() {
        return false;
    }
    for i in 0..a.len()
        invariant
            a@.len() == b@.len(),
            forall|j: int| 0 <= j < i ==> a@[j] == b@[j],
    {
        if a[i] != b[i] {
            return false;
        }
    }
    assert(a@ =~= b@);
    true
}

/// Whether two recorded value lists agree.
pub fn vals_agree(a: &FuncArgVals, b: &FuncArgVals) -> (r: bool)
    ensures
        r == same_vals(a, b),
{
    same_bytes(&a.bytes, &b.bytes) && same_bytes(&a.sizes, &b.sizes)
}

fn clone_vals(a: &FuncArgVals) -> (r: FuncArgVals)
    ensures
        same_vals(&r, a),
{
    FuncArgVals { bytes: a.bytes.clone(), sizes: a.sizes.clone() }
}

fn same_checksum(a: &[u8; 32], b: &[u8; 32]) -> (r: bool)
    ensures
        r == (a@ == b@),
{
    for i in 0..32
        invariant
            a@.len() == 32,
            b@.len() == 32,
            forall|j: int| 0 <= j < i ==> a@[j] == b@[j],
    {
        if a[i] != b[i] {
            return false;
        }
    }
    assert(a@ =~= b@);
    true
}

/// The driver: its state, whether the component was instantiated, the
/// checksum of the component, the results of called exports saved for their
/// post-return, the pending realloc results of the current lowering, and
/// the buffer shared with the glue.
pub struct Driver {
    pub state: DriverState,
    pub instantiated: bool,
    pub expected_checksum: [u8; 32],
    pub post_return_args: Vec<(u32, FuncArgVals)>,
    pub realloc_stack: Vec<u32>,
    pub backing: FuncArgVals,
}

/// The saved results of export `e`, the last saved.
pub open spec fn saved_for(saved: Seq<(u32, FuncArgVals)>, e: u32) -> Option<int> {
    if exists|i: int| 0 <= i < saved.len() && (#[trigger] saved[i]).0 == e {
        Some(choose|i: int| 0 <= i < saved.len() && (#[trigger] saved[i]).0 == e)
    } else {
        None
    }
}

/// Each export has results saved at most once.
pub open spec fn saved_unique(saved: Seq<(u32, FuncArgVals)>) -> bool {
    forall|i: int, j: int| 0 <= i < j < saved.len() ==> (#[trigger] saved[i]).0 != (#[trigger] saved[j]).0
}

/// A post-return consumes what the call of its export saved: once those
/// results are taken, none are left for that export (a second post-return is
/// refused), and the other exports keep theirs.
pub proof fn lemma_post_return_consumes(saved: Seq<(u32, FuncArgVals)>, e: u32)
    requires
        saved_unique(saved),
        saved_for(saved, e) is Some,
    ensures
        ({
            let rest = saved.remove(saved_for(saved, e)->0);
            &&& saved_unique(rest)
            &&& saved_for(rest, e) is None
            &&& forall|f: u32| f != e ==> (#[trigger] saved_for(rest, f) is Some <==> saved_for(saved, f) is Some)
        }),
{
    let i = saved_for(saved, e)->0;
    let rest = saved.remove(i);
    assert forall|a: int, b: int| 0 <= a < b < rest.len() implies (#[trigger] rest[a]).0 != (#[trigger] rest[b]).0 by {
        let a0 = if a < i { a } else { a + 1 };
        let b0 = if b < i { b } else { b + 1 };
        assert(rest[a] == saved[a0]);
        assert(rest[b] == saved[b0]);
        assert(saved[a0].0 != saved[b0].0);
    }
    if saved_for(rest, e) is Some {
        let j = choose|j: int| 0 <= j < rest.len() && (#[trigger] rest[j]).0 == e;
        let j0 = if j < i { j } else { j + 1 };
        assert(rest[j] == saved[j0]);
        if j0 < i {
            assert(saved[j0].0 != saved[i].0);
        } else {
            assert(saved[i].0 != saved[j0].0);
        }
    }
    assert forall|f: u32| f != e implies (#[trigger] saved_for(rest, f) is Some <==> saved_for(saved, f) is Some) by {
        if saved_for(saved, f) is Some {
            let j = choose|j: int| 0 <= j < saved.len() && (#[trigger] saved[j]).0 == f;
            assert(j != i);
            let j1 = if j < i { j } else { j - 1 };
            assert(rest[j1] == saved[j]);
        }
        if saved_for(rest, f) is Some {
            let j = choose|j: int| 0 <= j < rest.len() && (#[trigger] rest[j]).0 == f;
            let j0 = if j < i { j } else { j + 1 };
            assert(rest[j] == saved[j0]);
        }
    }
}

fn find_saved(saved: &Vec<(u32, FuncArgVals)>, e: u32) -> (r: Option<usize>)
    requires
        saved_unique(saved@),
    ensures
        match r {
            Some(i) => saved_for(saved@, e) == Some(i as int) && (i as int) < saved@.len(),
            None => saved_for(saved@, e) is None,
        },
{
    let n = saved.len();
    for i in 0..n
        invariant
            n == saved@.len(),
            saved_unique(saved@),
            forall|j: int| 0 <= j < i ==> (#[trigger] saved@[j]).0 != e,
    {
        if saved[i].0 == e {
            proof {
                let c = choose|c: int| 0 <= c < saved@.len() && (#[trigger] saved@[c]).0 == e;
                if c < i {
                    assert(saved@[c].0 != e);
                } else if c > i {
                    assert(saved@[i as int].0 != saved@[c].0);
                }
            }
            return Some(i);
        }
    }
    None
}

impl Driver {
    /// A driver at the root of the replay of the component with the given checksum.
    pub fn new(expected_checksum: [u8; 32]) -> (d: Driver)
        ensures
            d.state == DriverState::Root,
            !d.instantiated,
            d.expected_checksum == expected_checksum,
            d.post_return_args@.len() == 0,
            d.realloc_stack@.len() == 0,
            d.backing.bytes@.len() == 0,
            d.backing.sizes@.len() == 0,
    {
        Driver {
            state: DriverState::Root,
            instantiated: false,
            expected_checksum,
            post_return_args: Vec::new(),
            realloc_stack: Vec::new(),
            backing: FuncArgVals { bytes: Vec::new(), sizes: Vec::new() },
        }
    }

    /// The driver's invariant: results are saved once per export.
    pub open spec fn wf(&self) -> bool {
        saved_unique(self.post_return_args@)
    }

    /// Records the instantiation of the component, checking its checksum.
    fn instantiate(&mut self, checksum: &[u8; 32]) -> (r: Result<(), DriverError>)
        ensures
            r == (if old(self).state != DriverState::Root {
                Err::<(), DriverError>(DriverError::InvalidState)
            } else if old(self).instantiated {
                Err(DriverError::MultipleInstantiations)
            } else if checksum@ != old(self).expected_checksum@ {
                Err(DriverError::ChecksumMismatch)
            } else {
                Ok(())
            }),
            final(self).instantiated == (old(self).instantiated || r is Ok),
            final(self).state == old(self).state,
            final(self).expected_checksum == old(self).expected_checksum,
            final(self).post_return_args == old(self).post_return_args,
            final(self).realloc_stack == old(self).realloc_stack,
            final(self).backing == old(self).backing,
    {
        if self.state != DriverState::Root {
            return Err(DriverError::InvalidState);
        }
        if self.instantiated {
            return Err(DriverError::MultipleInstantiations);
        }
        if !same_checksum(checksum, &self.expected_checksum) {
            return Err(DriverError::ChecksumMismatch);
        }
        self.instantiated = true;
        Ok(())
    }

    /// Checks a realloc return against the result of the last pending realloc.
    fn realloc_return(state: DriverState, ret: Option<u32>, stack: &mut Vec<u32>) -> (r: Result<(), DriverError>)
        ensures
            r == (if lowering_of(state) is None {
                Err::<(), DriverError>(DriverError::InvalidState)
            } else if ret is None {
                Err(DriverError::EventError)
            } else if old(stack)@.len() == 0 {
                Err(DriverError::NoPendingRealloc)
            } else if old(stack)@.last() != ret->0 {
                Err(DriverError::ValidationFailed)
            } else {
                Ok(())
            }),
            (lowering_of(state) is Some && ret is Some && old(stack)@.len() > 0) ==> final(stack)@ == old(stack)@.drop_last(),
            !(lowering_of(state) is Some && ret is Some && old(stack)@.len() > 0) ==> final(stack)@ == old(stack)@,
    {
        if lowering(state).is_none() {
            return Err(DriverError::InvalidState);
        }
        let expected = match ret {
            Some(v) => v,
            None => {
                return Err(DriverError::EventError);
            },
        };
        match stack.pop() {
            Some(top) => {
                if top != expected {
                    Err(DriverError::ValidationFailed)
                } else {
                    Ok(())
                }
            },
            None => Err(DriverError::NoPendingRealloc),
        }
    }

    /// Handles an event of a lowering (realloc, memory write, lowering
    /// boundaries), shared by the main loop and host calls.
    fn lowering_event(state: DriverState, ev: &ReplayEvent, stack: &mut Vec<u32>) -> (r: Result<GlueCall, DriverError>)
        requires
            ev is LowerFlatEntry || ev is LowerMemoryEntry || ev is LowerFlatReturn || ev is LowerMemoryReturn
                || ev is ReallocEntry || ev is ReallocReturn || ev is MemorySliceWrite,
        ensures
            match *ev {
                ReplayEvent::LowerFlatEntry | ReplayEvent::LowerMemoryEntry => r == Ok::<GlueCall, DriverError>(GlueCall::Nothing)
                    && final(stack)@ == old(stack)@,
                ReplayEvent::LowerFlatReturn { ok } | ReplayEvent::LowerMemoryReturn { ok } => final(stack)@ == old(stack)@
                    && r == (if lowering_of(state) is None {
                        Err::<GlueCall, DriverError>(DriverError::InvalidState)
                    } else if !ok {
                        Err(DriverError::EventError)
                    } else {
                        Ok(GlueCall::Nothing)
                    }),
                ReplayEvent::ReallocEntry { old_addr, old_size, old_align, new_size } => final(stack)@ == old(stack)@
                    && r == (match lowering_of(state) {
                        None => Err::<GlueCall, DriverError>(DriverError::InvalidState),
                        Some((direction, index)) => Ok(GlueCall::Realloc { direction, index, old_addr, old_size, old_align, new_size }),
                    }),
                ReplayEvent::ReallocReturn { ret } => {
                    &&& r == (if lowering_of(state) is None {
                        Err::<GlueCall, DriverError>(DriverError::InvalidState)
                    } else if ret is None {
                        Err(DriverError::EventError)
                    } else if old(stack)@.len() == 0 {
                        Err(DriverError::NoPendingRealloc)
                    } else if old(stack)@.last() != ret->0 {
                        Err(DriverError::ValidationFailed)
                    } else {
                        Ok(GlueCall::Nothing)
                    })
                    &&& (lowering_of(state) is Some && ret is Some && old(stack)@.len() > 0) ==> final(stack)@ == old(stack)@.drop_last()
                    &&& !(lowering_of(state) is Some && ret is Some && old(stack)@.len() > 0) ==> final(stack)@ == old(stack)@
                },
                ReplayEvent::MemorySliceWrite { offset, .. } => final(stack)@ == old(stack)@
                    && r == (match lowering_of(state) {
                        None => Err::<GlueCall, DriverError>(DriverError::InvalidState),
                        Some((direction, index)) => Ok(GlueCall::MemoryWrite { direction, index, offset }),
                    }),
                _ => false,
            },
    {
        match ev {
            ReplayEvent::LowerFlatEntry | ReplayEvent::LowerMemoryEntry => Ok(GlueCall::Nothing),
            ReplayEvent::LowerFlatReturn { ok } | ReplayEvent::LowerMemoryReturn { ok } => {
                if lowering(state).is_none() {
                    Err(DriverError::InvalidState)
                } else if !*ok {
                    Err(DriverError::EventError)
                } else {
                    Ok(GlueCall::Nothing)
                }
            },
            ReplayEvent::ReallocEntry { old_addr, old_size, old_align, new_size } => {
                match lowering(state) {
                    None => Err(DriverError::InvalidState),
                    Some((direction, index)) => Ok(GlueCall::Realloc {
                        direction,
                        index,
                        old_addr: *old_addr,
                        old_size: *old_size,
                        old_align: *old_align,
                        new_size: *new_size,
                    }),
                }
            },
            ReplayEvent::ReallocReturn { ret } => {
                match Self::realloc_return(state, *ret, stack) {
                    Ok(()) => Ok(GlueCall::Nothing),
                    Err(e) => Err(e),
                }
            },
            ReplayEvent::MemorySliceWrite { offset, .. } => {
                match lowering(state) {
                    None => Err(DriverError::InvalidState),
                    Some((direction, index)) => Ok(GlueCall::MemoryWrite { direction, index, offset: *offset }),
                }
            },
            _ => Err(DriverError::InvalidEvent),
        }
    }
}

/// What a host or builtin call does next: ask the glue for a call, or
/// return to the glue with the results in the shared buffer.
#[derive(Debug, Copy, Clone, PartialEq, Eq, Structural)]
pub enum CallStep {
    Continue(GlueCall),
    Return,
}

impl Driver {
    /// Handles an event of the main loop of the replay. For a call to an
    /// export, `CoreFunc` asks the glue to run it; the driver is told the
    /// results with `finish_wasm_call`. For a post-return, the saved results
    /// of the export are handed back with the call.
    pub fn top_event(&mut self, ev: &ReplayEvent) -> (r: Result<(GlueCall, Option<FuncArgVals>), DriverError>)
        requires
            old(self).wf(),
        ensures
            final(self).wf(),
            final(self).expected_checksum == old(self).expected_checksum,
            match *ev {
                ReplayEvent::ComponentInstantiation { checksum } | ReplayEvent::CoreWasmInstantiation { checksum } => {
                    &&& r is Ok <==> (old(self).state == DriverState::Root && !old(self).instantiated
                        && checksum@ == old(self).expected_checksum@)
                    &&& r is Err ==> r->Err_0 == (if old(self).state != DriverState::Root {
                        DriverError::InvalidState
                    } else if old(self).instantiated {
                        DriverError::MultipleInstantiations
                    } else {
                        DriverError::ChecksumMismatch
                    })
                    &&& r is Ok ==> r->Ok_0.0 == GlueCall::Nothing && final(self).instantiated && final(self).state == old(self).state
                },
                ReplayEvent::ComponentWasmFuncBegin { func_index } => {
                    &&& r is Ok <==> old(self).state == DriverState::Root
                    &&& r is Err ==> r->Err_0 == DriverError::InvalidState
                    &&& r is Ok ==> r->Ok_0.0 == GlueCall::Nothing
                        && final(self).state == (DriverState::WasmCallLoweringSetup { export_index: func_index })
                },
                ReplayEvent::ComponentWasmFuncEntry { .. } => {
                    &&& r is Ok <==> old(self).state is WasmCallLoweringSetup
                    &&& r is Err ==> r->Err_0 == DriverError::InvalidState
                    &&& r is Ok ==> r->Ok_0.0 == (GlueCall::CoreFunc { export_index: old(self).state->export_index })
                        && final(self).state == old(self).state
                },
                ReplayEvent::ComponentPostReturn { func_index } => {
                    &&& r is Ok <==> saved_for(old(self).post_return_args@, func_index) is Some && old(self).state == DriverState::Root
                    &&& r is Err ==> r->Err_0 == (if saved_for(old(self).post_return_args@, func_index) is None {
                        DriverError::UnknownPostReturn
                    } else {
                        DriverError::InvalidState
                    })
                    &&& r is Ok ==> {
                        let i = saved_for(old(self).post_return_args@, func_index)->0;
                        &&& r->Ok_0.0 == (GlueCall::PostReturn { export_index: func_index })
                        &&& r->Ok_0.1 matches Some(a) && same_vals(&a, &old(self).post_return_args@[i].1)
                        &&& final(self).post_return_args@ == old(self).post_return_args@.remove(i)
                    }
                },
                ReplayEvent::WasmFuncReturn { ret } => {
                    &&& r is Ok <==> old(self).state == DriverState::Root && ret is Some && same_vals(&ret->0, &old(self).backing)
                    &&& r is Err ==> r->Err_0 == (if old(self).state != DriverState::Root {
                        DriverError::InvalidState
                    } else if ret is None {
                        DriverError::EventError
                    } else {
                        DriverError::ValidationFailed
                    })
                    &&& r is Ok ==> r->Ok_0.0 == GlueCall::Nothing
                },
                ReplayEvent::CoreWasmFuncEntry => r == Err::<(GlueCall, Option<FuncArgVals>), DriverError>(DriverError::CoreWasmFuncEntry),
                ReplayEvent::LowerFlatEntry | ReplayEvent::LowerMemoryEntry | ReplayEvent::LowerFlatReturn { .. }
                    | ReplayEvent::LowerMemoryReturn { .. } | ReplayEvent::ReallocEntry { .. } | ReplayEvent::ReallocReturn { .. }
                    | ReplayEvent::MemorySliceWrite { .. } => {
                    let lowered = ReplayEvent::lowering_result(old(self).state, *ev, old(self).realloc_stack@);
                    &&& (r is Ok <==> lowered.0 is Ok)
                    &&& r is Ok ==> r->Ok_0.0 == lowered.0->Ok_0 && r->Ok_0.1 is None
                    &&& r is Err ==> r->Err_0 == lowered.0->Err_0
                    &&& final(self).realloc_stack@ == lowered.1
                    &&& final(self).state == old(self).state
                },
                _ => r == Err::<(GlueCall, Option<FuncArgVals>), DriverError>(DriverError::InvalidEvent),
            },
    {
        match ev {
            ReplayEvent::ComponentInstantiation { checksum } | ReplayEvent::CoreWasmInstantiation { checksum } => {
                match self.instantiate(checksum) {
                    Ok(()) => Ok((GlueCall::Nothing, None)),
                    Err(e) => Err(e),
                }
            },
            ReplayEvent::ComponentWasmFuncBegin { func_index } => {
                if self.state != DriverState::Root {
                    return Err(DriverError::InvalidState);
                }
                self.state = DriverState::WasmCallLoweringSetup { export_index: *func_index };
                Ok((GlueCall::Nothing, None))
            },
            ReplayEvent::ComponentWasmFuncEntry { .. } => {
                match self.state {
                    DriverState::WasmCallLoweringSetup { export_index } => Ok((GlueCall::CoreFunc { export_index }, None)),
                    _ => Err(DriverError::InvalidState),
                }
            },
            ReplayEvent::ComponentPostReturn { func_index } => {
                let found = find_saved(&self.post_return_args, *func_index);
                match found {
                    None => Err(DriverError::UnknownPostReturn),
                    Some(i) => {
                        if self.state != DriverState::Root {
                            return Err(DriverError::InvalidState);
                        }
                        let ghost before = self.post_return_args@;
                        let (_, args) = self.post_return_args.remove(i);
                        proof {
                            assert forall|a: int, b: int| 0 <= a < b < self.post_return_args@.len() implies
                                (#[trigger] self.post_return_args@[a]).0 != (#[trigger] self.post_return_args@[b]).0 by {
                                if a < i {
                                    if b < i {
                                        assert(before[a].0 != before[b].0);
                                    } else {
                                        assert(before[a].0 != before[b + 1].0);
                                    }
                                } else {
                                    assert(before[a + 1].0 != before[b + 1].0);
                                }
                            }
                        }
                        Ok((GlueCall::PostReturn { export_index: *func_index }, Some(args)))
                    },
                }
            },
            ReplayEvent::WasmFuncReturn { ret } => {
                if self.state != DriverState::Root {
                    return Err(DriverError::InvalidState);
                }
                match ret {
                    None => Err(DriverError::EventError),
                    Some(a) => {
                        if vals_agree(a, &self.backing) {
                            Ok((GlueCall::Nothing, None))
                        } else {
                            Err(DriverError::ValidationFailed)
                        }
                    },
                }
            },
            ReplayEvent::CoreWasmFuncEntry => Err(DriverError::CoreWasmFuncEntry),
            ReplayEvent::LowerFlatEntry | ReplayEvent::LowerMemoryEntry | ReplayEvent::LowerFlatReturn { .. }
                | ReplayEvent::LowerMemoryReturn { .. } | ReplayEvent::ReallocEntry { .. } | ReplayEvent::ReallocReturn { .. }
                | ReplayEvent::MemorySliceWrite { .. } => {
                let state = self.state;
                match Self::lowering_event(state, ev, &mut self.realloc_stack) {
                    Ok(c) => Ok((c, None)),
                    Err(e) => Err(e),
                }
            },
            _ => Err(DriverError::InvalidEvent),
        }
    }

    /// Saves the results of a call to export `export_index` for its
    /// post-return, replacing earlier ones, and returns to the root.
    pub fn finish_wasm_call(&mut self, export_index: u32, results: FuncArgVals)
        requires
            old(self).wf(),
        ensures
            final(self).wf(),
            final(self).state == DriverState::Root,
            final(self).expected_checksum == old(self).expected_checksum,
            final(self).instantiated == old(self).instantiated,
            saved_for(final(self).post_return_args@, export_index) matches Some(i)
                && same_vals(&final(self).post_return_args@[i].1, &results),
            forall|e: u32| e != export_index ==> (#[trigger] saved_for(final(self).post_return_args@, e) is Some
                <==> saved_for(old(self).post_return_args@, e) is Some),
    {
        let ghost res = results;
        let found = find_saved(&self.post_return_args, export_index);
        let ghost before = self.post_return_args@;
        match found {
            Some(i) => {
                self.post_return_args.set(i, (export_index, results));
                proof {
                    assert forall|a: int, b: int| 0 <= a < b < self.post_return_args@.len() implies
                        (#[trigger] self.post_return_args@[a]).0 != (#[trigger] self.post_return_args@[b]).0 by {
                        assert(before[a].0 != before[b].0);
                    }
                    assert(self.post_return_args@[i as int].0 == export_index);
                    assert forall|e: u32| e != export_index implies (#[trigger] saved_for(self.post_return_args@, e) is Some
                        <==> saved_for(before, e) is Some) by {
                        if saved_for(before, e) is Some {
                            let j = choose|j: int| 0 <= j < before.len() && (#[trigger] before[j]).0 == e;
                            assert(self.post_return_args@[j].0 == e);
                        }
                        if saved_for(self.post_return_args@, e) is Some {
                            let j = choose|j: int| 0 <= j < self.post_return_args@.len() && (#[trigger] self.post_return_args@[j]).0 == e;
                            assert(j != i);
                            assert(before[j].0 == e);
                        }
                    }
                    let c = choose|c: int| 0 <= c < self.post_return_args@.len() && (#[trigger] self.post_return_args@[c]).0 == export_index;
                    if c != i {
                        if c < i {
                            assert(self.post_return_args@[c].0 != self.post_return_args@[i as int].0);
                        } else {
                            assert(self.post_return_args@[i as int].0 != self.post_return_args@[c].0);
                        }
                    }
                }
            },
            None => {
                self.post_return_args.push((export_index, results));
                proof {
                    let n = before.len();
                    assert forall|a: int, b: int| 0 <= a < b < self.post_return_args@.len() implies
                        (#[trigger] self.post_return_args@[a]).0 != (#[trigger] self.post_return_args@[b]).0 by {
                        if b < n {
                            assert(before[a].0 != before[b].0);
                        } else {
                            assert(before[a].0 != export_index);
                        }
                    }
                    assert(self.post_return_args@[n as int].0 == export_index);
                    assert forall|e: u32| e != export_index implies (#[trigger] saved_for(self.post_return_args@, e) is Some
                        <==> saved_for(before, e) is Some) by {
                        if saved_for(before, e) is Some {
                            let j = choose|j: int| 0 <= j < before.len() && (#[trigger] before[j]).0 == e;
                            assert(self.post_return_args@[j].0 == e);
                        }
                        if saved_for(self.post_return_args@, e) is Some {
                            let j = choose|j: int| 0 <= j < self.post_return_args@.len() && (#[trigger] self.post_return_args@[j]).0 == e;
                            assert(j != n);
                            assert(before[j].0 == e);
                        }
                    }
                    let c = choose|c: int| 0 <= c < self.post_return_args@.len() && (#[trigger] self.post_return_args@[c]).0 == export_index;
                    if c != n {
                        assert(before[c].0 != export_index);
                    }
                }
            },
        }
        self.state = DriverState::Root;
    }
}

impl ReplayEvent {
    /// The result of a lowering event in a state, and the pending reallocs after it.
    pub open spec fn lowering_result(state: DriverState, ev: ReplayEvent, stack: Seq<u32>) -> (Result<GlueCall, DriverError>, Seq<u32>) {
        match ev {
            ReplayEvent::LowerFlatEntry | ReplayEvent::LowerMemoryEntry => (Ok(GlueCall::Nothing), stack),
            ReplayEvent::LowerFlatReturn { ok } | ReplayEvent::LowerMemoryReturn { ok } => (
                if lowering_of(state) is None {
                    Err(DriverError::InvalidState)
                } else if !ok {
                    Err(DriverError::EventError)
                } else {
                    Ok(GlueCall::Nothing)
                },
                stack,
            ),
            ReplayEvent::ReallocEntry { old_addr, old_size, old_align, new_size } => (
                match lowering_of(state) {
                    None => Err(DriverError::InvalidState),
                    Some((direction, index)) => Ok(GlueCall::Realloc { direction, index, old_addr, old_size, old_align, new_size }),
                },
                stack,
            ),
            ReplayEvent::ReallocReturn { ret } => (
                if lowering_of(state) is None {
                    Err(DriverError::InvalidState)
                } else if ret is None {
                    Err(DriverError::EventError)
                } else if stack.len() == 0 {
                    Err(DriverError::NoPendingRealloc)
                } else if stack.last() != ret->0 {
                    Err(DriverError::ValidationFailed)
                } else {
                    Ok(GlueCall::Nothing)
                },
                if lowering_of(state) is Some && ret is Some && stack.len() > 0 { stack.drop_last() } else { stack },
            ),
            ReplayEvent::MemorySliceWrite { offset, .. } => (
                match lowering_of(state) {
                    None => Err(DriverError::InvalidState),
                    Some((direction, index)) => Ok(GlueCall::MemoryWrite { direction, index, offset }),
                },
                stack,
            ),
            _ => (Err(DriverError::InvalidEvent), stack),
        }
    }
}

impl Driver {
    /// Enters a host or builtin call: the state of the call, and the
    /// arguments the glue wrote, of the given lengths, in the shared buffer.
    pub fn begin_call(&mut self, state: DriverState, bytes_len: u32, sizes_len: u32)
        requires
            bytes_len <= old(self).backing.bytes@.len(),
            sizes_len <= old(self).backing.sizes@.len(),
        ensures
            final(self).state == state,
            final(self).backing.bytes@ == old(self).backing.bytes@.take(bytes_len as int),
            final(self).backing.sizes@ == old(self).backing.sizes@.take(sizes_len as int),
            final(self).post_return_args == old(self).post_return_args,
            final(self).realloc_stack == old(self).realloc_stack,
            final(self).instantiated == old(self).instantiated,
            final(self).expected_checksum == old(self).expected_checksum,
    {
        self.backing.bytes.truncate(bytes_len as usize);
        self.backing.sizes.truncate(sizes_len as usize);
        self.state = state;
    }

    /// Handles an event of the replay of a host call, with the pending
    /// reallocs of its lowering: the arguments are checked on entry and the
    /// results are put in the shared buffer on return.
    pub fn host_event(&mut self, stack: &mut Vec<u32>, ev: &ReplayEvent) -> (r: Result<CallStep, DriverError>)
        ensures
            final(self).post_return_args == old(self).post_return_args,
            final(self).expected_checksum == old(self).expected_checksum,
            final(self).state == old(self).state,
            match *ev {
                ReplayEvent::HostFuncEntry { args } => {
                    &&& r == (if !(old(self).state is HostCall) {
                        Err::<CallStep, DriverError>(DriverError::InvalidState)
                    } else if !same_vals(&args, &old(self).backing) {
                        Err(DriverError::ValidationFailed)
                    } else {
                        Ok(CallStep::Continue(GlueCall::Nothing))
                    })
                    &&& final(stack)@ == old(stack)@
                },
                ReplayEvent::HostFuncReturn { args } => {
                    &&& r == (if !(old(self).state is HostCall) {
                        Err::<CallStep, DriverError>(DriverError::InvalidState)
                    } else {
                        Ok(CallStep::Return)
                    })
                    &&& r is Ok ==> same_vals(&final(self).backing, &args)
                    &&& final(stack)@ == old(stack)@
                },
                ReplayEvent::LowerFlatEntry | ReplayEvent::LowerMemoryEntry | ReplayEvent::LowerFlatReturn { .. }
                    | ReplayEvent::LowerMemoryReturn { .. } | ReplayEvent::ReallocEntry { .. } | ReplayEvent::ReallocReturn { .. }
                    | ReplayEvent::MemorySliceWrite { .. } => {
                    let lowered = ReplayEvent::lowering_result(old(self).state, *ev, old(stack)@);
                    &&& (r is Ok <==> lowered.0 is Ok)
                    &&& r is Ok ==> r->Ok_0 == CallStep::Continue(lowered.0->Ok_0)
                    &&& r is Err ==> r->Err_0 == lowered.0->Err_0
                    &&& final(stack)@ == lowered.1
                },
                ReplayEvent::WasmFuncReturn { ret } => {
                    &&& r == (if old(self).state != DriverState::Root {
                        Err::<CallStep, DriverError>(DriverError::InvalidState)
                    } else if ret is None {
                        Err(DriverError::EventError)
                    } else if !same_vals(&ret->0, &old(self).backing) {
                        Err(DriverError::ValidationFailed)
                    } else {
                        Ok(CallStep::Continue(GlueCall::Nothing))
                    })
                    &&& final(stack)@ == old(stack)@
                },
                ReplayEvent::CoreWasmFuncEntry => r == Err::<CallStep, DriverError>(DriverError::CoreWasmFuncEntry),
                _ => r == Err::<CallStep, DriverError>(DriverError::InvalidEvent),
            },
    {
        match ev {
            ReplayEvent::HostFuncEntry { args } => {
                if !matches!(self.state, DriverState::HostCall { .. }) {
                    return Err(DriverError::InvalidState);
                }
                if !vals_agree(args, &self.backing) {
                    return Err(DriverError::ValidationFailed);
                }
                Ok(CallStep::Continue(GlueCall::Nothing))
            },
            ReplayEvent::HostFuncReturn { args } => {
                if !matches!(self.state, DriverState::HostCall { .. }) {
                    return Err(DriverError::InvalidState);
                }
                self.backing = clone_vals(args);
                Ok(CallStep::Return)
            },
            ReplayEvent::LowerFlatEntry | ReplayEvent::LowerMemoryEntry | ReplayEvent::LowerFlatReturn { .. }
                | ReplayEvent::LowerMemoryReturn { .. } | ReplayEvent::ReallocEntry { .. } | ReplayEvent::ReallocReturn { .. }
                | ReplayEvent::MemorySliceWrite { .. } => {
                match Self::lowering_event(self.state, ev, stack) {
                    Ok(c) => Ok(CallStep::Continue(c)),
                    Err(e) => Err(e),
                }
            },
            ReplayEvent::WasmFuncReturn { ret } => {
                if self.state != DriverState::Root {
                    return Err(DriverError::InvalidState);
                }
                match ret {
                    None => Err(DriverError::EventError),
                    Some(a) => {
                        if vals_agree(a, &self.backing) {
                            Ok(CallStep::Continue(GlueCall::Nothing))
                        } else {
                            Err(DriverError::ValidationFailed)
                        }
                    },
                }
            },
            ReplayEvent::CoreWasmFuncEntry => Err(DriverError::CoreWasmFuncEntry),
            _ => Err(DriverError::InvalidEvent),
        }
    }

    /// Handles an event of the replay of a builtin call: the arguments of a
    /// resource drop are checked on entry and its result is put in the
    /// shared buffer on return.
    pub fn builtin_event(&mut self, ev: &ReplayEvent) -> (r: Result<CallStep, DriverError>)
        ensures
            final(self).post_return_args == old(self).post_return_args,
            final(self).expected_checksum == old(self).expected_checksum,
            final(self).realloc_stack == old(self).realloc_stack,
            final(self).state == old(self).state,
            match *ev {
                ReplayEvent::BuiltinEntry(BuiltinEntryEvent::ResourceDrop { idx }) => r == (if !(old(self).state is BuiltinCall) {
                    Err::<CallStep, DriverError>(DriverError::InvalidState)
                } else if !(old(self).backing.bytes@ == le_u32(idx) && old(self).backing.sizes@ == seq![4u8]) {
                    Err(DriverError::ValidationFailed)
                } else {
                    Ok(CallStep::Continue(GlueCall::Nothing))
                }),
                ReplayEvent::BuiltinReturn(BuiltinReturnEvent::ResourceDrop { failed, ret }) => {
                    &&& r == (if !(old(self).state is BuiltinCall) {
                        Err::<CallStep, DriverError>(DriverError::InvalidState)
                    } else if failed {
                        Err(DriverError::EventError)
                    } else {
                        Ok(CallStep::Return)
                    })
                    &&& r is Ok ==> final(self).backing.sizes@ == seq![5u8] && final(self).backing.bytes@ == (match ret {
                        Some(v) => le_u32(v).push(1u8),
                        None => seq![0u8, 0u8, 0u8, 0u8, 0u8],
                    })
                },
                ReplayEvent::BuiltinEntry(BuiltinEntryEvent::Other) | ReplayEvent::BuiltinReturn(BuiltinReturnEvent::Other) =>
                    r == (if !(old(self).state is BuiltinCall) {
                        Err::<CallStep, DriverError>(DriverError::InvalidState)
                    } else {
                        Err(DriverError::UnsupportedBuiltin)
                    }),
                _ => r == Err::<CallStep, DriverError>(DriverError::InvalidEvent),
            },
    {
        match ev {
            ReplayEvent::BuiltinEntry(e) => {
                if !matches!(self.state, DriverState::BuiltinCall { .. }) {
                    return Err(DriverError::InvalidState);
                }
                match e {
                    BuiltinEntryEvent::ResourceDrop { idx } => {
                        let args = resource_drop_args(*idx);
                        if vals_agree(&args, &self.backing) {
                            Ok(CallStep::Continue(GlueCall::Nothing))
                        } else {
                            Err(DriverError::ValidationFailed)
                        }
                    },
                    BuiltinEntryEvent::Other => Err(DriverError::UnsupportedBuiltin),
                }
            },
            ReplayEvent::BuiltinReturn(e) => {
                if !matches!(self.state, DriverState::BuiltinCall { .. }) {
                    return Err(DriverError::InvalidState);
                }
                match e {
                    BuiltinReturnEvent::ResourceDrop { failed, ret } => {
                        if *failed {
                            return Err(DriverError::EventError);
                        }
                        self.backing = resource_drop_result(*ret);
                        Ok(CallStep::Return)
                    },
                    BuiltinReturnEvent::Other => Err(DriverError::UnsupportedBuiltin),
                }
            },
            _ => Err(DriverError::InvalidEvent),
        }
    }
}

/// What reading the next record of a trace gave.
#[derive(Debug, Copy, Clone, PartialEq, Eq, Structural)]
pub enum ReadOutcome {
    /// The read failed.
    Failed,
    /// The end-of-trace marker.
    Eof,
    /// A diagnostic event, which replay skips.
    Diagnostic,
    /// An event to replay.
    Event,
}

/// What the replay buffer does with a read.
#[derive(Debug, Copy, Clone, PartialEq, Eq, Structural)]
pub enum ReadStep {
    /// Hand the failure or the event to the replay.
    Yield,
    /// Read the next record.
    Skip,
    /// The trace is over.
    End,
}

/// The position of a replay buffer in its trace: whether the end was met.
pub struct ReplayCursor {
    pub eof_encountered: bool,
}

impl ReplayCursor {
    /// Whether the buffer reads at all: not once the end was met.
    pub fn can_read(&self) -> (r: bool)
        ensures
            r == !self.eof_encountered,
    {
        !self.eof_encountered
    }

    /// Decides on a read: failures and events are handed on, diagnostics are
    /// skipped, and the end marker ends the trace for good.
    pub fn on_read(&mut self, outcome: ReadOutcome) -> (r: ReadStep)
        ensures
            r == (match outcome {
                ReadOutcome::Failed | ReadOutcome::Event => ReadStep::Yield,
                ReadOutcome::Diagnostic => ReadStep::Skip,
                ReadOutcome::Eof => ReadStep::End,
            }),
            final(self).eof_encountered == (old(self).eof_encountered || outcome is Eof),
    {
        match outcome {
            ReadOutcome::Failed | ReadOutcome::Event => ReadStep::Yield,
            ReadOutcome::Diagnostic => ReadStep::Skip,
            ReadOutcome::Eof => {
                self.eof_encountered = true;
                ReadStep::End
            },
        }
    }
}

/// Handles an event of the replay of a call to export `export_index` by the
/// driver without host-call support: realloc calls go through the glue (the
/// caller pushes what each returned onto `stack`) and their results are
/// checked on return, and the call ends with the core function's entry,
/// which the glue runs (`true` in the result) once no realloc result is
/// pending.
pub fn wasm_call_event(export_index: u32, stack: &mut Vec<u32>, ev: &ReplayEvent) -> (r: Result<(GlueCall, bool), DriverError>)
    ensures
        match *ev {
            ReplayEvent::LowerFlatEntry | ReplayEvent::LowerMemoryEntry | ReplayEvent::MemorySliceWrite { .. } =>
                r == Ok::<(GlueCall, bool), DriverError>((GlueCall::Nothing, false)) && final(stack)@ == old(stack)@,
            ReplayEvent::ReallocEntry { old_addr, old_size, old_align, new_size } => final(stack)@ == old(stack)@
                && r == Ok::<(GlueCall, bool), DriverError>((GlueCall::Realloc {
                    direction: LoweringDirection::Export,
                    index: export_index,
                    old_addr,
                    old_size,
                    old_align,
                    new_size,
                }, false)),
            ReplayEvent::ReallocReturn { ret } => {
                &&& r == (if ret is None {
                    Err::<(GlueCall, bool), DriverError>(DriverError::EventError)
                } else if old(stack)@.len() == 0 {
                    Err(DriverError::NoPendingRealloc)
                } else if old(stack)@.last() != ret->0 {
                    Err(DriverError::ValidationFailed)
                } else {
                    Ok((GlueCall::Nothing, false))
                })
                &&& (ret is Some && old(stack)@.len() > 0) ==> final(stack)@ == old(stack)@.drop_last()
                &&& !(ret is Some && old(stack)@.len() > 0) ==> final(stack)@ == old(stack)@
            },
            ReplayEvent::LowerFlatReturn { ok } => final(stack)@ == old(stack)@ && r == (if ok {
                Ok::<(GlueCall, bool), DriverError>((GlueCall::Nothing, false))
            } else {
                Err(DriverError::EventError)
            }),
            ReplayEvent::WasmFuncReturn { ret } => final(stack)@ == old(stack)@ && r == (if ret is Some {
                Ok::<(GlueCall, bool), DriverError>((GlueCall::Nothing, false))
            } else {
                Err(DriverError::EventError)
            }),
            ReplayEvent::ComponentWasmFuncEntry { .. } => final(stack)@ == old(stack)@ && r == (if old(stack)@.len() == 0 {
                Ok::<(GlueCall, bool), DriverError>((GlueCall::CoreFunc { export_index }, true))
            } else {
                Err(DriverError::PendingRealloc)
            }),
            _ => r == Err::<(GlueCall, bool), DriverError>(DriverError::InvalidEvent),
        },
{
    match ev {
        ReplayEvent::LowerFlatEntry | ReplayEvent::LowerMemoryEntry | ReplayEvent::MemorySliceWrite { .. } => Ok((GlueCall::Nothing, false)),
        ReplayEvent::ReallocEntry { old_addr, old_size, old_align, new_size } => Ok((GlueCall::Realloc {
            direction: LoweringDirection::Export,
            index: export_index,
            old_addr: *old_addr,
            old_size: *old_size,
            old_align: *old_align,
            new_size: *new_size,
        }, false)),
        ReplayEvent::ReallocReturn { ret } => {
            let expected = match ret {
                Some(v) => *v,
                None => {
                    return Err(DriverError::EventError);
                },
            };
            match stack.pop() {
                Some(top) => {
                    if top != expected {
                        Err(DriverError::ValidationFailed)
                    } else {
                        Ok((GlueCall::Nothing, false))
                    }
                },
                None => Err(DriverError::NoPendingRealloc),
            }
        },
        ReplayEvent::LowerFlatReturn { ok } => {
            if *ok {
                Ok((GlueCall::Nothing, false))
            } else {
                Err(DriverError::EventError)
            }
        },
        ReplayEvent::WasmFuncReturn { ret } => {
            if ret.is_some() {
                Ok((GlueCall::Nothing, false))
            } else {
                Err(DriverError::EventError)
            }
        },
        ReplayEvent::ComponentWasmFuncEntry { .. } => {
            if stack.len() == 0 {
                Ok((GlueCall::CoreFunc { export_index }, true))
            } else {
                Err(DriverError::PendingRealloc)
            }
        },
        _ => Err(DriverError::InvalidEvent),
    }
}

} // verus!
