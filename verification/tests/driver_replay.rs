use crimp::driver::{
    allocate_args_results_buffer, resource_drop_args, resource_drop_result, BuiltinEntryEvent, BuiltinReturnEvent,
    CallStep, Driver, DriverError, DriverState, FuncArgVals, GlueCall, LoweringDirection, ReadOutcome, ReadStep,
    ReplayCursor, ReplayEvent,
};
use crimp::driver::wasm_call_event;

fn vals(bytes: &[u8], sizes: &[u8]) -> FuncArgVals {
    FuncArgVals { bytes: bytes.to_vec(), sizes: sizes.to_vec() }
}

fn instantiated(checksum: [u8; 32]) -> Driver {
    let mut d = Driver::new(checksum);
    let r = d.top_event(&ReplayEvent::ComponentInstantiation { checksum });
    assert!(r.is_ok());
    d
}

#[test]
fn resource_drop_result_encoding() {
    let some = resource_drop_result(Some(0x0102_0304));
    assert_eq!(some.bytes, vec![4, 3, 2, 1, 1]);
    assert_eq!(some.sizes, vec![5]);
    let none = resource_drop_result(None);
    assert_eq!(none.bytes, vec![0, 0, 0, 0, 0]);
    assert_eq!(none.sizes, vec![5]);
}

#[test]
fn resource_drop_args_encoding() {
    let a = resource_drop_args(7);
    assert_eq!(a.bytes, vec![7, 0, 0, 0]);
    assert_eq!(a.sizes, vec![4]);
}

#[test]
fn lowering_direction_codes() {
    assert_eq!(LoweringDirection::Import.code(), 0);
    assert_eq!(LoweringDirection::Export.code(), 1);
}

#[test]
fn buffer_allocation_sizes() {
    let mut b = vals(&[1, 2, 3], &[3]);
    let lens = allocate_args_results_buffer(&mut b, 12, 2);
    assert_eq!(b.bytes.len(), 12);
    assert_eq!(b.sizes.len(), 2);
    assert_eq!(lens, (0, 0));
}

#[test]
fn instantiation_checks_checksum_and_count() {
    let mut d = Driver::new([1u8; 32]);
    assert_eq!(d.top_event(&ReplayEvent::ComponentInstantiation { checksum: [2u8; 32] }).err(), Some(DriverError::ChecksumMismatch));
    let mut d2 = instantiated([1u8; 32]);
    assert!(d2.instantiated);
    assert_eq!(d2.top_event(&ReplayEvent::CoreWasmInstantiation { checksum: [1u8; 32] }).err(), Some(DriverError::MultipleInstantiations));
    assert!(!d.instantiated);
}

#[test]
fn wasm_call_and_post_return() {
    let mut d = instantiated([0u8; 32]);
    // entry outside a call setup
    assert_eq!(d.top_event(&ReplayEvent::ComponentWasmFuncEntry { args: vals(&[], &[]) }).err(), Some(DriverError::InvalidState));
    let r = d.top_event(&ReplayEvent::ComponentWasmFuncBegin { func_index: 3 }).ok().unwrap();
    assert_eq!(r.0, GlueCall::Nothing);
    assert_eq!(d.state, DriverState::WasmCallLoweringSetup { export_index: 3 });
    let r = d.top_event(&ReplayEvent::ReallocEntry { old_addr: 0, old_size: 0, old_align: 4, new_size: 16 }).ok().unwrap();
    assert_eq!(r.0, GlueCall::Realloc { direction: LoweringDirection::Export, index: 3, old_addr: 0, old_size: 0, old_align: 4, new_size: 16 });
    assert_eq!(d.top_event(&ReplayEvent::ReallocReturn { ret: Some(64) }).err(), Some(DriverError::NoPendingRealloc));
    d.realloc_stack.push(64);
    assert!(d.top_event(&ReplayEvent::ReallocReturn { ret: Some(64) }).is_ok());
    d.realloc_stack.push(32);
    assert_eq!(d.top_event(&ReplayEvent::ReallocReturn { ret: Some(64) }).err(), Some(DriverError::ValidationFailed));
    let r = d.top_event(&ReplayEvent::MemorySliceWrite { offset: 64, bytes: vec![1, 2] }).ok().unwrap();
    assert_eq!(r.0, GlueCall::MemoryWrite { direction: LoweringDirection::Export, index: 3, offset: 64 });
    let r = d.top_event(&ReplayEvent::ComponentWasmFuncEntry { args: vals(&[1, 0, 0, 0], &[4]) }).ok().unwrap();
    assert_eq!(r.0, GlueCall::CoreFunc { export_index: 3 });
    d.finish_wasm_call(3, vals(&[9, 0, 0, 0], &[4]));
    assert_eq!(d.state, DriverState::Root);
    assert_eq!(d.top_event(&ReplayEvent::ComponentPostReturn { func_index: 4 }).err(), Some(DriverError::UnknownPostReturn));
    let (call, args) = d.top_event(&ReplayEvent::ComponentPostReturn { func_index: 3 }).ok().unwrap();
    assert_eq!(call, GlueCall::PostReturn { export_index: 3 });
    let args = args.unwrap();
    assert_eq!(args.bytes, vec![9, 0, 0, 0]);
    assert_eq!(args.sizes, vec![4]);
    // the saved results are used once
    assert_eq!(d.top_event(&ReplayEvent::ComponentPostReturn { func_index: 3 }).err(), Some(DriverError::UnknownPostReturn));
}

#[test]
fn main_loop_errors() {
    let mut d = instantiated([0u8; 32]);
    assert_eq!(d.top_event(&ReplayEvent::CoreWasmFuncEntry).err(), Some(DriverError::CoreWasmFuncEntry));
    assert_eq!(d.top_event(&ReplayEvent::HostFuncEntry { args: vals(&[], &[]) }).err(), Some(DriverError::InvalidEvent));
    assert_eq!(d.top_event(&ReplayEvent::LowerFlatReturn { ok: true }).err(), Some(DriverError::InvalidState));
    assert_eq!(d.top_event(&ReplayEvent::WasmFuncReturn { ret: None }).err(), Some(DriverError::EventError));
    d.backing = vals(&[5], &[1]);
    assert!(d.top_event(&ReplayEvent::WasmFuncReturn { ret: Some(vals(&[5], &[1])) }).is_ok());
    assert_eq!(d.top_event(&ReplayEvent::WasmFuncReturn { ret: Some(vals(&[6], &[1])) }).err(), Some(DriverError::ValidationFailed));
    assert!(d.top_event(&ReplayEvent::LowerFlatEntry).is_ok());
}

#[test]
fn host_call_replay() {
    let mut d = instantiated([0u8; 32]);
    d.backing = vals(&[1, 2, 3, 4, 5, 6], &[4, 2]);
    d.begin_call(DriverState::HostCall { import_index: 2 }, 4, 1);
    assert_eq!(d.backing.bytes, vec![1, 2, 3, 4]);
    assert_eq!(d.backing.sizes, vec![4]);
    let mut stack: Vec<u32> = Vec::new();
    assert_eq!(d.host_event(&mut stack, &ReplayEvent::HostFuncEntry { args: vals(&[1, 2, 3, 4], &[4]) }), Ok(CallStep::Continue(GlueCall::Nothing)));
    assert_eq!(d.host_event(&mut stack, &ReplayEvent::HostFuncEntry { args: vals(&[0, 2, 3, 4], &[4]) }), Err(DriverError::ValidationFailed));
    let step = d.host_event(&mut stack, &ReplayEvent::ReallocEntry { old_addr: 8, old_size: 4, old_align: 4, new_size: 8 });
    assert_eq!(step, Ok(CallStep::Continue(GlueCall::Realloc { direction: LoweringDirection::Import, index: 2, old_addr: 8, old_size: 4, old_align: 4, new_size: 8 })));
    stack.push(8);
    assert_eq!(d.host_event(&mut stack, &ReplayEvent::ReallocReturn { ret: Some(8) }), Ok(CallStep::Continue(GlueCall::Nothing)));
    assert!(stack.is_empty());
    assert_eq!(d.host_event(&mut stack, &ReplayEvent::WasmFuncReturn { ret: Some(vals(&[], &[])) }), Err(DriverError::InvalidState));
    assert_eq!(d.host_event(&mut stack, &ReplayEvent::ComponentPostReturn { func_index: 0 }), Err(DriverError::InvalidEvent));
    assert_eq!(d.host_event(&mut stack, &ReplayEvent::HostFuncReturn { args: vals(&[7, 7], &[2]) }), Ok(CallStep::Return));
    assert_eq!(d.backing.bytes, vec![7, 7]);
    assert_eq!(d.backing.sizes, vec![2]);
}

#[test]
fn builtin_call_replay() {
    let mut d = instantiated([0u8; 32]);
    d.backing = vals(&[7, 0, 0, 0], &[4]);
    d.begin_call(DriverState::BuiltinCall { import_index: 1 }, 4, 1);
    assert_eq!(d.builtin_event(&ReplayEvent::BuiltinEntry(BuiltinEntryEvent::ResourceDrop { idx: 7 })), Ok(CallStep::Continue(GlueCall::Nothing)));
    assert_eq!(d.builtin_event(&ReplayEvent::BuiltinEntry(BuiltinEntryEvent::ResourceDrop { idx: 8 })), Err(DriverError::ValidationFailed));
    assert_eq!(d.builtin_event(&ReplayEvent::BuiltinEntry(BuiltinEntryEvent::Other)), Err(DriverError::UnsupportedBuiltin));
    assert_eq!(d.builtin_event(&ReplayEvent::BuiltinReturn(BuiltinReturnEvent::ResourceDrop { failed: true, ret: None })), Err(DriverError::EventError));
    assert_eq!(d.builtin_event(&ReplayEvent::HostFuncReturn { args: vals(&[], &[]) }), Err(DriverError::InvalidEvent));
    assert_eq!(d.builtin_event(&ReplayEvent::BuiltinReturn(BuiltinReturnEvent::ResourceDrop { failed: false, ret: Some(3) })), Ok(CallStep::Return));
    assert_eq!(d.backing.bytes, vec![3, 0, 0, 0, 1]);
    assert_eq!(d.backing.sizes, vec![5]);
}

#[test]
fn builtin_events_need_builtin_state() {
    let mut d = instantiated([0u8; 32]);
    assert_eq!(d.builtin_event(&ReplayEvent::BuiltinReturn(BuiltinReturnEvent::Other)), Err(DriverError::InvalidState));
}

#[test]
fn replay_cursor_skips_diagnostics_and_stops_at_eof() {
    let mut c = ReplayCursor { eof_encountered: false };
    assert!(c.can_read());
    assert_eq!(c.on_read(ReadOutcome::Event), ReadStep::Yield);
    assert_eq!(c.on_read(ReadOutcome::Failed), ReadStep::Yield);
    assert_eq!(c.on_read(ReadOutcome::Diagnostic), ReadStep::Skip);
    assert!(c.can_read());
    assert_eq!(c.on_read(ReadOutcome::Eof), ReadStep::End);
    assert!(!c.can_read());
}

#[test]
fn wasm_call_replay_without_host_support() {
    let mut stack: Vec<u32> = Vec::new();
    let r = wasm_call_event(4, &mut stack, &ReplayEvent::ReallocEntry { old_addr: 0, old_size: 0, old_align: 8, new_size: 16 });
    assert_eq!(
        r,
        Ok((
            GlueCall::Realloc { direction: LoweringDirection::Export, index: 4, old_addr: 0, old_size: 0, old_align: 8, new_size: 16 },
            false
        ))
    );
    // the realloc call through the glue gave 0x40
    stack.push(0x40);
    assert_eq!(wasm_call_event(4, &mut stack, &ReplayEvent::ReallocReturn { ret: Some(0x41) }), Err(DriverError::ValidationFailed));
    assert!(stack.is_empty());
    stack.push(0x40);
    assert_eq!(wasm_call_event(4, &mut stack, &ReplayEvent::ReallocReturn { ret: Some(0x40) }), Ok((GlueCall::Nothing, false)));
    assert_eq!(wasm_call_event(4, &mut stack, &ReplayEvent::ReallocReturn { ret: Some(0x40) }), Err(DriverError::NoPendingRealloc));
    assert_eq!(wasm_call_event(4, &mut stack, &ReplayEvent::ReallocReturn { ret: None }), Err(DriverError::EventError));
    assert_eq!(wasm_call_event(4, &mut stack, &ReplayEvent::LowerFlatReturn { ok: false }), Err(DriverError::EventError));
    assert_eq!(wasm_call_event(4, &mut stack, &ReplayEvent::HostFuncEntry { args: vals(&[], &[]) }), Err(DriverError::InvalidEvent));
    // the call cannot be entered while a realloc result is pending
    stack.push(0x80);
    let args = vals(&[1, 0, 0, 0], &[4]);
    assert_eq!(
        wasm_call_event(4, &mut stack, &ReplayEvent::ComponentWasmFuncEntry { args: vals(&[1, 0, 0, 0], &[4]) }),
        Err(DriverError::PendingRealloc)
    );
    stack.pop();
    assert_eq!(
        wasm_call_event(4, &mut stack, &ReplayEvent::ComponentWasmFuncEntry { args }),
        Ok((GlueCall::CoreFunc { export_index: 4 }, true))
    );
}
