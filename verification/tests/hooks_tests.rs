use auxtools::hooks::{
    clear_hooks, hook, settle_native_result, CompileTimeHook, DispatchOutcome, HookFailure,
    HookType, Hooks, Proc, RuntimeFanout, RuntimeHook,
};
use auxtools::runtime::Runtime;
use auxtools::value::Register;

const FUEL: u64 = 10_000;

fn reg(tag: u8, value: u32) -> Register {
    Register { tag, value }
}

// LoadImmediate(r0, tag 0, 7); Return(r0)
fn literal_program(value: u8) -> Vec<u8> {
    vec![0x01, 0, 0, value, 0, 0, 0, 0x15, 0]
}

#[test]
fn hook_twice_native_native_fails() {
    let mut hooks: Hooks<i32> = Hooks::new();
    assert_eq!(hooks.hook_by_id(1, 10), Ok(()));
    assert_eq!(hooks.hook_by_id(1, 11), Err(HookFailure::AlreadyHooked));
}

#[test]
fn hook_twice_native_then_vm_fails() {
    let mut hooks: Hooks<i32> = Hooks::new();
    assert_eq!(hooks.hook_by_id(1, 10), Ok(()));
    hooks.hook_by_id_with_bytecode_dont_use_this(1, literal_program(7));
    // The second registration was rejected: the entry is still native and
    // no program was loaded.
    assert!(matches!(hooks.lookup(1), Some(HookType::Rust(10))));
    assert!(!hooks.has_program(1));
}

#[test]
fn hook_twice_vm_then_native_fails() {
    let mut hooks: Hooks<i32> = Hooks::new();
    hooks.hook_by_id_with_bytecode_dont_use_this(2, literal_program(7));
    assert_eq!(hooks.hook_by_id(2, 10), Err(HookFailure::AlreadyHooked));
    assert!(matches!(hooks.lookup(2), Some(HookType::VM)));
}

#[test]
fn hook_twice_vm_vm_keeps_first_program() {
    let mut hooks: Hooks<i32> = Hooks::new();
    hooks.hook_by_id_with_bytecode_dont_use_this(3, literal_program(7));
    hooks.hook_by_id_with_bytecode_dont_use_this(3, literal_program(9));
    // The occupied slot rejected the second program silently.
    assert_eq!(
        hooks.dispatch(3, vec![], FUEL),
        DispatchOutcome::Handled(reg(0, 7))
    );
}

#[test]
fn dispatch_unregistered_is_not_hooked() {
    let hooks: Hooks<i32> = Hooks::new();
    assert_eq!(hooks.dispatch(5, vec![], FUEL), DispatchOutcome::NotHooked);
}

#[test]
fn dispatch_native_asks_driver_to_run_handler() {
    let mut hooks: Hooks<i32> = Hooks::new();
    hooks.hook_by_id(4, 42).unwrap();
    assert_eq!(hooks.dispatch(4, vec![], FUEL), DispatchOutcome::RunNative);
    assert_eq!(hooks.native_handler(4), Some(&42));
    assert_eq!(hooks.native_handler(5), None);
}

#[test]
fn dispatch_vm_runs_registered_program() {
    let mut hooks: Hooks<i32> = Hooks::new();
    hooks.hook_by_id_with_bytecode_dont_use_this(6, literal_program(7));
    assert_eq!(
        hooks.dispatch(6, vec![], FUEL),
        DispatchOutcome::Handled(reg(0, 7))
    );
}

#[test]
fn dispatch_vm_reports_exhausted_budget() {
    let mut hooks: Hooks<i32> = Hooks::new();
    hooks.hook_by_id_with_bytecode_dont_use_this(7, vec![0x10, 0, 0, 0, 0]);
    assert_eq!(hooks.dispatch(7, vec![], 100), DispatchOutcome::Exhausted);
}

#[test]
fn clear_hooks_frees_slots_but_keeps_programs() {
    let mut hooks: Hooks<i32> = Hooks::new();
    hooks.hook_by_id_with_bytecode_dont_use_this(8, literal_program(7));
    hooks.hook_by_id(9, 1).unwrap();
    clear_hooks(&mut hooks);
    assert!(hooks.lookup(8).is_none());
    assert!(hooks.lookup(9).is_none());
    assert_eq!(hooks.dispatch(8, vec![], FUEL), DispatchOutcome::NotHooked);
    // The program table was not purged: the bytecode is still loaded.
    assert!(hooks.has_program(8));
    // And the slot itself is free again.
    assert_eq!(hooks.hook_by_id(8, 2), Ok(()));
}

#[test]
fn hook_by_name_requires_resolution() {
    let mut hooks: Hooks<i32> = Hooks::new();
    assert_eq!(hook(&mut hooks, None, 1), Err(HookFailure::ProcNotFound));
    assert_eq!(hook(&mut hooks, Some(Proc { id: 3 }), 1), Ok(()));
    assert_eq!(
        hook(&mut hooks, Some(Proc { id: 3 }), 2),
        Err(HookFailure::AlreadyHooked)
    );
}

#[test]
fn proc_hook_registers_by_id() {
    let mut hooks: Hooks<i32> = Hooks::new();
    let p = Proc { id: 12 };
    assert_eq!(p.hook(&mut hooks, 5), Ok(()));
    assert_eq!(p.hook(&mut hooks, 6), Err(HookFailure::AlreadyHooked));
    assert!(matches!(hooks.lookup(12), Some(HookType::Rust(5))));
}

#[test]
fn settle_native_success_passes_value_through() {
    let out = settle_native_result(Ok(reg(0, 7)));
    assert_eq!(out.value, reg(0, 7));
    assert!(out.diagnostic.is_none());
}

#[test]
fn settle_native_error_yields_one_diagnostic_and_empty_value() {
    let out = settle_native_result(Err(Runtime::new("bad hook".to_string())));
    assert_eq!(out.value, reg(0, 0));
    assert_eq!(out.diagnostic, Some("bad hook".to_string()));
}

#[test]
fn hook_failure_messages() {
    assert_eq!(
        HookFailure::NotInitialized.describe(),
        "Library not initialized"
    );
    assert_eq!(HookFailure::ProcNotFound.describe(), "Proc not found");
    assert_eq!(
        HookFailure::AlreadyHooked.describe(),
        "Proc is already hooked"
    );
    assert_eq!(HookFailure::UnknownFailure.describe(), "Unknown failure");
}

#[test]
fn runtime_carries_message() {
    let r = Runtime::new("oops".to_string());
    assert_eq!(r.message, "oops");
}

#[test]
fn compile_time_hook_holds_path_and_handler() {
    let h: CompileTimeHook<i32> = CompileTimeHook::new("/proc/do_thing", 9);
    assert_eq!(h.proc_path, "/proc/do_thing");
    assert_eq!(h.hook, 9);
}

#[test]
fn fanout_keeps_registration_order() {
    let mut fanout: RuntimeFanout<i32> = RuntimeFanout::new();
    fanout.register(RuntimeHook(10));
    fanout.register(RuntimeHook(20));
    fanout.register(RuntimeHook(30));
    let observers = fanout.observers();
    assert_eq!(observers.len(), 3);
    assert_eq!(observers[0].0, 10);
    assert_eq!(observers[1].0, 20);
    assert_eq!(observers[2].0, 30);
}
