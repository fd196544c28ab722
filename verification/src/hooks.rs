//! The hook registry and the call dispatcher.
//!
//! The registry maps a procedure identifier to exactly one hook entry — a
//! native handler or a machine program — created at registration, destroyed
//! only by an explicit clear, and never overwritten: registering over an
//! occupied slot is rejected. The dispatcher resolves an intercepted call
//! through the registry and either reports "not hooked", asks the driver to
//! invoke the native handler, or executes the machine program.
//!
//! The registry and the machine's program table travel together in one
//! explicit state value handed in by the caller, one per execution context:
//! a hook registered in one context is invisible to another.
//!
//! Native handlers are host-side code, so the registry is generic over the
//! handler representation and never invokes one itself: the driver fetches
//! the stored handler, runs it, and settles its result here.

use vstd::prelude::*;

use crate::runtime::Runtime;
use crate::table::Table;
use crate::value::{make_null, null_value, Register};
use crate::vm::{init_state, spec_run, VM};

verus! {

broadcast use vstd::string::group_string_axioms;

/// Why a registration call failed.
#[derive(Clone, Copy, PartialEq, Eq, Structural, Debug)]
pub enum HookFailure {
    /// The subsystem was used before its install step completed.
    NotInitialized,
    /// The name does not resolve to a known procedure identifier.
    ProcNotFound,
    /// An entry already exists for the procedure identifier.
    AlreadyHooked,
    /// An opaque error of the underlying detour mechanism.
    UnknownFailure,
}

impl HookFailure {
    /// The failure as a human-readable message.
    pub fn describe(&self) -> (s: String)
        ensures
            match self {
                HookFailure::NotInitialized => s@ == "Library not initialized"@,
                HookFailure::ProcNotFound => s@ == "Proc not found"@,
                HookFailure::AlreadyHooked => s@ == "Proc is already hooked"@,
                HookFailure::UnknownFailure => s@ == "Unknown failure"@,
            },
    {
        match self {
            HookFailure::NotInitialized => "Library not initialized".to_string(),
            HookFailure::ProcNotFound => "Proc not found".to_string(),
            HookFailure::AlreadyHooked => "Proc is already hooked".to_string(),
            HookFailure::UnknownFailure => "Unknown failure".to_string(),
        }
    }
}

/// A handle to one host procedure: its stable identifier.
#[derive(Clone, Copy, PartialEq, Eq, Structural, Debug)]
pub struct Proc {
    pub id: u32,
}

/// A hook declared ahead of start-up, to be applied by an explicit
/// registration pass during initialization: the path that names the target
/// procedure, and the handler for it.
pub struct CompileTimeHook<H> {
    pub proc_path: &'static str,
    pub hook: H,
}

impl<H> CompileTimeHook<H> {
    pub fn new(proc_path: &'static str, hook: H) -> (r: CompileTimeHook<H>)
        ensures
            r.proc_path == proc_path,
            r.hook == hook,
    {
        CompileTimeHook { proc_path, hook }
    }
}

/// An observer of the host's own fault reports.
pub struct RuntimeHook<H>(pub H);

/// The runtime-error fanout: every error string the host reports is handed
/// unchanged to each registered observer, in registration order. Observers
/// are host-side consumers, so the driver iterates the list and applies
/// each; the fanout itself neither filters nor transforms.
pub struct RuntimeFanout<H> {
    observers: Vec<RuntimeHook<H>>,
}

impl<H> RuntimeFanout<H> {
    /// The observers in registration order.
    pub closed spec fn observer_seq(self) -> Seq<RuntimeHook<H>> {
        self.observers@
    }

    pub fn new() -> (r: RuntimeFanout<H>)
        ensures
            r.observer_seq() == Seq::<RuntimeHook<H>>::empty(),
    {
        RuntimeFanout { observers: Vec::new() }
    }

    /// Appends an observer: later reports reach it after every observer
    /// registered before it.
    pub fn register(&mut self, observer: RuntimeHook<H>)
        ensures
            final(self).observer_seq() == old(self).observer_seq().push(observer),
    {
        self.observers.push(observer);
    }

    /// The registered observers, in registration order.
    pub fn observers(&self) -> (r: &Vec<RuntimeHook<H>>)
        ensures
            r@ == self.observer_seq(),
    {
        &self.observers
    }
}

/// One hook entry: a native handler, or a program in the machine's table.
pub enum HookType<H> {
    Rust(H),
    VM,
}

/// The hook registry and the virtual machine it loads programs into, as one
/// explicit, per-context state value.
pub struct Hooks<H> {
    procs: Table<HookType<H>>,
    vm: VM,
}

/// What the dispatcher decided for one intercepted call.
#[derive(Clone, Copy, PartialEq, Eq, Structural, Debug)]
pub enum DispatchOutcome {
    /// No entry: the host should run its own unmodified logic.
    NotHooked,
    /// A native handler is registered: the driver must invoke it and settle
    /// its result.
    RunNative,
    /// The machine program ran to completion with this result.
    Handled(Register),
    /// The machine program outlived the step budget.
    Exhausted,
}

impl<H> Hooks<H> {
    /// The registry as a finite map: at most one entry per identifier.
    pub closed spec fn registry(self) -> Map<u32, HookType<H>> {
        self.procs@
    }

    /// The machine's program table.
    pub closed spec fn programs(self) -> Map<u32, Vec<u8>> {
        self.vm.programs_map()
    }

    /// Every program entry of the registry has its program loaded: the
    /// registration that created it put the bytecode there.
    pub open spec fn inv(self) -> bool {
        forall|k: u32|
            (#[trigger] self.registry().contains_key(k)) && self.registry()[k] is VM
                ==> self.programs().contains_key(k)
    }

    pub fn new() -> (r: Hooks<H>)
        ensures
            r.registry() == Map::<u32, HookType<H>>::empty(),
            r.programs() == Map::<u32, Vec<u8>>::empty(),
            r.inv(),
    {
        Hooks { procs: Table::new(), vm: VM::new() }
    }

    /// Installs a native handler for the identifier. Exactly one entry may
    /// exist per identifier: an occupied slot rejects the registration with
    /// `AlreadyHooked` and is left exactly as it was, whatever kind of hook
    /// occupies it.
    pub fn hook_by_id(&mut self, id: u32, hook: H) -> (r: Result<(), HookFailure>)
        requires
            old(self).inv(),
        ensures
            final(self).inv(),
            old(self).registry().contains_key(id) ==> r == Err::<(), HookFailure>(
                HookFailure::AlreadyHooked,
            ) && final(self).registry() == old(self).registry() && final(self).programs() == old(
                self,
            ).programs(),
            !old(self).registry().contains_key(id) ==> r == Ok::<(), HookFailure>(())
                && final(self).registry() == old(self).registry().insert(id, HookType::Rust(hook))
                && final(self).programs() == old(self).programs(),
    {
        if self.procs.contains(id) {
            Err(HookFailure::AlreadyHooked)
        } else {
            self.procs.insert(id, HookType::Rust(hook));
            proof {
                assert forall|k: u32|
                    (#[trigger] self.registry().contains_key(k)) && self.registry()[k]
                        is VM implies self.programs().contains_key(k) by {
                    if k != id {
                        assert(old(self).registry().contains_key(k));
                    }
                }
            }
            Ok(())
        }
    }

    /// Installs a machine program for the identifier: on success the entry
    /// is created and the bytecode is loaded into the machine's program
    /// table under the same identifier. An occupied slot leaves everything
    /// unchanged, and the rejection is silently discarded.
    pub fn hook_by_id_with_bytecode_dont_use_this(&mut self, id: u32, hook: Vec<u8>)
        requires
            old(self).inv(),
        ensures
            final(self).inv(),
            old(self).registry().contains_key(id) ==> final(self).registry() == old(
                self,
            ).registry() && final(self).programs() == old(self).programs(),
            !old(self).registry().contains_key(id) ==> final(self).registry() == old(
                self,
            ).registry().insert(id, HookType::VM) && final(self).programs() == old(
                self,
            ).programs().insert(id, hook),
    {
        if !self.procs.contains(id) {
            self.procs.insert(id, HookType::VM);
            self.vm.add_program(id, hook);
            proof {
                assert forall|k: u32|
                    (#[trigger] self.registry().contains_key(k)) && self.registry()[k]
                        is VM implies self.programs().contains_key(k) by {
                    if k != id {
                        assert(old(self).registry().contains_key(k));
                    }
                }
            }
        }
    }

    /// Removes every registry entry. The machine's program table is not
    /// purged: loaded programs stay behind, unreachable until an identifier
    /// is hooked again.
    pub fn clear(&mut self)
        ensures
            final(self).inv(),
            final(self).registry() == Map::<u32, HookType<H>>::empty(),
            final(self).programs() == old(self).programs(),
    {
        self.procs.clear();
    }

    /// The entry registered for the identifier, if any.
    pub fn lookup(&self, id: u32) -> (r: Option<&HookType<H>>)
        ensures
            match r {
                Some(h) => self.registry().contains_key(id) && *h == self.registry()[id],
                None => !self.registry().contains_key(id),
            },
    {
        self.procs.get(id)
    }

    /// The native handler stored for the identifier, for the driver to
    /// invoke.
    pub fn native_handler(&self, id: u32) -> (r: Option<&H>)
        ensures
            match r {
                Some(h) => self.registry().contains_key(id) && self.registry()[id]
                    == HookType::Rust(*h),
                None => !(self.registry().contains_key(id) && self.registry()[id] is Rust),
            },
    {
        match self.procs.get(id) {
            Some(entry) => match entry {
                HookType::Rust(h) => Some(h),
                HookType::VM => None,
            },
            None => None,
        }
    }

    /// Resolves one intercepted call. An unregistered identifier is
    /// reported "not hooked", with no side effect of any kind — in
    /// particular no diagnostic is emitted. A native entry is handed back
    /// to the driver to invoke. A program entry is executed detached, with
    /// the given step budget, the arguments bound in order.
    pub fn dispatch(&self, id: u32, args: Vec<Register>, fuel: u64) -> (r: DispatchOutcome)
        requires
            self.inv(),
        ensures
            r is NotHooked <==> !self.registry().contains_key(id),
            self.registry().contains_key(id) && self.registry()[id] is Rust ==> r
                is RunNative,
            self.registry().contains_key(id) && self.registry()[id] is VM ==> {
                let outcome = spec_run(init_state(self.programs()[id]@, args@), fuel as nat);
                match outcome {
                    Some(v) => r == DispatchOutcome::Handled(v),
                    None => r is Exhausted,
                }
            },
    {
        match self.procs.get(id) {
            None => DispatchOutcome::NotHooked,
            Some(entry) => match entry {
                HookType::Rust(_) => DispatchOutcome::RunNative,
                HookType::VM => match self.vm.run_program(id, args, fuel) {
                    Some(v) => DispatchOutcome::Handled(v),
                    None => DispatchOutcome::Exhausted,
                },
            },
        }
    }

    /// A fresh interactive execution of the program loaded for the
    /// identifier, for a driver that serves the host requests itself —
    /// a called procedure may re-enter dispatch.
    pub fn start_program(&self, id: u32, args: Vec<Register>) -> (r: Option<
        crate::vm::ExecState,
    >)
        ensures
            match r {
                Some(st) => self.programs().contains_key(id) && st@ == init_state(
                    self.programs()[id]@,
                    args@,
                ) && crate::vm::wf_state(st@) && st@.pending is None,
                None => !self.programs().contains_key(id),
            },
    {
        self.vm.start_program(id, args)
    }

    /// Whether a program is loaded for the identifier — it may outlive its
    /// registry entry, since a clear does not purge the table.
    pub fn has_program(&self, id: u32) -> (r: bool)
        ensures
            r == self.programs().contains_key(id),
    {
        self.vm.has_program(id)
    }
}

/// Removes all hooks of this context's registry; loaded programs stay.
pub fn clear_hooks<H>(hooks: &mut Hooks<H>)
    ensures
        final(hooks).inv(),
        final(hooks).registry() == Map::<u32, HookType<H>>::empty(),
        final(hooks).programs() == old(hooks).programs(),
{
    hooks.clear();
}

/// Installs a native handler for a procedure resolved by name. The caller
/// resolves the human-readable name through the host's directory first;
/// a name that resolved to nothing is rejected with `ProcNotFound`.
pub fn hook<H>(hooks: &mut Hooks<H>, target: Option<Proc>, func: H) -> (r: Result<
    (),
    HookFailure,
>)
    requires
        old(hooks).inv(),
    ensures
        final(hooks).inv(),
        match target {
            None => {
                &&& r == Err::<(), HookFailure>(HookFailure::ProcNotFound)
                &&& final(hooks).registry() == old(hooks).registry()
                &&& final(hooks).programs() == old(hooks).programs()
            },
            Some(p) => {
                &&& old(hooks).registry().contains_key(p.id) ==> {
                    &&& r == Err::<(), HookFailure>(HookFailure::AlreadyHooked)
                    &&& final(hooks).registry() == old(hooks).registry()
                    &&& final(hooks).programs() == old(hooks).programs()
                }
                &&& !old(hooks).registry().contains_key(p.id) ==> {
                    &&& r == Ok::<(), HookFailure>(())
                    &&& final(hooks).registry() == old(hooks).registry().insert(p.id, HookType::Rust(func))
                    &&& final(hooks).programs() == old(hooks).programs()
                }
            },
        },
{
    match target {
        Some(p) => hooks.hook_by_id(p.id, func),
        None => Err(HookFailure::ProcNotFound),
    }
}

impl Proc {
    /// Installs a native handler for this procedure.
    pub fn hook<H>(&self, hooks: &mut Hooks<H>, func: H) -> (r: Result<(), HookFailure>)
        requires
            old(hooks).inv(),
        ensures
            final(hooks).inv(),
            old(hooks).registry().contains_key(self.id) ==> r == Err::<(), HookFailure>(
                HookFailure::AlreadyHooked,
            ) && final(hooks).registry() == old(hooks).registry() && final(hooks).programs()
                == old(hooks).programs(),
            !old(hooks).registry().contains_key(self.id) ==> r == Ok::<(), HookFailure>(())
                && final(hooks).registry() == old(hooks).registry().insert(
                self.id,
                HookType::Rust(func),
            ) && final(hooks).programs() == old(hooks).programs(),
    {
        hooks.hook_by_id(self.id, func)
    }
}

/// What the driver hands the host after a native hook ran.
pub struct NativeOutcome {
    /// The value returned to the host at the call site.
    pub value: Register,
    /// The message to forward, exactly once, to the host's diagnostic
    /// facility — present exactly when the handler failed.
    pub diagnostic: Option<String>,
}

/// Settles a native handler's result. A success passes the value through
/// with no diagnostic. An error is never propagated as a fault: its message
/// becomes the one diagnostic to report, and the host sees the empty value
/// as if the call had produced no result.
pub fn settle_native_result(result: Result<Register, Runtime>) -> (out: NativeOutcome)
    ensures
        result matches Ok(v) ==> out.value == v && out.diagnostic is None,
        result matches Err(e) ==> out.value == null_value() && out.diagnostic == Some(e.message),
{
    match result {
        Ok(v) => NativeOutcome { value: v, diagnostic: None },
        Err(e) => NativeOutcome { value: make_null(), diagnostic: Some(e.message) },
    }
}

} // verus!
