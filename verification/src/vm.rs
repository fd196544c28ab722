//! The register virtual machine: executes a stored program against three
//! register spaces (arguments, locals, temps) and an argument-accumulation
//! stack, decoding instructions lazily under the decoder's encoding rules.
//!
//! A field read or a procedure call must go out to the host's symbol table,
//! which this machine does not own: execution pauses and surfaces a host
//! request, and the driver feeds the host's reply back in. The detached
//! entry point answers every such request with the empty value instead.
//!
//! A program is free to jump into a loop that never ends, and the machine
//! has no watchdog of its own, so every entry point takes an explicit step
//! budget and reports when the budget ran out before the program returned.

use vstd::prelude::*;

use crate::disassembler::{
    spec_decode_one, decode_one_at, ArgRegister, DisOpcode, LocalRegister, Location, StringId,
    TempRegister,
};
use crate::table::Table;
use crate::value::{
    arith_add, arith_div, arith_mul, arith_sub, cmp_equal, cmp_greater_or_equal,
    cmp_greater_than, cmp_less_or_equal, cmp_less_than, eval_add, eval_div, eval_equal,
    eval_greater_or_equal, eval_greater_than, eval_less_or_equal, eval_less_than, eval_mul,
    eval_sub, is_truthy, make_null, null_value, truthy, Register,
};

verus! {

/// The mathematical state of one program execution.
#[verifier::ext_equal]
pub struct StateV {
    /// The program's bytecode.
    pub code: Seq<u8>,
    /// The program counter: an absolute byte offset into the code.
    pub pc: int,
    /// The read-only argument registers, bound at program start.
    pub args: Seq<Register>,
    /// The local registers: scratch that persists across the execution.
    pub locals: Seq<Register>,
    /// The temp registers: the per-instruction working set.
    pub temps: Seq<Register>,
    /// The argument-accumulation stack, drained by each call.
    pub stack: Seq<Register>,
    /// The temp register an outstanding host request will answer into.
    pub pending: Option<usize>,
}

/// Local and temp space each span the full one-byte index range, and an
/// outstanding reply destination fits it.
pub open spec fn wf_state(s: StateV) -> bool {
    &&& s.locals.len() == 256
    &&& s.temps.len() == 256
    &&& match s.pending {
        Some(d) => d < 256,
        None => true,
    }
}

/// The argument register `a` names, or the empty value where the caller
/// supplied fewer arguments.
pub open spec fn arg_or_null(args: Seq<Register>, a: usize) -> Register {
    if a < args.len() {
        args[a as int]
    } else {
        null_value()
    }
}

/// A request the machine cannot answer itself: work owned by the host's
/// symbol table and object model.
pub enum HostReqV {
    /// Invoke the named procedure with the drained argument stack.
    CallProc(u16, Seq<Register>),
    /// Read the named field of the object the value references.
    GetField(Register, u16),
}

/// What one instruction does to the state.
pub enum StepRes {
    /// Execution continues at the successor state.
    Next(StateV),
    /// Execution ended with this result.
    Finish(Register),
    /// Execution paused for the host; the reply completes the state.
    Request(HostReqV, StateV),
}

/// One instruction executed at the current program counter. Decoding "end"
/// — truncation or an unrecognized opcode — is an implicit halt with the
/// empty value.
pub open spec fn step(s: StateV) -> StepRes {
    match spec_decode_one(s.code, s.pc) {
        None => StepRes::Finish(null_value()),
        Some((instr, next)) => step_instr(s, instr, next),
    }
}

/// What the decoded instruction `instr`, whose bytes end at `next`, does.
pub open spec fn step_instr(s: StateV, instr: DisOpcode, next: int) -> StepRes {
    match instr {
        DisOpcode::Halt => StepRes::Finish(null_value()),
        DisOpcode::LoadImmediate(TempRegister(d), t, v) => StepRes::Next(
            StateV { pc: next, temps: s.temps.update(d as int, Register { tag: t, value: v }), ..s },
        ),
        DisOpcode::LoadArgument(ArgRegister(a), TempRegister(d)) => StepRes::Next(
            StateV { pc: next, temps: s.temps.update(d as int, arg_or_null(s.args, a)), ..s },
        ),
        DisOpcode::LoadLocal(LocalRegister(l), TempRegister(d)) => StepRes::Next(
            StateV { pc: next, temps: s.temps.update(d as int, s.locals[l as int]), ..s },
        ),
        DisOpcode::StoreLocal(TempRegister(t), LocalRegister(l)) => StepRes::Next(
            StateV { pc: next, locals: s.locals.update(l as int, s.temps[t as int]), ..s },
        ),
        DisOpcode::GetField(TempRegister(o), StringId(n), TempRegister(d)) => StepRes::Request(
            HostReqV::GetField(s.temps[o as int], n),
            StateV { pc: next, pending: Some(d), ..s },
        ),
        DisOpcode::SetField(_, _, _) => StepRes::Finish(null_value()),
        DisOpcode::Add(TempRegister(l), TempRegister(r), TempRegister(d)) => StepRes::Next(
            StateV {
                pc: next,
                temps: s.temps.update(d as int, eval_add(s.temps[l as int], s.temps[r as int])),
                ..s
            },
        ),
        DisOpcode::Sub(TempRegister(l), TempRegister(r), TempRegister(d)) => StepRes::Next(
            StateV {
                pc: next,
                temps: s.temps.update(d as int, eval_sub(s.temps[l as int], s.temps[r as int])),
                ..s
            },
        ),
        DisOpcode::Mul(TempRegister(l), TempRegister(r), TempRegister(d)) => StepRes::Next(
            StateV {
                pc: next,
                temps: s.temps.update(d as int, eval_mul(s.temps[l as int], s.temps[r as int])),
                ..s
            },
        ),
        DisOpcode::Div(TempRegister(l), TempRegister(r), TempRegister(d)) => StepRes::Next(
            StateV {
                pc: next,
                temps: s.temps.update(d as int, eval_div(s.temps[l as int], s.temps[r as int])),
                ..s
            },
        ),
        DisOpcode::LessThan(TempRegister(l), TempRegister(r), TempRegister(d)) => StepRes::Next(
            StateV {
                pc: next,
                temps: s.temps.update(
                    d as int,
                    eval_less_than(s.temps[l as int], s.temps[r as int]),
                ),
                ..s
            },
        ),
        DisOpcode::LessOrEqual(TempRegister(l), TempRegister(r), TempRegister(d)) => StepRes::Next(
            StateV {
                pc: next,
                temps: s.temps.update(
                    d as int,
                    eval_less_or_equal(s.temps[l as int], s.temps[r as int]),
                ),
                ..s
            },
        ),
        DisOpcode::Equal(TempRegister(l), TempRegister(r), TempRegister(d)) => StepRes::Next(
            StateV {
                pc: next,
                temps: s.temps.update(d as int, eval_equal(s.temps[l as int], s.temps[r as int])),
                ..s
            },
        ),
        DisOpcode::GreaterOrEqual(TempRegister(l), TempRegister(r), TempRegister(d)) => StepRes::Next(
            StateV {
                pc: next,
                temps: s.temps.update(
                    d as int,
                    eval_greater_or_equal(s.temps[l as int], s.temps[r as int]),
                ),
                ..s
            },
        ),
        DisOpcode::GreaterThan(TempRegister(l), TempRegister(r), TempRegister(d)) => StepRes::Next(
            StateV {
                pc: next,
                temps: s.temps.update(
                    d as int,
                    eval_greater_than(s.temps[l as int], s.temps[r as int]),
                ),
                ..s
            },
        ),
        DisOpcode::Jump(Location(t)) => StepRes::Next(StateV { pc: t as int, ..s }),
        DisOpcode::JumpTrue(TempRegister(c), Location(t)) => StepRes::Next(
            StateV { pc: if is_truthy(s.temps[c as int]) { t as int } else { next }, ..s },
        ),
        DisOpcode::JumpFalse(TempRegister(c), Location(t)) => StepRes::Next(
            StateV { pc: if is_truthy(s.temps[c as int]) { next } else { t as int }, ..s },
        ),
        DisOpcode::Push(TempRegister(t)) => StepRes::Next(
            StateV { pc: next, stack: s.stack.push(s.temps[t as int]), ..s },
        ),
        DisOpcode::Call(StringId(n), TempRegister(d)) => StepRes::Request(
            HostReqV::CallProc(n, s.stack),
            StateV { pc: next, stack: Seq::empty(), pending: Some(d), ..s },
        ),
        DisOpcode::Return(TempRegister(t)) => StepRes::Finish(s.temps[t as int]),
        DisOpcode::Invalid => StepRes::Finish(null_value()),
    }
}

/// The host's reply written into the register the pausing instruction named.
pub open spec fn answered(s: StateV, reply: Register) -> StateV {
    match s.pending {
        Some(d) => StateV { temps: s.temps.update(d as int, reply), pending: None, ..s },
        None => s,
    }
}

/// The state a program starts in: the counter at offset zero, the caller's
/// arguments bound, all scratch empty.
pub open spec fn init_state(code: Seq<u8>, args: Seq<Register>) -> StateV {
    StateV {
        code,
        pc: 0,
        args,
        locals: Seq::new(256, |i: int| null_value()),
        temps: Seq::new(256, |i: int| null_value()),
        stack: Seq::empty(),
        pending: None,
    }
}

/// Detached execution: run to completion with every host request answered
/// by the empty value, within a budget of `fuel` advancing steps; nothing
/// when the budget runs out first.
pub open spec fn spec_run(s: StateV, fuel: nat) -> Option<Register>
    decreases fuel,
{
    match step(s) {
        StepRes::Finish(r) => Some(r),
        StepRes::Next(s2) => if fuel == 0 {
            None
        } else {
            spec_run(s2, (fuel - 1) as nat)
        },
        StepRes::Request(_, s2) => if fuel == 0 {
            None
        } else {
            spec_run(answered(s2, null_value()), (fuel - 1) as nat)
        },
    }
}

/// How interactive execution pauses: with a result, with a host request, or
/// with the budget exhausted mid-program.
pub enum EventOutcome {
    Done(Register),
    Paused(HostReqV, StateV),
    Exhausted(StateV),
}

/// Interactive execution up to the first host request, within a budget of
/// `fuel` advancing steps.
pub open spec fn spec_run_to_event(s: StateV, fuel: nat) -> EventOutcome
    decreases fuel,
{
    match step(s) {
        StepRes::Finish(r) => EventOutcome::Done(r),
        StepRes::Request(rq, s2) => EventOutcome::Paused(rq, s2),
        StepRes::Next(s2) => if fuel == 0 {
            EventOutcome::Exhausted(s2)
        } else {
            spec_run_to_event(s2, (fuel - 1) as nat)
        },
    }
}

/// A `JumpFalse` transfers control to its target offset when the condition
/// register holds a falsy value, and falls through to the next instruction
/// when it holds a truthy one.
pub proof fn lemma_jump_false_branches(s: StateV, c: usize, t: u32, next: int)
    requires
        spec_decode_one(s.code, s.pc) == Some(
            (DisOpcode::JumpFalse(TempRegister(c), Location(t)), next),
        ),
    ensures
        !is_truthy(s.temps[c as int]) ==> step(s) == StepRes::Next((StateV { pc: t as int, ..s })),
        is_truthy(s.temps[c as int]) ==> step(s) == StepRes::Next((StateV { pc: next, ..s })),
{
}

/// A host request as the interpreter hands it out.
pub enum HostRequest {
    /// Invoke the named procedure with the drained argument stack.
    CallProc { name: u16, args: Vec<Register> },
    /// Read the named field of the object the value references.
    GetField { obj: Register, name: u16 },
}

impl View for HostRequest {
    type V = HostReqV;

    open spec fn view(&self) -> HostReqV {
        match self {
            HostRequest::CallProc { name, args } => HostReqV::CallProc(*name, args@),
            HostRequest::GetField { obj, name } => HostReqV::GetField(*obj, *name),
        }
    }
}

/// One live program execution: registers, stack and counter, scoped to a
/// single run and discarded when it ends.
pub struct ExecState {
    bytecode: Vec<u8>,
    pc: usize,
    args: Vec<Register>,
    locals: Vec<Register>,
    temps: Vec<Register>,
    stack: Vec<Register>,
    pending: Option<usize>,
}

impl View for ExecState {
    type V = StateV;

    closed spec fn view(&self) -> StateV {
        StateV {
            code: self.bytecode@,
            pc: self.pc as int,
            args: self.args@,
            locals: self.locals@,
            temps: self.temps@,
            stack: self.stack@,
            pending: self.pending,
        }
    }
}

/// A register file of 256 empty values.
fn null_block() -> (v: Vec<Register>)
    ensures
        v@ == Seq::new(256, |i: int| null_value()),
{
    let mut v: Vec<Register> = Vec::new();
    let mut i: usize = 0;
    while i < 256
        invariant
            i <= 256,
            v@.len() == i,
            forall|j: int| 0 <= j < i ==> v@[j] == null_value(),
        decreases 256 - i,
    {
        v.push(make_null());
        i = i + 1;
    }
    proof {
        assert(v@ =~= Seq::new(256, |i: int| null_value()));
    }
    v
}

/// A verbatim copy of a program's bytes.
fn copy_bytes(src: &Vec<u8>) -> (r: Vec<u8>)
    ensures
        r@ == src@,
{
    let mut r: Vec<u8> = Vec::new();
    let mut i: usize = 0;
    while i < src.len()
        invariant
            i <= src@.len(),
            r@ == src@.take(i as int),
        decreases src@.len() - i,
    {
        r.push(src[i]);
        proof {
            assert(r@ =~= src@.take(i + 1));
        }
        i = i + 1;
    }
    proof {
        assert(src@.take(src@.len() as int) =~= src@);
    }
    r
}

impl ExecState {
    /// A fresh execution of the given bytecode, the caller's arguments
    /// bound to the argument registers.
    pub fn start(bytecode: Vec<u8>, args: Vec<Register>) -> (s: ExecState)
        ensures
            s@ == init_state(bytecode@, args@),
            wf_state(s@),
    {
        let s = ExecState {
            bytecode,
            pc: 0,
            args,
            locals: null_block(),
            temps: null_block(),
            stack: Vec::new(),
            pending: None,
        };
        proof {
            assert(s@ =~= init_state(s.bytecode@, s.args@));
        }
        s
    }
}

/// What executing one instruction did.
enum StepEvent {
    Continued,
    Finished(Register),
    Requested(HostRequest),
}

/// Executes exactly the one instruction under the program counter.
fn step_once(state: &mut ExecState) -> (ev: StepEvent)
    requires
        wf_state(old(state)@),
        old(state)@.pending is None,
    ensures
        match ev {
            StepEvent::Continued => step(old(state)@) == StepRes::Next(final(state)@) && wf_state(
                final(state)@,
            ) && final(state)@.pending is None,
            StepEvent::Finished(r) => step(old(state)@) == StepRes::Finish(r),
            StepEvent::Requested(req) => step(old(state)@) == StepRes::Request(
                req@,
                final(state)@,
            ) && wf_state(final(state)@) && final(state)@.pending is Some,
        },
{
    let ghost pre: StateV = state@;
    match decode_one_at(&state.bytecode, state.pc) {
        None => StepEvent::Finished(make_null()),
        Some((instr, next)) => {
            match instr {
                DisOpcode::Halt => StepEvent::Finished(make_null()),
                DisOpcode::LoadImmediate(TempRegister(d), t, v) => {
                    state.temps.set(d, Register { tag: t, value: v });
                    state.pc = next;
                    proof {
                        assert(step(pre) == StepRes::Next(state@));
                    }
                    StepEvent::Continued
                }
                DisOpcode::LoadArgument(ArgRegister(a), TempRegister(d)) => {
                    let v = if a < state.args.len() {
                        state.args[a]
                    } else {
                        make_null()
                    };
                    state.temps.set(d, v);
                    state.pc = next;
                    proof {
                        assert(step(pre) == StepRes::Next(state@));
                    }
                    StepEvent::Continued
                }
                DisOpcode::LoadLocal(LocalRegister(l), TempRegister(d)) => {
                    let v = state.locals[l];
                    state.temps.set(d, v);
                    state.pc = next;
                    proof {
                        assert(step(pre) == StepRes::Next(state@));
                    }
                    StepEvent::Continued
                }
                DisOpcode::StoreLocal(TempRegister(t), LocalRegister(l)) => {
                    let v = state.temps[t];
                    state.locals.set(l, v);
                    state.pc = next;
                    proof {
                        assert(step(pre) == StepRes::Next(state@));
                    }
                    StepEvent::Continued
                }
                DisOpcode::GetField(TempRegister(o), StringId(n), TempRegister(d)) => {
                    let obj = state.temps[o];
                    state.pending = Some(d);
                    state.pc = next;
                    proof {
                        assert(step(pre) == StepRes::Request(
                            HostReqV::GetField(obj, n),
                            state@,
                        ));
                    }
                    StepEvent::Requested(HostRequest::GetField { obj, name: n })
                }
                DisOpcode::SetField(_, _, _) => StepEvent::Finished(make_null()),
                DisOpcode::Add(TempRegister(l), TempRegister(r), TempRegister(d)) => {
                    let v = arith_add(state.temps[l], state.temps[r]);
                    state.temps.set(d, v);
                    state.pc = next;
                    proof {
                        assert(step(pre) == StepRes::Next(state@));
                    }
                    StepEvent::Continued
                }
                DisOpcode::Sub(TempRegister(l), TempRegister(r), TempRegister(d)) => {
                    let v = arith_sub(state.temps[l], state.temps[r]);
                    state.temps.set(d, v);
                    state.pc = next;
                    proof {
                        assert(step(pre) == StepRes::Next(state@));
                    }
                    StepEvent::Continued
                }
                DisOpcode::Mul(TempRegister(l), TempRegister(r), TempRegister(d)) => {
                    let v = arith_mul(state.temps[l], state.temps[r]);
                    state.temps.set(d, v);
                    state.pc = next;
                    proof {
                        assert(step(pre) == StepRes::Next(state@));
                    }
                    StepEvent::Continued
                }
                DisOpcode::Div(TempRegister(l), TempRegister(r), TempRegister(d)) => {
                    let v = arith_div(state.temps[l], state.temps[r]);
                    state.temps.set(d, v);
                    state.pc = next;
                    proof {
                        assert(step(pre) == StepRes::Next(state@));
                    }
                    StepEvent::Continued
                }
                DisOpcode::LessThan(TempRegister(l), TempRegister(r), TempRegister(d)) => {
                    let v = cmp_less_than(state.temps[l], state.temps[r]);
                    state.temps.set(d, v);
                    state.pc = next;
                    proof {
                        assert(step(pre) == StepRes::Next(state@));
                    }
                    StepEvent::Continued
                }
                DisOpcode::LessOrEqual(TempRegister(l), TempRegister(r), TempRegister(d)) => {
                    let v = cmp_less_or_equal(state.temps[l], state.temps[r]);
                    state.temps.set(d, v);
                    state.pc = next;
                    proof {
                        assert(step(pre) == StepRes::Next(state@));
                    }
                    StepEvent::Continued
                }
                DisOpcode::Equal(TempRegister(l), TempRegister(r), TempRegister(d)) => {
                    let v = cmp_equal(state.temps[l], state.temps[r]);
                    state.temps.set(d, v);
                    state.pc = next;
                    proof {
                        assert(step(pre) == StepRes::Next(state@));
                    }
                    StepEvent::Continued
                }
                DisOpcode::GreaterOrEqual(TempRegister(l), TempRegister(r), TempRegister(d)) => {
                    let v = cmp_greater_or_equal(state.temps[l], state.temps[r]);
                    state.temps.set(d, v);
                    state.pc = next;
                    proof {
                        assert(step(pre) == StepRes::Next(state@));
                    }
                    StepEvent::Continued
                }
                DisOpcode::GreaterThan(TempRegister(l), TempRegister(r), TempRegister(d)) => {
                    let v = cmp_greater_than(state.temps[l], state.temps[r]);
                    state.temps.set(d, v);
                    state.pc = next;
                    proof {
                        assert(step(pre) == StepRes::Next(state@));
                    }
                    StepEvent::Continued
                }
                DisOpcode::Jump(Location(t)) => {
                    state.pc = t as usize;
                    proof {
                        assert(step(pre) == StepRes::Next(state@));
                    }
                    StepEvent::Continued
                }
                DisOpcode::JumpTrue(TempRegister(c), Location(t)) => {
                    if truthy(state.temps[c]) {
                        state.pc = t as usize;
                    } else {
                        state.pc = next;
                    }
                    proof {
                        assert(step(pre) == StepRes::Next(state@));
                    }
                    StepEvent::Continued
                }
                DisOpcode::JumpFalse(TempRegister(c), Location(t)) => {
                    if truthy(state.temps[c]) {
                        state.pc = next;
                    } else {
                        state.pc = t as usize;
                    }
                    proof {
                        assert(step(pre) == StepRes::Next(state@));
                    }
                    StepEvent::Continued
                }
                DisOpcode::Push(TempRegister(t)) => {
                    let v = state.temps[t];
                    state.stack.push(v);
                    state.pc = next;
                    proof {
                        assert(step(pre) == StepRes::Next(state@));
                    }
                    StepEvent::Continued
                }
                DisOpcode::Call(StringId(n), TempRegister(d)) => {
                    let mut drained: Vec<Register> = Vec::new();
                    core::mem::swap(&mut drained, &mut state.stack);
                    state.pending = Some(d);
                    state.pc = next;
                    proof {
                        assert(step(pre) == StepRes::Request(
                            HostReqV::CallProc(n, drained@),
                            state@,
                        ));
                    }
                    StepEvent::Requested(HostRequest::CallProc { name: n, args: drained })
                }
                DisOpcode::Return(TempRegister(t)) => StepEvent::Finished(state.temps[t]),
                DisOpcode::Invalid => StepEvent::Finished(make_null()),
            }
        }
    }
}

/// How a paused interactive run reports itself to the driver.
pub enum RunEvent {
    /// The program returned or halted with this result.
    Done(Register),
    /// The machine needs the host: perform the request, then feed the
    /// reply back with `provide` and run again.
    Request(HostRequest),
    /// The step budget ran out before the program ended.
    OutOfFuel,
}

/// Runs the machine until the program ends, the host is needed, or the
/// budget of `fuel` advancing steps runs out.
pub fn run(state: &mut ExecState, fuel: u64) -> (ev: RunEvent)
    requires
        wf_state(old(state)@),
        old(state)@.pending is None,
    ensures
        match spec_run_to_event(old(state)@, fuel as nat) {
            EventOutcome::Done(r) => ev == RunEvent::Done(r),
            EventOutcome::Paused(rq, s2) => (ev matches RunEvent::Request(hr) && hr@ == rq)
                && final(state)@ == s2 && wf_state(s2) && s2.pending is Some,
            EventOutcome::Exhausted(s2) => ev == RunEvent::OutOfFuel && final(state)@ == s2
                && wf_state(s2) && s2.pending is None,
        },
{
    let mut left = fuel;
    loop
        invariant
            wf_state(state@),
            state@.pending is None,
            left <= fuel,
            spec_run_to_event(old(state)@, fuel as nat) == spec_run_to_event(
                state@,
                left as nat,
            ),
        decreases left,
    {
        match step_once(state) {
            StepEvent::Finished(r) => {
                return RunEvent::Done(r);
            }
            StepEvent::Requested(req) => {
                return RunEvent::Request(req);
            }
            StepEvent::Continued => {
                if left == 0 {
                    return RunEvent::OutOfFuel;
                }
                left = left - 1;
            }
        }
    }
}

/// Writes the host's reply into the register the pausing instruction named;
/// the machine is then ready to run again.
pub fn provide(state: &mut ExecState, reply: Register)
    requires
        wf_state(old(state)@),
        old(state)@.pending is Some,
    ensures
        final(state)@ == answered(old(state)@, reply),
        wf_state(final(state)@),
        final(state)@.pending is None,
{
    match state.pending {
        Some(d) => {
            state.temps.set(d, reply);
            state.pending = None;
        }
        None => {}
    }
}

/// The virtual machine: a table of programs keyed by procedure identifier.
pub struct VM {
    programs: Table<Vec<u8>>,
}

impl VM {
    /// The program table as a finite map.
    pub closed spec fn programs_map(self) -> Map<u32, Vec<u8>> {
        self.programs@
    }

    pub fn new() -> (vm: VM)
        ensures
            vm.programs_map() == Map::<u32, Vec<u8>>::empty(),
    {
        VM { programs: Table::new() }
    }

    /// Stores a program under the identifier, replacing any previous one:
    /// re-registration is idempotent at this layer, and uniqueness is the
    /// registry's business one layer up.
    pub fn add_program(&mut self, id: u32, bytecode: Vec<u8>)
        ensures
            final(self).programs_map() == old(self).programs_map().insert(id, bytecode),
    {
        self.programs.upsert(id, bytecode);
    }

    /// Whether a program is loaded for the identifier.
    pub fn has_program(&self, id: u32) -> (r: bool)
        ensures
            r == self.programs_map().contains_key(id),
    {
        self.programs.contains(id)
    }

    /// A fresh interactive execution of the stored program, for a driver
    /// that answers host requests itself.
    pub fn start_program(&self, id: u32, args: Vec<Register>) -> (r: Option<ExecState>)
        ensures
            match r {
                Some(st) => self.programs_map().contains_key(id) && st@ == init_state(
                    self.programs_map()[id]@,
                    args@,
                ) && wf_state(st@) && st@.pending is None,
                None => !self.programs_map().contains_key(id),
            },
    {
        match self.programs.get(id) {
            Some(prog) => Some(ExecState::start(copy_bytes(prog), args)),
            None => None,
        }
    }

    /// Runs the stored program to completion detached from the host: every
    /// host request is answered with the empty value. Yields nothing when
    /// no program is stored, or when the budget of `fuel` advancing steps
    /// runs out first.
    pub fn run_program(&self, id: u32, args: Vec<Register>, fuel: u64) -> (r: Option<Register>)
        ensures
            self.programs_map().contains_key(id) ==> r == spec_run(
                init_state(self.programs_map()[id]@, args@),
                fuel as nat,
            ),
            !self.programs_map().contains_key(id) ==> r is None,
    {
        let mut state = match self.start_program(id, args) {
            Some(st) => st,
            None => {
                return None;
            }
        };
        let ghost start: StateV = state@;
        let mut left = fuel;
        loop
            invariant
                wf_state(state@),
                state@.pending is None,
                self.programs_map().contains_key(id),
                start == init_state(self.programs_map()[id]@, args@),
                spec_run(start, fuel as nat) == spec_run(state@, left as nat),
            decreases left,
        {
            match step_once(&mut state) {
                StepEvent::Finished(r) => {
                    return Some(r);
                }
                StepEvent::Continued => {
                    if left == 0 {
                        return None;
                    }
                    left = left - 1;
                }
                StepEvent::Requested(_) => {
                    if left == 0 {
                        return None;
                    }
                    left = left - 1;
                    provide(&mut state, make_null());
                }
            }
        }
    }
}

} // verus!
