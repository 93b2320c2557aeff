use vstd::prelude::*;

use crate::isa::{is_known_opcode, is_opcode, mnemonic_of, mnemonic_spec, NUM_REGISTERS};
use crate::text::{append_decimal, decimal};

verus! {

/// What a step asks of the world outside the machine.
#[derive(Debug, Clone, Copy, PartialEq, Eq)]
pub enum Effect {
    /// Nothing.
    Nothing,
    /// Show a value that PRINT added to the text output.
    Print(i32),
    /// Set the pixel at (x, y) to a palette index.
    Draw(i32, i32, u8),
    /// Clear the display.
    Clear,
    /// Suspend execution for the given number of milliseconds.
    Sleep(i32),
}

/// Why a step halted the machine, or found it halted.
#[derive(Debug, Clone, Copy, PartialEq, Eq)]
pub enum Stop {
    /// The machine was halted before the step; nothing was done.
    AlreadyHalted,
    /// A HALT instruction ran.
    Halt,
    /// The value at the program counter is no opcode: the value and its position.
    UnknownOpcode(i32, usize),
    /// The instruction at this position lacks operands or names a register that does not
    /// exist.
    BadOperand(usize),
}

/// Report of one step.
#[derive(Debug, Clone, Copy, PartialEq, Eq)]
pub struct Outcome {
    pub effect: Effect,
    pub stop: Option<Stop>,
    /// The program counter ended at or past the end of the program, which halted the
    /// machine.
    pub past_end: bool,
}

/// Abstract state of the machine.
pub struct Machine {
    pub regs: Seq<i32>,
    pub stack: Seq<i32>,
    pub program: Seq<i32>,
    pub pc: int,
    pub halted: bool,
    pub output: Seq<char>,
}

/// A register machine that runs bytecode.
pub struct VM {
    /// General-purpose registers R0 .. R9.
    pub regs: [i32; 10],
    /// Operand and return-address stack; its top is the last element.
    pub stack: Vec<i32>,
    pub program: Vec<i32>,
    /// Index into `program` of the next instruction.
    pub pc: usize,
    pub halted: bool,
    /// Text that PRINT instructions have written.
    pub txt_output: String,
}

impl View for VM {
    type V = Machine;

    open spec fn view(&self) -> Machine {
        Machine {
            regs: self.regs@,
            stack: self.stack@,
            program: self.program@,
            pc: self.pc as int,
            halted: self.halted,
            output: self.txt_output@,
        }
    }
}

/// Number of operands that follow opcode `op`.
pub open spec fn arity(op: i32) -> int {
    if op == 10 || op == 11 || op == 20 || op == 21 {
        2
    } else if op == 30 || op == 31 || op == 40 || op == 42 || op == 60 || op == 70 {
        1
    } else if op == 41 || op == 61 {
        3
    } else {
        0
    }
}

/// Number of leading operands of opcode `op` that name registers.
pub open spec fn register_operands(op: i32) -> int {
    if op == 10 || op == 20 || op == 21 || op == 41 {
        2
    } else if op == 11 || op == 30 || op == 31 || op == 60 {
        1
    } else if op == 61 {
        3
    } else {
        0
    }
}

pub open spec fn is_register(v: i32) -> bool {
    0 <= v < 10
}

/// Operand `k` (from 1) of the instruction at the program counter.
pub open spec fn arg(m: Machine, k: int) -> i32 {
    m.program[m.pc + k]
}

/// Value of the register that operand `k` names.
pub open spec fn reg_arg(m: Machine, k: int) -> i32 {
    m.regs[arg(m, k) as int]
}

/// The operands of opcode `op` at the program counter are all there and those that name
/// registers name existing ones.
pub open spec fn operands_valid(m: Machine, op: i32) -> bool {
    &&& m.pc + arity(op) < m.program.len()
    &&& register_operands(op) >= 1 ==> is_register(arg(m, 1))
    &&& register_operands(op) >= 2 ==> is_register(arg(m, 2))
    &&& register_operands(op) >= 3 ==> is_register(arg(m, 3))
}

/// The state with register `r` set to `v` and the program counter moved by `w`.
pub open spec fn set_reg(m: Machine, r: i32, v: i32, w: int) -> Machine {
    Machine { regs: m.regs.update(r as int, v), pc: m.pc + w, ..m }
}

/// The state with the program counter moved by `w`.
pub open spec fn advance(m: Machine, w: int) -> Machine {
    Machine { pc: m.pc + w, ..m }
}

/// The state with the program counter at address `a` read as an unsigned index (a
/// negative address lands far past the end of any program).
pub open spec fn jump(m: Machine, a: i32) -> Machine {
    Machine { pc: (a as usize) as int, ..m }
}

/// The return address that CALL at `pc` pushes: `pc + 2` as a 32-bit value, wrapping.
pub open spec fn return_address(pc: int) -> i32 {
    (pc as i32).wrapping_add(2)
}

/// The state halted, and otherwise unchanged.
pub open spec fn halt(m: Machine) -> Machine {
    Machine { halted: true, ..m }
}

/// Top of the stack, or 0 where it is empty.
pub open spec fn top_or_zero(s: Seq<i32>) -> i32 {
    if s.len() == 0 {
        0
    } else {
        s.last()
    }
}

/// The stack without its top, if it has one.
pub open spec fn popped(s: Seq<i32>) -> Seq<i32> {
    if s.len() == 0 {
        s
    } else {
        s.drop_last()
    }
}

/// Effect of the instruction `op` at the program counter of a running machine whose
/// operands are valid: the next state, what it asks of the world, and why it halted.
pub open spec fn execute(m: Machine, op: i32) -> (Machine, Effect, Option<Stop>) {
    if op == 10 {
        (set_reg(m, arg(m, 1), reg_arg(m, 2), 3), Effect::Nothing, None)
    } else if op == 11 {
        (set_reg(m, arg(m, 1), arg(m, 2), 3), Effect::Nothing, None)
    } else if op == 20 {
        (
            set_reg(m, arg(m, 1), reg_arg(m, 1).wrapping_add(reg_arg(m, 2)), 3),
            Effect::Nothing,
            None,
        )
    } else if op == 21 {
        (
            set_reg(m, arg(m, 1), reg_arg(m, 1).wrapping_sub(reg_arg(m, 2)), 3),
            Effect::Nothing,
            None,
        )
    } else if op == 30 {
        (Machine { stack: m.stack.push(reg_arg(m, 1)), ..advance(m, 2) }, Effect::Nothing, None)
    } else if op == 31 {
        (
            Machine { stack: popped(m.stack), ..set_reg(m, arg(m, 1), top_or_zero(m.stack), 2) },
            Effect::Nothing,
            None,
        )
    } else if op == 40 {
        (jump(m, arg(m, 1)), Effect::Nothing, None)
    } else if op == 41 {
        if reg_arg(m, 1) < reg_arg(m, 2) {
            (jump(m, arg(m, 3)), Effect::Nothing, None)
        } else {
            (advance(m, 4), Effect::Nothing, None)
        }
    } else if op == 42 {
        (
            Machine { stack: m.stack.push(return_address(m.pc)), ..jump(m, arg(m, 1)) },
            Effect::Nothing,
            None,
        )
    } else if op == 50 {
        (
            Machine { stack: popped(m.stack), ..jump(m, top_or_zero(m.stack)) },
            Effect::Nothing,
            None,
        )
    } else if op == 60 {
        (
            Machine { output: m.output + decimal(reg_arg(m, 1) as int), ..advance(m, 2) },
            Effect::Print(reg_arg(m, 1)),
            None,
        )
    } else if op == 61 {
        (
            advance(m, 4),
            Effect::Draw(reg_arg(m, 1), reg_arg(m, 2), reg_arg(m, 3) as u8),
            None,
        )
    } else if op == 62 {
        (advance(m, 1), Effect::Clear, None)
    } else if op == 70 {
        (advance(m, 2), Effect::Sleep(arg(m, 1)), None)
    } else {
        (halt(advance(m, 1)), Effect::Nothing, Some(Stop::Halt))
    }
}

/// Effect of the instruction at the program counter of a running machine, before the
/// bound check on the program counter.
pub open spec fn decode_execute(m: Machine) -> (Machine, Effect, Option<Stop>) {
    let op = m.program[m.pc];
    if !is_opcode(op as int) {
        (halt(m), Effect::Nothing, Some(Stop::UnknownOpcode(op, m.pc as usize)))
    } else if !operands_valid(m, op) {
        (halt(m), Effect::Nothing, Some(Stop::BadOperand(m.pc as usize)))
    } else {
        execute(m, op)
    }
}

/// One step of the machine: the next state and the report of the step.
pub open spec fn step_spec(m: Machine) -> (Machine, Outcome) {
    if m.halted {
        (m, Outcome { effect: Effect::Nothing, stop: Some(Stop::AlreadyHalted), past_end: false })
    } else if m.pc >= m.program.len() {
        (halt(m), Outcome { effect: Effect::Nothing, stop: None, past_end: true })
    } else {
        let (n, effect, stop) = decode_execute(m);
        let past_end = n.pc >= n.program.len();
        (
            if past_end {
                halt(n)
            } else {
                n
            },
            Outcome { effect, stop, past_end },
        )
    }
}

/// The machine has its ten registers, as every state of a `VM` has.
pub open spec fn well_formed(m: Machine) -> bool {
    m.regs.len() == 10
}

/// The machine runs and the instruction at its program counter is `op`, with valid operands.
pub open spec fn about_to_run(m: Machine, op: i32) -> bool {
    &&& well_formed(m)
    &&& !m.halted
    &&& 0 <= m.pc < m.program.len()
    &&& m.program[m.pc] == op
    &&& operands_valid(m, op)
}

/// POP on an empty stack puts 0 in its register and does not halt the machine, where an
/// instruction follows it.
pub proof fn lemma_pop_empty_gives_zero(m: Machine)
    requires
        about_to_run(m, 31),
        m.stack.len() == 0,
        m.pc + 2 < m.program.len(),
    ensures
        step_spec(m).0.regs[arg(m, 1) as int] == 0,
        !step_spec(m).0.halted,
        step_spec(m).1.stop is None,
{
}

/// A first value that is no opcode halts the machine at once, with every register as it was
/// and the unknown opcode reported.
pub proof fn lemma_unknown_first_opcode_halts(m: Machine)
    requires
        !m.halted,
        m.pc == 0,
        m.program.len() > 0,
        !is_opcode(m.program[0] as int),
    ensures
        step_spec(m).0.halted,
        step_spec(m).0.regs == m.regs,
        step_spec(m).1.stop == Some(Stop::UnknownOpcode(m.program[0], 0)),
{
}

/// A RET that finds the stack as the CALL left it returns to the instruction after the
/// CALL, and leaves the stack as it was before the CALL.
pub proof fn lemma_call_then_ret_returns(m: Machine, later: Machine)
    requires
        about_to_run(m, 42),
        m.pc + 2 <= i32::MAX,
        about_to_run(later, 50),
        later.stack == step_spec(m).0.stack,
    ensures
        step_spec(later).0.pc == m.pc + 2,
        step_spec(later).0.stack == m.stack,
{
    assert(return_address(m.pc) == m.pc + 2);
    assert(step_spec(m).0.stack == m.stack.push((m.pc + 2) as i32));
    assert(later.stack.drop_last() =~= m.stack);
}

/// JL jumps to its address (as an unsigned index) exactly where its first register holds
/// less than its second, and otherwise goes on with the next instruction.
pub proof fn lemma_jl_branches_on_less(m: Machine)
    requires
        about_to_run(m, 41),
    ensures
        step_spec(m).0.pc == if reg_arg(m, 1) < reg_arg(m, 2) {
            (arg(m, 3) as usize) as int
        } else {
            m.pc + 4
        },
        step_spec(m).1.stop is None,
{
}

/// A running machine that meets a known opcode with valid operands halts exactly on HALT
/// or when its program counter ends at or past the end of the program.
pub proof fn lemma_halts_only_on_halt_or_past_end(m: Machine)
    requires
        well_formed(m),
        !m.halted,
        0 <= m.pc < m.program.len(),
        is_opcode(m.program[m.pc] as int),
        operands_valid(m, m.program[m.pc]),
    ensures
        step_spec(m).0.halted == (m.program[m.pc] == 255 || step_spec(m).0.pc
            >= m.program.len()),
{
}

fn arity_of(op: i32) -> (r: usize)
    ensures
        r == arity(op),
{
    if op == 10 || op == 11 || op == 20 || op == 21 {
        2
    } else if op == 30 || op == 31 || op == 40 || op == 42 || op == 60 || op == 70 {
        1
    } else if op == 41 || op == 61 {
        3
    } else {
        0
    }
}

fn register_operands_of(op: i32) -> (r: usize)
    ensures
        r == register_operands(op),
{
    if op == 10 || op == 20 || op == 21 || op == 41 {
        2
    } else if op == 11 || op == 30 || op == 31 || op == 60 {
        1
    } else if op == 61 {
        3
    } else {
        0
    }
}

impl VM {
    /// A machine with zeroed registers, an empty stack and no program.
    pub fn new() -> (r: VM)
        ensures
            r@.regs == Seq::new(10, |i: int| 0i32),
            r@.stack.len() == 0,
            r@.program.len() == 0,
            r@.pc == 0,
            !r@.halted,
            r@.output.len() == 0,
    {
        let r = VM {
            regs: [0; 10],
            stack: Vec::new(),
            program: Vec::new(),
            pc: 0,
            halted: false,
            txt_output: String::new(),
        };
        assert(r@.regs =~= Seq::new(10, |i: int| 0i32));
        r
    }

    /// Installs `prg` and makes the machine ready to run it: the stack is emptied, the
    /// program counter is 0, the machine runs, and the text output is `txt_out` (empty
    /// when it is `None`). The registers keep their values.
    pub fn init(&mut self, prg: Vec<i32>, txt_out: Option<String>)
        ensures
            final(self)@.program == prg@,
            final(self)@.output == (match txt_out {
                Some(t) => t@,
                None => Seq::<char>::empty(),
            }),
            final(self)@.pc == 0,
            !final(self)@.halted,
            final(self)@.stack.len() == 0,
            final(self)@.regs == old(self)@.regs,
    {
        self.program = prg;
        self.txt_output = match txt_out {
            Some(t) => t,
            None => String::new(),
        };
        self.pc = 0;
        self.halted = false;
        self.stack.clear();
    }

    /// Runs the instruction at the program counter: see `step_spec`.
    pub fn step(&mut self) -> (r: Outcome)
        ensures
            (final(self)@, r) == step_spec(old(self)@),
    {
        if self.halted {
            return Outcome { effect: Effect::Nothing, stop: Some(Stop::AlreadyHalted), past_end: false };
        }
        if self.pc >= self.program.len() {
            self.halted = true;
            return Outcome { effect: Effect::Nothing, stop: None, past_end: true };
        }
        let (effect, stop) = self.decode_execute();
        let past_end = self.pc >= self.program.len();
        if past_end {
            self.halted = true;
        }
        Outcome { effect, stop, past_end }
    }

    fn fault(&mut self) -> (r: (Effect, Option<Stop>))
        ensures
            final(self)@ == halt(old(self)@),
            r == (Effect::Nothing, Some(Stop::BadOperand(old(self).pc))),
    {
        self.halted = true;
        (Effect::Nothing, Some(Stop::BadOperand(self.pc)))
    }

    fn decode_execute(&mut self) -> (r: (Effect, Option<Stop>))
        requires
            !old(self).halted,
            old(self).pc < old(self).program.len(),
        ensures
            (final(self)@, r.0, r.1) == decode_execute(old(self)@),
    {
        let ghost m = self@;
        let pc = self.pc;
        let len = self.program.len();
        let op = self.program[pc];
        if !is_known_opcode(op) {
            self.halted = true;
            return (Effect::Nothing, Some(Stop::UnknownOpcode(op, pc)));
        }
        if arity_of(op) >= len - pc {
            return self.fault();
        }
        let nr = register_operands_of(op);
        let mut k: usize = 1;
        while k <= nr
            invariant
                self@ == m,
                m == old(self)@,
                op == m.program[m.pc],
                is_opcode(op as int),
                pc == m.pc,
                nr == register_operands(op),
                nr <= arity(op),
                arity(op) < len - pc,
                len == m.program.len(),
                1 <= k <= nr + 1,
                forall|j: int| 1 <= j < k ==> is_register(#[trigger] arg(m, j)),
            decreases nr + 1 - k,
        {
            let v = self.program[pc + k];
            if !(0 <= v && v < NUM_REGISTERS as i32) {
                assert(arg(m, k as int) == v);
                assert(k == 1 || k == 2 || k == 3);
                assert(!operands_valid(m, op));
                return self.fault();
            }
            k = k + 1;
        }
        assert(operands_valid(m, op));
        if op == 10 {
            let d = self.program[pc + 1] as usize;
            let s = self.program[pc + 2] as usize;
            self.regs[d] = self.regs[s];
            self.pc = pc + 3;
        } else if op == 11 {
            let d = self.program[pc + 1] as usize;
            self.regs[d] = self.program[pc + 2];
            self.pc = pc + 3;
        } else if op == 20 {
            let d = self.program[pc + 1] as usize;
            let s = self.program[pc + 2] as usize;
            self.regs[d] = self.regs[d].wrapping_add(self.regs[s]);
            self.pc = pc + 3;
        } else if op == 21 {
            let d = self.program[pc + 1] as usize;
            let s = self.program[pc + 2] as usize;
            self.regs[d] = self.regs[d].wrapping_sub(self.regs[s]);
            self.pc = pc + 3;
        } else if op == 30 {
            let s = self.program[pc + 1] as usize;
            let v = self.regs[s];
            self.stack.push(v);
            self.pc = pc + 2;
        } else if op == 31 {
            let d = self.program[pc + 1] as usize;
            let v = match self.stack.pop() {
                Some(v) => v,
                None => 0,
            };
            self.regs[d] = v;
            self.pc = pc + 2;
        } else if op == 40 {
            let a = self.program[pc + 1];
            self.pc = #[verifier::truncate] (a as usize);
        } else if op == 41 {
            let x = self.program[pc + 1] as usize;
            let y = self.program[pc + 2] as usize;
            if self.regs[x] < self.regs[y] {
                let a = self.program[pc + 3];
                self.pc = #[verifier::truncate] (a as usize);
            } else {
                self.pc = pc + 4;
            }
        } else if op == 42 {
            let a = self.program[pc + 1];
            self.stack.push((#[verifier::truncate] (pc as i32)).wrapping_add(2));
            self.pc = #[verifier::truncate] (a as usize);
        } else if op == 50 {
            let a = match self.stack.pop() {
                Some(v) => v,
                None => 0,
            };
            self.pc = #[verifier::truncate] (a as usize);
        } else if op == 60 {
            let s = self.program[pc + 1] as usize;
            let v = self.regs[s];
            append_decimal(&mut self.txt_output, v);
            self.pc = pc + 2;
            return (Effect::Print(v), None);
        } else if op == 61 {
            let x = self.regs[self.program[pc + 1] as usize];
            let y = self.regs[self.program[pc + 2] as usize];
            let c = self.regs[self.program[pc + 3] as usize];
            self.pc = pc + 4;
            return (Effect::Draw(x, y, #[verifier::truncate] (c as u8)), None);
        } else if op == 62 {
            self.pc = pc + 1;
            return (Effect::Clear, None);
        } else if op == 70 {
            let ms = self.program[pc + 1];
            self.pc = pc + 2;
            return (Effect::Sleep(ms), None);
        } else {
            self.pc = pc + 1;
            self.halted = true;
            return (Effect::Nothing, Some(Stop::Halt));
        }
        (Effect::Nothing, None)
    }

    /// Mnemonic of the opcode at the program counter.
    pub fn get_current_instruction(&self) -> (r: &'static str)
        requires
            self.pc < self.program.len(),
        ensures
            r@ == mnemonic_spec(self.program@[self.pc as int] as int),
    {
        mnemonic_of(self.program[self.pc])
    }
}

} // verus!
