//! The meaning of a program, as one spec-level machine.
//!
//! A run owns a single operand stack and an output tape.  `run_op` gives the
//! outcome of invoking one arena entry against that machine; `run_body` walks
//! a user-defined operation's dependency list under the shared control-flow
//! rules: `if` pops and decides, a non-skipped `else` ends the whole body,
//! `__self__` is a nested invocation of the enclosing operation, and
//! `__self__goto__` restarts the walk in the same activation.
//!
//! Both recursions are bounded by two separate budgets: `depth` pays for
//! nested invocations (each one more ring of the native call stack) and
//! `steps` pays for same-frame restarts.  A run that outgrows a budget ends
//! in `NoFuel` rather than claiming anything.

use crate::num::parse_int_spec;
use crate::op::{is_control_kind, Program, State, StateType};
use vstd::prelude::*;

verus! {

/// One unit of program output: a formatted integer, or the raw bytes of one
/// operand word.
#[derive(Clone, Copy, PartialEq, Eq, Structural, Debug)]
pub enum OutEvent {
    Print(i64),
    Raw(i64),
}

/// The fatal conditions: every one of them ends the whole run at once.
#[derive(Clone, Copy, PartialEq, Eq, Structural, Debug)]
pub enum RunError {
    /// A primitive asked for more operands than the stack holds.
    StackUnderflow,
    /// Division by zero, or the one quotient that overflows a 64-bit word.
    DivisionError,
    /// A primitive that only exists in compiled code reached the interpreter.
    CompileOnly,
    /// A dependency index points outside the arena.
    InvalidIndex,
    /// A body whose `if` and `else` markers are not equal in number.
    UnbalancedConditional,
    /// An integer operation whose name is not a 64-bit decimal literal.
    BadLiteral,
}

/// The whole mutable state of a run: the operand stack and the output so far.
pub struct Machine {
    pub stack: Seq<i64>,
    pub out: Seq<OutEvent>,
}

/// What running one operation (or one body) comes to.
pub enum Outcome {
    /// The walk ended normally, leaving this machine.
    Done(Machine),
    /// An `exit` primitive ended the run with this code.
    Exited(i64, Machine),
    /// A fatal error; the machine holds the output produced before it.
    Failed(RunError, Machine),
    /// A budget ran out; nothing is claimed beyond the machine reached.
    NoFuel(Machine),
}

impl Machine {
    pub open spec fn push(self, v: i64) -> Machine {
        Machine { stack: self.stack.push(v), out: self.out }
    }

    pub open spec fn drop_top(self, n: int) -> Machine {
        Machine { stack: self.stack.take(self.stack.len() - n), out: self.out }
    }

    pub open spec fn emit(self, e: OutEvent) -> Machine {
        Machine { stack: self.stack, out: self.out.push(e) }
    }
}

/// Truncating signed division, the quotient the machine computes: magnitudes
/// divide, the sign follows the operands.
pub open spec fn div_trunc(x: int, d: int) -> int {
    if x == 0 {
        0
    } else if x > 0 && d > 0 {
        x / d
    } else if x < 0 && d < 0 {
        (x * -1) / (d * -1)
    } else if x < 0 {
        ((x * -1) / d) * -1
    } else {
        (x / (d * -1)) * -1
    }
}

/// The kinds whose whole effect is on the machine: everything but the
/// control markers and user-defined operations.
pub open spec fn is_plain_prim(t: StateType) -> bool {
    !(t is Additional) && !is_control_kind(t)
}

/// How many values a parameterized duplicate or discard handles: its literal
/// argument, read as zero when negative, and one for a bare instance.
pub open spec fn rep_count(args: Seq<i64>, has_args: bool) -> int {
    if !has_args {
        1
    } else if args[0] >= 0 {
        args[0] as int
    } else {
        0
    }
}

/// The effect of one plain primitive on the machine.  Binary operations pop
/// the right operand first: the value pushed earlier is the left-hand side.
/// Addition, subtraction, multiplication, increment and decrement wrap as
/// two's-complement machine words do.
pub open spec fn step_prim(
    t: StateType,
    name: Seq<char>,
    args: Seq<i64>,
    has_args: bool,
    m: Machine,
) -> Outcome {
    let len = m.stack.len() as int;
    match t {
        StateType::Integer => match parse_int_spec(name) {
            Some(v) => Outcome::Done(m.push(v)),
            None => Outcome::Failed(RunError::BadLiteral, m),
        },
        StateType::StackHead => Outcome::Failed(RunError::CompileOnly, m),
        StateType::ReadFrom => Outcome::Failed(RunError::CompileOnly, m),
        StateType::WriteTo => Outcome::Failed(RunError::CompileOnly, m),
        StateType::Eq => {
            if len < 2 {
                Outcome::Failed(RunError::StackUnderflow, m)
            } else {
                Outcome::Done(
                    m.drop_top(2).push(
                        if m.stack[len - 2] == m.stack[len - 1] {
                            1i64
                        } else {
                            0i64
                        },
                    ),
                )
            }
        },
        StateType::Neq => {
            if len < 2 {
                Outcome::Failed(RunError::StackUnderflow, m)
            } else {
                Outcome::Done(
                    m.drop_top(2).push(
                        if m.stack[len - 2] != m.stack[len - 1] {
                            1i64
                        } else {
                            0i64
                        },
                    ),
                )
            }
        },
        StateType::More => {
            if len < 2 {
                Outcome::Failed(RunError::StackUnderflow, m)
            } else {
                Outcome::Done(
                    m.drop_top(2).push(
                        if m.stack[len - 2] > m.stack[len - 1] {
                            1i64
                        } else {
                            0i64
                        },
                    ),
                )
            }
        },
        StateType::Less => {
            if len < 2 {
                Outcome::Failed(RunError::StackUnderflow, m)
            } else {
                Outcome::Done(
                    m.drop_top(2).push(
                        if m.stack[len - 2] < m.stack[len - 1] {
                            1i64
                        } else {
                            0i64
                        },
                    ),
                )
            }
        },
        StateType::Dup => {
            if len < 1 {
                Outcome::Failed(RunError::StackUnderflow, m)
            } else {
                Outcome::Done(
                    Machine {
                        stack: m.stack + Seq::new(
                            rep_count(args, has_args) as nat,
                            |i: int| m.stack.last(),
                        ),
                        out: m.out,
                    },
                )
            }
        },
        StateType::Pop => {
            if len < rep_count(args, has_args) {
                Outcome::Failed(RunError::StackUnderflow, m)
            } else {
                Outcome::Done(m.drop_top(rep_count(args, has_args)))
            }
        },
        StateType::Inc => {
            if len < 1 {
                Outcome::Failed(RunError::StackUnderflow, m)
            } else {
                Outcome::Done(
                    m.drop_top(1).push(
                        vstd::wrapping::i64_specs::wrapping_add(m.stack.last(), 1),
                    ),
                )
            }
        },
        StateType::Dec => {
            if len < 1 {
                Outcome::Failed(RunError::StackUnderflow, m)
            } else {
                Outcome::Done(
                    m.drop_top(1).push(
                        vstd::wrapping::i64_specs::wrapping_sub(m.stack.last(), 1),
                    ),
                )
            }
        },
        StateType::Sum => {
            if len < 2 {
                Outcome::Failed(RunError::StackUnderflow, m)
            } else {
                Outcome::Done(
                    m.drop_top(2).push(
                        vstd::wrapping::i64_specs::wrapping_add(
                            m.stack[len - 2],
                            m.stack[len - 1],
                        ),
                    ),
                )
            }
        },
        StateType::Dif => {
            if len < 2 {
                Outcome::Failed(RunError::StackUnderflow, m)
            } else {
                Outcome::Done(
                    m.drop_top(2).push(
                        vstd::wrapping::i64_specs::wrapping_sub(
                            m.stack[len - 2],
                            m.stack[len - 1],
                        ),
                    ),
                )
            }
        },
        StateType::Mul => {
            if len < 2 {
                Outcome::Failed(RunError::StackUnderflow, m)
            } else {
                Outcome::Done(
                    m.drop_top(2).push(
                        vstd::wrapping::i64_specs::wrapping_mul(
                            m.stack[len - 2],
                            m.stack[len - 1],
                        ),
                    ),
                )
            }
        },
        StateType::Div => {
            if len < 2 {
                Outcome::Failed(RunError::StackUnderflow, m)
            } else if m.stack[len - 1] == 0 || !(i64::MIN <= div_trunc(
                m.stack[len - 2] as int,
                m.stack[len - 1] as int,
            ) <= i64::MAX) {
                // zero divisor, or the one quotient that overflows the word
                Outcome::Failed(RunError::DivisionError, m)
            } else {
                Outcome::Done(
                    m.drop_top(2).push(
                        div_trunc(m.stack[len - 2] as int, m.stack[len - 1] as int) as i64,
                    ),
                )
            }
        },
        StateType::Swap => {
            if !has_args {
                if len < 2 {
                    Outcome::Failed(RunError::StackUnderflow, m)
                } else {
                    Outcome::Done(
                        Machine {
                            stack: m.stack.update(len - 1, m.stack[len - 2]).update(
                                len - 2,
                                m.stack[len - 1],
                            ),
                            out: m.out,
                        },
                    )
                }
            } else {
                let a = args[0] as int;
                let b = args[1] as int;
                if a < 0 || b < 0 || a >= len || b >= len {
                    Outcome::Failed(RunError::StackUnderflow, m)
                } else {
                    Outcome::Done(
                        Machine {
                            stack: m.stack.update(len - 1 - a, m.stack[len - 1 - b]).update(
                                len - 1 - b,
                                m.stack[len - 1 - a],
                            ),
                            out: m.out,
                        },
                    )
                }
            }
        },
        StateType::Print => {
            if len < 1 {
                Outcome::Failed(RunError::StackUnderflow, m)
            } else {
                Outcome::Done(m.drop_top(1).emit(OutEvent::Print(m.stack.last())))
            }
        },
        StateType::WriteRaw => {
            if len < 1 {
                Outcome::Failed(RunError::StackUnderflow, m)
            } else {
                Outcome::Done(m.drop_top(1).emit(OutEvent::Raw(m.stack.last())))
            }
        },
        StateType::Exit => {
            if len < 1 {
                Outcome::Failed(RunError::StackUnderflow, m)
            } else {
                Outcome::Exited(m.stack.last(), m.drop_top(1))
            }
        },
        _ => Outcome::Done(m),
    }
}

/// How many immediate dependencies of the list carry this kind.
pub open spec fn num_of_kind(p: Program, deps: Seq<usize>, t: StateType) -> int
    decreases deps.len(),
{
    if deps.len() == 0 {
        0
    } else {
        num_of_kind(p, deps.drop_last(), t) + if p.states@[deps.last() as int].state_type == t {
            1int
        } else {
            0int
        }
    }
}

/// Every dependency of `s` points inside the arena.
pub open spec fn deps_valid(p: Program, s: State) -> bool {
    forall|k: int| 0 <= k < s.deps@.len() ==> #[trigger] s.deps@[k] < p.states@.len()
}

/// The walk of a user-defined body from position `pos`, with `skipping` set
/// while a false branch is being passed over.
pub open spec fn run_body(
    p: Program,
    self_idx: int,
    pos: int,
    skipping: bool,
    m: Machine,
    depth: nat,
    steps: nat,
) -> Outcome
    decreases depth, steps, p.states@[self_idx].deps@.len() - pos,
{
    let deps = p.states@[self_idx].deps@;
    if pos < 0 || pos >= deps.len() {
        Outcome::Done(m)
    } else {
        let d = deps[pos] as int;
        if d >= p.states@.len() {
            Outcome::Failed(RunError::InvalidIndex, m)
        } else {
            let s = p.states@[d];
            if s.state_type is If {
                // an `if` pops and decides even inside a skipped branch
                if m.stack.len() == 0 {
                    Outcome::Failed(RunError::StackUnderflow, m)
                } else {
                    run_body(
                        p,
                        self_idx,
                        pos + 1,
                        skipping || m.stack.last() <= 0,
                        m.drop_top(1),
                        depth,
                        steps,
                    )
                }
            } else if skipping {
                run_body(p, self_idx, pos + 1, !(s.state_type is Else), m, depth, steps)
            } else if s.state_type is Else {
                // a true branch ran to its `else`: the whole body ends here
                Outcome::Done(m)
            } else if s.state_type is SelfCall {
                if depth == 0 {
                    Outcome::NoFuel(m)
                } else {
                    match run_op(p, self_idx, m, (depth - 1) as nat, steps) {
                        Outcome::Done(m2) => run_body(p, self_idx, pos + 1, false, m2, depth, steps),
                        other => other,
                    }
                }
            } else if s.state_type is SelfGoto {
                if steps == 0 {
                    Outcome::NoFuel(m)
                } else {
                    run_body(p, self_idx, 0, false, m, depth, (steps - 1) as nat)
                }
            } else if is_plain_prim(s.state_type) {
                match step_prim(
                    s.state_type,
                    s.name@,
                    p.args_of(s),
                    s.template_arguments_index != 0,
                    m,
                ) {
                    Outcome::Done(m2) => run_body(p, self_idx, pos + 1, false, m2, depth, steps),
                    other => other,
                }
            } else {
                // a user-defined dependency: one nested invocation
                if depth == 0 {
                    Outcome::NoFuel(m)
                } else {
                    match run_op(p, d, m, (depth - 1) as nat, steps) {
                        Outcome::Done(m2) => run_body(p, self_idx, pos + 1, false, m2, depth, steps),
                        other => other,
                    }
                }
            }
        }
    }
}

/// The outcome of invoking arena entry `idx` on machine `m`.  A plain
/// primitive acts directly; anything else walks its dependency list, after
/// the up-front checks both engines share: dependency indices must be in
/// range and `if`/`else` markers equal in number.
pub open spec fn run_op(p: Program, idx: int, m: Machine, depth: nat, steps: nat) -> Outcome
    decreases depth, steps, p.states@[idx].deps@.len() + 1,
{
    if idx < 0 || idx >= p.states@.len() {
        Outcome::Failed(RunError::InvalidIndex, m)
    } else {
        let s = p.states@[idx];
        if is_plain_prim(s.state_type) {
            step_prim(s.state_type, s.name@, p.args_of(s), s.template_arguments_index != 0, m)
        } else if !deps_valid(p, s) {
            Outcome::Failed(RunError::InvalidIndex, m)
        } else if num_of_kind(p, s.deps@, StateType::If) != num_of_kind(
            p,
            s.deps@,
            StateType::Else,
        ) {
            Outcome::Failed(RunError::UnbalancedConditional, m)
        } else {
            run_body(p, idx, 0, false, m, depth, steps)
        }
    }
}

} // verus!
