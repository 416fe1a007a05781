//! Laws of the language's semantics, stated over the spec-level machine and
//! proved once for every program, stack and budget.

use crate::op::{Program, StateType};
use crate::sem::{run_body, run_op, step_prim, Machine, Outcome, RunError};
use vstd::prelude::*;

verus! {

/// A bare `dup` followed by a bare `pop` is a no-op: the stack keeps its
/// depth and its contents, and nothing is printed.
pub proof fn lemma_dup_pop_roundtrip(m: Machine, name: Seq<char>, args: Seq<i64>)
    requires
        m.stack.len() >= 1,
    ensures
        ({
            let first = step_prim(StateType::Dup, name, args, false, m);
            &&& first is Done
            &&& step_prim(StateType::Pop, name, args, false, first->Done_0) == Outcome::Done(m)
        }),
{
    let first = step_prim(StateType::Dup, name, args, false, m);
    assert(first->Done_0.stack =~= m.stack.push(m.stack.last()));
    let second = step_prim(StateType::Pop, name, args, false, first->Done_0);
    assert(second->Done_0.stack =~= m.stack);
    assert(second->Done_0 == m);
}

/// `swap<a,b>` is self-inverse: applied twice to any stack deep enough for
/// its offsets, it restores the original order.  In particular `swap<0,1>`
/// twice restores any sequence of pushed values.
pub proof fn lemma_swap_self_inverse(m: Machine, name: Seq<char>, a: i64, b: i64)
    requires
        0 <= a < m.stack.len(),
        0 <= b < m.stack.len(),
    ensures
        ({
            let first = step_prim(StateType::Swap, name, seq![a, b], true, m);
            &&& first is Done
            &&& step_prim(StateType::Swap, name, seq![a, b], true, first->Done_0) == Outcome::Done(
                m,
            )
        }),
{
    let first = step_prim(StateType::Swap, name, seq![a, b], true, m);
    let second = step_prim(StateType::Swap, name, seq![a, b], true, first->Done_0);
    assert(second->Done_0.stack =~= m.stack);
    assert(second->Done_0 == m);
}

/// The bare `swap` of the two topmost operands is self-inverse as well.
pub proof fn lemma_swap_top_self_inverse(m: Machine, name: Seq<char>, args: Seq<i64>)
    requires
        m.stack.len() >= 2,
    ensures
        ({
            let first = step_prim(StateType::Swap, name, args, false, m);
            &&& first is Done
            &&& step_prim(StateType::Swap, name, args, false, first->Done_0) == Outcome::Done(m)
        }),
{
    let first = step_prim(StateType::Swap, name, args, false, m);
    let second = step_prim(StateType::Swap, name, args, false, first->Done_0);
    assert(second->Done_0.stack =~= m.stack);
    assert(second->Done_0 == m);
}

/// With a positive value on top, `if` pops that value and the walk goes
/// straight on into the true branch, skipping nothing.
pub proof fn lemma_if_positive_enters_true_branch(
    p: Program,
    self_idx: int,
    pos: int,
    m: Machine,
    depth: nat,
    steps: nat,
)
    requires
        0 <= self_idx < p.states@.len(),
        0 <= pos < p.states@[self_idx].deps@.len(),
        p.states@[self_idx].deps@[pos] < p.states@.len(),
        p.states@[p.states@[self_idx].deps@[pos] as int].state_type is If,
        m.stack.len() > 0,
        m.stack.last() > 0,
    ensures
        run_body(p, self_idx, pos, false, m, depth, steps) == run_body(
            p,
            self_idx,
            pos + 1,
            false,
            m.drop_top(1),
            depth,
            steps,
        ),
{
}

/// A non-skipped `else` ends the walk of the entire body at once, with the
/// machine untouched: the dependencies listed after it are never reached.
/// The conditional is a trailing construct.
pub proof fn lemma_else_ends_body(
    p: Program,
    self_idx: int,
    pos: int,
    m: Machine,
    depth: nat,
    steps: nat,
)
    requires
        0 <= self_idx < p.states@.len(),
        0 <= pos < p.states@[self_idx].deps@.len(),
        p.states@[self_idx].deps@[pos] < p.states@.len(),
        p.states@[p.states@[self_idx].deps@[pos] as int].state_type is Else,
    ensures
        run_body(p, self_idx, pos, false, m, depth, steps) == Outcome::Done(m),
{
}

/// `__self__goto__` restarts the walk inside the same activation: it spends
/// only the restart budget, never the invocation budget, so a tail loop of
/// any length runs at a fixed nesting of invocations.
pub proof fn lemma_goto_same_frame(
    p: Program,
    self_idx: int,
    pos: int,
    m: Machine,
    depth: nat,
    steps: nat,
)
    requires
        0 <= self_idx < p.states@.len(),
        0 <= pos < p.states@[self_idx].deps@.len(),
        p.states@[self_idx].deps@[pos] < p.states@.len(),
        p.states@[p.states@[self_idx].deps@[pos] as int].state_type is SelfGoto,
        steps > 0,
    ensures
        run_body(p, self_idx, pos, false, m, depth, steps) == run_body(
            p,
            self_idx,
            0,
            false,
            m,
            depth,
            (steps - 1) as nat,
        ),
{
}

/// `__self__` is one nested invocation of the enclosing operation: each
/// occurrence runs the operation against an invocation budget one smaller,
/// and the walk resumes behind the marker only when that invocation is done.
pub proof fn lemma_selfcall_nested(
    p: Program,
    self_idx: int,
    pos: int,
    m: Machine,
    depth: nat,
    steps: nat,
)
    requires
        0 <= self_idx < p.states@.len(),
        0 <= pos < p.states@[self_idx].deps@.len(),
        p.states@[self_idx].deps@[pos] < p.states@.len(),
        p.states@[p.states@[self_idx].deps@[pos] as int].state_type is SelfCall,
        depth > 0,
    ensures
        run_body(p, self_idx, pos, false, m, depth, steps) == (match run_op(
            p,
            self_idx,
            m,
            (depth - 1) as nat,
            steps,
        ) {
            Outcome::Done(m2) => run_body(p, self_idx, pos + 1, false, m2, depth, steps),
            other => other,
        }),
{
}

/// Discarding from an empty stack is fatal at once: the run ends in a stack
/// underflow with the output exactly as it stood, so nothing more is
/// printed.
pub proof fn lemma_pop_empty_stops_body(
    p: Program,
    self_idx: int,
    pos: int,
    m: Machine,
    depth: nat,
    steps: nat,
)
    requires
        0 <= self_idx < p.states@.len(),
        0 <= pos < p.states@[self_idx].deps@.len(),
        p.states@[self_idx].deps@[pos] < p.states@.len(),
        p.states@[p.states@[self_idx].deps@[pos] as int].state_type is Pop,
        p.states@[p.states@[self_idx].deps@[pos] as int].template_arguments_index == 0,
        m.stack.len() == 0,
    ensures
        run_body(p, self_idx, pos, false, m, depth, steps) == Outcome::Failed(
            RunError::StackUnderflow,
            m,
        ),
{
}

} // verus!
