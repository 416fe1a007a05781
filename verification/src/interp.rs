//! The tree interpreter: executable, and proved to compute exactly what the
//! spec-level machine of `sem` says, for every program and every budget.

use crate::num::parse_int;
use crate::op::{Program, StateType};
use crate::sem::{
    deps_valid, is_plain_prim, num_of_kind, run_body, run_op, step_prim, Machine, OutEvent,
    Outcome, RunError,
};
use vstd::prelude::*;

verus! {

/// What one invocation reports.  The machine itself lives in the two
/// buffers the caller hands in.
#[derive(Clone, Copy, PartialEq, Eq, Structural, Debug)]
pub enum RunOutcome {
    /// The operation ran to the end of its body.
    Finished,
    /// An `exit` primitive ended the run with this code.
    Exited(i64),
    /// A fatal error; the buffers hold the state reached before it.
    Failed(RunError),
    /// A budget ran out before the run could end.
    NoFuel,
}

/// The exec outcome `r` together with the final buffers renders the spec
/// outcome `o`.
pub open spec fn outcome_agrees(
    o: Outcome,
    r: RunOutcome,
    stk: Seq<i64>,
    out: Seq<OutEvent>,
) -> bool {
    match o {
        Outcome::Done(m) => r is Finished && stk == m.stack && out == m.out,
        Outcome::Exited(c, m) => r == RunOutcome::Exited(c) && stk == m.stack && out == m.out,
        Outcome::Failed(e, m) => r == RunOutcome::Failed(e) && stk == m.stack && out == m.out,
        Outcome::NoFuel(m) => r is NoFuel && stk == m.stack && out == m.out,
    }
}

/// Runs one plain primitive against the operand stack and the output tape.
fn exec_prim(
    t: StateType,
    name: &String,
    args: &Vec<i64>,
    has_args: bool,
    stack: &mut Vec<i64>,
    out: &mut Vec<OutEvent>,
) -> (r: RunOutcome)
    requires
        is_plain_prim(t),
        t is Swap && has_args ==> args@.len() >= 2 && args@[0] >= 0 && args@[1] >= 0,
        t is Dup && has_args ==> args@.len() >= 1,
        t is Pop && has_args ==> args@.len() >= 1,
    ensures
        outcome_agrees(
            step_prim(t, name@, args@, has_args, (Machine { stack: old(stack)@, out: old(out)@ })),
            r,
            final(stack)@,
            final(out)@,
        ),
{
    let ghost m = Machine { stack: stack@, out: out@ };
    match t {
        StateType::Integer => {
            match parse_int(name) {
                Some(v) => {
                    stack.push(v);
                    RunOutcome::Finished
                },
                None => RunOutcome::Failed(RunError::BadLiteral),
            }
        },
        StateType::StackHead => RunOutcome::Failed(RunError::CompileOnly),
        StateType::ReadFrom => RunOutcome::Failed(RunError::CompileOnly),
        StateType::WriteTo => RunOutcome::Failed(RunError::CompileOnly),
        StateType::Eq | StateType::Neq | StateType::More | StateType::Less | StateType::Sum
            | StateType::Dif | StateType::Mul => {
            let len = stack.len();
            if len < 2 {
                return RunOutcome::Failed(RunError::StackUnderflow);
            }
            let a = stack[len - 1];
            let b = stack[len - 2];
            stack.truncate(len - 2);
            let v = match t {
                StateType::Eq => if b == a {
                    1i64
                } else {
                    0i64
                },
                StateType::Neq => if b != a {
                    1i64
                } else {
                    0i64
                },
                StateType::More => if b > a {
                    1i64
                } else {
                    0i64
                },
                StateType::Less => if b < a {
                    1i64
                } else {
                    0i64
                },
                StateType::Sum => b.wrapping_add(a),
                StateType::Dif => b.wrapping_sub(a),
                _ => b.wrapping_mul(a),
            };
            stack.push(v);
            proof {
                assert(stack@ =~= m.drop_top(2).push(v).stack);
            }
            RunOutcome::Finished
        },
        StateType::Div => {
            let len = stack.len();
            if len < 2 {
                return RunOutcome::Failed(RunError::StackUnderflow);
            }
            let a = stack[len - 1];
            let b = stack[len - 2];
            let q = match b.checked_div(a) {
                Some(q) => q,
                None => {
                    return RunOutcome::Failed(RunError::DivisionError);
                },
            };
            stack.truncate(len - 2);
            stack.push(q);
            proof {
                assert(stack@ =~= m.drop_top(2).push(q).stack);
            }
            RunOutcome::Finished
        },
        StateType::Dup => {
            let len = stack.len();
            if len < 1 {
                return RunOutcome::Failed(RunError::StackUnderflow);
            }
            let top = stack[len - 1];
            if !has_args {
                stack.push(top);
                proof {
                    assert(stack@ =~= m.stack + Seq::new(1nat, |i: int| m.stack.last()));
                }
            } else {
                let c = args[0];
                let mut k: i64 = 0;
                while k < c
                    invariant
                        0 <= k,
                        c > 0 ==> k <= c,
                        c <= 0 ==> k == 0,
                        top == m.stack.last(),
                        m.stack.len() >= 1,
                        stack@ =~= m.stack + Seq::new(k as nat, |i: int| m.stack.last()),
                        out@ == m.out,
                    decreases c - k,
                {
                    stack.push(top);
                    proof {
                        assert(stack@ =~= m.stack + Seq::new((k + 1) as nat, |i: int| m.stack.last()));
                    }
                    k = k + 1;
                }
                proof {
                    assert(stack@ =~= m.stack + Seq::new(
                        crate::sem::rep_count(args@, has_args) as nat,
                        |i: int| m.stack.last(),
                    ));
                }
            }
            RunOutcome::Finished
        },
        StateType::Pop => {
            if !has_args {
                let len = stack.len();
                if len < 1 {
                    return RunOutcome::Failed(RunError::StackUnderflow);
                }
                stack.truncate(len - 1);
                proof {
                    assert(stack@ =~= m.drop_top(1).stack);
                }
            } else {
                let c = args[0];
                if c > 0 {
                    let len = stack.len();
                    if (len as u64) < (c as u64) {
                        return RunOutcome::Failed(RunError::StackUnderflow);
                    }
                    stack.truncate(len - (c as usize));
                    proof {
                        assert(stack@ =~= m.drop_top(crate::sem::rep_count(args@, has_args)).stack);
                    }
                } else {
                    proof {
                        assert(stack@ =~= m.drop_top(crate::sem::rep_count(args@, has_args)).stack);
                    }
                }
            }
            RunOutcome::Finished
        },
        StateType::Inc | StateType::Dec => {
            let len = stack.len();
            if len < 1 {
                return RunOutcome::Failed(RunError::StackUnderflow);
            }
            let v = stack[len - 1];
            let v2 = if matches!(t, StateType::Inc) {
                v.wrapping_add(1)
            } else {
                v.wrapping_sub(1)
            };
            stack[len - 1] = v2;
            proof {
                assert(stack@ =~= m.drop_top(1).push(v2).stack);
            }
            RunOutcome::Finished
        },
        StateType::Swap => {
            let len = stack.len();
            if !has_args {
                if len < 2 {
                    return RunOutcome::Failed(RunError::StackUnderflow);
                }
                let va = stack[len - 1];
                let vb = stack[len - 2];
                stack[len - 1] = vb;
                stack[len - 2] = va;
                RunOutcome::Finished
            } else {
                let a = args[0];
                let b = args[1];
                if (a as u64) >= (len as u64) || (b as u64) >= (len as u64) {
                    return RunOutcome::Failed(RunError::StackUnderflow);
                }
                let ia = len - 1 - (a as usize);
                let ib = len - 1 - (b as usize);
                let va = stack[ia];
                let vb = stack[ib];
                stack[ia] = vb;
                stack[ib] = va;
                proof {
                    assert(stack@ =~= m.stack.update(
                        len - 1 - (a as int),
                        m.stack[len - 1 - (b as int)],
                    ).update(len - 1 - (b as int), m.stack[len - 1 - (a as int)]));
                }
                RunOutcome::Finished
            }
        },
        StateType::Print => {
            let len = stack.len();
            if len < 1 {
                return RunOutcome::Failed(RunError::StackUnderflow);
            }
            let v = stack[len - 1];
            stack.truncate(len - 1);
            out.push(OutEvent::Print(v));
            proof {
                assert(stack@ =~= m.drop_top(1).stack);
            }
            RunOutcome::Finished
        },
        StateType::WriteRaw => {
            let len = stack.len();
            if len < 1 {
                return RunOutcome::Failed(RunError::StackUnderflow);
            }
            let v = stack[len - 1];
            stack.truncate(len - 1);
            out.push(OutEvent::Raw(v));
            proof {
                assert(stack@ =~= m.drop_top(1).stack);
            }
            RunOutcome::Finished
        },
        StateType::Exit => {
            let len = stack.len();
            if len < 1 {
                return RunOutcome::Failed(RunError::StackUnderflow);
            }
            let v = stack[len - 1];
            stack.truncate(len - 1);
            proof {
                assert(stack@ =~= m.drop_top(1).stack);
            }
            RunOutcome::Exited(v)
        },
        _ => RunOutcome::Finished,
    }
}

/// Executes arena entry `idx` against the shared operand stack, appending
/// program output to `out`.  `depth` bounds nested invocations, `steps`
/// bounds same-frame restarts; the result and the two buffers afterwards are
/// exactly what the spec-level run of the same entry yields.
pub fn execute_statement(
    p: &Program,
    idx: usize,
    stack: &mut Vec<i64>,
    out: &mut Vec<OutEvent>,
    depth: u64,
    steps: u64,
) -> (r: RunOutcome)
    requires
        p.wf(),
    ensures
        outcome_agrees(
            run_op(
                *p,
                idx as int,
                (Machine { stack: old(stack)@, out: old(out)@ }),
                depth as nat,
                steps as nat,
            ),
            r,
            final(stack)@,
            final(out)@,
        ),
    decreases depth,
{
    if idx >= p.states.len() {
        return RunOutcome::Failed(RunError::InvalidIndex);
    }
    proof {
        assert(p.state_wf(idx as int));
    }
    let s = &p.states[idx];
    match s.state_type {
        StateType::Additional | StateType::If | StateType::Else | StateType::SelfCall
            | StateType::SelfGoto => {
            let ghost m0 = Machine { stack: stack@, out: out@ };
            let deps_len = s.deps.len();
            // both engines first hold the body to the pairing rule
            let mut if_count: usize = 0;
            let mut else_count: usize = 0;
            let mut k: usize = 0;
            while k < deps_len
                invariant
                    p.wf(),
                    idx < p.states@.len(),
                    s == p.states@[idx as int],
                    deps_len == s.deps@.len(),
                    k <= deps_len,
                    if_count == num_of_kind(*p, s.deps@.take(k as int), StateType::If),
                    else_count == num_of_kind(*p, s.deps@.take(k as int), StateType::Else),
                    if_count <= k,
                    else_count <= k,
                decreases deps_len - k,
            {
                proof {
                    assert(p.state_wf(idx as int));
                    assert(s.deps@[k as int] < idx);
                }
                let d = s.deps[k];
                let dt = p.states[d].state_type;
                if dt == StateType::If {
                    if_count = if_count + 1;
                } else if dt == StateType::Else {
                    else_count = else_count + 1;
                }
                proof {
                    assert(s.deps@.take(k + 1).drop_last() =~= s.deps@.take(k as int));
                    assert(s.deps@.take(k + 1).last() == s.deps@[k as int]);
                }
                k = k + 1;
            }
            proof {
                assert(s.deps@.take(deps_len as int) =~= s.deps@);
                assert(deps_valid(*p, *s)) by {
                    assert(forall|k2: int| 0 <= k2 < s.deps@.len() ==> #[trigger] s.deps@[k2]
                        < idx);
                }
            }
            if if_count != else_count {
                return RunOutcome::Failed(RunError::UnbalancedConditional);
            }
            let ghost full = run_op(*p, idx as int, m0, depth as nat, steps as nat);
            proof {
                assert(full == run_body(*p, idx as int, 0, false, m0, depth as nat, steps as nat));
            }
            let mut pos: usize = 0;
            let mut skipping = false;
            let mut steps_left: u64 = steps;
            while pos < deps_len
                invariant
                    p.wf(),
                    idx < p.states@.len(),
                    s == p.states@[idx as int],
                    deps_len == s.deps@.len(),
                    pos <= deps_len,
                    full == run_op(
                        *p,
                        idx as int,
                        (Machine { stack: old(stack)@, out: old(out)@ }),
                        depth as nat,
                        steps as nat,
                    ),
                    full == run_body(
                        *p,
                        idx as int,
                        pos as int,
                        skipping,
                        (Machine { stack: stack@, out: out@ }),
                        depth as nat,
                        steps_left as nat,
                    ),
                decreases steps_left, deps_len - pos,
            {
                proof {
                    assert(p.state_wf(idx as int));
                    assert(s.deps@[pos as int] < idx);
                }
                let d = s.deps[pos];
                proof {
                    assert(p.state_wf(d as int));
                }
                let ghost mcur = Machine { stack: stack@, out: out@ };
                let ds = &p.states[d];
                let t = ds.state_type;
                if t == StateType::If {
                    let len = stack.len();
                    if len == 0 {
                        return RunOutcome::Failed(RunError::StackUnderflow);
                    }
                    let v = stack[len - 1];
                    stack.truncate(len - 1);
                    proof {
                        assert(v == mcur.stack.last());
                        assert(stack@ =~= mcur.drop_top(1).stack);
                    }
                    if v <= 0 {
                        skipping = true;
                    }
                    pos = pos + 1;
                } else if skipping {
                    if t == StateType::Else {
                        skipping = false;
                    }
                    pos = pos + 1;
                } else if t == StateType::Else {
                    return RunOutcome::Finished;
                } else if t == StateType::SelfCall {
                    if depth == 0 {
                        return RunOutcome::NoFuel;
                    }
                    let r2 = execute_statement(p, idx, stack, out, depth - 1, steps_left);
                    if !matches!(r2, RunOutcome::Finished) {
                        return r2;
                    }
                    pos = pos + 1;
                } else if t == StateType::SelfGoto {
                    if steps_left == 0 {
                        return RunOutcome::NoFuel;
                    }
                    steps_left = steps_left - 1;
                    pos = 0;
                } else if t == StateType::Additional {
                    if depth == 0 {
                        return RunOutcome::NoFuel;
                    }
                    let r2 = execute_statement(p, d, stack, out, depth - 1, steps_left);
                    if !matches!(r2, RunOutcome::Finished) {
                        return r2;
                    }
                    pos = pos + 1;
                } else {
                    let args = &p.template_arguments[ds.template_arguments_index];
                    let r2 = exec_prim(
                        t,
                        &ds.name,
                        args,
                        ds.template_arguments_index != 0,
                        stack,
                        out,
                    );
                    if !matches!(r2, RunOutcome::Finished) {
                        return r2;
                    }
                    pos = pos + 1;
                }
            }
            RunOutcome::Finished
        },
        _ => {
            let args = &p.template_arguments[s.template_arguments_index];
            exec_prim(s.state_type, &s.name, args, s.template_arguments_index != 0, stack, out)
        },
    }
}

} // verus!
