use jalgo::builder::build_program;
use jalgo::interp::{execute_statement, RunOutcome};
use jalgo::op::{find_state, Program};
use jalgo::sem::{OutEvent, RunError};

fn tokenize(src: &str) -> Vec<String> {
    src.split_whitespace().map(|t| t.to_string()).collect()
}

fn build(src: &str) -> Program {
    match build_program(&tokenize(src)) {
        Ok(p) => p,
        Err(e) => panic!("build refused token {}", e.token),
    }
}

fn run(src: &str) -> (RunOutcome, Vec<i64>, Vec<OutEvent>) {
    let p = build(src);
    let start = find_state(&p.states, &"start".to_string()).expect("no start");
    let mut stack: Vec<i64> = Vec::new();
    let mut out: Vec<OutEvent> = Vec::new();
    let r = execute_statement(&p, start, &mut stack, &mut out, 100, 1_000_000);
    (r, stack, out)
}

#[test]
fn sum_of_nine_prints_45() {
    let src = "st sum_of_loop : dup if dup swap<2,0> sum swap dec __self__goto__ else ; \
               st sum_of : 0 swap sum_of_loop pop print ; \
               st start : 9 sum_of ;";
    let (r, stack, out) = run(src);
    assert_eq!(r, RunOutcome::Finished);
    assert_eq!(out, vec![OutEvent::Print(45)]);
    assert_eq!(stack, Vec::<i64>::new());
}

#[test]
fn factorial_of_nine_prints_362880() {
    let src = "st factorial_loop : dup if dup swap<2,0> mul swap dec __self__goto__ else ; \
               st factorial : 1 swap factorial_loop pop print ; \
               st start : 9 factorial ;";
    let (r, _stack, out) = run(src);
    assert_eq!(r, RunOutcome::Finished);
    assert_eq!(out, vec![OutEvent::Print(362880)]);
}

#[test]
fn dup3_on_single_seven_leaves_four_sevens() {
    let (r, stack, out) = run("st start : 7 dup<3> ;");
    assert_eq!(r, RunOutcome::Finished);
    assert_eq!(stack, vec![7, 7, 7, 7]);
    assert!(out.is_empty());
}

#[test]
fn pop_on_empty_stack_is_fatal_and_silent() {
    let (r, stack, out) = run("st start : pop 5 print ;");
    assert_eq!(r, RunOutcome::Failed(RunError::StackUnderflow));
    assert!(out.is_empty());
    assert!(stack.is_empty());
}

#[test]
fn positive_if_runs_true_branch_and_else_ends_body() {
    // top of stack is positive: only the true branch runs, and the body
    // ends at the else marker, so the trailing print never happens
    let (r, stack, out) = run("st start : 5 1 if 10 print else 99 print ;");
    assert_eq!(r, RunOutcome::Finished);
    assert_eq!(out, vec![OutEvent::Print(10)]);
    assert_eq!(stack, vec![5]);
}

#[test]
fn nonpositive_if_skips_to_else_and_resumes() {
    let (r, stack, out) = run("st start : 5 0 if 10 print else 99 print ;");
    assert_eq!(r, RunOutcome::Finished);
    assert_eq!(out, vec![OutEvent::Print(99)]);
    assert_eq!(stack, vec![5]);
}

#[test]
fn goto_loop_runs_in_fixed_invocation_depth() {
    // one thousand tail iterations, but the invocation budget stays at 3
    let src = "st count_down : if dec dup __self__goto__ else ; \
               st start : 1000 dup count_down ;";
    let p = build(src);
    let start = find_state(&p.states, &"start".to_string()).unwrap();
    let mut stack: Vec<i64> = Vec::new();
    let mut out: Vec<OutEvent> = Vec::new();
    let r = execute_statement(&p, start, &mut stack, &mut out, 3, 1_000_000);
    assert_eq!(r, RunOutcome::Finished);
    assert_eq!(stack, vec![0]);
}

#[test]
fn selfcall_costs_one_invocation_per_occurrence() {
    let src = "st count_down : if dec dup __self__ else ; \
               st start : 6 dup count_down ;";
    let p = build(src);
    let start = find_state(&p.states, &"start".to_string()).unwrap();

    // six recursive invocations under start and count_down outgrow a budget of 4
    let mut stack: Vec<i64> = Vec::new();
    let mut out: Vec<OutEvent> = Vec::new();
    let r = execute_statement(&p, start, &mut stack, &mut out, 4, 1_000_000);
    assert_eq!(r, RunOutcome::NoFuel);

    // a budget of 10 is enough
    let mut stack: Vec<i64> = Vec::new();
    let mut out: Vec<OutEvent> = Vec::new();
    let r = execute_statement(&p, start, &mut stack, &mut out, 10, 1_000_000);
    assert_eq!(r, RunOutcome::Finished);
    assert_eq!(stack, vec![0]);
}

#[test]
fn binary_operand_order_is_push_order() {
    // the operand pushed earlier is the left-hand side: 10 - 3, not 3 - 10
    let (r, stack, _) = run("st start : 10 3 dif ;");
    assert_eq!(r, RunOutcome::Finished);
    assert_eq!(stack, vec![7]);
}

#[test]
fn comparisons_and_equality() {
    let (_, stack, _) = run("st start : 2 3 eq 2 3 neq 2 3 more 2 3 less ;");
    assert_eq!(stack, vec![0, 1, 0, 1]);
}

#[test]
fn division_truncates_and_zero_divisor_is_fatal() {
    let (r, stack, _) = run("st start : 7 2 div ;");
    assert_eq!(r, RunOutcome::Finished);
    assert_eq!(stack, vec![3]);
    let (r2, _, _) = run("st start : 7 0 div ;");
    assert_eq!(r2, RunOutcome::Failed(RunError::DivisionError));
}

#[test]
fn exit_pops_its_code_and_stops_the_run() {
    let (r, stack, out) = run("st start : 3 41 inc exit 9 print ;");
    assert_eq!(r, RunOutcome::Exited(42));
    assert_eq!(stack, vec![3]);
    assert!(out.is_empty());
}

#[test]
fn compiled_only_primitives_are_refused_by_the_interpreter() {
    let (r, _, _) = run("st start : 1 read_from ;");
    assert_eq!(r, RunOutcome::Failed(RunError::CompileOnly));
    let (r2, _, _) = run("st start : stack_head ;");
    assert_eq!(r2, RunOutcome::Failed(RunError::CompileOnly));
}

#[test]
fn unpaired_if_is_refused_before_execution() {
    let (r, _, out) = run("st start : 1 if 5 print ;");
    assert_eq!(r, RunOutcome::Failed(RunError::UnbalancedConditional));
    assert!(out.is_empty());
}

#[test]
fn pop3_discards_three_values() {
    let (r, stack, _) = run("st start : 1 2 3 4 pop<3> ;");
    assert_eq!(r, RunOutcome::Finished);
    assert_eq!(stack, vec![1]);
}

#[test]
fn swap_with_offsets_is_self_inverse() {
    let (r, stack, _) = run("st start : 1 2 3 swap<0,2> swap<0,2> ;");
    assert_eq!(r, RunOutcome::Finished);
    assert_eq!(stack, vec![1, 2, 3]);
}

#[test]
fn bare_swap_exchanges_the_top_two() {
    let (r, stack, _) = run("st start : 1 2 3 swap ;");
    assert_eq!(r, RunOutcome::Finished);
    assert_eq!(stack, vec![1, 3, 2]);
}

#[test]
fn dup_then_pop_is_a_no_op() {
    let (r, stack, out) = run("st start : 4 7 dup pop ;");
    assert_eq!(r, RunOutcome::Finished);
    assert_eq!(stack, vec![4, 7]);
    assert!(out.is_empty());
}

#[test]
fn write_raw_records_the_raw_word() {
    let (r, _, out) = run("st start : 258 write_raw ;");
    assert_eq!(r, RunOutcome::Finished);
    assert_eq!(out, vec![OutEvent::Raw(258)]);
}

#[test]
fn comments_between_tokens_are_skipped() {
    let (r, stack, _) = run("st start : 1 /* 2 print st ; */ 3 sum ;");
    assert_eq!(r, RunOutcome::Finished);
    assert_eq!(stack, vec![4]);
}

#[test]
fn wrapping_arithmetic_on_word_bounds() {
    let (r, stack, _) = run("st start : 9223372036854775807 inc ;");
    assert_eq!(r, RunOutcome::Finished);
    assert_eq!(stack, vec![i64::MIN]);
}

#[test]
fn template_instance_of_a_user_defined_operation_runs_its_body() {
    let (r, stack, _) = run("st double : dup sum ; st start : 5 double<9> ;");
    assert_eq!(r, RunOutcome::Finished);
    assert_eq!(stack, vec![10]);
}
