use jalgo::builder::build_program;
use jalgo::emit::{compile_program, compile_statement, generate_swap_asm, CompileError, Target};
use jalgo::op::find_state;

fn toks2(src: &str) -> Vec<String> {
    src.split_whitespace().map(|t| t.to_string()).collect()
}

const PREAMBLE_LINUX: &str = "section .import\n\textern printf\n\textern exit\n\nsection .data\n\t@int_fmt: db \"%lli \", 0\n\t@bytes_fmt: db \"%.8s\", 0\n\t\n\t@second_stack: times 1024 dq 0\n\t@stack_size: dq 0\n\nsection .text\n\tglobal main\n\nmain:\n\tjmp start\n\n@share_to_second_stack:\n\t; arg - rax\n\tmov rbx, @second_stack\n\tmov rcx, @stack_size\n\tmov rcx, [rcx]\n\tmov qword [rbx + rcx * 8], rax\n\tmov rcx, @stack_size\n\tinc qword [rcx]\n\tret\n\n@get_pop_second_stack:\n\t; return - rax\n\tmov rbx, @second_stack\n\tmov rcx, @stack_size\n\tmov rcx, [rcx]\n\tmov rax, qword [rbx + rcx * 8 - 8]\n\tmov rcx, @stack_size\n\tdec qword [rcx]\n\tret\n";

#[test]
fn swap_asm_substitutes_byte_offsets() {
    let text = generate_swap_asm(0, 1);
    assert_eq!(
        text,
        "\tmov rax, qword [rsp + 0] ; swap<0,1>\n\tmov rbx, qword [rsp + 8]\n\tmov qword [rsp + 0], rbx\n\tmov qword [rsp + 8], rax\n"
    );
    let wide = generate_swap_asm(3, 12);
    assert_eq!(
        wide,
        "\tmov rax, qword [rsp + 24] ; swap<3,12>\n\tmov rbx, qword [rsp + 96]\n\tmov qword [rsp + 24], rbx\n\tmov qword [rsp + 96], rax\n"
    );
}

#[test]
fn whole_program_listing_for_linux() {
    let p = build_program(&toks2("st start : 5 print ;")).unwrap();
    let text = compile_program(&p, Target::Linux).unwrap();
    let expected = format!(
        "{}{}",
        PREAMBLE_LINUX,
        "start:\n\tpop rax\n\tcall @share_to_second_stack\n@start_jump_position_you_know:\n\
         \tpush qword 5\n\
         \txor rax, rax ; print\n\tlea rdi, [rel @int_fmt]\n\tpop rsi\n\tsub rsp, 32\n\tcall printf\n\tadd rsp, 32\n\
         \txor rdi, rdi\n\tcall exit\n"
    );
    assert_eq!(text, expected);
}

#[test]
fn inlinable_operations_are_spliced_not_emitted() {
    let p = build_program(&toks2("st twice : dup sum ; st start : 4 twice ;")).unwrap();
    let text = compile_program(&p, Target::Linux).unwrap();
    // the body of twice appears inside start, and twice itself is no routine
    assert!(!text.contains("twice:"));
    assert!(text.contains("start:"));
    assert!(text.contains("\tpush qword [rsp] ; dup\n\tpop rax ; sum\n\tadd qword [rsp], rax\n"));
}

#[test]
fn non_inlinable_operations_are_called_by_name() {
    let p = build_program(
        &toks2("st looper : if dec __self__goto__ else ; st start : 3 looper ;"),
    )
    .unwrap();
    let text = compile_program(&p, Target::Linux).unwrap();
    assert!(text.contains("looper:\n\tpop rax\n\tcall @share_to_second_stack\n"));
    assert!(text.contains("\tcall looper\n"));
    assert!(text.contains("\tjmp @looper_jump_position_you_know\n"));
}

#[test]
fn conditional_lowering_pairs_labels() {
    let p = build_program(&toks2("st start : 1 if 2 print else ;")).unwrap();
    let start = find_state(&p.states, &"start".to_string()).unwrap();
    let text = compile_statement(&p, start, Target::Linux).unwrap();
    assert!(text.starts_with(
        "start:\n\tpop rax\n\tcall @share_to_second_stack\n@start_jump_position_you_know:\n"
    ));
    assert!(text.contains("\tpop rax\n\tcmp rax, 0\n\tjle @start_else1\n"));
    // the else emits the epilogue, then the matching label
    assert!(text.contains("\txor rdi, rdi\n\tcall exit\n@start_else1:\n"));
}

#[test]
fn big_literals_lower_through_a_register() {
    let p = build_program(&toks2("st start : 2147483647 2147483648 ;")).unwrap();
    let text = compile_program(&p, Target::Linux).unwrap();
    assert!(text.contains("\tpush qword 2147483647\n"));
    assert!(text.contains("\tmov rax, 2147483648\n\tpush rax\n"));
}

#[test]
fn literals_below_the_immediate_range_also_lower_through_a_register() {
    // a push-immediate encodes a sign-extended 32-bit value and no less
    let p = build_program(&toks2("st start : -2147483648 -2147483649 ;")).unwrap();
    let text = compile_program(&p, Target::Linux).unwrap();
    assert!(text.contains("\tpush qword -2147483648\n"));
    assert!(text.contains("\tmov rax, -2147483649\n\tpush rax\n"));
    assert!(!text.contains("\tpush qword -2147483649\n"));
}

#[test]
fn division_lowers_as_signed_division() {
    let p = build_program(&toks2("st start : 7 -2 div ;")).unwrap();
    let text = compile_program(&p, Target::Linux).unwrap();
    assert!(text.contains("\tpop rbx ; div\n\tpop rax\n\tcqo\n\tidiv rbx\n\tpush rax\n"));
}

#[test]
fn parameterized_discard_repeats_its_template() {
    let p = build_program(&toks2("st start : 1 2 3 pop<2> dup<2> ;")).unwrap();
    let text = compile_program(&p, Target::Linux).unwrap();
    assert!(text.contains("\tadd rsp, 8\n\tadd rsp, 8\n"));
    assert!(text.contains("\tpush qword [rsp] ; dup\n\tpush qword [rsp] ; dup\n"));
}

#[test]
fn unpaired_else_is_a_compile_error() {
    let p = build_program(&toks2("st start : else 1 if ;")).unwrap();
    let start = find_state(&p.states, &"start".to_string()).unwrap();
    assert_eq!(
        compile_statement(&p, start, Target::Linux),
        Err(CompileError::UnbalancedConditional)
    );
    let p2 = build_program(&toks2("st start : 1 if ;")).unwrap();
    let start2 = find_state(&p2.states, &"start".to_string()).unwrap();
    assert_eq!(
        compile_statement(&p2, start2, Target::Linux),
        Err(CompileError::UnbalancedConditional)
    );
}

#[test]
fn windows_and_linux_share_the_machine_templates() {
    let p = build_program(&toks2("st start : 5 print exit ;")).unwrap();
    let win = compile_program(&p, Target::Win64).unwrap();
    let linux = compile_program(&p, Target::Linux).unwrap();
    assert!(win.contains("global WinMain"));
    assert!(linux.contains("global main"));
    assert!(win.contains("\tpop rcx\n\tcall exit\n"));
    assert!(linux.contains("\tpop rdi\n\tcall exit\n"));
    assert!(win.contains("\tpush qword 5\n"));
    assert!(linux.contains("\tpush qword 5\n"));
}

#[test]
fn compiled_only_primitives_have_templates() {
    let p = build_program(&toks2("st start : stack_head read_from 1 write_to ;")).unwrap();
    let text = compile_program(&p, Target::Linux).unwrap();
    assert!(text.contains("\tpush rsp ; stack_head\n"));
    assert!(text.contains("\tpop rax ; read_from\n\tpush qword [rax]\n"));
    assert!(text.contains("\tpop rax ; write_to\n\tpop rbx\n\tmov qword [rbx], rax\n"));
}

#[test]
fn integer_entries_do_not_become_routines() {
    let p = build_program(&toks2("st start : 5 ;")).unwrap();
    let text = compile_program(&p, Target::Linux).unwrap();
    assert_eq!(text.matches("\tpush qword 5\n").count(), 1);
}

#[test]
fn inlinable_leaves_are_flattened_arbitrarily_deep() {
    let p = build_program(
        &toks2("st a : dup ; st b : a a ; st c : b b ; st start : 1 c ;"),
    )
    .unwrap();
    let text = compile_program(&p, Target::Linux).unwrap();
    assert_eq!(text.matches("\tpush qword [rsp] ; dup\n").count(), 4);
    assert!(!text.contains("\tcall a\n"));
    assert!(!text.contains("\tcall b\n"));
    assert!(!text.contains("\tcall c\n"));
}
