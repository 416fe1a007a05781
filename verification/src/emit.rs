//! The assembly emitter: lowers a program into one textual listing.  Every
//! non-inlinable operation becomes a named routine with a shared prologue
//! and epilogue; inlinable operations and integer literals are spliced at
//! their use sites.  `if` lowers to a compare-and-jump to a synthesized else
//! label, `else` to the routine's epilogue followed by that label,
//! `__self__` to a direct call of the routine's own name, and
//! `__self__goto__` to a jump back to the routine's restart label.

use crate::num::{dec_digits, parse_int_spec};
use crate::op::{Program, StateType};
use crate::sem::num_of_kind;
use vstd::prelude::*;

verus! {

/// Which runtime preamble and calling convention the listing is written for.
#[derive(Clone, Copy, PartialEq, Eq, Structural, Debug)]
pub enum Target {
    Win64,
    Linux,
}

/// Why a lowering is refused; all are fatal, nothing partial is kept.
#[derive(Clone, Copy, PartialEq, Eq, Structural, Debug)]
pub enum CompileError {
    /// A dependency index points outside the arena.
    InvalidIndex,
    /// `if` and `else` markers unequal in number, or an `else` with no `if`
    /// still open.
    UnbalancedConditional,
    /// An integer operation whose name is not a 64-bit decimal literal.
    BadLiteral,
    /// A positional-swap offset too large to lower into an address.
    OversizedArgument,
}

/// `t` repeated `n` times, and empty for `n <= 0`.
pub open spec fn repeat_text(t: Seq<char>, n: int) -> Seq<char>
    decreases n,
{
    if n <= 0 {
        Seq::<char>::empty()
    } else {
        repeat_text(t, n - 1) + t
    }
}

/// The fixed instruction sequence of each single-template primitive.
pub open spec fn prim_asm(t: StateType, target: Target) -> Seq<char> {
    match t {
        StateType::StackHead => "\tpush rsp ; stack_head\n"@,
        StateType::ReadFrom => "\tpop rax ; read_from\n\tpush qword [rax]\n"@,
        StateType::WriteTo => "\tpop rax ; write_to\n\tpop rbx\n\tmov qword [rbx], rax\n"@,
        StateType::Eq => "\tpop rax ; eq\n\tpop rbx\n\tcmp rbx, rax\n\tsete al\n\tand rax, 1\n\tpush rax\n"@,
        StateType::Neq => "\tpop rax ; neq\n\tpop rbx\n\tcmp rbx, rax\n\tsetne al\n\tand rax, 1\n\tpush rax\n"@,
        StateType::More => "\tpop rax ; more\n\tpop rbx\n\tcmp rbx, rax\n\tsetg al\n\tand rax, 1\n\tpush rax\n"@,
        StateType::Less => "\tpop rax ; less\n\tpop rbx\n\tcmp rbx, rax\n\tsetl al\n\tand rax, 1\n\tpush rax\n"@,
        StateType::Inc => "\tinc qword [rsp] ; inc\n"@,
        StateType::Dec => "\tdec qword [rsp] ; dec\n"@,
        StateType::Sum => "\tpop rax ; sum\n\tadd qword [rsp], rax\n"@,
        StateType::Dif => "\tpop rax ; dif\n\tsub qword [rsp], rax\n"@,
        StateType::Mul => "\tpop rax ; mul\n\tpop rbx\n\tmul rbx\n\tpush rax\n"@,
        StateType::Div => "\tpop rbx ; div\n\tpop rax\n\tcqo\n\tidiv rbx\n\tpush rax\n"@,
        StateType::Print => if target is Win64 {
            "\tlea rcx, [rel @int_fmt] ; print\n\tpop rdx\n\tsub rsp, 32\n\tcall printf\n\tadd rsp, 32\n"@
        } else {
            "\txor rax, rax ; print\n\tlea rdi, [rel @int_fmt]\n\tpop rsi\n\tsub rsp, 32\n\tcall printf\n\tadd rsp, 32\n"@
        },
        StateType::WriteRaw => if target is Win64 {
            "\tlea rcx, [rel @bytes_fmt] ; write\n\tmov rdx, rsp\n\tsub rsp, 56\n\tcall printf\n\tadd rsp, 64\n"@
        } else {
            "\txor rax, rax ; print\n\tlea rdi, [rel @bytes_fmt]\n\tpop rsi\n\tsub rsp, 56\n\tcall printf\n\tadd rsp, 64\n"@
        },
        StateType::Exit => if target is Win64 {
            "\tpop rcx\n\tcall exit\n"@
        } else {
            "\tpop rdi\n\tcall exit\n"@
        },
        _ => Seq::<char>::empty(),
    }
}

/// The one-instruction duplicate of the top of the stack.
pub open spec fn dup_asm() -> Seq<char> {
    "\tpush qword [rsp] ; dup\n"@
}

/// The one-instruction discard of the top of the stack.
pub open spec fn pop_asm() -> Seq<char> {
    "\tadd rsp, 8\n"@
}

/// The four-instruction exchange of the operands `a` and `b` positions below
/// the top of the stack.
pub open spec fn swap_asm(a: int, b: int) -> Seq<char> {
    "\tmov rax, qword [rsp + "@ + dec_digits(8 * a) + "] ; swap<"@ + dec_digits(a) + ","@
        + dec_digits(b) + ">\n\tmov rbx, qword [rsp + "@ + dec_digits(8 * b)
        + "]\n\tmov qword [rsp + "@ + dec_digits(8 * a) + "], rbx\n\tmov qword [rsp + "@
        + dec_digits(8 * b) + "], rax\n"@
}

/// A push of an integer literal small enough for a push-immediate.
pub open spec fn int_asm(name: Seq<char>) -> Seq<char> {
    "\tpush qword "@ + name + "\n"@
}

/// The two-instruction load-then-push for a literal beyond what a single
/// push-immediate can encode.
pub open spec fn big_int_asm(name: Seq<char>) -> Seq<char> {
    "\tmov rax, "@ + name + "\n\tpush rax\n"@
}

/// A direct call of a named routine.
pub open spec fn call_asm(name: Seq<char>) -> Seq<char> {
    "\tcall "@ + name + "\n"@
}

/// The unconditional jump back to a routine's restart label.
pub open spec fn goto_asm(name: Seq<char>) -> Seq<char> {
    "\tjmp @"@ + name + "_jump_position_you_know\n"@
}

/// A routine's opening: its label, the relay of the implicit argument to the
/// side stack, and the restart label.
pub open spec fn header_asm(name: Seq<char>) -> Seq<char> {
    name + ":\n\tpop rax\n\tcall @share_to_second_stack\n"@ + "@"@ + name
        + "_jump_position_you_know:\n"@
}

/// How a routine gives control back: the entry routine ends the process,
/// every other routine restores the relayed operand and returns.
pub open spec fn exit_asm(name: Seq<char>, target: Target) -> Seq<char> {
    if name == "start"@ {
        if target is Win64 {
            "\tadd rsp, 32\n\txor rcx, rcx\n\tcall exit\n"@
        } else {
            "\txor rdi, rdi\n\tcall exit\n"@
        }
    } else {
        "\tcall @get_pop_second_stack\n\tpush rax\n\tret\n\tpop rax\n"@
    }
}

/// The compare-to-zero and jump that an `if` lowers to, aimed at else label
/// number `k`.
pub open spec fn if_asm(name: Seq<char>, k: int) -> Seq<char> {
    "\tpop rax\n\tcmp rax, 0\n\tjle @"@ + name + "_else"@ + dec_digits(k) + "\n"@
}

/// What an `else` lowers to: the routine's epilogue, then the matching else
/// label.
pub open spec fn else_asm(name: Seq<char>, k: int, target: Target) -> Seq<char> {
    exit_asm(name, target) + "@"@ + name + "_else"@ + dec_digits(k) + ":\n"@
}

/// The fixed runtime preamble: format strings, the static relay buffer, the
/// two relay helper routines, and the jump to the entry routine.
pub open spec fn preamble_asm(target: Target) -> Seq<char> {
    if target is Win64 {
        "section .import\n\textern printf\n\textern exit\n\nsection .data\n\t@int_fmt: db \"%lli \", 0\n\t@bytes_fmt: db \"%.8s\", 0\n\t@second_stack: times 1024 dq 0\n\t@stack_size: dq 0\n\nsection .text\n\tglobal WinMain\n\nWinMain:\n\tjmp start\n\n@share_to_second_stack:\n\t; arg - rax\n\tmov rbx, @second_stack\n\tmov rcx, @stack_size\n\tmov rcx, [rcx]\n\tmov qword [rbx + rcx * 8], rax\n\tmov rcx, @stack_size\n\tinc qword [rcx]\n\tret\n\n@get_pop_second_stack:\n\t; return - rax\n\tmov rbx, @second_stack\n\tmov rcx, @stack_size\n\tmov rcx, [rcx]\n\tmov rax, qword [rbx + rcx * 8 - 8]\n\tmov rcx, @stack_size\n\tdec qword [rcx]\n\tret\n"@
    } else {
        "section .import\n\textern printf\n\textern exit\n\nsection .data\n\t@int_fmt: db \"%lli \", 0\n\t@bytes_fmt: db \"%.8s\", 0\n\t\n\t@second_stack: times 1024 dq 0\n\t@stack_size: dq 0\n\nsection .text\n\tglobal main\n\nmain:\n\tjmp start\n\n@share_to_second_stack:\n\t; arg - rax\n\tmov rbx, @second_stack\n\tmov rcx, @stack_size\n\tmov rcx, [rcx]\n\tmov qword [rbx + rcx * 8], rax\n\tmov rcx, @stack_size\n\tinc qword [rcx]\n\tret\n\n@get_pop_second_stack:\n\t; return - rax\n\tmov rbx, @second_stack\n\tmov rcx, @stack_size\n\tmov rcx, [rcx]\n\tmov rax, qword [rbx + rcx * 8 - 8]\n\tmov rcx, @stack_size\n\tdec qword [rcx]\n\tret\n"@
    }
}

/// A positional-swap offset the lowering can encode.
pub open spec fn swap_arg_fits(a: i64) -> bool {
    &&& 0 <= a
    &&& 8 * a <= u64::MAX
    &&& a <= usize::MAX
}

/// The text of a whole inlinable body: each dependency spliced or called in
/// place.
pub open spec fn inline_rest(p: Program, idx: int, pos: int, target: Target) -> Result<
    Seq<char>,
    CompileError,
>
    decreases idx, p.states@[idx].deps@.len() - pos, 0int,
{
    let deps = p.states@[idx].deps@;
    if pos < 0 || pos >= deps.len() {
        Ok(Seq::<char>::empty())
    } else {
        let d = deps[pos] as int;
        if !(0 <= d < idx) {
            Err(CompileError::InvalidIndex)
        } else {
            let ds = p.states@[d];
            let piece = if ds.inlinable || ds.state_type is Integer {
                compile_op(p, d, target)
            } else {
                Ok(call_asm(ds.name@))
            };
            match piece {
                Ok(text) => match inline_rest(p, idx, pos + 1, target) {
                    Ok(rest) => Ok(text + rest),
                    Err(e) => Err(e),
                },
                Err(e) => Err(e),
            }
        }
    }
}

/// The text of a routine's body from `pos` on, ending with the routine's
/// epilogue.  `if_count` numbers the else labels; `if_stack` holds the
/// numbers of the `if`s still open.
pub open spec fn routine_rest(
    p: Program,
    idx: int,
    pos: int,
    if_count: int,
    if_stack: Seq<usize>,
    target: Target,
) -> Result<Seq<char>, CompileError>
    decreases idx, p.states@[idx].deps@.len() - pos, 0int,
{
    let s = p.states@[idx];
    let deps = s.deps@;
    if pos < 0 || pos >= deps.len() {
        Ok(exit_asm(s.name@, target))
    } else {
        let d = deps[pos] as int;
        if !(0 <= d < idx) {
            Err(CompileError::InvalidIndex)
        } else {
            let ds = p.states@[d];
            if ds.state_type is If {
                match routine_rest(p, idx, pos + 1, if_count + 1, if_stack.push(
                    (if_count + 1) as usize,
                ), target) {
                    Ok(rest) => Ok(if_asm(s.name@, if_count + 1) + rest),
                    Err(e) => Err(e),
                }
            } else if ds.state_type is Else {
                if if_stack.len() == 0 {
                    Err(CompileError::UnbalancedConditional)
                } else {
                    match routine_rest(p, idx, pos + 1, if_count, if_stack.drop_last(), target) {
                        Ok(rest) => Ok(else_asm(s.name@, if_stack.last() as int, target) + rest),
                        Err(e) => Err(e),
                    }
                }
            } else if ds.state_type is SelfCall {
                match routine_rest(p, idx, pos + 1, if_count, if_stack, target) {
                    Ok(rest) => Ok(call_asm(s.name@) + rest),
                    Err(e) => Err(e),
                }
            } else if ds.state_type is SelfGoto {
                match routine_rest(p, idx, pos + 1, if_count, if_stack, target) {
                    Ok(rest) => Ok(goto_asm(s.name@) + rest),
                    Err(e) => Err(e),
                }
            } else {
                let piece = if ds.inlinable || ds.state_type is Integer {
                    compile_op(p, d, target)
                } else {
                    Ok(call_asm(ds.name@))
                };
                match piece {
                    Ok(text) => match routine_rest(p, idx, pos + 1, if_count, if_stack, target) {
                        Ok(rest) => Ok(text + rest),
                        Err(e) => Err(e),
                    },
                    Err(e) => Err(e),
                }
            }
        }
    }
}

/// Every dependency of entry `idx` points inside the arena and before it.
pub open spec fn deps_below(p: Program, idx: int) -> bool {
    forall|k: int| 0 <= k < p.states@[idx].deps@.len() ==> 0 <= #[trigger] p.states@[idx].deps@[k]
        < idx
}

/// The text one arena entry lowers to: a primitive's template with its
/// arguments substituted, a splice of an inlinable body, or a full named
/// routine.
pub open spec fn compile_op(p: Program, idx: int, target: Target) -> Result<Seq<char>, CompileError>
    decreases idx, p.states@[idx].deps@.len() + 1, 1int,
{
    if idx < 0 || idx >= p.states@.len() {
        Err(CompileError::InvalidIndex)
    } else {
        let s = p.states@[idx];
        let args = p.args_of(s);
        let has_args = s.template_arguments_index != 0;
        match s.state_type {
            StateType::Pop => if !has_args {
                Ok(pop_asm())
            } else {
                Ok(repeat_text(pop_asm(), args[0] as int))
            },
            StateType::Dup => if !has_args {
                Ok(dup_asm())
            } else {
                Ok(repeat_text(dup_asm(), args[0] as int))
            },
            StateType::Swap => if !has_args {
                Ok(swap_asm(0, 1))
            } else {
                if swap_arg_fits(args[0]) && swap_arg_fits(args[1]) {
                    Ok(swap_asm(args[0] as int, args[1] as int))
                } else {
                    Err(CompileError::OversizedArgument)
                }
            },
            StateType::Integer => match parse_int_spec(s.name@) {
                Some(v) => if v > i32::MAX || v < i32::MIN {
                    Ok(big_int_asm(s.name@))
                } else {
                    Ok(int_asm(s.name@))
                },
                None => Err(CompileError::BadLiteral),
            },
            StateType::Additional | StateType::If | StateType::Else | StateType::SelfCall
                | StateType::SelfGoto => {
                if s.inlinable {
                    inline_rest(p, idx, 0, target)
                } else if !deps_below(p, idx) {
                    Err(CompileError::InvalidIndex)
                } else if num_of_kind(p, s.deps@, StateType::If) != num_of_kind(
                    p,
                    s.deps@,
                    StateType::Else,
                ) {
                    Err(CompileError::UnbalancedConditional)
                } else {
                    match routine_rest(p, idx, 0, 0, Seq::<usize>::empty(), target) {
                        Ok(body) => Ok(header_asm(s.name@) + body),
                        Err(e) => Err(e),
                    }
                }
            },
            _ => Ok(prim_asm(s.state_type, target)),
        }
    }
}

/// The listing of every non-inlinable operation from `idx` on, each lowered
/// as a standalone routine.
pub open spec fn compile_rest(p: Program, idx: int, target: Target) -> Result<
    Seq<char>,
    CompileError,
>
    decreases p.states@.len() - idx,
{
    if idx < 0 || idx >= p.states@.len() {
        Ok(Seq::<char>::empty())
    } else if p.states@[idx].inlinable {
        compile_rest(p, idx + 1, target)
    } else {
        match compile_op(p, idx, target) {
            Ok(text) => match compile_rest(p, idx + 1, target) {
                Ok(rest) => Ok(text + rest),
                Err(e) => Err(e),
            },
            Err(e) => Err(e),
        }
    }
}

/// A whole program's listing: the runtime preamble, then one routine per
/// non-inlinable operation, in arena order.
pub open spec fn spec_compile_program(p: Program, target: Target) -> Result<
    Seq<char>,
    CompileError,
> {
    match compile_rest(p, 0, target) {
        Ok(text) => Ok(preamble_asm(target) + text),
        Err(e) => Err(e),
    }
}

/// `r` with `prefix` prepended to its text, errors passed through.
pub open spec fn ok_with(prefix: Seq<char>, r: Result<Seq<char>, CompileError>) -> Result<
    Seq<char>,
    CompileError,
> {
    match r {
        Ok(t) => Ok(prefix + t),
        Err(e) => Err(e),
    }
}

proof fn lemma_ok_with_piece(a: Seq<char>, piece: Seq<char>, r: Result<Seq<char>, CompileError>)
    ensures
        ok_with(a + piece, r) == (match r {
            Ok(t) => ok_with(a, Ok(piece + t)),
            Err(e) => ok_with(a, Err(e)),
        }),
{
    match r {
        Ok(t) => {
            assert((a + piece) + t =~= a + (piece + t));
        },
        Err(_) => {},
    }
}

/// Writes the exchange of the operands `first_argument` and
/// `second_argument` positions below the top of the stack.
pub fn generate_swap_asm(first_argument: usize, second_argument: usize) -> (r: String)
    requires
        8 * first_argument <= u64::MAX,
        8 * second_argument <= u64::MAX,
    ensures
        r@ == swap_asm(first_argument as int, second_argument as int),
{
    let off_a: u64 = (first_argument as u64) * 8;
    let off_b: u64 = (second_argument as u64) * 8;
    let mut out = String::new();
    out.append("\tmov rax, qword [rsp + ");
    crate::num::push_dec_digits(&mut out, off_a);
    out.append("] ; swap<");
    crate::num::push_dec_digits(&mut out, first_argument as u64);
    out.append(",");
    crate::num::push_dec_digits(&mut out, second_argument as u64);
    out.append(">\n\tmov rbx, qword [rsp + ");
    crate::num::push_dec_digits(&mut out, off_b);
    out.append("]\n\tmov qword [rsp + ");
    crate::num::push_dec_digits(&mut out, off_a);
    out.append("], rbx\n\tmov qword [rsp + ");
    crate::num::push_dec_digits(&mut out, off_b);
    out.append("], rax\n");
    proof {
        assert(out@ =~= swap_asm(first_argument as int, second_argument as int));
    }
    out
}

/// Writes a routine's epilogue for this routine name.
fn exit_text(name: &String, target: Target) -> (r: String)
    ensures
        r@ == exit_asm(name@, target),
{
    let start_name = "start".to_owned();
    if name.eq(&start_name) {
        match target {
            Target::Win64 => "\tadd rsp, 32\n\txor rcx, rcx\n\tcall exit\n".to_owned(),
            Target::Linux => "\txor rdi, rdi\n\tcall exit\n".to_owned(),
        }
    } else {
        "\tcall @get_pop_second_stack\n\tpush rax\n\tret\n\tpop rax\n".to_owned()
    }
}

/// Writes the fixed instruction sequence of a single-template primitive.
fn prim_text(t: StateType, target: Target) -> (r: String)
    ensures
        r@ == prim_asm(t, target),
{
    match t {
        StateType::StackHead => "\tpush rsp ; stack_head\n".to_owned(),
        StateType::ReadFrom => "\tpop rax ; read_from\n\tpush qword [rax]\n".to_owned(),
        StateType::WriteTo => "\tpop rax ; write_to\n\tpop rbx\n\tmov qword [rbx], rax\n".to_owned(),
        StateType::Eq => "\tpop rax ; eq\n\tpop rbx\n\tcmp rbx, rax\n\tsete al\n\tand rax, 1\n\tpush rax\n".to_owned(),
        StateType::Neq => "\tpop rax ; neq\n\tpop rbx\n\tcmp rbx, rax\n\tsetne al\n\tand rax, 1\n\tpush rax\n".to_owned(),
        StateType::More => "\tpop rax ; more\n\tpop rbx\n\tcmp rbx, rax\n\tsetg al\n\tand rax, 1\n\tpush rax\n".to_owned(),
        StateType::Less => "\tpop rax ; less\n\tpop rbx\n\tcmp rbx, rax\n\tsetl al\n\tand rax, 1\n\tpush rax\n".to_owned(),
        StateType::Inc => "\tinc qword [rsp] ; inc\n".to_owned(),
        StateType::Dec => "\tdec qword [rsp] ; dec\n".to_owned(),
        StateType::Sum => "\tpop rax ; sum\n\tadd qword [rsp], rax\n".to_owned(),
        StateType::Dif => "\tpop rax ; dif\n\tsub qword [rsp], rax\n".to_owned(),
        StateType::Mul => "\tpop rax ; mul\n\tpop rbx\n\tmul rbx\n\tpush rax\n".to_owned(),
        StateType::Div => "\tpop rbx ; div\n\tpop rax\n\tcqo\n\tidiv rbx\n\tpush rax\n".to_owned(),
        StateType::Print => match target {
            Target::Win64 => "\tlea rcx, [rel @int_fmt] ; print\n\tpop rdx\n\tsub rsp, 32\n\tcall printf\n\tadd rsp, 32\n".to_owned(),
            Target::Linux => "\txor rax, rax ; print\n\tlea rdi, [rel @int_fmt]\n\tpop rsi\n\tsub rsp, 32\n\tcall printf\n\tadd rsp, 32\n".to_owned(),
        },
        StateType::WriteRaw => match target {
            Target::Win64 => "\tlea rcx, [rel @bytes_fmt] ; write\n\tmov rdx, rsp\n\tsub rsp, 56\n\tcall printf\n\tadd rsp, 64\n".to_owned(),
            Target::Linux => "\txor rax, rax ; print\n\tlea rdi, [rel @bytes_fmt]\n\tpop rsi\n\tsub rsp, 56\n\tcall printf\n\tadd rsp, 64\n".to_owned(),
        },
        StateType::Exit => match target {
            Target::Win64 => "\tpop rcx\n\tcall exit\n".to_owned(),
            Target::Linux => "\tpop rdi\n\tcall exit\n".to_owned(),
        },
        _ => {
            let r = String::new();
            proof {
                assert(r@ =~= prim_asm(t, target));
            }
            r
        },
    }
}

/// Lowers arena entry `idx` into its text: a primitive's template with the
/// resolved arguments substituted, the splice of an inlinable body, or a
/// full named routine with prologue, synthesized labels and epilogue.
pub fn compile_statement(p: &Program, idx: usize, target: Target) -> (r: Result<
    String,
    CompileError,
>)
    requires
        p.wf(),
    ensures
        match r {
            Ok(text) => compile_op(*p, idx as int, target) == Ok::<Seq<char>, CompileError>(text@),
            Err(e) => compile_op(*p, idx as int, target) == Err::<Seq<char>, CompileError>(e),
        },
    decreases idx,
{
    if idx >= p.states.len() {
        return Err(CompileError::InvalidIndex);
    }
    proof {
        assert(p.state_wf(idx as int));
    }
    let s = &p.states[idx];
    let has_args = s.template_arguments_index != 0;
    match s.state_type {
        StateType::Pop | StateType::Dup => {
            let piece = if matches!(s.state_type, StateType::Pop) {
                "\tadd rsp, 8\n"
            } else {
                "\tpush qword [rsp] ; dup\n"
            };
            let ghost piece_spec = if s.state_type is Pop {
                pop_asm()
            } else {
                dup_asm()
            };
            if !has_args {
                Ok(piece.to_owned())
            } else {
                let args = &p.template_arguments[s.template_arguments_index];
                let c = args[0];
                let mut out = String::new();
                let mut k: i64 = 0;
                while k < c
                    invariant
                        0 <= k,
                        c > 0 ==> k <= c,
                        c <= 0 ==> k == 0,
                        piece@ == piece_spec,
                        out@ =~= repeat_text(piece_spec, k as int),
                    decreases c - k,
                {
                    out.append(piece);
                    k = k + 1;
                    proof {
                        assert(out@ =~= repeat_text(piece_spec, k as int));
                    }
                }
                Ok(out)
            }
        },
        StateType::Swap => {
            if !has_args {
                Ok(generate_swap_asm(0, 1))
            } else {
                let args = &p.template_arguments[s.template_arguments_index];
                let a = args[0];
                let b = args[1];
                if a > 2305843009213693951i64 || (a as u64) > (usize::MAX as u64)
                    || b > 2305843009213693951i64 || (b as u64) > (usize::MAX as u64) {
                    Err(CompileError::OversizedArgument)
                } else {
                    Ok(generate_swap_asm(a as usize, b as usize))
                }
            }
        },
        StateType::Integer => {
            match crate::num::parse_int(&s.name) {
                None => Err(CompileError::BadLiteral),
                Some(v) => {
                    let mut out = String::new();
                    if v > i32::MAX as i64 || v < i32::MIN as i64 {
                        out.append("\tmov rax, ");
                        out.append(s.name.as_str());
                        out.append("\n\tpush rax\n");
                        proof {
                            assert(out@ =~= big_int_asm(s.name@));
                        }
                    } else {
                        out.append("\tpush qword ");
                        out.append(s.name.as_str());
                        out.append("\n");
                        proof {
                            assert(out@ =~= int_asm(s.name@));
                        }
                    }
                    Ok(out)
                },
            }
        },
        StateType::Additional | StateType::If | StateType::Else | StateType::SelfCall
            | StateType::SelfGoto => {
            let deps_len = s.deps.len();
            if s.inlinable {
                let ghost whole = compile_op(*p, idx as int, target);
                let mut out = String::new();
                let mut pos: usize = 0;
                while pos < deps_len
                    invariant
                        p.wf(),
                        idx < p.states@.len(),
                        s == p.states@[idx as int],
                        s.inlinable,
                        deps_len == s.deps@.len(),
                        pos <= deps_len,
                        whole == compile_op(*p, idx as int, target),
                        whole == ok_with(out@, inline_rest(*p, idx as int, pos as int, target)),
                    decreases deps_len - pos,
                {
                    proof {
                        assert(p.state_wf(idx as int));
                        assert(s.deps@[pos as int] < idx);
                    }
                    let d = s.deps[pos];
                    let ds = &p.states[d];
                    let ghost out0 = out@;
                    if ds.inlinable || matches!(ds.state_type, StateType::Integer) {
                        match compile_statement(p, d, target) {
                            Ok(text) => {
                                out.append(text.as_str());
                                proof {
                                    lemma_ok_with_piece(
                                        out0,
                                        text@,
                                        inline_rest(*p, idx as int, pos as int + 1, target),
                                    );
                                }
                            },
                            Err(e) => {
                                return Err(e);
                            },
                        }
                    } else {
                        out.append("\tcall ");
                        out.append(ds.name.as_str());
                        out.append("\n");
                        proof {
                            assert(out@ =~= out0 + call_asm(ds.name@));
                            lemma_ok_with_piece(
                                out0,
                                call_asm(ds.name@),
                                inline_rest(*p, idx as int, pos as int + 1, target),
                            );
                        }
                    }
                    pos = pos + 1;
                }
                proof {
                    assert(out@ + Seq::<char>::empty() =~= out@);
                }
                Ok(out)
            } else {
                // the pairing rule is checked before anything is written
                let mut if_total: usize = 0;
                let mut else_total: usize = 0;
                let mut k: usize = 0;
                while k < deps_len
                    invariant
                        p.wf(),
                        idx < p.states@.len(),
                        s == p.states@[idx as int],
                        deps_len == s.deps@.len(),
                        k <= deps_len,
                        if_total == num_of_kind(*p, s.deps@.take(k as int), StateType::If),
                        else_total == num_of_kind(*p, s.deps@.take(k as int), StateType::Else),
                        if_total <= k,
                        else_total <= k,
                    decreases deps_len - k,
                {
                    proof {
                        assert(p.state_wf(idx as int));
                        assert(s.deps@[k as int] < idx);
                    }
                    let d = s.deps[k];
                    let dt = p.states[d].state_type;
                    if dt == StateType::If {
                        if_total = if_total + 1;
                    } else if dt == StateType::Else {
                        else_total = else_total + 1;
                    }
                    proof {
                        assert(s.deps@.take(k + 1).drop_last() =~= s.deps@.take(k as int));
                        assert(s.deps@.take(k + 1).last() == s.deps@[k as int]);
                    }
                    k = k + 1;
                }
                proof {
                    assert(s.deps@.take(deps_len as int) =~= s.deps@);
                    assert(deps_below(*p, idx as int)) by {
                        assert(p.state_wf(idx as int));
                    }
                }
                if if_total != else_total {
                    return Err(CompileError::UnbalancedConditional);
                }
                let ghost whole = compile_op(*p, idx as int, target);
                let mut out = String::new();
                out.append(s.name.as_str());
                out.append(":\n\tpop rax\n\tcall @share_to_second_stack\n");
                out.append("@");
                out.append(s.name.as_str());
                out.append("_jump_position_you_know:\n");
                proof {
                    assert(out@ =~= header_asm(s.name@));
                }
                let mut pos: usize = 0;
                let mut if_count: usize = 0;
                let mut if_stack: Vec<usize> = Vec::new();
                while pos < deps_len
                    invariant
                        p.wf(),
                        idx < p.states@.len(),
                        s == p.states@[idx as int],
                        deps_len == s.deps@.len(),
                        pos <= deps_len,
                        if_count <= pos,
                        whole == compile_op(*p, idx as int, target),
                        whole == ok_with(
                            out@,
                            routine_rest(
                                *p,
                                idx as int,
                                pos as int,
                                if_count as int,
                                if_stack@,
                                target,
                            ),
                        ),
                    decreases deps_len - pos,
                {
                    proof {
                        assert(p.state_wf(idx as int));
                        assert(s.deps@[pos as int] < idx);
                    }
                    let d = s.deps[pos];
                    let ds = &p.states[d];
                    let ghost out0 = out@;
                    let ghost rest_next = routine_rest(
                        *p,
                        idx as int,
                        pos as int + 1,
                        if_count as int,
                        if_stack@,
                        target,
                    );
                    if ds.state_type == StateType::If {
                        out.append("\tpop rax\n\tcmp rax, 0\n\tjle @");
                        out.append(s.name.as_str());
                        out.append("_else");
                        crate::num::push_dec_digits(&mut out, (if_count + 1) as u64);
                        out.append("\n");
                        if_count = if_count + 1;
                        if_stack.push(if_count);
                        proof {
                            assert(out@ =~= out0 + if_asm(s.name@, if_count as int));
                            lemma_ok_with_piece(
                                out0,
                                if_asm(s.name@, if_count as int),
                                routine_rest(
                                    *p,
                                    idx as int,
                                    pos as int + 1,
                                    if_count as int,
                                    if_stack@,
                                    target,
                                ),
                            );
                        }
                    } else if ds.state_type == StateType::Else {
                        let top = match if_stack.pop() {
                            Some(top) => top,
                            None => {
                                return Err(CompileError::UnbalancedConditional);
                            },
                        };
                        let tail = exit_text(&s.name, target);
                        out.append(tail.as_str());
                        out.append("@");
                        out.append(s.name.as_str());
                        out.append("_else");
                        crate::num::push_dec_digits(&mut out, top as u64);
                        out.append(":\n");
                        proof {
                            assert(out@ =~= out0 + else_asm(s.name@, top as int, target));
                            lemma_ok_with_piece(
                                out0,
                                else_asm(s.name@, top as int, target),
                                routine_rest(
                                    *p,
                                    idx as int,
                                    pos as int + 1,
                                    if_count as int,
                                    if_stack@,
                                    target,
                                ),
                            );
                        }
                    } else if ds.state_type == StateType::SelfCall {
                        out.append("\tcall ");
                        out.append(s.name.as_str());
                        out.append("\n");
                        proof {
                            assert(out@ =~= out0 + call_asm(s.name@));
                            lemma_ok_with_piece(out0, call_asm(s.name@), rest_next);
                        }
                    } else if ds.state_type == StateType::SelfGoto {
                        out.append("\tjmp @");
                        out.append(s.name.as_str());
                        out.append("_jump_position_you_know\n");
                        proof {
                            assert(out@ =~= out0 + goto_asm(s.name@));
                            lemma_ok_with_piece(out0, goto_asm(s.name@), rest_next);
                        }
                    } else if ds.inlinable || matches!(ds.state_type, StateType::Integer) {
                        match compile_statement(p, d, target) {
                            Ok(text) => {
                                out.append(text.as_str());
                                proof {
                                    lemma_ok_with_piece(out0, text@, rest_next);
                                }
                            },
                            Err(e) => {
                                return Err(e);
                            },
                        }
                    } else {
                        out.append("\tcall ");
                        out.append(ds.name.as_str());
                        out.append("\n");
                        proof {
                            assert(out@ =~= out0 + call_asm(ds.name@));
                            lemma_ok_with_piece(out0, call_asm(ds.name@), rest_next);
                        }
                    }
                    pos = pos + 1;
                }
                let tail = exit_text(&s.name, target);
                out.append(tail.as_str());
                Ok(out)
            }
        },
        _ => Ok(prim_text(s.state_type, target)),
    }
}

/// Lowers a whole program: the runtime preamble, then every non-inlinable
/// operation as a standalone routine, in arena order.
pub fn compile_program(p: &Program, target: Target) -> (r: Result<String, CompileError>)
    requires
        p.wf(),
    ensures
        match r {
            Ok(text) => spec_compile_program(*p, target) == Ok::<Seq<char>, CompileError>(text@),
            Err(e) => spec_compile_program(*p, target) == Err::<Seq<char>, CompileError>(e),
        },
{
    let mut out = match target {
        Target::Win64 => "section .import\n\textern printf\n\textern exit\n\nsection .data\n\t@int_fmt: db \"%lli \", 0\n\t@bytes_fmt: db \"%.8s\", 0\n\t@second_stack: times 1024 dq 0\n\t@stack_size: dq 0\n\nsection .text\n\tglobal WinMain\n\nWinMain:\n\tjmp start\n\n@share_to_second_stack:\n\t; arg - rax\n\tmov rbx, @second_stack\n\tmov rcx, @stack_size\n\tmov rcx, [rcx]\n\tmov qword [rbx + rcx * 8], rax\n\tmov rcx, @stack_size\n\tinc qword [rcx]\n\tret\n\n@get_pop_second_stack:\n\t; return - rax\n\tmov rbx, @second_stack\n\tmov rcx, @stack_size\n\tmov rcx, [rcx]\n\tmov rax, qword [rbx + rcx * 8 - 8]\n\tmov rcx, @stack_size\n\tdec qword [rcx]\n\tret\n".to_owned(),
        Target::Linux => "section .import\n\textern printf\n\textern exit\n\nsection .data\n\t@int_fmt: db \"%lli \", 0\n\t@bytes_fmt: db \"%.8s\", 0\n\t\n\t@second_stack: times 1024 dq 0\n\t@stack_size: dq 0\n\nsection .text\n\tglobal main\n\nmain:\n\tjmp start\n\n@share_to_second_stack:\n\t; arg - rax\n\tmov rbx, @second_stack\n\tmov rcx, @stack_size\n\tmov rcx, [rcx]\n\tmov qword [rbx + rcx * 8], rax\n\tmov rcx, @stack_size\n\tinc qword [rcx]\n\tret\n\n@get_pop_second_stack:\n\t; return - rax\n\tmov rbx, @second_stack\n\tmov rcx, @stack_size\n\tmov rcx, [rcx]\n\tmov rax, qword [rbx + rcx * 8 - 8]\n\tmov rcx, @stack_size\n\tdec qword [rcx]\n\tret\n".to_owned(),
    };
    proof {
        assert(out@ == preamble_asm(target));
    }
    let mut idx: usize = 0;
    while idx < p.states.len()
        invariant
            p.wf(),
            idx <= p.states@.len(),
            spec_compile_program(*p, target) == ok_with(
                out@,
                compile_rest(*p, idx as int, target),
            ),
        decreases p.states@.len() - idx,
    {
        let ghost out0 = out@;
        if !p.states[idx].inlinable {
            match compile_statement(p, idx, target) {
                Ok(text) => {
                    out.append(text.as_str());
                    proof {
                        lemma_ok_with_piece(out0, text@, compile_rest(*p, idx as int + 1, target));
                    }
                },
                Err(e) => {
                    return Err(e);
                },
            }
        }
        idx = idx + 1;
    }
    proof {
        assert(out@ + Seq::<char>::empty() =~= out@);
    }
    Ok(out)
}

} // verus!
