//! The graph builder: one left-to-right pass over the token stream, turning
//! definitions `st <name> : <token>* ;` into arena entries.  Integer tokens
//! become anonymous integer operations at their point of use; a token
//! `name<arg,...>` clones the base operation and records its literal
//! arguments in the side table.  The pass is specified as a small state
//! machine (`build_step`) folded over the stream, and the executable builder
//! is proved to land exactly where the fold lands.

use crate::num::{dec_str, int_to_string, parse_int, parse_int_spec};
use crate::op::{
    find_state, first_pos, is_inlinable_v, lemma_first_pos,
    lemma_is_inlinable_view, lemma_wf_from_view, numeric_state, prog_wf_v,
    separate_template_and_name, state_wf_v, is_inlinable, Program, ProgramV, State, StateType,
    StateV,
};
use vstd::prelude::*;

verus! {

/// The construct a build refuses, always fatally.
#[derive(Clone, Copy, PartialEq, Eq, Structural, Debug)]
pub enum BuildErrorKind {
    /// A name beginning with the character reserved for synthesized labels.
    ReservedName,
    /// A reference to a name not yet in the arena.
    UndefinedName,
    /// A template argument list that is not comma-separated integers, or too
    /// short for its primitive.
    MalformedTemplate,
    /// The stream ended inside a definition.
    UnterminatedDefinition,
}

/// A build failure: what was wrong, and the token it was wrong at.
#[derive(Debug)]
pub struct BuildError {
    pub kind: BuildErrorKind,
    pub token: String,
}

/// The builder's whole state between tokens.
#[verifier::ext_equal]
pub struct BuildSt {
    pub states: Seq<StateV>,
    pub template_arguments: Seq<Seq<i64>>,
    pub cur_name: Seq<char>,
    pub cur_deps: Seq<usize>,
    pub in_state: bool,
    pub state_colon: bool,
    pub in_comment: bool,
}

/// One token's effect: carry on in a new state, or stop with an error.
pub enum StepV {
    Go(BuildSt),
    Stop(BuildErrorKind, Seq<char>),
}

/// What a whole build comes to.
pub enum BuildResultV {
    Built(ProgramV),
    Refused(BuildErrorKind, Seq<char>),
}

/// Index of the first arena entry named `name`, from position `i` on;
/// `states.len()` when there is none.
pub open spec fn find_from(states: Seq<StateV>, name: Seq<char>, i: int) -> int
    decreases states.len() - i,
{
    if i < 0 || i >= states.len() {
        states.len() as int
    } else if states[i].name == name {
        i
    } else {
        find_from(states, name, i + 1)
    }
}

pub proof fn lemma_find_from(states: Seq<StateV>, name: Seq<char>, i: int)
    requires
        0 <= i <= states.len(),
    ensures
        i <= find_from(states, name, i) <= states.len(),
        forall|k: int| i <= k < find_from(states, name, i) ==> states[k].name != name,
        find_from(states, name, i) < states.len() ==> states[find_from(states, name, i)].name
            == name,
    decreases states.len() - i,
{
    if i < states.len() && !(states[i].name == name) {
        lemma_find_from(states, name, i + 1);
    }
}

/// The comma-separated integer literals of a template argument text, or
/// `None` where any piece is not a 64-bit decimal literal.
pub open spec fn parse_args_spec(v: Seq<char>) -> Option<Seq<i64>>
    decreases v.len(),
{
    let p = first_pos(v, ',') as int;
    if p >= v.len() {
        match parse_int_spec(v) {
            Some(n) => Some(seq![n]),
            None => None,
        }
    } else {
        match parse_int_spec(v.subrange(0, p)) {
            Some(n) => match parse_args_spec(v.subrange(p + 1, v.len() as int)) {
                Some(rest) => Some(seq![n] + rest),
                None => None,
            },
            None => None,
        }
    }
}

/// One primitive arena entry.
pub open spec fn prim_v(name: Seq<char>, t: StateType) -> StateV {
    StateV {
        name: name,
        deps: Seq::empty(),
        state_type: t,
        inlinable: true,
        template_arguments_index: 0,
    }
}

/// The arena every build starts from: the fixed primitive name surface.
pub open spec fn primitive_states() -> Seq<StateV> {
    seq![
        prim_v("stack_head"@, StateType::StackHead),
        prim_v("read_from"@, StateType::ReadFrom),
        prim_v("write_to"@, StateType::WriteTo),
        prim_v("print"@, StateType::Print),
        prim_v("write_raw"@, StateType::WriteRaw),
        prim_v("eq"@, StateType::Eq),
        prim_v("neq"@, StateType::Neq),
        prim_v("more"@, StateType::More),
        prim_v("less"@, StateType::Less),
        prim_v("dup"@, StateType::Dup),
        prim_v("pop"@, StateType::Pop),
        prim_v("sum"@, StateType::Sum),
        prim_v("dif"@, StateType::Dif),
        prim_v("mul"@, StateType::Mul),
        prim_v("div"@, StateType::Div),
        prim_v("inc"@, StateType::Inc),
        prim_v("dec"@, StateType::Dec),
        prim_v("if"@, StateType::If),
        prim_v("else"@, StateType::Else),
        prim_v("swap"@, StateType::Swap),
        prim_v("__self__"@, StateType::SelfCall),
        prim_v("__self__goto__"@, StateType::SelfGoto),
        prim_v("exit"@, StateType::Exit),
    ]
}

/// Where every build begins: the primitive arena, the empty argument entry
/// that "no arguments" points at, and the idle parser.
pub open spec fn initial_build_state() -> BuildSt {
    BuildSt {
        states: primitive_states(),
        template_arguments: seq![Seq::<i64>::empty()],
        cur_name: Seq::<char>::empty(),
        cur_deps: Seq::<usize>::empty(),
        in_state: false,
        state_colon: false,
        in_comment: false,
    }
}

/// What one body token adds, once it is known to be neither `;` nor an
/// integer literal nor reserved: a plain reference, or a template instance.
pub open spec fn body_reference_step(bs: BuildSt, t: Seq<char>) -> StepV {
    let cut = first_pos(t, '<') as int;
    let base = t.subrange(0, cut);
    let argstext = if cut + 1 < t.len() {
        t.subrange(cut + 1, t.len() - 1)
    } else {
        Seq::<char>::empty()
    };
    if argstext.len() == 0 {
        let j = find_from(bs.states, t, 0);
        if j == bs.states.len() {
            StepV::Stop(BuildErrorKind::UndefinedName, t)
        } else {
            StepV::Go(BuildSt { cur_deps: bs.cur_deps.push(j as usize), ..bs })
        }
    } else {
        let j = find_from(bs.states, base, 0);
        if j == bs.states.len() {
            StepV::Stop(BuildErrorKind::UndefinedName, t)
        } else {
            match parse_args_spec(argstext) {
                None => StepV::Stop(BuildErrorKind::MalformedTemplate, t),
                Some(args) => {
                    let bt = bs.states[j].state_type;
                    if (bt is Swap && !(args.len() >= 2 && args[0] >= 0 && args[1] >= 0)) || (bt
                        is Dup && args.len() < 1) || (bt is Pop && args.len() < 1) {
                        StepV::Stop(BuildErrorKind::MalformedTemplate, t)
                    } else {
                        StepV::Go(
                            BuildSt {
                                states: bs.states.push(
                                    StateV {
                                        name: base,
                                        deps: bs.states[j].deps,
                                        state_type: bt,
                                        inlinable: bs.states[j].inlinable,
                                        template_arguments_index: bs.template_arguments.len() as usize,
                                    },
                                ),
                                template_arguments: bs.template_arguments.push(args),
                                cur_deps: bs.cur_deps.push(bs.states.len() as usize),
                                ..bs
                            },
                        )
                    }
                },
            }
        }
    }
}

/// The whole effect of one token on the builder's state.
pub open spec fn build_step(bs: BuildSt, t: Seq<char>) -> StepV {
    if t.len() == 0 {
        StepV::Go(bs)
    } else if bs.in_comment {
        if t == "*/"@ {
            StepV::Go(BuildSt { in_comment: false, ..bs })
        } else {
            StepV::Go(bs)
        }
    } else if t == "/*"@ {
        StepV::Go(BuildSt { in_comment: true, ..bs })
    } else if bs.in_state {
        if t[0] == '@' {
            StepV::Stop(BuildErrorKind::ReservedName, t)
        } else {
            StepV::Go(BuildSt { cur_name: t, in_state: false, ..bs })
        }
    } else if bs.state_colon {
        if t == ";"@ {
            StepV::Go(
                BuildSt {
                    states: bs.states.push(
                        StateV {
                            name: bs.cur_name,
                            deps: bs.cur_deps,
                            state_type: StateType::Additional,
                            inlinable: is_inlinable_v(bs.states, bs.cur_name, bs.cur_deps),
                            template_arguments_index: 0,
                        },
                    ),
                    cur_name: Seq::<char>::empty(),
                    cur_deps: Seq::<usize>::empty(),
                    state_colon: false,
                    ..bs
                },
            )
        } else if t[0] == '@' {
            StepV::Stop(BuildErrorKind::ReservedName, t)
        } else {
            match parse_int_spec(t) {
                Some(n) => StepV::Go(
                    BuildSt {
                        states: bs.states.push(
                            StateV {
                                name: dec_str(n as int),
                                deps: Seq::empty(),
                                state_type: StateType::Integer,
                                inlinable: true,
                                template_arguments_index: 0,
                            },
                        ),
                        cur_deps: bs.cur_deps.push(bs.states.len() as usize),
                        ..bs
                    },
                ),
                None => body_reference_step(bs, t),
            }
        }
    } else if t == "st"@ {
        StepV::Go(BuildSt { in_state: true, ..bs })
    } else if t == ":"@ {
        StepV::Go(BuildSt { state_colon: true, ..bs })
    } else {
        StepV::Go(bs)
    }
}

/// A stream that ends inside a definition — awaiting its name, awaiting the
/// colon with a name pending, or inside a body — is refused; otherwise the
/// arena and the side table are the program.
pub open spec fn finish_build(bs: BuildSt) -> BuildResultV {
    if bs.in_state || bs.state_colon || bs.cur_name.len() > 0 {
        BuildResultV::Refused(BuildErrorKind::UnterminatedDefinition, bs.cur_name)
    } else {
        BuildResultV::Built(
            ProgramV { states: bs.states, template_arguments: bs.template_arguments },
        )
    }
}

/// Folds the remaining tokens over the builder's state.
pub open spec fn build_from(bs: BuildSt, toks: Seq<Seq<char>>, i: int) -> BuildResultV
    decreases toks.len() - i,
{
    if i < 0 || i >= toks.len() {
        finish_build(bs)
    } else {
        match build_step(bs, toks[i]) {
            StepV::Go(bs2) => build_from(bs2, toks, i + 1),
            StepV::Stop(k, t) => BuildResultV::Refused(k, t),
        }
    }
}

/// The program (or the first fault) that a token stream describes.
pub open spec fn spec_build(toks: Seq<Seq<char>>) -> BuildResultV {
    build_from(initial_build_state(), toks, 0)
}

/// The executable and the spec-level name lookups agree.
proof fn lemma_find_agree(states: Seq<State>, name: Seq<char>, r: Option<usize>)
    requires
        match r {
            Some(j) => {
                &&& j < states.len()
                &&& states[j as int].name@ == name
                &&& forall|k: int| 0 <= k < j ==> states[k].name@ != name
            },
            None => forall|k: int| 0 <= k < states.len() ==> states[k].name@ != name,
        },
    ensures
        ({
            let sv = Seq::new(states.len(), |i: int| states[i].deep_view());
            match r {
                Some(j) => find_from(sv, name, 0) == j,
                None => find_from(sv, name, 0) == states.len(),
            }
        }),
{
    let sv = Seq::new(states.len(), |i: int| states[i].deep_view());
    lemma_find_from(sv, name, 0);
    let f = find_from(sv, name, 0);
    match r {
        Some(j) => {
            if f < j {
                assert(sv[f].name == name);
                assert(states[f].name@ != name);
            }
            if j < f {
                assert(sv[j as int].name == states[j as int].name@);
            }
        },
        None => {
            if f < states.len() {
                assert(sv[f].name == name);
                assert(states[f].name@ != name);
            }
        },
    }
}

/// Copies a dependency list, index for index.
fn copy_indices(v: &Vec<usize>) -> (r: Vec<usize>)
    ensures
        r@ == v@,
{
    let mut r: Vec<usize> = Vec::new();
    let mut i: usize = 0;
    while i < v.len()
        invariant
            i <= v@.len(),
            r@ =~= v@.take(i as int),
        decreases v@.len() - i,
    {
        r.push(v[i]);
        i = i + 1;
    }
    proof {
        assert(r@ =~= v@);
    }
    r
}

/// Reads a template argument text into its literal values.
fn parse_template_args(s: &String) -> (r: Option<Vec<i64>>)
    ensures
        match r {
            Some(v) => parse_args_spec(s@) == Some(v@),
            None => parse_args_spec(s@) is None,
        },
    decreases s@.len(),
{
    proof {
        lemma_first_pos(s@, ',');
    }
    let len = s.as_str().unicode_len();
    let mut i: usize = 0;
    while i < len && s.as_str().get_char(i) != ','
        invariant
            i <= len,
            len == s@.len(),
            forall|j: int| 0 <= j < i ==> s@[j] != ',',
            first_pos(s@, ',') <= s@.len(),
            forall|j: int| 0 <= j < first_pos(s@, ',') ==> s@[j] != ',',
            first_pos(s@, ',') < s@.len() ==> s@[first_pos(s@, ',') as int] == ',',
        decreases len - i,
    {
        i = i + 1;
    }
    proof {
        assert(i == first_pos(s@, ',')) by {
            if i < first_pos(s@, ',') {
                assert(s@[i as int] != ',');
            }
            if first_pos(s@, ',') < i {
                assert(s@[first_pos(s@, ',') as int] != ',');
            }
        }
    }
    if i == len {
        match parse_int(s) {
            Some(n) => {
                let mut one: Vec<i64> = Vec::new();
                one.push(n);
                proof {
                    assert(one@ =~= seq![n]);
                }
                Some(one)
            },
            None => None,
        }
    } else {
        let seg = s.as_str().substring_char(0, i).to_owned();
        match parse_int(&seg) {
            None => None,
            Some(n) => {
                let rest_str = s.as_str().substring_char(i + 1, len).to_owned();
                match parse_template_args(&rest_str) {
                    None => None,
                    Some(rest) => {
                        let ghost r0 = rest@;
                        let mut whole = rest;
                        whole.insert(0, n);
                        proof {
                            assert(whole@ =~= seq![n] + r0);
                        }
                        Some(whole)
                    },
                }
            },
        }
    }
}

/// The builder's state as its executable variables render it.
pub open spec fn bs_of(
    states: Seq<StateV>,
    ta: Seq<Seq<i64>>,
    cur_name: Seq<char>,
    cur_deps: Seq<usize>,
    in_state: bool,
    state_colon: bool,
    in_comment: bool,
) -> BuildSt {
    BuildSt {
        states: states,
        template_arguments: ta,
        cur_name: cur_name,
        cur_deps: cur_deps,
        in_state: in_state,
        state_colon: state_colon,
        in_comment: in_comment,
    }
}

/// Consumes the token stream and produces the Program it describes, or the
/// first fault of the stream.  The result is exactly what the specification
/// fold `spec_build` names, and a built program is well formed.
pub fn build_program(tokens: &Vec<String>) -> (r: Result<Program, BuildError>)
    ensures
        match r {
            Ok(p) => p.wf() && spec_build(tokens.deep_view()) == BuildResultV::Built(p@),
            Err(e) => spec_build(tokens.deep_view()) == BuildResultV::Refused(e.kind, e.token@),
        },
{
    let mut states: Vec<State> = Vec::new();
    push_prim(&mut states, "stack_head", StateType::StackHead);
    push_prim(&mut states, "read_from", StateType::ReadFrom);
    push_prim(&mut states, "write_to", StateType::WriteTo);
    push_prim(&mut states, "print", StateType::Print);
    push_prim(&mut states, "write_raw", StateType::WriteRaw);
    push_prim(&mut states, "eq", StateType::Eq);
    push_prim(&mut states, "neq", StateType::Neq);
    push_prim(&mut states, "more", StateType::More);
    push_prim(&mut states, "less", StateType::Less);
    push_prim(&mut states, "dup", StateType::Dup);
    push_prim(&mut states, "pop", StateType::Pop);
    push_prim(&mut states, "sum", StateType::Sum);
    push_prim(&mut states, "dif", StateType::Dif);
    push_prim(&mut states, "mul", StateType::Mul);
    push_prim(&mut states, "div", StateType::Div);
    push_prim(&mut states, "inc", StateType::Inc);
    push_prim(&mut states, "dec", StateType::Dec);
    push_prim(&mut states, "if", StateType::If);
    push_prim(&mut states, "else", StateType::Else);
    push_prim(&mut states, "swap", StateType::Swap);
    push_prim(&mut states, "__self__", StateType::SelfCall);
    push_prim(&mut states, "__self__goto__", StateType::SelfGoto);
    push_prim(&mut states, "exit", StateType::Exit);
    let mut template_arguments: Vec<Vec<i64>> = Vec::new();
    template_arguments.push(Vec::<i64>::new());

    let mut cur_name: String = String::new();
    let mut cur_deps: Vec<usize> = Vec::new();
    let mut in_state = false;
    let mut state_colon = false;
    let mut in_comment = false;

    let tok_open = "/*".to_owned();
    let tok_close = "*/".to_owned();
    let tok_st = "st".to_owned();
    let tok_colon = ":".to_owned();
    let tok_semi = ";".to_owned();

    let ghost toks = tokens.deep_view();
    proof {
        assert(states.deep_view() =~~= primitive_states());
        assert(template_arguments.deep_view() =~~= initial_build_state().template_arguments);
        assert(bs_of(
            states.deep_view(),
            template_arguments.deep_view(),
            cur_name@,
            cur_deps@,
            in_state,
            state_colon,
            in_comment,
        ) =~~= initial_build_state());
        assert forall|j: int|
            0 <= j < states.deep_view().len() implies #[trigger] state_wf_v(
            states.deep_view(),
            template_arguments.deep_view(),
            j,
        ) by {
            assert(states.deep_view()[j].deps.len() == 0);
            assert(states.deep_view()[j].template_arguments_index == 0);
        }
    }
    let mut i: usize = 0;
    while i < tokens.len()
        invariant
            i <= tokens@.len(),
            toks == tokens.deep_view(),
            tok_open@ == "/*"@,
            tok_close@ == "*/"@,
            tok_st@ == "st"@,
            tok_colon@ == ":"@,
            tok_semi@ == ";"@,
            template_arguments@.len() >= 1,
            forall|k: int| 0 <= k < cur_deps@.len() ==> #[trigger] cur_deps@[k] < states@.len(),
            prog_wf_v(states.deep_view(), template_arguments.deep_view()),
            spec_build(toks) == build_from(
                bs_of(
                    states.deep_view(),
                    template_arguments.deep_view(),
                    cur_name@,
                    cur_deps@,
                    in_state,
                    state_colon,
                    in_comment,
                ),
                toks,
                i as int,
            ),
        decreases tokens@.len() - i,
    {
        let ghost bs = bs_of(
            states.deep_view(),
            template_arguments.deep_view(),
            cur_name@,
            cur_deps@,
            in_state,
            state_colon,
            in_comment,
        );
        let ghost t = toks[i as int];
        let tok = &tokens[i];
        proof {
            assert(t == tok@);
        }
        if tok.as_str().is_empty() {
            i = i + 1;
            continue ;
        }
        if in_comment {
            if tok.eq(&tok_close) {
                in_comment = false;
            }
            i = i + 1;
            continue ;
        }
        if tok.eq(&tok_open) {
            in_comment = true;
            i = i + 1;
            continue ;
        }
        if in_state {
            let c0 = tok.as_str().get_char(0);
            if c0 == '@' {
                return Err(BuildError { kind: BuildErrorKind::ReservedName, token: tok.clone() });
            }
            cur_name = tok.clone();
            in_state = false;
            i = i + 1;
            continue ;
        }
        if state_colon {
            if tok.eq(&tok_semi) {
                let mut st = State {
                    name: cur_name,
                    deps: cur_deps,
                    state_type: StateType::Additional,
                    inlinable: false,
                    template_arguments_index: 0,
                };
                let inl = is_inlinable(&states, &st);
                if inl {
                    st.inlinable = true;
                }
                proof {
                    lemma_is_inlinable_view(states@, st);
                    assert(st@.inlinable == is_inlinable_v(bs.states, bs.cur_name, bs.cur_deps));
                }
                let ghost old_states = states.deep_view();
                states.push(st);
                cur_name = String::new();
                cur_deps = Vec::new();
                state_colon = false;
                proof {
                    assert(states.deep_view() =~~= old_states.push(
                        StateV {
                            name: bs.cur_name,
                            deps: bs.cur_deps,
                            state_type: StateType::Additional,
                            inlinable: is_inlinable_v(bs.states, bs.cur_name, bs.cur_deps),
                            template_arguments_index: 0,
                        },
                    ));
                    let sv2 = states.deep_view();
                    let tav = template_arguments.deep_view();
                    assert forall|j: int| 0 <= j < sv2.len() implies #[trigger] state_wf_v(
                        sv2,
                        tav,
                        j,
                    ) by {
                        if j < old_states.len() {
                            assert(state_wf_v(old_states, tav, j));
                            assert(sv2[j] == old_states[j]);
                        } else {
                            assert(sv2[j].deps == bs.cur_deps);
                        }
                    }
                }
                i = i + 1;
                continue ;
            }
            let c0 = tok.as_str().get_char(0);
            if c0 == '@' {
                return Err(BuildError { kind: BuildErrorKind::ReservedName, token: tok.clone() });
            }
            match parse_int(tok) {
                Some(n) => {
                    cur_deps.push(states.len());
                    let st = numeric_state(int_to_string(n));
                    let ghost old_states = states.deep_view();
                    states.push(st);
                    proof {
                        assert(states.deep_view() =~~= old_states.push(
                            StateV {
                                name: dec_str(n as int),
                                deps: Seq::empty(),
                                state_type: StateType::Integer,
                                inlinable: true,
                                template_arguments_index: 0,
                            },
                        ));
                        let sv2 = states.deep_view();
                        let tav = template_arguments.deep_view();
                        assert forall|j: int| 0 <= j < sv2.len() implies #[trigger] state_wf_v(
                            sv2,
                            tav,
                            j,
                        ) by {
                            if j < old_states.len() {
                                assert(state_wf_v(old_states, tav, j));
                                assert(sv2[j] == old_states[j]);
                            } else {
                                assert(sv2[j].deps.len() == 0);
                            }
                        }
                    }
                    i = i + 1;
                    continue ;
                },
                None => {
                    let parted = separate_template_and_name(tok);
                    let base = parted.0;
                    let argstext = parted.1;
                    if argstext.as_str().is_empty() {
                        match find_state(&states, tok) {
                            Some(j) => {
                                proof {
                                    lemma_find_agree(states@, t, Some(j));
                                    assert(Seq::new(
                                        states@.len(),
                                        |q: int| states@[q].deep_view(),
                                    ) =~= states.deep_view());
                                }
                                cur_deps.push(j);
                                i = i + 1;
                                continue ;
                            },
                            None => {
                                proof {
                                    lemma_find_agree(states@, t, None);
                                    assert(Seq::new(
                                        states@.len(),
                                        |q: int| states@[q].deep_view(),
                                    ) =~= states.deep_view());
                                }
                                return Err(
                                    BuildError {
                                        kind: BuildErrorKind::UndefinedName,
                                        token: tok.clone(),
                                    },
                                );
                            },
                        }
                    } else {
                        let found = find_state(&states, &base);
                        proof {
                            lemma_find_agree(states@, base@, found);
                            assert(Seq::new(states@.len(), |q: int| states@[q].deep_view())
                                =~= states.deep_view());
                        }
                        match found {
                            None => {
                                return Err(
                                    BuildError {
                                        kind: BuildErrorKind::UndefinedName,
                                        token: tok.clone(),
                                    },
                                );
                            },
                            Some(j) => {
                                match parse_template_args(&argstext) {
                                    None => {
                                        return Err(
                                            BuildError {
                                                kind: BuildErrorKind::MalformedTemplate,
                                                token: tok.clone(),
                                            },
                                        );
                                    },
                                    Some(args) => {
                                        let bt = states[j].state_type;
                                        let bad = match bt {
                                            StateType::Swap => args.len() < 2 || args[0] < 0
                                                || args[1] < 0,
                                            StateType::Dup => args.len() < 1,
                                            StateType::Pop => args.len() < 1,
                                            _ => false,
                                        };
                                        if bad {
                                            return Err(
                                                BuildError {
                                                    kind: BuildErrorKind::MalformedTemplate,
                                                    token: tok.clone(),
                                                },
                                            );
                                        }
                                        cur_deps.push(states.len());
                                        let tai = template_arguments.len();
                                        let ghost old_ta = template_arguments.deep_view();
                                        let ghost argsv = args@;
                                        template_arguments.push(args);
                                        let nst = State {
                                            name: base,
                                            deps: copy_indices(&states[j].deps),
                                            state_type: bt,
                                            inlinable: states[j].inlinable,
                                            template_arguments_index: tai,
                                        };
                                        let ghost old_states = states.deep_view();
                                        states.push(nst);
                                        proof {
                                            assert(template_arguments.deep_view() =~~= old_ta.push(
                                                argsv,
                                            ));
                                            assert(states.deep_view() =~~= old_states.push(
                                                StateV {
                                                    name: bs.states[j as int].name,
                                                    deps: bs.states[j as int].deps,
                                                    state_type: bs.states[j as int].state_type,
                                                    inlinable: bs.states[j as int].inlinable,
                                                    template_arguments_index: old_ta.len() as usize,
                                                },
                                            ));
                                            let sv2 = states.deep_view();
                                            let tav = template_arguments.deep_view();
                                            assert forall|q: int|
                                                0 <= q < sv2.len() implies #[trigger] state_wf_v(
                                                sv2,
                                                tav,
                                                q,
                                            ) by {
                                                if q < old_states.len() {
                                                    assert(state_wf_v(old_states, old_ta, q));
                                                    assert(sv2[q] == old_states[q]);
                                                    assert(tav[sv2[q].template_arguments_index as int]
                                                        == old_ta[sv2[q].template_arguments_index as int]);
                                                } else {
                                                    assert(state_wf_v(old_states, old_ta, j as int));
                                                    assert(sv2[q].deps == old_states[j as int].deps);
                                                    assert(tav[tai as int] == argsv);
                                                }
                                            }
                                        }
                                        i = i + 1;
                                        continue ;
                                    },
                                }
                            },
                        }
                    }
                },
            }
        }
        if tok.eq(&tok_st) {
            in_state = true;
            i = i + 1;
            continue ;
        }
        if tok.eq(&tok_colon) {
            state_colon = true;
            i = i + 1;
            continue ;
        }
        i = i + 1;
    }
    if in_state || state_colon || !cur_name.as_str().is_empty() {
        return Err(BuildError { kind: BuildErrorKind::UnterminatedDefinition, token: cur_name });
    }
    let p = Program { states, template_arguments };
    proof {
        lemma_wf_from_view(p);
        assert(p@ =~~= ProgramV {
            states: p.states.deep_view(),
            template_arguments: p.template_arguments.deep_view(),
        });
    }
    Ok(p)
}

/// Appends one primitive to the arena under construction.
fn push_prim(states: &mut Vec<State>, name: &str, t: StateType)
    ensures
        final(states).deep_view() == old(states).deep_view().push(prim_v(name@, t)),
{
    states.push(
        State {
            name: name.to_owned(),
            deps: Vec::<usize>::new(),
            state_type: t,
            inlinable: true,
            template_arguments_index: 0,
        },
    );
    proof {
        assert(states.deep_view() =~~= old(states).deep_view().push(prim_v(name@, t)));
    }
}

} // verus!
