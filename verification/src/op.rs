//! The data model: operation kinds, the operation record itself, and the
//! program arena, together with the well-formedness conditions that the
//! graph builder establishes and both back ends rely on.

use vstd::prelude::*;
use vstd::string::*;

verus! {

/// The closed set of operation kinds.  Every arena entry carries one of
/// these; `Additional` marks a user-defined operation whose behaviour is its
/// dependency list.
#[derive(Clone, Copy, PartialEq, Eq, Structural, Debug)]
pub enum StateType {
    Integer,
    StackHead,
    ReadFrom,
    WriteTo,
    Eq,
    Neq,
    More,
    Less,
    Dup,
    Pop,
    Inc,
    Dec,
    Sum,
    Dif,
    Mul,
    Div,
    If,
    Else,
    Swap,
    SelfCall,
    SelfGoto,
    Print,
    WriteRaw,
    Exit,
    Additional,
}

impl Default for StateType {
    /// A freshly opened definition is user-defined until said otherwise.
    fn default() -> (r: Self)
        ensures
            r == StateType::Additional,
    {
        StateType::Additional
    }
}

/// One operation of the arena: a named unit of stack-machine behaviour.
///
/// `deps` holds arena indices; it is empty for primitives and is the flat
/// body of a user-defined operation.  `template_arguments_index` points into
/// the program's argument side table, with index `0` meaning "no arguments".
#[derive(Debug)]
pub struct State {
    pub name: String,
    pub deps: Vec<usize>,
    pub state_type: StateType,
    pub inlinable: bool,
    pub template_arguments_index: usize,
}

/// A whole program: the append-only arena of operations plus the side table
/// of literal template arguments shared by all parameterized instances.
#[derive(Debug)]
pub struct Program {
    pub states: Vec<State>,
    pub template_arguments: Vec<Vec<i64>>,
}

/// The mathematical shadow of a `State`: the same record, over sequences.
#[verifier::ext_equal]
pub struct StateV {
    pub name: Seq<char>,
    pub deps: Seq<usize>,
    pub state_type: StateType,
    pub inlinable: bool,
    pub template_arguments_index: usize,
}

impl View for State {
    type V = StateV;

    open spec fn view(&self) -> StateV {
        StateV {
            name: self.name@,
            deps: self.deps@,
            state_type: self.state_type,
            inlinable: self.inlinable,
            template_arguments_index: self.template_arguments_index,
        }
    }
}

impl DeepView for State {
    type V = StateV;

    open spec fn deep_view(&self) -> StateV {
        self.view()
    }
}

/// The mathematical shadow of a whole `Program`.
#[verifier::ext_equal]
pub struct ProgramV {
    pub states: Seq<StateV>,
    pub template_arguments: Seq<Seq<i64>>,
}

impl View for Program {
    type V = ProgramV;

    open spec fn view(&self) -> ProgramV {
        ProgramV { states: self.states.deep_view(), template_arguments: self.template_arguments.deep_view() }
    }
}

/// The kinds that force an operation to stay a callable unit: conditional
/// markers and the two self-reference markers.
pub open spec fn is_control_kind(t: StateType) -> bool {
    ||| t is If
    ||| t is Else
    ||| t is SelfCall
    ||| t is SelfGoto
}

impl Program {
    /// The literal arguments attached to `s`, or the empty list when `s` is
    /// not a template instance.
    pub open spec fn args_of(self, s: State) -> Seq<i64> {
        self.template_arguments@[s.template_arguments_index as int]@
    }

    /// Conditions local to arena entry `j`: dependencies reach only earlier
    /// entries, the side-table index is in range, and a parameterized
    /// stack-shape primitive carries enough (and, for `Swap`, non-negative)
    /// arguments.
    pub open spec fn state_wf(self, j: int) -> bool {
        let s = self.states@[j];
        &&& forall|k: int| 0 <= k < s.deps@.len() ==> #[trigger] s.deps@[k] < j
        &&& s.template_arguments_index < self.template_arguments@.len()
        &&& (s.state_type is Swap && s.template_arguments_index != 0 ==> {
            &&& self.args_of(s).len() >= 2
            &&& self.args_of(s)[0] >= 0
            &&& self.args_of(s)[1] >= 0
        })
        &&& (s.state_type is Dup && s.template_arguments_index != 0 ==> self.args_of(s).len()
            >= 1)
        &&& (s.state_type is Pop && s.template_arguments_index != 0 ==> self.args_of(s).len()
            >= 1)
    }

    /// Every program the graph builder hands out satisfies this; both the
    /// interpreter and the emitter require it.
    pub open spec fn wf(self) -> bool {
        &&& self.template_arguments@.len() >= 1
        &&& forall|j: int| 0 <= j < self.states@.len() ==> #[trigger] self.state_wf(j)
    }
}

/// `state_wf` at the view level, over the two sequences the graph builder
/// grows.
pub open spec fn state_wf_v(states: Seq<StateV>, ta: Seq<Seq<i64>>, j: int) -> bool {
    let s = states[j];
    &&& forall|k: int| 0 <= k < s.deps.len() ==> #[trigger] s.deps[k] < j
    &&& s.template_arguments_index < ta.len()
    &&& (s.state_type is Swap && s.template_arguments_index != 0 ==> {
        &&& ta[s.template_arguments_index as int].len() >= 2
        &&& ta[s.template_arguments_index as int][0] >= 0
        &&& ta[s.template_arguments_index as int][1] >= 0
    })
    &&& (s.state_type is Dup && s.template_arguments_index != 0 ==> ta[
        s.template_arguments_index as int
    ].len() >= 1)
    &&& (s.state_type is Pop && s.template_arguments_index != 0 ==> ta[
        s.template_arguments_index as int
    ].len() >= 1)
}

/// `Program::wf` at the view level.
pub open spec fn prog_wf_v(states: Seq<StateV>, ta: Seq<Seq<i64>>) -> bool {
    &&& ta.len() >= 1
    &&& forall|j: int| 0 <= j < states.len() ==> #[trigger] state_wf_v(states, ta, j)
}

/// A program whose view is well formed is well formed.
pub proof fn lemma_wf_from_view(p: Program)
    requires
        prog_wf_v(p@.states, p@.template_arguments),
    ensures
        p.wf(),
{
    assert forall|j: int| 0 <= j < p.states@.len() implies #[trigger] p.state_wf(j) by {
        assert(state_wf_v(p@.states, p@.template_arguments, j));
        assert(p@.states[j] == p.states@[j]@);
        let s = p.states@[j];
        assert forall|k: int| 0 <= k < s.deps@.len() implies #[trigger] s.deps@[k] < j by {
            assert(p@.states[j].deps[k] < j);
        }
        assert(p@.template_arguments[s.template_arguments_index as int] == p.template_arguments@[
            s.template_arguments_index as int
        ]@);
    }
}

/// Makes the anonymous operation standing for an integer literal; its value
/// is carried by its name, kept in decimal form.
pub fn numeric_state(s: String) -> (st: State)
    ensures
        st.name@ == s@,
        st.state_type == StateType::Integer,
        st.deps@.len() == 0,
        st.inlinable,
        st.template_arguments_index == 0,
{
    State {
        name: s,
        state_type: StateType::Integer,
        deps: Vec::<usize>::new(),
        inlinable: true,
        template_arguments_index: 0,
    }
}

/// Index of the first occurrence of `c` in `v`, or `v.len()` when there is
/// none.
pub open spec fn first_pos(v: Seq<char>, c: char) -> nat
    decreases v.len(),
{
    if v.len() == 0 {
        0
    } else if v[0] == c {
        0
    } else {
        (1 + first_pos(v.subrange(1, v.len() as int), c)) as nat
    }
}

pub proof fn lemma_first_pos(v: Seq<char>, c: char)
    ensures
        first_pos(v, c) <= v.len(),
        forall|j: int| 0 <= j < first_pos(v, c) ==> v[j] != c,
        first_pos(v, c) < v.len() ==> v[first_pos(v, c) as int] == c,
    decreases v.len(),
{
    if v.len() == 0 {
    } else if v[0] == c {
    } else {
        let w = v.subrange(1, v.len() as int);
        lemma_first_pos(w, c);
        assert(forall|j: int| 1 <= j < v.len() ==> v[j] == w[j - 1]);
    }
}

/// Splits a token of the shape `name<arg,arg,...>` at its first `'<'` into
/// the plain name and the text between the angle brackets; a token without
/// `'<'` comes back whole, with an empty second half.  A lone trailing `'<'`
/// yields an empty second half as well.
pub fn separate_template_and_name(s: &String) -> (r: (String, String))
    ensures
        r.0@ == s@.subrange(0, first_pos(s@, '<') as int),
        r.1@ == if first_pos(s@, '<') + 1 < s@.len() {
            s@.subrange(first_pos(s@, '<') as int + 1, s@.len() as int - 1)
        } else {
            Seq::<char>::empty()
        },
{
    proof {
        lemma_first_pos(s@, '<');
    }
    let len = s.as_str().unicode_len();
    let mut i: usize = 0;
    while i < len && s.as_str().get_char(i) != '<'
        invariant
            i <= len,
            len == s@.len(),
            forall|j: int| 0 <= j < i ==> s@[j] != '<',
            first_pos(s@, '<') <= s@.len(),
            forall|j: int| 0 <= j < first_pos(s@, '<') ==> s@[j] != '<',
            first_pos(s@, '<') < s@.len() ==> s@[first_pos(s@, '<') as int] == '<',
        decreases len - i,
    {
        i = i + 1;
    }
    proof {
        assert(i == first_pos(s@, '<')) by {
            if i < first_pos(s@, '<') {
                assert(s@[i as int] != '<');
            }
            if first_pos(s@, '<') < i {
                assert(s@[first_pos(s@, '<') as int] != '<');
            }
        }
    }
    let name = s.as_str().substring_char(0, i).to_owned();
    if len - i > 1 {
        let args = s.as_str().substring_char(i + 1, len - 1).to_owned();
        (name, args)
    } else {
        let args = String::new();
        (name, args)
    }
}

/// What `is_inlinable` decides: an operation may be spliced at its use sites
/// exactly when it is not the entry operation and none of its immediate
/// dependencies is a conditional or self-reference marker.
pub open spec fn spec_is_inlinable(states: Seq<State>, state: State) -> bool {
    &&& state.name@ != "start"@
    &&& forall|k: int| 0 <= k < state.deps@.len() ==> !is_control_kind(
        #[trigger] states[state.deps@[k] as int].state_type,
    )
}

/// The same decision at the view level, as the graph builder's contract
/// phrases it.
pub open spec fn is_inlinable_v(states: Seq<StateV>, name: Seq<char>, deps: Seq<usize>) -> bool {
    &&& name != "start"@
    &&& forall|k: int| 0 <= k < deps.len() ==> !is_control_kind(
        #[trigger] states[deps[k] as int].state_type,
    )
}

pub proof fn lemma_is_inlinable_view(states: Seq<State>, state: State)
    requires
        forall|k: int| 0 <= k < state.deps@.len() ==> #[trigger] state.deps@[k] < states.len(),
    ensures
        spec_is_inlinable(states, state) == is_inlinable_v(
            Seq::new(states.len(), |i: int| states[i].deep_view()),
            state.name@,
            state.deps@,
        ),
{
    let sv = Seq::new(states.len(), |i: int| states[i].deep_view());
    assert(forall|k: int| 0 <= k < state.deps@.len() ==> sv[#[trigger] state.deps@[k] as int].state_type
        == states[state.deps@[k] as int].state_type);
}

/// Decides whether an operation may be expanded in place rather than emitted
/// as a callable routine.  Computed from the immediate dependency list only:
/// nested non-inlinable operations are invoked, never spliced, and do not
/// count against their caller.
pub fn is_inlinable(states: &Vec<State>, state: &State) -> (r: bool)
    requires
        forall|k: int| 0 <= k < state.deps@.len() ==> #[trigger] state.deps@[k] < states@.len(),
    ensures
        r == spec_is_inlinable(states@, *state),
{
    let start_name = "start".to_owned();
    if state.name.eq(&start_name) {
        return false;
    }
    let mut k: usize = 0;
    while k < state.deps.len()
        invariant
            k <= state.deps@.len(),
            forall|k2: int| 0 <= k2 < state.deps@.len() ==> #[trigger] state.deps@[k2]
                < states@.len(),
            forall|k2: int| 0 <= k2 < k ==> !is_control_kind(
                #[trigger] states@[state.deps@[k2] as int].state_type,
            ),
            state.name@ != "start"@,
        decreases state.deps@.len() - k,
    {
        let d = state.deps[k];
        let t = states[d].state_type;
        if matches!(t, StateType::If) || matches!(t, StateType::Else) || matches!(
            t,
            StateType::SelfCall,
        ) || matches!(t, StateType::SelfGoto) {
            return false;
        }
        k = k + 1;
    }
    true
}

/// Looks a name up in the arena, returning the index of its first holder.
pub fn find_state(states: &Vec<State>, name: &String) -> (r: Option<usize>)
    ensures
        match r {
            Some(i) => {
                &&& i < states@.len()
                &&& states@[i as int].name@ == name@
                &&& forall|j: int| 0 <= j < i ==> states@[j].name@ != name@
            },
            None => forall|j: int| 0 <= j < states@.len() ==> states@[j].name@ != name@,
        },
{
    let mut i: usize = 0;
    while i < states.len()
        invariant
            i <= states@.len(),
            forall|j: int| 0 <= j < i ==> states@[j].name@ != name@,
        decreases states@.len() - i,
    {
        if states[i].name.eq(name) {
            return Some(i);
        }
        i = i + 1;
    }
    None
}

} // verus!
