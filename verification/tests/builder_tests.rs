use jalgo::builder::{build_program, BuildErrorKind};
use jalgo::op::{find_state, is_inlinable, numeric_state, separate_template_and_name, StateType};

fn toks(src: &str) -> Vec<String> {
    src.split_whitespace().map(|t| t.to_string()).collect()
}

#[test]
fn builder_resolves_names_to_arena_indices() {
    let p = build_program(&toks("st double : dup sum ; st start : 21 double ;")).unwrap();
    let double = find_state(&p.states, &"double".to_string()).unwrap();
    let start = find_state(&p.states, &"start".to_string()).unwrap();
    assert!(double < start);
    assert_eq!(p.states[start].deps.len(), 2);
    // the integer literal becomes an anonymous arena entry right before use
    let lit = p.states[start].deps[0];
    assert_eq!(p.states[lit].state_type, StateType::Integer);
    assert_eq!(p.states[lit].name, "21");
    assert_eq!(p.states[start].deps[1], double);
}

#[test]
fn undefined_name_is_refused() {
    let e = build_program(&toks("st start : frobnicate ;")).unwrap_err();
    assert_eq!(e.kind, BuildErrorKind::UndefinedName);
    assert_eq!(e.token, "frobnicate");
}

#[test]
fn undefined_template_base_is_refused() {
    let e = build_program(&toks("st start : frob<1,2> ;")).unwrap_err();
    assert_eq!(e.kind, BuildErrorKind::UndefinedName);
    assert_eq!(e.token, "frob<1,2>");
}

#[test]
fn reserved_leading_character_is_refused() {
    let e = build_program(&toks("st @start : 1 ;")).unwrap_err();
    assert_eq!(e.kind, BuildErrorKind::ReservedName);
    assert_eq!(e.token, "@start");
    let e2 = build_program(&toks("st start : @oops ;")).unwrap_err();
    assert_eq!(e2.kind, BuildErrorKind::ReservedName);
}

#[test]
fn unterminated_definition_is_refused() {
    let e = build_program(&toks("st start : 1 2 sum")).unwrap_err();
    assert_eq!(e.kind, BuildErrorKind::UnterminatedDefinition);
    let e2 = build_program(&toks("st lonely")).unwrap_err();
    assert_eq!(e2.kind, BuildErrorKind::UnterminatedDefinition);
}

#[test]
fn malformed_template_arguments_are_refused() {
    let e = build_program(&toks("st start : dup<x> ;")).unwrap_err();
    assert_eq!(e.kind, BuildErrorKind::MalformedTemplate);
    let e2 = build_program(&toks("st start : swap<1> ;")).unwrap_err();
    assert_eq!(e2.kind, BuildErrorKind::MalformedTemplate);
    let e3 = build_program(&toks("st start : swap<-1,0> ;")).unwrap_err();
    assert_eq!(e3.kind, BuildErrorKind::MalformedTemplate);
    let e4 = build_program(&toks("st start : dup<1,> ;")).unwrap_err();
    assert_eq!(e4.kind, BuildErrorKind::MalformedTemplate);
}

#[test]
fn template_instance_carries_its_arguments() {
    let p = build_program(&toks("st start : 1 swap<0,2> ;")).unwrap();
    let start = find_state(&p.states, &"start".to_string()).unwrap();
    let inst = p.states[start].deps[1];
    assert_eq!(p.states[inst].state_type, StateType::Swap);
    assert_eq!(p.states[inst].name, "swap");
    let tai = p.states[inst].template_arguments_index;
    assert!(tai != 0);
    assert_eq!(p.template_arguments[tai], vec![0, 2]);
}

#[test]
fn empty_program_builds_the_primitive_arena() {
    let p = build_program(&Vec::new()).unwrap();
    assert_eq!(p.states.len(), 23);
    assert_eq!(p.states[0].name, "stack_head");
    assert_eq!(p.states[22].name, "exit");
    assert_eq!(p.template_arguments.len(), 1);
}

#[test]
fn inlinability_follows_the_immediate_dependency_list() {
    let p = build_program(
        &toks(
            "st plain : 1 2 sum ; st looping : if __self__goto__ else ; st uses_looping : looping ; st start : plain ;",
        ),
    )
    .unwrap();
    let plain = find_state(&p.states, &"plain".to_string()).unwrap();
    let looping = find_state(&p.states, &"looping".to_string()).unwrap();
    let uses = find_state(&p.states, &"uses_looping".to_string()).unwrap();
    let start = find_state(&p.states, &"start".to_string()).unwrap();
    assert!(p.states[plain].inlinable);
    assert!(!p.states[looping].inlinable);
    // a nested non-inlinable call does not count against the caller
    assert!(p.states[uses].inlinable);
    // the entry operation is never inlinable
    assert!(!p.states[start].inlinable);
}

#[test]
fn is_inlinable_checks_name_and_markers() {
    let p = build_program(&toks("st body : 1 ;")).unwrap();
    let body = find_state(&p.states, &"body".to_string()).unwrap();
    assert!(is_inlinable(&p.states, &p.states[body]));
    let named_start = numeric_state("start".to_string());
    assert!(!is_inlinable(&p.states, &named_start));
}

#[test]
fn separate_template_and_name_splits_at_the_angle_bracket() {
    let r = separate_template_and_name(&"dup<3>".to_string());
    assert_eq!(r.0, "dup");
    assert_eq!(r.1, "3");
    let r2 = separate_template_and_name(&"swap<10,2>".to_string());
    assert_eq!(r2.0, "swap");
    assert_eq!(r2.1, "10,2");
    let r3 = separate_template_and_name(&"plain".to_string());
    assert_eq!(r3.0, "plain");
    assert_eq!(r3.1, "");
}

#[test]
fn numeric_state_is_an_inlinable_integer() {
    let st = numeric_state("42".to_string());
    assert_eq!(st.state_type, StateType::Integer);
    assert_eq!(st.name, "42");
    assert!(st.deps.is_empty());
    assert!(st.inlinable);
    assert_eq!(st.template_arguments_index, 0);
}

#[test]
fn integer_literals_are_normalized_to_decimal() {
    let p = build_program(&toks("st start : +007 ;")).unwrap();
    let start = find_state(&p.states, &"start".to_string()).unwrap();
    let lit = p.states[start].deps[0];
    assert_eq!(p.states[lit].name, "7");
}

#[test]
fn find_state_returns_the_first_holder() {
    let p = build_program(&toks("st a : 1 ; st a : 2 ; st start : a ;")).unwrap();
    let a = find_state(&p.states, &"a".to_string()).unwrap();
    let start = find_state(&p.states, &"start".to_string()).unwrap();
    // the reference resolves to the earlier definition of the name
    assert_eq!(p.states[start].deps[0], a);
    assert_eq!(find_state(&p.states, &"missing".to_string()), None);
}
