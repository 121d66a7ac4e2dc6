use sapi_lite::stt::{
    GrammarBuilder, RepeatRange, Rule, RuleArena, RuleError, SemanticValue, Transition,
    TransitionKind,
};

fn rule_arc_target(t: &Transition) -> usize {
    match &t.kind {
        TransitionKind::RuleRef { child, semantic: _ } => *child,
        other => panic!("expected a rule transition, got {:?}", other),
    }
}

#[test]
fn identity_dedup_shared_choice() {
    // a sequence that references the same choice object twice compiles the
    // choice's sub-automaton once, wired from two distinct transitions
    let mut arena = RuleArena::new();
    let morning = arena.text(String::from("morning"));
    let evening = arena.text(String::from("evening"));
    let choice = arena.choice(vec![morning, evening]).unwrap();
    let seq = arena.sequence(vec![choice, choice]).unwrap();

    let mut builder = GrammarBuilder::new();
    builder.add_rule(seq);
    let g = builder.build(&arena).unwrap();

    // one entry per structurally-distinct node, not per reference
    assert_eq!(g.entries.len(), 4);
    let mut rules: Vec<usize> = g.entries.iter().map(|e| e.rule).collect();
    rules.sort();
    assert_eq!(rules, vec![morning, evening, choice, seq]);

    // states: four entry states plus one intermediate for the two-part chain
    assert_eq!(g.states.len(), 5);

    // both chain transitions target the one compiled choice
    let choice_state = g.rule_states[choice].unwrap();
    let seq_entry = g.rule_states[seq].unwrap();
    let first = &g.states[seq_entry];
    assert_eq!(first.len(), 1);
    assert_eq!(rule_arc_target(&first[0]), choice_state);
    let mid = first[0].target.expect("the chain continues after the first part");
    assert_ne!(mid, seq_entry);
    let second = &g.states[mid];
    assert_eq!(second.len(), 1);
    assert_eq!(rule_arc_target(&second[0]), choice_state);
    assert_eq!(second[0].target, None);
}

#[test]
fn structurally_equal_nodes_stay_distinct() {
    // two separately allocated identical texts are distinct graph nodes
    let mut arena = RuleArena::new();
    let a = arena.text(String::from("hi"));
    let b = arena.text(String::from("hi"));
    let choice = arena.choice(vec![a, b]).unwrap();
    let mut builder = GrammarBuilder::new();
    builder.add_rule(choice);
    let g = builder.build(&arena).unwrap();
    assert_eq!(g.entries.len(), 3);
    assert_ne!(g.rule_states[a].unwrap(), g.rule_states[b].unwrap());
}

fn repeat_graph(min: usize, max: usize) -> (sapi_lite::stt::CompiledGrammar, usize, usize) {
    let mut arena = RuleArena::new();
    let x = arena.text(String::from("very"));
    let rep = arena.repeat(RepeatRange::between(min, max), x).unwrap();
    let mut builder = GrammarBuilder::new();
    builder.add_rule(rep);
    let g = builder.build(&arena).unwrap();
    let entry = g.rule_states[rep].unwrap();
    let child = g.rule_states[x].unwrap();
    (g, entry, child)
}

// walks the unrolled chain; returns (rule transition count, skip count)
fn walk_repeat_chain(
    g: &sapi_lite::stt::CompiledGrammar,
    entry: usize,
    child: usize,
) -> (usize, usize) {
    let mut rule_arcs = 0;
    let mut skips = 0;
    let mut state = Some(entry);
    while let Some(s) = state {
        let row = &g.states[s];
        assert_eq!(rule_arc_target(&row[0]), child);
        rule_arcs += 1;
        match row.len() {
            1 => {}
            2 => {
                assert!(matches!(row[1].kind, TransitionKind::Epsilon));
                assert_eq!(row[1].target, None);
                skips += 1;
            }
            n => panic!("a chain state has {} transitions", n),
        }
        state = row[0].target;
    }
    (rule_arcs, skips)
}

#[test]
fn repeat_two_to_four_unrolls_two_mandatory_two_skippable() {
    let (g, entry, child) = repeat_graph(2, 4);
    let (rule_arcs, skips) = walk_repeat_chain(&g, entry, child);
    assert_eq!(rule_arcs, 4);
    assert_eq!(skips, 2);
    // the first two instances are the mandatory ones
    assert_eq!(g.states[entry].len(), 1);
    let second = g.states[entry][0].target.unwrap();
    assert_eq!(g.states[second].len(), 1);
}

#[test]
fn repeat_zero_matches_empty() {
    let (g, entry, _child) = repeat_graph(0, 0);
    assert_eq!(g.states[entry].len(), 0);
}

#[test]
fn repeat_exact_three_has_no_skips() {
    let (g, entry, child) = repeat_graph(3, 3);
    let (rule_arcs, skips) = walk_repeat_chain(&g, entry, child);
    assert_eq!(rule_arcs, 3);
    assert_eq!(skips, 0);
}

#[test]
fn text_rule_wires_one_word_transition() {
    let mut arena = RuleArena::new();
    let t = arena.text(String::from("good evening"));
    let mut builder = GrammarBuilder::new();
    builder.add_rule(t);
    let g = builder.build(&arena).unwrap();
    let entry = g.rule_states[t].unwrap();
    assert_eq!(g.states[entry].len(), 1);
    match &g.states[entry][0].kind {
        TransitionKind::Words(w) => assert_eq!(w, "good evening"),
        other => panic!("expected a word transition, got {:?}", other),
    }
    assert_eq!(g.states[entry][0].target, None);
}

#[test]
fn semantic_rule_annotates_its_transition() {
    let mut arena = RuleArena::new();
    let t = arena.text(String::from("evening"));
    let s = arena.semantic(SemanticValue::String(String::from("pm")), t).unwrap();
    let mut builder = GrammarBuilder::new();
    builder.add_rule(s);
    let g = builder.build(&arena).unwrap();
    let entry = g.rule_states[s].unwrap();
    assert_eq!(g.states[entry].len(), 1);
    match &g.states[entry][0].kind {
        TransitionKind::RuleRef { child, semantic } => {
            assert_eq!(*child, g.rule_states[t].unwrap());
            assert_eq!(semantic.as_ref().unwrap(), &SemanticValue::String(String::from("pm")));
        }
        other => panic!("expected a rule transition, got {:?}", other),
    }
}

#[test]
fn empty_sequence_matches_empty() {
    let mut arena = RuleArena::new();
    let s = arena.sequence(Vec::new()).unwrap();
    let mut builder = GrammarBuilder::new();
    builder.add_rule(s);
    let g = builder.build(&arena).unwrap();
    let entry = g.rule_states[s].unwrap();
    assert_eq!(g.states[entry].len(), 0);
}

#[test]
fn top_level_flags_and_names() {
    let mut arena = RuleArena::new();
    let a = arena.text(String::from("yes"));
    let b = arena.text(String::from("no"));
    let c = arena.choice(vec![a, b]).unwrap();
    let mut builder = GrammarBuilder::new();
    builder.add_named_rule(String::from("answer"), c);
    let g = builder.build(&arena).unwrap();
    for e in g.entries.iter() {
        if e.rule == c {
            assert!(e.top_level);
            assert_eq!(e.name.as_deref(), Some("answer"));
        } else {
            assert!(!e.top_level);
            assert_eq!(e.name, None);
        }
    }
}

#[test]
fn build_rejects_unallocated_top_rule() {
    let arena = RuleArena::new();
    let mut builder = GrammarBuilder::new();
    builder.add_rule(3);
    assert!(matches!(builder.build(&arena), Err(RuleError::InvalidReference)));
}

#[test]
fn arena_rejects_inverted_range() {
    let mut arena = RuleArena::new();
    let x = arena.text(String::from("x"));
    assert_eq!(arena.repeat(RepeatRange::between(3, 1), x), Err(RuleError::InvalidRange));
}

#[test]
fn arena_rejects_forward_reference() {
    let mut arena = RuleArena::new();
    let x = arena.text(String::from("x"));
    assert_eq!(arena.choice(vec![x, 7]), Err(RuleError::InvalidReference));
    assert_eq!(arena.semantic(SemanticValue::Int(1), 7), Err(RuleError::InvalidReference));
    // insert leaves the arena unchanged on failure
    assert_eq!(arena.len(), 1);
}

#[test]
fn insert_accepts_constructed_rules() {
    let mut arena = RuleArena::new();
    let a = arena.insert(Rule::text(String::from("one"))).unwrap();
    let b = arena.insert(Rule::repeat(RepeatRange::exactly(2), a)).unwrap();
    let c = arena.insert(Rule::sequence(vec![a, b])).unwrap();
    assert_eq!((a, b, c), (0, 1, 2));
}

#[test]
fn builder_clear_forgets_rules() {
    let mut arena = RuleArena::new();
    let t = arena.text(String::from("x"));
    let mut builder = GrammarBuilder::new();
    builder.add_rule(t);
    builder.clear();
    let g = builder.build(&arena).unwrap();
    assert_eq!(g.entries.len(), 0);
    assert_eq!(g.states.len(), 0);
}

#[test]
fn adding_a_rule_twice_compiles_it_once() {
    let mut arena = RuleArena::new();
    let t = arena.text(String::from("x"));
    let mut builder = GrammarBuilder::new();
    builder.add_rule(t);
    builder.add_rule(t);
    let g = builder.build(&arena).unwrap();
    assert_eq!(g.entries.len(), 1);
}

#[test]
fn empty_choice_has_no_transitions() {
    let mut arena = RuleArena::new();
    let c = arena.choice(Vec::new()).unwrap();
    let mut builder = GrammarBuilder::new();
    builder.add_rule(c);
    let g = builder.build(&arena).unwrap();
    let entry = g.rule_states[c].unwrap();
    assert_eq!(g.states[entry].len(), 0);
}

#[test]
fn renaming_a_rule_keeps_the_last_name() {
    let mut arena = RuleArena::new();
    let t = arena.text(String::from("x"));
    let mut builder = GrammarBuilder::new();
    builder.add_named_rule(String::from("first"), t);
    builder.add_named_rule(String::from("second"), t);
    let g = builder.build(&arena).unwrap();
    assert_eq!(g.entries.len(), 1);
    assert_eq!(g.entries[0].name.as_deref(), Some("second"));
}

#[test]
fn one_builder_builds_repeatedly() {
    let mut arena = RuleArena::new();
    let t = arena.text(String::from("x"));
    let mut builder = GrammarBuilder::new();
    builder.add_rule(t);
    let first = builder.build(&arena).unwrap();
    let second = builder.build(&arena).unwrap();
    assert_eq!(first.entries.len(), second.entries.len());
    assert_eq!(first.states.len(), second.states.len());
}

#[test]
fn nested_repeat_of_sequence() {
    let mut arena = RuleArena::new();
    let a = arena.text(String::from("a"));
    let b = arena.text(String::from("b"));
    let s = arena.sequence(vec![a, b]).unwrap();
    let rep = arena.repeat(RepeatRange::between(1, 2), s).unwrap();
    let mut builder = GrammarBuilder::new();
    builder.add_rule(rep);
    let g = builder.build(&arena).unwrap();
    // entries: a, b, the sequence, the repeat; states: four entry states
    // plus one sequence intermediate plus one repeat intermediate
    assert_eq!(g.entries.len(), 4);
    assert_eq!(g.states.len(), 6);
    let (rule_arcs, skips) =
        walk_repeat_chain(&g, g.rule_states[rep].unwrap(), g.rule_states[s].unwrap());
    assert_eq!(rule_arcs, 2);
    assert_eq!(skips, 1);
}
