use sapi_lite::stt::{Grammar, GrammarBuilder, PauseGate, Recognizer, RuleArena};

fn simple_grammar(name: &str) -> Grammar {
    let mut arena = RuleArena::new();
    let t = arena.text(String::from("hello"));
    let mut builder = GrammarBuilder::new();
    builder.add_named_rule(String::from(name), t);
    Grammar::new(builder.build(&arena).unwrap())
}

#[test]
fn grammar_starts_disabled_with_rules_active() {
    let g = simple_grammar("greeting");
    let mut gate = PauseGate::new();
    let mut g = g;
    // disabling a fresh grammar keeps it disabled; enabling enables it
    let acts = g.set_enabled(&mut gate, true);
    assert!(acts.suspend && acts.reactivate);
    assert!(!gate.is_paused());
}

#[test]
fn toggling_settles_on_the_last_state() {
    let mut g = simple_grammar("greeting");
    let mut gate = PauseGate::new();
    let toggles = [true, true, false, true, false, false, true, false, false, true];
    for &on in toggles.iter() {
        g.set_enabled(&mut gate, on);
    }
    // after the whole sequence every pause scope has been closed again
    assert!(!gate.is_paused());
    // one final toggle each way pins the observable state via actions:
    // disabling then enabling both run in their own pause scope
    let acts = g.set_enabled(&mut gate, false);
    assert!(acts.suspend && acts.reactivate);
}

#[test]
fn nested_pauses_compose_across_grammars() {
    // no recognition event can land mid-mutation, however scopes nest:
    // the engine only listens while no pause scope is open
    let mut gate = PauseGate::new();
    let mut delivered: Vec<&str> = Vec::new();

    let mut deliver = |gate: &PauseGate, log: &mut Vec<&'static str>, ev: &'static str| {
        if !gate.is_paused() {
            log.push(ev);
        }
    };

    deliver(&gate, &mut delivered, "before");
    let suspend_outer = gate.pause(); // first grammar's mutation begins
    assert!(suspend_outer);
    deliver(&gate, &mut delivered, "during outer");
    let suspend_inner = gate.pause(); // second grammar mutates concurrently
    assert!(!suspend_inner); // the engine is already suspended
    deliver(&gate, &mut delivered, "during inner");
    let reactivate_inner = gate.resume();
    assert!(!reactivate_inner); // the outer scope is still open
    deliver(&gate, &mut delivered, "after inner");
    let reactivate_outer = gate.resume();
    assert!(reactivate_outer); // the last resume reactivates the engine
    deliver(&gate, &mut delivered, "after");

    assert_eq!(delivered, vec!["before", "after"]);
}

#[test]
fn grammar_mutation_balances_the_gate() {
    let mut g = simple_grammar("greeting");
    let mut gate = PauseGate::new();
    // under an already-open scope, a mutation neither suspends nor reactivates
    gate.pause();
    let acts = g.set_enabled(&mut gate, true);
    assert!(!acts.suspend && !acts.reactivate);
    assert!(gate.is_paused());
    gate.resume();
    assert!(!gate.is_paused());
}

#[test]
fn set_rule_enabled_finds_named_rules() {
    let mut g = simple_grammar("greeting");
    let mut gate = PauseGate::new();
    let (acts, found) = g.set_rule_enabled(&mut gate, "greeting", false);
    assert!(found);
    assert!(acts.suspend && acts.reactivate);
    let (_, missing) = g.set_rule_enabled(&mut gate, "no such rule", true);
    assert!(!missing);
}

#[test]
fn recognizer_toggle_is_idempotent() {
    let mut r = Recognizer::new();
    // disabling takes one global pause; repeating it changes nothing
    let acts = r.set_enabled(false);
    assert!(acts.suspend);
    let again = r.set_enabled(false);
    assert!(!again.suspend && !again.reactivate);
    // re-enabling releases the pause exactly once
    let back = r.set_enabled(true);
    assert!(back.reactivate);
    let back_again = r.set_enabled(true);
    assert!(!back_again.suspend && !back_again.reactivate);
}

#[test]
fn grammar_mutations_share_the_recognizer_gate() {
    let mut r = Recognizer::new();
    let mut g = simple_grammar("greeting");
    // while the recognizer is disabled (holding its global pause), grammar
    // mutations never touch the engine state
    r.set_enabled(false);
    let acts = g.set_enabled(r.gate_mut(), true);
    assert!(!acts.suspend && !acts.reactivate);
    let back = r.set_enabled(true);
    assert!(back.reactivate);
}
