use sapi_lite::stt::{
    decode_property_list, GrammarBuilder, Phrase, PhraseProperty, RepeatRange, RuleArena,
    SemanticTree, SemanticValue,
};
use sapi_lite::tts::Speech;

fn node(
    value: SemanticValue,
    first_child: Option<usize>,
    next_sibling: Option<usize>,
) -> PhraseProperty {
    PhraseProperty { value: value.encode(), first_child, next_sibling }
}

fn tree(value: SemanticValue, children: Vec<SemanticTree>) -> SemanticTree {
    SemanticTree { value, children }
}

fn leaf(value: SemanticValue) -> SemanticTree {
    SemanticTree::leaf(value)
}

#[test]
fn decode_reconstructs_nesting() {
    // two top-level siblings; the first has two children
    let props = vec![
        node(SemanticValue::String(String::from("how_good")), Some(2), Some(1)),
        node(SemanticValue::String(String::from("pm")), None, None),
        node(SemanticValue::Int(1), None, Some(3)),
        node(SemanticValue::Int(1), None, None),
    ];
    let trees = decode_property_list(&props);
    let expected = vec![
        tree(
            SemanticValue::String(String::from("how_good")),
            vec![leaf(SemanticValue::Int(1)), leaf(SemanticValue::Int(1))],
        ),
        leaf(SemanticValue::String(String::from("pm"))),
    ];
    assert_eq!(trees, expected);
}

#[test]
fn lenient_decode_skips_unrecognized_node() {
    // an unrecognized variant tag interleaved between two valid siblings
    let mut bad = SemanticValue::Int(9).encode();
    bad.tag = 77;
    let props = vec![
        node(SemanticValue::Int(1), None, Some(1)),
        PhraseProperty { value: bad, first_child: None, next_sibling: Some(2) },
        node(SemanticValue::Int(2), None, None),
    ];
    let trees = decode_property_list(&props);
    assert_eq!(trees, vec![leaf(SemanticValue::Int(1)), leaf(SemanticValue::Int(2))]);
}

#[test]
fn lenient_decode_drops_children_of_bad_node() {
    let mut bad = SemanticValue::Int(9).encode();
    bad.tag = 77;
    let props = vec![
        PhraseProperty { value: bad, first_child: Some(1), next_sibling: Some(2) },
        node(SemanticValue::Int(5), None, None),
        node(SemanticValue::Int(2), None, None),
    ];
    let trees = decode_property_list(&props);
    assert_eq!(trees, vec![leaf(SemanticValue::Int(2))]);
}

#[test]
fn empty_property_list_decodes_to_nothing() {
    let trees = decode_property_list(&Vec::new());
    assert!(trees.is_empty());
}

#[test]
fn phrase_equality_covers_text_and_trees() {
    let a = Phrase {
        text: String::from("good evening"),
        semantics: vec![leaf(SemanticValue::Int(1))],
    };
    let b = Phrase {
        text: String::from("good evening"),
        semantics: vec![leaf(SemanticValue::Int(1))],
    };
    let c = Phrase { text: String::from("good evening"), semantics: vec![] };
    assert_eq!(a, b);
    assert_ne!(a, c);
}

#[test]
fn end_to_end_semantics() {
    // grammar: "have a" + repeat(0..=3, semantic(1, "very")) tagged
    // "how_good" + "good" + choice(semantic("am", "morning"),
    //                              semantic("pm", "evening"))
    let mut arena = RuleArena::new();
    let have_a = arena.text(String::from("have a"));
    let very = arena.text(String::from("very"));
    let very_tag = arena.semantic(SemanticValue::Int(1), very).unwrap();
    let very_rep = arena.repeat(RepeatRange::at_most(3), very_tag).unwrap();
    let how_good = arena
        .semantic(SemanticValue::String(String::from("how_good")), very_rep)
        .unwrap();
    let good = arena.text(String::from("good"));
    let morning = arena.text(String::from("morning"));
    let am = arena.semantic(SemanticValue::String(String::from("am")), morning).unwrap();
    let evening = arena.text(String::from("evening"));
    let pm = arena.semantic(SemanticValue::String(String::from("pm")), evening).unwrap();
    let daytime = arena.choice(vec![am, pm]).unwrap();
    let top = arena.sequence(vec![have_a, how_good, good, daytime]).unwrap();

    let mut builder = GrammarBuilder::new();
    builder.add_rule(top);
    let g = builder.build(&arena).unwrap();

    // every structurally distinct rule compiled exactly once
    assert_eq!(g.entries.len(), 12);
    for id in [have_a, very, very_tag, very_rep, how_good, good, morning, am, evening, pm,
        daytime, top]
    {
        assert!(g.rule_states[id].is_some());
    }

    // the utterance the synthesizer is asked to render
    let speech = Speech::from_text("have a very very good evening");
    assert_eq!(speech.contents(), "have a very very good evening");

    // the engine's recognition result for that utterance: the transcript
    // plus the flat property list its semantic tags produce
    let props = vec![
        node(SemanticValue::String(String::from("how_good")), Some(2), Some(1)),
        node(SemanticValue::String(String::from("pm")), None, None),
        node(SemanticValue::Int(1), None, Some(3)),
        node(SemanticValue::Int(1), None, None),
    ];
    let phrase = Phrase::from_recognition(String::from(speech.contents()), &props);

    assert_eq!(phrase.text, "have a very very good evening");
    let expected = vec![
        tree(
            SemanticValue::String(String::from("how_good")),
            vec![leaf(SemanticValue::Int(1)), leaf(SemanticValue::Int(1))],
        ),
        leaf(SemanticValue::String(String::from("pm"))),
    ];
    assert_eq!(phrase.semantics, expected);
}
