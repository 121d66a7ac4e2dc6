//! Speech recognition: the rule algebra, the grammar compiler, semantic
//! values and trees, phrase reconstruction, and the enable/disable lifecycle.

mod compiler;
mod events;
mod graph;
mod lifecycle;
mod phrase;
mod property;
mod rule;
mod semantics;

pub use property::{check_properties, decode_property_list, decode_trees, decode_value, spec_decode_trees, spec_decode_value, tree_models, wf_properties, PhraseProperty, PropertyDescriptor};
pub use property::{TAG_BOOL, TAG_DOUBLE, TAG_EMPTY, TAG_FLOAT, TAG_INT};
pub use property::{forward_link, lemma_lenient_decode, lemma_value_round_trip};
pub use compiler::{assoc_name, compiled_grammar, compiled_set, lemma_compiled_rule_shape, lemma_identity_dedup, lemma_repeat_unrolling, lemma_sequence_chaining, must_compile, GrammarBuilder};
pub use events::{bit_set, classify_event, interest_mask, spec_classify, EventOutcome, EventRecord, LparamKind, EVENT_END_INPUT_STREAM, EVENT_RECOGNITION};
pub use phrase::Phrase;
pub use lifecycle::{after_toggles, lemma_no_events_while_paused, lemma_toggling_settles, flags_of, initial_rule_flags, lemma_initial_flags_active, Grammar, MutationActions, NamedRuleState, PauseGate, Recognizer};
pub use graph::{children_of, closed_under_references, entry_shape_ok, extra_states, is_epsilon_arc, is_rule_arc, is_repeat_chain, is_sequence_chain, is_word_arc, rule_compiled, total_states, CompiledGrammar, RuleEntry, Transition, TransitionKind};
pub use rule::{RepeatRange, Rule, RuleArena, RuleError};
pub use semantics::{SemanticTree, SemanticTreeModel, SemanticValue, SemanticValueModel};
