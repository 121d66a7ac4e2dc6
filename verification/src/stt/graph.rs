//! The compiled automaton: states connected by transitions, plus the
//! bookkeeping the compiler produces for each compiled rule.
//!
//! A state is an index into the state table; a transition's target is
//! either another state or the terminal (`None`), the implicit accepting
//! end of the owning rule's sub-automaton. Every transition carries the
//! uniform weight — no probabilistic biasing is exposed — so no weight is
//! stored.
//!
//! The spec predicates at the bottom say, per rule kind, exactly which
//! transitions the compiler wires; they are the vocabulary of the
//! compiler's contracts.

use vstd::prelude::*;

use super::rule::{RepeatRange, Rule};
use super::semantics::{SemanticValue, SemanticValueModel};

verus! {

/// What a transition consumes or invokes.
#[derive(Debug, Clone)]
pub enum TransitionKind {
    /// Consumes a literal sequence of words.
    Words(String),
    /// Invokes another rule's sub-automaton, starting at the given state;
    /// when annotated, a matched traversal emits a node carrying the value
    /// into the semantic tree.
    RuleRef {
        /// Entry state of the referenced sub-automaton.
        child: usize,
        /// The semantic annotation, if any.
        semantic: Option<SemanticValue>,
    },
    /// Consumes nothing: a zero-width skip.
    Epsilon,
}

/// One directed transition of the automaton.
#[derive(Debug, Clone)]
pub struct Transition {
    /// The state the transition leads to; `None` is the terminal of the
    /// owning rule's sub-automaton.
    pub target: Option<usize>,
    /// What the transition consumes or invokes.
    pub kind: TransitionKind,
}

/// The bookkeeping for one compiled rule, in compile order: the rule's
/// numeric id handed to the engine is the entry's position plus one.
#[derive(Debug, Clone)]
pub struct RuleEntry {
    /// The arena index of the compiled rule.
    pub rule: usize,
    /// The entry state of the rule's sub-automaton.
    pub state: usize,
    /// Whether the rule was added as a top-level rule: an independently
    /// recognizable phrase entry point.
    pub top_level: bool,
    /// The rule's name, when it was added as a named rule.
    pub name: Option<String>,
}

/// A compiled grammar: the automaton plus the per-rule bookkeeping.
#[derive(Debug)]
pub struct CompiledGrammar {
    /// The automaton: `states[s]` lists the transitions out of state `s`.
    pub states: Vec<Vec<Transition>>,
    /// One entry per compiled rule, in first-compiled order.
    pub entries: Vec<RuleEntry>,
    /// The entry state of each arena rule that was compiled, indexed by the
    /// arena index: the compiler's memo table.
    pub rule_states: Vec<Option<usize>>,
}

impl CompiledGrammar {
    /// The transitions out of each state, for contracts.
    pub open spec fn state_seq(&self) -> Seq<Seq<Transition>> {
        self.states@.map_values(|ts: Vec<Transition>| ts@)
    }
}

/// Whether `t` consumes the literal words `text` and leads to `target`.
pub open spec fn is_word_arc(t: Transition, text: Seq<char>, target: Option<usize>) -> bool {
    &&& t.kind matches TransitionKind::Words(w) && w@ == text
    &&& t.target == target
}

/// Whether `t` invokes the sub-automaton entered at `child`, carrying the
/// given semantic annotation, and leads to `target`.
pub open spec fn is_rule_arc(
    t: Transition,
    child: usize,
    semantic: Option<SemanticValueModel>,
    target: Option<usize>,
) -> bool {
    &&& t.kind matches TransitionKind::RuleRef { child: c, semantic: s } && c == child && (match s {
        Some(v) => semantic == Some(v.model()),
        None => semantic is None,
    })
    &&& t.target == target
}

/// Whether `t` is a zero-width skip to `target`.
pub open spec fn is_epsilon_arc(t: Transition, target: Option<usize>) -> bool {
    &&& t.kind is Epsilon
    &&& t.target == target
}

/// The chain shape of a compiled `Sequence`: one state per part, entered at
/// `entry`; state `k` holds exactly one transition, which invokes part
/// `k`'s sub-automaton and leads to the next chain state — to the terminal
/// after the last part.
pub open spec fn is_sequence_chain(
    states: Seq<Seq<Transition>>,
    memo: Seq<Option<usize>>,
    parts: Seq<usize>,
    entry: usize,
    chain: Seq<usize>,
) -> bool {
    &&& chain.len() == parts.len()
    &&& chain.len() > 0 ==> chain[0] == entry
    &&& forall|k: int|
        0 <= k < chain.len() ==> {
            &&& (#[trigger] chain[k]) < states.len()
            &&& parts[k] < memo.len()
            &&& memo[parts[k] as int] matches Some(c) && {
                &&& states[chain[k] as int].len() == 1
                &&& is_rule_arc(
                    states[chain[k] as int][0],
                    c,
                    None,
                    if k == chain.len() - 1 {
                        None
                    } else {
                        Some(chain[k + 1])
                    },
                )
            }
        }
}

/// The chain shape of a compiled `Repeat`: `max` states, entered at
/// `entry`, each invoking the target's sub-automaton and leading to the
/// next chain state — to the terminal after the last. The first `min`
/// instances are mandatory; each later state also holds a zero-width skip
/// straight to the terminal, so matching can stop early.
pub open spec fn is_repeat_chain(
    states: Seq<Seq<Transition>>,
    memo: Seq<Option<usize>>,
    times: RepeatRange,
    target: usize,
    entry: usize,
    chain: Seq<usize>,
) -> bool {
    &&& chain.len() == times.max
    &&& chain.len() > 0 ==> chain[0] == entry
    &&& target < memo.len()
    &&& memo[target as int] is Some
    &&& forall|k: int|
        0 <= k < chain.len() ==> {
            let c = memo[target as int]->Some_0;
            let next: Option<usize> = if k == chain.len() - 1 {
                None
            } else {
                Some(chain[k + 1])
            };
            &&& (#[trigger] chain[k]) < states.len()
            &&& is_rule_arc(states[chain[k] as int][0], c, None, next)
            &&& if k < times.min {
                states[chain[k] as int].len() == 1
            } else {
                states[chain[k] as int].len() == 2 && is_epsilon_arc(
                    states[chain[k] as int][1],
                    None,
                )
            }
        }
}

/// The shape the automaton must give the rule `id` entered at `entry`; the
/// memo resolves the entry states of referenced sub-rules. Opaque: proofs
/// reveal it where they establish or consume a shape.
#[verifier::opaque]
pub open spec fn entry_shape_ok(
    rules: Seq<Rule>,
    states: Seq<Seq<Transition>>,
    memo: Seq<Option<usize>>,
    id: int,
    entry: usize,
) -> bool {
    &&& (entry as int) < states.len()
    &&& match rules[id] {
        Rule::Text(t) => {
            &&& states[entry as int].len() == 1
            &&& is_word_arc(states[entry as int][0], t@, None)
        },
        Rule::Choice(options) => {
            &&& states[entry as int].len() == options@.len()
            &&& forall|k: int|
                0 <= k < options@.len() ==> {
                    &&& (#[trigger] options@[k]) < memo.len()
                    &&& memo[options@[k] as int] matches Some(c) && is_rule_arc(
                        states[entry as int][k],
                        c,
                        None,
                        None,
                    )
                }
        },
        Rule::Sequence(parts) => {
            if parts@.len() == 0 {
                states[entry as int].len() == 0
            } else {
                exists|chain: Seq<usize>| is_sequence_chain(states, memo, parts@, entry, chain)
            }
        },
        Rule::Repeat(times, target) => {
            &&& target < memo.len()
            &&& memo[target as int] is Some
            &&& if times.max == 0 {
                states[entry as int].len() == 0
            } else {
                exists|chain: Seq<usize>| is_repeat_chain(states, memo, times, target, entry, chain)
            }
        },
        Rule::Semantic(value, target) => {
            &&& states[entry as int].len() == 1
            &&& target < memo.len()
            &&& memo[target as int] matches Some(c) && is_rule_arc(
                states[entry as int][0],
                c,
                Some(value.model()),
                None,
            )
        },
    }
}

/// What the automaton holds for one compiled rule: the entry state recorded
/// in the memo exists, and its transitions have exactly the shape the
/// rule's kind calls for.
pub open spec fn rule_compiled(
    rules: Seq<Rule>,
    states: Seq<Seq<Transition>>,
    memo: Seq<Option<usize>>,
    id: int,
) -> bool {
    &&& 0 <= id < rules.len()
    &&& id < memo.len()
    &&& memo[id] matches Some(entry) && entry_shape_ok(rules, states, memo, id, entry)
}

/// The states the compiler allocates for one rule beyond its entry state:
/// a sequence of `n` parts chains `n - 1` intermediate states, a repeat of
/// at most `n` instances chains `n - 1`; every other kind wires its entry
/// state straight to the terminal.
pub open spec fn extra_states(rule: Rule) -> int {
    match rule {
        Rule::Text(_) => 0,
        Rule::Choice(_) => 0,
        Rule::Sequence(parts) => if parts@.len() == 0 {
            0
        } else {
            parts@.len() - 1
        },
        Rule::Repeat(times, _) => if times.max == 0 {
            0
        } else {
            times.max - 1
        },
        Rule::Semantic(_, _) => 0,
    }
}

/// The total number of states a list of compiled rules accounts for: one
/// entry state each, plus each rule's intermediate states.
pub open spec fn total_states(rules: Seq<Rule>, entries: Seq<RuleEntry>) -> int
    decreases entries.len(),
{
    if entries.len() == 0 {
        0
    } else {
        total_states(rules, entries.drop_last()) + 1 + extra_states(
            rules[entries.last().rule as int],
        )
    }
}

/// The set of arena indices a rule references directly.
pub open spec fn children_of(rule: Rule) -> Set<int> {
    match rule {
        Rule::Text(_) => Set::empty(),
        Rule::Choice(options) => Set::new(
            |x: int| exists|k: int| 0 <= k < options@.len() && options@[k] as int == x,
        ),
        Rule::Sequence(parts) => Set::new(
            |x: int| exists|k: int| 0 <= k < parts@.len() && parts@[k] as int == x,
        ),
        Rule::Repeat(_, target) => set![target as int],
        Rule::Semantic(_, target) => set![target as int],
    }
}

/// Whether a set of arena indices is closed under rule references: every
/// child of a member is a member.
pub open spec fn closed_under_references(rules: Seq<Rule>, s: Set<int>) -> bool {
    forall|id: int|
        #![trigger s.contains(id)]
        s.contains(id) && 0 <= id < rules.len() ==> children_of(rules[id]).subset_of(s)
}

} // verus!
