//! The rule graph compiler: a deterministic, single-pass (memoized)
//! translation of a rule forest into the state/transition automaton.
//!
//! Each arena rule compiles to one sub-automaton, entered at one state, the
//! first time it is reached; later references reuse that state — the memo
//! is keyed by the rule's arena index, the rule's identity. Repeat ranges
//! unroll into explicit chains, never loops; semantic annotations ride on
//! the transition that invokes the annotated sub-rule.

use vstd::prelude::*;

use super::graph::{
    children_of, closed_under_references, entry_shape_ok, extra_states, is_epsilon_arc,
    is_rule_arc, is_repeat_chain, is_sequence_chain, is_word_arc, rule_compiled, total_states,
    CompiledGrammar, RuleEntry, Transition, TransitionKind,
};
use super::rule::{Rule, RuleArena, RuleError};

verus! {

/// The name registered for a rule id: the latest registration wins, as a
/// map insert would.
pub open spec fn assoc_name(names: Seq<(usize, String)>, id: int) -> Option<Seq<char>>
    decreases names.len(),
{
    if names.len() == 0 {
        None
    } else if names.last().0 == id {
        Some(names.last().1@)
    } else {
        assoc_name(names.drop_last(), id)
    }
}

/// Whether every set of rule ids that contains the top-level rules and is
/// closed under rule references must contain `id`: that is, `id` is
/// reachable from the top-level rules.
pub open spec fn must_compile(rules: Seq<Rule>, tops: Seq<usize>, id: int) -> bool {
    forall|s: Set<int>|
        #![trigger closed_under_references(rules, s)]
        closed_under_references(rules, s) && (forall|k: int|
            0 <= k < tops.len() ==> s.contains(#[trigger] tops[k] as int)) ==> s.contains(id)
}

/// The compiler's working invariant, and what a finished compilation
/// guarantees: every memoized rule has its sub-automaton in place, the
/// entry records match the memo, the rule names and top-level flags, no
/// rule is compiled twice, every memoized rule has its entry record, the
/// state count is accounted for exactly, and nothing unreachable from the
/// top-level rules was compiled.
#[verifier::opaque]
pub open spec fn graph_invariant(
    rules: Seq<Rule>,
    tops: Seq<usize>,
    names: Seq<(usize, String)>,
    g: CompiledGrammar,
) -> bool {
    &&& g.rule_states@.len() == rules.len()
    &&& forall|id: int|
        0 <= id < rules.len() && (#[trigger] g.rule_states@[id]) is Some ==> rule_compiled(
            rules,
            g.state_seq(),
            g.rule_states@,
            id,
        )
    &&& forall|k: int|
        0 <= k < g.entries@.len() ==> {
            let e = #[trigger] g.entries@[k];
            &&& (e.rule as int) < rules.len()
            &&& g.rule_states@[e.rule as int] == Some(e.state)
            &&& e.top_level == tops.contains(e.rule)
            &&& (match e.name {
                Some(n) => assoc_name(names, e.rule as int) == Some(n@),
                None => assoc_name(names, e.rule as int) is None,
            })
        }
    &&& forall|j: int, k: int|
        0 <= j < k < g.entries@.len() ==> (#[trigger] g.entries@[j]).rule != (
        #[trigger] g.entries@[k]).rule
    &&& forall|id: int|
        0 <= id < rules.len() && (#[trigger] g.rule_states@[id]) is Some ==> exists|k: int|
            0 <= k < g.entries@.len() && (#[trigger] g.entries@[k]).rule == id
    &&& g.states@.len() == total_states(rules, g.entries@)
    &&& forall|id: int|
        0 <= id < rules.len() && (#[trigger] g.rule_states@[id]) is Some ==> must_compile(
            rules,
            tops,
            id,
        )
}

/// How one compilation step may change the graph: states are only
/// appended, existing transitions stay, entry records are only appended,
/// and memoized rules stay memoized to the same state.
pub open spec fn graph_extends(g0: CompiledGrammar, g1: CompiledGrammar) -> bool {
    &&& g0.states@.len() <= g1.states@.len()
    &&& forall|s: int| 0 <= s < g0.states@.len() ==> g1.state_seq()[s] == g0.state_seq()[s]
    &&& g0.entries@.is_prefix_of(g1.entries@)
    &&& g0.rule_states@.len() == g1.rule_states@.len()
    &&& forall|j: int|
        0 <= j < g0.rule_states@.len() && (#[trigger] g0.rule_states@[j]) is Some
            ==> g1.rule_states@[j] == g0.rule_states@[j]
}

proof fn lemma_extends_transitive(g0: CompiledGrammar, g1: CompiledGrammar, g2: CompiledGrammar)
    requires
        graph_extends(g0, g1),
        graph_extends(g1, g2),
    ensures
        graph_extends(g0, g2),
{
    assert forall|s: int| 0 <= s < g0.states@.len() implies g2.state_seq()[s]
        == g0.state_seq()[s] by {
        assert(g1.state_seq()[s] == g0.state_seq()[s]);
    }
    assert(g0.entries@.is_prefix_of(g2.entries@)) by {
        assert(forall|k: int|
            0 <= k < g0.entries@.len() ==> g2.entries@[k] == g1.entries@[k] && g1.entries@[k]
                == g0.entries@[k]);
    }
}

/// A rule's required shape survives appending states and memoizing more
/// rules.
proof fn lemma_shape_monotone(
    rules: Seq<Rule>,
    states0: Seq<Seq<Transition>>,
    memo0: Seq<Option<usize>>,
    states1: Seq<Seq<Transition>>,
    memo1: Seq<Option<usize>>,
    id: int,
    entry: usize,
)
    requires
        0 <= id < rules.len(),
        entry_shape_ok(rules, states0, memo0, id, entry),
        states0.len() <= states1.len(),
        forall|s: int| 0 <= s < states0.len() ==> states1[s] == states0[s],
        memo0.len() <= memo1.len(),
        forall|j: int|
            0 <= j < memo0.len() && (#[trigger] memo0[j]) is Some ==> memo1[j] == memo0[j],
    ensures
        entry_shape_ok(rules, states1, memo1, id, entry),
{
    reveal(entry_shape_ok);
    match rules[id] {
        Rule::Text(_) => {},
        Rule::Choice(options) => {
            assert forall|k: int| 0 <= k < options@.len() implies {
                &&& (#[trigger] options@[k]) < memo1.len()
                &&& memo1[options@[k] as int] matches Some(c) && is_rule_arc(
                    states1[entry as int][k],
                    c,
                    None,
                    None,
                )
            } by {
                assert(memo0[options@[k] as int] is Some);
            }
        },
        Rule::Sequence(parts) => {
            if parts@.len() > 0 {
                let chain = choose|c: Seq<usize>|
                    is_sequence_chain(states0, memo0, parts@, entry, c);
                assert(is_sequence_chain(states0, memo0, parts@, entry, chain));
                assert forall|k: int| 0 <= k < chain.len() implies {
                    &&& (#[trigger] chain[k]) < states1.len()
                    &&& parts@[k] < memo1.len()
                    &&& memo1[parts@[k] as int] matches Some(c) && {
                        &&& states1[chain[k] as int].len() == 1
                        &&& is_rule_arc(
                            states1[chain[k] as int][0],
                            c,
                            None,
                            if k == chain.len() - 1 {
                                None
                            } else {
                                Some(chain[k + 1])
                            },
                        )
                    }
                } by {
                    assert(chain[k] < states0.len());
                    assert(memo0[parts@[k] as int] is Some);
                    assert(states1[chain[k] as int] == states0[chain[k] as int]);
                }
                assert(is_sequence_chain(states1, memo1, parts@, entry, chain));
            }
        },
        Rule::Repeat(times, target) => {
            assert(memo0[target as int] is Some);
            if times.max > 0 {
                let chain = choose|c: Seq<usize>|
                    is_repeat_chain(states0, memo0, times, target, entry, c);
                assert(is_repeat_chain(states0, memo0, times, target, entry, chain));
                assert forall|k: int| 0 <= k < chain.len() implies {
                    let c = memo1[target as int]->Some_0;
                    let next: Option<usize> = if k == chain.len() - 1 {
                        None
                    } else {
                        Some(chain[k + 1])
                    };
                    &&& (#[trigger] chain[k]) < states1.len()
                    &&& is_rule_arc(states1[chain[k] as int][0], c, None, next)
                    &&& if k < times.min {
                        states1[chain[k] as int].len() == 1
                    } else {
                        states1[chain[k] as int].len() == 2 && is_epsilon_arc(
                            states1[chain[k] as int][1],
                            None,
                        )
                    }
                } by {
                    assert(chain[k] < states0.len());
                    assert(states1[chain[k] as int] == states0[chain[k] as int]);
                }
                assert(is_repeat_chain(states1, memo1, times, target, entry, chain));
            }
        },
        Rule::Semantic(_, target) => {
            assert(memo0[target as int] is Some);
        },
    }
}

/// Whether the list contains the id.
fn contains_id(ids: &Vec<usize>, id: usize) -> (r: bool)
    ensures
        r == ids@.contains(id),
{
    let n = ids.len();
    for i in 0..n
        invariant
            n == ids@.len(),
            forall|j: int| 0 <= j < i ==> ids@[j] != id,
        decreases n - i,
    {
        if ids[i] == id {
            return true;
        }
    }
    false
}

/// Looks up the name registered for a rule id; the latest registration
/// wins.
fn lookup_name(names: &Vec<(usize, String)>, id: usize) -> (r: Option<String>)
    ensures
        match r {
            Some(s) => assoc_name(names@, id as int) == Some(s@),
            None => assoc_name(names@, id as int) is None,
        },
{
    let mut i = names.len();
    proof {
        assert(names@.take(names@.len() as int) =~= names@);
    }
    while i > 0
        invariant
            i <= names@.len(),
            assoc_name(names@, id as int) == assoc_name(names@.take(i as int), id as int),
        decreases i,
    {
        let ghost prefix = names@.take(i as int);
        i = i - 1;
        if names[i].0 == id {
            proof {
                assert(prefix.last() == names@[i as int]);
            }
            return Some(names[i].1.clone());
        }
        proof {
            assert(prefix.last() == names@[i as int]);
            assert(prefix.drop_last() =~= names@.take(i as int));
        }
    }
    proof {
        assert(names@.take(0).len() == 0);
    }
    None
}

/// Records a freshly wired rule: memoizes its entry state and appends its
/// entry record. The rows for the rule must already be in place and
/// accounted for.
fn record_rule(
    arena: &RuleArena,
    tops: &Vec<usize>,
    names: &Vec<(usize, String)>,
    g: &mut CompiledGrammar,
    id: usize,
    entry: usize,
    Ghost(g_before): Ghost<CompiledGrammar>,
)
    requires
        id < arena.rules().len(),
        graph_invariant(arena.rules(), tops@, names@, g_before),
        old(g).rule_states@.len() == arena.rules().len(),
        old(g).rule_states@ == g_before.rule_states@,
        old(g).entries@ == g_before.entries@,
        g_before.states@.len() <= old(g).states@.len(),
        forall|s: int|
            0 <= s < g_before.states@.len() ==> old(g).state_seq()[s] == g_before.state_seq()[s],
        old(g).rule_states@[id as int] is None,
        entry_shape_ok(arena.rules(), old(g).state_seq(), old(g).rule_states@, id as int, entry),
        old(g).states@.len() == g_before.states@.len() + 1 + extra_states(
            arena.rules()[id as int],
        ),
        must_compile(arena.rules(), tops@, id as int),
    ensures
        graph_invariant(arena.rules(), tops@, names@, *final(g)),
        graph_extends(g_before, *final(g)),
        final(g).states@ == old(g).states@,
        final(g).rule_states@ == old(g).rule_states@.update(id as int, Some(entry)),
        final(g).rule_states@[id as int] == Some(entry),
{
    let ghost rules = arena.rules();
    let top_level = contains_id(tops, id);
    let name = lookup_name(names, id);
    g.rule_states[id] = Some(entry);
    let new_entry = RuleEntry { rule: id, state: entry, top_level, name };
    let ghost new_entry_g = new_entry;
    g.entries.push(new_entry);
    proof {
        reveal(graph_invariant);
        let memo1 = g.rule_states@;
        let states1 = g.state_seq();
        // every previously compiled rule keeps its shape
        assert forall|id2: int|
            0 <= id2 < rules.len() && (#[trigger] memo1[id2]) is Some implies rule_compiled(
            rules,
            states1,
            memo1,
            id2,
        ) by {
            if id2 == id as int {
                lemma_shape_monotone(
                    rules,
                    old(g).state_seq(),
                    old(g).rule_states@,
                    states1,
                    memo1,
                    id2,
                    entry,
                );
            } else {
                assert(g_before.rule_states@[id2] is Some);
                assert(rule_compiled(rules, g_before.state_seq(), g_before.rule_states@, id2));
                let entry2 = g_before.rule_states@[id2]->Some_0;
                lemma_shape_monotone(
                    rules,
                    g_before.state_seq(),
                    g_before.rule_states@,
                    states1,
                    memo1,
                    id2,
                    entry2,
                );
            }
        }
        // entry records: the old ones are untouched, the new one was just
        // computed from the same lookups the invariant asks for
        assert forall|k: int| 0 <= k < g.entries@.len() implies {
            let e = #[trigger] g.entries@[k];
            &&& (e.rule as int) < rules.len()
            &&& memo1[e.rule as int] == Some(e.state)
            &&& e.top_level == tops@.contains(e.rule)
            &&& (match e.name {
                Some(n) => assoc_name(names@, e.rule as int) == Some(n@),
                None => assoc_name(names@, e.rule as int) is None,
            })
        } by {
            if k < g_before.entries@.len() {
                assert(g.entries@[k] == g_before.entries@[k]);
                assert(g_before.rule_states@[g_before.entries@[k].rule as int] is Some);
            } else {
                assert(g.entries@[k] == new_entry_g);
            }
        }
        // no rule is recorded twice: the new rule was not memoized before,
        // and every old record is of a memoized rule
        assert forall|j: int, k: int|
            0 <= j < k < g.entries@.len() implies (#[trigger] g.entries@[j]).rule != (
        #[trigger] g.entries@[k]).rule by {
            if k == g.entries@.len() - 1 {
                assert(g.entries@[j] == g_before.entries@[j]);
                assert(g_before.rule_states@[g_before.entries@[j].rule as int] is Some);
            } else {
                assert(g.entries@[j] == g_before.entries@[j]);
                assert(g.entries@[k] == g_before.entries@[k]);
            }
        }
        // every memoized rule has a record
        assert forall|id2: int|
            0 <= id2 < rules.len() && (#[trigger] memo1[id2]) is Some implies exists|k: int|
            0 <= k < g.entries@.len() && (#[trigger] g.entries@[k]).rule == id2 by {
            if id2 == id as int {
                assert(g.entries@[g.entries@.len() - 1].rule == id2);
            } else {
                assert(g_before.rule_states@[id2] is Some);
                let k = choose|k: int|
                    0 <= k < g_before.entries@.len() && (#[trigger] g_before.entries@[k]).rule
                        == id2;
                assert(g.entries@[k].rule == id2);
            }
        }
        // state accounting
        assert(g_before.states@.len() == total_states(rules, g_before.entries@));
        assert(g.entries@.drop_last() =~= g_before.entries@);
        assert(g.entries@.last() == new_entry_g);
        assert(g.states@.len() == total_states(rules, g.entries@));
        assert(graph_invariant(rules, tops@, names@, *g));
    }
}

/// A referenced rule is itself reachable: any closed set that holds the
/// referencing rule holds it too.
proof fn lemma_child_must_compile(rules: Seq<Rule>, tops: Seq<usize>, id: int, child: int)
    requires
        0 <= id < rules.len(),
        must_compile(rules, tops, id),
        children_of(rules[id]).contains(child),
    ensures
        must_compile(rules, tops, child),
{
    assert forall|s: Set<int>|
        #![trigger closed_under_references(rules, s)]
        closed_under_references(rules, s) && (forall|k: int|
            0 <= k < tops.len() ==> s.contains(#[trigger] tops[k] as int)) implies s.contains(
        child,
    ) by {
        assert(s.contains(id));
        assert(children_of(rules[id]).subset_of(s));
    }
}

/// Compiles every rule in `list` — all of them references of the rule at
/// `parent` — and returns their entry states, in order.
fn compile_children(
    arena: &RuleArena,
    tops: &Vec<usize>,
    names: &Vec<(usize, String)>,
    g: &mut CompiledGrammar,
    list: &Vec<usize>,
    Ghost(parent): Ghost<int>,
) -> (childs: Vec<usize>)
    requires
        arena.wf(),
        0 <= parent < arena.rules().len(),
        forall|k: int|
            0 <= k < list@.len() ==> children_of(arena.rules()[parent]).contains(
                #[trigger] list@[k] as int,
            ) && (list@[k] as int) < parent,
        graph_invariant(arena.rules(), tops@, names@, *old(g)),
        old(g).rule_states@.len() == arena.rules().len(),
        must_compile(arena.rules(), tops@, parent),
    ensures
        graph_invariant(arena.rules(), tops@, names@, *final(g)),
        graph_extends(*old(g), *final(g)),
        final(g).rule_states@.len() == arena.rules().len(),
        childs@.len() == list@.len(),
        forall|j: int|
            0 <= j < list@.len() ==> final(g).rule_states@[#[trigger] list@[j] as int] == Some(
                childs@[j],
            ),
        forall|j: int|
            0 <= j < arena.rules().len() && old(g).rule_states@[j] is None && (#[trigger] final(g).rule_states@[j]) is Some ==> j < parent,
    decreases parent, 0int,
{
    let ghost rules = arena.rules();
    let n = list.len();
    let mut childs: Vec<usize> = Vec::new();
    for k in 0..n
        invariant
            arena.wf(),
            0 <= parent < rules.len(),
            rules == arena.rules(),
            n == list@.len(),
            childs@.len() == k,
            forall|j: int|
                0 <= j < n ==> children_of(rules[parent]).contains(#[trigger] list@[j] as int) && (
                list@[j] as int) < parent,
            graph_invariant(rules, tops@, names@, *g),
            graph_extends(*old(g), *g),
            g.rule_states@.len() == rules.len(),
            must_compile(rules, tops@, parent),
            forall|j: int|
                0 <= j < k ==> g.rule_states@[#[trigger] list@[j] as int] == Some(childs@[j]),
            forall|j: int|
                0 <= j < rules.len() && old(g).rule_states@[j] is None && (#[trigger] g.rule_states@[j]) is Some ==> j < parent,
        decreases n - k,
    {
        let child_id = list[k];
        proof {
            lemma_child_must_compile(rules, tops@, parent, child_id as int);
        }
        let ghost g_iter = *g;
        let child = compile_rule(arena, tops, names, g, child_id);
        childs.push(child);
        proof {
            lemma_extends_transitive(*old(g), g_iter, *g);
        }
    }
    childs
}

/// Compiles the rule at `id` — and, first, every rule it references that is
/// not compiled yet — and returns the entry state of its sub-automaton. A
/// rule already memoized is returned as is.
fn compile_rule(
    arena: &RuleArena,
    tops: &Vec<usize>,
    names: &Vec<(usize, String)>,
    g: &mut CompiledGrammar,
    id: usize,
) -> (entry: usize)
    requires
        arena.wf(),
        id < arena.rules().len(),
        graph_invariant(arena.rules(), tops@, names@, *old(g)),
        old(g).rule_states@.len() == arena.rules().len(),
        must_compile(arena.rules(), tops@, id as int),
    ensures
        graph_invariant(arena.rules(), tops@, names@, *final(g)),
        graph_extends(*old(g), *final(g)),
        final(g).rule_states@.len() == arena.rules().len(),
        final(g).rule_states@[id as int] == Some(entry),
        forall|j: int|
            0 <= j < arena.rules().len() && old(g).rule_states@[j] is None && (#[trigger] final(g).rule_states@[j]) is Some ==> j <= id as int,
    decreases id, 1int,
{
    let ghost rules = arena.rules();
    if let Some(e) = g.rule_states[id] {
        return e;
    }
    proof {
        assert(rules[id as int].wf(id as int));
    }
    match arena.node(id) {
        Rule::Text(t) => {
            let text = t.clone();
            let ghost g_mid = *g;
            let entry = g.states.len();
            let mut row: Vec<Transition> = Vec::new();
            row.push(Transition { target: None, kind: TransitionKind::Words(text) });
            let ghost row_s = row@;
            g.states.push(row);
            proof {
                reveal(entry_shape_ok);
                assert(g.state_seq() =~= g_mid.state_seq().push(row_s));
                assert(entry_shape_ok(rules, g.state_seq(), g.rule_states@, id as int, entry));
            }
            record_rule(arena, tops, names, g, id, entry, Ghost(g_mid));
            entry
        },
        Rule::Semantic(value, target) => {
            let target_id = *target;
            proof {
                lemma_child_must_compile(rules, tops@, id as int, target_id as int);
            }
            let child = compile_rule(arena, tops, names, g, target_id);
            let annotation = value.duplicate();
            let ghost g_mid = *g;
            let entry = g.states.len();
            let mut row: Vec<Transition> = Vec::new();
            row.push(
                Transition {
                    target: None,
                    kind: TransitionKind::RuleRef { child, semantic: Some(annotation) },
                },
            );
            let ghost row_s = row@;
            g.states.push(row);
            proof {
                reveal(entry_shape_ok);
                assert(g.state_seq() =~= g_mid.state_seq().push(row_s));
                assert(entry_shape_ok(rules, g.state_seq(), g.rule_states@, id as int, entry));
            }
            record_rule(arena, tops, names, g, id, entry, Ghost(g_mid));
            proof {
                lemma_extends_transitive(*old(g), g_mid, *g);
            }
            entry
        },
        Rule::Choice(options) => {
            let childs = compile_children(arena, tops, names, g, options, Ghost(id as int));
            let n = options.len();
            let ghost g_mid = *g;
            let entry = g.states.len();
            let mut row: Vec<Transition> = Vec::new();
            for k in 0..n
                invariant
                    n == childs@.len(),
                    row@.len() == k,
                    forall|j: int|
                        0 <= j < k ==> is_rule_arc(#[trigger] row@[j], childs@[j], None, None),
                decreases n - k,
            {
                row.push(
                    Transition {
                        target: None,
                        kind: TransitionKind::RuleRef { child: childs[k], semantic: None },
                    },
                );
            }
            let ghost row_s = row@;
            g.states.push(row);
            proof {
                reveal(entry_shape_ok);
                assert(g.state_seq() =~= g_mid.state_seq().push(row_s));
                assert(entry_shape_ok(rules, g.state_seq(), g.rule_states@, id as int, entry));
            }
            record_rule(arena, tops, names, g, id, entry, Ghost(g_mid));
            proof {
                lemma_extends_transitive(*old(g), g_mid, *g);
            }
            entry
        },
        Rule::Sequence(parts) => {
            let childs = compile_children(arena, tops, names, g, parts, Ghost(id as int));
            let n = parts.len();
            let ghost g_mid = *g;
            let entry: usize;
            if n == 0 {
                entry = g.states.len();
                g.states.push(Vec::new());
                proof {
                    reveal(entry_shape_ok);
                    assert(g.state_seq() =~= g_mid.state_seq().push(Seq::empty()));
                    assert(entry_shape_ok(rules, g.state_seq(), g.rule_states@, id as int, entry));
                }
            } else {
                let start = g.states.len();
                let mut i: usize = 0;
                while i < n
                    invariant
                        n == parts@.len(),
                        n == childs@.len(),
                        i <= n,
                        start == g_mid.states@.len(),
                        g.states@.len() == start + i,
                        g.rule_states@ == g_mid.rule_states@,
                        g.entries@ == g_mid.entries@,
                        forall|s: int| 0 <= s < start ==> g.state_seq()[s] == g_mid.state_seq()[s],
                        forall|j: int|
                            0 <= j < i ==> {
                                let p = n - 1 - j;
                                &&& (#[trigger] g.state_seq()[start + j]).len() == 1
                                &&& is_rule_arc(
                                    g.state_seq()[start + j][0],
                                    childs@[p],
                                    None,
                                    if p == n - 1 {
                                        None
                                    } else {
                                        Some((start + j - 1) as usize)
                                    },
                                )
                            },
                    decreases n - i,
                {
                    let p = n - 1 - i;
                    let target: Option<usize> = if p == n - 1 {
                        None
                    } else {
                        Some(g.states.len() - 1)
                    };
                    let mut row: Vec<Transition> = Vec::new();
                    row.push(
                        Transition {
                            target,
                            kind: TransitionKind::RuleRef { child: childs[p], semantic: None },
                        },
                    );
                    let ghost row_s = row@;
                    let ghost states_before = g.state_seq();
                    g.states.push(row);
                    proof {
                        assert(g.state_seq() =~= states_before.push(row_s));
                    }
                    i = i + 1;
                }
                entry = g.states.len() - 1;
                proof {
                    let chain = Seq::new(n as nat, |q: int| (start + n - 1 - q) as usize);
                    assert forall|q: int| 0 <= q < chain.len() implies {
                        &&& (#[trigger] chain[q]) < g.state_seq().len()
                        &&& parts@[q] < g.rule_states@.len()
                        &&& g.rule_states@[parts@[q] as int] matches Some(c) && {
                            &&& g.state_seq()[chain[q] as int].len() == 1
                            &&& is_rule_arc(
                                g.state_seq()[chain[q] as int][0],
                                c,
                                None,
                                if q == chain.len() - 1 {
                                    None
                                } else {
                                    Some(chain[q + 1])
                                },
                            )
                        }
                    } by {
                        let j = n - 1 - q;
                        assert(g.rule_states@[parts@[q] as int] == Some(childs@[q]));
                        assert(g.state_seq()[start + j].len() == 1);
                    }
                    assert(is_sequence_chain(g.state_seq(), g.rule_states@, parts@, entry, chain));
                    reveal(entry_shape_ok);
                    assert(entry_shape_ok(rules, g.state_seq(), g.rule_states@, id as int, entry));
                }
            }
            record_rule(arena, tops, names, g, id, entry, Ghost(g_mid));
            proof {
                lemma_extends_transitive(*old(g), g_mid, *g);
            }
            entry
        },
        Rule::Repeat(times, target) => {
            let times = *times;
            let target_id = *target;
            proof {
                lemma_child_must_compile(rules, tops@, id as int, target_id as int);
            }
            let child = compile_rule(arena, tops, names, g, target_id);
            let ghost g_mid = *g;
            let mx = times.max;
            let mn = times.min;
            let entry: usize;
            if mx == 0 {
                entry = g.states.len();
                g.states.push(Vec::new());
                proof {
                    reveal(entry_shape_ok);
                    assert(g.state_seq() =~= g_mid.state_seq().push(Seq::empty()));
                    assert(entry_shape_ok(rules, g.state_seq(), g.rule_states@, id as int, entry));
                }
            } else {
                let start = g.states.len();
                let mut i: usize = 0;
                while i < mx
                    invariant
                        i <= mx,
                        start == g_mid.states@.len(),
                        g.states@.len() == start + i,
                        g.rule_states@ == g_mid.rule_states@,
                        g.entries@ == g_mid.entries@,
                        (target_id as int) < g.rule_states@.len(),
                        g.rule_states@[target_id as int] == Some(child),
                        forall|s: int| 0 <= s < start ==> g.state_seq()[s] == g_mid.state_seq()[s],
                        forall|j: int|
                            0 <= j < i ==> {
                                let p = mx - 1 - j;
                                let next: Option<usize> = if p == mx - 1 {
                                    None
                                } else {
                                    Some((start + j - 1) as usize)
                                };
                                &&& (#[trigger] g.state_seq()[start + j]).len() == (
                                if p < mn {
                                    1int
                                } else {
                                    2int
                                })
                                &&& is_rule_arc(g.state_seq()[start + j][0], child, None, next)
                                &&& p >= mn ==> is_epsilon_arc(g.state_seq()[start + j][1], None)
                            },
                    decreases mx - i,
                {
                    let p = mx - 1 - i;
                    let tgt: Option<usize> = if p == mx - 1 {
                        None
                    } else {
                        Some(g.states.len() - 1)
                    };
                    let mut row: Vec<Transition> = Vec::new();
                    row.push(
                        Transition {
                            target: tgt,
                            kind: TransitionKind::RuleRef { child, semantic: None },
                        },
                    );
                    if p >= mn {
                        row.push(Transition { target: None, kind: TransitionKind::Epsilon });
                    }
                    let ghost row_s = row@;
                    let ghost states_before = g.state_seq();
                    g.states.push(row);
                    proof {
                        assert(g.state_seq() =~= states_before.push(row_s));
                    }
                    i = i + 1;
                }
                entry = g.states.len() - 1;
                proof {
                    let chain = Seq::new(mx as nat, |q: int| (start + mx - 1 - q) as usize);
                    assert forall|q: int| 0 <= q < chain.len() implies {
                        let c = g.rule_states@[target_id as int]->Some_0;
                        let next: Option<usize> = if q == chain.len() - 1 {
                            None
                        } else {
                            Some(chain[q + 1])
                        };
                        &&& (#[trigger] chain[q]) < g.state_seq().len()
                        &&& is_rule_arc(g.state_seq()[chain[q] as int][0], c, None, next)
                        &&& if q < times.min {
                            g.state_seq()[chain[q] as int].len() == 1
                        } else {
                            g.state_seq()[chain[q] as int].len() == 2 && is_epsilon_arc(
                                g.state_seq()[chain[q] as int][1],
                                None,
                            )
                        }
                    } by {
                        let j = mx - 1 - q;
                        assert(g.state_seq()[start + j].len() == (
                        if mx - 1 - j < mn {
                            1int
                        } else {
                            2int
                        }));
                    }
                    assert(is_repeat_chain(
                        g.state_seq(),
                        g.rule_states@,
                        times,
                        target_id,
                        entry,
                        chain,
                    ));
                    reveal(entry_shape_ok);
                    assert(entry_shape_ok(rules, g.state_seq(), g.rule_states@, id as int, entry));
                }
            }
            record_rule(arena, tops, names, g, id, entry, Ghost(g_mid));
            proof {
                lemma_extends_transitive(*old(g), g_mid, *g);
            }
            entry
        },
    }
}


/// The set of arena indices the graph has compiled.
pub open spec fn compiled_set(memo: Seq<Option<usize>>) -> Set<int> {
    Set::new(|id: int| 0 <= id < memo.len() && memo[id] is Some)
}

/// What [`GrammarBuilder::build`] guarantees of its output: every
/// memoized rule has its sub-automaton in place; the entry records match
/// the memo, the registered names and the top-level flags; no rule is
/// compiled twice; every memoized rule has its entry record; the state
/// count is exactly one entry state per compiled rule plus each rule's
/// intermediate states; nothing unreachable from the top-level rules was
/// compiled; and every top-level rule was.
pub open spec fn compiled_grammar(
    rules: Seq<Rule>,
    tops: Seq<usize>,
    names: Seq<(usize, String)>,
    g: CompiledGrammar,
) -> bool {
    &&& g.rule_states@.len() == rules.len()
    &&& forall|id: int|
        0 <= id < rules.len() && (#[trigger] g.rule_states@[id]) is Some ==> rule_compiled(
            rules,
            g.state_seq(),
            g.rule_states@,
            id,
        )
    &&& forall|k: int|
        0 <= k < g.entries@.len() ==> {
            let e = #[trigger] g.entries@[k];
            &&& (e.rule as int) < rules.len()
            &&& g.rule_states@[e.rule as int] == Some(e.state)
            &&& e.top_level == tops.contains(e.rule)
            &&& (match e.name {
                Some(n) => assoc_name(names, e.rule as int) == Some(n@),
                None => assoc_name(names, e.rule as int) is None,
            })
        }
    &&& forall|j: int, k: int|
        0 <= j < k < g.entries@.len() ==> (#[trigger] g.entries@[j]).rule != (
        #[trigger] g.entries@[k]).rule
    &&& forall|id: int|
        0 <= id < rules.len() && (#[trigger] g.rule_states@[id]) is Some ==> exists|k: int|
            0 <= k < g.entries@.len() && (#[trigger] g.entries@[k]).rule == id
    &&& g.states@.len() == total_states(rules, g.entries@)
    &&& forall|id: int|
        0 <= id < rules.len() && (#[trigger] g.rule_states@[id]) is Some ==> must_compile(
            rules,
            tops,
            id,
        )
    &&& forall|k: int|
        0 <= k < tops.len() ==> (#[trigger] tops[k] as int) < rules.len()
            && g.rule_states@[tops[k] as int] is Some
}

/// Helper type that constructs a grammar from a set of top-level rules.
///
/// A top-level rule defines one or more phrases that can be recognized. The
/// rules contained in or referenced by a top-level rule will not be
/// recognized as phrases, unless they are also added as top-level rules.
pub struct GrammarBuilder {
    top_rules: Vec<usize>,
    rule_names: Vec<(usize, String)>,
}

impl GrammarBuilder {
    /// The distinct top-level rule ids added so far, for contracts.
    pub closed spec fn tops(&self) -> Seq<usize> {
        self.top_rules@
    }

    /// The name registrations made so far, for contracts.
    pub closed spec fn names(&self) -> Seq<(usize, String)> {
        self.rule_names@
    }

    /// Constructs a new builder with no rules.
    pub fn new() -> (r: Self)
        ensures
            r.tops().len() == 0,
            r.names().len() == 0,
    {
        GrammarBuilder { top_rules: Vec::new(), rule_names: Vec::new() }
    }

    /// Clears all the added rules.
    pub fn clear(&mut self)
        ensures
            final(self).tops().len() == 0,
            final(self).names().len() == 0,
    {
        self.top_rules.clear();
        self.rule_names.clear();
    }

    /// Adds an unnamed top-level rule to the grammar; adding a rule twice
    /// changes nothing.
    pub fn add_rule(&mut self, rule: usize)
        ensures
            final(self).names() == old(self).names(),
            final(self).tops() == if old(self).tops().contains(rule) {
                old(self).tops()
            } else {
                old(self).tops().push(rule)
            },
            final(self).tops().contains(rule),
    {
        if !contains_id(&self.top_rules, rule) {
            self.top_rules.push(rule);
            proof {
                assert(self.top_rules@.last() == rule);
            }
        }
    }

    /// Adds a top-level rule with the given name to the grammar. The name
    /// can be used to enable or disable the rule; registering a new name
    /// for the same rule replaces the old one.
    pub fn add_named_rule(&mut self, name: String, rule: usize)
        ensures
            final(self).tops() == if old(self).tops().contains(rule) {
                old(self).tops()
            } else {
                old(self).tops().push(rule)
            },
            final(self).tops().contains(rule),
            final(self).names() == old(self).names().push((rule, name)),
    {
        self.add_rule(rule);
        self.rule_names.push((rule, name));
    }

    /// Builds the automaton for the added top-level rules. Succeeds — and
    /// fails — exactly as the ids demand: every added id must be an index
    /// into the arena.
    pub fn build(&self, arena: &RuleArena) -> (r: Result<CompiledGrammar, RuleError>)
        requires
            arena.wf(),
        ensures
            match r {
                Ok(g) => {
                    &&& compiled_grammar(arena.rules(), self.tops(), self.names(), g)
                    &&& forall|k: int|
                        0 <= k < self.tops().len() ==> (#[trigger] self.tops()[k] as int)
                            < arena.rules().len()
                },
                Err(e) => {
                    &&& e == RuleError::InvalidReference
                    &&& exists|k: int|
                        0 <= k < self.tops().len() && (#[trigger] self.tops()[k] as int)
                            >= arena.rules().len()
                },
            },
    {
        let ghost rules = arena.rules();
        let n = self.top_rules.len();
        for k in 0..n
            invariant
                n == self.top_rules@.len(),
                forall|j: int|
                    0 <= j < k ==> (#[trigger] self.top_rules@[j] as int) < arena.rules().len(),
            decreases n - k,
        {
            if self.top_rules[k] >= arena.len() {
                proof {
                    assert((self.tops()[k as int] as int) >= arena.rules().len());
                }
                return Err(RuleError::InvalidReference);
            }
        }
        let rule_count = arena.len();
        let mut g = CompiledGrammar {
            states: Vec::new(),
            entries: Vec::new(),
            rule_states: vec![None; rule_count],
        };
        proof {
            reveal(graph_invariant);
            assert(g.rule_states@.len() == rules.len());
            assert(g.states@.len() == total_states(rules, g.entries@));
            assert(graph_invariant(rules, self.tops(), self.names(), g));
        }
        for k in 0..n
            invariant
                arena.wf(),
                n == self.top_rules@.len(),
                forall|j: int|
                    0 <= j < n ==> (#[trigger] self.top_rules@[j] as int) < arena.rules().len(),
                rules == arena.rules(),
                graph_invariant(rules, self.tops(), self.names(), g),
                g.rule_states@.len() == rules.len(),
                forall|j: int|
                    0 <= j < k ==> g.rule_states@[#[trigger] self.top_rules@[j] as int] is Some,
            decreases n - k,
        {
            let top_id = self.top_rules[k];
            proof {
                assert forall|s: Set<int>|
                    #![trigger closed_under_references(rules, s)]
                    closed_under_references(rules, s) && (forall|j: int|
                        0 <= j < self.tops().len() ==> s.contains(
                            #[trigger] self.tops()[j] as int,
                        )) implies s.contains(top_id as int) by {
                    assert(s.contains(self.tops()[k as int] as int));
                }
            }
            let ghost g_iter = g;
            let _ = compile_rule(arena, &self.top_rules, &self.rule_names, &mut g, top_id);
            proof {
                assert forall|j: int|
                    0 <= j < k + 1 implies g.rule_states@[#[trigger] self.top_rules@[j] as int]
                    is Some by {
                    if j < k {
                        assert(g_iter.rule_states@[self.top_rules@[j] as int] is Some);
                    }
                }
            }
        }
        proof {
            reveal(graph_invariant);
            assert(compiled_grammar(rules, self.tops(), self.names(), g));
        }
        Ok(g)
    }
}

/// Every rule a compiled rule references is compiled too.
proof fn lemma_children_compiled(
    rules: Seq<Rule>,
    states: Seq<Seq<Transition>>,
    memo: Seq<Option<usize>>,
    id: int,
)
    requires
        rule_compiled(rules, states, memo, id),
    ensures
        children_of(rules[id]).subset_of(compiled_set(memo)),
{
    reveal(entry_shape_ok);
    let entry = memo[id]->Some_0;
    assert forall|c: int| children_of(rules[id]).contains(c) implies compiled_set(
        memo,
    ).contains(c) by {
        match rules[id] {
            Rule::Text(_) => {},
            Rule::Choice(options) => {
                let k = choose|k: int| 0 <= k < options@.len() && options@[k] as int == c;
                assert(memo[options@[k] as int] is Some);
            },
            Rule::Sequence(parts) => {
                let k = choose|k: int| 0 <= k < parts@.len() && parts@[k] as int == c;
                if parts@.len() > 0 {
                    let chain = choose|chain: Seq<usize>|
                        is_sequence_chain(states, memo, parts@, entry, chain);
                    assert(is_sequence_chain(states, memo, parts@, entry, chain));
                    assert(chain[k] < states.len());
                    assert(memo[parts@[k] as int] is Some);
                }
            },
            Rule::Repeat(times, target) => {
                if times.max > 0 {
                    let chain = choose|chain: Seq<usize>|
                        is_repeat_chain(states, memo, times, target, entry, chain);
                    assert(is_repeat_chain(states, memo, times, target, entry, chain));
                    assert(memo[target as int] is Some);
                } else {
                    assert(memo[target as int] is Some);
                }
            },
            Rule::Semantic(_, target) => {
                assert(memo[target as int] is Some);
            },
        }
    }
}

/// Identity-based deduplication: every rule reachable from the top-level
/// rules is compiled exactly once — the compiled set contains the tops and
/// is closed under references, nothing unreachable is in it, and each
/// compiled rule has exactly one entry record and one entry state. The
/// state count is exactly one entry state per compiled rule plus the
/// intermediate states its kind calls for.
#[verifier::rlimit(50)]
pub proof fn lemma_identity_dedup(
    rules: Seq<Rule>,
    tops: Seq<usize>,
    names: Seq<(usize, String)>,
    g: CompiledGrammar,
)
    requires
        compiled_grammar(rules, tops, names, g),
    ensures
        forall|k: int|
            0 <= k < tops.len() ==> compiled_set(g.rule_states@).contains(#[trigger] tops[k] as int),
        closed_under_references(rules, compiled_set(g.rule_states@)),
        forall|s: Set<int>|
            #![trigger closed_under_references(rules, s)]
            closed_under_references(rules, s) && (forall|k: int|
                0 <= k < tops.len() ==> s.contains(#[trigger] tops[k] as int)) ==> compiled_set(
                g.rule_states@,
            ).subset_of(s),
        forall|j: int, k: int|
            0 <= j < k < g.entries@.len() ==> (#[trigger] g.entries@[j]).rule != (
            #[trigger] g.entries@[k]).rule,
        forall|id: int|
            compiled_set(g.rule_states@).contains(id) ==> exists|k: int|
                0 <= k < g.entries@.len() && (#[trigger] g.entries@[k]).rule == id,
        forall|k: int|
            0 <= k < g.entries@.len() ==> compiled_set(g.rule_states@).contains(
                (#[trigger] g.entries@[k]).rule as int,
            ),
        g.states@.len() == total_states(rules, g.entries@),
{
    let memo = g.rule_states@;
    let states = g.state_seq();
    assert forall|id: int| compiled_set(memo).contains(id) implies children_of(
        rules[id],
    ).subset_of(compiled_set(memo)) by {
        assert(rule_compiled(rules, states, memo, id));
        lemma_children_compiled(rules, states, memo, id);
    }
    assert forall|s: Set<int>|
        #![trigger closed_under_references(rules, s)]
        closed_under_references(rules, s) && (forall|k: int|
            0 <= k < tops.len() ==> s.contains(#[trigger] tops[k] as int)) implies compiled_set(
        memo,
    ).subset_of(s) by {
        assert forall|id: int| compiled_set(memo).contains(id) implies s.contains(id) by {
            assert(must_compile(rules, tops, id));
        }
    }
}

/// Repeat unrolling bounds: a compiled `Repeat` of at most `max` instances
/// unrolls into a chain of exactly `max` states, each invoking the target
/// once; the first `min` instances are mandatory, and exactly the `max -
/// min` later ones carry a zero-width skip to the terminal. A repeat of at
/// most zero instances produces no transitions at all.
pub proof fn lemma_repeat_unrolling(
    rules: Seq<Rule>,
    tops: Seq<usize>,
    names: Seq<(usize, String)>,
    g: CompiledGrammar,
    id: int,
)
    requires
        compiled_grammar(rules, tops, names, g),
        0 <= id < rules.len(),
        g.rule_states@[id] is Some,
        rules[id] is Repeat,
    ensures
        ({
            let times = rules[id]->Repeat_0;
            let target = rules[id]->Repeat_1;
            let entry = g.rule_states@[id]->Some_0;
            &&& (entry as int) < g.state_seq().len()
            &&& (times.max == 0 ==> g.state_seq()[entry as int].len() == 0)
            &&& (times.max > 0 ==> exists|chain: Seq<usize>|
                is_repeat_chain(g.state_seq(), g.rule_states@, times, target, entry, chain))
        }),
{
    reveal(entry_shape_ok);
    assert(rule_compiled(rules, g.state_seq(), g.rule_states@, id));
}

/// The counterpart for sequences: a compiled `Sequence` of `n` parts, `n`
/// at least one, chains exactly `n` states, each invoking one part in
/// order; an empty sequence produces no transitions.
pub proof fn lemma_sequence_chaining(
    rules: Seq<Rule>,
    tops: Seq<usize>,
    names: Seq<(usize, String)>,
    g: CompiledGrammar,
    id: int,
)
    requires
        compiled_grammar(rules, tops, names, g),
        0 <= id < rules.len(),
        g.rule_states@[id] is Some,
        rules[id] is Sequence,
    ensures
        ({
            let parts = rules[id]->Sequence_0;
            let entry = g.rule_states@[id]->Some_0;
            &&& (entry as int) < g.state_seq().len()
            &&& (parts@.len() == 0 ==> g.state_seq()[entry as int].len() == 0)
            &&& (parts@.len() > 0 ==> exists|chain: Seq<usize>|
                is_sequence_chain(g.state_seq(), g.rule_states@, parts@, entry, chain))
        }),
{
    reveal(entry_shape_ok);
    assert(rule_compiled(rules, g.state_seq(), g.rule_states@, id));
}

/// The shape of any single compiled rule, with the opacity of the shape
/// predicate lifted: what the entry state's transitions are, per rule kind.
pub proof fn lemma_compiled_rule_shape(
    rules: Seq<Rule>,
    tops: Seq<usize>,
    names: Seq<(usize, String)>,
    g: CompiledGrammar,
    id: int,
)
    requires
        compiled_grammar(rules, tops, names, g),
        0 <= id < rules.len(),
        g.rule_states@[id] is Some,
    ensures
        rule_compiled(rules, g.state_seq(), g.rule_states@, id),
        ({
            let entry = g.rule_states@[id]->Some_0;
            &&& (entry as int) < g.state_seq().len()
            &&& match rules[id] {
                Rule::Text(t) => g.state_seq()[entry as int].len() == 1 && is_word_arc(
                    g.state_seq()[entry as int][0],
                    t@,
                    None,
                ),
                Rule::Choice(options) => g.state_seq()[entry as int].len() == options@.len()
                    && forall|k: int|
                    0 <= k < options@.len() ==> {
                        &&& (#[trigger] options@[k]) < g.rule_states@.len()
                        &&& g.rule_states@[options@[k] as int] matches Some(c) && is_rule_arc(
                            g.state_seq()[entry as int][k],
                            c,
                            None,
                            None,
                        )
                    },
                Rule::Sequence(parts) => parts@.len() == 0 ==> g.state_seq()[
                    entry as int
                ].len() == 0,
                Rule::Repeat(times, _) => times.max == 0 ==> g.state_seq()[entry as int].len()
                    == 0,
                Rule::Semantic(value, target) => g.state_seq()[entry as int].len() == 1 && (
                target as int) < g.rule_states@.len() && (g.rule_states@[target as int]
                    matches Some(c) && is_rule_arc(
                    g.state_seq()[entry as int][0],
                    c,
                    Some(value.model()),
                    None,
                )),
            }
        }),
{
    reveal(entry_shape_ok);
    assert(rule_compiled(rules, g.state_seq(), g.rule_states@, id));
}

} // verus!
