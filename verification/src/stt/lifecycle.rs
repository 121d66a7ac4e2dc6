//! The enable/disable lifecycle: the pause gate that keeps grammar
//! mutations from racing recognition delivery, and the grammar and
//! recognizer handles whose state it protects.
//!
//! The engine itself performs the suspensions and reactivations; the
//! library decides them. Every mutating call reports, as booleans, which
//! engine actions its caller must perform, and the number of open pause
//! scopes is the single source of truth: the engine listens exactly while
//! none is open.

use vstd::prelude::*;

use crate::text::str_eq;

use super::graph::CompiledGrammar;

verus! {

/// The reference-counted pause/resume gate: the first pause suspends the
/// engine, the last resume reactivates it, intermediate calls only adjust
/// the count.
#[derive(Debug, PartialEq, Eq, Structural, Clone, Copy)]
pub struct PauseGate {
    count: u64,
}

impl PauseGate {
    /// The number of pause scopes currently open, for contracts.
    pub closed spec fn count(&self) -> u64 {
        self.count
    }

    /// Whether the engine is delivering recognition events: exactly when no
    /// pause scope is open.
    pub open spec fn engine_listening(&self) -> bool {
        self.count() == 0
    }

    /// A fresh gate: no pause scope open, the engine listening.
    pub fn new() -> (r: Self)
        ensures
            r.count() == 0,
            r.engine_listening(),
    {
        PauseGate { count: 0 }
    }

    /// Opens a pause scope. Returns whether the engine must be suspended
    /// now: only the first pause suspends it.
    pub fn pause(&mut self) -> (suspend: bool)
        requires
            old(self).count() < u64::MAX,
        ensures
            final(self).count() == old(self).count() + 1,
            suspend == (old(self).count() == 0),
            !final(self).engine_listening(),
    {
        let suspend = self.count == 0;
        self.count = self.count + 1;
        suspend
    }

    /// Closes a pause scope. Returns whether the engine must be reactivated
    /// now: only the last resume reactivates it.
    pub fn resume(&mut self) -> (reactivate: bool)
        requires
            old(self).count() > 0,
        ensures
            final(self).count() == old(self).count() - 1,
            reactivate == (old(self).count() == 1),
            final(self).engine_listening() == (final(self).count() == 0),
    {
        let reactivate = self.count == 1;
        self.count = self.count - 1;
        reactivate
    }

    /// The number of pause scopes currently open.
    pub fn depth(&self) -> (r: u64)
        ensures
            r == self.count(),
    {
        self.count
    }

    /// Whether any pause scope is open.
    pub fn is_paused(&self) -> (r: bool)
        ensures
            r == !self.engine_listening(),
    {
        self.count > 0
    }
}

/// While any pause scope is open — in particular, for the whole of every
/// grammar mutation, which pauses around its change — the engine is not
/// delivering recognition events: no event can race the mutation, however
/// the scopes of different grammars nest.
pub proof fn lemma_no_events_while_paused(gate: PauseGate)
    requires
        gate.count() > 0,
    ensures
        !gate.engine_listening(),
{
}

/// The enabled state left after a sequence of enable/disable calls, each
/// call setting the state to its argument.
pub open spec fn after_toggles(initial: bool, toggles: Seq<bool>) -> bool
    decreases toggles.len(),
{
    if toggles.len() == 0 {
        initial
    } else {
        after_toggles(toggles[0], toggles.drop_first())
    }
}

/// Toggling an enabled state any number of times leaves exactly the last
/// requested state; no sequence of calls can leave it anywhere else.
pub proof fn lemma_toggling_settles(initial: bool, toggles: Seq<bool>)
    ensures
        after_toggles(initial, toggles) == if toggles.len() == 0 {
            initial
        } else {
            toggles.last()
        },
    decreases toggles.len(),
{
    if toggles.len() > 0 {
        lemma_toggling_settles(toggles[0], toggles.drop_first());
        if toggles.len() > 1 {
            assert(toggles.drop_first().last() == toggles.last());
        }
    }
}

/// The engine actions a caller must perform around one mutation, in order:
/// suspend before applying the change, reactivate after.
#[derive(Debug, PartialEq, Eq, Structural, Clone, Copy)]
pub struct MutationActions {
    /// Suspend the engine before applying the change.
    pub suspend: bool,
    /// Reactivate the engine after applying it.
    pub reactivate: bool,
}

/// The enabled state of one named rule of a grammar.
#[derive(Debug)]
pub struct NamedRuleState {
    /// The rule's registered name.
    pub name: String,
    /// Whether phrases defined by the rule are recognizable once the
    /// grammar itself is enabled.
    pub active: bool,
}

/// A loaded grammar: the compiled automaton plus its lifecycle state.
///
/// A grammar starts disabled as a whole, with every named rule active, so
/// that a single enable call makes its phrases recognizable.
#[derive(Debug)]
pub struct Grammar {
    graph: CompiledGrammar,
    enabled: bool,
    rules: Vec<NamedRuleState>,
}

/// The initial per-named-rule states of a compiled grammar: one entry per
/// named rule, in compile order, each active.
pub open spec fn initial_rule_flags(entries: Seq<super::graph::RuleEntry>) -> Seq<
    (Seq<char>, bool),
>
    decreases entries.len(),
{
    if entries.len() == 0 {
        Seq::empty()
    } else {
        let rest = initial_rule_flags(entries.drop_last());
        match entries.last().name {
            Some(n) => rest.push((n@, true)),
            None => rest,
        }
    }
}

/// Every initial rule flag is active.
pub proof fn lemma_initial_flags_active(entries: Seq<super::graph::RuleEntry>)
    ensures
        forall|j: int|
            0 <= j < initial_rule_flags(entries).len() ==> (#[trigger] initial_rule_flags(
                entries,
            )[j]).1 == true,
    decreases entries.len(),
{
    if entries.len() > 0 {
        lemma_initial_flags_active(entries.drop_last());
        let rest = initial_rule_flags(entries.drop_last());
        assert forall|j: int|
            0 <= j < initial_rule_flags(entries).len() implies (#[trigger] initial_rule_flags(
            entries,
        )[j]).1 == true by {
            if j < rest.len() {
                assert(initial_rule_flags(entries)[j] == rest[j]);
            }
        }
    }
}

/// The name and active flag of each named-rule state, in order.
pub open spec fn flags_of(rules: Seq<NamedRuleState>) -> Seq<(Seq<char>, bool)> {
    Seq::new(rules.len(), |i: int| (rules[i].name@, rules[i].active))
}

impl Grammar {
    /// The compiled automaton, for contracts.
    pub closed spec fn graph(&self) -> CompiledGrammar {
        self.graph
    }

    /// Whether the grammar as a whole is enabled, for contracts.
    pub closed spec fn enabled(&self) -> bool {
        self.enabled
    }

    /// The per-named-rule states, for contracts: name and active flag, in
    /// compile order.
    pub closed spec fn rule_flags(&self) -> Seq<(Seq<char>, bool)> {
        flags_of(self.rules@)
    }

    /// Borrows the compiled automaton.
    pub fn automaton(&self) -> (r: &CompiledGrammar)
        ensures
            *r == self.graph(),
    {
        &self.graph
    }

    /// Wraps a freshly committed automaton in its initial lifecycle state:
    /// the grammar disabled, every named rule active.
    pub fn new(graph: CompiledGrammar) -> (r: Self)
        ensures
            r.graph() == graph,
            !r.enabled(),
            r.rule_flags() == initial_rule_flags(graph.entries@),
    {
        let mut rules: Vec<NamedRuleState> = Vec::new();
        let n = graph.entries.len();
        for k in 0..n
            invariant
                n == graph.entries@.len(),
                flags_of(rules@) == initial_rule_flags(graph.entries@.take(k as int)),
            decreases n - k,
        {
            let ghost entries = graph.entries@;
            let ghost rules_before = rules@;
            match &graph.entries[k].name {
                Some(name) => {
                    rules.push(NamedRuleState { name: name.clone(), active: true });
                },
                None => {},
            }
            proof {
                let t1 = entries.take(k + 1);
                assert(t1.drop_last() =~= entries.take(k as int));
                assert(t1.last() == entries[k as int]);
                match entries[k as int].name {
                    Some(_) => {
                        assert(flags_of(rules@) =~= flags_of(rules_before).push(
                            (rules@.last().name@, rules@.last().active),
                        ));
                        assert(flags_of(rules@) =~= initial_rule_flags(t1));
                    },
                    None => {
                        assert(flags_of(rules@) =~= initial_rule_flags(t1));
                    },
                }
            }
        }
        proof {
            assert(graph.entries@.take(graph.entries@.len() as int) =~= graph.entries@);
        }
        Grammar { graph, enabled: false, rules }
    }

    /// Enables or disables the recognition of all the phrases defined in
    /// this grammar. The change happens inside its own pause scope: the
    /// returned actions bracket it.
    pub fn set_enabled(&mut self, gate: &mut PauseGate, enabled: bool) -> (acts: MutationActions)
        requires
            old(gate).count() < u64::MAX,
        ensures
            final(self).enabled() == enabled,
            final(self).graph() == old(self).graph(),
            final(self).rule_flags() == old(self).rule_flags(),
            final(gate).count() == old(gate).count(),
            acts.suspend == (old(gate).count() == 0),
            acts.reactivate == (old(gate).count() == 0),
    {
        let suspend = gate.pause();
        self.enabled = enabled;
        let reactivate = gate.resume();
        MutationActions { suspend, reactivate }
    }

    /// Enables or disables the recognition of the phrases defined by every
    /// rule with the given name, inside its own pause scope. Returns the
    /// actions and whether any rule bore the name.
    pub fn set_rule_enabled(&mut self, gate: &mut PauseGate, name: &str, enabled: bool) -> (r: (
        MutationActions,
        bool,
    ))
        requires
            old(gate).count() < u64::MAX,
        ensures
            final(self).enabled() == old(self).enabled(),
            final(self).graph() == old(self).graph(),
            final(self).rule_flags().len() == old(self).rule_flags().len(),
            forall|j: int|
                0 <= j < old(self).rule_flags().len() ==> #[trigger] final(self).rule_flags()[j]
                    == (
                old(self).rule_flags()[j].0,
                if old(self).rule_flags()[j].0 == name@ {
                    enabled
                } else {
                    old(self).rule_flags()[j].1
                },
            ),
            final(gate).count() == old(gate).count(),
            r.0.suspend == (old(gate).count() == 0),
            r.0.reactivate == (old(gate).count() == 0),
            r.1 == exists|j: int|
                0 <= j < old(self).rule_flags().len() && (#[trigger] old(self).rule_flags()[j]).0
                    == name@,
    {
        let suspend = gate.pause();
        let mut found = false;
        let n = self.rules.len();
        for k in 0..n
            invariant
                n == self.rules@.len(),
                n == old(self).rule_flags().len(),
                self.enabled == old(self).enabled(),
                self.graph == old(self).graph(),
                forall|j: int|
                    k <= j < n ==> (#[trigger] self.rules@[j]).name@ == old(self).rule_flags()[j].0
                        && self.rules@[j].active == old(self).rule_flags()[j].1,
                forall|j: int|
                    0 <= j < k ==> (#[trigger] self.rules@[j]).name@ == old(self).rule_flags()[j].0
                        && self.rules@[j].active == (
                    if old(self).rule_flags()[j].0 == name@ {
                        enabled
                    } else {
                        old(self).rule_flags()[j].1
                    }),
                found == exists|j: int|
                    0 <= j < k && (#[trigger] old(self).rule_flags()[j]).0 == name@,
            decreases n - k,
        {
            if str_eq(self.rules[k].name.as_str(), name) {
                self.rules[k].active = enabled;
                found = true;
                proof {
                    assert((old(self).rule_flags()[k as int]).0 == name@);
                }
            }
        }
        let reactivate = gate.resume();
        proof {
            assert(final(self).rule_flags() =~= Seq::new(
                old(self).rule_flags().len(),
                |j: int|
                    (
                        old(self).rule_flags()[j].0,
                        if old(self).rule_flags()[j].0 == name@ {
                            enabled
                        } else {
                            old(self).rule_flags()[j].1
                        },
                    ),
            )) by {
                assert(forall|j: int|
                    0 <= j < self.rules@.len() ==> #[trigger] self.rule_flags()[j] == (
                    self.rules@[j].name@,
                    self.rules@[j].active,
                ));
            }
        }
        (MutationActions { suspend, reactivate }, found)
    }
}

/// The in-process recognition engine handle: it owns the pause gate and
/// can hold one global pause open to disable recognition altogether.
#[derive(Debug)]
pub struct Recognizer {
    gate: PauseGate,
    holds_pause: bool,
}

impl Recognizer {
    /// The pause bookkeeping, for contracts.
    pub closed spec fn gate(&self) -> PauseGate {
        self.gate
    }

    /// Whether the recognizer holds its global pause (it does exactly while
    /// disabled), for contracts.
    pub closed spec fn holds_pause(&self) -> bool {
        self.holds_pause
    }

    /// The recognizer's internal consistency: its global pause, while held,
    /// is one of the open scopes.
    pub open spec fn wf(&self) -> bool {
        self.holds_pause() ==> self.gate().count() > 0
    }

    /// A fresh recognizer: enabled, no pause scope open.
    pub fn new() -> (r: Self)
        ensures
            r.wf(),
            !r.holds_pause(),
            r.gate().count() == 0,
    {
        Recognizer { gate: PauseGate::new(), holds_pause: false }
    }

    /// Borrows the pause bookkeeping, letting grammars of this recognizer pause around
    /// their mutations.
    pub fn gate_mut(&mut self) -> (r: &mut PauseGate)
        ensures
            *r == old(self).gate(),
            final(self).gate() == *final(r),
            final(self).holds_pause() == old(self).holds_pause(),
    {
        &mut self.gate
    }

    /// Enables or disables recognition engine-wide by releasing or taking a
    /// global pause scope; repeated calls with the same argument change
    /// nothing.
    pub fn set_enabled(&mut self, enabled: bool) -> (acts: MutationActions)
        requires
            old(self).wf(),
            old(self).gate().count() < u64::MAX,
        ensures
            final(self).wf(),
            final(self).holds_pause() == !enabled,
            final(self).gate().count() == (if old(self).holds_pause() == !enabled {
                old(self).gate().count() as int
            } else if enabled {
                old(self).gate().count() - 1
            } else {
                old(self).gate().count() + 1
            }),
            acts.suspend == (!enabled && !old(self).holds_pause() && old(self).gate().count()
                == 0),
            acts.reactivate == (enabled && old(self).holds_pause() && old(self).gate().count()
                == 1),
    {
        if self.holds_pause == enabled {
            if enabled {
                self.holds_pause = false;
                let reactivate = self.gate.resume();
                return MutationActions { suspend: false, reactivate };
            } else {
                let suspend = self.gate.pause();
                self.holds_pause = true;
                return MutationActions { suspend, reactivate: false };
            }
        }
        MutationActions { suspend: false, reactivate: false }
    }
}

} // verus!
