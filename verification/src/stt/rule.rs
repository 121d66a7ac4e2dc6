//! The rule algebra: the immutable tree data type a recognition grammar is
//! built from, allocated in an arena and addressed by index.
//!
//! A rule refers to its sub-rules by their arena indices, so the same node
//! can be referenced from several parents and compiles to one shared
//! sub-automaton (identity is the index, not the structure: two separately
//! allocated `Text("hi")` nodes stay distinct). A rule can only reference
//! nodes allocated before it, which keeps every grammar acyclic.

use vstd::prelude::*;

use super::semantics::SemanticValue;

verus! {

/// Specifies the bounds for how many times the target rule in a
/// [`Rule::Repeat`] can be repeated.
#[derive(Debug, PartialEq, Eq, Structural, Clone, Copy)]
pub struct RepeatRange {
    /// The target rule must be repeated at least this many times.
    pub min: usize,
    /// The target rule can be repeated at most this many times.
    pub max: usize,
}

impl RepeatRange {
    /// An exact count: the target is repeated exactly `times` times.
    pub fn exactly(times: usize) -> (r: Self)
        ensures
            r == (RepeatRange { min: times, max: times }),
    {
        RepeatRange { min: times, max: times }
    }

    /// An inclusive range: at least `min` and at most `max` repetitions.
    pub fn between(min: usize, max: usize) -> (r: Self)
        ensures
            r == (RepeatRange { min, max }),
    {
        RepeatRange { min, max }
    }

    /// An open lower end: at most `max` repetitions, possibly none.
    pub fn at_most(max: usize) -> (r: Self)
        ensures
            r == (RepeatRange { min: 0, max }),
    {
        RepeatRange { min: 0, max }
    }
}

impl From<usize> for RepeatRange {
    fn from(source: usize) -> (r: Self) {
        RepeatRange { min: source, max: source }
    }
}

impl vstd::std_specs::convert::FromSpecImpl<usize> for RepeatRange {
    open spec fn obeys_from_spec() -> bool {
        true
    }

    open spec fn from_spec(source: usize) -> Self {
        RepeatRange { min: source, max: source }
    }
}

/// A rule that defines one or more phrases or fragments that can be
/// recognized by the engine. Sub-rules are referenced by their index in the
/// owning [`RuleArena`].
#[derive(Debug, Clone)]
pub enum Rule {
    /// A sequence of words.
    Text(String),
    /// A set of rules to choose from.
    Choice(Vec<usize>),
    /// A sequence of rules that must be recognized in order.
    Sequence(Vec<usize>),
    /// A rule repeated a certain number of times.
    Repeat(RepeatRange, usize),
    /// A rule that will produce a node in the semantic tree when recognized.
    Semantic(SemanticValue, usize),
}

impl Rule {
    /// Creates a rule that defines a sequence of words to be recognized.
    pub fn text(text: String) -> (r: Self)
        ensures
            r matches Rule::Text(t) && t@ == text@,
    {
        Rule::Text(text)
    }

    /// Creates a rule that defines a set of alternatives to choose from.
    pub fn choice(options: Vec<usize>) -> (r: Self)
        ensures
            r == Rule::Choice(options),
    {
        Rule::Choice(options)
    }

    /// Creates a rule that defines a sequence of sub-rules that must be
    /// recognized in order.
    pub fn sequence(parts: Vec<usize>) -> (r: Self)
        ensures
            r == Rule::Sequence(parts),
    {
        Rule::Sequence(parts)
    }

    /// Creates a rule that recognizes a sub-rule repeated a certain number
    /// of times.
    pub fn repeat(times: RepeatRange, target: usize) -> (r: Self)
        ensures
            r == Rule::Repeat(times, target),
    {
        Rule::Repeat(times, target)
    }

    /// Creates a rule that produces a node in the resulting semantic tree
    /// when the given sub-rule is recognized.
    pub fn semantic(value: SemanticValue, target: usize) -> (r: Self)
        ensures
            r matches Rule::Semantic(v, t) && v == value && t == target,
    {
        Rule::Semantic(value, target)
    }

    /// Well-formedness of one rule among the first `bound` arena slots:
    /// every reference points below `bound`, and a repeat range is not
    /// inverted.
    pub open spec fn wf(&self, bound: int) -> bool {
        match self {
            Rule::Text(_) => true,
            Rule::Choice(options) => forall|k: int|
                0 <= k < options@.len() ==> (#[trigger] options@[k]) < bound,
            Rule::Sequence(parts) => forall|k: int|
                0 <= k < parts@.len() ==> (#[trigger] parts@[k]) < bound,
            Rule::Repeat(times, target) => times.min <= times.max && (*target as int) < bound,
            Rule::Semantic(_, target) => (*target as int) < bound,
        }
    }
}

/// The reasons a rule is rejected at allocation.
#[derive(Debug, PartialEq, Eq, Structural, Clone, Copy)]
pub enum RuleError {
    /// The rule references an arena index that has not been allocated yet.
    InvalidReference,
    /// A repeat range has its minimum above its maximum.
    InvalidRange,
}

/// Allocation arena for grammar rules.
///
/// Rules are added one at a time and addressed by the index the arena hands
/// back; a rule may only reference indices the arena has already handed out.
/// The arena therefore always holds a well-formed, acyclic forest.
#[derive(Debug)]
pub struct RuleArena {
    nodes: Vec<Rule>,
}

impl RuleArena {
    /// The rules held, in allocation order, for contracts.
    pub closed spec fn rules(&self) -> Seq<Rule> {
        self.nodes@
    }

    /// Every rule only references rules allocated before it.
    pub open spec fn wf(&self) -> bool {
        forall|i: int| 0 <= i < self.rules().len() ==> (#[trigger] self.rules()[i]).wf(i)
    }

    /// Constructs a new, empty arena.
    pub fn new() -> (r: Self)
        ensures
            r.rules().len() == 0,
            r.wf(),
    {
        RuleArena { nodes: Vec::new() }
    }

    /// The number of rules allocated so far.
    pub fn len(&self) -> (r: usize)
        ensures
            r == self.rules().len(),
    {
        self.nodes.len()
    }

    /// Borrows the rule at the given index.
    pub fn node(&self, id: usize) -> (r: &Rule)
        requires
            id < self.rules().len(),
        ensures
            *r == self.rules()[id as int],
    {
        &self.nodes[id]
    }

    /// Takes ownership of a constructed rule, keeps it until the arena is
    /// destroyed, and returns its index. The rule is rejected — and the
    /// arena left unchanged — exactly when it references an index not
    /// allocated yet, or has an inverted repeat range.
    pub fn insert(&mut self, rule: Rule) -> (r: Result<usize, RuleError>)
        requires
            old(self).wf(),
        ensures
            final(self).wf(),
            match r {
                Ok(id) => {
                    &&& rule.wf(old(self).rules().len() as int)
                    &&& id == old(self).rules().len()
                    &&& final(self).rules() == old(self).rules().push(rule)
                },
                Err(e) => {
                    &&& !rule.wf(old(self).rules().len() as int)
                    &&& *final(self) == *old(self)
                    &&& e == (match rule {
                        Rule::Repeat(times, target) => if times.min > times.max {
                            RuleError::InvalidRange
                        } else {
                            RuleError::InvalidReference
                        },
                        _ => RuleError::InvalidReference,
                    })
                },
            },
    {
        let bound = self.nodes.len();
        match &rule {
            Rule::Text(_) => {},
            Rule::Choice(options) => {
                if !ids_below(options, bound) {
                    return Err(RuleError::InvalidReference);
                }
            },
            Rule::Sequence(parts) => {
                if !ids_below(parts, bound) {
                    return Err(RuleError::InvalidReference);
                }
            },
            Rule::Repeat(times, target) => {
                if times.min > times.max {
                    return Err(RuleError::InvalidRange);
                }
                if *target >= bound {
                    return Err(RuleError::InvalidReference);
                }
            },
            Rule::Semantic(_, target) => {
                if *target >= bound {
                    return Err(RuleError::InvalidReference);
                }
            },
        }
        let id = bound;
        let ghost stored = rule;
        self.nodes.push(rule);
        proof {
            assert forall|i: int|
                0 <= i < self.rules().len() implies (#[trigger] self.rules()[i]).wf(i) by {
                if i < old(self).rules().len() {
                    assert(self.rules()[i] == old(self).rules()[i]);
                } else {
                    assert(self.rules()[i] == stored);
                }
            }
        }
        Ok(id)
    }

    /// Allocates a rule that defines a sequence of words to be recognized.
    pub fn text(&mut self, text: String) -> (r: usize)
        requires
            old(self).wf(),
        ensures
            final(self).wf(),
            r == old(self).rules().len(),
            final(self).rules().len() == old(self).rules().len() + 1,
            final(self).rules() == old(self).rules().push(final(self).rules()[r as int]),
            final(self).rules()[r as int] matches Rule::Text(t) && t@ == text@,
    {
        let id = self.nodes.len();
        self.nodes.push(Rule::Text(text));
        proof {
            assert forall|i: int|
                0 <= i < self.rules().len() implies (#[trigger] self.rules()[i]).wf(i) by {
                if i < old(self).rules().len() {
                    assert(self.rules()[i] == old(self).rules()[i]);
                }
            }
        }
        id
    }

    /// Allocates a rule that defines a set of alternatives to choose from.
    pub fn choice(&mut self, options: Vec<usize>) -> (r: Result<usize, RuleError>)
        requires
            old(self).wf(),
        ensures
            final(self).wf(),
            match r {
                Ok(id) => {
                    &&& id == old(self).rules().len()
                    &&& final(self).rules() == old(self).rules().push(Rule::Choice(options))
                    &&& Rule::Choice(options).wf(old(self).rules().len() as int)
                },
                Err(e) => {
                    &&& *final(self) == *old(self)
                    &&& e == RuleError::InvalidReference
                    &&& !Rule::Choice(options).wf(old(self).rules().len() as int)
                },
            },
    {
        self.insert(Rule::Choice(options))
    }

    /// Allocates a rule that defines a sequence of sub-rules that must be
    /// recognized in order.
    pub fn sequence(&mut self, parts: Vec<usize>) -> (r: Result<usize, RuleError>)
        requires
            old(self).wf(),
        ensures
            final(self).wf(),
            match r {
                Ok(id) => {
                    &&& id == old(self).rules().len()
                    &&& final(self).rules() == old(self).rules().push(Rule::Sequence(parts))
                    &&& Rule::Sequence(parts).wf(old(self).rules().len() as int)
                },
                Err(e) => {
                    &&& *final(self) == *old(self)
                    &&& e == RuleError::InvalidReference
                    &&& !Rule::Sequence(parts).wf(old(self).rules().len() as int)
                },
            },
    {
        self.insert(Rule::Sequence(parts))
    }

    /// Allocates a rule that recognizes a sub-rule repeated a certain
    /// number of times. An inverted range is rejected eagerly.
    pub fn repeat(&mut self, times: RepeatRange, target: usize) -> (r: Result<usize, RuleError>)
        requires
            old(self).wf(),
        ensures
            final(self).wf(),
            match r {
                Ok(id) => {
                    &&& id == old(self).rules().len()
                    &&& final(self).rules() == old(self).rules().push(Rule::Repeat(times, target))
                    &&& times.min <= times.max
                    &&& target < old(self).rules().len()
                },
                Err(e) => {
                    &&& *final(self) == *old(self)
                    &&& (times.min <= times.max && target < old(self).rules().len()) == false
                    &&& e == (if times.min > times.max {
                        RuleError::InvalidRange
                    } else {
                        RuleError::InvalidReference
                    })
                },
            },
    {
        self.insert(Rule::Repeat(times, target))
    }

    /// Allocates a rule that produces a node in the resulting semantic tree
    /// when the given sub-rule is recognized.
    pub fn semantic(&mut self, value: SemanticValue, target: usize) -> (r: Result<usize, RuleError>)
        requires
            old(self).wf(),
        ensures
            final(self).wf(),
            match r {
                Ok(id) => {
                    &&& id == old(self).rules().len()
                    &&& final(self).rules().len() == old(self).rules().len() + 1
                    &&& final(self).rules() == old(self).rules().push(
                        final(self).rules()[id as int],
                    )
                    &&& final(self).rules()[id as int] matches Rule::Semantic(v, t) && v == value
                        && t == target
                    &&& target < old(self).rules().len()
                },
                Err(e) => {
                    &&& *final(self) == *old(self)
                    &&& e == RuleError::InvalidReference
                    &&& target >= old(self).rules().len()
                },
            },
    {
        self.insert(Rule::Semantic(value, target))
    }
}

/// Whether every id in the list lies below the bound.
fn ids_below(ids: &Vec<usize>, bound: usize) -> (r: bool)
    ensures
        r == forall|k: int| 0 <= k < ids@.len() ==> (#[trigger] ids@[k]) < bound,
{
    let n = ids.len();
    for i in 0..n
        invariant
            n == ids@.len(),
            forall|k: int| 0 <= k < i ==> (#[trigger] ids@[k]) < bound,
        decreases n - i,
    {
        if ids[i] >= bound {
            return false;
        }
    }
    true
}

} // verus!
