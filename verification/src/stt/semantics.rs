//! The semantic value model: the typed payload attached to semantic rule
//! nodes and surfaced again in recognition results.
//!
//! Floating-point payloads are carried as their IEEE 754 bit patterns
//! (`u32` for single, `u64` for double precision), so that the values can be
//! stored, compared and round-tripped exactly; the embedding application
//! converts to native floats at the engine boundary.

use vstd::prelude::*;

use crate::text::str_eq;

verus! {

/// A value that forms part of the semantic information for a recognized
/// phrase.
#[derive(Debug, Clone)]
pub enum SemanticValue {
    /// A boolean flag.
    Bool(bool),
    /// A 32-bit signed integer.
    Int(i32),
    /// A single-precision float, carried as its IEEE 754 bit pattern.
    Float(u32),
    /// A double-precision float, carried as its IEEE 754 bit pattern.
    Double(u64),
    /// A string.
    String(String),
}

/// The mathematical value of a [`SemanticValue`]: the same variants, with
/// strings abstracted to their character sequences.
pub enum SemanticValueModel {
    /// A boolean flag.
    Bool(bool),
    /// A 32-bit signed integer.
    Int(i32),
    /// A single-precision float bit pattern.
    Float(u32),
    /// A double-precision float bit pattern.
    Double(u64),
    /// A string, as its character sequence.
    Str(Seq<char>),
}

impl SemanticValue {
    /// The mathematical value this payload carries.
    pub open spec fn model(&self) -> SemanticValueModel {
        match self {
            SemanticValue::Bool(b) => SemanticValueModel::Bool(*b),
            SemanticValue::Int(i) => SemanticValueModel::Int(*i),
            SemanticValue::Float(f) => SemanticValueModel::Float(*f),
            SemanticValue::Double(d) => SemanticValueModel::Double(*d),
            SemanticValue::String(s) => SemanticValueModel::Str(s@),
        }
    }

    /// Whether two values are equal: same variant, same payload.
    pub open spec fn spec_eq(&self, other: &SemanticValue) -> bool {
        self.model() == other.model()
    }

    /// An equal copy of the value.
    pub fn duplicate(&self) -> (r: Self)
        ensures
            r.model() == self.model(),
    {
        match self {
            SemanticValue::Bool(b) => SemanticValue::Bool(*b),
            SemanticValue::Int(i) => SemanticValue::Int(*i),
            SemanticValue::Float(f) => SemanticValue::Float(*f),
            SemanticValue::Double(d) => SemanticValue::Double(*d),
            SemanticValue::String(s) => SemanticValue::String(s.clone()),
        }
    }

    /// Borrows the underlying value, if this is a `SemanticValue::Bool`.
    pub fn as_bool(&self) -> (r: Option<&bool>)
        ensures
            match r {
                Some(b) => *self == SemanticValue::Bool(*b),
                None => !(self is Bool),
            },
    {
        if let SemanticValue::Bool(b) = self {
            Some(b)
        } else {
            None
        }
    }

    /// Borrows the underlying value, if this is a `SemanticValue::Int`.
    pub fn as_int(&self) -> (r: Option<&i32>)
        ensures
            match r {
                Some(i) => *self == SemanticValue::Int(*i),
                None => !(self is Int),
            },
    {
        if let SemanticValue::Int(i) = self {
            Some(i)
        } else {
            None
        }
    }

    /// Borrows the underlying bit pattern, if this is a
    /// `SemanticValue::Float`.
    pub fn as_float(&self) -> (r: Option<&u32>)
        ensures
            match r {
                Some(f) => *self == SemanticValue::Float(*f),
                None => !(self is Float),
            },
    {
        if let SemanticValue::Float(f) = self {
            Some(f)
        } else {
            None
        }
    }

    /// Borrows the underlying bit pattern, if this is a
    /// `SemanticValue::Double`.
    pub fn as_double(&self) -> (r: Option<&u64>)
        ensures
            match r {
                Some(d) => *self == SemanticValue::Double(*d),
                None => !(self is Double),
            },
    {
        if let SemanticValue::Double(d) = self {
            Some(d)
        } else {
            None
        }
    }

    /// Borrows the underlying value, if this is a `SemanticValue::String`.
    pub fn as_string(&self) -> (r: Option<&String>)
        ensures
            match r {
                Some(s) => self matches SemanticValue::String(t) && t@ == s@,
                None => !(self is String),
            },
    {
        if let SemanticValue::String(s) = self {
            Some(s)
        } else {
            None
        }
    }
}

impl PartialEq for SemanticValue {
    /// Identity is per variant; two values of different variants are never
    /// equal.
    fn eq(&self, other: &SemanticValue) -> (r: bool) {
        match (self, other) {
            (SemanticValue::Bool(a), SemanticValue::Bool(b)) => a == b,
            (SemanticValue::Int(a), SemanticValue::Int(b)) => a == b,
            (SemanticValue::Float(a), SemanticValue::Float(b)) => a == b,
            (SemanticValue::Double(a), SemanticValue::Double(b)) => a == b,
            (SemanticValue::String(a), SemanticValue::String(b)) => *a == *b,
            _ => false,
        }
    }
}

impl vstd::std_specs::cmp::PartialEqSpecImpl for SemanticValue {
    open spec fn obeys_eq_spec() -> bool {
        true
    }

    open spec fn eq_spec(&self, other: &SemanticValue) -> bool {
        self.spec_eq(other)
    }
}

impl PartialEq<bool> for SemanticValue {
    /// A `Bool` value equals the raw boolean with the same payload; any
    /// other variant compares unequal.
    fn eq(&self, other: &bool) -> (r: bool) {
        match self {
            SemanticValue::Bool(b) => b == other,
            _ => false,
        }
    }
}

impl vstd::std_specs::cmp::PartialEqSpecImpl<bool> for SemanticValue {
    open spec fn obeys_eq_spec() -> bool {
        true
    }

    open spec fn eq_spec(&self, other: &bool) -> bool {
        self matches SemanticValue::Bool(b) && b == *other
    }
}

impl PartialEq<i32> for SemanticValue {
    /// An `Int` value equals the raw integer with the same payload; any
    /// other variant compares unequal.
    fn eq(&self, other: &i32) -> (r: bool) {
        match self {
            SemanticValue::Int(i) => i == other,
            _ => false,
        }
    }
}

impl vstd::std_specs::cmp::PartialEqSpecImpl<i32> for SemanticValue {
    open spec fn obeys_eq_spec() -> bool {
        true
    }

    open spec fn eq_spec(&self, other: &i32) -> bool {
        self matches SemanticValue::Int(i) && i == *other
    }
}

impl PartialEq<&str> for SemanticValue {
    /// A `String` value equals the raw string with the same characters; any
    /// other variant compares unequal.
    fn eq(&self, other: &&str) -> (r: bool) {
        match self {
            SemanticValue::String(s) => {
                let a: &str = s.as_str();
                let b: &str = *other;
                str_eq(a, b)
            },
            _ => false,
        }
    }
}

impl vstd::std_specs::cmp::PartialEqSpecImpl<&str> for SemanticValue {
    open spec fn obeys_eq_spec() -> bool {
        true
    }

    open spec fn eq_spec(&self, other: &&str) -> bool {
        self matches SemanticValue::String(s) && s@ == other@
    }
}

impl PartialEq<SemanticValue> for bool {
    /// The mirror of comparing a value against a raw boolean.
    fn eq(&self, other: &SemanticValue) -> (r: bool) {
        match other {
            SemanticValue::Bool(b) => b == self,
            _ => false,
        }
    }
}

impl vstd::std_specs::cmp::PartialEqSpecImpl<SemanticValue> for bool {
    open spec fn obeys_eq_spec() -> bool {
        true
    }

    open spec fn eq_spec(&self, other: &SemanticValue) -> bool {
        other matches SemanticValue::Bool(b) && b == *self
    }
}

impl PartialEq<SemanticValue> for i32 {
    /// The mirror of comparing a value against a raw integer.
    fn eq(&self, other: &SemanticValue) -> (r: bool) {
        match other {
            SemanticValue::Int(i) => i == self,
            _ => false,
        }
    }
}

impl vstd::std_specs::cmp::PartialEqSpecImpl<SemanticValue> for i32 {
    open spec fn obeys_eq_spec() -> bool {
        true
    }

    open spec fn eq_spec(&self, other: &SemanticValue) -> bool {
        other matches SemanticValue::Int(i) && i == *self
    }
}

impl From<bool> for SemanticValue {
    fn from(source: bool) -> (r: Self) {
        SemanticValue::Bool(source)
    }
}

impl vstd::std_specs::convert::FromSpecImpl<bool> for SemanticValue {
    open spec fn obeys_from_spec() -> bool {
        true
    }

    open spec fn from_spec(source: bool) -> Self {
        SemanticValue::Bool(source)
    }
}

impl From<i32> for SemanticValue {
    fn from(source: i32) -> (r: Self) {
        SemanticValue::Int(source)
    }
}

impl vstd::std_specs::convert::FromSpecImpl<i32> for SemanticValue {
    open spec fn obeys_from_spec() -> bool {
        true
    }

    open spec fn from_spec(source: i32) -> Self {
        SemanticValue::Int(source)
    }
}

impl From<String> for SemanticValue {
    fn from(source: String) -> (r: Self) {
        SemanticValue::String(source)
    }
}

impl vstd::std_specs::convert::FromSpecImpl<String> for SemanticValue {
    open spec fn obeys_from_spec() -> bool {
        true
    }

    open spec fn from_spec(source: String) -> Self {
        SemanticValue::String(source)
    }
}

/// A tree of values that forms part of the semantic information for a
/// recognized phrase.
#[derive(Debug)]
pub struct SemanticTree {
    /// The value at the root of this tree.
    pub value: SemanticValue,
    /// The sub-trees that form this tree, in first-child order.
    pub children: Vec<SemanticTree>,
}

/// The mathematical value of a [`SemanticTree`]: a rooted tree of
/// [`SemanticValueModel`] values.
#[verifier::ext_equal]
pub struct SemanticTreeModel {
    /// The value at the root.
    pub value: SemanticValueModel,
    /// The sub-trees, in first-child order.
    pub children: Seq<SemanticTreeModel>,
}

impl SemanticTree {
    /// The mathematical tree this value represents.
    pub open spec fn model(&self) -> SemanticTreeModel
        decreases self,
    {
        SemanticTreeModel {
            value: self.value.model(),
            children: Seq::new(
                self.children@.len(),
                |i: int|
                    if 0 <= i < self.children@.len() {
                        self.children@[i].model()
                    } else {
                        arbitrary()
                    },
            ),
        }
    }

    /// Whether two trees are equal: equal root values and pairwise equal
    /// children.
    pub open spec fn spec_eq(&self, other: &SemanticTree) -> bool {
        self.model() == other.model()
    }

    /// A leaf: a value with no children.
    pub fn leaf(value: SemanticValue) -> (r: Self)
        ensures
            r.value == value,
            r.children@.len() == 0,
            r.model() == (SemanticTreeModel {
                value: value.model(),
                children: Seq::<SemanticTreeModel>::empty(),
            }),
    {
        let t = SemanticTree { value, children: Vec::new() };
        proof {
            assert(t.model().children =~= Seq::<SemanticTreeModel>::empty());
        }
        t
    }
}

impl PartialEq for SemanticTree {
    /// Trees are equal when their root values are equal and their children
    /// are pairwise equal.
    fn eq(&self, other: &SemanticTree) -> (r: bool) {
        tree_eq(self, other)
    }
}

impl vstd::std_specs::cmp::PartialEqSpecImpl for SemanticTree {
    open spec fn obeys_eq_spec() -> bool {
        true
    }

    open spec fn eq_spec(&self, other: &SemanticTree) -> bool {
        self.model() == other.model()
    }
}

fn tree_eq(a: &SemanticTree, b: &SemanticTree) -> (r: bool)
    ensures
        r == (a.model() == b.model()),
    decreases a,
{
    if !(a.value == b.value) {
        return false;
    }
    if a.children.len() != b.children.len() {
        assert(a.model().children.len() != b.model().children.len());
        return false;
    }
    let n = a.children.len();
    for i in 0..n
        invariant
            n == a.children@.len(),
            n == b.children@.len(),
            forall|j: int| 0 <= j < i ==> a.model().children[j] == b.model().children[j],
        decreases n - i,
    {
        if !tree_eq(&a.children[i], &b.children[i]) {
            assert(a.model().children[i as int] != b.model().children[i as int]);
            return false;
        }
    }
    proof {
        assert(a.model().children =~= b.model().children);
    }
    true
}

} // verus!
