//! The engine-native property representation of semantic values, and the
//! reconstruction of semantic trees from a recognition result's flat
//! property list.
//!
//! A semantic value crosses the engine boundary as a property: an optional
//! string pointer plus a small discriminated numeric union (a variant tag
//! and raw payload bits). A recognition result carries a flat list of such
//! properties linked by first-child and next-sibling indices; decoding
//! inverts the compiler's semantic tagging back into a tree shaped like the
//! grammar's nesting.

use vstd::prelude::*;

use super::semantics::{SemanticTree, SemanticTreeModel, SemanticValue, SemanticValueModel};

verus! {

/// Variant tag of a property union that carries no value (used when the
/// value travels as a string instead).
pub const TAG_EMPTY: u16 = 0;

/// Variant tag of a 32-bit signed integer payload.
pub const TAG_INT: u16 = 3;

/// Variant tag of a single-precision float payload.
pub const TAG_FLOAT: u16 = 4;

/// Variant tag of a double-precision float payload.
pub const TAG_DOUBLE: u16 = 5;

/// Variant tag of a boolean payload (a 16-bit integer: zero is false,
/// anything else is true).
pub const TAG_BOOL: u16 = 11;

/// A semantic value in its engine-native shape: an optional string and a
/// discriminated numeric union given as a variant tag plus raw payload bits.
///
/// The payload holds the union's bits right-aligned: the low 16 bits for a
/// boolean, the low 32 bits for an integer or a single-precision float, all
/// 64 for a double.
#[derive(Debug, Clone)]
pub struct PropertyDescriptor {
    /// The string value, when the value is carried as text.
    pub text: Option<String>,
    /// The union's variant tag.
    pub tag: u16,
    /// The union's raw bits.
    pub payload: u64,
}

impl SemanticValue {
    /// The engine-native descriptor this value encodes to, for contracts.
    pub open spec fn spec_encode(&self) -> (Option<Seq<char>>, u16, u64) {
        match self {
            SemanticValue::Bool(b) => (None, TAG_BOOL, if *b { 0xffffu64 } else { 0u64 }),
            SemanticValue::Int(i) => (None, TAG_INT, (*i as u32) as u64),
            SemanticValue::Float(f) => (None, TAG_FLOAT, *f as u64),
            SemanticValue::Double(d) => (None, TAG_DOUBLE, *d),
            SemanticValue::String(s) => (Some(s@), TAG_EMPTY, 0u64),
        }
    }

    /// Encodes the value into its engine-native descriptor: a string travels
    /// as text with an empty union; every other variant travels as the
    /// matching union variant. A boolean is encoded as the 16-bit integer
    /// convention uses: all ones for true, zero for false.
    pub fn encode(&self) -> (d: PropertyDescriptor)
        ensures
            d.model() == self.spec_encode(),
    {
        match self {
            SemanticValue::Bool(b) => PropertyDescriptor {
                text: None,
                tag: TAG_BOOL,
                payload: if *b {
                    0xffff
                } else {
                    0
                },
            },
            SemanticValue::Int(i) => PropertyDescriptor {
                text: None,
                tag: TAG_INT,
                payload: (*i as u32) as u64,
            },
            SemanticValue::Float(f) => PropertyDescriptor {
                text: None,
                tag: TAG_FLOAT,
                payload: *f as u64,
            },
            SemanticValue::Double(d) => PropertyDescriptor { text: None, tag: TAG_DOUBLE, payload: *d },
            SemanticValue::String(s) => PropertyDescriptor {
                text: Some(s.clone()),
                tag: TAG_EMPTY,
                payload: 0,
            },
        }
    }
}

impl PropertyDescriptor {
    /// The descriptor's mathematical content: the text as a character
    /// sequence, the tag and the payload bits.
    pub open spec fn model(&self) -> (Option<Seq<char>>, u16, u64) {
        (
            match &self.text {
                Some(s) => Some(s@),
                None => None,
            },
            self.tag,
            self.payload,
        )
    }
}

/// The value a descriptor decodes to, for contracts. A present string wins
/// over the union; otherwise the union's tag selects the variant, and an
/// unrecognized tag is reported as the error.
pub open spec fn spec_decode_value(text: Option<Seq<char>>, tag: u16, payload: u64) -> Result<
    SemanticValueModel,
    u16,
> {
    match text {
        Some(s) => Ok(SemanticValueModel::Str(s)),
        None => if tag == TAG_BOOL {
            Ok(SemanticValueModel::Bool((payload & 0xffff) != 0))
        } else if tag == TAG_INT {
            Ok(SemanticValueModel::Int((payload & 0xffff_ffff) as u32 as i32))
        } else if tag == TAG_FLOAT {
            Ok(SemanticValueModel::Float((payload & 0xffff_ffff) as u32))
        } else if tag == TAG_DOUBLE {
            Ok(SemanticValueModel::Double(payload))
        } else {
            Err(tag)
        },
    }
}

/// Decodes an engine-native descriptor back into a semantic value. A
/// present string wins over the union; an unrecognized variant tag is
/// returned as the error.
pub fn decode_value(d: &PropertyDescriptor) -> (r: Result<SemanticValue, u16>)
    ensures
        match r {
            Ok(v) => spec_decode_value(d.model().0, d.model().1, d.model().2) == Ok::<
                SemanticValueModel,
                u16,
            >(v.model()),
            Err(t) => spec_decode_value(d.model().0, d.model().1, d.model().2) == Err::<
                SemanticValueModel,
                u16,
            >(t),
        },
{
    match &d.text {
        Some(s) => Ok(SemanticValue::String(s.clone())),
        None => {
            if d.tag == TAG_BOOL {
                Ok(SemanticValue::Bool((d.payload & 0xffff) != 0))
            } else if d.tag == TAG_INT {
                Ok(SemanticValue::Int((d.payload & 0xffff_ffff) as u32 as i32))
            } else if d.tag == TAG_FLOAT {
                Ok(SemanticValue::Float((d.payload & 0xffff_ffff) as u32))
            } else if d.tag == TAG_DOUBLE {
                Ok(SemanticValue::Double(d.payload))
            } else {
                Err(d.tag)
            }
        },
    }
}

/// A value attached to a semantic rule reconstructs to the same value: the
/// engine-native encoding loses nothing, for any variant.
pub proof fn lemma_value_round_trip(v: SemanticValue)
    ensures
        spec_decode_value(v.spec_encode().0, v.spec_encode().1, v.spec_encode().2) == Ok::<
            SemanticValueModel,
            u16,
        >(v.model()),
{
    match v {
        SemanticValue::Bool(b) => {
            if b {
                assert((0xffffu64 & 0xffff) != 0) by (bit_vector);
            } else {
                assert((0u64 & 0xffff) == 0) by (bit_vector);
            }
        },
        SemanticValue::Int(i) => {
            let p = (i as u32) as u64;
            assert(((p & 0xffff_ffff) as u32 as i32) == i) by (bit_vector)
                requires
                    p == (i as u32) as u64,
            ;
        },
        SemanticValue::Float(f) => {
            let p = f as u64;
            assert(((p & 0xffff_ffff) as u32) == f) by (bit_vector)
                requires
                    p == f as u64,
            ;
        },
        SemanticValue::Double(_) => {},
        SemanticValue::String(_) => {},
    }
}

/// One node of a recognition result's flat semantic property list: the
/// value in its engine-native shape, plus first-child and next-sibling
/// links given as indices into the same list.
#[derive(Debug, Clone)]
pub struct PhraseProperty {
    /// The node's value.
    pub value: PropertyDescriptor,
    /// Index of the node's first child, if any.
    pub first_child: Option<usize>,
    /// Index of the node's next sibling, if any.
    pub next_sibling: Option<usize>,
}

/// Well-formedness of a flat property list: every link points forward, to a
/// node later in the list. The engine lays nodes out in one block, parents
/// and earlier siblings first, so decoded links always move forward; this
/// is also what makes decoding terminate.
pub open spec fn wf_properties(props: Seq<PhraseProperty>) -> bool {
    forall|i: int|
        0 <= i < props.len() ==> {
            &&& (#[trigger] props[i].first_child matches Some(c) ==> i < c < props.len())
            &&& (props[i].next_sibling matches Some(n) ==> i < n < props.len())
        }
}

/// A link, restricted to the forward, in-range links that decoding follows;
/// on a well-formed list this is the link itself.
pub open spec fn forward_link(props: Seq<PhraseProperty>, i: int, link: Option<usize>) -> Option<
    usize,
> {
    match link {
        Some(j) => if i < j < props.len() {
            Some(j)
        } else {
            None
        },
        None => None,
    }
}

/// The sequence of sibling trees decoded from the node at `i` onward, for
/// contracts. A node whose value has an unrecognized variant tag is
/// dropped, its siblings kept: the lenient-decode policy.
pub open spec fn spec_decode_trees(props: Seq<PhraseProperty>, i: int) -> Seq<SemanticTreeModel>
    decreases props.len() - i,
{
    if 0 <= i < props.len() {
        let children = match forward_link(props, i, props[i].first_child) {
            Some(c) => spec_decode_trees(props, c as int),
            None => Seq::empty(),
        };
        let siblings = match forward_link(props, i, props[i].next_sibling) {
            Some(n) => spec_decode_trees(props, n as int),
            None => Seq::empty(),
        };
        match spec_decode_value(
            props[i].value.model().0,
            props[i].value.model().1,
            props[i].value.model().2,
        ) {
            Ok(v) => seq![SemanticTreeModel { value: v, children }] + siblings,
            Err(_) => siblings,
        }
    } else {
        Seq::empty()
    }
}

/// Lenient decode: a node whose value carries an unrecognized variant tag
/// contributes nothing; its siblings decode as if the node were not there,
/// in their original order.
pub proof fn lemma_lenient_decode(props: Seq<PhraseProperty>, i: int)
    requires
        0 <= i < props.len(),
        spec_decode_value(
            props[i].value.model().0,
            props[i].value.model().1,
            props[i].value.model().2,
        ) is Err,
    ensures
        spec_decode_trees(props, i) == (match forward_link(props, i, props[i].next_sibling) {
            Some(n) => spec_decode_trees(props, n as int),
            None => Seq::<SemanticTreeModel>::empty(),
        }),
{
}

/// The mathematical trees of a sequence of semantic trees.
pub open spec fn tree_models(trees: Seq<SemanticTree>) -> Seq<SemanticTreeModel> {
    trees.map_values(|t: SemanticTree| t.model())
}

/// Checks a flat property list for well-formedness, so unverified callers
/// can validate what an engine delivered before decoding it.
pub fn check_properties(props: &Vec<PhraseProperty>) -> (r: bool)
    ensures
        r == wf_properties(props@),
{
    let n = props.len();
    for i in 0..n
        invariant
            n == props@.len(),
            forall|j: int|
                0 <= j < i ==> {
                    &&& (#[trigger] props@[j].first_child matches Some(c) ==> j < c < props@.len())
                    &&& (props@[j].next_sibling matches Some(s) ==> j < s < props@.len())
                },
        decreases n - i,
    {
        match props[i].first_child {
            Some(c) => {
                if c <= i || c >= n {
                    return false;
                }
            },
            None => {},
        }
        match props[i].next_sibling {
            Some(s) => {
                if s <= i || s >= n {
                    return false;
                }
            },
            None => {},
        }
    }
    true
}

/// Decodes the sibling chain starting at index `start` of a recognition
/// result's flat property list into semantic trees, one tree per sibling,
/// each holding its children in first-child order. A node with an
/// unrecognized variant tag is skipped; its siblings are kept.
pub fn decode_trees(props: &Vec<PhraseProperty>, start: usize) -> (r: Vec<SemanticTree>)
    requires
        wf_properties(props@),
        start < props@.len(),
    ensures
        tree_models(r@) == spec_decode_trees(props@, start as int),
    decreases props@.len() - start,
{
    let children: Vec<SemanticTree> = match props[start].first_child {
        Some(c) => decode_trees(props, c),
        None => Vec::new(),
    };
    let mut siblings: Vec<SemanticTree> = match props[start].next_sibling {
        Some(n) => decode_trees(props, n),
        None => Vec::new(),
    };
    proof {
        assert(tree_models(Seq::<SemanticTree>::empty()) =~= Seq::<SemanticTreeModel>::empty());
    }
    match decode_value(&props[start].value) {
        Ok(v) => {
            let ghost children_snapshot = children@;
            let tree = SemanticTree { value: v, children };
            proof {
                assert(tree.model().children =~= tree_models(children_snapshot));
            }
            let mut result: Vec<SemanticTree> = Vec::new();
            result.push(tree);
            result.append(&mut siblings);
            proof {
                assert(tree_models(result@) =~= spec_decode_trees(props@, start as int));
            }
            result
        },
        Err(_) => {
            proof {
                assert(tree_models(siblings@) =~= spec_decode_trees(props@, start as int));
            }
            siblings
        },
    }
}

/// Decodes a whole flat property list, starting at its root node if it has
/// one: the empty list decodes to no trees.
pub fn decode_property_list(props: &Vec<PhraseProperty>) -> (r: Vec<SemanticTree>)
    requires
        wf_properties(props@),
    ensures
        props@.len() > 0 ==> tree_models(r@) == spec_decode_trees(props@, 0),
        props@.len() == 0 ==> r@.len() == 0,
{
    if props.len() == 0 {
        Vec::new()
    } else {
        decode_trees(props, 0)
    }
}

} // verus!
