//! A successfully recognized phrase: the transcript plus its semantic
//! trees, reconstructed from the engine's flat property list.

use vstd::prelude::*;

use super::property::{spec_decode_trees, tree_models, wf_properties, PhraseProperty};
use super::semantics::{SemanticTree, SemanticTreeModel};
use crate::text::str_eq;

verus! {

/// A successfully recognized phrase.
#[derive(Debug)]
pub struct Phrase {
    /// The text of the recognized phrase.
    pub text: String,
    /// The semantic information associated with the phrase.
    pub semantics: Vec<SemanticTree>,
}

impl Phrase {
    /// The phrase's mathematical content: the transcript's characters and
    /// the semantic tree models.
    pub open spec fn model(&self) -> (Seq<char>, Seq<SemanticTreeModel>) {
        (self.text@, tree_models(self.semantics@))
    }

    /// Reconstructs a phrase from a recognition result: the transcript as
    /// the engine delivered it, and the semantic trees decoded from the
    /// result's flat property list (empty list, no trees).
    pub fn from_recognition(text: String, properties: &Vec<PhraseProperty>) -> (r: Phrase)
        requires
            wf_properties(properties@),
        ensures
            r.model().0 == text@,
            properties@.len() > 0 ==> r.model().1 == spec_decode_trees(properties@, 0),
            properties@.len() == 0 ==> r.model().1 == Seq::<SemanticTreeModel>::empty(),
    {
        let semantics = super::property::decode_property_list(properties);
        proof {
            if properties@.len() == 0 {
                assert(tree_models(semantics@) =~= Seq::<SemanticTreeModel>::empty());
            }
        }
        Phrase { text, semantics }
    }
}

impl PartialEq for Phrase {
    /// Phrases are equal when their transcripts and semantic trees are.
    fn eq(&self, other: &Phrase) -> (r: bool) {
        let texts_equal = str_eq(self.text.as_str(), other.text.as_str());
        let trees_equal = self.semantics == other.semantics;
        proof {
            let a = self.semantics@;
            let b = other.semantics@;
            if a.len() == b.len() && (forall|i: int|
                0 <= i < a.len() ==> (#[trigger] a[i]).model() == b[i].model()) {
                assert(tree_models(a) =~= tree_models(b));
            }
            if tree_models(a) == tree_models(b) {
                assert(tree_models(a).len() == a.len());
                assert(tree_models(b).len() == b.len());
                assert(a.len() == b.len());
                assert forall|i: int| 0 <= i < a.len() implies (#[trigger] a[i]).model()
                    == b[i].model() by {
                    assert(tree_models(a)[i] == tree_models(b)[i]);
                }
            }
        }
        texts_equal && trees_equal
    }
}

impl vstd::std_specs::cmp::PartialEqSpecImpl for Phrase {
    open spec fn obeys_eq_spec() -> bool {
        true
    }

    open spec fn eq_spec(&self, other: &Phrase) -> bool {
        self.model() == other.model()
    }
}

} // verus!
