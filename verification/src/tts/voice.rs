//! Voice selection: the attributes a voice can be required to have, and
//! the selection expression the engine is queried with.
//!
//! Enumerating the voices installed on a system is the engine's job; the
//! library builds the selection expressions such a query takes.

use vstd::prelude::*;

verus! {

/// Specifies the age of a voice.
#[derive(Debug, PartialEq, Eq, Structural, Clone, Copy)]
#[allow(missing_docs)]
pub enum VoiceAge {
    Adult,
    Child,
    Senior,
    Teen,
}

impl VoiceAge {
    /// The age's attribute value in a selection expression, for contracts.
    pub open spec fn spec_str(&self) -> Seq<char> {
        match self {
            VoiceAge::Adult => "Adult"@,
            VoiceAge::Child => "Child"@,
            VoiceAge::Senior => "Senior"@,
            VoiceAge::Teen => "Teen"@,
        }
    }

    /// The age's attribute value in a selection expression.
    pub fn as_str(&self) -> (r: &'static str)
        ensures
            r@ == self.spec_str(),
    {
        match self {
            VoiceAge::Adult => "Adult",
            VoiceAge::Child => "Child",
            VoiceAge::Senior => "Senior",
            VoiceAge::Teen => "Teen",
        }
    }
}

/// Specifies the gender of a voice.
#[derive(Debug, PartialEq, Eq, Structural, Clone, Copy)]
#[allow(missing_docs)]
pub enum VoiceGender {
    Female,
    Male,
    Neutral,
}

impl VoiceGender {
    /// The gender's attribute value in a selection expression, for
    /// contracts.
    pub open spec fn spec_str(&self) -> Seq<char> {
        match self {
            VoiceGender::Female => "Female"@,
            VoiceGender::Male => "Male"@,
            VoiceGender::Neutral => "Neutral"@,
        }
    }

    /// The gender's attribute value in a selection expression.
    pub fn as_str(&self) -> (r: &'static str)
        ensures
            r@ == self.spec_str(),
    {
        match self {
            VoiceGender::Female => "Female",
            VoiceGender::Male => "Male",
            VoiceGender::Neutral => "Neutral",
        }
    }
}

/// A voice installed on the system, as the library models it: the
/// attributes the engine reports for the voice's token. Attributes the
/// token does not carry are `None`.
#[derive(Debug)]
pub struct Voice {
    /// The voice's name.
    pub name: Option<String>,
    /// The voice's age group.
    pub age: Option<VoiceAge>,
    /// The voice's gender.
    pub gender: Option<VoiceGender>,
    /// The voice's language, as the engine reports it.
    pub language: Option<String>,
}

/// The selection expression extended by one condition: a semicolon before
/// it when conditions precede it, then the attribute comparison itself.
pub open spec fn appended_condition(prev: Seq<char>, prefix: Seq<char>, val: Seq<char>) -> Seq<
    char,
> {
    if prev.len() == 0 {
        prefix + val
    } else {
        prev + ";"@ + prefix + val
    }
}

/// Encapsulates the criteria for selecting a voice.
///
/// Each call adds one condition; the engine receives all of them joined by
/// semicolons.
#[derive(Debug)]
pub struct VoiceSelector {
    sapi_expr: String,
}

impl VoiceSelector {
    /// The selection expression built so far, for contracts.
    pub closed spec fn spec_expr(&self) -> Seq<char> {
        self.sapi_expr@
    }

    /// Creates a new, empty selector.
    pub fn new() -> (r: Self)
        ensures
            r.spec_expr() == Seq::<char>::empty(),
    {
        let r = VoiceSelector { sapi_expr: String::new() };
        r
    }

    /// Returns a selector that adds the given attribute condition to all
    /// the previously specified conditions.
    pub fn append_condition(self, prefix: &str, val: &str) -> (r: Self)
        ensures
            r.spec_expr() == appended_condition(self.spec_expr(), prefix@, val@),
    {
        let mut expr = self.sapi_expr;
        if !expr.as_str().is_empty() {
            expr.append(";");
        }
        expr.append(prefix);
        expr.append(val);
        proof {
            assert(expr@ =~= appended_condition(self.spec_expr(), prefix@, val@));
        }
        VoiceSelector { sapi_expr: expr }
    }

    /// Requires the voice to have the given name, along with all the
    /// previously specified conditions.
    pub fn name_eq(self, name: &str) -> (r: Self)
        ensures
            r.spec_expr() == appended_condition(self.spec_expr(), "name="@, name@),
    {
        self.append_condition("name=", name)
    }

    /// Requires the voice to have a name different from the one given here,
    /// along with all the previously specified conditions.
    pub fn name_ne(self, name: &str) -> (r: Self)
        ensures
            r.spec_expr() == appended_condition(self.spec_expr(), "name!="@, name@),
    {
        self.append_condition("name!=", name)
    }

    /// Requires the voice to have the given age, along with all the
    /// previously specified conditions.
    pub fn age_eq(self, age: VoiceAge) -> (r: Self)
        ensures
            r.spec_expr() == appended_condition(self.spec_expr(), "age="@, age.spec_str()),
    {
        self.append_condition("age=", age.as_str())
    }

    /// Requires the voice to have an age different from the one given here,
    /// along with all the previously specified conditions.
    pub fn age_ne(self, age: VoiceAge) -> (r: Self)
        ensures
            r.spec_expr() == appended_condition(self.spec_expr(), "age!="@, age.spec_str()),
    {
        self.append_condition("age!=", age.as_str())
    }

    /// Requires the voice to have the given gender, along with all the
    /// previously specified conditions.
    pub fn gender_eq(self, gender: VoiceGender) -> (r: Self)
        ensures
            r.spec_expr() == appended_condition(self.spec_expr(), "gender="@, gender.spec_str()),
    {
        self.append_condition("gender=", gender.as_str())
    }

    /// Requires the voice to have a gender different from the one given
    /// here, along with all the previously specified conditions.
    pub fn gender_ne(self, gender: VoiceGender) -> (r: Self)
        ensures
            r.spec_expr() == appended_condition(self.spec_expr(), "gender!="@, gender.spec_str()),
    {
        self.append_condition("gender!=", gender.as_str())
    }

    /// Requires the voice to have the given language, along with all the
    /// previously specified conditions.
    pub fn language_eq(self, language: &str) -> (r: Self)
        ensures
            r.spec_expr() == appended_condition(self.spec_expr(), "language="@, language@),
    {
        self.append_condition("language=", language)
    }

    /// Requires the voice to have a language different from the one given
    /// here, along with all the previously specified conditions.
    pub fn language_ne(self, language: &str) -> (r: Self)
        ensures
            r.spec_expr() == appended_condition(self.spec_expr(), "language!="@, language@),
    {
        self.append_condition("language!=", language)
    }

    /// Consumes the selector and returns the built selection expression.
    pub fn into_sapi_expr(self) -> (r: String)
        ensures
            r@ == self.spec_expr(),
    {
        self.sapi_expr
    }
}

/// The query for installed voices that satisfy the given criteria: the
/// required and the optional selection expression, as the engine's token
/// enumerator takes them. All returned voices satisfy the required
/// criteria; those satisfying the optional criteria come first.
pub fn installed_voice_query(required: Option<VoiceSelector>, optional: Option<VoiceSelector>) -> (r:
    (Option<String>, Option<String>))
    ensures
        match (r.0, required) {
            (Some(e), Some(sel)) => e@ == sel.spec_expr(),
            (None, None) => true,
            _ => false,
        },
        match (r.1, optional) {
            (Some(e), Some(sel)) => e@ == sel.spec_expr(),
            (None, None) => true,
            _ => false,
        },
{
    let req = match required {
        Some(sel) => Some(sel.into_sapi_expr()),
        None => None,
    };
    let opt = match optional {
        Some(sel) => Some(sel.into_sapi_expr()),
        None => None,
    };
    (req, opt)
}

} // verus!
