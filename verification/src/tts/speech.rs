//! The speech values a synthesizer renders: plain text or markup-encoded
//! instructions, pronunciation hints, and the clamped pitch, rate and
//! volume scales.

use vstd::prelude::*;

verus! {

/// A speech to be rendered by a synthesizer.
#[derive(Debug, Clone)]
pub enum Speech {
    /// Plain text.
    Text(String),
    /// Markup-encoded speech.
    Xml(String),
}

impl Speech {
    /// The rendered characters, plain or markup, for contracts.
    pub open spec fn spec_contents(&self) -> Seq<char> {
        match self {
            Speech::Text(s) => s@,
            Speech::Xml(s) => s@,
        }
    }

    /// Wraps plain text as a speech.
    pub fn from_text(text: &str) -> (r: Speech)
        ensures
            r matches Speech::Text(s) && s@ == text@,
    {
        Speech::Text(text.to_owned())
    }

    /// Borrows the contents: the plain text, or the markup.
    pub fn contents(&self) -> (r: &str)
        ensures
            r@ == self.spec_contents(),
    {
        match self {
            Speech::Text(s) => s.as_str(),
            Speech::Xml(s) => s.as_str(),
        }
    }

    /// Whether the contents are markup-encoded and must be parsed as such
    /// by the engine.
    pub fn is_markup(&self) -> (r: bool)
        ensures
            r == (self is Xml),
    {
        match self {
            Speech::Text(_) => false,
            Speech::Xml(_) => true,
        }
    }
}

impl From<String> for Speech {
    fn from(source: String) -> (r: Self) {
        Speech::Text(source)
    }
}

impl vstd::std_specs::convert::FromSpecImpl<String> for Speech {
    open spec fn obeys_from_spec() -> bool {
        true
    }

    open spec fn from_spec(source: String) -> Self {
        Speech::Text(source)
    }
}

/// Provides a hint about how to pronounce the associated content.
#[derive(Debug, Clone, Copy)]
pub enum SayAs<'s> {
    /// Pronounce a sequence of numbers as a month/day/year date.
    DateMDY,
    /// Pronounce a sequence of numbers as a day/month/year date.
    DateDMY,
    /// Pronounce a sequence of numbers as a year/month/day date.
    DateYMD,
    /// Pronounce a sequence of numbers as a year and month.
    DateYM,
    /// Pronounce a sequence of numbers as a month and year.
    DateMY,
    /// Pronounce a sequence of numbers as a day and month.
    DateDM,
    /// Pronounce a sequence of numbers as a month and day.
    DateMD,
    /// Pronounce a number as a year.
    DateYear,
    /// Pronounce a sequence of numbers as a time of day.
    Time,
    /// Pronounce a number as a cardinal number.
    NumberCardinal,
    /// Pronounce a number as a sequence of digits.
    NumberDigit,
    /// Pronounce a number as a fraction.
    NumberFraction,
    /// Pronounce a number as a decimal fraction.
    NumberDecimal,
    /// Pronounce a sequence of numbers as a telephone number.
    PhoneNumber,
    /// A custom pronunciation hint supported by the engine.
    Custom(&'s str),
}

impl<'s> SayAs<'s> {
    /// The hint's identifier in synthesis markup, for contracts.
    pub open spec fn spec_sapi_id(&self) -> Seq<char> {
        match self {
            SayAs::DateMDY => "date_mdy"@,
            SayAs::DateDMY => "date_dmy"@,
            SayAs::DateYMD => "date_ymd"@,
            SayAs::DateYM => "date_ym"@,
            SayAs::DateMY => "date_my"@,
            SayAs::DateDM => "date_dm"@,
            SayAs::DateMD => "date_md"@,
            SayAs::DateYear => "date_year"@,
            SayAs::Time => "time"@,
            SayAs::NumberCardinal => "number_cardinal"@,
            SayAs::NumberDigit => "number_digit"@,
            SayAs::NumberFraction => "number_fraction"@,
            SayAs::NumberDecimal => "number_decimal"@,
            SayAs::PhoneNumber => "phone_number"@,
            SayAs::Custom(s) => s@,
        }
    }

    /// The hint's identifier in synthesis markup.
    pub fn sapi_id(&self) -> (r: &str)
        ensures
            r@ == self.spec_sapi_id(),
    {
        match self {
            SayAs::DateMDY => "date_mdy",
            SayAs::DateDMY => "date_dmy",
            SayAs::DateYMD => "date_ymd",
            SayAs::DateYM => "date_ym",
            SayAs::DateMY => "date_my",
            SayAs::DateDM => "date_dm",
            SayAs::DateMD => "date_md",
            SayAs::DateYear => "date_year",
            SayAs::Time => "time",
            SayAs::NumberCardinal => "number_cardinal",
            SayAs::NumberDigit => "number_digit",
            SayAs::NumberFraction => "number_fraction",
            SayAs::NumberDecimal => "number_decimal",
            SayAs::PhoneNumber => "phone_number",
            SayAs::Custom(s) => s,
        }
    }
}

/// The clamp of a value to an inclusive interval.
pub open spec fn spec_clamp(value: int, low: int, high: int) -> int {
    if value < low {
        low
    } else if value > high {
        high
    } else {
        value
    }
}

/// Voice pitch: a value in the interval [-10, 10], with 0 being normal
/// pitch.
#[derive(Debug, PartialEq, Eq, Structural, Clone, Copy)]
pub struct Pitch {
    value: i32,
}

impl Pitch {
    /// The encapsulated value, for contracts.
    pub closed spec fn spec_value(&self) -> i32 {
        self.value
    }

    /// Clamps the given value to the interval [-10, 10] and constructs a
    /// new instance from it.
    pub fn new(value: i32) -> (r: Self)
        ensures
            r.spec_value() == spec_clamp(value as int, -10, 10),
    {
        Pitch { value: clamp_i32(value, -10, 10) }
    }

    /// Returns the value encapsulated by this instance.
    pub fn value(&self) -> (r: i32)
        ensures
            r == self.spec_value(),
    {
        self.value
    }
}

impl From<i32> for Pitch {
    fn from(source: i32) -> (r: Self) {
        Pitch::new(source)
    }
}

impl vstd::std_specs::convert::FromSpecImpl<i32> for Pitch {
    open spec fn obeys_from_spec() -> bool {
        true
    }

    closed spec fn from_spec(source: i32) -> Self {
        Pitch { value: spec_clamp(source as int, -10, 10) as i32 }
    }
}

/// Speech rate: a value in the interval [-10, 10], with 0 being normal
/// speed.
#[derive(Debug, PartialEq, Eq, Structural, Clone, Copy)]
pub struct Rate {
    value: i32,
}

impl Rate {
    /// The encapsulated value, for contracts.
    pub closed spec fn spec_value(&self) -> i32 {
        self.value
    }

    /// Clamps the given value to the interval [-10, 10] and constructs a
    /// new instance from it.
    pub fn new(value: i32) -> (r: Self)
        ensures
            r.spec_value() == spec_clamp(value as int, -10, 10),
    {
        Rate { value: clamp_i32(value, -10, 10) }
    }

    /// Returns the value encapsulated by this instance.
    pub fn value(&self) -> (r: i32)
        ensures
            r == self.spec_value(),
    {
        self.value
    }
}

impl From<i32> for Rate {
    fn from(source: i32) -> (r: Self) {
        Rate::new(source)
    }
}

impl vstd::std_specs::convert::FromSpecImpl<i32> for Rate {
    open spec fn obeys_from_spec() -> bool {
        true
    }

    closed spec fn from_spec(source: i32) -> Self {
        Rate { value: spec_clamp(source as int, -10, 10) as i32 }
    }
}

/// Voice volume: a value in the interval [0, 100], with 100 being full
/// volume.
#[derive(Debug, PartialEq, Eq, Structural, Clone, Copy)]
pub struct Volume {
    value: u32,
}

impl Volume {
    /// The encapsulated value, for contracts.
    pub closed spec fn spec_value(&self) -> u32 {
        self.value
    }

    /// The value never leaves the clamped interval.
    #[verifier::type_invariant]
    spec fn type_inv(self) -> bool {
        self.value <= 100
    }

    /// Clamps the given value to the interval [0, 100] and constructs a new
    /// instance from it.
    pub fn new(value: u32) -> (r: Self)
        ensures
            r.spec_value() == spec_clamp(value as int, 0, 100),
    {
        Volume { value: if value > 100 {
            100
        } else {
            value
        } }
    }

    /// Returns the value encapsulated by this instance.
    pub fn value(&self) -> (r: u32)
        ensures
            r == self.spec_value(),
    {
        self.value
    }

    /// Constructs a volume from the engine's 16-bit scale.
    pub fn from_sapi(source: u16) -> (r: Self)
        ensures
            r.spec_value() == spec_clamp(source as int, 0, 100),
    {
        Volume::new(source as u32)
    }

    /// The volume on the engine's 16-bit scale.
    pub fn sapi_value(&self) -> (r: u16)
        ensures
            r == self.spec_value(),
    {
        proof {
            use_type_invariant(self);
        }
        self.value as u16
    }
}

impl From<u32> for Volume {
    fn from(source: u32) -> (r: Self) {
        Volume::new(source)
    }
}

impl vstd::std_specs::convert::FromSpecImpl<u32> for Volume {
    open spec fn obeys_from_spec() -> bool {
        true
    }

    closed spec fn from_spec(source: u32) -> Self {
        Volume { value: spec_clamp(source as int, 0, 100) as u32 }
    }
}

/// Clamps a value to an inclusive interval.
fn clamp_i32(value: i32, low: i32, high: i32) -> (r: i32)
    requires
        low <= high,
    ensures
        r == spec_clamp(value as int, low as int, high as int),
{
    if value < low {
        low
    } else if value > high {
        high
    } else {
        value
    }
}

} // verus!
