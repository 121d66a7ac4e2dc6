//! A locale identified by its numeric LCID.
//!
//! Resolving an LCID to or from a locale name is the platform's job and is
//! left to the embedding application; the library only carries the id.

use vstd::prelude::*;

verus! {

/// A locale, identified by its numeric LCID.
#[derive(Debug, PartialEq, Eq, Structural, Clone, Copy)]
pub struct Locale {
    lcid: u32,
}

impl Locale {
    /// The numeric locale id, for contracts.
    pub closed spec fn spec_lcid(&self) -> u32 {
        self.lcid
    }

    /// Wraps a numeric locale id.
    pub fn new(lcid: u32) -> (r: Self)
        ensures
            r.spec_lcid() == lcid,
    {
        Self { lcid }
    }

    /// The numeric locale id.
    pub fn lcid(&self) -> (r: u32)
        ensures
            r == self.spec_lcid(),
    {
        self.lcid
    }
}

} // verus!
