//! An entity denoting something interesting, odd, or suspicious about something in Thorium.

use vstd::prelude::*;

verus! {

/// How confident we are in this flag
#[derive(Debug, Clone, Copy, PartialEq, Eq, Structural)]
pub enum Confidence {
    /// This is known to be a fact
    Fact,
    /// This is more then likely true
    Likely,
    /// This may or may not be true (50/50 odds)
    Unsure,
    /// This is unlikely to be true and should be validated
    Untrusted,
}

/// A flag is a reason that something is interesting, odd, or suspicious
#[derive(Debug)]
pub struct Flag {
    /// How suspicious this flag is where higher numbers are more suspicious
    pub suspicion: isize,
    /// How confident/reliable this flag is
    pub confidence: Confidence,
    /// The interesting, odd, or suspicious characteristic
    pub content: String,
    /// The reason for this Flag
    pub reasoning: String,
}

impl Clone for Flag {
    fn clone(&self) -> (r: Flag)
        ensures
            r == *self,
    {
        Flag {
            suspicion: self.suspicion,
            confidence: self.confidence,
            content: self.content.clone(),
            reasoning: self.reasoning.clone(),
        }
    }
}

} // verus!
