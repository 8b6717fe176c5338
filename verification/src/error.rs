//! Diagnostics.
use crate::loc::Loc;
use crate::text::{cat, push_char, u64_to_string, nat_to_dec};
use vstd::prelude::*;

verus! {

#[derive(Debug)]
pub struct Error {
    pub loc: Loc,
    pub message: String,
}

/// The model of a diagnostic: where, and what it says.
pub struct ErrM {
    pub loc: Loc,
    pub message: Seq<char>,
}

impl View for Error {
    type V = ErrM;

    open spec fn view(&self) -> ErrM {
        ErrM { loc: self.loc, message: self.message@ }
    }
}

/// The text `line:col: error: message` that a diagnostic is displayed as.
pub open spec fn spec_display(e: ErrM) -> Seq<char> {
    nat_to_dec(e.loc.line as nat) + seq![':'] + nat_to_dec(e.loc.col as nat)
        + ": error: "@ + e.message
}

impl Error {
    pub fn new(loc: Loc, message: String) -> (r: Self)
        ensures
            r.loc == loc,
            r.message@ == message@,
    {
        Self { loc, message }
    }

    /// The diagnostic as it is shown to the user: `line:col: error: message`.
    pub fn display(&self) -> (r: String)
        ensures
            r@ == spec_display(self@),
    {
        let mut s = u64_to_string(self.loc.line as u64);
        push_char(&mut s, ':');
        let c = u64_to_string(self.loc.col as u64);
        s.append(c.as_str());
        s.append(": error: ");
        s.append(self.message.as_str());
        s
    }
}

} // verus!
