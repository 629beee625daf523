//! Aggregated operation failures.
//!
//! A failing step in a composite operation (signing, parsing, random serial
//! generation) aborts the whole operation and surfaces as an `ErrorStack`:
//! an ordered stack of cause codes, the innermost cause first.

use vstd::prelude::*;

verus! {

/// The random-byte provider failed.
pub const ERR_RANDOM: u64 = 1;

/// A binary certificate or request body could not be decoded.
pub const ERR_DECODE: u64 = 2;

/// An armored text had a malformed header, footer or payload.
pub const ERR_ARMOR: u64 = 3;

/// A validity window could not be represented (timestamp out of range).
pub const ERR_TIME_RANGE: u64 = 4;

/// An ordered stack of failure causes; never empty.
#[derive(Debug)]
pub struct ErrorStack {
    codes: Vec<u64>,
}

impl View for ErrorStack {
    type V = Seq<u64>;

    closed spec fn view(&self) -> Seq<u64> {
        self.codes@
    }
}

impl ErrorStack {
    /// A stack always carries at least its innermost cause.
    pub open spec fn wf(&self) -> bool {
        self@.len() >= 1
    }

    /// Starts a stack from the innermost cause.
    pub fn from_code(code: u64) -> (r: ErrorStack)
        ensures
            r@ == seq![code],
            r.wf(),
    {
        let mut codes: Vec<u64> = Vec::new();
        codes.push(code);
        let r = ErrorStack { codes };
        proof {
            assert(r@ =~= seq![code]);
        }
        r
    }

    /// The causes, innermost first.
    pub fn codes(&self) -> (r: &Vec<u64>)
        ensures
            r@ == self@,
    {
        &self.codes
    }
}

} // verus!
