//! Compile-time diagnostics.

use vstd::prelude::*;
use crate::text::decimal;
use crate::text::push_decimal;
use crate::text::push_text;

verus! {

/// One reported compile error: the line of the offending token, where in the line it was found
/// (` at end`, ` at '<lexeme>'`, or nothing for a token the scanner could not read) and what is
/// wrong.
#[derive(Debug)]
pub struct Diagnostic {
    pub line: usize,
    pub location: String,
    pub message: String,
}

/// The mathematical content of a [`Diagnostic`].
pub struct DiagnosticView {
    pub line: usize,
    pub location: Seq<char>,
    pub message: Seq<char>,
}

impl View for Diagnostic {
    type V = DiagnosticView;

    open spec fn view(&self) -> DiagnosticView {
        DiagnosticView { line: self.line, location: self.location@, message: self.message@ }
    }
}

/// The views of a sequence of diagnostics.
pub open spec fn diagnostics_view(s: Seq<Diagnostic>) -> Seq<DiagnosticView> {
    Seq::new(s.len(), |i: int| s[i]@)
}

impl DiagnosticView {
    /// The line of text that reports the diagnostic:
    /// `[line <N>] Error<location>: <message>`.
    pub open spec fn render(self) -> Seq<char> {
        "[line "@ + decimal(self.line as nat) + "] Error"@ + self.location + ": "@ + self.message
    }
}

impl Diagnostic {
    /// The line of text that reports the diagnostic.
    pub fn render(&self) -> (r: String)
        ensures
            r@ == self@.render(),
    {
        let mut out = String::new();
        push_text(&mut out, "[line ");
        push_decimal(&mut out, self.line);
        push_text(&mut out, "] Error");
        push_text(&mut out, self.location.as_str());
        push_text(&mut out, ": ");
        push_text(&mut out, self.message.as_str());
        assert(out@ =~= self@.render());
        out
    }
}

impl Clone for Diagnostic {
    fn clone(&self) -> (r: Diagnostic)
        ensures
            r@ == self@,
    {
        Diagnostic {
            line: self.line,
            location: self.location.clone(),
            message: self.message.clone(),
        }
    }
}

} // verus!
