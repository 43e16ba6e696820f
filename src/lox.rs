use vstd::prelude::*;
use crate::scanner::{
    error_line, error_message, scan_all, scan_result, token_views, ScanErrorView, ScannerError,
};
use crate::text::{decimal, decimal_text};
use crate::token::Token;

verus! {

/// The report line for an error at `line` with text `message`.
pub open spec fn report_text(line: nat, message: Seq<char>) -> Seq<char> {
    "[line "@ + decimal_text(line) + "] Error: "@ + message
}

/// The report line for a lexical error.
pub open spec fn scan_report(e: ScanErrorView) -> Seq<char> {
    report_text(error_line(e), error_message(e))
}

/// A session: it remembers whether an error was reported.
pub struct Lox {
    had_error: bool,
}

impl Lox {
    pub fn new() -> (r: Lox)
        ensures
            !r.had_error(),
    {
        Lox { had_error: false }
    }

    /// Whether an error was reported since the last reset.
    pub closed spec fn had_error(&self) -> bool {
        self.had_error
    }

    /// Whether an error was reported since the last reset.
    pub fn has_error(&self) -> (r: bool)
        ensures
            r == self.had_error(),
    {
        self.had_error
    }

    /// Forgets reported errors, as between two lines of an interactive session.
    pub fn reset(&mut self)
        ensures
            !final(self).had_error(),
    {
        self.had_error = false;
    }

    /// Records an error at `line`, and returns its report line.
    pub fn report(&mut self, line: usize, message: String) -> (r: String)
        ensures
            final(self).had_error(),
            r@ == report_text(line as nat, message@),
    {
        self.had_error = true;
        let mut out = String::from_str("[line ");
        out.append(decimal(line).as_str());
        out.append("] Error: ");
        out.append(message.as_str());
        out
    }

    /// Scans `source`. Without a lexical error: its tokens, and no report.
    /// Otherwise: no tokens, the report line of each error in source order,
    /// and the error is recorded.
    pub fn run(&mut self, source: &str) -> (r: (Vec<Token>, Vec<String>))
        requires
            source@.len() < usize::MAX,
        ensures
            match scan_result(source@) {
                Ok(ts) => token_views(r.0@) == ts && r.1@.len() == 0 && final(self).had_error()
                    == old(self).had_error(),
                Err(es) => r.0@.len() == 0 && r.1@.len() == es.len() && (forall|i: int|
                    0 <= i < es.len() ==> (#[trigger] r.1@[i])@ == scan_report(es[i]))
                    && final(self).had_error(),
            },
    {
        match scan_all(source) {
            Ok(tokens) => (tokens, Vec::new()),
            Err(errors) => {
                let mut reports: Vec<String> = Vec::new();
                let mut i: usize = 0;
                self.had_error = true;
                while i < errors.len()
                    invariant
                        i <= errors@.len(),
                        self.had_error,
                        reports@.len() == i,
                        forall|j: int|
                            0 <= j < i ==> (#[trigger] reports@[j])@ == scan_report(errors@[j]@),
                    decreases errors@.len() - i,
                {
                    let report = self.report(errors[i].line(), errors[i].message());
                    reports.push(report);
                    i = i + 1;
                }
                (Vec::new(), reports)
            },
        }
    }
}

} // verus!
