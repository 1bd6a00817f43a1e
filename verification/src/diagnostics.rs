use vstd::prelude::*;
use vstd::string::*;

use crate::lexer::{spec_loc_text, LocData};

verus! {

/// How serious a diagnostic is.
#[derive(Debug, Clone, Copy, PartialEq, Eq, Structural)]
pub enum Severity {
    Warn,
    Error,
    Note,
}

/// A message about a place in the source.
#[derive(Debug, Clone)]
pub struct Diagnostic {
    pub severity: Severity,
    pub loc: LocData,
    pub msg: String,
}

/// A diagnostic as a value: its message as characters.
pub struct DiagView {
    pub severity: Severity,
    pub loc: LocData,
    pub msg: Seq<char>,
}

impl View for Diagnostic {
    type V = DiagView;

    open spec fn view(&self) -> DiagView {
        DiagView { severity: self.severity, loc: self.loc, msg: self.msg@ }
    }
}

/// The `Display` text of a severity, in terminal colours.
pub open spec fn spec_severity_text(s: Severity) -> Seq<char> {
    match s {
        Severity::Warn => "\x1b[1;93mWarn\x1b[0m"@,
        Severity::Error => "\x1b[0;91mError\x1b[0m"@,
        Severity::Note => "\x1b[1;95mNote\x1b[0m"@,
    }
}

/// The `Display` text of a diagnostic: `[line:col] severity: message`.
pub open spec fn spec_diag_text(d: DiagView) -> Seq<char> {
    "["@ + spec_loc_text(d.loc) + "] "@ + spec_severity_text(d.severity) + ": "@ + d.msg
}

impl Severity {
    pub fn text(&self) -> (r: &'static str)
        ensures
            r@ == spec_severity_text(*self),
    {
        match *self {
            Severity::Warn => "\x1b[1;93mWarn\x1b[0m",
            Severity::Error => "\x1b[0;91mError\x1b[0m",
            Severity::Note => "\x1b[1;95mNote\x1b[0m",
        }
    }
}

impl Diagnostic {
    /// The text that is shown for this diagnostic.
    pub fn to_text(&self) -> (r: String)
        ensures
            r@ == spec_diag_text(self@),
    {
        let mut s = String::new();
        s.append("[");
        self.loc.push_text(&mut s);
        s.append("] ");
        s.append(self.severity.text());
        s.append(": ");
        s.append(self.msg.as_str());
        assert(s@ =~= spec_diag_text(self@));
        s
    }
}

/// The diagnostics gathered while compiling.
#[derive(Debug)]
pub struct DiagHandler {
    pub diagnostics: Vec<Diagnostic>,
}

impl View for DiagHandler {
    type V = Seq<DiagView>;

    open spec fn view(&self) -> Seq<DiagView> {
        self.diagnostics@.map_values(|d: Diagnostic| d@)
    }
}

pub open spec fn spec_has_errors(ds: Seq<DiagView>) -> bool {
    exists|i: int| 0 <= i < ds.len() && ds[i].severity == Severity::Error
}

impl DiagHandler {
    pub fn new() -> (r: DiagHandler)
        ensures
            r@ == Seq::<DiagView>::empty(),
    {
        let r = DiagHandler { diagnostics: Vec::new() };
        assert(r@ =~= Seq::<DiagView>::empty());
        r
    }

    /// Whether any diagnostic is an error.
    pub fn has_errors(&self) -> (r: bool)
        ensures
            r == spec_has_errors(self@),
    {
        let mut i: usize = 0;
        while i < self.diagnostics.len()
            invariant
                i <= self.diagnostics.len(),
                forall|j: int| 0 <= j < i ==> self@[j].severity != Severity::Error,
            decreases self.diagnostics.len() - i,
        {
            if self.diagnostics[i].severity == Severity::Error {
                assert(self@[i as int].severity == Severity::Error);
                return true;
            }
            i = i + 1;
        }
        false
    }

    /// Appends a diagnostic.
    pub fn push(&mut self, severity: Severity, loc: LocData, msg: String)
        ensures
            final(self)@ == old(self)@.push(DiagView { severity, loc, msg: msg@ }),
    {
        self.diagnostics.push(Diagnostic { severity, loc, msg });
        assert(self@ =~= old(self)@.push(DiagView { severity, loc, msg: msg@ }));
    }

    pub fn push_err(&mut self, loc: LocData, msg: &str)
        ensures
            final(self)@ == old(self)@.push(DiagView { severity: Severity::Error, loc, msg: msg@ }),
    {
        self.push(Severity::Error, loc, msg.to_owned());
    }

    pub fn push_warn(&mut self, loc: LocData, msg: &str)
        ensures
            final(self)@ == old(self)@.push(DiagView { severity: Severity::Warn, loc, msg: msg@ }),
    {
        self.push(Severity::Warn, loc, msg.to_owned());
    }

    pub fn push_note(&mut self, loc: LocData, msg: &str)
        ensures
            final(self)@ == old(self)@.push(DiagView { severity: Severity::Note, loc, msg: msg@ }),
    {
        self.push(Severity::Note, loc, msg.to_owned());
    }
}

} // verus!
