//! The sink for diagnostics that do not end a stage.

use vstd::prelude::*;
use crate::errors::{CrushError, ErrorView};

verus! {

/// One report made to the sink.
#[derive(Debug, PartialEq, Eq)]
pub enum Diagnostic {
    /// A free-text message.
    Message(String),
    /// A structured error.
    Error(CrushError),
}

/// The mathematical content of a `Diagnostic`.
pub enum DiagnosticView {
    Message(Seq<char>),
    Error(ErrorView),
}

impl View for Diagnostic {
    type V = DiagnosticView;

    open spec fn view(&self) -> DiagnosticView {
        match self {
            Diagnostic::Message(m) => DiagnosticView::Message(m@),
            Diagnostic::Error(e) => DiagnosticView::Error(e@),
        }
    }
}

/// The views of a sequence of diagnostics, in order.
pub open spec fn diagnostics_of(reports: Seq<Diagnostic>) -> Seq<DiagnosticView> {
    Seq::new(reports.len(), |i: int| reports[i]@)
}

/// Collects diagnostics in the order in which they were reported. Reporting
/// never fails and never waits.
#[derive(Debug, PartialEq, Eq)]
pub struct Printer {
    pub reports: Vec<Diagnostic>,
}

impl View for Printer {
    type V = Seq<DiagnosticView>;

    open spec fn view(&self) -> Seq<DiagnosticView> {
        diagnostics_of(self.reports@)
    }
}

impl Printer {
    /// A sink that holds no report.
    pub fn new() -> (p: Printer)
        ensures
            p@ == Seq::<DiagnosticView>::empty(),
    {
        let p = Printer { reports: Vec::new() };
        assert(p@ =~= Seq::<DiagnosticView>::empty());
        p
    }

    /// Reports a free-text message.
    pub fn error(&mut self, message: &str)
        ensures
            final(self)@ == old(self)@.push(DiagnosticView::Message(message@)),
    {
        self.reports.push(Diagnostic::Message(message.to_owned()));
        assert(self@ =~= old(self)@.push(DiagnosticView::Message(message@)));
    }

    /// Reports a structured error.
    pub fn job_error(&mut self, error: CrushError)
        ensures
            final(self)@ == old(self)@.push(DiagnosticView::Error(error@)),
    {
        self.reports.push(Diagnostic::Error(error));
        assert(self@ =~= old(self)@.push(DiagnosticView::Error(error@)));
    }
}

} // verus!
