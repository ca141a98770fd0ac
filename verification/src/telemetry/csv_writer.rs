//! When log files come into being.
//!
//! Nothing is on disk until the first row: a run that receives no data leaves
//! nothing behind and uses up no number.

use vstd::prelude::*;

verus! {

/// What writing a row takes.
#[derive(Clone, Copy, Debug, PartialEq, Eq, Structural)]
pub enum RowStep {
    /// The file is to be created, with its header, and the row behind it.
    Create,
    /// The row is appended.
    Append,
}

/// What follows from the attempt to create a file.
#[derive(Clone, Copy, Debug, PartialEq, Eq, Structural)]
pub struct Created {
    /// The row is written.
    pub write_row: bool,
    /// The failure is reported: once, not with every row.
    pub report_failure: bool,
}

/// The life of one log file.
#[derive(Clone, Copy, Debug, PartialEq, Eq, Structural)]
pub struct CsvLogger {
    pub open: bool,
    pub warned: bool,
}

impl CsvLogger {
    pub fn new() -> (l: Self)
        ensures
            l == (CsvLogger { open: false, warned: false }),
    {
        CsvLogger { open: false, warned: false }
    }

    /// What the next row takes.
    pub open spec fn next_row(self) -> RowStep {
        if self.open {
            RowStep::Append
        } else {
            RowStep::Create
        }
    }

    /// What follows from an attempt to create the file.
    pub open spec fn outcome(self, ok: bool) -> Created {
        Created { write_row: ok, report_failure: !ok && !self.warned }
    }

    /// The logger after an attempt to create the file.
    pub open spec fn tried(self, ok: bool) -> CsvLogger {
        CsvLogger { open: ok || self.open, warned: self.warned || !ok }
    }

    /// What the next row takes.
    pub fn log(&self) -> (s: RowStep)
        ensures
            s == self.next_row(),
    {
        if self.open {
            RowStep::Append
        } else {
            RowStep::Create
        }
    }

    /// Take in whether the file could be created. If not, the row is dropped,
    /// and the next one tries again.
    pub fn on_create(&mut self, ok: bool) -> (c: Created)
        ensures
            c == old(self).outcome(ok),
            *final(self) == old(self).tried(ok),
    {
        if ok {
            self.open = true;
            Created { write_row: true, report_failure: false }
        } else {
            let first: bool = !self.warned;
            self.warned = true;
            Created { write_row: false, report_failure: first }
        }
    }
}

/// A file is created with the first row that succeeds, and rows are appended
/// from then on. A failure drops its row, is reported once, and the next row
/// tries again.
pub proof fn law_files_are_created_once(l: CsvLogger, later: bool)
    ensures
        l.tried(true).next_row() is Append,
        l.tried(true).tried(later).next_row() is Append,
        l.tried(false).next_row() == l.next_row(),
        l.outcome(true).write_row && !l.outcome(true).report_failure,
        !l.outcome(false).write_row,
        l.outcome(false).report_failure <==> !l.warned,
        !l.tried(false).outcome(later).report_failure,
        l.tried(true).warned == l.warned,
{
}

} // verus!
