//! Commands that bring data into a pipeline.

pub mod csv;

use vstd::prelude::*;
use crate::command::{Command, CommandView, Handler, OutputType};
use crate::errors::{outcome, CrushResult};
use crate::scope::Scope;
use crate::text::views_of;

verus! {

/// The command that reads separated values. Its columns are declared by its
/// arguments, so the type of its output is not known before it runs.
pub open spec fn csv_spec() -> CommandView {
    CommandView {
        path: seq!["global"@, "input"@, "csv"@],
        handler: Handler::Csv,
        mutates_receiver: false,
        signature: "csv [file:file] col=name:type... [head=integer] [sep=string] [trim=string]"@,
        short_help: "Parse rows of separated values"@,
        long_help: None,
        output: OutputType::Unknown,
    }
}

/// The command that reads separated values.
pub fn csv_command() -> (c: Command)
    ensures
        c@ == csv_spec(),
{
    let c = Command {
        path: vec!["global", "input", "csv"],
        handler: Handler::Csv,
        mutates_receiver: false,
        signature: "csv [file:file] col=name:type... [head=integer] [sep=string] [trim=string]",
        short_help: "Parse rows of separated values",
        long_help: None,
        output: OutputType::Unknown,
    };
    assert(views_of(c.path@) =~= csv_spec().path);
    c
}

/// Registers the commands of this module in `root`.
pub fn declare(root: &mut Scope) -> (r: CrushResult<()>)
    requires
        !old(root)@.readonly,
    ensures
        final(root)@ == old(root)@.after_declare(csv_spec()),
        outcome(r) == old(root)@.declare_result(csv_spec()),
{
    root.declare(csv_command())
}

} // verus!
