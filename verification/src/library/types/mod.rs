//! The methods that values have by their type.

pub mod glob;

use vstd::prelude::*;
use crate::command::{method_named, Command, CommandView, TypeMap};
use crate::errors::{error_view, outcome, CrushError, CrushResult, ErrorKind, ErrorView};
use crate::scope::{after_declare_all, commands_of, Scope};
use crate::value::{Value, ValueType};

verus! {

/// The methods of the values of type `t`, in the order of their declaration.
pub open spec fn methods_spec(t: ValueType) -> Seq<CommandView> {
    match t {
        ValueType::Glob => glob::methods_spec(),
        _ => Seq::empty(),
    }
}

/// The error for a method that the receiver's type does not have.
pub open spec fn method_not_found(name: Seq<char>) -> ErrorView {
    error_view(ErrorKind::MethodNotFound, "Unknown method "@ + name)
}

/// The table of the methods of the values of type `t`.
pub fn methods(t: &ValueType) -> (table: TypeMap)
    ensures
        table.well_formed(),
        table@ == methods_spec(*t),
{
    match t {
        ValueType::Glob => glob::methods(),
        _ => TypeMap::new(),
    }
}

/// The method called `name` of the type of `receiver`, or a `MethodNotFound`
/// error.
pub fn find_method(receiver: &Value, name: &str) -> (r: CrushResult<Command>)
    ensures
        match r {
            Ok(c) => method_named(methods_spec(receiver@.value_type()), name@) == Some(c@),
            Err(e) => method_named(methods_spec(receiver@.value_type()), name@) is None && e@
                == method_not_found(name@),
        },
{
    let table = methods(&receiver.value_type());
    match table.get(name) {
        Some(c) => Ok(c.clone()),
        None => Err(CrushError::with_detail(ErrorKind::MethodNotFound, "Unknown method ", name)),
    }
}

/// Registers the methods of every type in `root`, each under its qualified
/// name.
pub fn declare(root: &mut Scope) -> (r: CrushResult<()>)
    requires
        !old(root)@.readonly,
    ensures
        final(root)@ == after_declare_all(old(root)@, glob::methods_spec()).0,
        outcome(r) == after_declare_all(old(root)@, glob::methods_spec()).1,
{
    let commands = glob::methods().commands();
    assert(commands_of(commands@) =~= glob::methods_spec());
    root.declare_all(commands)
}

} // verus!
