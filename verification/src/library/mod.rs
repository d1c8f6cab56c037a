//! The built-in commands: their registration and their dispatch.

pub mod types;

use vstd::prelude::*;
use crate::command::{method_named, Command, CommandView, Handler};
use crate::commands::csv::{perform, perform_spec, run, run_spec, Config, ConfigView, Progress, ProgressView};
use crate::commands::csv_spec;
use crate::context::{ContextView, ExecutionContext, SenderView};
use crate::errors::{outcome, CrushResult, ErrorView};
use crate::scope::{
    after_declare_all, lemma_declare_all_keeps_flag, resolve, resolve_spec, scopes_of, Scope,
    ScopeView,
};
use crate::scope::command_not_found;
use crate::text::views_of;
use crate::value::{Value, ValueType};

verus! {

/// The built-in commands, in the order of their registration.
pub open spec fn builtins() -> Seq<CommandView> {
    types::glob::methods_spec().push(csv_spec())
}

/// Registers every built-in command in `root`, and then freezes `root`.
///
/// Where a command is refused, because `root` holds a different command
/// under its name, the registration stops there and `root` is not frozen.
pub fn declare(root: &mut Scope) -> (r: CrushResult<()>)
    requires
        !old(root)@.readonly,
    ensures
        ({
            let (registered, answer) = after_declare_all(old(root)@, builtins());
            &&& outcome(r) == answer
            &&& final(root)@ == if answer is Ok {
                ScopeView { readonly: true, ..registered }
            } else {
                registered
            }
        }),
{
    proof {
        lemma_declare_all_keeps_flag(old(root)@, types::glob::methods_spec());
        assert(builtins().drop_last() =~= types::glob::methods_spec());
        assert(builtins().last() == csv_spec());
    }
    match types::declare(root) {
        Ok(_) => {},
        Err(e) => {
            return Err(e);
        },
    }
    match crate::commands::declare(root) {
        Ok(_) => {},
        Err(e) => {
            return Err(e);
        },
    }
    root.readonly();
    Ok(())
}

/// What is left to do of a command that was invoked.
#[derive(Debug, PartialEq, Eq)]
pub enum Continuation {
    /// Nothing: the command has finished.
    Done,
    /// The output was full: the rest of the lines are still to be read.
    Csv(Config),
}

/// The mathematical content of a `Continuation`.
pub enum ContinuationView {
    Done,
    Csv(ConfigView),
}

impl View for Continuation {
    type V = ContinuationView;

    open spec fn view(&self) -> ContinuationView {
        match self {
            Continuation::Done => ContinuationView::Done,
            Continuation::Csv(cfg) => ContinuationView::Csv(cfg@),
        }
    }
}

/// The answer of a command that either finishes or fails.
pub open spec fn done(r: Result<(), ErrorView>) -> Result<ContinuationView, ErrorView> {
    match r {
        Ok(_) => Ok(ContinuationView::Done),
        Err(e) => Err(e),
    }
}

/// What the code behind `handler` does to a context, and what it answers.
pub open spec fn invoke_spec(handler: Handler, c: ContextView) -> (
    ContextView,
    Result<ContinuationView, ErrorView>,
) {
    match handler {
        Handler::GlobNew => (types::glob::new_spec(c).0, done(types::glob::new_spec(c).1)),
        Handler::GlobMatch => (
            types::glob::match_spec(c, false).0,
            done(types::glob::match_spec(c, false).1),
        ),
        Handler::GlobNotMatch => (
            types::glob::match_spec(c, true).0,
            done(types::glob::match_spec(c, true).1),
        ),
        Handler::GlobFiles => (types::glob::files_spec(c).0, done(types::glob::files_spec(c).1)),
        Handler::Csv => (
            perform_spec(c).0,
            match perform_spec(c).1 {
                Err(e) => Err(e),
                Ok(job) => match job.progress {
                    ProgressView::Finished => Ok(ContinuationView::Done),
                    ProgressView::Suspended => Ok(ContinuationView::Csv(job.config)),
                },
            },
        ),
    }
}

/// What resuming `k` does to a context, and what it answers.
pub open spec fn resume_spec(k: ContinuationView, c: ContextView) -> (
    ContextView,
    Result<ContinuationView, ErrorView>,
) {
    match k {
        ContinuationView::Done => (c, Ok(ContinuationView::Done)),
        ContinuationView::Csv(cfg) => {
            let end = run_spec(cfg, c.output.stream, c.printer);
            (
                ContextView {
                    output: SenderView { stream: end.output, ..c.output },
                    printer: end.printer,
                    ..c
                },
                match end.end {
                    Err(e) => Err(e),
                    Ok(ProgressView::Finished) => Ok(ContinuationView::Done),
                    Ok(ProgressView::Suspended) => Ok(ContinuationView::Csv(end.config)),
                },
            )
        },
    }
}

/// The answer of a command that either finishes or fails.
fn finish(r: CrushResult<()>) -> (k: CrushResult<Continuation>)
    ensures
        match k {
            Ok(k) => done(outcome(r)) == Ok::<ContinuationView, ErrorView>(k@),
            Err(e) => done(outcome(r)) == Err::<ContinuationView, ErrorView>(e@),
        },
{
    match r {
        Ok(_) => Ok(Continuation::Done),
        Err(e) => Err(e),
    }
}

/// Runs the code of `command` on `context`.
pub fn invoke(command: &Command, context: &mut ExecutionContext) -> (r: CrushResult<Continuation>)
    ensures
        final(context)@ == invoke_spec(command.handler, old(context)@).0,
        match r {
            Ok(k) => invoke_spec(command.handler, old(context)@).1 == Ok::<
                ContinuationView,
                ErrorView,
            >(k@),
            Err(e) => invoke_spec(command.handler, old(context)@).1 == Err::<
                ContinuationView,
                ErrorView,
            >(e@),
        },
{
    match command.handler {
        Handler::GlobNew => finish(types::glob::new(context)),
        Handler::GlobMatch => finish(types::glob::matches(context)),
        Handler::GlobNotMatch => finish(types::glob::not_match(context)),
        Handler::GlobFiles => finish(types::glob::files(context)),
        Handler::Csv => match perform(context) {
            Err(e) => Err(e),
            Ok(job) => match job.progress {
                Progress::Finished => Ok(Continuation::Done),
                Progress::Suspended => Ok(Continuation::Csv(job.config)),
            },
        },
    }
}

/// Takes up a command that was suspended because its output was full.
pub fn resume(k: Continuation, context: &mut ExecutionContext) -> (r: CrushResult<Continuation>)
    ensures
        final(context)@ == resume_spec(k@, old(context)@).0,
        match r {
            Ok(next) => resume_spec(k@, old(context)@).1 == Ok::<ContinuationView, ErrorView>(next@),
            Err(e) => resume_spec(k@, old(context)@).1 == Err::<ContinuationView, ErrorView>(e@),
        },
{
    match k {
        Continuation::Done => Ok(Continuation::Done),
        Continuation::Csv(cfg) => {
            let mut cfg = cfg;
            match run(&mut cfg, &mut context.output.stream, &mut context.printer) {
                Err(e) => Err(e),
                Ok(Progress::Finished) => Ok(Continuation::Done),
                Ok(Progress::Suspended) => Ok(Continuation::Csv(cfg)),
            }
        },
    }
}

/// The type whose methods a call in method style reaches: that of the
/// receiver, and the empty type where there is no receiver.
pub open spec fn receiver_type(c: ContextView) -> ValueType {
    match c.this {
        Some(v) => v.value_type(),
        None => ValueType::Empty,
    }
}

/// What calling the method `name` on the receiver of a context does, and
/// what it answers.
pub open spec fn call_method_spec(name: Seq<char>, c: ContextView) -> (
    ContextView,
    Result<ContinuationView, ErrorView>,
) {
    match method_named(types::methods_spec(receiver_type(c)), name) {
        None => (c, Err(types::method_not_found(name))),
        Some(m) => invoke_spec(m.handler, c),
    }
}

/// Calls the method `name` of the receiver of `context`: the method is looked
/// up among those of the receiver's type and run on the context.
pub fn call_method(name: &str, context: &mut ExecutionContext) -> (r: CrushResult<Continuation>)
    ensures
        final(context)@ == call_method_spec(name@, old(context)@).0,
        match r {
            Ok(k) => call_method_spec(name@, old(context)@).1 == Ok::<ContinuationView, ErrorView>(
                k@,
            ),
            Err(e) => call_method_spec(name@, old(context)@).1 == Err::<
                ContinuationView,
                ErrorView,
            >(e@),
        },
{
    let found = match &context.this {
        Some(v) => types::find_method(v, name),
        None => types::find_method(&Value::Empty, name),
    };
    match found {
        Ok(m) => invoke(&m, context),
        Err(e) => Err(e),
    }
}

/// What calling the command at `path` does, and what it answers.
pub open spec fn call_command_spec(
    scopes: Seq<ScopeView>,
    global: ScopeView,
    path: Seq<Seq<char>>,
    c: ContextView,
) -> (ContextView, Result<ContinuationView, ErrorView>) {
    match resolve_spec(scopes, global, path) {
        None => (c, Err(command_not_found())),
        Some(m) => invoke_spec(m.handler, c),
    }
}

/// Calls the command that `path` names: the command is resolved in `scopes`,
/// innermost first, then in `global`, and run on the context.
pub fn call_command<'a>(
    scopes: &Vec<Scope>,
    global: &Scope,
    path: &Vec<&'a str>,
    context: &mut ExecutionContext,
) -> (r: CrushResult<Continuation>)
    ensures
        final(context)@ == call_command_spec(
            scopes_of(scopes@),
            global@,
            views_of(path@),
            old(context)@,
        ).0,
        match r {
            Ok(k) => call_command_spec(
                scopes_of(scopes@),
                global@,
                views_of(path@),
                old(context)@,
            ).1 == Ok::<ContinuationView, ErrorView>(k@),
            Err(e) => call_command_spec(
                scopes_of(scopes@),
                global@,
                views_of(path@),
                old(context)@,
            ).1 == Err::<ContinuationView, ErrorView>(e@),
        },
{
    match resolve(scopes, global, path) {
        Ok(m) => invoke(m, context),
        Err(e) => Err(e),
    }
}

} // verus!
