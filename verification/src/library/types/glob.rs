//! The methods of glob values.

use vstd::prelude::*;
use crate::command::{method_named, CommandView, Handler, OutputType, TypeMap};
use crate::context::{
    glob_files, glob_of, paths_of, string_at, ArgumentVector, ContextView, ExecutionContext, This,
};
use crate::errors::{outcome, CrushResult, ErrorView};
use crate::glob::{glob_match, matching, Glob};
use crate::text::views_of;
use crate::value::{texts_of, Value, ValueType, ValueView};

verus! {

/// The qualified name of the method `name`.
pub open spec fn full_spec(name: Seq<char>) -> Seq<Seq<char>> {
    seq!["global"@, "types"@, "glob"@, name]
}

/// The qualified name of the method `name`.
pub fn full(name: &'static str) -> (path: Vec<&'static str>)
    ensures
        views_of(path@) == full_spec(name@),
        path@.len() == 4,
        path@.last()@ == name@,
{
    let path = vec!["global", "types", "glob", name];
    assert(views_of(path@) =~= full_spec(name@));
    path
}

/// The methods of glob values, in the order of their declaration.
pub open spec fn methods_spec() -> Seq<CommandView> {
    seq![
        CommandView {
            path: full_spec("new"@),
            handler: Handler::GlobNew,
            mutates_receiver: false,
            signature: "glob:new pattern:string"@,
            short_help: "Return a new glob"@,
            long_help: None,
            output: OutputType::Known(ValueType::Glob),
        },
        CommandView {
            path: full_spec("match"@),
            handler: Handler::GlobMatch,
            mutates_receiver: false,
            signature: "glob:match io:string"@,
            short_help: "True if the io matches the pattern"@,
            long_help: None,
            output: OutputType::Known(ValueType::Bool),
        },
        CommandView {
            path: full_spec("not_match"@),
            handler: Handler::GlobNotMatch,
            mutates_receiver: false,
            signature: "glob:not_match io:string"@,
            short_help: "True if the io does not match the pattern"@,
            long_help: None,
            output: OutputType::Known(ValueType::Bool),
        },
        CommandView {
            path: full_spec("files"@),
            handler: Handler::GlobFiles,
            mutates_receiver: false,
            signature: "glob:files"@,
            short_help: "Perform file matching of this glob"@,
            long_help: None,
            output: OutputType::Known(ValueType::List(Box::new(ValueType::File))),
        },
    ]
}

/// The four method names differ from one another.
proof fn lemma_names_differ()
    ensures
        "new"@ != "match"@,
        "new"@ != "not_match"@,
        "new"@ != "files"@,
        "match"@ != "not_match"@,
        "match"@ != "files"@,
        "not_match"@ != "files"@,
{
    reveal_strlit("new");
    reveal_strlit("match");
    reveal_strlit("not_match");
    reveal_strlit("files");
    assert("new"@.len() == 3 && "match"@.len() == 5 && "not_match"@.len() == 9 && "files"@.len()
        == 5);
    assert("match"@[0] == 'm' && "files"@[0] == 'f');
}

/// No method of `methods` up to position `k` is called `name`.
proof fn lemma_not_declared(methods: Seq<CommandView>, name: Seq<char>)
    requires
        forall|i: int| 0 <= i < methods.len() ==> (#[trigger] methods[i]).path.len() > 0 && methods[i].path.last() != name,
    ensures
        method_named(methods, name) is None,
    decreases methods.len(),
{
    if methods.len() > 0 {
        assert(methods[0].path.last() != name);
        assert forall|i: int| 0 <= i < methods.drop_first().len() implies (#[trigger] methods.drop_first()[i]).path.len() > 0
            && methods.drop_first()[i].path.last() != name by {
            assert(methods.drop_first()[i] == methods[i + 1]);
        }
        lemma_not_declared(methods.drop_first(), name);
    }
}

/// The table of the methods of glob values.
pub fn methods() -> (res: TypeMap)
    ensures
        res.well_formed(),
        res@ == methods_spec(),
{
    let mut res = TypeMap::new();
    proof {
        lemma_names_differ();
        lemma_not_declared(res@, "new"@);
    }
    let _ = res.declare(
        full("new"),
        Handler::GlobNew,
        false,
        "glob:new pattern:string",
        "Return a new glob",
        None,
        OutputType::Known(ValueType::Glob),
    );
    proof {
        assert(res@[0].path == full_spec("new"@));
        lemma_not_declared(res@, "match"@);
    }
    let _ = res.declare(
        full("match"),
        Handler::GlobMatch,
        false,
        "glob:match io:string",
        "True if the io matches the pattern",
        None,
        OutputType::Known(ValueType::Bool),
    );
    proof {
        assert(res@[1].path == full_spec("match"@));
        lemma_not_declared(res@, "not_match"@);
    }
    let _ = res.declare(
        full("not_match"),
        Handler::GlobNotMatch,
        false,
        "glob:not_match io:string",
        "True if the io does not match the pattern",
        None,
        OutputType::Known(ValueType::Bool),
    );
    proof {
        assert(res@[2].path == full_spec("not_match"@));
        lemma_not_declared(res@, "files"@);
    }
    let _ = res.declare(
        full("files"),
        Handler::GlobFiles,
        false,
        "glob:files",
        "Perform file matching of this glob",
        None,
        OutputType::Known(ValueType::List(Box::new(ValueType::File))),
    );
    assert(res@ =~= methods_spec());
    res
}

/// What `new` does: the first argument, a text, is sent on as a glob.
pub open spec fn new_spec(c: ContextView) -> (ContextView, Result<(), ErrorView>) {
    match string_at(c.arguments, 0) {
        Err(e) => (c, Err(e)),
        Ok(def) => (
            ContextView { output: c.output.after_send(ValueView::Glob(def)), ..c },
            c.output.claim_result(),
        ),
    }
}

/// What `match` does, and `not_match` with `negate` set: whether the
/// receiver, a glob, matches the first argument, a text, is sent on.
pub open spec fn match_spec(c: ContextView, negate: bool) -> (ContextView, Result<(), ErrorView>) {
    match glob_of(c.this) {
        Err(e) => (c, Err(e)),
        Ok(pattern) => match string_at(c.arguments, 0) {
            Err(e) => (c, Err(e)),
            Ok(needle) => (
                ContextView {
                    output: c.output.after_send(
                        ValueView::Bool(glob_match(pattern, needle) != negate),
                    ),
                    ..c
                },
                c.output.claim_result(),
            ),
        },
    }
}

/// The file values of `paths`, in order.
pub open spec fn file_values(paths: Seq<Seq<char>>) -> Seq<ValueView> {
    Seq::new(paths.len(), |i: int| ValueView::File(paths[i]))
}

/// What `files` does: the files of the host that the receiver, a glob,
/// matches are sent on as a list.
pub open spec fn files_spec(c: ContextView) -> (ContextView, Result<(), ErrorView>) {
    match glob_of(c.this) {
        Err(e) => (c, Err(e)),
        Ok(pattern) => (
            ContextView {
                output: c.output.after_send(
                    ValueView::List(
                        ValueType::File,
                        file_values(matching(pattern, paths_of(c.files))),
                    ),
                ),
                ..c
            },
            c.output.claim_result(),
        ),
    }
}

/// Sends a new glob, made from the pattern that the first argument holds.
pub fn new(context: &mut ExecutionContext) -> (r: CrushResult<()>)
    ensures
        final(context)@ == new_spec(old(context)@).0,
        outcome(r) == new_spec(old(context)@).1,
{
    let def = match context.arguments.string(0) {
        Ok(def) => def,
        Err(e) => {
            return Err(e);
        },
    };
    context.output.send(Value::Glob(Glob::new(def.as_str())))
}

/// Sends whether the receiver matches the first argument.
pub fn matches(context: &mut ExecutionContext) -> (r: CrushResult<()>)
    ensures
        final(context)@ == match_spec(old(context)@, false).0,
        outcome(r) == match_spec(old(context)@, false).1,
{
    let g = match context.this.glob() {
        Ok(g) => g,
        Err(e) => {
            return Err(e);
        },
    };
    let needle = match context.arguments.string(0) {
        Ok(needle) => needle,
        Err(e) => {
            return Err(e);
        },
    };
    context.output.send(Value::Bool(g.matches(needle.as_str())))
}

/// Sends whether the receiver fails to match the first argument.
pub fn not_match(context: &mut ExecutionContext) -> (r: CrushResult<()>)
    ensures
        final(context)@ == match_spec(old(context)@, true).0,
        outcome(r) == match_spec(old(context)@, true).1,
{
    let g = match context.this.glob() {
        Ok(g) => g,
        Err(e) => {
            return Err(e);
        },
    };
    let needle = match context.arguments.string(0) {
        Ok(needle) => needle,
        Err(e) => {
            return Err(e);
        },
    };
    context.output.send(Value::Bool(!g.matches(needle.as_str())))
}

/// Sends the list of the files that the receiver matches.
pub fn files(context: &mut ExecutionContext) -> (r: CrushResult<()>)
    ensures
        final(context)@ == files_spec(old(context)@).0,
        outcome(r) == files_spec(old(context)@).1,
{
    let g = match context.this.glob() {
        Ok(g) => g,
        Err(e) => {
            return Err(e);
        },
    };
    let mut found: Vec<String> = Vec::new();
    assert(texts_of(found@) =~= Seq::<Seq<char>>::empty());
    glob_files(&g, &context.files, &mut found);
    let ghost paths = matching(g@, paths_of(old(context)@.files));
    assert(texts_of(found@) =~= paths);
    let mut cells: Vec<Value> = Vec::new();
    let mut i: usize = 0;
    while i < found.len()
        invariant
            i <= found@.len(),
            cells@.len() == i,
            forall|k: int| 0 <= k < i ==> (#[trigger] cells@[k])@ == ValueView::File(found@[k]@),
        decreases found@.len() - i,
    {
        cells.push(Value::File(found[i].clone()));
        i += 1;
    }
    let list = Value::List(ValueType::File, cells);
    assert(list@ == ValueView::List(ValueType::File, file_values(paths))) by {
        assert(list@->List_1 =~= file_values(paths)) by {
            assert forall|k: int| 0 <= k < paths.len() implies list@->List_1[k] == file_values(
                paths,
            )[k] by {
                assert(cells@[k]@ == ValueView::File(found@[k]@));
                assert(texts_of(found@)[k] == found@[k]@);
            }
        }
    }
    context.output.send(list)
}

} // verus!
