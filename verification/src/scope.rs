//! The registry of commands: filled while the shell starts, then frozen.

use vstd::prelude::*;
use crate::command::{same_path, Command, CommandView};
use crate::errors::{error_view, CrushError, CrushResult, ErrorKind, ErrorView};
use crate::text::views_of;

verus! {

/// The mathematical content of a `Scope`.
pub struct ScopeView {
    /// The commands, in the order of their declaration.
    pub commands: Seq<CommandView>,
    /// Whether the scope is frozen.
    pub readonly: bool,
}

/// The first of `commands` that is registered under `path`.
pub open spec fn command_at(commands: Seq<CommandView>, path: Seq<Seq<char>>) -> Option<
    CommandView,
>
    decreases commands.len(),
{
    if commands.len() == 0 {
        None
    } else if commands[0].path == path {
        Some(commands[0])
    } else {
        command_at(commands.drop_first(), path)
    }
}

/// The error for a second, different declaration under one path.
pub open spec fn conflicting() -> ErrorView {
    error_view(ErrorKind::Argument, "A different command is declared under this name"@)
}

/// The error for a path under which nothing is registered.
pub open spec fn command_not_found() -> ErrorView {
    error_view(ErrorKind::CommandNotFound, "Unknown command"@)
}

impl ScopeView {
    /// The command registered under `path`.
    pub open spec fn lookup(self, path: Seq<Seq<char>>) -> Option<CommandView> {
        command_at(self.commands, path)
    }

    /// The answer to declaring `command`: a path that is taken accepts only
    /// the definition that it has.
    pub open spec fn declare_result(self, command: CommandView) -> Result<(), ErrorView> {
        match self.lookup(command.path) {
            Some(c) => if c == command {
                Ok(())
            } else {
                Err(conflicting())
            },
            None => Ok(()),
        }
    }

    /// The scope after an attempt to declare `command`: the command is added
    /// if its path was free, and nothing changes if it was taken.
    pub open spec fn after_declare(self, command: CommandView) -> ScopeView {
        match self.lookup(command.path) {
            Some(_) => self,
            None => ScopeView { commands: self.commands.push(command), ..self },
        }
    }
}

/// The scope after `commands` were declared one after the other, up to the
/// first that was refused, and the answer to the last declaration made.
pub open spec fn after_declare_all(scope: ScopeView, commands: Seq<CommandView>) -> (
    ScopeView,
    Result<(), ErrorView>,
)
    decreases commands.len(),
{
    if commands.len() == 0 {
        (scope, Ok(()))
    } else {
        let (earlier, r) = after_declare_all(scope, commands.drop_last());
        match r {
            Err(e) => (earlier, Err(e)),
            Ok(_) => (earlier.after_declare(commands.last()), earlier.declare_result(commands.last())),
        }
    }
}

/// Declaring keeps the scope as frozen or unfrozen as it was.
pub proof fn lemma_declare_all_keeps_flag(scope: ScopeView, commands: Seq<CommandView>)
    ensures
        after_declare_all(scope, commands).0.readonly == scope.readonly,
    decreases commands.len(),
{
    if commands.len() > 0 {
        lemma_declare_all_keeps_flag(scope, commands.drop_last());
    }
}

/// Declaring `first` and then `second` is declaring the two in a row.
pub proof fn lemma_declare_all_append(scope: ScopeView, first: Seq<CommandView>, second: Seq<CommandView>)
    ensures
        after_declare_all(scope, first + second) == match after_declare_all(scope, first).1 {
            Err(e) => if second.len() == 0 {
                after_declare_all(scope, first)
            } else {
                (after_declare_all(scope, first).0, Err::<(), ErrorView>(e))
            },
            Ok(_) => after_declare_all(after_declare_all(scope, first).0, second),
        },
    decreases second.len(),
{
    if second.len() == 0 {
        assert(first + second =~= first);
    } else {
        assert((first + second).drop_last() =~= first + second.drop_last());
        lemma_declare_all_append(scope, first, second.drop_last());
    }
}

/// The command that `path` names where `scopes`, innermost first, shadow
/// `global`.
pub open spec fn resolve_spec(scopes: Seq<ScopeView>, global: ScopeView, path: Seq<Seq<char>>)
    -> Option<CommandView>
    decreases scopes.len(),
{
    if scopes.len() == 0 {
        global.lookup(path)
    } else {
        match scopes[0].lookup(path) {
            Some(c) => Some(c),
            None => resolve_spec(scopes.drop_first(), global, path),
        }
    }
}

proof fn lemma_command_at_push(commands: Seq<CommandView>, added: CommandView, path: Seq<Seq<char>>)
    ensures
        command_at(commands.push(added), path) == match command_at(commands, path) {
            Some(c) => Some(c),
            None => if added.path == path {
                Some(added)
            } else {
                None
            },
        },
    decreases commands.len(),
{
    let longer = commands.push(added);
    if commands.len() == 0 {
        assert(longer.drop_first() =~= Seq::<CommandView>::empty());
        assert(longer[0] == added);
        assert(command_at(longer.drop_first(), path) is None);
    } else {
        assert(longer.drop_first() =~= commands.drop_first().push(added));
        assert(longer[0] == commands[0]);
        lemma_command_at_push(commands.drop_first(), added, path);
    }
}

/// Declaring a definition that was accepted a second time is accepted again,
/// and changes nothing.
pub proof fn lemma_declare_is_idempotent(scope: ScopeView, command: CommandView)
    requires
        scope.declare_result(command) is Ok,
    ensures
        scope.after_declare(command).declare_result(command) is Ok,
        scope.after_declare(command).after_declare(command) == scope.after_declare(command),
{
    lemma_command_at_push(scope.commands, command, command.path);
}

/// Once a path is taken, no declaration changes what it names: a second
/// declaration under it is accepted only if it is identical to the first.
pub proof fn lemma_declared_stays(scope: ScopeView, first: CommandView, second: CommandView)
    requires
        first.path == second.path,
    ensures
        scope.after_declare(first).after_declare(second).lookup(first.path) == scope.after_declare(
            first,
        ).lookup(first.path),
        scope.lookup(first.path) is None ==> (scope.after_declare(first).declare_result(second)
            is Ok <==> second == first),
{
    lemma_command_at_push(scope.commands, first, first.path);
}

/// The views of a sequence of commands, in order.
pub open spec fn commands_of(commands: Seq<Command>) -> Seq<CommandView> {
    Seq::new(commands.len(), |i: int| commands[i]@)
}

/// The views of a sequence of scopes, in order.
pub open spec fn scopes_of(scopes: Seq<Scope>) -> Seq<ScopeView> {
    Seq::new(scopes.len(), |i: int| scopes[i]@)
}

/// A registry that maps qualified paths to commands.
#[derive(Debug, PartialEq, Eq)]
pub struct Scope {
    commands: Vec<Command>,
    readonly: bool,
}

impl View for Scope {
    type V = ScopeView;

    closed spec fn view(&self) -> ScopeView {
        ScopeView { commands: commands_of(self.commands@), readonly: self.readonly }
    }
}

impl Scope {
    /// A scope that holds no command and is not frozen.
    pub fn new() -> (scope: Scope)
        ensures
            scope@ == (ScopeView { commands: Seq::empty(), readonly: false }),
    {
        let scope = Scope { commands: Vec::new(), readonly: false };
        assert(scope@.commands =~= Seq::<CommandView>::empty());
        scope
    }

    /// Whether the scope is frozen.
    pub fn is_readonly(&self) -> (r: bool)
        ensures
            r == self@.readonly,
    {
        self.readonly
    }

    /// The number of commands.
    pub fn len(&self) -> (n: usize)
        ensures
            n == self@.commands.len(),
    {
        self.commands.len()
    }

    /// The position of the command registered under `path`.
    fn position<'a>(&self, path: &Vec<&'a str>) -> (r: Option<usize>)
        ensures
            match r {
                Some(i) => i < self.commands@.len() && self@.lookup(views_of(path@)) == Some(
                    self.commands@[i as int]@,
                ),
                None => self@.lookup(views_of(path@)) is None,
            },
    {
        let ghost all = commands_of(self.commands@);
        let mut i: usize = 0;
        assert(all.subrange(0, all.len() as int) =~= all);
        while i < self.commands.len()
            invariant
                i <= self.commands@.len(),
                all == commands_of(self.commands@),
                command_at(all, views_of(path@)) == command_at(
                    all.subrange(i as int, all.len() as int),
                    views_of(path@),
                ),
            decreases self.commands@.len() - i,
        {
            let ghost rest = all.subrange(i as int, all.len() as int);
            assert(rest[0] == self.commands@[i as int]@);
            assert(rest.drop_first() =~= all.subrange(i + 1, all.len() as int));
            if same_path(&self.commands[i].path, path) {
                return Some(i);
            }
            i += 1;
        }
        None
    }

    /// Registers `command` under its path.
    ///
    /// A path that is taken accepts only the definition that it has, which
    /// changes nothing; a different definition is an error. A frozen scope
    /// accepts no declaration at all: that is a mistake in the program, not
    /// in its input.
    pub fn declare(&mut self, command: Command) -> (r: CrushResult<()>)
        requires
            !old(self)@.readonly,
        ensures
            final(self)@ == old(self)@.after_declare(command@),
            match r {
                Ok(_) => old(self)@.declare_result(command@) is Ok,
                Err(e) => old(self)@.declare_result(command@) == Err::<(), ErrorView>(e@),
            },
    {
        match self.position(&command.path) {
            Some(i) => {
                if self.commands[i].same_definition(&command) {
                    Ok(())
                } else {
                    Err(
                        CrushError::new(
                            ErrorKind::Argument,
                            "A different command is declared under this name",
                        ),
                    )
                }
            },
            None => {
                let ghost before = commands_of(self.commands@);
                self.commands.push(command);
                assert(commands_of(self.commands@) =~= before.push(command@));
                Ok(())
            },
        }
    }

    /// Registers `commands` one after the other, and stops at the first that
    /// is refused.
    pub fn declare_all(&mut self, commands: Vec<Command>) -> (r: CrushResult<()>)
        requires
            !old(self)@.readonly,
        ensures
            final(self)@ == after_declare_all(old(self)@, commands_of(commands@)).0,
            match r {
                Ok(_) => after_declare_all(old(self)@, commands_of(commands@)).1 is Ok,
                Err(e) => after_declare_all(old(self)@, commands_of(commands@)).1 == Err::<
                    (),
                    ErrorView,
                >(e@),
            },
    {
        let ghost all = commands_of(commands@);
        let mut pending = commands;
        let mut rest: Vec<Command> = Vec::new();
        // Take the commands off the back, so that each can be handed over.
        while pending.len() > 0
            invariant
                commands_of(pending@) + commands_of(rest@).reverse() == all,
            decreases pending@.len(),
        {
            let ghost before = commands_of(pending@);
            let ghost turned = commands_of(rest@);
            let c = pending.pop().unwrap();
            rest.push(c);
            assert(commands_of(pending@) =~= before.drop_last());
            assert(commands_of(rest@) =~= turned.push(c@));
            assert(before.drop_last() + turned.push(c@).reverse() =~= before + turned.reverse());
        }
        assert(commands_of(rest@).reverse() =~= all);
        let ghost start = self@;
        let mut done: Ghost<Seq<CommandView>> = Ghost(Seq::empty());
        while rest.len() > 0
            invariant
                start == old(self)@,
                !self@.readonly,
                all == commands_of(commands@),
                done@ + commands_of(rest@).reverse() == all,
                after_declare_all(start, done@) == (self@, Ok::<(), ErrorView>(())),
            decreases rest@.len(),
        {
            let ghost left = commands_of(rest@);
            let c = rest.pop().unwrap();
            let ghost next = done@.push(c@);
            proof {
                assert(commands_of(rest@) =~= left.drop_last());
                assert(next.drop_last() =~= done@);
                assert(left.reverse() =~= seq![c@] + left.drop_last().reverse());
                assert(next + left.drop_last().reverse() =~= done@ + left.reverse());
            }
            match self.declare(c) {
                Ok(_) => {},
                Err(e) => {
                    proof {
                        assert(after_declare_all(start, next).1 == Err::<(), ErrorView>(e@));
                        lemma_declare_all_append(start, next, commands_of(rest@).reverse());
                    }
                    return Err(e);
                },
            }
            proof {
                done@ = next;
            }
        }
        assert(done@ =~= all);
        Ok(())
    }

    /// Freezes the scope.
    pub fn readonly(&mut self)
        ensures
            final(self)@ == (ScopeView { readonly: true, ..old(self)@ }),
    {
        self.readonly = true;
    }

    /// The command registered under `path`, or a `CommandNotFound` error.
    pub fn lookup<'a>(&self, path: &Vec<&'a str>) -> (r: CrushResult<&Command>)
        ensures
            match r {
                Ok(c) => self@.lookup(views_of(path@)) == Some(c@),
                Err(e) => self@.lookup(views_of(path@)) is None && e@ == command_not_found(),
            },
    {
        match self.position(path) {
            Some(i) => Ok(&self.commands[i]),
            None => Err(CrushError::new(ErrorKind::CommandNotFound, "Unknown command")),
        }
    }
}

/// Resolves `path` where `scopes`, innermost first, shadow `global`: the first
/// scope that holds the path decides, and `global` is asked last.
pub fn resolve<'a, 'b>(scopes: &'a Vec<Scope>, global: &'a Scope, path: &Vec<&'b str>) -> (r:
    CrushResult<&'a Command>)
    ensures
        match r {
            Ok(c) => resolve_spec(scopes_of(scopes@), global@, views_of(path@)) == Some(c@),
            Err(e) => resolve_spec(scopes_of(scopes@), global@, views_of(path@)) is None && e@
                == command_not_found(),
        },
{
    let ghost all = scopes_of(scopes@);
    let mut i: usize = 0;
    assert(all.subrange(0, all.len() as int) =~= all);
    while i < scopes.len()
        invariant
            i <= scopes@.len(),
            all == scopes_of(scopes@),
            resolve_spec(all, global@, views_of(path@)) == resolve_spec(
                all.subrange(i as int, all.len() as int),
                global@,
                views_of(path@),
            ),
        decreases scopes@.len() - i,
    {
        let ghost rest = all.subrange(i as int, all.len() as int);
        assert(rest[0] == scopes@[i as int]@);
        assert(rest.drop_first() =~= all.subrange(i + 1, all.len() as int));
        match scopes[i].lookup(path) {
            Ok(c) => {
                return Ok(c);
            },
            Err(_) => {},
        }
        i += 1;
    }
    global.lookup(path)
}

} // verus!
