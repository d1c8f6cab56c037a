//! Commands, and the per-type tables that map method names to commands.

use ordered_map::OrderedMap;
use vstd::prelude::*;
use crate::errors::{error_view, CrushError, CrushResult, ErrorKind, ErrorView};
use crate::text::{text_eq, views_of};
use crate::value::ValueType;

verus! {

/// What is known of a command's output before it runs.
#[derive(Debug, PartialEq, Eq)]
pub enum OutputType {
    /// The output has this type whatever the arguments are.
    Known(ValueType),
    /// The type of the output depends on the arguments.
    Unknown,
}

impl Clone for OutputType {
    fn clone(&self) -> (o: OutputType)
        ensures
            o == *self,
    {
        match self {
            OutputType::Known(t) => OutputType::Known(t.clone()),
            OutputType::Unknown => OutputType::Unknown,
        }
    }
}

impl OutputType {
    /// Whether the two are the same.
    pub fn equals(&self, other: &OutputType) -> (r: bool)
        ensures
            r == (*self == *other),
    {
        match self {
            OutputType::Known(a) => match other {
                OutputType::Known(b) => a.equals(b),
                OutputType::Unknown => false,
            },
            OutputType::Unknown => matches!(other, OutputType::Unknown),
        }
    }
}

/// The built-in code that a command runs.
#[derive(Debug, Clone, Copy, PartialEq, Eq, Structural)]
pub enum Handler {
    GlobNew,
    GlobMatch,
    GlobNotMatch,
    GlobFiles,
    Csv,
}

/// A registered operation: its qualified name, what it runs and how it is
/// described to the user.
#[derive(Debug, PartialEq, Eq)]
pub struct Command {
    pub path: Vec<&'static str>,
    pub handler: Handler,
    pub mutates_receiver: bool,
    pub signature: &'static str,
    pub short_help: &'static str,
    pub long_help: Option<&'static str>,
    pub output: OutputType,
}

/// The mathematical content of a `Command`.
pub struct CommandView {
    pub path: Seq<Seq<char>>,
    pub handler: Handler,
    pub mutates_receiver: bool,
    pub signature: Seq<char>,
    pub short_help: Seq<char>,
    pub long_help: Option<Seq<char>>,
    pub output: OutputType,
}

/// The view of an optional text.
pub open spec fn text_of(text: Option<&'static str>) -> Option<Seq<char>> {
    match text {
        Some(t) => Some(t@),
        None => None,
    }
}

impl View for Command {
    type V = CommandView;

    open spec fn view(&self) -> CommandView {
        CommandView {
            path: views_of(self.path@),
            handler: self.handler,
            mutates_receiver: self.mutates_receiver,
            signature: self.signature@,
            short_help: self.short_help@,
            long_help: text_of(self.long_help),
            output: self.output,
        }
    }
}

/// Whether two qualified names have the same segments.
pub fn same_path<'a, 'b>(a: &Vec<&'a str>, b: &Vec<&'b str>) -> (r: bool)
    ensures
        r == (views_of(a@) == views_of(b@)),
{
    if a.len() != b.len() {
        assert(views_of(a@).len() != views_of(b@).len());
        return false;
    }
    let mut i: usize = 0;
    while i < a.len()
        invariant
            a@.len() == b@.len(),
            i <= a@.len(),
            forall|k: int| 0 <= k < i ==> a@[k]@ == b@[k]@,
        decreases a@.len() - i,
    {
        if !text_eq(a[i], b[i]) {
            assert(views_of(a@)[i as int] != views_of(b@)[i as int]);
            return false;
        }
        i += 1;
    }
    assert(views_of(a@) =~= views_of(b@));
    true
}

/// A copy of a qualified name.
pub fn clone_path(path: &Vec<&'static str>) -> (copy: Vec<&'static str>)
    ensures
        copy@ == path@,
{
    let mut copy: Vec<&'static str> = Vec::new();
    let mut i: usize = 0;
    while i < path.len()
        invariant
            i <= path@.len(),
            copy@ == path@.take(i as int),
        decreases path@.len() - i,
    {
        copy.push(path[i]);
        assert(path@.take(i + 1) =~= path@.take(i as int).push(path@[i as int]));
        i += 1;
    }
    assert(path@.take(path@.len() as int) =~= path@);
    copy
}

impl Command {
    /// Whether the two commands are defined alike in every respect.
    pub fn same_definition(&self, other: &Command) -> (r: bool)
        ensures
            r == (self@ == other@),
    {
        let helps = match (self.long_help, other.long_help) {
            (Some(a), Some(b)) => text_eq(a, b),
            (None, None) => true,
            _ => false,
        };
        same_path(&self.path, &other.path) && self.handler == other.handler
            && self.mutates_receiver == other.mutates_receiver && text_eq(
            self.signature,
            other.signature,
        ) && text_eq(self.short_help, other.short_help) && helps && self.output.equals(
            &other.output,
        )
    }
}

impl Clone for Command {
    fn clone(&self) -> (c: Command)
        ensures
            c@ == self@,
    {
        Command {
            path: clone_path(&self.path),
            handler: self.handler,
            mutates_receiver: self.mutates_receiver,
            signature: self.signature,
            short_help: self.short_help,
            long_help: self.long_help,
            output: self.output.clone(),
        }
    }
}

/// A command in a method table, with the place it took in the order of
/// declaration.
pub struct MethodEntry {
    pub ordinal: usize,
    pub command: Command,
}

/// The place in the order of declaration: what the table orders its entries by.
pub fn ordinal_of(entry: &MethodEntry) -> (n: usize)
    ensures
        n == entry.ordinal,
{
    entry.ordinal
}

#[verifier::external_type_specification]
#[verifier::external_body]
#[verifier::reject_recursive_types(K)]
#[verifier::reject_recursive_types(V)]
#[verifier::reject_recursive_types(C)]
pub struct ExOrderedMap<K, V, C>(OrderedMap<K, V, C>);

/// The entries of a method table, each with its key, in the order in which the
/// table hands them out: by ordinal, largest first.
pub uninterp spec fn method_entries(table: OrderedMap<&'static str, MethodEntry, usize>) -> Seq<
    (Seq<char>, MethodEntry),
>;

/// The position at which the table files an entry of ordinal `c`: before the
/// first entry whose ordinal is not larger than `c`, and after all entries if
/// there is no such entry.
pub open spec fn slot(entries: Seq<(Seq<char>, MethodEntry)>, c: usize) -> int
    decreases entries.len(),
{
    if entries.len() == 0 || c >= entries[0].1.ordinal {
        0
    } else {
        1 + slot(entries.drop_first(), c)
    }
}

/// Whether `entries` holds an entry under `key`.
pub open spec fn has_key(entries: Seq<(Seq<char>, MethodEntry)>, key: Seq<char>) -> bool {
    exists|i: int| 0 <= i < entries.len() && (#[trigger] entries[i]).0 == key
}

/// `OrderedMap::new`, with `ordinal_of` as the function that the table orders
/// its entries by: the new table holds no entry.
#[verifier::external_body]
fn table_new() -> (table: OrderedMap<&'static str, MethodEntry, usize>)
    ensures
        method_entries(table) == Seq::<(Seq<char>, MethodEntry)>::empty(),
{
    OrderedMap::new(ordinal_of)
}

/// `OrderedMap::len`: the number of entries.
#[verifier::external_body]
fn table_len(table: &OrderedMap<&'static str, MethodEntry, usize>) -> (n: usize)
    ensures
        n == method_entries(*table).len(),
{
    table.len()
}

/// `OrderedMap::insert`, for a key that the table does not hold: the entry is
/// filed before the first entry whose ordinal is not larger than its own, the
/// other entries keep their order, and no earlier value comes back.
#[verifier::external_body]
fn table_insert(
    table: &mut OrderedMap<&'static str, MethodEntry, usize>,
    key: &'static str,
    entry: MethodEntry,
) -> (previous: Option<MethodEntry>)
    requires
        !has_key(method_entries(*old(table)), key@),
    ensures
        method_entries(*final(table)) == method_entries(*old(table)).insert(
            slot(method_entries(*old(table)), entry.ordinal),
            (key@, entry),
        ),
        previous is None,
{
    table.insert(key, entry)
}

/// `OrderedMap::descending_items`: the keys and entries of the table in the
/// order in which it hands them out.
#[verifier::external_body]
fn table_items<'a>(table: &'a OrderedMap<&'static str, MethodEntry, usize>) -> (items: Vec<
    (&'static str, &'a MethodEntry),
>)
    ensures
        items@.len() == method_entries(*table).len(),
        forall|i: int|
            0 <= i < items@.len() ==> (#[trigger] items@[i]).0@ == method_entries(*table)[i].0
                && *items@[i].1 == method_entries(*table)[i].1,
{
    table.descending_items().map(|(k, v)| (*k, v)).collect()
}

/// The commands of `entries` in the order of their declaration, which is the
/// reverse of the order in which the table hands them out.
pub open spec fn declared(entries: Seq<(Seq<char>, MethodEntry)>) -> Seq<CommandView> {
    Seq::new(entries.len(), |i: int| entries[entries.len() - 1 - i].1.command@)
}

/// Whether every entry is filed under the last segment of its command's name.
pub open spec fn keyed(entries: Seq<(Seq<char>, MethodEntry)>) -> bool {
    forall|i: int|
        0 <= i < entries.len() ==> {
            &&& (#[trigger] entries[i]).1.command.path@.len() > 0
            &&& entries[i].0 == entries[i].1.command.path@.last()@
        }
}

/// Whether the ordinals count the declarations, the latest first.
pub open spec fn counted(entries: Seq<(Seq<char>, MethodEntry)>) -> bool {
    forall|i: int| 0 <= i < entries.len() ==> (#[trigger] entries[i]).1.ordinal == entries.len() - 1 - i
}

/// Whether `entries` is what declarations alone produce.
pub open spec fn well_filed(entries: Seq<(Seq<char>, MethodEntry)>) -> bool {
    keyed(entries) && counted(entries)
}

/// The command declared under `name`, if there is one.
pub open spec fn method_named(methods: Seq<CommandView>, name: Seq<char>) -> Option<CommandView>
    decreases methods.len(),
{
    if methods.len() == 0 {
        None
    } else if methods[0].path.len() > 0 && methods[0].path.last() == name {
        Some(methods[0])
    } else {
        method_named(methods.drop_first(), name)
    }
}

/// The error for a second, different declaration under one name.
pub open spec fn redeclared(name: Seq<char>) -> ErrorView {
    error_view(ErrorKind::Argument, "Conflicting declarations of "@ + name)
}

/// The table of the methods of one type, by name.
pub struct TypeMap {
    table: OrderedMap<&'static str, MethodEntry, usize>,
}

impl View for TypeMap {
    type V = Seq<CommandView>;

    /// The commands, in the order of their declaration.
    closed spec fn view(&self) -> Seq<CommandView> {
        declared(method_entries(self.table))
    }
}

proof fn lemma_slot_front(entries: Seq<(Seq<char>, MethodEntry)>, c: usize)
    requires
        counted(entries),
        c == entries.len(),
    ensures
        slot(entries, c) == 0,
{
    if entries.len() > 0 {
        assert(entries[0].1.ordinal == entries.len() - 1);
    }
}

/// The search that `get` makes, from the earliest declaration on, finds what
/// `method_named` describes.
proof fn lemma_method_named(entries: Seq<(Seq<char>, MethodEntry)>, name: Seq<char>, k: int)
    requires
        keyed(entries),
        0 <= k <= entries.len(),
        forall|i: int| k <= i < entries.len() ==> (#[trigger] entries[i]).0 != name,
    ensures
        k == 0 ==> method_named(declared(entries), name) is None,
        k == 0 ==> !has_key(entries, name),
        k > 0 && entries[k - 1].0 == name ==> method_named(declared(entries), name) == Some(
            entries[k - 1].1.command@,
        ),
    decreases entries.len(),
{
    let methods = declared(entries);
    if entries.len() > 0 {
        let rest = entries.drop_last();
        assert(keyed(rest)) by {
            assert forall|i: int| 0 <= i < rest.len() implies {
                &&& (#[trigger] rest[i]).1.command.path@.len() > 0
                &&& rest[i].0 == rest[i].1.command.path@.last()@
            } by {
                assert(rest[i] == entries[i]);
            }
        }
        assert(declared(rest) =~= methods.drop_first());
        let last = entries[entries.len() - 1];
        assert(methods[0] == last.1.command@);
        assert(last.1.command@.path.last() == last.1.command.path@.last()@);
        if k < entries.len() {
            assert(last.0 != name);
            assert forall|i: int| k <= i < rest.len() implies (#[trigger] rest[i]).0 != name by {
                assert(rest[i] == entries[i]);
            }
            lemma_method_named(rest, name, k);
            if k > 0 {
                assert(rest[k - 1] == entries[k - 1]);
            }
        }
    }
}

/// A name under which no method is declared is the key of no entry.
proof fn lemma_absent(entries: Seq<(Seq<char>, MethodEntry)>, name: Seq<char>)
    requires
        keyed(entries),
        method_named(declared(entries), name) is None,
    ensures
        !has_key(entries, name),
    decreases entries.len(),
{
    if entries.len() > 0 {
        let rest = entries.drop_last();
        assert(keyed(rest)) by {
            assert forall|i: int| 0 <= i < rest.len() implies {
                &&& (#[trigger] rest[i]).1.command.path@.len() > 0
                &&& rest[i].0 == rest[i].1.command.path@.last()@
            } by {
                assert(rest[i] == entries[i]);
            }
        }
        assert(declared(rest) =~= declared(entries).drop_first());
        let last = entries[entries.len() - 1];
        assert(declared(entries)[0] == last.1.command@);
        assert(last.1.command@.path.last() == last.1.command.path@.last()@);
        lemma_absent(rest, name);
        assert forall|i: int| 0 <= i < entries.len() implies (#[trigger] entries[i]).0 != name by {
            if i < rest.len() {
                assert(rest[i] == entries[i]);
            }
        }
    }
}

impl TypeMap {
    /// Whether the table is in the state that declarations alone produce.
    pub closed spec fn well_formed(&self) -> bool {
        well_filed(method_entries(self.table))
    }

    /// A table that holds no method.
    pub fn new() -> (map: TypeMap)
        ensures
            map.well_formed(),
            map@ == Seq::<CommandView>::empty(),
    {
        let map = TypeMap { table: table_new() };
        assert(map@ =~= Seq::<CommandView>::empty());
        map
    }

    /// The number of methods.
    pub fn len(&self) -> (n: usize)
        ensures
            n == self@.len(),
    {
        table_len(&self.table)
    }

    /// The error for a declaration without a name.
    pub open spec fn unnamed() -> ErrorView {
        error_view(ErrorKind::Argument, "A command needs a name"@)
    }

    /// Declares a method under the last segment of `path`.
    ///
    /// A name can be declared again only with the definition that it has: that
    /// changes nothing. A different definition under a name that is taken is
    /// an error, and so is an empty path.
    pub fn declare(
        &mut self,
        path: Vec<&'static str>,
        handler: Handler,
        mutates_receiver: bool,
        signature: &'static str,
        short_help: &'static str,
        long_help: Option<&'static str>,
        output: OutputType,
    ) -> (r: CrushResult<()>)
        requires
            old(self).well_formed(),
        ensures
            final(self).well_formed(),
            ({
                let command = CommandView {
                    path: views_of(path@),
                    handler,
                    mutates_receiver,
                    signature: signature@,
                    short_help: short_help@,
                    long_help: text_of(long_help),
                    output,
                };
                if path@.len() == 0 {
                    &&& final(self)@ == old(self)@
                    &&& (r matches Err(e) && e@ == Self::unnamed())
                } else {
                    match method_named(old(self)@, path@.last()@) {
                        None => r is Ok && final(self)@ == old(self)@.push(command),
                        Some(c) => {
                            &&& final(self)@ == old(self)@
                            &&& c == command ==> r is Ok
                            &&& c != command ==> (r matches Err(e) && e@ == redeclared(
                                path@.last()@,
                            ))
                        },
                    }
                }
            }),
    {
        if path.len() == 0 {
            return Err(CrushError::new(ErrorKind::Argument, "A command needs a name"));
        }
        let name: &'static str = path[path.len() - 1];
        let command = Command {
            path,
            handler,
            mutates_receiver,
            signature,
            short_help,
            long_help,
            output,
        };
        match self.get(name) {
            Some(c) => {
                if c.same_definition(&command) {
                    Ok(())
                } else {
                    Err(CrushError::with_detail(ErrorKind::Argument, "Conflicting declarations of ", name))
                }
            },
            None => {
                let ghost entries = method_entries(self.table);
                let ordinal = table_len(&self.table);
                let entry = MethodEntry { ordinal, command };
                proof {
                    lemma_absent(entries, name@);
                    lemma_slot_front(entries, ordinal);
                }
                table_insert(&mut self.table, name, entry);
                proof {
                    let after = method_entries(self.table);
                    assert(after == entries.insert(0, (name@, entry)));
                    assert(keyed(after)) by {
                        assert forall|i: int| 0 <= i < after.len() implies {
                            &&& (#[trigger] after[i]).1.command.path@.len() > 0
                            &&& after[i].0 == after[i].1.command.path@.last()@
                        } by {
                            if i > 0 {
                                assert(after[i] == entries[i - 1]);
                            }
                        }
                    }
                    assert(counted(after)) by {
                        assert forall|i: int| 0 <= i < after.len() implies (#[trigger] after[i]).1.ordinal
                            == after.len() - 1 - i by {
                            if i > 0 {
                                assert(after[i] == entries[i - 1]);
                            }
                        }
                    }
                    assert(declared(after) =~= declared(entries).push(entry.command@)) by {
                        assert forall|i: int| 0 <= i < declared(entries).len() implies declared(
                            after,
                        )[i] == declared(entries)[i] by {
                            assert(after[after.len() - 1 - i] == entries[entries.len() - 1 - i]);
                        }
                    }
                }
                Ok(())
            },
        }
    }

    /// The methods, in the order of their declaration.
    pub fn commands(&self) -> (commands: Vec<Command>)
        ensures
            commands@.len() == self@.len(),
            forall|i: int| 0 <= i < commands@.len() ==> (#[trigger] commands@[i])@ == self@[i],
    {
        let items = table_items(&self.table);
        let ghost entries = method_entries(self.table);
        let mut commands: Vec<Command> = Vec::new();
        let mut k: usize = items.len();
        while k > 0
            invariant
                k <= items@.len(),
                items@.len() == entries.len(),
                entries == method_entries(self.table),
                commands@.len() == items@.len() - k,
                forall|i: int|
                    0 <= i < items@.len() ==> (#[trigger] items@[i]).0@ == entries[i].0
                        && *items@[i].1 == entries[i].1,
                forall|i: int|
                    0 <= i < commands@.len() ==> (#[trigger] commands@[i])@ == declared(entries)[i],
            decreases k,
        {
            k -= 1;
            assert(*items@[k as int].1 == entries[k as int].1);
            commands.push(items[k].1.command.clone());
        }
        commands
    }

    /// The method called `name`, if the table holds one.
    pub fn get(&self, name: &str) -> (r: Option<&Command>)
        requires
            self.well_formed(),
        ensures
            match r {
                Some(c) => method_named(self@, name@) == Some(c@),
                None => method_named(self@, name@) is None,
            },
    {
        let items = table_items(&self.table);
        let ghost entries = method_entries(self.table);
        let mut k: usize = items.len();
        while k > 0
            invariant
                k <= items@.len(),
                items@.len() == entries.len(),
                entries == method_entries(self.table),
                well_filed(entries),
                forall|i: int|
                    0 <= i < items@.len() ==> (#[trigger] items@[i]).0@ == entries[i].0
                        && *items@[i].1 == entries[i].1,
                forall|i: int| k <= i < entries.len() ==> (#[trigger] entries[i]).0 != name@,
            decreases k,
        {
            if text_eq(items[k - 1].0, name) {
                proof {
                    assert(items@[k - 1].0@ == entries[k - 1].0);
                    lemma_method_named(entries, name@, k as int);
                }
                return Some(&items[k - 1].1.command);
            }
            assert(items@[k - 1].0@ == entries[k - 1].0);
            k -= 1;
        }
        proof {
            lemma_method_named(entries, name@, 0);
        }
        None
    }
}

} // verus!
