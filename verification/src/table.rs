//! Rows and the schemas that describe them.

use vstd::prelude::*;
use crate::errors::{error_view, CrushError, CrushResult, ErrorKind, ErrorView};
use crate::text::text_eq;
use crate::value::{assignable, values_of, Value, ValueType, ValueView};

verus! {

/// A named, typed column.
#[derive(Debug, PartialEq, Eq)]
pub struct ColumnType {
    pub name: String,
    pub cell_type: ValueType,
}

/// The mathematical content of a `ColumnType`.
pub struct ColumnView {
    pub name: Seq<char>,
    pub cell_type: ValueType,
}

impl View for ColumnType {
    type V = ColumnView;

    open spec fn view(&self) -> ColumnView {
        ColumnView { name: self.name@, cell_type: self.cell_type }
    }
}

impl ColumnType {
    /// The column called `name` that holds values of type `cell_type`.
    pub fn named(name: &str, cell_type: ValueType) -> (c: ColumnType)
        ensures
            c@ == (ColumnView { name: name@, cell_type }),
    {
        ColumnType { name: name.to_owned(), cell_type }
    }
}

impl Clone for ColumnType {
    fn clone(&self) -> (c: ColumnType)
        ensures
            c@ == self@,
    {
        ColumnType { name: self.name.clone(), cell_type: self.cell_type.clone() }
    }
}

/// The views of a sequence of columns, in order.
pub open spec fn columns_of(columns: Seq<ColumnType>) -> Seq<ColumnView> {
    Seq::new(columns.len(), |i: int| columns[i]@)
}

/// Whether no two columns share a name.
pub open spec fn unique_names(columns: Seq<ColumnView>) -> bool {
    forall|i: int, j: int|
        0 <= i < j < columns.len() ==> (#[trigger] columns[i]).name != (#[trigger] columns[j]).name
}

/// A copy of `columns`.
pub fn clone_columns(columns: &Vec<ColumnType>) -> (copy: Vec<ColumnType>)
    ensures
        columns_of(copy@) == columns_of(columns@),
{
    let mut copy: Vec<ColumnType> = Vec::new();
    let mut i: usize = 0;
    while i < columns.len()
        invariant
            i <= columns@.len(),
            copy@.len() == i,
            forall|k: int| 0 <= k < i ==> copy@[k]@ == columns@[k]@,
        decreases columns@.len() - i,
    {
        copy.push(columns[i].clone());
        i += 1;
    }
    assert(columns_of(copy@) =~= columns_of(columns@));
    copy
}

/// One unit of structured data: a cell for each column of its schema.
#[derive(Debug, PartialEq, Eq)]
pub struct Row {
    pub cells: Vec<Value>,
}

impl View for Row {
    type V = Seq<ValueView>;

    open spec fn view(&self) -> Seq<ValueView> {
        values_of(self.cells@)
    }
}

impl Row {
    /// The row that holds `cells`.
    pub fn new(cells: Vec<Value>) -> (row: Row)
        ensures
            row@ == values_of(cells@),
    {
        Row { cells }
    }
}

/// Whether `row` has a cell for each column of `schema`, each of a type that
/// its column accepts.
pub open spec fn conforms(schema: Seq<ColumnView>, row: Seq<ValueView>) -> bool {
    &&& row.len() == schema.len()
    &&& forall|i: int|
        0 <= i < row.len() ==> assignable(schema[i].cell_type, (#[trigger] row[i]).value_type())
}

/// The position at or after `from` of the first cell that its column does not
/// accept; the number of columns if there is none.
pub open spec fn first_mismatch(schema: Seq<ColumnView>, row: Seq<ValueView>, from: int) -> int
    decreases schema.len() - from,
{
    if from < 0 || from >= schema.len() || from >= row.len() {
        schema.len() as int
    } else if !assignable(schema[from].cell_type, row[from].value_type()) {
        from
    } else {
        first_mismatch(schema, row, from + 1)
    }
}

/// The error for a row with the wrong number of cells.
pub open spec fn wrong_arity() -> ErrorView {
    error_view(ErrorKind::Schema, "Wrong number of cells in row"@)
}

/// The error for a cell that its column, called `name`, does not accept.
pub open spec fn wrong_cell(name: Seq<char>) -> ErrorView {
    error_view(ErrorKind::Schema, "Wrong type of value in column "@ + name)
}

/// The verdict on `row` under `schema`: the arity is checked first, then the
/// cells from left to right.
pub open spec fn validate_spec(schema: Seq<ColumnView>, row: Seq<ValueView>) -> Result<
    (),
    ErrorView,
> {
    if row.len() != schema.len() {
        Err(wrong_arity())
    } else {
        let i = first_mismatch(schema, row, 0);
        if i < schema.len() {
            Err(wrong_cell(schema[i].name))
        } else {
            Ok(())
        }
    }
}

proof fn lemma_first_mismatch(schema: Seq<ColumnView>, row: Seq<ValueView>, from: int)
    requires
        row.len() == schema.len(),
        0 <= from <= schema.len(),
    ensures
        from <= first_mismatch(schema, row, from) <= schema.len(),
        forall|k: int|
            from <= k < first_mismatch(schema, row, from) ==> assignable(
                schema[k].cell_type,
                (#[trigger] row[k]).value_type(),
            ),
        first_mismatch(schema, row, from) < schema.len() ==> !assignable(
            schema[first_mismatch(schema, row, from)].cell_type,
            row[first_mismatch(schema, row, from)].value_type(),
        ),
    decreases schema.len() - from,
{
    if from < schema.len() && assignable(schema[from].cell_type, row[from].value_type()) {
        lemma_first_mismatch(schema, row, from + 1);
    }
}

/// A row is accepted exactly when it conforms to the schema: it has one cell
/// for each column, each of a type that its column accepts. A row of any
/// other number of cells is refused for its arity, with a `Schema` error.
pub proof fn lemma_validate_conforms(schema: Seq<ColumnView>, row: Seq<ValueView>)
    ensures
        validate_spec(schema, row) is Ok <==> conforms(schema, row),
        row.len() != schema.len() ==> validate_spec(schema, row) == Err::<(), ErrorView>(
            wrong_arity(),
        ),
        validate_spec(schema, row) matches Err(e) ==> e.kind == ErrorKind::Schema,
{
    if row.len() == schema.len() {
        lemma_first_mismatch(schema, row, 0);
    }
}

/// An ordered sequence of columns whose names are all different.
#[derive(Debug, PartialEq, Eq)]
pub struct Schema {
    columns: Vec<ColumnType>,
}

impl View for Schema {
    type V = Seq<ColumnView>;

    closed spec fn view(&self) -> Seq<ColumnView> {
        columns_of(self.columns@)
    }
}

impl Schema {
    #[verifier::type_invariant]
    spec fn names_differ(&self) -> bool {
        unique_names(columns_of(self.columns@))
    }

    /// The error for columns that share a name.
    pub open spec fn duplicate_name() -> ErrorView {
        error_view(ErrorKind::Schema, "Column names must be unique"@)
    }

    /// The schema of `columns`, or a `Schema` error if two of them share a name.
    pub fn new(columns: Vec<ColumnType>) -> (r: CrushResult<Schema>)
        ensures
            match r {
                Ok(s) => unique_names(columns_of(columns@)) && s@ == columns_of(columns@),
                Err(e) => !unique_names(columns_of(columns@)) && e@ == Self::duplicate_name(),
            },
    {
        let ghost views = columns_of(columns@);
        let mut i: usize = 0;
        while i < columns.len()
            invariant
                i <= columns@.len(),
                views == columns_of(columns@),
                forall|a: int, b: int|
                    0 <= a < b < i ==> (#[trigger] views[a]).name != (#[trigger] views[b]).name,
            decreases columns@.len() - i,
        {
            let mut j: usize = 0;
            while j < i
                invariant
                    j <= i < columns@.len(),
                    views == columns_of(columns@),
                    forall|a: int| 0 <= a < j ==> (#[trigger] views[a]).name != views[i as int].name,
                decreases i - j,
            {
                if text_eq(columns[j].name.as_str(), columns[i].name.as_str()) {
                    assert(views[j as int].name == views[i as int].name);
                    return Err(CrushError::new(ErrorKind::Schema, "Column names must be unique"));
                }
                j += 1;
            }
            i += 1;
        }
        Ok(Schema { columns })
    }

    /// The columns, in order.
    pub fn columns(&self) -> (columns: &Vec<ColumnType>)
        ensures
            columns_of(columns@) == self@,
            unique_names(self@),
    {
        proof {
            use_type_invariant(self);
        }
        &self.columns
    }

    /// The number of columns.
    pub fn len(&self) -> (n: usize)
        ensures
            n == self@.len(),
    {
        self.columns.len()
    }

    /// Checks that `row` has one cell for each column, each of a type that its
    /// column accepts.
    pub fn validate(&self, row: &Row) -> (r: CrushResult<()>)
        ensures
            r is Ok <==> conforms(self@, row@),
            match r {
                Ok(_) => validate_spec(self@, row@) is Ok,
                Err(e) => validate_spec(self@, row@) == Err::<(), ErrorView>(e@),
            },
    {
        proof {
            lemma_validate_conforms(self@, row@);
        }
        if row.cells.len() != self.columns.len() {
            return Err(CrushError::new(ErrorKind::Schema, "Wrong number of cells in row"));
        }
        let n = self.columns.len();
        let mut i: usize = 0;
        while i < n
            invariant
                i <= n,
                n == self@.len(),
                n == row@.len(),
                self@ == columns_of(self.columns@),
                row@ == values_of(row.cells@),
                first_mismatch(self@, row@, 0) == first_mismatch(self@, row@, i as int),
            decreases n - i,
        {
            if !self.columns[i].cell_type.is(&row.cells[i]) {
                return Err(
                    CrushError::with_detail(
                        ErrorKind::Schema,
                        "Wrong type of value in column ",
                        self.columns[i].name.as_str(),
                    ),
                );
            }
            i += 1;
        }
        Ok(())
    }

    /// The row of `cells` under this schema, if the cells conform to it.
    pub fn row(&self, cells: Vec<Value>) -> (r: CrushResult<Row>)
        ensures
            r is Ok <==> conforms(self@, values_of(cells@)),
            match r {
                Ok(row) => row@ == values_of(cells@),
                Err(e) => validate_spec(self@, values_of(cells@)) == Err::<(), ErrorView>(e@),
            },
    {
        let row = Row::new(cells);
        match self.validate(&row) {
            Ok(_) => Ok(row),
            Err(e) => Err(e),
        }
    }
}

impl Clone for Schema {
    fn clone(&self) -> (s: Schema)
        ensures
            s@ == self@,
    {
        proof {
            use_type_invariant(self);
        }
        Schema { columns: clone_columns(&self.columns) }
    }
}

} // verus!
