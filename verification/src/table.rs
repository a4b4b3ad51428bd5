//! Reading score collections out of a delimited table.
//!
//! The table has a header row and one column per class: the cell at
//! [`CLASS0_COLUMN`] of a row holds a score of class 0, the cell at
//! [`CLASS1_COLUMN`] a score of class 1. A blank cell holds no score, so
//! the two classes may have different numbers of instances.

use crate::scores::ScoreError;
use vstd::prelude::*;

verus! {

/// Index of the column that holds the scores of class 0.
pub const CLASS0_COLUMN: usize = 1;

/// Index of the column that holds the scores of class 1.
pub const CLASS1_COLUMN: usize = 2;

/// The error of the `csv` crate. It is carried from the reader to
/// [`load_scores`] and never looked into.
#[verifier::external_type_specification]
#[verifier::external_body]
pub struct ExCsvError(csv::Error);

/// What a default `csv` reader makes of `data`: the rows after the header
/// row, each as the texts of its fields, or `None` where reading fails at
/// some row.
pub uninterp spec fn csv_records(data: Seq<u8>) -> Option<Seq<Seq<Seq<char>>>>;

/// The texts of a list of strings.
pub open spec fn texts(cells: Seq<String>) -> Seq<Seq<char>> {
    cells.map_values(|cell: String| cell@)
}

/// The cell texts of a list of rows.
pub open spec fn rows_of(rows: Seq<Vec<String>>) -> Seq<Seq<Seq<char>>> {
    rows.map_values(|row: Vec<String>| texts(row@))
}

/// Trusted: `csv::Reader::from_reader(data).into_records()`, run to the end
/// or to the first error, each record copied out field by field. Nothing
/// about CSV syntax is claimed here, only that the outcome is the one named
/// `csv_records` for these bytes: the rows on success, none on an error.
#[verifier::external_body]
fn read_rows(data: &[u8]) -> (r: Result<Vec<Vec<String>>, csv::Error>)
    ensures
        match r {
            Ok(rows) => csv_records(data@) == Some(rows_of(rows@)),
            Err(_) => csv_records(data@) is None,
        },
{
    let mut rows = Vec::new();
    for record in csv::Reader::from_reader(data).into_records() {
        rows.push(record?.iter().map(String::from).collect());
    }
    Ok(rows)
}

/// A cell holds a score when it is not blank.
pub open spec fn filled(cell: Seq<char>) -> bool {
    cell.len() > 0
}

/// Every row reaches as far as the columns of both classes.
pub open spec fn has_score_columns(rows: Seq<Seq<Seq<char>>>) -> bool {
    forall|i: int| 0 <= i < rows.len() ==> (#[trigger] rows[i]).len() > CLASS1_COLUMN
}

/// The cells of column `col` that hold a score, top to bottom.
pub open spec fn column_scores(rows: Seq<Seq<Seq<char>>>, col: int) -> Seq<Seq<char>> {
    rows.map_values(|row: Seq<Seq<char>>| row[col]).filter(|cell: Seq<char>| filled(cell))
}

/// The score cells of a table, per class and still as text.
#[derive(Debug)]
pub struct ScoreCells {
    pub class0: Vec<String>,
    pub class1: Vec<String>,
}

impl ScoreCells {
    /// The cell texts of class 0 and of class 1.
    pub open spec fn view(&self) -> (Seq<Seq<char>>, Seq<Seq<char>>) {
        (texts(self.class0@), texts(self.class1@))
    }
}

/// The score cells of a table given as rows.
pub open spec fn rows_scores(rows: Seq<Seq<Seq<char>>>) -> Result<
    (Seq<Seq<char>>, Seq<Seq<char>>),
    ScoreError,
> {
    if has_score_columns(rows) {
        Ok((column_scores(rows, CLASS0_COLUMN as int), column_scores(rows, CLASS1_COLUMN as int)))
    } else {
        Err(ScoreError::MissingColumn)
    }
}

/// The score cells of a table given as the outcome of reading it.
pub open spec fn table_scores(parsed: Option<Seq<Seq<Seq<char>>>>) -> Result<
    (Seq<Seq<char>>, Seq<Seq<char>>),
    ScoreError,
> {
    match parsed {
        Some(rows) => rows_scores(rows),
        None => Err(ScoreError::MalformedTable),
    }
}

/// What a function that returns score cells hands back, as texts.
pub open spec fn outcome(r: Result<ScoreCells, ScoreError>) -> Result<
    (Seq<Seq<char>>, Seq<Seq<char>>),
    ScoreError,
> {
    match r {
        Ok(cells) => Ok(cells@),
        Err(e) => Err(e),
    }
}

/// Taking one more row into account appends its cell when it is filled and
/// changes nothing otherwise.
proof fn lemma_column_scores_step(rows: Seq<Seq<Seq<char>>>, n: int, col: int)
    requires
        0 <= n < rows.len(),
    ensures
        column_scores(rows.take(n + 1), col) == if filled(rows[n][col]) {
            column_scores(rows.take(n), col).push(rows[n][col])
        } else {
            column_scores(rows.take(n), col)
        },
{
    let pick = |row: Seq<Seq<char>>| row[col];
    let longer = rows.take(n + 1).map_values(pick);
    assert(longer.drop_last() =~= rows.take(n).map_values(pick));
    assert(longer.last() == rows[n][col]);
    reveal(Seq::filter);
}

/// Blank cells hold no score: every cell taken from a column is filled, and
/// a column gives at most one score per row.
pub proof fn lemma_column_scores_filled(rows: Seq<Seq<Seq<char>>>, col: int)
    ensures
        column_scores(rows, col).len() <= rows.len(),
        forall|i: int|
            0 <= i < column_scores(rows, col).len() ==> filled(
                #[trigger] column_scores(rows, col)[i],
            ),
{
    let cells = rows.map_values(|row: Seq<Seq<char>>| row[col]);
    let keep = |cell: Seq<char>| filled(cell);
    cells.lemma_filter_len(keep);
    assert forall|i: int| 0 <= i < cells.filter(keep).len() implies filled(
        #[trigger] cells.filter(keep)[i],
    ) by {
        cells.lemma_filter_pred(keep, i);
    }
}

/// Appends the text of `cell` to `cells` when it is filled.
fn keep_filled(cells: &mut Vec<String>, cell: &str)
    ensures
        texts(final(cells)@) == if filled(cell@) {
            texts(old(cells)@).push(cell@)
        } else {
            texts(old(cells)@)
        },
{
    if !cell.is_empty() {
        let owned = cell.to_owned();
        cells.push(owned);
        assert(texts(cells@) =~= texts(old(cells)@).push(cell@));
    }
}

/// Collects the score cells of both classes from the rows of a table.
/// Fails when some row is too short to have a cell for each class.
pub fn score_cells(rows: &Vec<Vec<String>>) -> (r: Result<ScoreCells, ScoreError>)
    ensures
        outcome(r) == rows_scores(rows_of(rows@)),
{
    let ghost table = rows_of(rows@);
    let mut class0: Vec<String> = Vec::new();
    let mut class1: Vec<String> = Vec::new();
    let mut n: usize = 0;
    proof {
        reveal(Seq::filter);
        assert(table.take(0).map_values(|row: Seq<Seq<char>>| row[CLASS0_COLUMN as int])
            =~= seq![]);
        assert(table.take(0).map_values(|row: Seq<Seq<char>>| row[CLASS1_COLUMN as int])
            =~= seq![]);
        assert(texts(class0@) =~= seq![]);
        assert(texts(class1@) =~= seq![]);
    }
    while n < rows.len()
        invariant
            n <= rows.len(),
            table == rows_of(rows@),
            has_score_columns(table.take(n as int)),
            texts(class0@) == column_scores(table.take(n as int), CLASS0_COLUMN as int),
            texts(class1@) == column_scores(table.take(n as int), CLASS1_COLUMN as int),
        decreases rows.len() - n,
    {
        let row = &rows[n];
        assert(table[n as int] == texts(row@));
        if row.len() <= CLASS1_COLUMN {
            return Err(ScoreError::MissingColumn);
        }
        keep_filled(&mut class0, row[CLASS0_COLUMN].as_str());
        keep_filled(&mut class1, row[CLASS1_COLUMN].as_str());
        proof {
            lemma_column_scores_step(table, n as int, CLASS0_COLUMN as int);
            lemma_column_scores_step(table, n as int, CLASS1_COLUMN as int);
            assert forall|i: int| 0 <= i < n + 1 implies (#[trigger] table.take(n + 1)[i]).len()
                > CLASS1_COLUMN by {
                if i < n {
                    assert(table.take(n as int)[i] == table[i]);
                }
            }
        }
        n = n + 1;
    }
    assert(table.take(n as int) =~= table);
    Ok(ScoreCells { class0, class1 })
}

/// Reads the score cells of both classes from the bytes of a table.
/// Fails when the bytes are not a well-formed table, and when a row has no
/// cell for one of the classes.
pub fn load_scores(data: &[u8]) -> (r: Result<ScoreCells, ScoreError>)
    ensures
        outcome(r) == table_scores(csv_records(data@)),
{
    match read_rows(data) {
        Ok(rows) => score_cells(&rows),
        Err(_) => Err(ScoreError::MalformedTable),
    }
}

} // verus!
