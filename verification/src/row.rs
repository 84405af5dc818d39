//! Rows as the store returns them, and how a row becomes a book.
//!
//! A row is read by position only: the first column is the identifier, the
//! next three are title, author and publication date. Column names play no
//! part, so the order of the columns in the query is what ties a value to its
//! field.

use crate::book::{Book, BookView};
use vstd::prelude::*;

verus! {

/// One value of a row.
#[derive(Debug, PartialEq, Eq)]
pub enum Cell {
    /// SQL `NULL`, whatever the column's type.
    Null,
    /// A 32-bit integer.
    Int(i32),
    /// A text.
    Text(String),
    /// A value of a type that this service does not read.
    Other,
}

/// What a `Cell` means.
pub enum CellView {
    Null,
    Int(int),
    Text(Seq<char>),
    Other,
}

impl View for Cell {
    type V = CellView;

    open spec fn view(&self) -> CellView {
        match self {
            Cell::Null => CellView::Null,
            Cell::Int(number) => CellView::Int(*number as int),
            Cell::Text(text) => CellView::Text(text@),
            Cell::Other => CellView::Other,
        }
    }
}

impl DeepView for Cell {
    type V = CellView;

    open spec fn deep_view(&self) -> CellView {
        self@
    }
}

/// One row of a query result: its values in the order of the columns.
#[derive(Debug, PartialEq, Eq)]
pub struct Row {
    pub cells: Vec<Cell>,
}

impl View for Row {
    type V = Seq<CellView>;

    open spec fn view(&self) -> Seq<CellView> {
        self.cells.deep_view()
    }
}

impl DeepView for Row {
    type V = Seq<CellView>;

    open spec fn deep_view(&self) -> Seq<CellView> {
        self@
    }
}

/// The book that a row holds, read by position: an integer, then three
/// texts. A row that is too short, or has a `NULL` or a value of another type
/// in one of the four places, holds no book. Columns after the fourth are
/// not looked at.
pub open spec fn book_of_row(row: Seq<CellView>) -> Option<BookView> {
    if row.len() >= 4 {
        match (row[0], row[1], row[2], row[3]) {
            (
                CellView::Int(id),
                CellView::Text(title),
                CellView::Text(author),
                CellView::Text(publication_date),
            ) => Some(BookView { id, title, author, publication_date }),
            _ => None,
        }
    } else {
        None
    }
}

/// The books that a result set holds: the book of every row, in the order of
/// the rows. One row that holds no book spoils the whole set.
pub open spec fn books_of_rows(rows: Seq<Seq<CellView>>) -> Option<Seq<BookView>> {
    if forall|i: int| 0 <= i < rows.len() ==> book_of_row(#[trigger] rows[i]) is Some {
        Some(rows.map_values(|row: Seq<CellView>| book_of_row(row).unwrap()))
    } else {
        None
    }
}

/// The books of a result set stand one for one with its rows: there are as
/// many books as rows, and the book at each position is the one that the row
/// at that position holds. Where there are no books, some row holds none.
pub proof fn lemma_books_follow_rows(rows: Seq<Seq<CellView>>)
    ensures
        match books_of_rows(rows) {
            Some(books) => {
                &&& books.len() == rows.len()
                &&& forall|i: int|
                    0 <= i < rows.len() ==> book_of_row(rows[i]) == Some(#[trigger] books[i])
            },
            None => exists|i: int| 0 <= i < rows.len() && book_of_row(#[trigger] rows[i]) is None,
        },
{
}

impl Book {
    /// Reads a book from a row by position, or returns `None` where the row
    /// holds none.
    pub fn from_row(row: &Row) -> (book: Option<Book>)
        ensures
            book.deep_view() == book_of_row(row@),
    {
        if row.cells.len() < 4 {
            return None;
        }
        proof {
            assert(row@[0] == row.cells[0]@);
            assert(row@[1] == row.cells[1]@);
            assert(row@[2] == row.cells[2]@);
            assert(row@[3] == row.cells[3]@);
        }
        match (&row.cells[0], &row.cells[1], &row.cells[2], &row.cells[3]) {
            (Cell::Int(id), Cell::Text(title), Cell::Text(author), Cell::Text(publication_date)) => {
                Some(
                    Book {
                        id: *id,
                        title: title.clone(),
                        author: author.clone(),
                        publication_date: publication_date.clone(),
                    },
                )
            },
            _ => None,
        }
    }
}

/// Reads the book of every row, in order. The result is all or nothing:
/// `None` as soon as one row holds no book.
pub fn books_from_rows(rows: &Vec<Row>) -> (books: Option<Vec<Book>>)
    ensures
        books.deep_view() == books_of_rows(rows.deep_view()),
{
    let mut books: Vec<Book> = Vec::new();
    let mut i: usize = 0;
    while i < rows.len()
        invariant
            i <= rows.len(),
            books.len() == i,
            forall|j: int| 0 <= j < i ==> book_of_row(rows[j]@) == Some((#[trigger] books[j])@),
        decreases rows.len() - i,
    {
        match Book::from_row(&rows[i]) {
            Some(book) => {
                books.push(book);
            },
            None => {
                proof {
                    assert(rows.deep_view()[i as int] == rows[i as int]@);
                }
                return None;
            },
        }
        i += 1;
    }
    proof {
        let all = rows.deep_view();
        assert forall|j: int| 0 <= j < all.len() implies book_of_row(#[trigger] all[j]) is Some by {
            assert(all[j] == rows[j]@);
            assert(book_of_row(rows[j]@) == Some(books[j]@));
        }
        let wanted = all.map_values(|row: Seq<CellView>| book_of_row(row).unwrap());
        assert forall|j: int| 0 <= j < wanted.len() implies books.deep_view()[j] == wanted[j] by {
            assert(all[j] == rows[j]@);
            assert(book_of_row(rows[j]@) == Some(books[j]@));
        }
        assert(books.deep_view() =~= wanted);
    }
    Some(books)
}

} // verus!
