//! The book record and its mathematical model.
//!
//! A `Book` is the only persistent entity: metadata for one file in the
//! library. Timestamps are carried as microseconds since the Unix epoch, so
//! that contracts can speak of their order directly.

use vstd::prelude::*;

verus! {

/// One row of the book table, as the command surface returns it.
#[derive(Debug, Clone)]
pub struct Book {
    /// Unique identifier, assigned by the store on insertion.
    pub id: i64,
    /// Title; never empty at the command layer.
    pub title: String,
    /// Author; an absent author is stored as the empty string.
    pub author: String,
    /// Path of the book's file; never empty at the command layer.
    pub file_path: String,
    /// When the book was added, in microseconds since the Unix epoch.
    pub added_date: i64,
    /// When the book was last read, if ever.
    pub last_read: Option<i64>,
    /// Reading progress: the page the reader is on. Non-negative.
    pub current_page: i32,
    /// Total number of pages, or 0 when unknown. Non-negative.
    pub total_pages: i32,
}

/// Mathematical model of one stored row, without its identifier
/// (the store keys rows by identifier).
pub struct BookModel {
    pub title: Seq<char>,
    pub author: Seq<char>,
    pub file_path: Seq<char>,
    pub added: int,
    pub last_read: Option<int>,
    pub current_page: int,
    pub total_pages: int,
}

/// The model of everything but the identifier of a returned `Book`.
pub open spec fn row_of(b: Book) -> BookModel {
    BookModel {
        title: b.title@,
        author: b.author@,
        file_path: b.file_path@,
        added: b.added_date as int,
        last_read: match b.last_read {
            Some(t) => Some(t as int),
            None => None,
        },
        current_page: b.current_page as int,
        total_pages: b.total_pages as int,
    }
}

/// The model of a row freshly inserted by the add command: reading progress
/// starts at zero and the book has never been read.
pub open spec fn new_row(
    title: Seq<char>,
    author: Seq<char>,
    file_path: Seq<char>,
    added: int,
    total_pages: int,
) -> BookModel {
    BookModel {
        title: title,
        author: author,
        file_path: file_path,
        added: added,
        last_read: None,
        current_page: 0,
        total_pages: total_pages,
    }
}

} // verus!
