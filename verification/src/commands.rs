//! The command surface: the synchronous request/response functions the
//! frontend invokes, one store or engine operation each.
//!
//! Titles and file paths must be non-empty and page counts non-negative
//! here — enforcing the data-model invariants is this layer's caller's
//! responsibility, stated as preconditions. The two PDF commands are
//! integration placeholders and answer `NotImplemented` rather than a
//! silently wrong constant.

use vstd::prelude::*;

use crate::ai_engine::{search_hits, AIEngine, SearchResult};
use crate::book::{new_row, Book};
use crate::db::{books_match_store, Store};
use crate::errors::CommandError;
use crate::text::lower_of;

verus! {

/// An absent author is stored as the empty string.
pub open spec fn author_or_empty(author: Option<String>) -> Seq<char> {
    match author {
        Some(a) => a@,
        None => Seq::empty(),
    }
}

/// An absent page count defaults to zero.
pub open spec fn pages_or_zero(total_pages: Option<i32>) -> int {
    match total_pages {
        Some(p) => p as int,
        None => 0,
    }
}

/// A given page count must be non-negative.
pub open spec fn valid_pages(total_pages: Option<i32>) -> bool {
    match total_pages {
        Some(p) => p >= 0,
        None => true,
    }
}

/// Relies on `std::time::SystemTime::now`: the clock's value depends on
/// the environment, so nothing is promised of the result.
#[verifier::external_body]
fn now_micros() -> u64 {
    match std::time::SystemTime::now().duration_since(std::time::UNIX_EPOCH) {
        Ok(d) => d.as_micros() as u64,
        Err(_) => 0,
    }
}

/// Add a book with the given metadata, stamped with the given added
/// timestamp. Returns the fresh identifier the store assigned; fails only
/// when the identifier space is exhausted.
pub fn add_book_at(
    store: &mut Store,
    title: String,
    author: Option<String>,
    file_path: String,
    total_pages: Option<i32>,
    added_micros: i64,
) -> (r: Result<i64, CommandError>)
    requires
        old(store).wf(),
        title@.len() > 0,
        file_path@.len() > 0,
        valid_pages(total_pages),
        added_micros >= 0,
    ensures
        final(store).wf(),
        r is Ok <==> !old(store).at_capacity(),
        r matches Ok(id) ==> 1 <= id && !old(store)@.contains_key(id as int) && final(store)@
            == old(store)@.insert(
            id as int,
            new_row(
                title@,
                author_or_empty(author),
                file_path@,
                added_micros as int,
                pages_or_zero(total_pages),
            ),
        ),
        r is Err ==> *final(store) == *old(store) && r->Err_0 is Storage,
{
    let author_s = match author {
        Some(a) => a,
        None => String::new(),
    };
    let pages = match total_pages {
        Some(p) => p,
        None => 0,
    };
    store.create(title, author_s, file_path, pages, added_micros)
}

/// Add a book with the given metadata, stamped with the present time.
/// Returns the fresh identifier the store assigned; fails only when the
/// identifier space is exhausted.
pub fn add_book(
    store: &mut Store,
    title: String,
    author: Option<String>,
    file_path: String,
    total_pages: Option<i32>,
) -> (r: Result<i64, CommandError>)
    requires
        old(store).wf(),
        title@.len() > 0,
        file_path@.len() > 0,
        valid_pages(total_pages),
    ensures
        final(store).wf(),
        r is Ok <==> !old(store).at_capacity(),
        r matches Ok(id) ==> 1 <= id && !old(store)@.contains_key(id as int) && (exists|t: int|
            0 <= t && final(store)@ == old(store)@.insert(
                id as int,
                new_row(
                    title@,
                    author_or_empty(author),
                    file_path@,
                    t,
                    pages_or_zero(total_pages),
                ),
            )),
        r is Err ==> *final(store) == *old(store) && r->Err_0 is Storage,
{
    let raw = now_micros();
    let added: i64 = if raw > i64::MAX as u64 {
        i64::MAX
    } else {
        raw as i64
    };
    let r = add_book_at(store, title, author, file_path, total_pages, added);
    proof {
        if r is Ok {
            let id = r->Ok_0;
            assert(0 <= added as int && store@ == old(store)@.insert(
                id as int,
                new_row(
                    title@,
                    author_or_empty(author),
                    file_path@,
                    added as int,
                    pages_or_zero(total_pages),
                ),
            ));
        }
    }
    r
}

/// All books, ordered by added timestamp, newest first. An empty store
/// yields an empty listing, not an error.
pub fn get_books(store: &Store) -> (r: Result<Vec<Book>, CommandError>)
    requires
        store.wf(),
    ensures
        r is Ok,
        r matches Ok(v) ==> books_match_store(v@, store@),
        r matches Ok(v) ==> (v@.len() == 0 <==> store@.dom() =~= Set::<int>::empty()),
{
    let v = store.list();
    proof {
        if v@.len() > 0 {
            assert(store@.contains_key(v@[0].id as int));
            assert(store@.dom().contains(v@[0].id as int));
        }
        if v@.len() == 0 {
            assert forall|k: int| !(#[trigger] store@.dom().contains(k)) by {
                if store@.contains_key(k) {
                    let i = choose|i: int| 0 <= i < v@.len() && (#[trigger] v@[i]).id as int == k;
                    assert(false);
                }
            }
            assert(store@.dom() =~= Set::<int>::empty());
        }
    }
    Ok(v)
}

/// Delete the book with the given identifier. Removes exactly that row;
/// deleting an absent identifier succeeds and changes nothing.
pub fn delete_book(store: &mut Store, id: i64) -> (r: Result<(), CommandError>)
    requires
        old(store).wf(),
    ensures
        final(store).wf(),
        r is Ok,
        final(store)@ == old(store)@.remove(id as int),
        !old(store)@.contains_key(id as int) ==> final(store)@ == old(store)@,
        !final(store)@.contains_key(id as int),
        forall|k: int|
            k != id as int && old(store)@.contains_key(k) ==> final(store)@.contains_key(k)
                && final(store)@[k] == old(store)@[k],
        forall|k: int| #[trigger]
            final(store)@.contains_key(k) ==> old(store)@.contains_key(k) && final(store)@[k]
                == old(store)@[k],
{
    let r = store.delete(id);
    proof {
        assert(store@ == old(store)@.remove(id as int));
        if !old(store)@.contains_key(id as int) {
            assert(store@ =~= old(store)@);
        }
    }
    r
}

/// Open a native file picker for a PDF. There is no picker behind this
/// command yet: it answers `NotImplemented`.
pub fn select_pdf_file() -> (r: Result<Option<String>, CommandError>)
    ensures
        r matches Err(e) && e is NotImplemented,
{
    Err(CommandError::NotImplemented)
}

/// Report the number of pages of a PDF. There is no parser behind this
/// command yet: it answers `NotImplemented`.
pub fn get_pdf_page_count(_file_path: String) -> (r: Result<i32, CommandError>)
    ensures
        r matches Err(e) && e is NotImplemented,
{
    Err(CommandError::NotImplemented)
}

/// The fixed two-text corpus the search stub runs over, standing in for
/// text extracted from the stored books.
pub open spec fn corpus() -> Seq<Seq<char>> {
    seq![
        "Rustは安全性とパフォーマンスを両立したシステムプログラミング言語です。"@,
        "所有権システムによりメモリ安全性を保証します。"@,
    ]
}

/// Case-insensitive search for the query over the fixed corpus: one
/// match per matching line, with its source index and line number.
pub fn search_books(engine: &AIEngine, query: String) -> (r: Result<
    Vec<SearchResult>,
    CommandError,
>)
    ensures
        r is Ok,
        r matches Ok(v) ==> v@.map_values(|x: SearchResult| x@) == search_hits(
            corpus(),
            lower_of(query@),
            0,
        ),
{
    let mut books_content: Vec<String> = Vec::new();
    books_content.push(
        String::from_str("Rustは安全性とパフォーマンスを両立したシステムプログラミング言語です。"),
    );
    books_content.push(String::from_str("所有権システムによりメモリ安全性を保証します。"));
    proof {
        assert(books_content@.map_values(|c: String| c@) =~= corpus());
    }
    engine.search_in_books(query.as_str(), books_content)
}

/// Answer a question over some context through the placeholder engine:
/// a fixed templated string embedding the question.
pub fn ask_ai(engine: &AIEngine, question: String, context: String) -> (r: Result<
    String,
    CommandError,
>)
    ensures
        r is Ok,
        r matches Ok(s) ==> s@ == "質問「"@ + question@
            + "」に関する情報:\n\nコンテキストから関連情報を検索中...\n(AI機能は今後拡張予定)"@,
{
    engine.answer_question(question.as_str(), context.as_str())
}

} // verus!
