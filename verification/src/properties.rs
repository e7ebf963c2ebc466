//! Laws relating the store operations to each other, proved once and for
//! all over the store's map model and the listing predicate.

use vstd::prelude::*;

use crate::book::{row_of, Book, BookModel};
use crate::db::books_match_store;

verus! {

/// After adding one book to a store and listing it, the listing holds
/// exactly one entry with the new identifier, and that entry carries the
/// added row's fields; a listing of a previously empty store holds
/// nothing else.
pub proof fn lemma_added_book_listed(m0: Map<int, BookModel>, id: int, row: BookModel, v: Seq<Book>)
    requires
        !m0.contains_key(id),
        books_match_store(v, m0.insert(id, row)),
    ensures
        exists|i: int| 0 <= i < v.len() && (#[trigger] v[i]).id as int == id && row_of(v[i]) == row,
        forall|i: int, j: int|
            0 <= i < v.len() && 0 <= j < v.len() && (#[trigger] v[i]).id as int == id && (
            #[trigger] v[j]).id as int == id ==> i == j,
        m0 =~= Map::<int, BookModel>::empty() ==> v.len() == 1,
{
    let m1 = m0.insert(id, row);
    assert(m1.contains_key(id));
    let i = choose|i: int| 0 <= i < v.len() && (#[trigger] v[i]).id as int == id;
    assert(m1[id] == row);
    assert(row_of(v[i]) == row);
    assert forall|a: int, b: int|
        0 <= a < v.len() && 0 <= b < v.len() && (#[trigger] v[a]).id as int == id && (
        #[trigger] v[b]).id as int == id implies a == b by {
        if a < b {
            assert(v[a].id != v[b].id);
        }
        if b < a {
            assert(v[b].id != v[a].id);
        }
    }
    if m0 =~= Map::<int, BookModel>::empty() {
        assert forall|a: int| 0 <= a < v.len() implies (#[trigger] v[a]).id as int == id by {
            assert(m1.contains_key(v[a].id as int));
        }
        assert(v.len() >= 1);
        if v.len() > 1 {
            assert(v[0].id as int == id && v[1].id as int == id);
            assert(false);
        }
    }
}

/// In any listing, a book with a strictly later added timestamp stands
/// strictly before one with an earlier added timestamp.
pub proof fn lemma_newer_listed_first(m: Map<int, BookModel>, v: Seq<Book>, i: int, j: int)
    requires
        books_match_store(v, m),
        0 <= i < v.len(),
        0 <= j < v.len(),
        v[i].added_date > v[j].added_date,
    ensures
        i < j,
{
    if j < i {
        assert(v[j].added_date >= v[i].added_date);
    }
    if i == j {
        assert(false);
    }
}

/// For any two stored books, the one with the strictly later added
/// timestamp is listed at a strictly earlier position.
pub proof fn lemma_later_added_listed_first(m: Map<int, BookModel>, v: Seq<Book>, a: int, b: int)
    requires
        books_match_store(v, m),
        m.contains_key(a),
        m.contains_key(b),
        m[a].added > m[b].added,
    ensures
        exists|i: int, j: int|
            0 <= i < v.len() && 0 <= j < v.len() && (#[trigger] v[i]).id as int == a && (
            #[trigger] v[j]).id as int == b && i < j,
{
    let i = choose|i: int| 0 <= i < v.len() && (#[trigger] v[i]).id as int == a;
    let j = choose|j: int| 0 <= j < v.len() && (#[trigger] v[j]).id as int == b;
    assert(row_of(v[i]) == m[a]);
    assert(row_of(v[j]) == m[b]);
    lemma_newer_listed_first(m, v, i, j);
    assert(0 <= i < v.len() && 0 <= j < v.len() && v[i].id as int == a && v[j].id as int == b && i
        < j);
}

/// Two successive additions yield distinct identifiers: the second
/// identifier is fresh for the store that already holds the first.
pub proof fn lemma_added_ids_distinct(m0: Map<int, BookModel>, id1: int, row1: BookModel, id2: int)
    requires
        !m0.contains_key(id1),
        !m0.insert(id1, row1).contains_key(id2),
    ensures
        id1 != id2,
{
    assert(m0.insert(id1, row1).contains_key(id1));
}

} // verus!
