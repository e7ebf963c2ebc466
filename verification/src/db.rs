//! The book store: the single table of book rows.
//!
//! The store keeps its rows in memory, ordered newest-first by added
//! timestamp, and assigns identifiers from a monotonic counter, so two
//! inserts can never collide. Its mathematical model is a finite map from
//! identifier to row (`BookModel`); every operation's contract is stated
//! over that map. The embedding application persists and reloads the rows
//! (`Store::from_books`) around this store.

use vstd::prelude::*;

use crate::book::{row_of, Book, BookModel};
use crate::errors::CommandError;

verus! {

/// A stored row is valid when it meets the data-model invariants: a
/// positive identifier below the counter ceiling, non-empty title and file
/// path, a non-negative added timestamp and non-negative page counts.
pub open spec fn valid_book_row(b: Book) -> bool {
    &&& 1 <= b.id < i64::MAX
    &&& b.title@.len() > 0
    &&& b.file_path@.len() > 0
    &&& b.added_date >= 0
    &&& match b.last_read {
        Some(t) => t >= 0,
        None => true,
    }
    &&& b.current_page >= 0
    &&& b.total_pages >= 0
}

/// The map model of a sequence of rows: each row keyed by its identifier.
pub open spec fn books_map(s: Seq<Book>) -> Map<int, BookModel>
    decreases s.len(),
{
    if s.len() == 0 {
        Map::empty()
    } else {
        books_map(s.drop_first()).insert(s.first().id as int, row_of(s.first()))
    }
}

/// A listing agrees with a store model when: every listed book is a stored
/// row, every stored row is listed, no identifier is listed twice, and the
/// listing is ordered by added timestamp, newest first.
pub open spec fn books_match_store(v: Seq<Book>, m: Map<int, BookModel>) -> bool {
    &&& forall|i: int|
        0 <= i < v.len() ==> m.contains_key((#[trigger] v[i]).id as int) && m[v[i].id as int]
            == row_of(v[i])
    &&& forall|k: int| #[trigger] m.contains_key(k) ==> exists|i: int|
        0 <= i < v.len() && (#[trigger] v[i]).id as int == k
    &&& forall|i: int, j: int|
        0 <= i < j < v.len() ==> (#[trigger] v[i]).id != (#[trigger] v[j]).id
    &&& forall|i: int, j: int|
        0 <= i < j < v.len() ==> (#[trigger] v[i]).added_date >= (#[trigger] v[j]).added_date
}

/// A sequence of rows can be loaded into a store when every row is valid
/// and no identifier repeats.
pub open spec fn rows_loadable(l: Seq<Book>) -> bool {
    &&& forall|i: int| 0 <= i < l.len() ==> valid_book_row(#[trigger] l[i])
    &&& forall|i: int, j: int| 0 <= i < j < l.len() ==> (#[trigger] l[i]).id != (#[trigger] l[j]).id
}

/// A store model holds exactly the rows of a sequence, in whatever order.
pub open spec fn same_contents(m: Map<int, BookModel>, l: Seq<Book>) -> bool {
    &&& forall|i: int|
        0 <= i < l.len() ==> m.contains_key((#[trigger] l[i]).id as int) && m[l[i].id as int]
            == row_of(l[i])
    &&& forall|k: int| #[trigger] m.contains_key(k) ==> exists|i: int|
        0 <= i < l.len() && (#[trigger] l[i]).id as int == k
}

/// Each row of a sequence with distinct identifiers is in its map model,
/// with its own fields, and the map holds nothing else.
proof fn lemma_books_map_sound(s: Seq<Book>)
    requires
        forall|i: int, j: int| 0 <= i < j < s.len() ==> (#[trigger] s[i]).id != (#[trigger] s[j]).id,
    ensures
        forall|i: int|
            0 <= i < s.len() ==> books_map(s).contains_key((#[trigger] s[i]).id as int)
                && books_map(s)[s[i].id as int] == row_of(s[i]),
        forall|k: int| #[trigger] books_map(s).contains_key(k) ==> exists|i: int|
            0 <= i < s.len() && (#[trigger] s[i]).id as int == k,
    decreases s.len(),
{
    if s.len() > 0 {
        let t = s.drop_first();
        assert forall|i: int, j: int|
            0 <= i < j < t.len() implies (#[trigger] t[i]).id != (#[trigger] t[j]).id by {
            assert(t[i] == s[i + 1]);
            assert(t[j] == s[j + 1]);
        }
        lemma_books_map_sound(t);
        assert(s.first() == s[0]);
        assert forall|i: int|
            0 <= i < s.len() implies books_map(s).contains_key((#[trigger] s[i]).id as int)
                && books_map(s)[s[i].id as int] == row_of(s[i]) by {
            if i > 0 {
                assert(t[i - 1] == s[i]);
                assert(s[0].id != s[i].id);
            }
        }
        assert forall|k: int| #[trigger] books_map(s).contains_key(k) implies exists|i: int|
            0 <= i < s.len() && (#[trigger] s[i]).id as int == k by {
            if k == s[0].id as int {
                assert(0 <= 0 < s.len() && s[0].id as int == k);
            } else {
                assert(books_map(t).contains_key(k));
                let i = choose|i: int| 0 <= i < t.len() && (#[trigger] t[i]).id as int == k;
                assert(s[i + 1] == t[i]);
                assert(0 <= i + 1 < s.len() && s[i + 1].id as int == k);
            }
        }
    }
}

/// Inserting a row with a fresh identifier anywhere in the sequence
/// inserts exactly that row into the map model.
proof fn lemma_books_map_insert(s: Seq<Book>, p: int, b: Book)
    requires
        0 <= p <= s.len(),
        forall|i: int| 0 <= i < s.len() ==> (#[trigger] s[i]).id != b.id,
    ensures
        books_map(s.insert(p, b)) =~= books_map(s).insert(b.id as int, row_of(b)),
    decreases p,
{
    let si = s.insert(p, b);
    if p == 0 {
        assert(si.first() == b);
        assert(si.drop_first() =~= s);
    } else {
        let t = s.drop_first();
        assert(si.first() == s.first());
        assert(si.drop_first() =~= t.insert(p - 1, b));
        assert forall|i: int| 0 <= i < t.len() implies (#[trigger] t[i]).id != b.id by {
            assert(t[i] == s[i + 1]);
        }
        lemma_books_map_insert(t, p - 1, b);
        assert(s[0].id != b.id);
        assert(books_map(t).insert(b.id as int, row_of(b)).insert(
            s.first().id as int,
            row_of(s.first()),
        ) =~= books_map(t).insert(s.first().id as int, row_of(s.first())).insert(
            b.id as int,
            row_of(b),
        ));
    }
}

/// Removing the row at one position removes exactly its identifier from
/// the map model, when identifiers are distinct.
proof fn lemma_books_map_remove(s: Seq<Book>, p: int)
    requires
        0 <= p < s.len(),
        forall|i: int, j: int| 0 <= i < j < s.len() ==> (#[trigger] s[i]).id != (#[trigger] s[j]).id,
    ensures
        books_map(s.remove(p)) =~= books_map(s).remove(s[p].id as int),
    decreases p,
{
    let t = s.drop_first();
    assert forall|i: int, j: int|
        0 <= i < j < t.len() implies (#[trigger] t[i]).id != (#[trigger] t[j]).id by {
        assert(t[i] == s[i + 1]);
        assert(t[j] == s[j + 1]);
    }
    if p == 0 {
        assert(s.remove(0) =~= t);
        lemma_books_map_sound(t);
        assert(!books_map(t).contains_key(s[0].id as int)) by {
            if books_map(t).contains_key(s[0].id as int) {
                let i = choose|i: int| 0 <= i < t.len() && (#[trigger] t[i]).id as int
                    == s[0].id as int;
                assert(t[i] == s[i + 1]);
                assert(false);
            }
        }
        assert(books_map(t).insert(s.first().id as int, row_of(s.first())).remove(
            s[0].id as int,
        ) =~= books_map(t));
    } else {
        assert(s.remove(p).first() == s.first());
        assert(s.remove(p).drop_first() =~= t.remove(p - 1));
        lemma_books_map_remove(t, p - 1);
        assert(t[p - 1] == s[p]);
        assert(s[0].id != s[p].id);
        assert(books_map(t).remove(s[p].id as int).insert(
            s.first().id as int,
            row_of(s.first()),
        ) =~= books_map(t).insert(s.first().id as int, row_of(s.first())).remove(
            s[p].id as int,
        ));
    }
}

/// A field-for-field copy of a row.
fn clone_book(b: &Book) -> (r: Book)
    ensures
        r == *b,
{
    Book {
        id: b.id,
        title: b.title.clone(),
        author: b.author.clone(),
        file_path: b.file_path.clone(),
        added_date: b.added_date,
        last_read: b.last_read,
        current_page: b.current_page,
        total_pages: b.total_pages,
    }
}

/// The book metadata store.
pub struct Store {
    /// The rows, kept sorted by added timestamp, newest first.
    books: Vec<Book>,
    /// The next identifier to assign; strictly above every stored identifier.
    next_id: i64,
}

impl Store {
    /// The store's model: its rows as a map from identifier to row.
    pub closed spec fn view(&self) -> Map<int, BookModel> {
        books_map(self.books@)
    }

    /// Internal well-formedness: every row valid and below the counter,
    /// identifiers distinct, rows sorted newest-first.
    pub closed spec fn wf(&self) -> bool {
        &&& 1 <= self.next_id
        &&& forall|i: int|
            0 <= i < self.books@.len() ==> valid_book_row(#[trigger] self.books@[i])
                && self.books@[i].id < self.next_id
        &&& forall|i: int, j: int|
            0 <= i < j < self.books@.len() ==> (#[trigger] self.books@[i]).id != (
            #[trigger] self.books@[j]).id
        &&& forall|i: int, j: int|
            0 <= i < j < self.books@.len() ==> (#[trigger] self.books@[i]).added_date >= (
            #[trigger] self.books@[j]).added_date
    }

    /// The identifier space is exhausted: no further row can be added.
    pub closed spec fn at_capacity(&self) -> bool {
        self.next_id == i64::MAX
    }

    /// An empty store.
    pub fn new() -> (s: Store)
        ensures
            s.wf(),
            s@ == Map::<int, BookModel>::empty(),
            !s.at_capacity(),
    {
        Store { books: Vec::new(), next_id: 1 }
    }

    /// Whether a row with this identifier is stored.
    fn contains_id(&self, id: i64) -> (r: bool)
        requires
            self.wf(),
        ensures
            r == self@.contains_key(id as int),
    {
        let n = self.books.len();
        let mut i: usize = 0;
        while i < n
            invariant
                self.wf(),
                n == self.books@.len(),
                i <= n,
                forall|j: int| 0 <= j < i ==> (#[trigger] self.books@[j]).id != id,
            decreases n - i,
        {
            if self.books[i].id == id {
                proof {
                    lemma_books_map_sound(self.books@);
                    assert(books_map(self.books@).contains_key(self.books@[i as int].id as int));
                }
                return true;
            }
            i += 1;
        }
        proof {
            lemma_books_map_sound(self.books@);
            assert(!self@.contains_key(id as int)) by {
                if self@.contains_key(id as int) {
                    let j = choose|j: int|
                        0 <= j < self.books@.len() && (#[trigger] self.books@[j]).id as int
                            == id as int;
                    assert(false);
                }
            }
        }
        false
    }

    /// Insert a valid row with a fresh identifier at its sorted position.
    fn insert_row(&mut self, b: Book)
        requires
            old(self).wf(),
            valid_book_row(b),
            b.id < old(self).next_id,
            !old(self)@.contains_key(b.id as int),
        ensures
            final(self).wf(),
            final(self)@ =~= old(self)@.insert(b.id as int, row_of(b)),
            final(self).next_id == old(self).next_id,
    {
        let ghost s0 = self.books@;
        proof {
            lemma_books_map_sound(s0);
            assert forall|i: int| 0 <= i < s0.len() implies (#[trigger] s0[i]).id != b.id by {
                if s0[i].id == b.id {
                    assert(books_map(s0).contains_key(b.id as int));
                }
            }
        }
        let n = self.books.len();
        let mut p: usize = 0;
        while p < n && self.books[p].added_date > b.added_date
            invariant
                *self == *old(self),
                n == self.books@.len(),
                p <= n,
                forall|i: int| 0 <= i < p ==> (#[trigger] self.books@[i]).added_date
                    > b.added_date,
            decreases n - p,
        {
            p += 1;
        }
        self.books.insert(p, b);
        proof {
            lemma_books_map_insert(s0, p as int, b);
            let ns = self.books@;
            assert(ns == s0.insert(p as int, b));
            assert forall|i: int, j: int|
                0 <= i < j < ns.len() implies (#[trigger] ns[i]).added_date >= (
            #[trigger] ns[j]).added_date by {
                if j < p {
                    assert(ns[i] == s0[i] && ns[j] == s0[j]);
                } else if j == p {
                    assert(ns[i] == s0[i]);
                } else {
                    assert(ns[j] == s0[j - 1]);
                    if i < p {
                        assert(ns[i] == s0[i]);
                    } else if i == p {
                        if p < s0.len() {
                            assert(s0[p as int].added_date <= b.added_date);
                            assert(s0[p as int].added_date >= s0[j - 1].added_date || p as int == j
                                - 1);
                        }
                    } else {
                        assert(ns[i] == s0[i - 1]);
                    }
                }
            }
            assert forall|i: int, j: int|
                0 <= i < j < ns.len() implies (#[trigger] ns[i]).id != (#[trigger] ns[j]).id by {
                if i != p && j != p {
                    let i0 = if i < p {
                        i
                    } else {
                        i - 1
                    };
                    let j0 = if j < p {
                        j
                    } else {
                        j - 1
                    };
                    assert(ns[i] == s0[i0] && ns[j] == s0[j0]);
                }
            }
        }
    }

    /// Create a new row from the given fields, assigning it a fresh
    /// identifier. Fails only when the identifier space is exhausted.
    pub fn create(
        &mut self,
        title: String,
        author: String,
        file_path: String,
        total_pages: i32,
        added_micros: i64,
    ) -> (r: Result<i64, CommandError>)
        requires
            old(self).wf(),
            title@.len() > 0,
            file_path@.len() > 0,
            total_pages >= 0,
            added_micros >= 0,
        ensures
            final(self).wf(),
            r is Ok <==> !old(self).at_capacity(),
            r matches Ok(id) ==> 1 <= id && !old(self)@.contains_key(id as int) && final(self)@
                =~= old(self)@.insert(
                id as int,
                crate::book::new_row(
                    title@,
                    author@,
                    file_path@,
                    added_micros as int,
                    total_pages as int,
                ),
            ),
            r is Err ==> *final(self) == *old(self) && r->Err_0 is Storage,
    {
        if self.next_id == i64::MAX {
            return Err(
                CommandError::Storage(String::from_str("book store identifier space exhausted")),
            );
        }
        let id = self.next_id;
        self.next_id = self.next_id + 1;
        let b = Book {
            id,
            title,
            author,
            file_path,
            added_date: added_micros,
            last_read: None,
            current_page: 0,
            total_pages,
        };
        proof {
            lemma_books_map_sound(self.books@);
            assert(!self@.contains_key(id as int)) by {
                if self@.contains_key(id as int) {
                    let i = choose|i: int|
                        0 <= i < self.books@.len() && (#[trigger] self.books@[i]).id as int
                            == id as int;
                    assert(false);
                }
            }
            assert(row_of(b) == crate::book::new_row(
                b.title@,
                b.author@,
                b.file_path@,
                added_micros as int,
                total_pages as int,
            ));
        }
        self.insert_row(b);
        Ok(id)
    }

    /// All rows, ordered by added timestamp, newest first.
    pub fn list(&self) -> (v: Vec<Book>)
        requires
            self.wf(),
        ensures
            books_match_store(v@, self@),
    {
        proof {
            lemma_books_map_sound(self.books@);
        }
        let n = self.books.len();
        let mut v: Vec<Book> = Vec::new();
        let mut i: usize = 0;
        while i < n
            invariant
                n == self.books@.len(),
                i <= n,
                v@.len() == i,
                forall|j: int| 0 <= j < i ==> #[trigger] v@[j] == self.books@[j],
            decreases n - i,
        {
            let b = clone_book(&self.books[i]);
            v.push(b);
            i += 1;
        }
        proof {
            assert forall|k: int| #[trigger] self@.contains_key(k) implies exists|j: int|
                0 <= j < v@.len() && (#[trigger] v@[j]).id as int == k by {
                let j = choose|j: int|
                    0 <= j < self.books@.len() && (#[trigger] self.books@[j]).id as int == k;
                assert(v@[j] == self.books@[j]);
                assert(0 <= j < v@.len() && v@[j].id as int == k);
            }
        }
        v
    }

    /// Remove the row with the given identifier; removing an absent
    /// identifier is a no-op, not an error.
    pub fn delete(&mut self, id: i64) -> (r: Result<(), CommandError>)
        requires
            old(self).wf(),
        ensures
            final(self).wf(),
            r is Ok,
            final(self)@ =~= old(self)@.remove(id as int),
    {
        let n = self.books.len();
        let mut i: usize = 0;
        while i < n && self.books[i].id != id
            invariant
                *self == *old(self),
                n == self.books@.len(),
                i <= n,
                forall|j: int| 0 <= j < i ==> (#[trigger] self.books@[j]).id != id,
            decreases n - i,
        {
            i += 1;
        }
        if i < n {
            let ghost s0 = self.books@;
            proof {
                lemma_books_map_sound(s0);
                lemma_books_map_remove(s0, i as int);
            }
            self.books.remove(i);
            proof {
                let ns = self.books@;
                assert(ns == s0.remove(i as int));
                assert forall|a: int| 0 <= a < ns.len() implies #[trigger] ns[a] == (if a < i {
                    s0[a]
                } else {
                    s0[a + 1]
                }) by {
                    assert(ns[a] == s0.remove(i as int)[a]);
                }
                assert forall|a: int, b: int|
                    0 <= a < b < ns.len() implies (#[trigger] ns[a]).id != (#[trigger] ns[b]).id
                        && ns[a].added_date >= ns[b].added_date by {
                    let a0 = if a < i {
                        a
                    } else {
                        a + 1
                    };
                    let b0 = if b < i {
                        b
                    } else {
                        b + 1
                    };
                    assert(ns[a] == s0[a0] && ns[b] == s0[b0]);
                }
            }
            Ok(())
        } else {
            proof {
                lemma_books_map_sound(self.books@);
                assert(!self@.contains_key(id as int)) by {
                    if self@.contains_key(id as int) {
                        let j = choose|j: int|
                            0 <= j < self.books@.len() && (#[trigger] self.books@[j]).id as int
                                == id as int;
                        assert(false);
                    }
                }
                assert(self@.remove(id as int) =~= self@);
            }
            Ok(())
        }
    }

    /// Rebuild a store from previously listed rows, validating each one.
    /// Fails exactly when some row is invalid or two rows share an
    /// identifier.
    pub fn from_books(list: Vec<Book>) -> (r: Result<Store, CommandError>)
        ensures
            r is Ok <==> rows_loadable(list@),
            r matches Ok(s) ==> s.wf() && same_contents(s@, list@),
    {
        let mut st = Store::new();
        let n = list.len();
        let mut idx: usize = 0;
        while idx < n
            invariant
                st.wf(),
                n == list@.len(),
                idx <= n,
                forall|i: int| 0 <= i < idx ==> valid_book_row(#[trigger] list@[i]),
                forall|i: int, j: int|
                    0 <= i < j < idx ==> (#[trigger] list@[i]).id != (#[trigger] list@[j]).id,
                forall|i: int|
                    0 <= i < idx ==> st@.contains_key((#[trigger] list@[i]).id as int)
                        && st@[list@[i].id as int] == row_of(list@[i]),
                forall|k: int| #[trigger] st@.contains_key(k) ==> exists|i: int|
                    0 <= i < idx && (#[trigger] list@[i]).id as int == k,
            decreases n - idx,
        {
            let b = clone_book(&list[idx]);
            let valid = 1 <= b.id && b.id < i64::MAX && !b.title.as_str().is_empty()
                && !b.file_path.as_str().is_empty() && b.added_date >= 0 && (match b.last_read {
                Some(t) => t >= 0,
                None => true,
            }) && b.current_page >= 0 && b.total_pages >= 0;
            if !valid {
                assert(!valid_book_row(list@[idx as int]));
                return Err(CommandError::Storage(String::from_str("invalid book row")));
            }
            if st.contains_id(b.id) {
                proof {
                    let i = choose|i: int|
                        0 <= i < idx && (#[trigger] list@[i]).id as int == b.id as int;
                    assert(list@[i].id == list@[idx as int].id);
                }
                return Err(CommandError::Storage(String::from_str("duplicate book identifier")));
            }
            proof {
                assert forall|i: int| 0 <= i < idx implies (#[trigger] list@[i]).id != b.id by {
                    if list@[i].id == b.id {
                        assert(st@.contains_key(list@[i].id as int));
                    }
                }
            }
            if b.id >= st.next_id {
                st.next_id = b.id + 1;
            }
            st.insert_row(b);
            idx += 1;
        }
        Ok(st)
    }
}

} // verus!
