use axiotome::book::Book;
use axiotome::commands::{add_book, add_book_at, delete_book, get_books};
use axiotome::db::Store;
use axiotome::errors::CommandError;

#[test]
fn add_then_list_roundtrip() {
    let mut st = Store::new();
    let id = add_book_at(
        &mut st,
        String::from("Dune"),
        Some(String::from("Frank Herbert")),
        String::from("/books/dune.pdf"),
        Some(412),
        100,
    )
    .unwrap();
    let books = get_books(&st).unwrap();
    assert_eq!(books.len(), 1);
    let b = &books[0];
    assert_eq!(b.id, id);
    assert_eq!(b.title, "Dune");
    assert_eq!(b.author, "Frank Herbert");
    assert_eq!(b.file_path, "/books/dune.pdf");
    assert_eq!(b.added_date, 100);
    assert_eq!(b.last_read, None);
    assert_eq!(b.current_page, 0);
    assert_eq!(b.total_pages, 412);
}

#[test]
fn add_defaults_author_and_pages() {
    let mut st = Store::new();
    add_book_at(
        &mut st,
        String::from("Untitled Draft"),
        None,
        String::from("/books/draft.pdf"),
        None,
        5,
    )
    .unwrap();
    let books = get_books(&st).unwrap();
    assert_eq!(books.len(), 1);
    assert_eq!(books[0].author, "");
    assert_eq!(books[0].total_pages, 0);
}

#[test]
fn empty_store_lists_empty() {
    let st = Store::new();
    let books = get_books(&st).unwrap();
    assert!(books.is_empty());
}

#[test]
fn delete_missing_id_is_noop() {
    let mut st = Store::new();
    let id = add_book_at(
        &mut st,
        String::from("Kept"),
        None,
        String::from("/books/kept.pdf"),
        None,
        1,
    )
    .unwrap();
    delete_book(&mut st, id + 1000).unwrap();
    let books = get_books(&st).unwrap();
    assert_eq!(books.len(), 1);
    assert_eq!(books[0].id, id);
    assert_eq!(books[0].title, "Kept");
}

#[test]
fn delete_present_removes_exactly_that_row() {
    let mut st = Store::new();
    let a = add_book_at(&mut st, String::from("A"), None, String::from("/a"), Some(1), 10)
        .unwrap();
    let b = add_book_at(&mut st, String::from("B"), None, String::from("/b"), Some(2), 20)
        .unwrap();
    let c = add_book_at(&mut st, String::from("C"), None, String::from("/c"), Some(3), 30)
        .unwrap();
    delete_book(&mut st, b).unwrap();
    let books = get_books(&st).unwrap();
    assert_eq!(books.len(), 2);
    let ids: Vec<i64> = books.iter().map(|x| x.id).collect();
    assert!(ids.contains(&a));
    assert!(ids.contains(&c));
    assert!(!ids.contains(&b));
    for x in &books {
        if x.id == a {
            assert_eq!(x.title, "A");
            assert_eq!(x.total_pages, 1);
        }
        if x.id == c {
            assert_eq!(x.title, "C");
            assert_eq!(x.total_pages, 3);
        }
    }
}

#[test]
fn listing_is_newest_first() {
    let mut st = Store::new();
    let t10 = add_book_at(&mut st, String::from("Old"), None, String::from("/o"), None, 10)
        .unwrap();
    let t30 = add_book_at(&mut st, String::from("New"), None, String::from("/n"), None, 30)
        .unwrap();
    let t20 = add_book_at(&mut st, String::from("Mid"), None, String::from("/m"), None, 20)
        .unwrap();
    let books = get_books(&st).unwrap();
    let ids: Vec<i64> = books.iter().map(|x| x.id).collect();
    assert_eq!(ids, vec![t30, t20, t10]);
    assert_eq!(books[0].added_date, 30);
    assert_eq!(books[1].added_date, 20);
    assert_eq!(books[2].added_date, 10);
}

#[test]
fn rapid_adds_get_unique_ids() {
    let mut st = Store::new();
    let mut ids: Vec<i64> = Vec::new();
    for i in 0..100 {
        let id = add_book(
            &mut st,
            format!("Book {}", i),
            None,
            format!("/books/{}.pdf", i),
            None,
        )
        .unwrap();
        ids.push(id);
    }
    let mut dedup = ids.clone();
    dedup.sort();
    dedup.dedup();
    assert_eq!(dedup.len(), 100);
}

#[test]
fn same_timestamp_adds_get_unique_ids() {
    let mut st = Store::new();
    let a = add_book_at(&mut st, String::from("X"), None, String::from("/x"), None, 77)
        .unwrap();
    let b = add_book_at(&mut st, String::from("Y"), None, String::from("/y"), None, 77)
        .unwrap();
    assert_ne!(a, b);
    assert_eq!(get_books(&st).unwrap().len(), 2);
}

#[test]
fn from_books_roundtrip() {
    let mut st = Store::new();
    add_book_at(&mut st, String::from("A"), Some(String::from("a")), String::from("/a"), Some(9), 5)
        .unwrap();
    add_book_at(&mut st, String::from("B"), None, String::from("/b"), None, 8).unwrap();
    let listed = get_books(&st).unwrap();
    let reloaded = Store::from_books(listed).unwrap();
    let relisted = get_books(&reloaded).unwrap();
    assert_eq!(relisted.len(), 2);
    assert_eq!(relisted[0].title, "B");
    assert_eq!(relisted[1].title, "A");
    assert_eq!(relisted[1].author, "a");
    assert_eq!(relisted[1].total_pages, 9);
}

#[test]
fn from_books_rejects_duplicate_ids() {
    let row = Book {
        id: 3,
        title: String::from("T"),
        author: String::from(""),
        file_path: String::from("/t"),
        added_date: 1,
        last_read: None,
        current_page: 0,
        total_pages: 0,
    };
    let mut twin = Book {
        id: 3,
        title: String::from("U"),
        author: String::from(""),
        file_path: String::from("/u"),
        added_date: 2,
        last_read: None,
        current_page: 0,
        total_pages: 0,
    };
    let r = Store::from_books(vec![row.clone(), twin.clone()]);
    assert!(matches!(r, Err(CommandError::Storage(_))));
    twin.id = 4;
    assert!(Store::from_books(vec![row, twin]).is_ok());
}

#[test]
fn from_books_rejects_invalid_rows() {
    let empty_title = Book {
        id: 1,
        title: String::from(""),
        author: String::from(""),
        file_path: String::from("/t"),
        added_date: 1,
        last_read: None,
        current_page: 0,
        total_pages: 0,
    };
    assert!(matches!(
        Store::from_books(vec![empty_title]),
        Err(CommandError::Storage(_))
    ));
    let negative_pages = Book {
        id: 1,
        title: String::from("T"),
        author: String::from(""),
        file_path: String::from("/t"),
        added_date: 1,
        last_read: None,
        current_page: 0,
        total_pages: -4,
    };
    assert!(matches!(
        Store::from_books(vec![negative_pages]),
        Err(CommandError::Storage(_))
    ));
}

#[test]
fn from_books_bounds_the_identifier() {
    let mut row = Book {
        id: i64::MAX,
        title: String::from("T"),
        author: String::from(""),
        file_path: String::from("/t"),
        added_date: 1,
        last_read: None,
        current_page: 0,
        total_pages: 0,
    };
    assert!(matches!(
        Store::from_books(vec![row.clone()]),
        Err(CommandError::Storage(_))
    ));
    row.id = i64::MAX - 1;
    let st = Store::from_books(vec![row]).unwrap();
    assert_eq!(get_books(&st).unwrap()[0].id, i64::MAX - 1);
}

#[test]
fn from_books_rejects_negative_timestamps() {
    let row = Book {
        id: 1,
        title: String::from("T"),
        author: String::from(""),
        file_path: String::from("/t"),
        added_date: -1,
        last_read: None,
        current_page: 0,
        total_pages: 0,
    };
    assert!(matches!(
        Store::from_books(vec![row]),
        Err(CommandError::Storage(_))
    ));
}

#[test]
fn storage_error_message_carries_text() {
    let e = CommandError::Storage(String::from("broken"));
    assert_eq!(e.message(), "broken");
}
