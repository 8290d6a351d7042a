use allbooks::book::{books_array, chadwick, get_books, vec_to_array, Book};
use allbooks::mapping::{Mapping, Value};

fn book(title: &str, author: &str, year: u32) -> Book {
    Book { title: title.to_string(), author: author.to_string(), year }
}

fn keys(m: &Mapping) -> Vec<String> {
    let mut out = Vec::new();
    for i in 0..m.len() {
        out.push(m.key_at(i).to_string());
    }
    out
}

fn assert_book_mapping(m: &Mapping, title: &str, author: &str, year: u32) {
    assert_eq!(keys(m), vec!["title", "author", "year"]);
    assert_eq!(m.get("title"), Some(&Value::Str(title.to_string())));
    assert_eq!(m.get("author"), Some(&Value::Str(author.to_string())));
    assert_eq!(m.get("year"), Some(&Value::Num(year)));
}

#[test]
fn record_mapping_has_exactly_the_three_keys() {
    let m = book("Dune", "Frank Herbert", 1965).to_object();
    assert_eq!(m.len(), 3);
    assert_eq!(keys(&m), vec!["title", "author", "year"]);
    assert_eq!(m.get("isbn"), None);
    assert_eq!(m.get("Title"), None);
}

#[test]
fn record_mapping_copies_fields_unchanged() {
    let m = book("", "  Anonymous ", 0).to_object();
    assert_eq!(m.value_at(0), &Value::Str(String::new()));
    assert_eq!(m.value_at(1), &Value::Str("  Anonymous ".to_string()));
    assert_eq!(m.value_at(2), &Value::Num(0));
    let big = book("Far Future", "Someone", u32::MAX).to_object();
    assert_eq!(big.get("year"), Some(&Value::Num(4294967295)));
}

#[test]
fn array_has_the_input_length() {
    for n in [0usize, 1, 3, 7] {
        let books: Vec<Book> = (0..n).map(|i| book("T", "A", i as u32)).collect();
        assert_eq!(vec_to_array(&books).len(), n);
    }
}

#[test]
fn array_keeps_the_input_order() {
    let books = vec![book("B", "y", 2), book("A", "x", 1), book("C", "z", 3)];
    let arr = vec_to_array(&books);
    for (i, b) in books.iter().enumerate() {
        assert_eq!(arr[i], b.to_object());
    }
    assert_book_mapping(&arr[0], "B", "y", 2);
    assert_book_mapping(&arr[1], "A", "x", 1);
    assert_book_mapping(&arr[2], "C", "z", 3);
}

#[test]
fn array_conversion_gives_equal_arrays_twice() {
    let books = get_books();
    let first = vec_to_array(&books);
    let second = vec_to_array(&books);
    assert_eq!(first, second);
    assert_ne!(first.as_ptr(), second.as_ptr());
}

#[test]
fn empty_sequence_gives_empty_array() {
    let arr = vec_to_array(&Vec::new());
    assert!(arr.is_empty());
}

#[test]
fn chadwick_export() {
    let m = chadwick().to_object();
    assert_book_mapping(&m, "Chadwick the Crab", "Priscilla Cummings", 2009);
}

#[test]
fn books_export_third_is_the_hobbit() {
    let arr = vec_to_array(&get_books());
    assert_book_mapping(&arr[2], "The Hobbit", "J. R. R. Tolkien", 1937);
}

#[test]
fn get_books_call_matches_books_export() {
    let books = vec_to_array(&get_books());
    let called = books_array();
    assert_eq!(called.len(), 3);
    assert_eq!(called, books);
}

#[test]
fn catalog_order_and_values() {
    let books = get_books();
    assert_eq!(books.len(), 3);
    assert_eq!(books[0], book("Chadwick the Crab", "Priscilla Cummings", 2009));
    assert_eq!(books[1], book("The Little Prince", "Antoine de Saint-Exupéry", 1943));
    assert_eq!(books[2], book("The Hobbit", "J. R. R. Tolkien", 1937));
    assert_eq!(chadwick(), books[0]);
    let arr = books_array();
    assert_book_mapping(&arr[1], "The Little Prince", "Antoine de Saint-Exupéry", 1943);
}

#[test]
fn mapping_set_appends_new_keys_in_order() {
    let mut m = Mapping::new();
    assert_eq!(m.len(), 0);
    assert_eq!(m.get("a"), None);
    m.set("b", Value::Num(1));
    m.set("a", Value::Str("x".to_string()));
    assert_eq!(keys(&m), vec!["b", "a"]);
    assert_eq!(m.get("a"), Some(&Value::Str("x".to_string())));
}

#[test]
fn mapping_set_replaces_existing_key_in_place() {
    let mut m = Mapping::new();
    m.set("title", Value::Str("old".to_string()));
    m.set("year", Value::Num(1));
    m.set("title", Value::Str("new".to_string()));
    assert_eq!(m.len(), 2);
    assert_eq!(keys(&m), vec!["title", "year"]);
    assert_eq!(m.value_at(0), &Value::Str("new".to_string()));
    assert_eq!(m.get("title"), Some(&Value::Str("new".to_string())));
}
