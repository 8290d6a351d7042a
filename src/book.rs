//! Book records, the fixed catalog, and their conversion into mappings.

use vstd::prelude::*;
use crate::mapping::{EntryModel, Mapping, Value, ValueModel, keys_of, lookup};

verus! {

/// What a [`Book`] stands for.
pub struct BookView {
    pub title: Seq<char>,
    pub author: Seq<char>,
    pub year: nat,
}

/// A book: title, author and year of publication.
#[derive(Debug, PartialEq, Eq)]
pub struct Book {
    pub title: String,
    pub author: String,
    pub year: u32,
}

impl View for Book {
    type V = BookView;

    open spec fn view(&self) -> BookView {
        BookView { title: self.title@, author: self.author@, year: self.year as nat }
    }
}

/// The mapping that stands for a book: `title`, `author` and `year`, in
/// that order, each holding the field of the same name.
pub open spec fn record_mapping(b: BookView) -> Seq<EntryModel> {
    seq![
        ("title"@, ValueModel::Str(b.title)),
        ("author"@, ValueModel::Str(b.author)),
        ("year"@, ValueModel::Num(b.year)),
    ]
}

/// The array that stands for a sequence of books: one mapping per book, in
/// the same order.
pub open spec fn records_array(s: Seq<BookView>) -> Seq<Seq<EntryModel>> {
    s.map_values(|b: BookView| record_mapping(b))
}

/// The views of a sequence of books.
pub open spec fn books_view(s: Seq<Book>) -> Seq<BookView> {
    s.map_values(|b: Book| b@)
}

/// The views of a sequence of mappings.
pub open spec fn mappings_view(s: Seq<Mapping>) -> Seq<Seq<EntryModel>> {
    s.map_values(|m: Mapping| m@)
}

/// The three keys of a book's mapping differ from one another.
proof fn lemma_keys_distinct()
    ensures
        "title"@ != "author"@,
        "title"@ != "year"@,
        "author"@ != "year"@,
{
    reveal_strlit("title");
    reveal_strlit("author");
    reveal_strlit("year");
    assert("title"@.len() == 5);
    assert("author"@.len() == 6);
    assert("year"@.len() == 4);
}

/// The mapping of a book has the keys `title`, `author` and `year`, each
/// once, and no other; under each it holds the book's field unchanged.
pub proof fn lemma_record_mapping_fields(b: BookView)
    ensures
        keys_of(record_mapping(b)).to_set() == set!["title"@, "author"@, "year"@],
        keys_of(record_mapping(b)).no_duplicates(),
        lookup(record_mapping(b), "title"@) == Some(ValueModel::Str(b.title)),
        lookup(record_mapping(b), "author"@) == Some(ValueModel::Str(b.author)),
        lookup(record_mapping(b), "year"@) == Some(ValueModel::Num(b.year)),
{
    lemma_keys_distinct();
    let m = record_mapping(b);
    let ks = keys_of(m);
    assert(ks =~= seq!["title"@, "author"@, "year"@]);
    assert(ks.to_set() =~= set!["title"@, "author"@, "year"@]) by {
        assert forall|x: Seq<char>| ks.to_set().contains(x) <==> set![
            "title"@,
            "author"@,
            "year"@,
        ].contains(x) by {
            if x == "title"@ {
                assert(ks[0] == x);
            }
            if x == "author"@ {
                assert(ks[1] == x);
            }
            if x == "year"@ {
                assert(ks[2] == x);
            }
        }
    }
    crate::mapping::lemma_first_position(m, "title"@, 0);
    crate::mapping::lemma_first_position(m, "author"@, 1);
    crate::mapping::lemma_first_position(m, "year"@, 2);
}

impl Book {
    /// The book's mapping: `title`, `author` and `year`, in that order.
    pub fn to_object(&self) -> (r: Mapping)
        ensures
            r@ == record_mapping(self@),
            keys_of(r@).to_set() == set!["title"@, "author"@, "year"@],
            keys_of(r@).no_duplicates(),
            lookup(r@, "title"@) == Some(ValueModel::Str(self.title@)),
            lookup(r@, "author"@) == Some(ValueModel::Str(self.author@)),
            lookup(r@, "year"@) == Some(ValueModel::Num(self.year as nat)),
    {
        proof {
            lemma_keys_distinct();
        }
        let mut obj = Mapping::new();
        obj.set("title", Value::Str(self.title.clone()));
        assert(obj@ =~= record_mapping(self@).take(1));
        obj.set("author", Value::Str(self.author.clone()));
        assert(obj@ =~= record_mapping(self@).take(2));
        obj.set("year", Value::Num(self.year));
        assert(obj@ =~= record_mapping(self@));
        proof {
            lemma_record_mapping_fields(self@);
        }
        obj
    }
}

/// The catalog, in its fixed order.
pub open spec fn catalog() -> Seq<BookView> {
    seq![
        BookView { title: "Chadwick the Crab"@, author: "Priscilla Cummings"@, year: 2009 },
        BookView {
            title: "The Little Prince"@,
            author: "Antoine de Saint-Exupéry"@,
            year: 1943,
        },
        BookView { title: "The Hobbit"@, author: "J. R. R. Tolkien"@, year: 1937 },
    ]
}

/// Converting the same books twice gives two arrays of the same length whose
/// elements hold the same entries, position by position.
pub proof fn lemma_array_deterministic(s: Seq<Book>, a: Seq<Mapping>, b: Seq<Mapping>)
    requires
        mappings_view(a) == records_array(books_view(s)),
        mappings_view(b) == records_array(books_view(s)),
    ensures
        a.len() == b.len(),
        forall|i: int| 0 <= i < a.len() ==> #[trigger] a[i]@ == b[i]@,
{
    assert(mappings_view(a).len() == a.len());
    assert(mappings_view(b).len() == b.len());
    assert forall|i: int| 0 <= i < a.len() implies #[trigger] a[i]@ == b[i]@ by {
        assert(mappings_view(a)[i] == a[i]@);
        assert(mappings_view(b)[i] == b[i]@);
    }
}

/// The book that the catalog starts with, "Chadwick the Crab".
pub fn chadwick() -> (r: Book)
    ensures
        r@ == catalog()[0],
{
    Book {
        title: "Chadwick the Crab".to_owned(),
        author: "Priscilla Cummings".to_owned(),
        year: 2009,
    }
}

/// The catalog's books, in order.
pub fn get_books() -> (r: Vec<Book>)
    ensures
        r.len() == catalog().len(),
        books_view(r@) == catalog(),
{
    let mut books: Vec<Book> = Vec::new();
    books.push(chadwick());
    books.push(
        Book {
            title: "The Little Prince".to_owned(),
            author: "Antoine de Saint-Exupéry".to_owned(),
            year: 1943,
        },
    );
    books.push(
        Book {
            title: "The Hobbit".to_owned(),
            author: "J. R. R. Tolkien".to_owned(),
            year: 1937,
        },
    );
    assert(books_view(books@) =~= catalog());
    books
}

/// One mapping per book, in the same order.
pub fn vec_to_array(vec: &Vec<Book>) -> (r: Vec<Mapping>)
    ensures
        r.len() == vec.len(),
        forall|i: int| 0 <= i < vec.len() ==> #[trigger] r[i]@ == record_mapping(vec[i]@),
        mappings_view(r@) == records_array(books_view(vec@)),
{
    let mut arr: Vec<Mapping> = Vec::new();
    let mut i: usize = 0;
    while i < vec.len()
        invariant
            i <= vec.len(),
            arr.len() == i,
            forall|j: int| 0 <= j < i ==> #[trigger] arr[j]@ == record_mapping(vec[j]@),
        decreases vec.len() - i,
    {
        let obj = vec[i].to_object();
        arr.push(obj);
        i += 1;
    }
    assert(mappings_view(arr@) =~= records_array(books_view(vec@)));
    arr
}

/// The catalog as an array of mappings, built afresh on each call.
pub fn books_array() -> (r: Vec<Mapping>)
    ensures
        r.len() == catalog().len(),
        forall|i: int| 0 <= i < r.len() ==> #[trigger] r[i]@ == record_mapping(catalog()[i]),
        mappings_view(r@) == records_array(catalog()),
{
    let books = get_books();
    let r = vec_to_array(&books);
    assert(books_view(books@).len() == books.len());
    assert forall|i: int| 0 <= i < r.len() implies #[trigger] r[i]@ == record_mapping(
        catalog()[i],
    ) by {
        assert(books_view(books@)[i] == books[i]@);
    }
    r
}

} // verus!
