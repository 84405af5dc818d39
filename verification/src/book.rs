//! The book record and its JSON form.

use crate::json::{
    array_text, array_to_text, integer_text, integer_to_text, is_integer_text, is_plain_char,
    json_string, lemma_integer_text_reads_back, lemma_plain_text_is_kept, string_to_text,
};
use vstd::prelude::*;

verus! {

/// One row of the books table, ready to be sent. Every field is mandatory.
#[derive(Debug, PartialEq, Eq)]
pub struct Book {
    pub id: i32,
    pub title: String,
    pub author: String,
    /// Kept as the text the store holds: not a structured date.
    pub publication_date: String,
}

/// What a `Book` means: an integer and three texts.
pub struct BookView {
    pub id: int,
    pub title: Seq<char>,
    pub author: Seq<char>,
    pub publication_date: Seq<char>,
}

impl View for Book {
    type V = BookView;

    open spec fn view(&self) -> BookView {
        BookView {
            id: self.id as int,
            title: self.title@,
            author: self.author@,
            publication_date: self.publication_date@,
        }
    }
}

impl DeepView for Book {
    type V = BookView;

    open spec fn deep_view(&self) -> BookView {
        self@
    }
}

/// A JSON object with the four members of a book, in this order and under
/// these names, each value given as JSON text already.
pub open spec fn object_text(
    id: Seq<char>,
    title: Seq<char>,
    author: Seq<char>,
    publication_date: Seq<char>,
) -> Seq<char> {
    "{\"id\":"@ + id + ",\"title\":"@ + title + ",\"author\":"@ + author
        + ",\"publication_date\":"@ + publication_date + "}"@
}

/// The JSON object that stands for one book: `id` as a JSON integer, the
/// other three members as JSON string literals.
pub open spec fn book_json(book: BookView) -> Seq<char> {
    object_text(
        integer_text(book.id),
        json_string(book.title),
        json_string(book.author),
        json_string(book.publication_date),
    )
}

/// The response body for a list of books: a JSON array with one object for
/// each book, in the order of the list.
pub open spec fn books_json(books: Seq<BookView>) -> Seq<char> {
    array_text(books.map_values(|book: BookView| book_json(book)))
}

/// Writes the JSON object of a book from its four members, each of them JSON
/// text already: `id` a number, the others string literals.
pub fn object_to_text(id: &str, title: &str, author: &str, publication_date: &str) -> (text:
    String)
    ensures
        text@ == object_text(id@, title@, author@, publication_date@),
{
    let mut text = String::from_str("{\"id\":");
    text.append(id);
    text.append(",\"title\":");
    text.append(title);
    text.append(",\"author\":");
    text.append(author);
    text.append(",\"publication_date\":");
    text.append(publication_date);
    text.append("}");
    text
}

impl Clone for Book {
    fn clone(&self) -> (copy: Self)
        ensures
            copy@ == self@,
    {
        Book {
            id: self.id,
            title: self.title.clone(),
            author: self.author.clone(),
            publication_date: self.publication_date.clone(),
        }
    }
}

impl Book {
    /// Writes this book as a JSON object.
    pub fn to_json(&self) -> (text: String)
        ensures
            text@ == book_json(self@),
    {
        let id = integer_to_text(self.id);
        let title = string_to_text(self.title.as_str());
        let author = string_to_text(self.author.as_str());
        let publication_date = string_to_text(self.publication_date.as_str());
        object_to_text(id.as_str(), title.as_str(), author.as_str(), publication_date.as_str())
    }
}

/// Writes the response body for `books`: a JSON array that holds the object
/// of every book, one for one and in the same order.
pub fn encode_books(books: &Vec<Book>) -> (text: String)
    ensures
        text@ == books_json(books.deep_view()),
{
    let mut objects: Vec<String> = Vec::new();
    let mut i: usize = 0;
    while i < books.len()
        invariant
            i <= books.len(),
            objects.len() == i,
            forall|j: int| 0 <= j < i ==> (#[trigger] objects[j])@ == book_json(books[j]@),
        decreases books.len() - i,
    {
        let object = books[i].to_json();
        objects.push(object);
        i += 1;
    }
    proof {
        let wanted = books.deep_view().map_values(|book: BookView| book_json(book));
        assert forall|j: int| 0 <= j < wanted.len() implies objects.deep_view()[j]
            == wanted[j] by {
            assert(objects.deep_view()[j] == objects[j]@);
            assert(books.deep_view()[j] == books[j]@);
        }
        assert(objects.deep_view() =~= wanted);
    }
    array_to_text(&objects)
}

/// `text` is a JSON object with exactly the four members of a book, under
/// their names and in their order: `id` a JSON integer, and `title`, `author`
/// and `publication_date` JSON string literals. Such a text gives its four
/// members away (see the module `reading`), so it has no fifth.
pub open spec fn is_book_object(text: Seq<char>) -> bool {
    exists|id: Seq<char>, title: Seq<char>, author: Seq<char>, publication_date: Seq<char>|
        is_integer_text(id) && #[trigger] object_text(
            id,
            json_string(title),
            json_string(author),
            json_string(publication_date),
        ) == text
}

/// `text` is a JSON array of exactly `count` elements, each of them the
/// object of a book. A text is one for a single count at most (see the module
/// `reading`).
pub open spec fn is_array_of_book_objects(text: Seq<char>, count: nat) -> bool {
    exists|items: Seq<Seq<char>>|
        {
            &&& items.len() == count
            &&& #[trigger] array_text(items) == text
            &&& forall|i: int| 0 <= i < items.len() ==> is_book_object(#[trigger] items[i])
        }
}

/// The body for no books at all is the empty array, `[]`.
pub proof fn lemma_no_books_is_empty_array()
    ensures
        books_json(Seq::<BookView>::empty()) == "[]"@,
{
    reveal_strlit("[]");
    reveal_strlit("[");
    reveal_strlit("]");
    let items = Seq::<BookView>::empty().map_values(|book: BookView| book_json(book));
    assert(items.len() == 0);
    assert(array_text(items) =~= "[]"@);
}

/// The body for `books` is a JSON array of exactly as many objects as there
/// are books, each with the four named members and nothing else, the first an
/// integer and the other three strings.
pub proof fn lemma_body_is_array_of_book_objects(books: Seq<BookView>)
    ensures
        is_array_of_book_objects(books_json(books), books.len()),
{
    let items = books.map_values(|book: BookView| book_json(book));
    assert forall|i: int| 0 <= i < items.len() implies is_book_object(#[trigger] items[i]) by {
        let book = books[i];
        lemma_integer_text_reads_back(book.id);
        assert(object_text(
            integer_text(book.id),
            json_string(book.title),
            json_string(book.author),
            json_string(book.publication_date),
        ) == items[i]);
    }
    assert(array_text(items) == books_json(books));
}

/// A worked example: the body for the one book `(1, Dune, Frank Herbert,
/// 1965-08-01)`, character for character.
pub proof fn lemma_body_of_dune()
    ensures
        books_json(
            seq![
                BookView {
                    id: 1,
                    title: "Dune"@,
                    author: "Frank Herbert"@,
                    publication_date: "1965-08-01"@,
                },
            ],
        )
            == "[{\"id\":1,\"title\":\"Dune\",\"author\":\"Frank Herbert\",\"publication_date\":\"1965-08-01\"}]"@,
{
    let title = "Dune"@;
    let author = "Frank Herbert"@;
    let date = "1965-08-01"@;
    let book = BookView { id: 1, title, author, publication_date: date };
    reveal_strlit("Dune");
    reveal_strlit("Frank Herbert");
    reveal_strlit("1965-08-01");
    assert forall|i: int| 0 <= i < title.len() implies is_plain_char(#[trigger] title[i]) by {}
    assert forall|i: int| 0 <= i < author.len() implies is_plain_char(#[trigger] author[i]) by {}
    assert forall|i: int| 0 <= i < date.len() implies is_plain_char(#[trigger] date[i]) by {}
    lemma_plain_text_is_kept(title);
    lemma_plain_text_is_kept(author);
    lemma_plain_text_is_kept(date);
    assert(integer_text(1) == seq!['1']);
    reveal_strlit("{\"id\":");
    reveal_strlit(",\"title\":");
    reveal_strlit(",\"author\":");
    reveal_strlit(",\"publication_date\":");
    reveal_strlit("}");
    reveal_strlit("{\"id\":1,\"title\":\"Dune\",\"author\":\"Frank Herbert\",\"publication_date\":\"1965-08-01\"}");
    let object =
        "{\"id\":1,\"title\":\"Dune\",\"author\":\"Frank Herbert\",\"publication_date\":\"1965-08-01\"}"@;
    assert(book_json(book) =~= object);
    let items = seq![book].map_values(|book: BookView| book_json(book));
    assert(items =~= seq![object]);
    reveal_strlit("[");
    reveal_strlit("]");
    reveal_strlit("[{\"id\":1,\"title\":\"Dune\",\"author\":\"Frank Herbert\",\"publication_date\":\"1965-08-01\"}]");
    assert(array_text(items) =~= "[{\"id\":1,\"title\":\"Dune\",\"author\":\"Frank Herbert\",\"publication_date\":\"1965-08-01\"}]"@);
}

} // verus!
