use books_api::book::{encode_books, object_to_text, Book};
use serde::ser::{Serialize, SerializeStruct, Serializer};

fn book(id: i32, title: &str, author: &str, publication_date: &str) -> Book {
    Book {
        id,
        title: title.to_string(),
        author: author.to_string(),
        publication_date: publication_date.to_string(),
    }
}

/// The same record with the serialising code that a derive would write.
struct Reference<'a>(&'a Book);

impl<'a> Serialize for Reference<'a> {
    fn serialize<S: Serializer>(&self, serializer: S) -> Result<S::Ok, S::Error> {
        let mut record = serializer.serialize_struct("Book", 4)?;
        record.serialize_field("id", &self.0.id)?;
        record.serialize_field("title", &self.0.title)?;
        record.serialize_field("author", &self.0.author)?;
        record.serialize_field("publication_date", &self.0.publication_date)?;
        record.end()
    }
}

fn reference_body(books: &[Book]) -> String {
    let records: Vec<Reference> = books.iter().map(Reference).collect();
    serde_json::to_string(&records).unwrap()
}

#[test]
fn object_is_assembled_from_its_members() {
    assert_eq!(
        object_to_text("1", "\"Dune\"", "\"Frank Herbert\"", "\"1965-08-01\""),
        "{\"id\":1,\"title\":\"Dune\",\"author\":\"Frank Herbert\",\"publication_date\":\"1965-08-01\"}"
    );
}

#[test]
fn object_takes_its_members_as_they_are() {
    assert_eq!(
        object_to_text("", "", "", ""),
        "{\"id\":,\"title\":,\"author\":,\"publication_date\":}"
    );
}

#[test]
fn one_book_as_json() {
    assert_eq!(
        book(1, "Dune", "Frank Herbert", "1965-08-01").to_json(),
        "{\"id\":1,\"title\":\"Dune\",\"author\":\"Frank Herbert\",\"publication_date\":\"1965-08-01\"}"
    );
}

#[test]
fn strings_are_quoted() {
    let text = book(3, "a", "b", "c").to_json();
    assert_eq!(text, "{\"id\":3,\"title\":\"a\",\"author\":\"b\",\"publication_date\":\"c\"}");
    assert!(!text.contains("\"title\":a"));
}

#[test]
fn empty_strings_are_still_strings() {
    assert_eq!(
        book(0, "", "", "").to_json(),
        "{\"id\":0,\"title\":\"\",\"author\":\"\",\"publication_date\":\"\"}"
    );
}

#[test]
fn negative_id() {
    assert_eq!(
        book(-12, "t", "a", "d").to_json(),
        "{\"id\":-12,\"title\":\"t\",\"author\":\"a\",\"publication_date\":\"d\"}"
    );
}

#[test]
fn quotation_marks_and_backslashes_are_escaped() {
    assert_eq!(
        book(2, "The \"Best\" Book", "back\\slash", "d").to_json(),
        "{\"id\":2,\"title\":\"The \\\"Best\\\" Book\",\"author\":\"back\\\\slash\",\"publication_date\":\"d\"}"
    );
}

#[test]
fn control_characters_are_escaped() {
    assert_eq!(
        book(2, "line\nbreak\ttab", "bell\u{7}", "\r").to_json(),
        "{\"id\":2,\"title\":\"line\\nbreak\\ttab\",\"author\":\"bell\\u0007\",\"publication_date\":\"\\r\"}"
    );
}

#[test]
fn other_characters_are_sent_raw() {
    assert_eq!(
        book(5, "Les Misérables", "Виктор Гюго", "1862/04").to_json(),
        "{\"id\":5,\"title\":\"Les Misérables\",\"author\":\"Виктор Гюго\",\"publication_date\":\"1862/04\"}"
    );
}

#[test]
fn clone_keeps_every_field() {
    let first = book(9, "t", "a", "d");
    let copy = first.clone();
    assert_eq!(copy, first);
    assert_eq!(copy.id, 9);
    assert_eq!(copy.title, "t");
    assert_eq!(copy.author, "a");
    assert_eq!(copy.publication_date, "d");
}

#[test]
fn no_books_is_the_empty_array() {
    assert_eq!(encode_books(&Vec::new()), "[]");
}

#[test]
fn one_book_in_an_array() {
    assert_eq!(
        encode_books(&vec![book(1, "Dune", "Frank Herbert", "1965-08-01")]),
        "[{\"id\":1,\"title\":\"Dune\",\"author\":\"Frank Herbert\",\"publication_date\":\"1965-08-01\"}]"
    );
}

#[test]
fn two_books_keep_their_order() {
    let books = vec![book(2, "B", "b", "2002"), book(1, "A", "a", "2001")];
    assert_eq!(
        encode_books(&books),
        "[{\"id\":2,\"title\":\"B\",\"author\":\"b\",\"publication_date\":\"2002\"},{\"id\":1,\"title\":\"A\",\"author\":\"a\",\"publication_date\":\"2001\"}]"
    );
}

#[test]
fn equal_books_are_both_sent() {
    let books = vec![book(1, "A", "a", "d"), book(1, "A", "a", "d")];
    let one = "{\"id\":1,\"title\":\"A\",\"author\":\"a\",\"publication_date\":\"d\"}";
    assert_eq!(encode_books(&books), format!("[{},{}]", one, one));
}

#[test]
fn body_is_what_a_derived_serialiser_writes() {
    let shelves = vec![
        vec![],
        vec![book(1, "Dune", "Frank Herbert", "1965-08-01")],
        vec![
            book(i32::MIN, "", "", ""),
            book(i32::MAX, "\"\\\n\r\t\u{8}\u{c}\u{0}\u{1f}\u{7f}", "/ <>&'", "日付 \u{1F4DA}"),
            book(7, "{\"id\":1}", "[1,2]", ","),
        ],
    ];
    for books in shelves {
        assert_eq!(encode_books(&books), reference_body(&books));
    }
}

#[test]
fn body_parses_to_one_object_for_each_book() {
    let books = vec![
        book(10, "Emma", "Jane Austen", "1815-12-23"),
        book(-3, "a,b", "x\"y", ""),
        book(0, "]", "[", "}{"),
    ];
    let parsed: serde_json::Value = serde_json::from_str(&encode_books(&books)).unwrap();
    let elements = parsed.as_array().unwrap();
    assert_eq!(elements.len(), books.len());
    for (element, book) in elements.iter().zip(books.iter()) {
        let members = element.as_object().unwrap();
        assert_eq!(members.len(), 4);
        assert_eq!(members["id"].as_i64(), Some(i64::from(book.id)));
        assert_eq!(members["title"].as_str(), Some(book.title.as_str()));
        assert_eq!(members["author"].as_str(), Some(book.author.as_str()));
        assert_eq!(members["publication_date"].as_str(), Some(book.publication_date.as_str()));
    }
}

fn literal_of(c: char) -> String {
    match c {
        '"' => "\\\"".to_string(),
        '\\' => "\\\\".to_string(),
        '\u{8}' => "\\b".to_string(),
        '\t' => "\\t".to_string(),
        '\n' => "\\n".to_string(),
        '\u{c}' => "\\f".to_string(),
        '\r' => "\\r".to_string(),
        c if (c as u32) < 0x20 => format!("\\u00{:02x}", c as u32),
        c => c.to_string(),
    }
}

#[test]
fn every_character_is_escaped_as_stated() {
    let beyond = [0x2028u32, 0x2029, 0xD7FF, 0xE000, 0xFFFD, 0xFFFF, 0x10000, 0x1F4DA, 0x10FFFF];
    for code in (0u32..0x800).chain(beyond) {
        let c = char::from_u32(code).unwrap();
        let text = format!("a{}b", c);
        let expected = format!(
            "{{\"id\":1,\"title\":\"a{}b\",\"author\":\"{}\",\"publication_date\":\"\"}}",
            literal_of(c),
            literal_of(c)
        );
        assert_eq!(book(1, &text, &c.to_string(), "").to_json(), expected, "U+{:04X}", code);
    }
}

#[test]
fn the_control_characters_one_by_one() {
    let expected = [
        "\\u0000", "\\u0001", "\\u0002", "\\u0003", "\\u0004", "\\u0005", "\\u0006", "\\u0007",
        "\\b", "\\t", "\\n", "\\u000b", "\\f", "\\r", "\\u000e", "\\u000f",
        "\\u0010", "\\u0011", "\\u0012", "\\u0013", "\\u0014", "\\u0015", "\\u0016", "\\u0017",
        "\\u0018", "\\u0019", "\\u001a", "\\u001b", "\\u001c", "\\u001d", "\\u001e", "\\u001f",
    ];
    for (code, literal) in expected.iter().enumerate() {
        let c = char::from_u32(code as u32).unwrap();
        let body = book(0, &c.to_string(), "", "").to_json();
        assert_eq!(
            body,
            format!("{{\"id\":0,\"title\":\"{}\",\"author\":\"\",\"publication_date\":\"\"}}", literal)
        );
    }
    assert_eq!(
        book(0, " \u{7f}/", "", "").to_json(),
        "{\"id\":0,\"title\":\" \u{7f}/\",\"author\":\"\",\"publication_date\":\"\"}"
    );
}
