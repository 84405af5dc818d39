//! That a body can be read in one way only: the text decides how many
//! elements it has, and which book each of them is.

use crate::book::{
    book_json, books_json, is_array_of_book_objects, is_book_object, object_text, BookView,
};
use crate::handler::reply_for_rows;
use crate::json::{
    array_text, comma_separated, digit_value, escaped_char, escaped_text, integer_text,
    is_integer_text, is_natural_text, json_string, lemma_integer_text_is_injective,
    lemma_integer_text_reads_back,
};
use crate::row::{books_of_rows, CellView};
use vstd::prelude::*;

verus! {

proof fn lemma_same_start<A>(start: Seq<A>, x: Seq<A>, y: Seq<A>)
    requires
        start + x == start + y,
    ensures
        x == y,
{
    assert(x =~= (start + x).skip(start.len() as int));
    assert(y =~= (start + y).skip(start.len() as int));
}

/// Two texts that are free of a mark, each followed by something that begins
/// with the mark: where the wholes are equal, so are the parts.
proof fn lemma_split_at_mark(a: Seq<char>, x: Seq<char>, b: Seq<char>, y: Seq<char>, mark: char)
    requires
        a + x == b + y,
        forall|i: int| 0 <= i < a.len() ==> a[i] != mark,
        forall|i: int| 0 <= i < b.len() ==> b[i] != mark,
        x.len() > 0 && x[0] == mark,
        y.len() > 0 && y[0] == mark,
    ensures
        a == b,
        x == y,
{
    let whole = a + x;
    if a.len() < b.len() {
        assert(whole[a.len() as int] == x[0]);
        assert((b + y)[a.len() as int] == b[a.len() as int]);
    } else if b.len() < a.len() {
        assert((b + y)[b.len() as int] == y[0]);
        assert(whole[b.len() as int] == a[b.len() as int]);
    }
    assert(a =~= whole.take(a.len() as int));
    assert(b =~= (b + y).take(b.len() as int));
    assert(x =~= whole.skip(a.len() as int));
    assert(y =~= (b + y).skip(b.len() as int));
}

proof fn lemma_integer_text_has_no_comma(text: Seq<char>)
    requires
        is_integer_text(text),
    ensures
        forall|i: int| 0 <= i < text.len() ==> text[i] != ',',
{
    assert forall|i: int| 0 <= i < text.len() implies text[i] != ',' by {
        if is_natural_text(text) {
            assert(0 <= digit_value(text[i]));
        } else if i > 0 {
            assert(text.skip(1)[i - 1] == text[i]);
            assert(0 <= digit_value(text.skip(1)[i - 1]));
        }
    }
}

/// An escaped character can be told from what follows it.
proof fn lemma_escaped_char_ends(c: char, x: Seq<char>, d: char, y: Seq<char>)
    requires
        escaped_char(c) + x == escaped_char(d) + y,
    ensures
        c == d,
        x == y,
        (escaped_char(c) + x)[0] != '"',
{
    let whole = escaped_char(c) + x;
    let other = escaped_char(d) + y;
    assert(whole[0] == escaped_char(c)[0]);
    assert(other[0] == escaped_char(d)[0]);
    if escaped_char(c).len() >= 2 {
        assert(whole[1] == escaped_char(c)[1]);
    }
    if escaped_char(d).len() >= 2 {
        assert(other[1] == escaped_char(d)[1]);
    }
    if escaped_char(c).len() == 6 {
        assert(whole[4] == escaped_char(c)[4]);
        assert(whole[5] == escaped_char(c)[5]);
    }
    if escaped_char(d).len() == 6 {
        assert(other[4] == escaped_char(d)[4]);
        assert(other[5] == escaped_char(d)[5]);
    }
    assert(c as u32 == d as u32);
    assert(x =~= whole.skip(escaped_char(c).len() as int));
    assert(y =~= other.skip(escaped_char(d).len() as int));
}

/// An escaped text can be told from the quotation mark that closes it.
proof fn lemma_escaped_text_ends(s: Seq<char>, x: Seq<char>, t: Seq<char>, y: Seq<char>)
    requires
        escaped_text(s) + (seq!['"'] + x) == escaped_text(t) + (seq!['"'] + y),
    ensures
        s == t,
        x == y,
    decreases s.len(),
{
    let left = escaped_text(s) + (seq!['"'] + x);
    let right = escaped_text(t) + (seq!['"'] + y);
    if s.len() == 0 {
        assert(left[0] == '"');
        if t.len() > 0 {
            let rest = escaped_text(t.skip(1)) + (seq!['"'] + y);
            assert(right =~= escaped_char(t[0]) + rest);
            lemma_escaped_char_ends(t[0], rest, t[0], rest);
        } else {
            lemma_same_start(seq!['"'], x, y);
            assert(s =~= t);
        }
    } else {
        let rest_s = escaped_text(s.skip(1)) + (seq!['"'] + x);
        assert(left =~= escaped_char(s[0]) + rest_s);
        lemma_escaped_char_ends(s[0], rest_s, s[0], rest_s);
        if t.len() == 0 {
            assert(right[0] == '"');
        } else {
            let rest_t = escaped_text(t.skip(1)) + (seq!['"'] + y);
            assert(right =~= escaped_char(t[0]) + rest_t);
            lemma_escaped_char_ends(s[0], rest_s, t[0], rest_t);
            lemma_escaped_text_ends(s.skip(1), x, t.skip(1), y);
            assert(s =~= seq![s[0]] + s.skip(1));
            assert(t =~= seq![t[0]] + t.skip(1));
        }
    }
}

/// A string literal can be told from what follows it.
proof fn lemma_json_string_ends(s: Seq<char>, x: Seq<char>, t: Seq<char>, y: Seq<char>)
    requires
        json_string(s) + x == json_string(t) + y,
    ensures
        s == t,
        x == y,
{
    let left = escaped_text(s) + (seq!['"'] + x);
    let right = escaped_text(t) + (seq!['"'] + y);
    assert(json_string(s) + x =~= seq!['"'] + left);
    assert(json_string(t) + y =~= seq!['"'] + right);
    lemma_same_start(seq!['"'], left, right);
    lemma_escaped_text_ends(s, x, t, y);
}

/// The object of a book with the text `rest` behind it, put together from
/// the right.
spec fn object_and_rest(
    id: Seq<char>,
    title: Seq<char>,
    author: Seq<char>,
    publication_date: Seq<char>,
    rest: Seq<char>,
) -> Seq<char> {
    "{\"id\":"@ + (id + (",\"title\":"@ + (json_string(title) + (",\"author\":"@ + (json_string(
        author,
    ) + (",\"publication_date\":"@ + (json_string(publication_date) + ("}"@ + rest))))))))
}

proof fn lemma_object_and_rest(
    id: Seq<char>,
    title: Seq<char>,
    author: Seq<char>,
    date: Seq<char>,
    rest: Seq<char>,
)
    ensures
        object_text(id, json_string(title), json_string(author), json_string(date)) + rest
            == object_and_rest(id, title, author, date, rest),
{
    let head = "{\"id\":"@;
    let n1 = ",\"title\":"@;
    let n2 = ",\"author\":"@;
    let n3 = ",\"publication_date\":"@;
    let foot = "}"@;
    let t = json_string(title);
    let a = json_string(author);
    let d = json_string(date);
    let e4 = foot + rest;
    let e3 = n3 + (d + e4);
    let e2 = n2 + (a + e3);
    let e1 = n1 + (t + e2);
    assert(head + id + n1 + t + n2 + a + n3 + d + foot + rest =~= (head + id + n1 + t + n2 + a + n3)
        + (d + e4));
    assert((head + id + n1 + t + n2 + a + n3) + (d + e4) =~= (head + id + n1 + t + n2 + a) + e3);
    assert((head + id + n1 + t + n2 + a) + e3 =~= (head + id + n1 + t) + e2);
    assert((head + id + n1 + t) + e2 =~= (head + id) + e1);
    assert((head + id) + e1 =~= head + (id + e1));
}

/// A named member can be told from what follows it.
proof fn lemma_member_ends(
    name: Seq<char>,
    s: Seq<char>,
    x: Seq<char>,
    t: Seq<char>,
    y: Seq<char>,
)
    requires
        name + (json_string(s) + x) == name + (json_string(t) + y),
    ensures
        s == t,
        x == y,
{
    lemma_same_start(name, json_string(s) + x, json_string(t) + y);
    lemma_json_string_ends(s, x, t, y);
}

/// The identifier can be told from the member that follows it.
proof fn lemma_id_ends(id: Seq<char>, x: Seq<char>, id2: Seq<char>, y: Seq<char>)
    requires
        is_integer_text(id),
        is_integer_text(id2),
        "{\"id\":"@ + (id + (",\"title\":"@ + x)) == "{\"id\":"@ + (id2 + (",\"title\":"@ + y)),
    ensures
        id == id2,
        ",\"title\":"@ + x == ",\"title\":"@ + y,
{
    let a1 = ",\"title\":"@ + x;
    let b1 = ",\"title\":"@ + y;
    lemma_same_start("{\"id\":"@, id + a1, id2 + b1);
    reveal_strlit(",\"title\":");
    lemma_integer_text_has_no_comma(id);
    lemma_integer_text_has_no_comma(id2);
    lemma_split_at_mark(id, a1, id2, b1, ',');
}

/// An object of a book can be told from what follows it, and it gives away
/// its four members.
proof fn lemma_object_ends(
    id: Seq<char>,
    title: Seq<char>,
    author: Seq<char>,
    date: Seq<char>,
    x: Seq<char>,
    id2: Seq<char>,
    title2: Seq<char>,
    author2: Seq<char>,
    date2: Seq<char>,
    y: Seq<char>,
)
    requires
        is_integer_text(id),
        is_integer_text(id2),
        object_text(id, json_string(title), json_string(author), json_string(date)) + x
            == object_text(id2, json_string(title2), json_string(author2), json_string(date2))
            + y,
    ensures
        id == id2,
        title == title2,
        author == author2,
        date == date2,
        x == y,
{
    lemma_object_and_rest(id, title, author, date, x);
    lemma_object_and_rest(id2, title2, author2, date2, y);
    let a4 = "}"@ + x;
    let b4 = "}"@ + y;
    let a3 = ",\"publication_date\":"@ + (json_string(date) + a4);
    let b3 = ",\"publication_date\":"@ + (json_string(date2) + b4);
    let a2 = ",\"author\":"@ + (json_string(author) + a3);
    let b2 = ",\"author\":"@ + (json_string(author2) + b3);
    lemma_id_ends(id, json_string(title) + a2, id2, json_string(title2) + b2);
    lemma_member_ends(",\"title\":"@, title, a2, title2, b2);
    lemma_member_ends(",\"author\":"@, author, a3, author2, b3);
    lemma_member_ends(",\"publication_date\":"@, date, a4, date2, b4);
    lemma_same_start("}"@, x, y);
}

/// Two books with the same object are the same book.
pub proof fn lemma_book_json_is_injective(a: BookView, b: BookView)
    requires
        book_json(a) == book_json(b),
    ensures
        a == b,
{
    lemma_integer_text_reads_back(a.id);
    lemma_integer_text_reads_back(b.id);
    let none = Seq::<char>::empty();
    assert(book_json(a) + none =~= book_json(a));
    assert(book_json(b) + none =~= book_json(b));
    lemma_object_ends(
        integer_text(a.id),
        a.title,
        a.author,
        a.publication_date,
        none,
        integer_text(b.id),
        b.title,
        b.author,
        b.publication_date,
        none,
    );
    lemma_integer_text_is_injective(a.id, b.id);
}

proof fn lemma_comma_separated_head(items: Seq<Seq<char>>)
    requires
        items.len() >= 2,
    ensures
        comma_separated(items) == items[0] + (","@ + comma_separated(items.skip(1))),
    decreases items.len(),
{
    let front = items.drop_last();
    let back = items.skip(1);
    if items.len() == 2 {
        assert(comma_separated(front) == items[0]);
        assert(comma_separated(back) == items[1]);
        assert(items[0] + ","@ + items[1] =~= items[0] + (","@ + items[1]));
    } else {
        lemma_comma_separated_head(front);
        assert(front.skip(1) =~= back.drop_last());
        assert(back.last() == items.last());
        let middle = comma_separated(front.skip(1));
        assert((items[0] + (","@ + middle)) + ","@ + items.last() =~= items[0] + (","@ + (middle
            + ","@ + items.last())));
    }
}

/// A list of items with `rest` behind it begins with its first item.
proof fn lemma_first_item(items: Seq<Seq<char>>, rest: Seq<char>) -> (tail: Seq<char>)
    requires
        items.len() >= 1,
    ensures
        comma_separated(items) + rest == items[0] + tail,
        items.len() == 1 ==> tail == rest,
        items.len() >= 2 ==> tail == ","@ + (comma_separated(items.skip(1)) + rest),
{
    if items.len() == 1 {
        rest
    } else {
        lemma_comma_separated_head(items);
        let tail = ","@ + (comma_separated(items.skip(1)) + rest);
        assert((items[0] + (","@ + comma_separated(items.skip(1)))) + rest =~= items[0] + tail);
        tail
    }
}

proof fn lemma_object_begins_with_brace(item: Seq<char>, rest: Seq<char>)
    requires
        is_book_object(item),
    ensures
        (item + rest)[0] == '{',
{
    reveal_strlit("{\"id\":");
    let (id, title, author, date) = choose|
        id: Seq<char>,
        title: Seq<char>,
        author: Seq<char>,
        date: Seq<char>,
    |
        is_integer_text(id) && #[trigger] object_text(
            id,
            json_string(title),
            json_string(author),
            json_string(date),
        ) == item;
    lemma_object_and_rest(id, title, author, date, rest);
}

/// Two objects of books, each with something behind it: where the wholes
/// are equal, so are the objects and what is behind them.
proof fn lemma_item_ends(a: Seq<char>, x: Seq<char>, b: Seq<char>, y: Seq<char>)
    requires
        is_book_object(a),
        is_book_object(b),
        a + x == b + y,
    ensures
        a == b,
        x == y,
{
    let (id, title, author, date) = choose|
        id: Seq<char>,
        title: Seq<char>,
        author: Seq<char>,
        date: Seq<char>,
    |
        is_integer_text(id) && #[trigger] object_text(
            id,
            json_string(title),
            json_string(author),
            json_string(date),
        ) == a;
    let (id2, title2, author2, date2) = choose|
        id: Seq<char>,
        title: Seq<char>,
        author: Seq<char>,
        date: Seq<char>,
    |
        is_integer_text(id) && #[trigger] object_text(
            id,
            json_string(title),
            json_string(author),
            json_string(date),
        ) == b;
    lemma_object_ends(id, title, author, date, x, id2, title2, author2, date2, y);
}

/// A list of objects can be told from the bracket that closes it.
proof fn lemma_items_end(xs: Seq<Seq<char>>, x: Seq<char>, ys: Seq<Seq<char>>, y: Seq<char>)
    requires
        forall|i: int| 0 <= i < xs.len() ==> is_book_object(#[trigger] xs[i]),
        forall|i: int| 0 <= i < ys.len() ==> is_book_object(#[trigger] ys[i]),
        comma_separated(xs) + ("]"@ + x) == comma_separated(ys) + ("]"@ + y),
    ensures
        xs == ys,
        x == y,
    decreases xs.len(),
{
    reveal_strlit("]");
    reveal_strlit(",");
    let left = comma_separated(xs) + ("]"@ + x);
    let right = comma_separated(ys) + ("]"@ + y);
    if xs.len() == 0 {
        assert(left[0] == ']');
        if ys.len() > 0 {
            let tail = lemma_first_item(ys, "]"@ + y);
            lemma_object_begins_with_brace(ys[0], tail);
        } else {
            lemma_same_start("]"@, x, y);
            assert(xs =~= ys);
        }
    } else {
        let tail_x = lemma_first_item(xs, "]"@ + x);
        lemma_object_begins_with_brace(xs[0], tail_x);
        if ys.len() == 0 {
            assert(right[0] == ']');
        } else {
            let tail_y = lemma_first_item(ys, "]"@ + y);
            lemma_item_ends(xs[0], tail_x, ys[0], tail_y);
            assert(tail_x[0] == tail_y[0]);
            if xs.len() == 1 {
                assert(tail_x[0] == ']');
                assert(ys.len() == 1);
                lemma_same_start("]"@, x, y);
                assert(xs =~= ys);
            } else {
                assert(tail_x[0] == ',');
                assert(ys.len() >= 2);
                let rest_x = xs.skip(1);
                let rest_y = ys.skip(1);
                lemma_same_start(
                    ","@,
                    comma_separated(rest_x) + ("]"@ + x),
                    comma_separated(rest_y) + ("]"@ + y),
                );
                assert forall|i: int| 0 <= i < rest_x.len() implies is_book_object(
                    #[trigger] rest_x[i],
                ) by {
                    assert(rest_x[i] == xs[i + 1]);
                }
                assert forall|i: int| 0 <= i < rest_y.len() implies is_book_object(
                    #[trigger] rest_y[i],
                ) by {
                    assert(rest_y[i] == ys[i + 1]);
                }
                lemma_items_end(rest_x, x, rest_y, y);
                assert(xs =~= seq![xs[0]] + rest_x);
                assert(ys =~= seq![ys[0]] + rest_y);
            }
        }
    }
}

/// An array of objects of books can be read in one way only: the text
/// decides how many elements there are and what each of them is.
pub proof fn lemma_array_is_read_one_way(xs: Seq<Seq<char>>, ys: Seq<Seq<char>>)
    requires
        forall|i: int| 0 <= i < xs.len() ==> is_book_object(#[trigger] xs[i]),
        forall|i: int| 0 <= i < ys.len() ==> is_book_object(#[trigger] ys[i]),
        array_text(xs) == array_text(ys),
    ensures
        xs == ys,
{
    let none = Seq::<char>::empty();
    let left = comma_separated(xs) + ("]"@ + none);
    let right = comma_separated(ys) + ("]"@ + none);
    assert(array_text(xs) =~= "["@ + left);
    assert(array_text(ys) =~= "["@ + right);
    lemma_same_start("["@, left, right);
    lemma_items_end(xs, none, ys, none);
}

/// A text is an array of objects of books for one count at most.
pub proof fn lemma_count_is_decided(text: Seq<char>, count: nat, other: nat)
    requires
        is_array_of_book_objects(text, count),
        is_array_of_book_objects(text, other),
    ensures
        count == other,
{
    let xs = choose|items: Seq<Seq<char>>|
        {
            &&& items.len() == count
            &&& #[trigger] array_text(items) == text
            &&& forall|i: int| 0 <= i < items.len() ==> is_book_object(#[trigger] items[i])
        };
    let ys = choose|items: Seq<Seq<char>>|
        {
            &&& items.len() == other
            &&& #[trigger] array_text(items) == text
            &&& forall|i: int| 0 <= i < items.len() ==> is_book_object(#[trigger] items[i])
        };
    lemma_array_is_read_one_way(xs, ys);
}

/// Two lists of books with the same body are the same list: the body holds
/// every book, in its place, and nothing else.
pub proof fn lemma_books_json_is_injective(a: Seq<BookView>, b: Seq<BookView>)
    requires
        books_json(a) == books_json(b),
    ensures
        a == b,
{
    let xs = a.map_values(|book: BookView| book_json(book));
    let ys = b.map_values(|book: BookView| book_json(book));
    assert forall|i: int| 0 <= i < xs.len() implies is_book_object(#[trigger] xs[i]) by {
        lemma_book_json_is_book_object(a[i]);
    }
    assert forall|i: int| 0 <= i < ys.len() implies is_book_object(#[trigger] ys[i]) by {
        lemma_book_json_is_book_object(b[i]);
    }
    lemma_array_is_read_one_way(xs, ys);
    assert forall|i: int| 0 <= i < a.len() implies a[i] == b[i] by {
        assert(xs[i] == ys[i]);
        lemma_book_json_is_injective(a[i], b[i]);
    }
    assert(a =~= b);
}

proof fn lemma_book_json_is_book_object(book: BookView)
    ensures
        is_book_object(book_json(book)),
{
    lemma_integer_text_reads_back(book.id);
    assert(object_text(
        integer_text(book.id),
        json_string(book.title),
        json_string(book.author),
        json_string(book.publication_date),
    ) == book_json(book));
}

/// Two result sets that are answered with the same body hold the same books,
/// row for row: a client that reads the body learns every book of the table
/// and is told of no other.
pub proof fn lemma_reply_decides_the_books(rows: Seq<Seq<CellView>>, others: Seq<Seq<CellView>>)
    requires
        books_of_rows(rows) is Some,
        books_of_rows(others) is Some,
        reply_for_rows(rows).body == reply_for_rows(others).body,
    ensures
        books_of_rows(rows) == books_of_rows(others),
{
    lemma_books_json_is_injective(books_of_rows(rows).unwrap(), books_of_rows(others).unwrap());
}

} // verus!
