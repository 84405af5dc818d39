//! JSON text for the few shapes the service emits: integers, string literals
//! and arrays.

use vstd::prelude::*;

verus! {

/// The character that stands for the decimal digit `d`.
pub open spec fn digit_char(d: int) -> char {
    if d == 0 {
        '0'
    } else if d == 1 {
        '1'
    } else if d == 2 {
        '2'
    } else if d == 3 {
        '3'
    } else if d == 4 {
        '4'
    } else if d == 5 {
        '5'
    } else if d == 6 {
        '6'
    } else if d == 7 {
        '7'
    } else if d == 8 {
        '8'
    } else {
        '9'
    }
}

/// Decimal notation of a natural number, most significant digit first and
/// without leading zeros.
pub open spec fn natural_text(n: nat) -> Seq<char>
    decreases n,
{
    if n < 10 {
        seq![digit_char(n as int)]
    } else {
        natural_text(n / 10).push(digit_char((n % 10) as int))
    }
}

/// Decimal notation of an integer: a minus sign in front of a negative one.
pub open spec fn integer_text(n: int) -> Seq<char> {
    if n < 0 {
        seq!['-'] + natural_text((-n) as nat)
    } else {
        natural_text(n as nat)
    }
}

/// The digit that `c` stands for, or -1 where `c` is no decimal digit.
pub open spec fn digit_value(c: char) -> int {
    if c == '0' {
        0
    } else if c == '1' {
        1
    } else if c == '2' {
        2
    } else if c == '3' {
        3
    } else if c == '4' {
        4
    } else if c == '5' {
        5
    } else if c == '6' {
        6
    } else if c == '7' {
        7
    } else if c == '8' {
        8
    } else if c == '9' {
        9
    } else {
        -1
    }
}

/// The number that a run of decimal digits denotes.
pub open spec fn digits_value(text: Seq<char>) -> int
    decreases text.len(),
{
    if text.len() == 0 {
        0
    } else {
        digits_value(text.drop_last()) * 10 + digit_value(text.last())
    }
}

/// `text` is a natural number as JSON writes it: at least one digit, only
/// digits, and no leading zero in front of another digit.
pub open spec fn is_natural_text(text: Seq<char>) -> bool {
    &&& text.len() >= 1
    &&& forall|i: int| 0 <= i < text.len() ==> 0 <= #[trigger] digit_value(text[i])
    &&& text.len() > 1 ==> text[0] != '0'
}

/// `text` is an integer as JSON writes it: a natural number, or a minus sign
/// and then one.
pub open spec fn is_integer_text(text: Seq<char>) -> bool {
    ||| is_natural_text(text)
    ||| (text.len() >= 1 && text[0] == '-' && is_natural_text(text.skip(1)))
}

/// The integer that `text` denotes.
pub open spec fn integer_value(text: Seq<char>) -> int {
    if text.len() >= 1 && text[0] == '-' {
        -digits_value(text.skip(1))
    } else {
        digits_value(text)
    }
}

/// The decimal notation of a natural number is well formed, starts with a
/// zero only for zero itself, and denotes that number.
pub proof fn lemma_natural_text_reads_back(n: nat)
    ensures
        is_natural_text(natural_text(n)),
        natural_text(n)[0] == '0' <==> n == 0,
        digits_value(natural_text(n)) == n,
    decreases n,
{
    let text = natural_text(n);
    if n < 10 {
        assert(text.drop_last() =~= Seq::<char>::empty());
        assert(digits_value(text) == digits_value(text.drop_last()) * 10 + digit_value(
            text.last(),
        ));
    } else {
        let head = natural_text(n / 10);
        lemma_natural_text_reads_back(n / 10);
        assert(text.drop_last() =~= head);
        assert(text[0] == head[0]);
        assert forall|i: int| 0 <= i < text.len() implies 0 <= #[trigger] digit_value(
            text[i],
        ) by {
            if i < head.len() {
                assert(text[i] == head[i]);
            }
        }
    }
}

/// The decimal notation of an integer is a JSON integer, and it denotes that
/// integer.
pub proof fn lemma_integer_text_reads_back(n: int)
    ensures
        is_integer_text(integer_text(n)),
        integer_value(integer_text(n)) == n,
{
    if n < 0 {
        lemma_natural_text_reads_back((-n) as nat);
        assert(integer_text(n).skip(1) =~= natural_text((-n) as nat));
    } else {
        lemma_natural_text_reads_back(n as nat);
    }
}

/// Two integers with the same decimal notation are the same integer.
pub proof fn lemma_integer_text_is_injective(a: int, b: int)
    requires
        integer_text(a) == integer_text(b),
    ensures
        a == b,
{
    lemma_integer_text_reads_back(a);
    lemma_integer_text_reads_back(b);
}

fn digit_text(d: u32) -> (text: &'static str)
    requires
        d < 10,
    ensures
        text@ == seq![digit_char(d as int)],
{
    proof {
        reveal_strlit("0");
        reveal_strlit("1");
        reveal_strlit("2");
        reveal_strlit("3");
        reveal_strlit("4");
        reveal_strlit("5");
        reveal_strlit("6");
        reveal_strlit("7");
        reveal_strlit("8");
        reveal_strlit("9");
    }
    match d {
        0 => "0",
        1 => "1",
        2 => "2",
        3 => "3",
        4 => "4",
        5 => "5",
        6 => "6",
        7 => "7",
        8 => "8",
        _ => "9",
    }
}

fn natural_to_text(n: u32) -> (text: String)
    ensures
        text@ == natural_text(n as nat),
    decreases n,
{
    if n < 10 {
        String::from_str(digit_text(n))
    } else {
        let head = natural_to_text(n / 10);
        head.concat(digit_text(n % 10))
    }
}

/// Writes `n` in decimal.
pub fn integer_to_text(n: i32) -> (text: String)
    ensures
        text@ == integer_text(n as int),
{
    if n < 0 {
        let wide: i64 = n as i64;
        let magnitude: u32 = (-wide) as u32;
        proof {
            reveal_strlit("-");
        }
        let digits = natural_to_text(magnitude);
        String::from_str("-").concat(digits.as_str())
    } else {
        natural_to_text(n as u32)
    }
}

/// The character that stands for the hexadecimal digit `d`, in lower case.
pub open spec fn hex_digit_char(d: int) -> char {
    if d < 10 {
        digit_char(d)
    } else if d == 10 {
        'a'
    } else if d == 11 {
        'b'
    } else if d == 12 {
        'c'
    } else if d == 13 {
        'd'
    } else if d == 14 {
        'e'
    } else {
        'f'
    }
}

/// Whether `c` stands for itself inside a JSON string literal: every
/// character but the quotation mark, the backslash and the control characters
/// below the space.
pub open spec fn is_plain_char(c: char) -> bool {
    c != '"' && c != '\\' && c as u32 >= 0x20
}

/// How one character stands inside a JSON string literal. The quotation mark
/// and the backslash get a backslash in front; backspace, tab, line feed,
/// form feed and carriage return get their letter; any other control
/// character is written as `\u00` and two hexadecimal digits; every other
/// character, `/` and those beyond ASCII among them, stands for itself.
pub open spec fn escaped_char(c: char) -> Seq<char> {
    if c == '"' {
        seq!['\\', '"']
    } else if c == '\\' {
        seq!['\\', '\\']
    } else if c == '\u{8}' {
        seq!['\\', 'b']
    } else if c == '\t' {
        seq!['\\', 't']
    } else if c == '\n' {
        seq!['\\', 'n']
    } else if c == '\u{c}' {
        seq!['\\', 'f']
    } else if c == '\r' {
        seq!['\\', 'r']
    } else if (c as u32) < 0x20 {
        seq![
            '\\',
            'u',
            '0',
            '0',
            hex_digit_char((c as u32 / 16) as int),
            hex_digit_char((c as u32 % 16) as int),
        ]
    } else {
        seq![c]
    }
}

/// The characters of `text`, each as it stands inside a JSON string literal.
pub open spec fn escaped_text(text: Seq<char>) -> Seq<char>
    decreases text.len(),
{
    if text.len() == 0 {
        Seq::empty()
    } else {
        escaped_char(text[0]) + escaped_text(text.skip(1))
    }
}

/// The JSON string literal for `text`: a quotation mark, the characters of
/// `text` escaped, and a quotation mark.
pub open spec fn json_string(text: Seq<char>) -> Seq<char> {
    seq!['"'] + escaped_text(text) + seq!['"']
}

/// A text of plain characters is its own escaped form: its literal is the
/// text between two quotation marks.
pub proof fn lemma_plain_text_is_kept(text: Seq<char>)
    requires
        forall|i: int| 0 <= i < text.len() ==> is_plain_char(#[trigger] text[i]),
    ensures
        escaped_text(text) == text,
        json_string(text) == seq!['"'] + text + seq!['"'],
    decreases text.len(),
{
    if text.len() > 0 {
        let rest = text.skip(1);
        assert forall|i: int| 0 <= i < rest.len() implies is_plain_char(#[trigger] rest[i]) by {
            assert(rest[i] == text[i + 1]);
        }
        lemma_plain_text_is_kept(rest);
        assert(is_plain_char(text[0]));
        assert(seq![text[0]] + rest =~= text);
    }
}

/// Writes `text` as a JSON string literal.
///
/// Trusted, not proved: the body is one call of `serde_json::to_string` on a
/// `str`. The contract claims that the call always succeeds (the serialiser
/// writes into a `Vec<u8>`, which cannot fail, and a `str` has no serialising
/// code of its own that could), and that it escapes as `escaped_char` says,
/// which is the escape table of `serde_json`'s serialiser read character by
/// character: every byte of a character beyond ASCII is written as it is.
#[verifier::external_body]
pub(crate) fn string_to_text(text: &str) -> (literal: String)
    ensures
        literal@ == json_string(text@),
{
    serde_json::to_string(text).unwrap_or_default()
}

/// The items of `items` one after another, a comma between each two.
pub open spec fn comma_separated(items: Seq<Seq<char>>) -> Seq<char>
    decreases items.len(),
{
    if items.len() == 0 {
        Seq::empty()
    } else if items.len() == 1 {
        items[0]
    } else {
        comma_separated(items.drop_last()) + ","@ + items.last()
    }
}

/// A JSON array whose elements are the given texts, in their order, written
/// without any white space.
pub open spec fn array_text(items: Seq<Seq<char>>) -> Seq<char> {
    "["@ + comma_separated(items) + "]"@
}

/// Writes the JSON array whose elements are the texts in `items`. Each item
/// is taken as it is: it must already be JSON.
pub fn array_to_text(items: &Vec<String>) -> (text: String)
    ensures
        text@ == array_text(items.deep_view()),
{
    let ghost all = items.deep_view();
    let mut text = String::from_str("[");
    let mut i: usize = 0;
    while i < items.len()
        invariant
            i <= items.len(),
            all == items.deep_view(),
            text@ == "["@ + comma_separated(all.take(i as int)),
        decreases items.len() - i,
    {
        if i > 0 {
            text.append(",");
        }
        text.append(items[i].as_str());
        proof {
            let before = all.take(i as int);
            let after = all.take(i + 1);
            assert(after.drop_last() =~= before);
            assert(after.last() == items[i as int]@);
        }
        i += 1;
    }
    proof {
        assert(all.take(i as int) =~= all);
    }
    text.append("]");
    text
}

} // verus!
