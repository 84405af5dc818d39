use books_api::json::{array_to_text, integer_to_text};

#[test]
fn zero_is_a_single_digit() {
    assert_eq!(integer_to_text(0), "0");
}

#[test]
fn single_digits() {
    assert_eq!(integer_to_text(1), "1");
    assert_eq!(integer_to_text(7), "7");
    assert_eq!(integer_to_text(9), "9");
}

#[test]
fn several_digits_keep_their_order() {
    assert_eq!(integer_to_text(10), "10");
    assert_eq!(integer_to_text(42), "42");
    assert_eq!(integer_to_text(1965), "1965");
    assert_eq!(integer_to_text(1000000), "1000000");
    assert_eq!(integer_to_text(1234567890), "1234567890");
}

#[test]
fn negative_numbers_carry_a_minus_sign() {
    assert_eq!(integer_to_text(-1), "-1");
    assert_eq!(integer_to_text(-10), "-10");
    assert_eq!(integer_to_text(-305), "-305");
}

#[test]
fn the_ends_of_the_range() {
    assert_eq!(integer_to_text(i32::MAX), "2147483647");
    assert_eq!(integer_to_text(i32::MIN), "-2147483648");
}

#[test]
fn integers_are_written_as_serde_json_writes_them() {
    for n in [0, 1, -1, 9, 10, 11, 99, 100, 101, -2147483648, 2147483647, 65536, -40000] {
        assert_eq!(integer_to_text(n), serde_json::to_string(&n).unwrap());
    }
}

#[test]
fn integers_read_back() {
    for n in [0, 5, -5, 1200, -98765, i32::MAX, i32::MIN] {
        assert_eq!(integer_to_text(n).parse::<i32>().unwrap(), n);
    }
}

#[test]
fn empty_array() {
    assert_eq!(array_to_text(&Vec::new()), "[]");
}

#[test]
fn array_of_one_has_no_comma() {
    assert_eq!(array_to_text(&vec![String::from("1")]), "[1]");
}

#[test]
fn array_items_are_separated_by_commas_and_kept_in_order() {
    let items = vec![String::from("3"), String::from("\"b\""), String::from("{}")];
    assert_eq!(array_to_text(&items), "[3,\"b\",{}]");
}
