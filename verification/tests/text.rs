use srxformer::float_bits::{greater, is_nan, less_or_equal, place};
use srxformer::scan::{contains, trim, truncate_chars, word_count};
use srxformer::text::{chars_of, decimal_string, is_white_space, join_strings, string_of};
use srxformer::xorshift::{advance, draw_mantissas, mantissa};

#[test]
fn white_space_is_that_of_unicode() {
    for n in 0..=0x10ffffu32 {
        if let Some(c) = char::from_u32(n) {
            assert_eq!(is_white_space(c), c.is_whitespace());
        }
    }
}

#[test]
fn texts_and_characters() {
    let chars = chars_of("кот!");
    assert_eq!(chars, vec!['к', 'о', 'т', '!']);
    assert_eq!(string_of(&chars, 1, 3), "от");
    assert_eq!(join_strings(&vec!["a".to_string(), "b".to_string()], ", "), "a, b");
    assert_eq!(join_strings(&Vec::new(), ", "), "");
}

#[test]
fn numbers_in_decimal_notation() {
    for n in [0u128, 7, 10, 99, 100, 17920, u64::MAX as u128, u128::MAX] {
        assert_eq!(decimal_string(n), n.to_string());
    }
}

#[test]
fn trimming() {
    for text in ["", "  ", "кот", " кот", "кот\u{2003}\n", "\t кот и пес \r\n", "\u{a0}"] {
        assert_eq!(trim(text), text.trim());
    }
}

#[test]
fn searching() {
    for (text, part) in [
        ("", ""),
        ("кот", ""),
        ("", "к"),
        ("кот", "кот"),
        ("кот", "от"),
        ("аабааб", "аба"),
        ("аабааб", "бб"),
        ("кот", "коты"),
    ] {
        assert_eq!(contains(text, part), text.contains(part));
    }
}

#[test]
fn truncating() {
    assert_eq!(truncate_chars("кот и пес", 5), "кот и");
    assert_eq!(truncate_chars("кот", 5), "кот");
    assert_eq!(truncate_chars("кот", 0), "");
}

#[test]
fn counting_words() {
    for text in ["", " ", "кот", " кот и\tпес\n", "а б  в"] {
        assert_eq!(word_count(text), text.split_whitespace().count());
    }
}

#[test]
fn comparing_bit_patterns() {
    let values = [
        0.0f32,
        -0.0,
        1.0,
        -1.0,
        1e-40,
        -1e-40,
        f32::MAX,
        f32::MIN,
        f32::INFINITY,
        f32::NEG_INFINITY,
        f32::NAN,
        -f32::NAN,
    ];
    for a in values {
        assert_eq!(is_nan(a.to_bits()), a.is_nan());
        for b in values {
            assert_eq!(greater(a.to_bits(), b.to_bits()), a > b);
            assert_eq!(less_or_equal(a.to_bits(), b.to_bits()), a <= b);
            assert_eq!(
                place(a.to_bits()) < place(b.to_bits()),
                a.total_cmp(&b) == std::cmp::Ordering::Less
            );
        }
    }
}

#[test]
fn steps_of_the_xorshift_generator() {
    assert_eq!(advance(42), 0xa95514aaa);
    assert_eq!(advance(0), 0);
    assert_eq!(mantissa(u64::MAX), 0xffffff);
    assert_eq!(draw_mantissas(42, 2), vec![0, 0xa00aaa]);
}
