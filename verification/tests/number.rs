use prometheus_command_exporter::number::{
    all_digits_text, char_is_digit, char_is_letter, is_decimal_text, is_exponent_text,
    is_float_text, is_number_text, is_special_text,
};

fn chars(text: &str) -> Vec<char> {
    text.chars().collect()
}

#[test]
fn digits_are_the_ten_ascii_digits() {
    for code in 0..0x11000u32 {
        if let Some(c) = char::from_u32(code) {
            assert_eq!(char_is_digit(c), c.is_ascii_digit(), "{:?}", c);
        }
    }
}

#[test]
fn a_letter_is_matched_in_both_cases() {
    for letter in ['i', 'n', 'f', 't', 'y', 'a'] {
        for code in 0..0x11000u32 {
            if let Some(c) = char::from_u32(code) {
                assert_eq!(
                    char_is_letter(c, letter),
                    c == letter || c == letter.to_ascii_uppercase(),
                    "{:?} for {:?}",
                    c,
                    letter
                );
            }
        }
    }
}

#[test]
fn runs_of_digits_are_told_apart() {
    assert!(all_digits_text(&chars("0123456789")));
    assert!(all_digits_text(&chars("")));
    assert!(!all_digits_text(&chars("12a")));
    assert!(!all_digits_text(&chars("-1")));
    assert!(!all_digits_text(&chars("1.0")));
}

#[test]
fn decimal_numbers_have_a_digit_and_at_most_one_point() {
    for text in ["0", "12", "1.", ".1", "1.5", "0010.0100"] {
        assert!(is_decimal_text(&chars(text)), "{:?}", text);
    }
    for text in ["", ".", "..", "1..", "1.2.3", ".1.", "1e5", "+1", "1 ", "a"] {
        assert!(!is_decimal_text(&chars(text)), "{:?}", text);
    }
}

#[test]
fn exponents_have_a_mark_and_digits() {
    for text in ["e5", "E5", "e+5", "e-5", "E-05", "e123"] {
        assert!(is_exponent_text(&chars(text)), "{:?}", text);
    }
    for text in ["", "e", "E", "e+", "e-", "5", "e5.", "e+-5", "ee5", "e 5", "x5", "e5e"] {
        assert!(!is_exponent_text(&chars(text)), "{:?}", text);
    }
}

#[test]
fn numbers_are_decimals_with_an_optional_exponent() {
    for text in ["1", "1.5", ".5e3", "5.E-3", "1e5", "007"] {
        assert!(is_number_text(&chars(text)), "{:?}", text);
    }
    for text in ["", "e5", ".e5", "1e", "1e5e5", "1e5.5", "-1", "+1", "inf", "1ee5", "1.5.e3"] {
        assert!(!is_number_text(&chars(text)), "{:?}", text);
    }
}

#[test]
fn the_special_values_are_spelled_in_any_case() {
    for text in ["inf", "INF", "iNf", "infinity", "INFINITY", "InFiNiTy", "nan", "NaN", "NAN"] {
        assert!(is_special_text(&chars(text)), "{:?}", text);
    }
    for text in ["", "in", "infi", "infinit", "infinityy", "na", "nana", "-inf", "+nan", "1nf", "i\u{130}f"] {
        assert!(!is_special_text(&chars(text)), "{:?}", text);
    }
}

#[test]
fn one_sign_may_stand_in_front() {
    for text in ["+1", "-1", "+.5", "-5.", "+inf", "-NaN", "-1e-1", "+Infinity"] {
        assert!(is_float_text(&chars(text)), "{:?}", text);
    }
    for text in ["+", "-", "++1", "--1", "+-1", "1+", "1-", "- 1", "+e5"] {
        assert!(!is_float_text(&chars(text)), "{:?}", text);
    }
}
