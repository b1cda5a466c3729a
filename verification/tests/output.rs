use prometheus_command_exporter::error::Error;
use prometheus_command_exporter::number::is_float_text;
use prometheus_command_exporter::output::{char_is_whitespace, chars_of, clean, parse_output};

fn chars(text: &str) -> Vec<char> {
    text.chars().collect()
}

fn cleaned(text: &str) -> String {
    clean(&chars(text)).into_iter().collect()
}

#[test]
fn lines_of_digits_run_together() {
    let text = parse_output(b"12\n34\n".to_vec()).unwrap();
    assert_eq!(text, "1234");
    assert_eq!(text.parse::<f64>().unwrap(), 1234.0);
}

#[test]
fn a_single_number_is_kept_as_written() {
    assert_eq!(parse_output(b"1\n".to_vec()).unwrap(), "1");
    assert_eq!(parse_output(b"  -2.5e3\t\r\n".to_vec()).unwrap(), "-2.5e3");
    assert_eq!(parse_output(b"+Inf".to_vec()).unwrap(), "+Inf");
}

#[test]
fn words_are_no_number() {
    assert!(matches!(parse_output(b"hello".to_vec()), Err(Error::Parse)));
    assert!(matches!(parse_output(b"not_a_number\n".to_vec()), Err(Error::Parse)));
}

#[test]
fn no_output_is_no_number() {
    assert!(matches!(parse_output(Vec::new()), Err(Error::Parse)));
    assert!(matches!(parse_output(b" \n\t".to_vec()), Err(Error::Parse)));
}

#[test]
fn bytes_that_are_no_utf8_are_refused() {
    assert!(matches!(parse_output(vec![0x31, 0xff, 0x32]), Err(Error::FromUtf8)));
    assert!(matches!(parse_output(vec![0xc3]), Err(Error::FromUtf8)));
}

#[test]
fn space_inside_stays_and_spoils_the_number() {
    assert_eq!(cleaned(" 1 2 \n"), "1 2");
    assert!(matches!(parse_output(b"1 2".to_vec()), Err(Error::Parse)));
    assert!(matches!(parse_output(b"1 \n 2".to_vec()), Err(Error::Parse)));
}

#[test]
fn cleaning_trims_before_it_drops_line_feeds() {
    assert_eq!(cleaned("\n 7\n8 \n\n"), "78");
    assert_eq!(cleaned("7\n \n8"), "7 8");
    assert_eq!(cleaned("\u{a0}\u{3000}9\u{2003}"), "9");
    assert_eq!(cleaned("\r\n"), "");
    assert_eq!(cleaned("a\r\nb"), "a\rb");
}

#[test]
fn cleaning_is_trim_then_replace() {
    let samples = [
        "", " ", "\n", "12\n34\n", " 1\n 2 ", "\t-3.5\r\n", "\u{85}4\u{2028}", "x\u{200b}",
        "\u{1680}5\u{205f}", "\u{feff}6", "\u{0b}\u{0c}7\u{1c}", "8\u{202f}\u{2029}",
    ];
    for sample in samples {
        assert_eq!(cleaned(sample), sample.trim().replace("\n", ""), "{:?}", sample);
    }
}

#[test]
fn white_space_is_what_the_standard_library_says() {
    for code in 0..0x11000u32 {
        if let Some(c) = char::from_u32(code) {
            assert_eq!(char_is_whitespace(c), c.is_whitespace(), "{:?}", c);
        }
    }
}

#[test]
fn characters_are_read_one_by_one() {
    assert_eq!(chars_of("a\u{e9}\u{1f600}"), vec!['a', '\u{e9}', '\u{1f600}']);
    assert_eq!(chars_of(""), Vec::<char>::new());
}

#[test]
fn numbers_are_what_the_standard_library_parses() {
    let samples = [
        "0", "1", "-1", "+1", "1.", ".1", "1.5", "-.5", "+5.", ".", "", "+", "-", "+-1", "1e5",
        "1E5", "1e+5", "1e-5", "1e", "1e+", "e5", ".e5", "1.e5", ".1e5", "1e5.0", "1e5e5", "1_000",
        "inf", "INF", "Inf", "-inf", "+infinity", "INFINITY", "infinit", "infinityy", "nan",
        "NaN", "-nan", "+NAN", "na", "nann", "1f", "0x10", "1,5", " 1", "1 ", "1..2", "1.2.3",
        "--1", "++1", "1-", "12345678901234567890", "0.000000000000000000001", "1e400",
        "i", "in", "\u{661}", "1\u{660}", "\u{130}nf", "\u{212a}", "1d5", "1e5f", "+e", ".+1",
    ];
    for sample in samples {
        assert_eq!(
            is_float_text(&chars(sample)),
            sample.parse::<f64>().is_ok(),
            "{:?}",
            sample
        );
    }
}

#[test]
fn short_texts_are_judged_as_the_standard_library_does() {
    let alphabet = ['0', '7', '.', 'e', 'E', '+', '-', 'i', 'n', 'f', 'a', 'N', ' '];
    let mut texts: Vec<String> = vec![String::new()];
    let mut from = 0;
    for _ in 0..4 {
        let upto = texts.len();
        for at in from..upto {
            for c in alphabet {
                let mut longer = texts[at].clone();
                longer.push(c);
                texts.push(longer);
            }
        }
        from = upto;
    }
    for text in &texts {
        assert_eq!(is_float_text(&chars(text)), text.parse::<f64>().is_ok(), "{:?}", text);
    }
}
