use regex::Regex;
use serial_plotter::backend::data_parser::{
    is_number_token, is_separator_char, parse_line_to_values,
};

fn numbers(line: &str) -> Vec<Option<f64>> {
    parse_line_to_values(line)
        .iter()
        .map(|cell| cell.as_ref().map(|text| text.parse::<f64>().unwrap()))
        .collect()
}

fn texts(line: &str) -> Vec<Option<String>> {
    parse_line_to_values(line)
}

fn by_pattern(line: &str) -> Vec<Option<String>> {
    let pattern = Regex::new(r"[^,\s]+").unwrap();
    pattern
        .find_iter(line)
        .map(|found| found.as_str().parse::<f64>().ok().map(|_| found.as_str().to_string()))
        .collect()
}

#[test]
fn an_empty_line_gives_an_empty_row() {
    assert_eq!(texts(""), Vec::<Option<String>>::new());
    assert_eq!(texts(" , ,\t"), Vec::<Option<String>>::new());
}

#[test]
fn tokens_are_cut_at_commas_and_whitespace() {
    assert_eq!(numbers("1.1,2.2"), vec![Some(1.1), Some(2.2)]);
    assert_eq!(numbers("  1 2\t3,,4 , 5  "), vec![Some(1.0), Some(2.0), Some(3.0), Some(4.0), Some(5.0)]);
    assert_eq!(
        texts("10,abc,-3.5e2"),
        vec![Some("10".to_string()), None, Some("-3.5e2".to_string())]
    );
    assert_eq!(numbers("10,abc,-3.5e2"), vec![Some(10.0), None, Some(-350.0)]);
}

#[test]
fn a_partly_numeric_line_gives_a_partial_row() {
    assert_eq!(numbers("temp=21.5,21.5,ok"), vec![None, Some(21.5), None]);
    assert_eq!(numbers("1;2"), vec![None]);
}

#[test]
fn unicode_whitespace_separates_tokens() {
    assert_eq!(numbers("1\u{a0}2\u{3000}3\u{2028}4\u{85}5"), vec![Some(1.0), Some(2.0), Some(3.0), Some(4.0), Some(5.0)]);
    assert_eq!(numbers("1\u{200b}2"), vec![None]);
    assert_eq!(numbers("7\r"), vec![Some(7.0)]);
}

#[test]
fn separators_are_the_comma_and_white_space() {
    let pattern = Regex::new(r"^[,\s]$").unwrap();
    let mut code = 0u32;
    while code <= 0x3100 {
        if let Some(c) = char::from_u32(code) {
            assert_eq!(is_separator_char(c), pattern.is_match(&c.to_string()), "U+{:04X}", code);
            assert_eq!(is_separator_char(c), c == ',' || c.is_whitespace(), "U+{:04X}", code);
        }
        code += 1;
    }
    assert!(!is_separator_char('\u{feff}'));
    assert!(!is_separator_char('\u{10ffff}'));
}

#[test]
fn number_tokens_are_what_parses_as_a_float() {
    let tokens = [
        "0", "7", "007", "3.14", "-3.14", "+3.14", "5.", ".5", "-.5", "+5.", "2.5E10", "2.5e10",
        "2.5E-10", "2.5e+10", "1e5", "1E5", ".5e3", "5.e3", "inf", "-inf", "+inf", "Inf", "INF",
        "infinity", "+infinity", "-Infinity", "INFINITY", "nan", "NaN", "-nan", "+NAN", "1e400",
        "123456789012345678901234567890", "0.000000000000000000000000000001", "", "+", "-", ".",
        "+.", "e", "e5", "1e", "1e+", "1e-", ".e5", "1.2.3", "1..2", "1e5.0", "1e5e5", "--1",
        "+-1", "1-", "1+", "0x10", "1_000", "1,5", " 1", "1 ", "infinit", "in", "infi",
        "infinityy", "nana", "na", "ninf", "i", "1f", "1d", "٣", "１", "1\u{2212}", "Ｅ", "1E",
        "1e0", "-0", "-0.0", "+0e-0", "0e", "İnf", "ınf", "infinıty", "\u{212A}", "in\u{66}",
        "NAN ", "@nf", "iNf", "nAn", "InFiNiTy", "i\u{4e}f", "1e+5", "1e++5", "1.e", "1.E5",
    ];
    for token in tokens {
        let chars: Vec<char> = token.chars().collect();
        assert_eq!(is_number_token(&chars), token.parse::<f64>().is_ok(), "{:?}", token);
    }
}

#[test]
fn rows_agree_with_the_pattern_and_the_float_parser() {
    let lines = [
        "",
        "1.1,2.2",
        "3.3,4.4,5.5",
        "6.6",
        "1,2\r",
        " 1 ,\t2 ,, 3\u{a0}4",
        "a,b,c",
        "x=1 y=2",
        "1e3,-inf,NaN,+.5,5.,.",
        ",,,",
        "12 34,56\u{2003}78\u{1680}9",
        "1\u{180e}2",
        "temp: 21.5 C",
        "-1,-2,-3",
        "1,２,3",
    ];
    for line in lines {
        assert_eq!(texts(line), by_pattern(line), "{:?}", line);
    }
}
