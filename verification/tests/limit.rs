use preview_player::limit::{effective_limit, limit_from_flag, parse_count, parse_count_bytes, DEFAULT_LIMIT};

#[test]
fn default_limit_is_five() {
    assert_eq!(DEFAULT_LIMIT, 5);
    assert_eq!(effective_limit(None), 5);
    assert_eq!(limit_from_flag(None), 5);
}

#[test]
fn requested_limit_is_kept_where_positive() {
    assert_eq!(effective_limit(Some(1)), 1);
    assert_eq!(effective_limit(Some(12)), 12);
    assert_eq!(effective_limit(Some(usize::MAX)), usize::MAX);
}

#[test]
fn zero_limit_falls_back_to_the_default() {
    assert_eq!(effective_limit(Some(0)), 5);
    assert_eq!(limit_from_flag(Some("0")), 5);
    assert_eq!(limit_from_flag(Some("000")), 5);
}

#[test]
fn decimal_text_stands_for_its_value() {
    assert_eq!(parse_count("0"), Some(0));
    assert_eq!(parse_count("1"), Some(1));
    assert_eq!(parse_count("5"), Some(5));
    assert_eq!(parse_count("10"), Some(10));
    assert_eq!(parse_count("1234567890"), Some(1234567890));
    assert_eq!(parse_count_bytes(b"42"), Some(42));
}

#[test]
fn plus_sign_and_leading_zeros_are_accepted() {
    assert_eq!(parse_count("+7"), Some(7));
    assert_eq!(parse_count("007"), Some(7));
    assert_eq!(parse_count("+007"), Some(7));
    assert_eq!(parse_count("+0"), Some(0));
}

#[test]
fn text_that_is_no_numeral_stands_for_nothing() {
    for text in ["", "+", "-", "-3", "++3", "+-3", "3+", " 4", "4 ", "4\n", "1 2", "abc", "12a", "a12", "1.5",
        "0x10", "1e3", "１２", "٣", "1_000", "/", ":"]
    {
        assert_eq!(parse_count(text), None, "{:?}", text);
    }
}

#[test]
fn count_that_does_not_fit_stands_for_nothing() {
    let largest = usize::MAX.to_string();
    assert_eq!(parse_count(&largest), Some(usize::MAX));
    assert_eq!(parse_count(&format!("+000{}", largest)), Some(usize::MAX));
    let mut digits = largest.clone().into_bytes();
    let last = digits.len() - 1;
    digits[last] += 1;
    assert_eq!(parse_count_bytes(&digits), None);
    assert_eq!(parse_count(&format!("{}0", largest)), None);
    assert_eq!(parse_count(&format!("1{}", largest)), None);
    assert_eq!(parse_count("99999999999999999999999999999999999999999"), None);
    assert_eq!(parse_count("9999999999999999999999999999x"), None);
}

#[test]
fn parsing_agrees_with_the_standard_library() {
    let mut texts: Vec<String> = Vec::new();
    for n in 0..300usize {
        texts.push(n.to_string());
        texts.push(format!("+{}", n));
        texts.push(format!("-{}", n));
        texts.push(format!("0{}", n));
        texts.push(format!("{} ", n));
        texts.push(format!("{}a", n));
    }
    for shift in 0..64u32 {
        let n = usize::MAX >> shift;
        texts.push(n.to_string());
        texts.push(format!("{}{}", n, shift));
    }
    for text in texts {
        assert_eq!(parse_count(&text), text.parse::<usize>().ok(), "{:?}", text);
    }
}

#[test]
fn flag_text_settles_the_limit() {
    assert_eq!(limit_from_flag(Some("3")), 3);
    assert_eq!(limit_from_flag(Some("+12")), 12);
    assert_eq!(limit_from_flag(Some("many")), 5);
    assert_eq!(limit_from_flag(Some("")), 5);
    assert_eq!(limit_from_flag(Some("-1")), 5);
    assert_eq!(limit_from_flag(Some("99999999999999999999999999")), 5);
}
