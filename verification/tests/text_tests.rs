use fluerion::text::join;
use fluerion::text::push_bool;
use fluerion::text::push_i64;
use fluerion::text::push_u64;
use fluerion::text::skip_chars;
use fluerion::text::split;
use fluerion::text::starts_with;
use fluerion::text::u64_to_string;

fn strings(items: &[&str]) -> Vec<String> {
    items.iter().map(|s| s.to_string()).collect()
}

#[test]
fn decimal_of_unsigned_numbers() {
    assert_eq!(u64_to_string(0), "0");
    assert_eq!(u64_to_string(7), "7");
    assert_eq!(u64_to_string(10), "10");
    assert_eq!(u64_to_string(1700000000), "1700000000");
    assert_eq!(u64_to_string(u64::MAX), "18446744073709551615");
}

#[test]
fn push_appends_to_what_is_there() {
    let mut out = String::from("n=");
    push_u64(&mut out, 42);
    out.push(' ');
    push_i64(&mut out, -42);
    out.push(' ');
    push_i64(&mut out, 0);
    out.push(' ');
    push_i64(&mut out, i64::MIN);
    out.push(' ');
    push_bool(&mut out, true);
    push_bool(&mut out, false);
    assert_eq!(out, "n=42 -42 0 -9223372036854775808 truefalse");
}

#[test]
fn decimal_agrees_with_the_standard_rendering() {
    for n in [0u64, 1, 9, 10, 99, 100, 12345, 1 << 32, u64::MAX - 1] {
        assert_eq!(u64_to_string(n), format!("{}", n));
    }
    for i in [0i64, 1, -1, 10, -10, i64::MAX, i64::MIN + 1] {
        let mut out = String::new();
        push_i64(&mut out, i);
        assert_eq!(out, format!("{}", i));
    }
}

#[test]
fn join_puts_the_separator_between_parts() {
    assert_eq!(join(&strings(&[]), ","), "");
    assert_eq!(join(&strings(&["a"]), ","), "a");
    assert_eq!(join(&strings(&["a", "b", "c"]), ", "), "a, b, c");
    assert_eq!(join(&strings(&["", ""]), ","), ",");
}

#[test]
fn split_cuts_at_every_separator() {
    assert_eq!(split("a,b,c", ','), strings(&["a", "b", "c"]));
    assert_eq!(split("", ','), strings(&[""]));
    assert_eq!(split(",", ','), strings(&["", ""]));
    assert_eq!(split("a,,b,", ','), strings(&["a", "", "b", ""]));
    assert_eq!(split("no separator", ','), strings(&["no separator"]));
    assert_eq!(split("ä,ö", ','), strings(&["ä", "ö"]));
}

#[test]
fn join_undoes_split() {
    for text in ["", ",", "a,b", "127.0.0.1:9001,127.0.0.1:9002", ",,x,,"] {
        assert_eq!(join(&split(text, ','), ","), text);
    }
}

#[test]
fn split_agrees_with_the_standard_split() {
    for text in ["", ",", "a,b", "a,,b,", "päär,x"] {
        let expected: Vec<String> = text.split(',').map(|s| s.to_string()).collect();
        assert_eq!(split(text, ','), expected);
    }
}

#[test]
fn starts_with_compares_whole_prefix() {
    assert!(starts_with("GET_PEERS", "GET_PEERS"));
    assert!(starts_with("GET_PEERS and more", "GET_PEERS"));
    assert!(starts_with("anything", ""));
    assert!(starts_with("", ""));
    assert!(!starts_with("GET_PEER", "GET_PEERS"));
    assert!(!starts_with(" GET_PEERS", "GET_PEERS"));
    assert!(!starts_with("", "x"));
    assert!(starts_with("ärger", "är"));
}

#[test]
fn skip_chars_counts_characters() {
    assert_eq!(skip_chars("ADD_PEER:host", 9), "host");
    assert_eq!(skip_chars("abc", 0), "abc");
    assert_eq!(skip_chars("abc", 3), "");
    assert_eq!(skip_chars("abc", 4), "");
    assert_eq!(skip_chars("äbc", 1), "bc");
}
