use template_eval::text::{int_to_string, split_str, str_eq, str_lt};

#[test]
fn split_keeps_empty_pieces() {
    assert_eq!(split_str("a.c.d", '.'), vec!["a", "c", "d"]);
    assert_eq!(split_str("", '.'), vec![""]);
    assert_eq!(split_str(".", '.'), vec!["", ""]);
    assert_eq!(split_str("a..b.", '.'), vec!["a", "", "b", ""]);
    for s in ["", "x", "a.b", "..", "日.本.", "a.bc.def"] {
        let expected: Vec<String> = s.split('.').map(|p| p.to_string()).collect();
        assert_eq!(split_str(s, '.'), expected);
    }
}

#[test]
fn string_order_matches_std() {
    let words = ["", "a", "aa", "ab", "b", "Z", "é", "€", "𝄞", "a\u{0}"];
    for x in words.iter() {
        for y in words.iter() {
            assert_eq!(str_lt(x, y), x < y);
            assert_eq!(str_eq(x, y), x == y);
        }
    }
}

#[test]
fn integer_text() {
    for v in [0i64, 1, 9, 10, 99, 100, -1, -10, 405, i64::MAX, i64::MIN] {
        assert_eq!(int_to_string(v), v.to_string());
    }
}
