use rusk::text::{concat_str, format_decimal, from_chars, join, to_chars};

#[test]
fn chars_round_trip() {
    let chars = to_chars("a${b}é");
    assert_eq!(chars, vec!['a', '$', '{', 'b', '}', 'é']);
    assert_eq!(from_chars(&chars), "a${b}é");
    assert_eq!(from_chars(&Vec::new()), "");
}

#[test]
fn concat_and_join() {
    assert_eq!(concat_str("ab", "cd"), "abcd");
    let parts = vec!["a".to_string(), "b".to_string(), "a".to_string()];
    assert_eq!(join(&parts, " -> "), "a -> b -> a");
    assert_eq!(join(&vec!["only".to_string()], ", "), "only");
    assert_eq!(join(&Vec::new(), ", "), "");
}

#[test]
fn decimal_formatting() {
    for n in [0, 1, 9, 10, 11, 99, 100, 127, 255, 1000, 2147483647, -1, -10, -128, -2147483648] {
        assert_eq!(format_decimal(n), format!("{}", n));
    }
}
