use render_bridge::strutil::{chars_eq_str, chars_of, chars_to_string, split_chars, trim_chars};

#[test]
fn chars_round_trip() {
    let v = chars_of("héllo");
    assert_eq!(v.len(), 5);
    assert_eq!(chars_to_string(&v), "héllo");
    assert!(chars_eq_str(&v, "héllo"));
    assert!(!chars_eq_str(&v, "hello"));
}

#[test]
fn trim_strips_both_ends() {
    assert_eq!(chars_to_string(&trim_chars(&chars_of("  a b \t\n"))), "a b");
    assert_eq!(chars_to_string(&trim_chars(&chars_of("   "))), "");
    assert_eq!(chars_to_string(&trim_chars(&chars_of("ab"))), "ab");
}

#[test]
fn split_keeps_empty_pieces() {
    let pieces: Vec<String> = split_chars(&chars_of("a,,b"), ',')
        .iter()
        .map(chars_to_string)
        .collect();
    assert_eq!(pieces, vec!["a", "", "b"]);
    let one: Vec<String> = split_chars(&chars_of(""), ',')
        .iter()
        .map(chars_to_string)
        .collect();
    assert_eq!(one, vec![""]);
}
