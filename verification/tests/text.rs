use vm::text::{choose_str, ret_string};

#[test]
fn ret_string_is_padded() {
    let s = ret_string();
    assert_eq!(s, "  A String object  ");
    assert_eq!(s.trim(), "A String object");
}

#[test]
fn choose_str_selects() {
    let s = ret_string();
    let word = s.trim();
    let a: &str = "hello";
    assert_eq!(choose_str(a, word, true), "hello");
    assert_eq!(choose_str(a, word, false), "A String object");
}
