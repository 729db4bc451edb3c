use arith_validator::engine::null_terminated;
use arith_validator::validator::is_valid_arithmetic;

#[test]
fn framing_appends_one_zero_byte() {
    assert_eq!(null_terminated("1+2"), Some(vec![b'1', b'+', b'2', 0]));
    assert_eq!(null_terminated(""), Some(vec![0]));
    assert_eq!(null_terminated("(1+2)*3"), Some(b"(1+2)*3\0".to_vec()));
}

#[test]
fn framing_keeps_bytes_outside_ascii() {
    assert_eq!(null_terminated("\u{e9}"), Some(vec![0xc3, 0xa9, 0]));
}

#[test]
fn framing_refuses_an_inner_zero_byte() {
    assert_eq!(null_terminated("\u{0}"), None);
    assert_eq!(null_terminated("1\u{0}2"), None);
    assert_eq!(null_terminated("1+2\u{0}"), None);
    assert_eq!(null_terminated("\u{0}1+2"), None);
}

#[test]
fn accepted_texts_can_always_be_framed() {
    let samples = ["1", "1+2", "(1+2)*3", "1 + 2", "((7))", "1++2", "", "a", "1\u{0}", "\u{0}"];
    for text in samples {
        if is_valid_arithmetic(text) {
            let framed = null_terminated(text).unwrap();
            assert_eq!(framed.len(), text.len() + 1);
            assert_eq!(framed.iter().filter(|b| **b == 0).count(), 1);
            assert_eq!(framed.last(), Some(&0));
        }
    }
    assert!(null_terminated("(1+2)*3").is_some());
}
