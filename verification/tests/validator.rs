use arith_validator::validator::is_valid_arithmetic;

fn count(text: &str, wanted: char) -> usize {
    text.chars().filter(|c| *c == wanted).count()
}

#[test]
fn digit_strings_are_accepted() {
    assert!(is_valid_arithmetic("0"));
    assert!(is_valid_arithmetic("42"));
    assert!(is_valid_arithmetic("0000"));
    assert!(is_valid_arithmetic("9223372036854775807123456789"));
    for digit in '0'..='9' {
        assert!(is_valid_arithmetic(&digit.to_string()));
    }
}

#[test]
fn accepted_texts_have_balanced_parentheses() {
    let samples = [
        "1", "(1)", "((1))", "(1+2)*3", "(1+(2*3))", "1+2)", "(1+2", "((1)", "(1))", ")(", "()",
        "(1)(2)", "1(2)", "((((7))))", "(1)+(2)-(3)", "( 1 + 2 ) * ( 3 )",
    ];
    for text in samples {
        if is_valid_arithmetic(text) {
            assert_eq!(count(text, '('), count(text, ')'));
        }
    }
    assert!(is_valid_arithmetic("((((7))))"));
    assert!(!is_valid_arithmetic("((((7)))"));
    assert!(!is_valid_arithmetic("(((7))))"));
}

#[test]
fn validating_twice_gives_the_same_result() {
    let samples = ["", "1", "1+2", "1++2", "(1+2)*3", "(1+2", "quit", "1 + 2", "1+2a"];
    for text in samples {
        let first = is_valid_arithmetic(text);
        let second = is_valid_arithmetic(text);
        assert_eq!(first, second);
    }
}

#[test]
fn simple_sum_is_accepted() {
    assert!(is_valid_arithmetic("1+2"));
}

#[test]
fn grouped_product_is_accepted() {
    assert!(is_valid_arithmetic("(1+2)*3"));
}

#[test]
fn consecutive_operators_are_rejected() {
    assert!(!is_valid_arithmetic("1++2"));
    assert!(!is_valid_arithmetic("1+-2"));
    assert!(!is_valid_arithmetic("1*/2"));
}

#[test]
fn empty_group_is_rejected() {
    assert!(!is_valid_arithmetic("()"));
    assert!(!is_valid_arithmetic("1+()"));
    assert!(!is_valid_arithmetic("(1)+()"));
}

#[test]
fn unbalanced_open_is_rejected() {
    assert!(!is_valid_arithmetic("(1+2"));
    assert!(!is_valid_arithmetic("((1+2)"));
    assert!(!is_valid_arithmetic("1+2("));
}

#[test]
fn unbalanced_close_is_rejected() {
    assert!(!is_valid_arithmetic("1+2)"));
    assert!(!is_valid_arithmetic("(1+2))"));
    assert!(!is_valid_arithmetic(")1("));
}

#[test]
fn empty_and_blank_texts_are_rejected() {
    assert!(!is_valid_arithmetic(""));
    assert!(!is_valid_arithmetic("   "));
    assert!(!is_valid_arithmetic(" "));
}

#[test]
fn foreign_character_is_rejected() {
    assert!(!is_valid_arithmetic("1+2a"));
    assert!(!is_valid_arithmetic("a"));
    assert!(!is_valid_arithmetic("x+1"));
}

#[test]
fn leading_operator_is_rejected() {
    assert!(!is_valid_arithmetic("+1"));
    assert!(!is_valid_arithmetic("-1"));
    assert!(!is_valid_arithmetic("*1"));
    assert!(!is_valid_arithmetic("/1"));
}

#[test]
fn trailing_operator_is_rejected() {
    assert!(!is_valid_arithmetic("1+"));
    assert!(!is_valid_arithmetic("(1+2)*"));
}

#[test]
fn operator_after_open_parenthesis_is_rejected() {
    assert!(!is_valid_arithmetic("(+1)"));
    assert!(!is_valid_arithmetic("2*(-1)"));
}

#[test]
fn nested_groups_are_accepted() {
    assert!(is_valid_arithmetic("(1+(2*3))"));
    assert!(is_valid_arithmetic("((1+2)*(3-4))/5"));
}

#[test]
fn every_operator_is_accepted_between_operands() {
    assert!(is_valid_arithmetic("1+2"));
    assert!(is_valid_arithmetic("1-2"));
    assert!(is_valid_arithmetic("1*2"));
    assert!(is_valid_arithmetic("1/2"));
    assert!(is_valid_arithmetic("(1)/(2)"));
}

#[test]
fn other_number_syntax_is_rejected() {
    assert!(!is_valid_arithmetic("1.5"));
    assert!(!is_valid_arithmetic("1e5"));
    assert!(!is_valid_arithmetic("-3"));
    assert!(!is_valid_arithmetic("0x10"));
    assert!(!is_valid_arithmetic("1,000"));
}

#[test]
fn characters_outside_ascii_are_rejected() {
    assert!(!is_valid_arithmetic("1\u{d7}2"));
    assert!(!is_valid_arithmetic("\u{661}"));
    assert!(!is_valid_arithmetic("1\u{ff0b}2"));
    assert!(!is_valid_arithmetic("1\u{0}"));
}

#[test]
fn close_needs_a_digit_before_it() {
    assert!(!is_valid_arithmetic("(()1)"));
    assert!(!is_valid_arithmetic("(( )1)"));
}

#[test]
fn juxtaposed_operands_are_accepted() {
    assert!(is_valid_arithmetic("(1)(2)"));
    assert!(is_valid_arithmetic("1(2)"));
    assert!(is_valid_arithmetic("(1)2"));
}

#[test]
fn spaces_are_transparent() {
    assert!(is_valid_arithmetic("1 + 2"));
    assert!(is_valid_arithmetic(" 1"));
    assert!(is_valid_arithmetic("1 "));
    assert!(is_valid_arithmetic("( 1 + 2 ) * 3"));
    assert!(is_valid_arithmetic("1 2"));
    assert!(!is_valid_arithmetic("1 + + 2"));
    assert!(!is_valid_arithmetic("1 +"));
    assert!(!is_valid_arithmetic(" + 1"));
    assert!(!is_valid_arithmetic("( )"));
    assert!(!is_valid_arithmetic("1+( )"));
    assert!(!is_valid_arithmetic("( + 1)"));
}

#[test]
fn other_white_space_is_rejected() {
    assert!(!is_valid_arithmetic("1\t+2"));
    assert!(!is_valid_arithmetic("1+2\n"));
    assert!(!is_valid_arithmetic("1\u{a0}+2"));
}
