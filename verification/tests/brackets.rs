use comment_stripping::brackets::{check_parentheses, check_parentheses_and_brackets};

#[test]
fn test_parentheses() {
    assert_eq!(check_parentheses("(())"), true);
    assert_eq!(check_parentheses("()()"), true);
    assert_eq!(check_parentheses("(()"), false);
    assert_eq!(check_parentheses("())"), false);
    assert_eq!(check_parentheses("a(b)c"), true);
}

#[test]
fn test_parentheses_and_brackets() {
    assert_eq!(check_parentheses_and_brackets("(())[]"), true);
    assert_eq!(check_parentheses_and_brackets("([]]"), false);
    assert_eq!(check_parentheses_and_brackets("a(b)[c]"), true);
    assert_eq!(check_parentheses_and_brackets("([)]"), false);
}

#[test]
fn empty_text_is_balanced() {
    assert!(check_parentheses(""));
    assert!(check_parentheses_and_brackets(""));
}

#[test]
fn text_without_brackets_is_balanced() {
    assert!(check_parentheses("abc"));
    assert!(check_parentheses_and_brackets("abc {x} <y>"));
}

#[test]
fn closing_first_is_rejected() {
    assert!(!check_parentheses(")("));
    assert!(!check_parentheses(")"));
    assert!(!check_parentheses_and_brackets(")("));
    assert!(!check_parentheses_and_brackets("]["));
    assert!(!check_parentheses_and_brackets("]"));
}

#[test]
fn open_bracket_left_over_is_rejected() {
    assert!(!check_parentheses("("));
    assert!(!check_parentheses("(()()"));
    assert!(!check_parentheses_and_brackets("(["));
    assert!(!check_parentheses_and_brackets("[()"));
}

#[test]
fn parentheses_check_ignores_square_brackets() {
    assert!(check_parentheses("([)]"));
    assert!(check_parentheses("](a)["));
    assert!(!check_parentheses("]("));
}

#[test]
fn crossed_brackets_are_rejected() {
    assert!(!check_parentheses_and_brackets("[(])"));
    assert!(!check_parentheses_and_brackets("(]"));
    assert!(!check_parentheses_and_brackets("[)"));
}

#[test]
fn nested_and_adjacent_brackets_are_accepted() {
    assert!(check_parentheses_and_brackets("([])"));
    assert!(check_parentheses_and_brackets("[()]()[]"));
    assert!(check_parentheses_and_brackets("[[(())]]"));
    assert!(check_parentheses("((()))"));
}

#[test]
fn checks_agree_without_square_brackets() {
    for text in ["", "()", "(()", "())", ")(", "a(b)c", "((a)(b))", "(()))("] {
        assert_eq!(check_parentheses(text), check_parentheses_and_brackets(text));
    }
}

#[test]
fn well_nested_texts_compose() {
    let parts = ["", "()", "[]", "a(b)[c]", "([])"];
    for a in parts {
        for b in parts {
            assert!(check_parentheses_and_brackets(&format!("{a}{b}")));
            assert!(check_parentheses_and_brackets(&format!("({a})")));
            assert!(check_parentheses_and_brackets(&format!("[{b}]")));
        }
    }
}

#[test]
fn other_characters_do_not_count() {
    for text in ["", "()", "([])", "(", "(]", ")"] {
        let expected = check_parentheses_and_brackets(text);
        assert_eq!(check_parentheses_and_brackets(&format!("{text}x")), expected);
        assert_eq!(check_parentheses_and_brackets(&format!("{text} {{}}")), expected);
    }
}

#[test]
fn well_nested_text_splits_at_the_partner_of_its_last_bracket() {
    let text = "a(b)[c(d)e]";
    assert!(check_parentheses_and_brackets(text));
    let partner = 4;
    assert_eq!(&text[partner..partner + 1], "[");
    assert!(check_parentheses_and_brackets(&text[..partner]));
    assert!(check_parentheses_and_brackets(&text[partner + 1..text.len() - 1]));
}
