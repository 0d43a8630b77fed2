use comment_stripping::Obfuscator;

#[test]
fn test_no_comments() {
    let input = "int main() { return 0; }";
    let obfuscator = Obfuscator::new();
    let output = obfuscator.obfuscate(input);
    assert_eq!(output, input);
}

#[test]
fn test_single_line_comment() {
    let input = "int x = 42; // This is a comment\nint y = 43;";
    let expected = "int x = 42; \nint y = 43;";
    let obfuscator = Obfuscator::new();
    let output = obfuscator.obfuscate(input);
    assert_eq!(output, expected);
}

#[test]
fn test_multi_line_comment() {
    let input = "int x = 42; /* This is a\nmulti-line comment */ int y = 43;";
    let expected = "int x = 42;  int y = 43;";
    let obfuscator = Obfuscator::new();
    let output = obfuscator.obfuscate(input);
    assert_eq!(output, expected);
}

#[test]
fn test_comment_in_string() {
    let input = r#"char* s = "// not a comment";"#;
    let obfuscator = Obfuscator::new();
    let output = obfuscator.obfuscate(input);
    assert_eq!(output, input);
}

#[test]
fn test_empty_input() {
    let input = "";
    let obfuscator = Obfuscator::new();
    let output = obfuscator.obfuscate(input);
    assert_eq!(output, "");
}

#[test]
fn test_only_comments() {
    let input = "// Comment\n/* Another comment */";
    let expected = "\n";
    let obfuscator = Obfuscator::new();
    let output = obfuscator.obfuscate(input);
    assert_eq!(output, expected);
}

#[test]
fn test_string_with_escaped_quotes() {
    let input = r#"char* s = "\"// not a comment\"";"#;
    let obfuscator = Obfuscator::new();
    let output = obfuscator.obfuscate(input);
    assert_eq!(output, input);
}

#[test]
fn test_mixed_comments_and_code() {
    let input = r#"
        int main() { // Start
            printf("Hello /* world */"); /* Print */
            return 0; // End
        }
        "#;
    let expected = r#"
        int main() { 
            printf("Hello /* world */"); 
            return 0; 
        }
        "#;
    let obfuscator = Obfuscator::new();
    let output = obfuscator.obfuscate(input);
    assert_eq!(output, expected);
}
