use flow::num::Num;
use flow::token::{split_code, tokenize, Token};

fn ident(s: &str) -> Token {
    Token::Identifier(s.to_string())
}

fn num(digits: Vec<u8>, scale: usize) -> Token {
    Token::Value(Num { digits, scale })
}

#[test]
fn split_simple_declaration() {
    let words = split_code("actuator a\n".to_string());
    assert_eq!(words, vec!["actuator".to_string(), "a".to_string(), "\n".to_string()]);
}

#[test]
fn split_four_spaces_is_one_tab_word() {
    let words = split_code("    set a 5\n".to_string());
    assert_eq!(
        words,
        vec![
            "    ".to_string(),
            "set".to_string(),
            "a".to_string(),
            "5".to_string(),
            "\n".to_string()
        ]
    );
}

#[test]
fn tokenize_keywords_and_structure() {
    let toks = tokenize("sensor actuator block endblock set goto wait if else any all\n".to_string());
    assert_eq!(
        toks,
        vec![
            Token::Sensor,
            Token::Actuator,
            Token::StartBlock,
            Token::EndBlock,
            Token::SetKw,
            Token::Goto,
            Token::Wait,
            Token::If,
            Token::Else,
            Token::Any,
            Token::All,
            Token::Newline,
        ]
    );
}

#[test]
fn tokenize_comparators() {
    let toks = tokenize("< <= = > >=".to_string());
    assert_eq!(
        toks,
        vec![
            Token::Comparator("<".to_string()),
            Token::Comparator("<=".to_string()),
            Token::Comparator("=".to_string()),
            Token::Comparator(">".to_string()),
            Token::Comparator(">=".to_string()),
        ]
    );
}

#[test]
fn tokenize_indentation_units() {
    // four spaces and a literal tab are the same indentation token
    let toks = tokenize("    \tx".to_string());
    assert_eq!(toks, vec![Token::Tab, Token::Tab, ident("x")]);
}

#[test]
fn tokenize_lone_spaces_are_discarded() {
    let toks = tokenize("a  b".to_string());
    assert_eq!(toks, vec![ident("a"), ident("b")]);
}

#[test]
fn tokenize_numbers() {
    let toks = tokenize("set a 1.5\n".to_string());
    assert_eq!(
        toks,
        vec![Token::SetKw, ident("a"), num(vec![1, 5], 1), Token::Newline]
    );
}

#[test]
fn tokenize_integer_number() {
    let toks = tokenize("007".to_string());
    assert_eq!(toks, vec![num(vec![0, 0, 7], 0)]);
}

#[test]
fn tokenize_unknown_characters_are_discarded() {
    let toks = tokenize("a ! ? b\n".to_string());
    assert_eq!(toks, vec![ident("a"), ident("b"), Token::Newline]);
}

#[test]
fn tokenize_identifier_with_underscore_and_digits() {
    let toks = tokenize("my_dev2 - :\n".to_string());
    assert_eq!(
        toks,
        vec![ident("my_dev2"), Token::ConditionStart, Token::Colon, Token::Newline]
    );
}

#[test]
fn tokenize_is_deterministic() {
    let a = tokenize("sensor s\n\nblock b\n    wait:\n        - s > 3\nendblock\n".to_string());
    let b = tokenize("sensor s\n\nblock b\n    wait:\n        - s > 3\nendblock\n".to_string());
    assert_eq!(a, b);
}

#[test]
fn tokenize_unicode_alphanumerics_continue_identifiers() {
    // identifier runs open with ASCII letters or `_` but continue through
    // any Unicode alphanumeric character
    let toks = tokenize("aé1 ~x\n".to_string());
    assert_eq!(toks, vec![ident("aé1"), ident("x"), Token::Newline]);
}
