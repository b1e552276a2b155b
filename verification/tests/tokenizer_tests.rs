use basic_like::token::TokenType;
use basic_like::tokenizer::Tokenizer;

#[test]
fn tokenize_comment() {
    let script = "' this is a comment";
    let mut tokenizer = Tokenizer::new();
    let tokens = tokenizer.tokenize(script);
    assert!(tokens.is_empty());
}

#[test]
fn tokenize_digit() {
    let script = "12345";
    let mut tokenizer = Tokenizer::new();
    let tokens = tokenizer.tokenize(script);
    assert_eq!(tokens.len(), 1);
    assert!(matches!(tokens[0].t_type, TokenType::Number));
    assert_eq!(tokens[0].text, "12345");
}

#[test]
fn tokenize_word() {
    let script = "abc";
    let mut tokenizer = Tokenizer::new();
    let tokens = tokenizer.tokenize(script);
    assert_eq!(tokens.len(), 1);
    assert!(matches!(tokens[0].t_type, TokenType::Word));
    assert_eq!(tokens[0].text, "abc");
}

#[test]
fn tokenize_label() {
    let script = "abc:";
    let mut tokenizer = Tokenizer::new();
    let tokens = tokenizer.tokenize(script);
    assert_eq!(tokens.len(), 1);
    assert!(matches!(tokens[0].t_type, TokenType::Label));
    assert_eq!(tokens[0].text, "abc");
}

#[test]
fn tokenize_word_with_digits() {
    let script = "abc123";
    let mut tokenizer = Tokenizer::new();
    let tokens = tokenizer.tokenize(script);
    assert_eq!(tokens.len(), 1);
    assert!(matches!(tokens[0].t_type, TokenType::Word));
    assert_eq!(tokens[0].text, "abc123");
}

#[test]
fn tokenize_string() {
    let script = "\"string string string\"";
    let mut tokenizer = Tokenizer::new();
    let tokens = tokenizer.tokenize(script);
    assert_eq!(tokens.len(), 1);
    assert!(matches!(tokens[0].t_type, TokenType::String));
    assert_eq!(tokens[0].text, "string string string");
}

#[test]
fn tokenize_char_operators() {
    let mut tokenizer = Tokenizer::new();
    for ch in "+-*/<>".chars() {
        let script = ch.to_string();
        let tokens = tokenizer.tokenize(&script);
        assert_eq!(tokens.len(), 1);
        assert!(matches!(tokens[0].t_type, TokenType::Operator));
    }
}

#[test]
fn tokenize_expression() {
    let script = "2+2=4";
    let mut tokenizer = Tokenizer::new();
    let tokens = tokenizer.tokenize(script);
    assert_eq!(tokens.len(), 5);
    assert!(matches!(tokens[0].t_type, TokenType::Number));
    assert!(matches!(tokens[1].t_type, TokenType::Operator));
    assert!(matches!(tokens[2].t_type, TokenType::Number));
    assert!(matches!(tokens[3].t_type, TokenType::Equals));
    assert!(matches!(tokens[4].t_type, TokenType::Number));
}

#[test]
fn tokenize_twice_same_stream() {
    let script = "print x + 1";
    let mut tokenizer = Tokenizer::new();
    let first = tokenizer.tokenize(script);
    tokenizer.tokenize("\"unfinished string leaves state behind");
    let second = tokenizer.tokenize(script);
    assert_eq!(first.len(), second.len());
    for i in 0..first.len() {
        assert_eq!(first[i].text, second[i].text);
        assert_eq!(first[i].t_type, second[i].t_type);
    }
}

#[test]
fn tokenize_number_round_trip() {
    let n: i64 = 16777215;
    let script = n.to_string();
    let mut tokenizer = Tokenizer::new();
    let tokens = tokenizer.tokenize(&script);
    assert_eq!(tokens.len(), 1);
    assert!(matches!(tokens[0].t_type, TokenType::Number));
    assert_eq!(tokens[0].text.parse::<i64>().unwrap(), n);
}

#[test]
fn tokenize_comment_line_is_dropped() {
    let mut tokenizer = Tokenizer::new();
    let with_comment = tokenizer.tokenize("' ignored\nprint 1");
    let without = tokenizer.tokenize("print 1");
    assert_eq!(with_comment.len(), without.len());
    for i in 0..without.len() {
        assert_eq!(with_comment[i].text, without[i].text);
        assert_eq!(with_comment[i].t_type, without[i].t_type);
    }
}

#[test]
fn tokenize_unterminated_string_is_flushed() {
    let mut tokenizer = Tokenizer::new();
    let tokens = tokenizer.tokenize("\"half done");
    assert_eq!(tokens.len(), 1);
    assert!(matches!(tokens[0].t_type, TokenType::String));
    assert_eq!(tokens[0].text, "half done");
}

#[test]
fn tokenize_label_mid_line() {
    let mut tokenizer = Tokenizer::new();
    let tokens = tokenizer.tokenize("top:\ngoto top");
    assert_eq!(tokens.len(), 4);
    assert!(matches!(tokens[0].t_type, TokenType::Label));
    assert_eq!(tokens[0].text, "top");
    assert!(matches!(tokens[1].t_type, TokenType::Line));
    assert!(matches!(tokens[2].t_type, TokenType::Word));
    assert!(matches!(tokens[3].t_type, TokenType::Word));
}
