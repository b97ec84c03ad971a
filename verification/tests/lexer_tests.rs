use rush::command::RedirectOperator;
use rush::lexer::{Lexer, Token};

fn tokens_of(s: &str) -> Vec<Token> {
    let mut lexer = Lexer::new(s.to_string());
    lexer.tokens()
}

fn word(s: &str) -> Token {
    Token::Word(s.to_string())
}

#[test]
fn tokens_simple_words() {
    assert_eq!(tokens_of("echo hello"), vec![word("echo"), word("hello")]);
}

#[test]
fn tokens_whitespace_insignificant() {
    assert_eq!(tokens_of("  echo\t x \n"), vec![word("echo"), word("x")]);
    assert_eq!(tokens_of(""), vec![]);
    assert_eq!(tokens_of("   \t  "), vec![]);
}

#[test]
fn tokens_operators() {
    assert_eq!(
        tokens_of("a && b || c ; d & e | f"),
        vec![
            word("a"),
            Token::And,
            word("b"),
            Token::Or,
            word("c"),
            Token::Semicolon,
            word("d"),
            Token::Background,
            word("e"),
            Token::Pipe,
            word("f"),
        ]
    );
}

#[test]
fn tokens_redirect_operators() {
    assert_eq!(
        tokens_of("< << <& > >> >&"),
        vec![
            Token::RedirectOperator(RedirectOperator::Input),
            Token::RedirectOperator(RedirectOperator::HereDoc),
            Token::RedirectOperator(RedirectOperator::DuplicateIn),
            Token::RedirectOperator(RedirectOperator::Overwrite),
            Token::RedirectOperator(RedirectOperator::Append),
            Token::RedirectOperator(RedirectOperator::DuplicateOut),
        ]
    );
}

#[test]
fn tokens_parentheses() {
    assert_eq!(
        tokens_of("(a)"),
        vec![Token::LParen, word("a"), Token::RParen]
    );
}

#[test]
fn tokens_single_quotes_verbatim() {
    assert_eq!(
        tokens_of("'hello world'"),
        vec![Token::SingleQuoted("hello world".to_string())]
    );
    // No escaping inside single quotes: the backslash is kept.
    assert_eq!(
        tokens_of("'a\\b'"),
        vec![Token::SingleQuoted("a\\b".to_string())]
    );
}

#[test]
fn tokens_double_quote_escapes() {
    // Inside double quotes a backslash escapes the following character.
    assert_eq!(
        tokens_of("\"a\\\"b\""),
        vec![Token::DoubleQuoted("a\"b".to_string())]
    );
    assert_eq!(
        tokens_of("\"x y\""),
        vec![Token::DoubleQuoted("x y".to_string())]
    );
}

#[test]
fn tokens_unterminated_quote_consumes_rest() {
    assert_eq!(
        tokens_of("'abc"),
        vec![Token::SingleQuoted("abc".to_string())]
    );
    assert_eq!(
        tokens_of("\"abc"),
        vec![Token::DoubleQuoted("abc".to_string())]
    );
}

#[test]
fn tokens_word_stops_at_operator() {
    assert_eq!(
        tokens_of("ab>cd"),
        vec![
            word("ab"),
            Token::RedirectOperator(RedirectOperator::Overwrite),
            word("cd"),
        ]
    );
}

#[test]
fn next_token_yields_eof_at_end() {
    let mut lexer = Lexer::new("x".to_string());
    assert_eq!(lexer.next_token(), word("x"));
    assert_eq!(lexer.next_token(), Token::EOF);
    assert_eq!(lexer.next_token(), Token::EOF);
}
