use command_lexer::{lex, Comparison, Procedure, Token};

fn text(s: &str) -> Token {
    Token::Str(s.to_string())
}

fn var(s: &str) -> Token {
    Token::Var(s.to_string())
}

#[test]
fn it_works() {
    assert_eq!(lex(""), vec![]);
    assert_eq!(lex("x"), vec![text("x")]);
}

#[test]
fn assignment_of_a_constant() {
    assert_eq!(
        lex("@x = const 5"),
        vec![
            var("x"),
            Token::Proc(Procedure::Assign),
            Token::Proc(Procedure::Const),
            text("5"),
        ]
    );
}

#[test]
fn comparison_between_free_text() {
    assert_eq!(
        lex("a gte b"),
        vec![text("a"), Token::Cmp(Comparison::Gte), text("b")]
    );
}

#[test]
fn punctuation_splits_free_text() {
    assert_eq!(
        lex("(a,b)"),
        vec![
            Token::Lparen,
            text("a"),
            Token::Comma,
            text("b"),
            Token::Rparen,
        ]
    );
}

#[test]
fn bell_character_is_one_error() {
    assert_eq!(
        lex("a \u{7} b"),
        vec![text("a"), Token::Error, text("b")]
    );
    assert_eq!(lex("a\u{7}b"), vec![text("a"), Token::Error, text("b")]);
}
