use command_lexer::{lex, Comparison, Procedure, Token};

fn text(s: &str) -> Token {
    Token::Str(s.to_string())
}

fn var(s: &str) -> Token {
    Token::Var(s.to_string())
}

fn comment(s: &str) -> Token {
    Token::Comment(s.to_string())
}

#[test]
fn empty_text_has_no_tokens() {
    assert_eq!(lex(""), vec![]);
}

#[test]
fn blanks_alone_have_no_tokens() {
    assert_eq!(lex(" \t\n\u{c}  "), vec![]);
}

#[test]
fn each_punctuation_character_is_a_token() {
    assert_eq!(
        lex("(){},"),
        vec![
            Token::Lparen,
            Token::Rparen,
            Token::Lbrace,
            Token::Rbrace,
            Token::Comma,
        ]
    );
}

#[test]
fn comment_marks() {
    assert_eq!(lex("//"), vec![comment("//")]);
    assert_eq!(lex("/*"), vec![comment("/*")]);
    assert_eq!(lex("*/"), vec![comment("*/")]);
    assert_eq!(
        lex("/* note */"),
        vec![comment("/*"), text("note"), comment("*/")]
    );
}

#[test]
fn comment_mark_inside_a_longer_word_is_free_text() {
    assert_eq!(lex("//x"), vec![text("//x")]);
    assert_eq!(lex("http://host/path"), vec![text("http://host/path")]);
}

#[test]
fn variable_holds_the_name_without_the_sigil() {
    assert_eq!(lex("@x"), vec![var("x")]);
    assert_eq!(lex("@Some_Name"), vec![var("Some_Name")]);
    assert_eq!(lex("@_"), vec![var("_")]);
}

#[test]
fn variable_name_ends_at_the_first_other_character() {
    assert_eq!(lex("@x5"), vec![var("x"), text("5")]);
    assert_eq!(lex("@x+y"), vec![var("x"), text("+y")]);
    assert_eq!(
        lex("@a=@b"),
        vec![var("a"), Token::Proc(Procedure::Assign), var("b")]
    );
    assert_eq!(lex("@a@b"), vec![var("a"), var("b")]);
}

#[test]
fn sigil_without_a_name_is_an_error() {
    assert_eq!(lex("@"), vec![Token::Error]);
    assert_eq!(lex("@5"), vec![Token::Error, text("5")]);
    assert_eq!(lex("@ x"), vec![Token::Error, text("x")]);
    assert_eq!(lex("@@x"), vec![Token::Error, var("x")]);
}

#[test]
fn free_text_takes_every_allowed_character() {
    let word = "azAZ09$%^*-_+[]\\./:'\";&";
    assert_eq!(lex(word), vec![text(word)]);
}

#[test]
fn semicolon_and_ampersand_may_begin_free_text() {
    assert_eq!(lex(";"), vec![text(";")]);
    assert_eq!(lex("&x"), vec![text("&x")]);
}

#[test]
fn free_text_ends_at_a_blank() {
    assert_eq!(lex("hello world"), vec![text("hello"), text("world")]);
    assert_eq!(lex("a b c"), vec![text("a"), text("b"), text("c")]);
}

#[test]
fn characters_outside_the_grammar_are_errors_one_by_one() {
    assert_eq!(lex("#"), vec![Token::Error]);
    assert_eq!(lex("!?"), vec![Token::Error, Token::Error]);
    assert_eq!(lex("\r"), vec![Token::Error]);
    assert_eq!(lex("a#b"), vec![text("a"), Token::Error, text("b")]);
    assert_eq!(lex("<>"), vec![Token::Error, Token::Error]);
}

#[test]
fn character_of_several_bytes_is_one_error() {
    assert_eq!(lex("é"), vec![Token::Error]);
    assert_eq!(lex("a→b"), vec![text("a"), Token::Error, text("b")]);
    assert_eq!(lex("日本"), vec![Token::Error, Token::Error]);
}

#[test]
fn control_characters_are_errors() {
    assert_eq!(
        lex("\u{0}\u{1}\u{7f}"),
        vec![Token::Error, Token::Error, Token::Error]
    );
}

#[test]
fn a_longer_command() {
    assert_eq!(
        lex("{@total = @a + @b, not (@a lte 10)}"),
        vec![
            Token::Lbrace,
            var("total"),
            Token::Proc(Procedure::Assign),
            var("a"),
            Token::Proc(Procedure::Add),
            var("b"),
            Token::Comma,
            Token::Cmp(Comparison::Not),
            Token::Lparen,
            var("a"),
            Token::Cmp(Comparison::Lte),
            text("10"),
            Token::Rparen,
            Token::Rbrace,
        ]
    );
}

#[test]
fn tokens_come_in_source_order() {
    assert_eq!(
        lex("c b a"),
        vec![text("c"), text("b"), text("a")]
    );
}
