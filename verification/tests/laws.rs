use command_lexer::{lex, Comparison, Procedure, Token};

fn width(token: &Token) -> usize {
    match token {
        Token::Proc(Procedure::Const) => 5,
        Token::Proc(_) => 1,
        Token::Cmp(Comparison::Or)
        | Token::Cmp(Comparison::Equal)
        | Token::Cmp(Comparison::Gt)
        | Token::Cmp(Comparison::Lt) => 2,
        Token::Cmp(_) => 3,
        Token::Comment(text) => text.chars().count(),
        Token::Var(name) => name.chars().count() + 1,
        Token::Str(text) => text.chars().count(),
        _ => 1,
    }
}

fn is_blank(c: char) -> bool {
    c == ' ' || c == '\t' || c == '\n' || c == '\u{c}'
}

fn samples() -> Vec<&'static str> {
    vec![
        "",
        " ",
        "@x = const 5",
        "a gte b",
        "(a,b)",
        "a \u{7} b",
        "{@total = @a + @b, not (@a lte 10)}",
        "/* note */ // x",
        "@ @@ @a@b #!? é",
        "\t\n\u{c} x \t\n\u{c}",
        "\u{0}\u{ff}\u{10ffff}",
        "xor or neq eq gt gte lt lte and not",
    ]
}

#[test]
fn blank_runs_between_tokens_do_not_matter() {
    assert_eq!(lex("@x = const 5"), lex("@x\t=\n\nconst \u{c} 5"));
    assert_eq!(lex("a gte b"), lex("   a  gte\tb\n"));
    assert_eq!(lex("a b"), lex("a  b"));
    assert_eq!(lex("a b"), lex("a\tb"));
}

#[test]
fn blanks_may_be_put_in_between_any_two_tokens() {
    assert_eq!(lex("(a,b)"), lex(" ( a , b ) "));
    assert_eq!(lex("@x=@y"), lex("@x = @y"));
    assert_eq!(lex("@x5"), lex("@x 5"));
    assert_eq!(lex("a#b"), lex("a # b"));
}

#[test]
fn a_blank_run_splits_a_text() {
    for a in samples() {
        for b in samples() {
            let mut expected = lex(a);
            expected.extend(lex(b));
            assert_eq!(lex(&format!("{} \t{}", a, b)), expected);
        }
    }
}

#[test]
fn punctuation_splits_a_text() {
    for a in samples() {
        for b in samples() {
            let mut expected = lex(a);
            expected.push(Token::Comma);
            expected.extend(lex(b));
            assert_eq!(lex(&format!("{},{}", a, b)), expected);
        }
    }
}

#[test]
fn an_unsupported_character_splits_a_text() {
    for a in samples() {
        for b in samples() {
            let mut expected = lex(a);
            expected.push(Token::Error);
            expected.extend(lex(b));
            assert_eq!(lex(&format!("{}\u{7}{}", a, b)), expected);
        }
    }
}

#[test]
fn never_more_tokens_than_characters() {
    for s in samples() {
        assert!(lex(s).len() <= s.chars().count());
    }
}

#[test]
fn every_character_is_consumed_once() {
    for s in samples() {
        let tokens = lex(s);
        let consumed: usize = tokens.iter().map(width).sum();
        let blanks = s.chars().filter(|c| is_blank(*c)).count();
        assert_eq!(consumed + blanks, s.chars().count());
    }
}

#[test]
fn exact_widths() {
    let tokens = lex("@ab = const 12");
    let consumed: usize = tokens.iter().map(width).sum();
    assert_eq!(consumed, 11);
    assert_eq!(tokens.len(), 4);
}

#[test]
fn every_text_has_tokens() {
    let mut garbage = String::new();
    for code in 0u32..600 {
        if let Some(c) = char::from_u32(code) {
            garbage.push(c);
        }
    }
    let tokens = lex(&garbage);
    assert!(tokens.len() <= garbage.chars().count());
    assert!(lex(&garbage.repeat(20)).len() <= 20 * garbage.chars().count());
}

#[test]
fn long_free_text_is_one_token() {
    let word = "ab".repeat(20000);
    assert_eq!(lex(&word), vec![Token::Str(word.clone())]);
}
