use command_lexer::{lex, lex_comp, lex_proc, Comparison, Procedure, Token};

fn operators() -> Vec<(&'static str, Procedure)> {
    vec![
        ("const", Procedure::Const),
        ("=", Procedure::Assign),
        ("+", Procedure::Add),
        ("-", Procedure::Sub),
        ("*", Procedure::Mul),
        ("/", Procedure::Div),
        ("%", Procedure::Mod),
    ]
}

fn comparisons() -> Vec<(&'static str, Comparison)> {
    vec![
        ("and", Comparison::And),
        ("or", Comparison::Or),
        ("xor", Comparison::Xor),
        ("not", Comparison::Not),
        ("eq", Comparison::Equal),
        ("neq", Comparison::NotEqual),
        ("gt", Comparison::Gt),
        ("gte", Comparison::Gte),
        ("lt", Comparison::Lt),
        ("lte", Comparison::Lte),
    ]
}

#[test]
fn every_operator_alone_is_its_own_token() {
    for (word, kind) in operators() {
        assert_eq!(lex(word), vec![Token::Proc(kind)]);
    }
}

#[test]
fn every_comparison_alone_is_its_own_token() {
    for (word, kind) in comparisons() {
        assert_eq!(lex(word), vec![Token::Cmp(kind)]);
    }
}

#[test]
fn lex_proc_maps_each_spelling() {
    for (word, kind) in operators() {
        assert_eq!(lex_proc(word), Some(kind));
    }
    for (word, _) in comparisons() {
        assert_eq!(lex_proc(word), None);
    }
    assert_eq!(lex_proc(""), None);
    assert_eq!(lex_proc("Const"), None);
    assert_eq!(lex_proc("const "), None);
    assert_eq!(lex_proc("cons"), None);
    assert_eq!(lex_proc("=="), None);
}

#[test]
fn lex_comp_maps_each_spelling() {
    for (word, kind) in comparisons() {
        assert_eq!(lex_comp(word), Some(kind));
    }
    for (word, _) in operators() {
        assert_eq!(lex_comp(word), None);
    }
    assert_eq!(lex_comp(""), None);
    assert_eq!(lex_comp("AND"), None);
    assert_eq!(lex_comp("gtee"), None);
    assert_eq!(lex_comp("g"), None);
}

#[test]
fn xor_is_not_or() {
    assert_eq!(lex("xor"), vec![Token::Cmp(Comparison::Xor)]);
    assert_eq!(lex("or"), vec![Token::Cmp(Comparison::Or)]);
    assert_ne!(lex_comp("xor"), lex_comp("or"));
}

#[test]
fn keywords_are_case_sensitive() {
    assert_eq!(lex("CONST"), vec![Token::Str("CONST".to_string())]);
    assert_eq!(lex("And"), vec![Token::Str("And".to_string())]);
}

#[test]
fn keyword_inside_a_longer_word_is_free_text() {
    assert_eq!(lex("const5"), vec![Token::Str("const5".to_string())]);
    assert_eq!(lex("gtex"), vec![Token::Str("gtex".to_string())]);
    assert_eq!(lex("order"), vec![Token::Str("order".to_string())]);
    assert_eq!(lex("a+b"), vec![Token::Str("a+b".to_string())]);
    assert_eq!(lex("-5"), vec![Token::Str("-5".to_string())]);
}

#[test]
fn keyword_wins_a_tie_with_free_text() {
    assert_eq!(
        lex("or="),
        vec![Token::Cmp(Comparison::Or), Token::Proc(Procedure::Assign)]
    );
    assert_eq!(
        lex("gte("),
        vec![Token::Cmp(Comparison::Gte), Token::Lparen]
    );
    assert_eq!(
        lex("gt@a"),
        vec![Token::Cmp(Comparison::Gt), Token::Var("a".to_string())]
    );
}

#[test]
fn longest_keyword_wins() {
    assert_eq!(lex("gte"), vec![Token::Cmp(Comparison::Gte)]);
    assert_eq!(lex("lte"), vec![Token::Cmp(Comparison::Lte)]);
    assert_eq!(lex("neq"), vec![Token::Cmp(Comparison::NotEqual)]);
    assert_eq!(lex("not"), vec![Token::Cmp(Comparison::Not)]);
}
