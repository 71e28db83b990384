//! The tokens that the tokenizer emits, and their mathematical views.
use vstd::prelude::*;

verus! {

/// An arithmetic or assignment operator.
#[derive(Debug, Clone, Copy, PartialEq, Eq, Structural)]
pub enum Procedure {
    Const,
    Assign,
    Add,
    Sub,
    Mul,
    Div,
    Mod,
}

/// A logical or relational operator.
#[derive(Debug, Clone, Copy, PartialEq, Eq, Structural)]
pub enum Comparison {
    And,
    Or,
    Xor,
    Not,
    Equal,
    NotEqual,
    Gt,
    Gte,
    Lt,
    Lte,
}

/// One token of the command language.
///
/// `Var` holds the variable's name without the leading `@`. `Comment` holds the comment
/// mark as written, `Str` the free text as written. `Error` stands for one character that
/// begins no token.
#[derive(Debug, Clone, PartialEq, Eq)]
pub enum Token {
    Lparen,
    Rparen,
    Lbrace,
    Rbrace,
    Comma,
    Proc(Procedure),
    Cmp(Comparison),
    Comment(String),
    Var(String),
    Str(String),
    Error,
}

/// The tokens of one source text, in source order.
pub type Tokens = Vec<Token>;

/// What a [`Token`] is in contracts: the same variants, with sequences of characters in
/// place of strings.
pub enum TokenView {
    Lparen,
    Rparen,
    Lbrace,
    Rbrace,
    Comma,
    Proc(Procedure),
    Cmp(Comparison),
    Comment(Seq<char>),
    Var(Seq<char>),
    Str(Seq<char>),
    Error,
}

impl View for Token {
    type V = TokenView;

    open spec fn view(&self) -> TokenView {
        match self {
            Token::Lparen => TokenView::Lparen,
            Token::Rparen => TokenView::Rparen,
            Token::Lbrace => TokenView::Lbrace,
            Token::Rbrace => TokenView::Rbrace,
            Token::Comma => TokenView::Comma,
            Token::Proc(p) => TokenView::Proc(*p),
            Token::Cmp(c) => TokenView::Cmp(*c),
            Token::Comment(text) => TokenView::Comment(text@),
            Token::Var(name) => TokenView::Var(name@),
            Token::Str(text) => TokenView::Str(text@),
            Token::Error => TokenView::Error,
        }
    }
}

/// The views of a sequence of tokens, one for one.
pub open spec fn token_views(tokens: Seq<Token>) -> Seq<TokenView> {
    tokens.map_values(|t: Token| t@)
}

} // verus!
