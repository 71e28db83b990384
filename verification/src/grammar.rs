//! The grammar of the command language, as a mathematical model.
//!
//! A source text is a sequence of characters. A *lexeme* is a word that one of five lexical
//! classes accepts. The tokenizer reads a text from left to right: it drops blanks, takes at
//! each other place the longest prefix that is a lexeme, and where no prefix is a lexeme it
//! reports one character as an error. A word that several classes accept belongs to the
//! first of them in the order of [`Class`].
//!
//! No lexeme holds a blank: free text ends at the first blank, so blanks always separate
//! tokens and never belong to one.
use crate::token::{Comparison, Procedure, TokenView};
use vstd::prelude::*;

verus! {

/// A blank: space, tab, newline or form feed. Blanks separate tokens and yield none.
pub open spec fn is_blank(c: char) -> bool {
    c == ' ' || c == '\t' || c == '\n' || c == '\x0c'
}

/// A punctuation character: each is a token by itself.
pub open spec fn is_punct(c: char) -> bool {
    c == '(' || c == ')' || c == '{' || c == '}' || c == ','
}

/// An ASCII letter.
pub open spec fn is_letter(c: char) -> bool {
    ('a' <= c && c <= 'z') || ('A' <= c && c <= 'Z')
}

/// An ASCII digit.
pub open spec fn is_digit(c: char) -> bool {
    '0' <= c && c <= '9'
}

/// A character of a variable's name: a letter or an underscore.
pub open spec fn is_name_char(c: char) -> bool {
    is_letter(c) || c == '_'
}

/// A character of free text: a letter, a digit, or one of
/// `$ % ^ * - _ + [ ] \ . / : ' " ; &`.
pub open spec fn is_text_char(c: char) -> bool {
    is_letter(c) || is_digit(c) || c == '$' || c == '%' || c == '^' || c == '*' || c == '-'
        || c == '_' || c == '+' || c == '[' || c == ']' || c == '\\' || c == '.' || c == '/'
        || c == ':' || c == '\'' || c == '"' || c == ';' || c == '&'
}

/// The lexical classes, from the highest priority to the lowest.
#[derive(Debug, Clone, Copy, PartialEq, Eq, Structural)]
pub enum Class {
    /// One punctuation character.
    Punct,
    /// An operator or comparison keyword or symbol.
    Keyword,
    /// A comment mark: `//`, `/*` or `*/`.
    Comment,
    /// `@` and a name of one or more letters and underscores.
    Variable,
    /// One or more characters of free text.
    Text,
}

/// The token of a punctuation character.
pub open spec fn punct_token(c: char) -> TokenView {
    if c == '(' {
        TokenView::Lparen
    } else if c == ')' {
        TokenView::Rparen
    } else if c == '{' {
        TokenView::Lbrace
    } else if c == '}' {
        TokenView::Rbrace
    } else {
        TokenView::Comma
    }
}

/// How each operator is written.
pub open spec fn proc_text(p: Procedure) -> Seq<char> {
    match p {
        Procedure::Const => "const"@,
        Procedure::Assign => "="@,
        Procedure::Add => "+"@,
        Procedure::Sub => "-"@,
        Procedure::Mul => "*"@,
        Procedure::Div => "/"@,
        Procedure::Mod => "%"@,
    }
}

/// How each comparison is written. `xor` is a comparison of its own, distinct from `or`.
pub open spec fn comp_text(c: Comparison) -> Seq<char> {
    match c {
        Comparison::And => "and"@,
        Comparison::Or => "or"@,
        Comparison::Xor => "xor"@,
        Comparison::Not => "not"@,
        Comparison::Equal => "eq"@,
        Comparison::NotEqual => "neq"@,
        Comparison::Gt => "gt"@,
        Comparison::Gte => "gte"@,
        Comparison::Lt => "lt"@,
        Comparison::Lte => "lte"@,
    }
}

/// The operator that the word `w` spells, if it spells one. Case matters.
pub open spec fn proc_of(w: Seq<char>) -> Option<Procedure> {
    if w == "const"@ {
        Some(Procedure::Const)
    } else if w == "="@ {
        Some(Procedure::Assign)
    } else if w == "+"@ {
        Some(Procedure::Add)
    } else if w == "-"@ {
        Some(Procedure::Sub)
    } else if w == "*"@ {
        Some(Procedure::Mul)
    } else if w == "/"@ {
        Some(Procedure::Div)
    } else if w == "%"@ {
        Some(Procedure::Mod)
    } else {
        None
    }
}

/// The comparison that the word `w` spells, if it spells one. Case matters.
pub open spec fn comp_of(w: Seq<char>) -> Option<Comparison> {
    if w == "and"@ {
        Some(Comparison::And)
    } else if w == "or"@ {
        Some(Comparison::Or)
    } else if w == "xor"@ {
        Some(Comparison::Xor)
    } else if w == "not"@ {
        Some(Comparison::Not)
    } else if w == "eq"@ {
        Some(Comparison::Equal)
    } else if w == "neq"@ {
        Some(Comparison::NotEqual)
    } else if w == "gt"@ {
        Some(Comparison::Gt)
    } else if w == "gte"@ {
        Some(Comparison::Gte)
    } else if w == "lt"@ {
        Some(Comparison::Lt)
    } else if w == "lte"@ {
        Some(Comparison::Lte)
    } else {
        None
    }
}

/// Whether `w` is one of the comment marks `//`, `/*` and `*/`.
pub open spec fn is_comment_mark(w: Seq<char>) -> bool {
    w == "//"@ || w == "/*"@ || w == "*/"@
}

/// Whether `w` is a variable: `@`, then one or more letters and underscores.
pub open spec fn is_variable(w: Seq<char>) -> bool {
    &&& w.len() >= 2
    &&& w[0] == '@'
    &&& forall|i: int| 1 <= i < w.len() ==> is_name_char(#[trigger] w[i])
}

/// Whether `w` is free text: one or more characters of free text.
pub open spec fn is_text(w: Seq<char>) -> bool {
    &&& w.len() >= 1
    &&& forall|i: int| 0 <= i < w.len() ==> is_text_char(#[trigger] w[i])
}

/// Whether the class accepts the whole word `w`.
pub open spec fn accepts(class: Class, w: Seq<char>) -> bool {
    match class {
        Class::Punct => w.len() == 1 && is_punct(w[0]),
        Class::Keyword => proc_of(w) is Some || comp_of(w) is Some,
        Class::Comment => is_comment_mark(w),
        Class::Variable => is_variable(w),
        Class::Text => is_text(w),
    }
}

/// Whether `w` is a lexeme: a word that some class accepts.
pub open spec fn is_lexeme(w: Seq<char>) -> bool {
    accepts(Class::Punct, w) || accepts(Class::Keyword, w) || accepts(Class::Comment, w)
        || accepts(Class::Variable, w) || accepts(Class::Text, w)
}

/// The class of a lexeme: the first class, in the order of priority, that accepts it.
pub open spec fn class_of(w: Seq<char>) -> Class {
    if accepts(Class::Punct, w) {
        Class::Punct
    } else if accepts(Class::Keyword, w) {
        Class::Keyword
    } else if accepts(Class::Comment, w) {
        Class::Comment
    } else if accepts(Class::Variable, w) {
        Class::Variable
    } else {
        Class::Text
    }
}

/// The token that a class makes of a word it accepts. A variable's token holds the name
/// without the `@`; comment marks and free text are held as written.
pub open spec fn token_of(class: Class, w: Seq<char>) -> TokenView {
    match class {
        Class::Punct => punct_token(w[0]),
        Class::Keyword => match proc_of(w) {
            Some(p) => TokenView::Proc(p),
            None => TokenView::Cmp(comp_of(w).unwrap()),
        },
        Class::Comment => TokenView::Comment(w),
        Class::Variable => TokenView::Var(w.skip(1)),
        Class::Text => TokenView::Str(w),
    }
}

/// The token of the word `w` taken as a whole, if `w` is a lexeme.
pub open spec fn classify(w: Seq<char>) -> Option<TokenView> {
    if is_lexeme(w) {
        Some(token_of(class_of(w), w))
    } else {
        None
    }
}

/// Whether `n` is the length of the longest prefix of `s` that the class accepts, with 0
/// for no such prefix.
pub open spec fn is_longest_match(class: Class, s: Seq<char>, n: nat) -> bool {
    &&& n <= s.len()
    &&& n > 0 ==> accepts(class, s.take(n as int))
    &&& forall|m: int| n < m <= s.len() ==> !accepts(class, #[trigger] s.take(m))
}

/// The length of the longest prefix of `s`, of at most `n` characters, that is a lexeme;
/// 0 where there is none.
pub open spec fn longest_lexeme(s: Seq<char>, n: nat) -> nat
    decreases n,
{
    if n == 0 {
        0
    } else if n <= s.len() && is_lexeme(s.take(n as int)) {
        n
    } else {
        longest_lexeme(s, (n - 1) as nat)
    }
}

/// The length of the longest prefix of `s` that is a lexeme; 0 where no prefix is one.
pub open spec fn lexeme_len(s: Seq<char>) -> nat {
    longest_lexeme(s, s.len())
}

/// How many characters the tokenizer consumes at the head of a text that is not empty: a
/// blank, the longest lexeme, or one character that begins no lexeme.
pub open spec fn head_len(s: Seq<char>) -> nat {
    if is_blank(s[0]) || lexeme_len(s) == 0 {
        1
    } else {
        lexeme_len(s)
    }
}

/// What the tokenizer emits for the head of a text that is not empty: nothing for a blank,
/// the token of the longest lexeme, or an error.
pub open spec fn head_tokens(s: Seq<char>) -> Seq<TokenView> {
    if is_blank(s[0]) {
        Seq::empty()
    } else if lexeme_len(s) == 0 {
        seq![TokenView::Error]
    } else {
        seq![token_of(class_of(s.take(lexeme_len(s) as int)), s.take(lexeme_len(s) as int))]
    }
}

/// The tokens of the text `s`, in source order.
pub open spec fn lex_view(s: Seq<char>) -> Seq<TokenView>
    decreases s.len(),
    via lex_view_decreases
{
    if s.len() == 0 {
        Seq::empty()
    } else {
        head_tokens(s) + lex_view(s.skip(head_len(s) as int))
    }
}

#[via_fn]
proof fn lex_view_decreases(s: Seq<char>) {
    lemma_longest_lexeme_bounds(s, s.len());
}

/// `longest_lexeme(s, n)` is at most `n`, and is the longest lexeme among the prefixes of
/// at most `n` characters.
pub proof fn lemma_longest_lexeme_bounds(s: Seq<char>, n: nat)
    requires
        n <= s.len(),
    ensures
        longest_lexeme(s, n) <= n,
        longest_lexeme(s, n) > 0 ==> is_lexeme(s.take(longest_lexeme(s, n) as int)),
        forall|m: int| longest_lexeme(s, n) < m <= n ==> !is_lexeme(#[trigger] s.take(m)),
    decreases n,
{
    if n > 0 && !is_lexeme(s.take(n as int)) {
        lemma_longest_lexeme_bounds(s, (n - 1) as nat);
    }
}

} // verus!
