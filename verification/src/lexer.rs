//! The tokenizer.
use crate::grammar::{
    accepts, class_of, comp_of, head_len, head_tokens, is_blank, is_longest_match, is_name_char,
    is_punct, is_text_char, lex_view, proc_of, token_of, Class,
};
use crate::lemmas::{lemma_comment_len, lemma_keyword_len, lemma_lexeme_len_is};
use crate::text::{collect_chars, same_text, text_of};
use crate::token::{token_views, Comparison, Procedure, Token, Tokens};
use vstd::prelude::*;

verus! {

/// The length of the longest keyword, `const`.
pub const MAX_KEYWORD_LEN: usize = 5;

/// The operator that `word` spells, if it spells one.
pub fn lex_proc(word: &str) -> (found: Option<Procedure>)
    ensures
        found == proc_of(word@),
{
    if same_text(word, "const") {
        Some(Procedure::Const)
    } else if same_text(word, "=") {
        Some(Procedure::Assign)
    } else if same_text(word, "+") {
        Some(Procedure::Add)
    } else if same_text(word, "-") {
        Some(Procedure::Sub)
    } else if same_text(word, "*") {
        Some(Procedure::Mul)
    } else if same_text(word, "/") {
        Some(Procedure::Div)
    } else if same_text(word, "%") {
        Some(Procedure::Mod)
    } else {
        None
    }
}

/// The comparison that `word` spells, if it spells one.
pub fn lex_comp(word: &str) -> (found: Option<Comparison>)
    ensures
        found == comp_of(word@),
{
    if same_text(word, "and") {
        Some(Comparison::And)
    } else if same_text(word, "or") {
        Some(Comparison::Or)
    } else if same_text(word, "xor") {
        Some(Comparison::Xor)
    } else if same_text(word, "not") {
        Some(Comparison::Not)
    } else if same_text(word, "eq") {
        Some(Comparison::Equal)
    } else if same_text(word, "neq") {
        Some(Comparison::NotEqual)
    } else if same_text(word, "gt") {
        Some(Comparison::Gt)
    } else if same_text(word, "gte") {
        Some(Comparison::Gte)
    } else if same_text(word, "lt") {
        Some(Comparison::Lt)
    } else if same_text(word, "lte") {
        Some(Comparison::Lte)
    } else {
        None
    }
}

fn char_is_blank(c: char) -> (r: bool)
    ensures
        r == is_blank(c),
{
    c == ' ' || c == '\t' || c == '\n' || c == '\x0c'
}

fn char_is_punct(c: char) -> (r: bool)
    ensures
        r == is_punct(c),
{
    c == '(' || c == ')' || c == '{' || c == '}' || c == ','
}

fn char_is_name(c: char) -> (r: bool)
    ensures
        r == is_name_char(c),
{
    ('a' <= c && c <= 'z') || ('A' <= c && c <= 'Z') || c == '_'
}

fn char_is_text(c: char) -> (r: bool)
    ensures
        r == is_text_char(c),
{
    ('a' <= c && c <= 'z') || ('A' <= c && c <= 'Z') || ('0' <= c && c <= '9') || c == '$'
        || c == '%' || c == '^' || c == '*' || c == '-' || c == '_' || c == '+' || c == '['
        || c == ']' || c == '\\' || c == '.' || c == '/' || c == ':' || c == '\'' || c == '"'
        || c == ';' || c == '&'
}

/// How many name characters stand at `from` and after it, up to the first other character.
fn name_run(chars: &[char], from: usize) -> (k: usize)
    requires
        from <= chars.len(),
    ensures
        from + k <= chars.len(),
        forall|i: int| from <= i < from + k ==> is_name_char(#[trigger] chars@[i]),
        from + k < chars.len() ==> !is_name_char(chars@[from + k]),
{
    let mut end: usize = from;
    while end < chars.len() && char_is_name(chars[end])
        invariant
            from <= end <= chars.len(),
            forall|i: int| from <= i < end ==> is_name_char(#[trigger] chars@[i]),
        decreases chars.len() - end,
    {
        end += 1;
    }
    end - from
}

/// How many characters of free text stand at `from` and after it, up to the first other
/// character.
fn text_run(chars: &[char], from: usize) -> (k: usize)
    requires
        from <= chars.len(),
    ensures
        from + k <= chars.len(),
        forall|i: int| from <= i < from + k ==> is_text_char(#[trigger] chars@[i]),
        from + k < chars.len() ==> !is_text_char(chars@[from + k]),
{
    let mut end: usize = from;
    while end < chars.len() && char_is_text(chars[end])
        invariant
            from <= end <= chars.len(),
            forall|i: int| from <= i < end ==> is_text_char(#[trigger] chars@[i]),
        decreases chars.len() - end,
    {
        end += 1;
    }
    end - from
}

/// The longest punctuation lexeme at `pos`: one character or none.
fn punct_len(chars: &[char], pos: usize) -> (n: usize)
    requires
        pos < chars.len(),
    ensures
        is_longest_match(Class::Punct, chars@.skip(pos as int), n as nat),
{
    if char_is_punct(chars[pos]) {
        1
    } else {
        0
    }
}

/// The longest keyword or symbol at `pos`.
fn keyword_len(chars: &[char], pos: usize) -> (n: usize)
    requires
        pos < chars.len(),
    ensures
        is_longest_match(Class::Keyword, chars@.skip(pos as int), n as nat),
{
    let ghost s = chars@.skip(pos as int);
    let rest: usize = chars.len() - pos;
    let mut n: usize = if rest < MAX_KEYWORD_LEN { rest } else { MAX_KEYWORD_LEN };
    proof {
        assert forall|m: int| n < m <= s.len() implies !accepts(
            Class::Keyword,
            #[trigger] s.take(m),
        ) by {
            if accepts(Class::Keyword, s.take(m)) {
                lemma_keyword_len(s.take(m));
            }
        }
    }
    while n > 0
        invariant
            pos < chars.len(),
            s == chars@.skip(pos as int),
            n <= s.len(),
            forall|m: int| n < m <= s.len() ==> !accepts(Class::Keyword, #[trigger] s.take(m)),
        decreases n,
    {
        let word = text_of(chars, pos, pos + n);
        assert(word@ =~= s.take(n as int));
        if lex_proc(word.as_str()).is_some() || lex_comp(word.as_str()).is_some() {
            return n;
        }
        n -= 1;
    }
    0
}

/// The longest comment mark at `pos`: two characters or none.
fn comment_len(chars: &[char], pos: usize) -> (n: usize)
    requires
        pos < chars.len(),
    ensures
        is_longest_match(Class::Comment, chars@.skip(pos as int), n as nat),
{
    let ghost s = chars@.skip(pos as int);
    proof {
        assert forall|m: int| 0 < m <= s.len() && m != 2 implies !accepts(
            Class::Comment,
            #[trigger] s.take(m),
        ) by {
            if accepts(Class::Comment, s.take(m)) {
                lemma_comment_len(s.take(m));
            }
        }
    }
    if chars.len() - pos < 2 {
        return 0;
    }
    let word = text_of(chars, pos, pos + 2);
    assert(word@ =~= s.take(2));
    if same_text(word.as_str(), "//") || same_text(word.as_str(), "/*") || same_text(
        word.as_str(),
        "*/",
    ) {
        2
    } else {
        0
    }
}

/// The longest variable at `pos`: `@` and the name characters that follow it, if there is
/// at least one.
fn variable_len(chars: &[char], pos: usize) -> (n: usize)
    requires
        pos < chars.len(),
    ensures
        is_longest_match(Class::Variable, chars@.skip(pos as int), n as nat),
{
    let ghost s = chars@.skip(pos as int);
    if chars[pos] != '@' {
        assert forall|m: int| 0 < m <= s.len() implies !accepts(
            Class::Variable,
            #[trigger] s.take(m),
        ) by {
            assert(s.take(m)[0] == chars@[pos as int]);
        }
        return 0;
    }
    let k = name_run(chars, pos + 1);
    if k == 0 {
        assert forall|m: int| 0 < m <= s.len() implies !accepts(
            Class::Variable,
            #[trigger] s.take(m),
        ) by {
            if m >= 2 {
                assert(s.take(m)[1] == chars@[pos + 1]);
            }
        }
        return 0;
    }
    proof {
        let w = s.take(1 + k);
        assert forall|i: int| 1 <= i < w.len() implies is_name_char(#[trigger] w[i]) by {
            assert(w[i] == chars@[pos + i]);
        }
        assert forall|m: int| 1 + k < m <= s.len() implies !accepts(
            Class::Variable,
            #[trigger] s.take(m),
        ) by {
            assert(s.take(m)[1 + k] == chars@[pos + 1 + k]);
        }
    }
    1 + k
}

/// The longest free text at `pos`.
fn text_len(chars: &[char], pos: usize) -> (n: usize)
    requires
        pos < chars.len(),
    ensures
        is_longest_match(Class::Text, chars@.skip(pos as int), n as nat),
{
    let ghost s = chars@.skip(pos as int);
    let k = text_run(chars, pos);
    proof {
        let w = s.take(k as int);
        assert forall|i: int| 0 <= i < w.len() implies is_text_char(#[trigger] w[i]) by {
            assert(w[i] == chars@[pos + i]);
        }
        assert forall|m: int| k < m <= s.len() implies !accepts(
            Class::Text,
            #[trigger] s.take(m),
        ) by {
            assert(s.take(m)[k as int] == chars@[pos + k]);
        }
    }
    k
}

/// The token that `class` makes of the `n` characters at `pos`.
fn make_token(class: Class, chars: &[char], pos: usize, n: usize) -> (token: Token)
    requires
        0 < n,
        pos + n <= chars.len(),
        accepts(class, chars@.subrange(pos as int, pos + n)),
    ensures
        token@ == token_of(class, chars@.subrange(pos as int, pos + n)),
{
    let ghost w = chars@.subrange(pos as int, pos + n);
    match class {
        Class::Punct => {
            let c = chars[pos];
            assert(c == w[0]);
            if c == '(' {
                Token::Lparen
            } else if c == ')' {
                Token::Rparen
            } else if c == '{' {
                Token::Lbrace
            } else if c == '}' {
                Token::Rbrace
            } else {
                Token::Comma
            }
        },
        Class::Keyword => {
            let word = text_of(chars, pos, pos + n);
            match lex_proc(word.as_str()) {
                Some(p) => Token::Proc(p),
                None => match lex_comp(word.as_str()) {
                    Some(c) => Token::Cmp(c),
                    None => unreached(),
                },
            }
        },
        Class::Comment => Token::Comment(text_of(chars, pos, pos + n)),
        Class::Variable => {
            assert(w.skip(1) =~= chars@.subrange(pos + 1, pos + n));
            Token::Var(text_of(chars, pos + 1, pos + n))
        },
        Class::Text => Token::Str(text_of(chars, pos, pos + n)),
    }
}

/// The token at `pos`, where no blank stands, and how many characters it takes.
///
/// Every class is tried. The longest match wins, and of two classes with matches of one
/// length the one of higher priority. Where no class matches, one character is an error.
fn next_token(chars: &[char], pos: usize) -> (next: (Token, usize))
    requires
        pos < chars.len(),
        !is_blank(chars@[pos as int]),
    ensures
        0 < next.1,
        pos + next.1 <= chars.len(),
        next.1 == head_len(chars@.skip(pos as int)),
        seq![next.0@] == head_tokens(chars@.skip(pos as int)),
{
    let ghost s = chars@.skip(pos as int);
    let punct = punct_len(chars, pos);
    let keyword = keyword_len(chars, pos);
    let comment = comment_len(chars, pos);
    let variable = variable_len(chars, pos);
    let text = text_len(chars, pos);
    let mut best: usize = punct;
    let mut class = Class::Punct;
    if keyword > best {
        best = keyword;
        class = Class::Keyword;
    }
    if comment > best {
        best = comment;
        class = Class::Comment;
    }
    if variable > best {
        best = variable;
        class = Class::Variable;
    }
    if text > best {
        best = text;
        class = Class::Text;
    }
    proof {
        assert(s[0] == chars@[pos as int]);
        lemma_lexeme_len_is(s, best as nat);
    }
    if best == 0 {
        (Token::Error, 1)
    } else {
        assert(s.take(best as int) =~= chars@.subrange(pos as int, pos + best));
        assert(class == class_of(s.take(best as int)));
        (make_token(class, chars, pos, best), best)
    }
}

/// Splits `source` into its tokens, in source order.
///
/// Blanks are dropped. At every other place the longest lexeme becomes a token, and a
/// character that begins no lexeme becomes `Token::Error`. Every text has tokens: nothing is
/// asked of `source`.
pub fn lex(source: &str) -> (tokens: Tokens)
    ensures
        token_views(tokens@) == lex_view(source@),
        tokens.len() <= source@.len(),
{
    let chars = collect_chars(source);
    let mut tokens: Tokens = Vec::new();
    let mut pos: usize = 0;
    assert(token_views(tokens@) + lex_view(chars@.skip(0)) =~= lex_view(chars@)) by {
        assert(chars@.skip(0) =~= chars@);
    }
    while pos < chars.len()
        invariant
            pos <= chars.len(),
            chars@ == source@,
            tokens.len() <= pos,
            token_views(tokens@) + lex_view(chars@.skip(pos as int)) == lex_view(chars@),
        decreases chars.len() - pos,
    {
        let ghost s = chars@.skip(pos as int);
        let ghost before = tokens@;
        assert(s[0] == chars@[pos as int]);
        if char_is_blank(chars[pos]) {
            assert(s.skip(1) =~= chars@.skip(pos + 1));
            assert(head_tokens(s) + lex_view(s.skip(1)) =~= lex_view(s.skip(1)));
            pos += 1;
        } else {
            let (token, n) = next_token(chars.as_slice(), pos);
            assert(s.skip(n as int) =~= chars@.skip(pos + n));
            tokens.push(token);
            assert(token_views(tokens@) =~= token_views(before) + seq![token@]);
            assert(token_views(tokens@) + lex_view(chars@.skip(pos + n)) =~= token_views(before)
                + (head_tokens(s) + lex_view(s.skip(n as int))));
            pos += n;
        }
    }
    assert(token_views(tokens@) + lex_view(chars@.skip(pos as int)) =~= token_views(tokens@));
    tokens
}

} // verus!
