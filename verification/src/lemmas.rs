//! Facts about the grammar that the tokenizer's proofs and the laws rest on.
use crate::grammar::{
    accepts, head_len, head_tokens, is_blank, is_comment_mark, is_lexeme, is_text_char,
    lemma_longest_lexeme_bounds, lexeme_len, Class,
};
use vstd::prelude::*;

verus! {

/// The keywords, symbols and comment marks, character by character.
pub proof fn lemma_spellings()
    ensures
        "const"@ =~= seq!['c', 'o', 'n', 's', 't'],
        "="@ =~= seq!['='],
        "+"@ =~= seq!['+'],
        "-"@ =~= seq!['-'],
        "*"@ =~= seq!['*'],
        "/"@ =~= seq!['/'],
        "%"@ =~= seq!['%'],
        "and"@ =~= seq!['a', 'n', 'd'],
        "or"@ =~= seq!['o', 'r'],
        "xor"@ =~= seq!['x', 'o', 'r'],
        "not"@ =~= seq!['n', 'o', 't'],
        "eq"@ =~= seq!['e', 'q'],
        "neq"@ =~= seq!['n', 'e', 'q'],
        "gt"@ =~= seq!['g', 't'],
        "gte"@ =~= seq!['g', 't', 'e'],
        "lt"@ =~= seq!['l', 't'],
        "lte"@ =~= seq!['l', 't', 'e'],
        "//"@ =~= seq!['/', '/'],
        "/*"@ =~= seq!['/', '*'],
        "*/"@ =~= seq!['*', '/'],
{
    reveal_strlit("const");
    reveal_strlit("=");
    reveal_strlit("+");
    reveal_strlit("-");
    reveal_strlit("*");
    reveal_strlit("/");
    reveal_strlit("%");
    reveal_strlit("and");
    reveal_strlit("or");
    reveal_strlit("xor");
    reveal_strlit("not");
    reveal_strlit("eq");
    reveal_strlit("neq");
    reveal_strlit("gt");
    reveal_strlit("gte");
    reveal_strlit("lt");
    reveal_strlit("lte");
    reveal_strlit("//");
    reveal_strlit("/*");
    reveal_strlit("*/");
}

/// A keyword or symbol has between one and five characters.
pub proof fn lemma_keyword_len(w: Seq<char>)
    requires
        accepts(Class::Keyword, w),
    ensures
        1 <= w.len() <= 5,
{
    lemma_spellings();
}

/// A comment mark has two characters.
pub proof fn lemma_comment_len(w: Seq<char>)
    requires
        is_comment_mark(w),
    ensures
        w.len() == 2,
{
    lemma_spellings();
}

/// The longest lexeme at the head of `s` has `k` characters if the prefix of `k` characters
/// is a lexeme (or `k` is 0) and no longer prefix is one.
pub proof fn lemma_lexeme_len_is(s: Seq<char>, k: nat)
    requires
        k <= s.len(),
        k > 0 ==> is_lexeme(s.take(k as int)),
        forall|m: int| k < m <= s.len() ==> !is_lexeme(#[trigger] s.take(m)),
    ensures
        lexeme_len(s) == k,
{
    lemma_longest_lexeme_bounds(s, s.len());
    let found = lexeme_len(s);
    if found < k {
        assert(!is_lexeme(s.take(k as int)));
    } else if found > k {
        assert(!is_lexeme(s.take(found as int)));
    }
}

/// A lexeme is not empty and holds no blank.
pub proof fn lemma_lexeme_chars(w: Seq<char>)
    requires
        is_lexeme(w),
    ensures
        w.len() >= 1,
        forall|i: int| 0 <= i < w.len() ==> !is_blank(#[trigger] w[i]),
{
    lemma_spellings();
}

/// A lexeme that holds a character which is neither free text nor `@` is that character
/// alone.
pub proof fn lemma_lexeme_with_lone_char(w: Seq<char>, i: int)
    requires
        is_lexeme(w),
        0 <= i < w.len(),
        !is_text_char(w[i]),
        w[i] != '@',
    ensures
        w.len() == 1,
{
    lemma_spellings();
}

/// At the head of a text that is not empty the tokenizer consumes at least one character
/// and no more than there are.
pub proof fn lemma_head_len_bounds(s: Seq<char>)
    requires
        s.len() > 0,
    ensures
        1 <= head_len(s) <= s.len(),
{
    lemma_longest_lexeme_bounds(s, s.len());
}

/// What the tokenizer does at the head of a text depends only on the characters up to the
/// end of what it consumes there: a prefix that holds them has the same head.
pub proof fn lemma_head_of_prefix(s: Seq<char>, p: nat)
    requires
        0 < p <= s.len(),
        head_len(s) <= p,
    ensures
        head_len(s.take(p as int)) == head_len(s),
        head_tokens(s.take(p as int)) == head_tokens(s),
{
    let t = s.take(p as int);
    assert(t[0] == s[0]);
    if !is_blank(s[0]) {
        lemma_longest_lexeme_bounds(s, s.len());
        let k = lexeme_len(s);
        assert forall|m: int| k < m <= t.len() implies !is_lexeme(#[trigger] t.take(m)) by {
            assert(t.take(m) =~= s.take(m));
        }
        assert(t.take(k as int) =~= s.take(k as int));
        lemma_lexeme_len_is(t, k);
    }
}

} // verus!
