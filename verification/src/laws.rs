//! Laws of the tokenizer: what holds of the tokens of every text.
use crate::grammar::{
    class_of, comp_text, head_len, head_tokens, is_blank, is_lexeme, is_punct, is_text_char,
    lemma_longest_lexeme_bounds, lex_view, lexeme_len, proc_text, punct_token, token_of,
};
use crate::lemmas::{
    lemma_head_len_bounds, lemma_head_of_prefix, lemma_lexeme_chars, lemma_lexeme_len_is,
    lemma_lexeme_with_lone_char, lemma_spellings,
};
use crate::token::{Comparison, Procedure, TokenView};
use vstd::prelude::*;

verus! {

/// Whether the tokenizer, reading `s` from its start, stops at `p`: no token of `s` and no
/// blank lies across `p`.
pub open spec fn is_boundary(s: Seq<char>, p: nat) -> bool
    decreases p,
{
    p == 0 || (s.len() > 0 && head_len(s) <= p && is_boundary(
        s.skip(head_len(s) as int),
        (p - head_len(s)) as nat,
    ))
}

/// Whether every character of `w` is a blank.
pub open spec fn all_blank(w: Seq<char>) -> bool {
    forall|i: int| 0 <= i < w.len() ==> is_blank(#[trigger] w[i])
}

/// Whether `c` stands in no lexeme but, at most, the one it makes alone: it is neither free
/// text nor `@`. The blanks, the punctuation, `=` and every character outside the grammar
/// are of this kind.
pub open spec fn stands_alone(c: char) -> bool {
    !is_text_char(c) && c != '@'
}

/// The number of blanks in `s`.
pub open spec fn blank_count(s: Seq<char>) -> nat
    decreases s.len(),
{
    if s.len() == 0 {
        0
    } else {
        blank_count(s.drop_last()) + if is_blank(s.last()) {
            1nat
        } else {
            0nat
        }
    }
}

/// The number of characters that a token was made of.
pub open spec fn width(t: TokenView) -> nat {
    match t {
        TokenView::Proc(p) => proc_text(p).len(),
        TokenView::Cmp(c) => comp_text(c).len(),
        TokenView::Comment(text) => text.len(),
        TokenView::Var(name) => name.len() + 1,
        TokenView::Str(text) => text.len(),
        _ => 1,
    }
}

/// The number of characters that the tokens of `ts` were made of, all together.
pub open spec fn total_width(ts: Seq<TokenView>) -> nat
    decreases ts.len(),
{
    if ts.len() == 0 {
        0
    } else {
        total_width(ts.drop_last()) + width(ts.last())
    }
}

/// A lexeme alone is one token: its own.
pub proof fn lemma_lexeme_alone(w: Seq<char>)
    requires
        is_lexeme(w),
    ensures
        lex_view(w) == seq![token_of(class_of(w), w)],
{
    lemma_lexeme_chars(w);
    assert(w.take(w.len() as int) =~= w);
    lemma_lexeme_len_is(w, w.len());
    assert(w.skip(w.len() as int) =~= Seq::<char>::empty());
    assert(lex_view(w) =~= head_tokens(w) + lex_view(w.skip(w.len() as int)));
}

/// Every operator, written alone, is the one token of that operator.
pub proof fn lemma_operator_alone(p: Procedure)
    ensures
        lex_view(proc_text(p)) == seq![TokenView::Proc(p)],
{
    lemma_spellings();
    lemma_lexeme_alone(proc_text(p));
}

/// Every comparison, written alone, is the one token of that comparison.
pub proof fn lemma_comparison_alone(c: Comparison)
    ensures
        lex_view(comp_text(c)) == seq![TokenView::Cmp(c)],
{
    lemma_spellings();
    lemma_lexeme_alone(comp_text(c));
}

/// The tokens of a text are those before a boundary followed by those after it.
pub proof fn lemma_split_at_boundary(s: Seq<char>, p: nat)
    requires
        is_boundary(s, p),
    ensures
        p <= s.len(),
        lex_view(s) == lex_view(s.take(p as int)) + lex_view(s.skip(p as int)),
    decreases p,
{
    if p == 0 {
        assert(s.take(0) =~= Seq::<char>::empty());
        assert(s.skip(0) =~= s);
        assert(lex_view(s.take(0)) + lex_view(s) =~= lex_view(s));
    } else {
        let k = head_len(s);
        lemma_head_len_bounds(s);
        let r = s.skip(k as int);
        lemma_split_at_boundary(r, (p - k) as nat);
        lemma_head_of_prefix(s, p);
        let t = s.take(p as int);
        assert(t.skip(k as int) =~= r.take(p - k));
        assert(r.skip(p - k) =~= s.skip(p as int));
        assert(lex_view(s) =~= head_tokens(s) + (lex_view(r.take(p - k)) + lex_view(
            r.skip(p - k),
        )));
        assert(lex_view(t) =~= head_tokens(s) + lex_view(r.take(p - k)));
        assert(lex_view(s) =~= lex_view(t) + lex_view(s.skip(p as int)));
    }
}

/// The tokenizer stops before a character that stands alone, wherever it is.
pub proof fn lemma_boundary_before_lone_char(a: Seq<char>, c: char, b: Seq<char>)
    requires
        stands_alone(c),
    ensures
        is_boundary(a + seq![c] + b, a.len()),
    decreases a.len(),
{
    let s = a + seq![c] + b;
    if a.len() > 0 {
        lemma_longest_lexeme_bounds(s, s.len());
        let k = lexeme_len(s);
        if k > a.len() {
            assert(s.take(k as int)[a.len() as int] == c);
            lemma_lexeme_with_lone_char(s.take(k as int), a.len() as int);
        }
        let h = head_len(s);
        assert(s.skip(h as int) =~= a.skip(h as int) + seq![c] + b);
        lemma_boundary_before_lone_char(a.skip(h as int), c, b);
    }
}

/// The tokenizer stops after a character that stands alone at the head of a text.
pub proof fn lemma_boundary_after_lone_char(c: char, b: Seq<char>)
    requires
        stands_alone(c),
    ensures
        is_boundary(seq![c] + b, 1),
{
    let s = seq![c] + b;
    lemma_longest_lexeme_bounds(s, s.len());
    let k = lexeme_len(s);
    if k > 1 {
        assert(s.take(k as int)[0] == c);
        lemma_lexeme_with_lone_char(s.take(k as int), 0);
    }
    assert(is_boundary(s.skip(1), 0));
}

/// A character that stands alone splits a text: the tokens are those of the text before
/// it, then its own, then those of the text after it. No token reaches across it.
pub proof fn lemma_lone_char_splits(a: Seq<char>, c: char, b: Seq<char>)
    requires
        stands_alone(c),
    ensures
        lex_view(a + seq![c] + b) == lex_view(a) + lex_view(seq![c]) + lex_view(b),
{
    let s = a + seq![c] + b;
    let tail = seq![c] + b;
    lemma_boundary_before_lone_char(a, c, b);
    lemma_split_at_boundary(s, a.len());
    assert(s.take(a.len() as int) =~= a);
    assert(s.skip(a.len() as int) =~= tail);
    lemma_boundary_after_lone_char(c, b);
    lemma_split_at_boundary(tail, 1);
    assert(tail.take(1) =~= seq![c]);
    assert(tail.skip(1) =~= b);
}

/// Punctuation splits a text, whatever stands next to it: the tokens are those of the text
/// before it, its own token, and those of the text after it.
pub proof fn lemma_punct_splits(a: Seq<char>, c: char, b: Seq<char>)
    requires
        is_punct(c),
    ensures
        lex_view(a + seq![c] + b) == lex_view(a) + seq![punct_token(c)] + lex_view(b),
{
    lemma_lone_char_splits(a, c, b);
    assert(is_lexeme(seq![c]));
    lemma_lexeme_alone(seq![c]);
}

/// A character outside the grammar is one error where it stands, and the tokens before and
/// after it are those of the two texts around it.
pub proof fn lemma_error_splits(a: Seq<char>, c: char, b: Seq<char>)
    requires
        stands_alone(c),
        !is_blank(c),
        !is_punct(c),
        c != '=',
    ensures
        lex_view(a + seq![c] + b) == lex_view(a) + seq![TokenView::Error] + lex_view(b),
{
    lemma_lone_char_splits(a, c, b);
    let w = seq![c];
    assert(!is_lexeme(w)) by {
        lemma_spellings();
    }
    assert forall|m: int| 0 < m <= w.len() implies !is_lexeme(#[trigger] w.take(m)) by {
        assert(w.take(m) =~= w);
    }
    lemma_lexeme_len_is(w, 0);
    assert(w.skip(1) =~= Seq::<char>::empty());
    assert(lex_view(w) =~= head_tokens(w) + lex_view(w.skip(1)));
}

/// Blanks at the head of a text yield no token.
pub proof fn lemma_leading_blanks(w: Seq<char>, b: Seq<char>)
    requires
        all_blank(w),
    ensures
        lex_view(w + b) == lex_view(b),
    decreases w.len(),
{
    let s = w + b;
    if w.len() == 0 {
        assert(s =~= b);
    } else {
        assert(s[0] == w[0]);
        assert(s.skip(1) =~= w.skip(1) + b);
        lemma_leading_blanks(w.skip(1), b);
        assert(lex_view(s) =~= head_tokens(s) + lex_view(s.skip(1)));
    }
}

/// A run of one or more blanks splits a text: the tokens are those of the text before
/// the run followed by those of the text after it.
pub proof fn lemma_blank_run_splits(a: Seq<char>, w: Seq<char>, b: Seq<char>)
    requires
        w.len() > 0,
        all_blank(w),
    ensures
        lex_view(a + w + b) == lex_view(a) + lex_view(b),
{
    let c = w[0];
    let tail = w.skip(1) + b;
    assert(a + w + b =~= a + seq![c] + tail);
    lemma_lone_char_splits(a, c, tail);
    lemma_leading_blanks(w.skip(1), b);
    lemma_leading_blanks(seq![c], Seq::<char>::empty());
    assert(seq![c] + Seq::<char>::empty() =~= seq![c]);
    assert(lex_view(a) + lex_view(seq![c]) + lex_view(tail) =~= lex_view(a) + lex_view(b));
}

/// One run of blanks between two texts is as good as another: the tokens do not depend on
/// how long the run is nor on which blanks it is made of.
pub proof fn lemma_blank_runs_alike(a: Seq<char>, w1: Seq<char>, w2: Seq<char>, b: Seq<char>)
    requires
        w1.len() > 0,
        w2.len() > 0,
        all_blank(w1),
        all_blank(w2),
    ensures
        lex_view(a + w1 + b) == lex_view(a + w2 + b),
{
    lemma_blank_run_splits(a, w1, b);
    lemma_blank_run_splits(a, w2, b);
}

/// Blanks put in between two tokens, before the first or after the last change no token;
/// nor does taking such a run away.
pub proof fn lemma_blanks_at_boundary(s: Seq<char>, p: nat, w: Seq<char>)
    requires
        is_boundary(s, p),
        all_blank(w),
    ensures
        lex_view(s.take(p as int) + w + s.skip(p as int)) == lex_view(s),
{
    lemma_split_at_boundary(s, p);
    if w.len() == 0 {
        assert(s.take(p as int) + w + s.skip(p as int) =~= s);
    } else {
        lemma_blank_run_splits(s.take(p as int), w, s.skip(p as int));
    }
}

/// The blanks of two texts put together are those of the one and those of the other.
pub proof fn lemma_blank_count_concat(a: Seq<char>, b: Seq<char>)
    ensures
        blank_count(a + b) == blank_count(a) + blank_count(b),
    decreases b.len(),
{
    if b.len() == 0 {
        assert(a + b =~= a);
    } else {
        assert((a + b).drop_last() =~= a + b.drop_last());
        lemma_blank_count_concat(a, b.drop_last());
    }
}

/// The width of two sequences of tokens put together is the sum of their widths.
pub proof fn lemma_total_width_concat(x: Seq<TokenView>, y: Seq<TokenView>)
    ensures
        total_width(x + y) == total_width(x) + total_width(y),
    decreases y.len(),
{
    if y.len() == 0 {
        assert(x + y =~= x);
    } else {
        assert((x + y).drop_last() =~= x + y.drop_last());
        lemma_total_width_concat(x, y.drop_last());
    }
}

/// A lexeme counts no blank, and its token is as wide as the lexeme is long.
pub proof fn lemma_lexeme_width(w: Seq<char>)
    requires
        is_lexeme(w),
    ensures
        blank_count(w) == 0,
        width(token_of(class_of(w), w)) == w.len(),
{
    lemma_lexeme_chars(w);
    lemma_no_blank_count(w);
    lemma_spellings();
}

/// A text without blanks counts none.
pub proof fn lemma_no_blank_count(w: Seq<char>)
    requires
        forall|i: int| 0 <= i < w.len() ==> !is_blank(#[trigger] w[i]),
    ensures
        blank_count(w) == 0,
    decreases w.len(),
{
    if w.len() > 0 {
        lemma_no_blank_count(w.drop_last());
    }
}

/// Every character of a text is accounted for once: the widths of the tokens and the
/// number of blanks add up to the length of the text. So there are never more tokens than
/// characters that are not blanks.
pub proof fn lemma_every_char_consumed(s: Seq<char>)
    ensures
        total_width(lex_view(s)) + blank_count(s) == s.len(),
        lex_view(s).len() + blank_count(s) <= s.len(),
    decreases s.len(),
{
    if s.len() > 0 {
        let k = head_len(s);
        lemma_head_len_bounds(s);
        let head = s.take(k as int);
        let rest = s.skip(k as int);
        lemma_every_char_consumed(rest);
        assert(s =~= head + rest);
        lemma_blank_count_concat(head, rest);
        lemma_total_width_concat(head_tokens(s), lex_view(rest));
        assert(total_width(head_tokens(s)) + blank_count(head) == k) by {
            if is_blank(s[0]) || lexeme_len(s) == 0 {
                assert(head.drop_last() =~= Seq::<char>::empty());
                assert(head.last() == s[0]);
                assert(blank_count(head.drop_last()) == 0);
                if !is_blank(s[0]) {
                    let e = seq![TokenView::Error];
                    assert(e.drop_last() =~= Seq::<TokenView>::empty());
                    assert(total_width(e.drop_last()) == 0);
                }
            } else {
                lemma_longest_lexeme_bounds(s, s.len());
                lemma_lexeme_width(head);
                let e = seq![token_of(class_of(head), head)];
                assert(e.drop_last() =~= Seq::<TokenView>::empty());
                assert(total_width(e.drop_last()) == 0);
            }
        }
    }
}

} // verus!
