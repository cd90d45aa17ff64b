//! Idempotence of tokenization: joining a token sequence's texts with single
//! spaces and tokenizing again reproduces the same texts.

use vstd::prelude::*;
use crate::ast::ExprModel;
use crate::grammar::{
    comparison_rest_spec, comparison_spec, is_comparison_op, is_logical_op, logical_rest_spec,
    logical_spec, primary_spec,
};
use crate::lexer::{literal_len, run_len, tokenize_spec};
use crate::text::{op_char, punct_char, quote_char, separator_char, word_char, ws_char};

verus! {

/// The texts of a token sequence joined with single spaces.
pub open spec fn join_spaces(ts: Seq<Seq<char>>) -> Seq<char>
    decreases ts.len(),
{
    if ts.len() == 0 {
        Seq::empty()
    } else if ts.len() == 1 {
        ts[0]
    } else {
        ts[0] + seq![' '] + join_spaces(ts.drop_first())
    }
}

/// A token that re-tokenizes to itself whatever follows it after a space: a
/// punctuation character, an operator run, an identifier run, or a terminated
/// string literal.
pub open spec fn closed_token(t: Seq<char>) -> bool {
    ||| (t.len() == 1 && punct_char(t[0]))
    ||| (t.len() >= 1 && (forall|i: int| 0 <= i < t.len() ==> op_char(#[trigger] t[i])))
    ||| (t.len() >= 1 && (forall|i: int| 0 <= i < t.len() ==> word_char(#[trigger] t[i])))
    ||| (t.len() >= 2 && quote_char(t[0]) && t[t.len() - 1] == t[0] && (forall|i: int|
        1 <= i < t.len() - 1 ==> #[trigger] t[i] != t[0]))
}

/// An unterminated string literal: an opening quote never matched.  The
/// tokenizer emits such a token only at the very end of its input.
pub open spec fn open_literal(t: Seq<char>) -> bool {
    t.len() >= 1 && quote_char(t[0]) && (forall|i: int| 1 <= i < t.len() ==> #[trigger] t[i] != t[0])
}

/// Every token is closed, except that the last may be an unterminated
/// literal.
pub open spec fn wf_tokens(ts: Seq<Seq<char>>) -> bool {
    forall|i: int|
        0 <= i < ts.len() ==> (closed_token(#[trigger] ts[i]) || (i == ts.len() - 1
            && open_literal(ts[i])))
}

/// Shape of `literal_len`: it stops just past the first closing quote, or
/// takes everything when there is none.
proof fn lemma_literal_len_shape(s: Seq<char>, q: char)
    ensures
        literal_len(s, q) <= s.len(),
        forall|j: int| 0 <= j < literal_len(s, q) - 1 ==> s[j] != q,
        (literal_len(s, q) >= 1 && s[literal_len(s, q) - 1] == q) || (literal_len(s, q) == s.len()
            && (forall|j: int| 0 <= j < s.len() ==> s[j] != q)),
    decreases s.len(),
{
    if s.len() == 0 {
    } else if s[0] == q {
    } else {
        lemma_literal_len_shape(s.drop_first(), q);
        assert forall|j: int| 0 <= j < literal_len(s, q) - 1 implies s[j] != q by {
            if j > 0 {
                assert(s.drop_first()[j - 1] != q);
            }
        }
        if !(literal_len(s, q) >= 1 && s[literal_len(s, q) - 1] == q) {
            assert forall|j: int| 0 <= j < s.len() implies s[j] != q by {
                if j > 0 {
                    assert(s.drop_first()[j - 1] != q);
                }
            }
        }
    }
}

/// Shape of `run_len`: everything before it satisfies the predicate, the
/// character after it (if any) does not.
proof fn lemma_run_len_shape(s: Seq<char>, pred: spec_fn(char) -> bool)
    ensures
        run_len(s, pred) <= s.len(),
        forall|j: int| 0 <= j < run_len(s, pred) ==> pred(s[j]),
        run_len(s, pred) < s.len() ==> !pred(s[run_len(s, pred) as int]),
    decreases s.len(),
{
    if s.len() > 0 && pred(s[0]) {
        lemma_run_len_shape(s.drop_first(), pred);
        assert forall|j: int| 0 <= j < run_len(s, pred) implies pred(s[j]) by {
            if j > 0 {
                assert(pred(s.drop_first()[j - 1]));
            }
        }
        if run_len(s, pred) < s.len() {
            assert(s.drop_first()[run_len(s, pred) - 1] == s[run_len(s, pred) as int]);
        }
    }
}

/// A run over a concatenation whose first part all satisfies the predicate
/// and whose second part opens with a character that does not.
proof fn lemma_run_len_concat(a: Seq<char>, b: Seq<char>, pred: spec_fn(char) -> bool)
    requires
        forall|i: int| 0 <= i < a.len() ==> pred(a[i]),
        b.len() > 0 ==> !pred(b[0]),
    ensures
        run_len(a + b, pred) == a.len(),
    decreases a.len(),
{
    if a.len() == 0 {
        assert(a + b =~= b);
    } else {
        assert((a + b)[0] == a[0]);
        lemma_run_len_concat(a.drop_first(), b, pred);
        assert((a + b).drop_first() =~= a.drop_first() + b);
    }
}

/// A literal body over a concatenation: a quote-free prefix, the closing
/// quote, then anything.
proof fn lemma_literal_len_concat(a: Seq<char>, q: char, b: Seq<char>)
    requires
        forall|i: int| 0 <= i < a.len() ==> a[i] != q,
    ensures
        literal_len(a + seq![q] + b, q) == a.len() + 1,
    decreases a.len(),
{
    if a.len() == 0 {
        assert((a + seq![q] + b)[0] == q);
    } else {
        assert((a + seq![q] + b)[0] == a[0]);
        lemma_literal_len_concat(a.drop_first(), q, b);
        assert((a + seq![q] + b).drop_first() =~= a.drop_first() + seq![q] + b);
    }
}

/// A literal body with no closing quote at all runs to the end of the input.
proof fn lemma_literal_len_no_quote(a: Seq<char>, q: char)
    requires
        forall|i: int| 0 <= i < a.len() ==> a[i] != q,
    ensures
        literal_len(a, q) == a.len(),
    decreases a.len(),
{
    if a.len() > 0 {
        lemma_literal_len_no_quote(a.drop_first(), q);
    }
}

/// The tokenizer only ever emits well-formed tokens, and an unterminated
/// literal only as the last of them.
proof fn lemma_tokenize_wf(s: Seq<char>)
    ensures
        wf_tokens(tokenize_spec(s)),
    decreases s.len(),
{
    if s.len() == 0 {
    } else {
        let c = s[0];
        if ws_char(c) {
            lemma_tokenize_wf(s.drop_first());
        } else if punct_char(c) {
            lemma_tokenize_wf(s.drop_first());
            let t = seq![c];
            assert(closed_token(t));
            lemma_wf_prepend(t, tokenize_spec(s.drop_first()));
        } else if quote_char(c) {
            let body = s.drop_first();
            let k = literal_len(body, c) as int;
            let n = 1 + k;
            let t = s.take(n);
            lemma_literal_len_shape(body, c);
            lemma_tokenize_wf(s.skip(n));
            if k >= 1 && body[k - 1] == c {
                assert(t.len() == n >= 2);
                assert(t[0] == c);
                assert(t[t.len() - 1] == body[k - 1]);
                assert forall|i: int| 1 <= i < t.len() - 1 implies #[trigger] t[i] != t[0] by {
                    assert(t[i] == body[i - 1]);
                }
                assert(closed_token(t));
                lemma_wf_prepend(t, tokenize_spec(s.skip(n)));
            } else {
                assert(k == body.len());
                assert(n == s.len());
                assert(s.skip(n) =~= Seq::<char>::empty());
                assert(tokenize_spec(s.skip(n)) =~= Seq::<Seq<char>>::empty());
                assert forall|i: int| 1 <= i < t.len() implies #[trigger] t[i] != t[0] by {
                    assert(t[i] == body[i - 1]);
                    assert(t[0] == c);
                }
                assert(open_literal(t));
                let ts = tokenize_spec(s);
                assert(ts =~= seq![t] + tokenize_spec(s.skip(n)));
                assert(ts =~= seq![t]);
                assert(wf_tokens(ts));
            }
        } else if op_char(c) {
            let pred = |c2: char| op_char(c2);
            let body = s.drop_first();
            let n = 1 + run_len(body, pred) as int;
            let t = s.take(n);
            lemma_run_len_shape(body, pred);
            lemma_tokenize_wf(s.skip(n));
            assert forall|i: int| 0 <= i < t.len() implies op_char(#[trigger] t[i]) by {
                if i > 0 {
                    assert(t[i] == body[i - 1]);
                    assert(pred(body[i - 1]));
                }
            }
            assert(closed_token(t));
            lemma_wf_prepend(t, tokenize_spec(s.skip(n)));
        } else if word_char(c) {
            let pred = |c2: char| word_char(c2);
            let body = s.drop_first();
            let n = 1 + run_len(body, pred) as int;
            let t = s.take(n);
            lemma_run_len_shape(body, pred);
            lemma_tokenize_wf(s.skip(n));
            assert forall|i: int| 0 <= i < t.len() implies word_char(#[trigger] t[i]) by {
                if i > 0 {
                    assert(t[i] == body[i - 1]);
                    assert(pred(body[i - 1]));
                }
            }
            assert(closed_token(t));
            lemma_wf_prepend(t, tokenize_spec(s.skip(n)));
        } else {
            lemma_tokenize_wf(s.drop_first());
        }
    }
}

/// Prepending a closed token keeps a token sequence well formed.
proof fn lemma_wf_prepend(t: Seq<char>, rest: Seq<Seq<char>>)
    requires
        closed_token(t),
        wf_tokens(rest),
    ensures
        wf_tokens(seq![t] + rest),
{
    let ts = seq![t] + rest;
    assert forall|i: int|
        0 <= i < ts.len() implies (closed_token(#[trigger] ts[i]) || (i == ts.len() - 1
        && open_literal(ts[i]))) by {
        if i == 0 {
        } else {
            assert(ts[i] == rest[i - 1]);
            assert(closed_token(rest[i - 1]) || (i - 1 == rest.len() - 1 && open_literal(
                rest[i - 1],
            )));
        }
    }
}

/// A closed token, alone or followed by a space and anything, re-tokenizes to
/// exactly itself.
proof fn lemma_closed_token_step(t: Seq<char>, r: Seq<char>, spaced: bool)
    requires
        closed_token(t),
        !spaced ==> r.len() == 0,
    ensures
        spaced ==> tokenize_spec(t + seq![' '] + r) == seq![t] + tokenize_spec(r),
        !spaced ==> tokenize_spec(t) == seq![t],
{
    let u = if spaced {
        t + seq![' '] + r
    } else {
        t
    };
    assert(u[0] == t[0]);
    if t.len() == 1 && punct_char(t[0]) {
        assert(!ws_char(u[0]));
        assert(tokenize_spec(u) == seq![seq![u[0]]] + tokenize_spec(u.drop_first()));
        assert(seq![u[0]] =~= t);
        if spaced {
            assert(u.drop_first() =~= seq![' '] + r);
            lemma_space_skip(r);
        } else {
            assert(u.drop_first() =~= Seq::<char>::empty());
            assert(tokenize_spec(u.drop_first()) =~= Seq::<Seq<char>>::empty());
            assert(tokenize_spec(u) =~= seq![t]);
        }
    } else if t.len() >= 1 && (forall|i: int| 0 <= i < t.len() ==> op_char(t[i])) {
        let pred = |c2: char| op_char(c2);
        assert(op_char(u[0]));
        assert(!ws_char(u[0]) && !punct_char(u[0]) && !quote_char(u[0]));
        let tail = if spaced {
            seq![' '] + r
        } else {
            Seq::<char>::empty()
        };
        assert(u.drop_first() =~= t.drop_first() + tail);
        assert(forall|i: int| 0 <= i < t.drop_first().len() ==> pred(#[trigger] t.drop_first()[i]));
        assert(tail.len() > 0 ==> !pred(tail[0]));
        lemma_run_len_concat(t.drop_first(), tail, pred);
        let n = 1 + run_len(u.drop_first(), pred) as int;
        assert(n == t.len());
        assert(u.take(n) =~= t);
        assert(tokenize_spec(u) == seq![u.take(n)] + tokenize_spec(u.skip(n)));
        if spaced {
            assert(u.skip(n) =~= seq![' '] + r);
            lemma_space_skip(r);
        } else {
            assert(u.skip(n) =~= Seq::<char>::empty());
            assert(tokenize_spec(u.skip(n)) =~= Seq::<Seq<char>>::empty());
            assert(tokenize_spec(u) =~= seq![t]);
        }
    } else if t.len() >= 1 && (forall|i: int| 0 <= i < t.len() ==> word_char(t[i])) {
        let pred = |c2: char| word_char(c2);
        assert(word_char(u[0]));
        assert(!separator_char(u[0]));
        let tail = if spaced {
            seq![' '] + r
        } else {
            Seq::<char>::empty()
        };
        assert(u.drop_first() =~= t.drop_first() + tail);
        assert(forall|i: int| 0 <= i < t.drop_first().len() ==> pred(#[trigger] t.drop_first()[i]));
        assert(tail.len() > 0 ==> !pred(tail[0]));
        lemma_run_len_concat(t.drop_first(), tail, pred);
        let n = 1 + run_len(u.drop_first(), pred) as int;
        assert(n == t.len());
        assert(u.take(n) =~= t);
        assert(tokenize_spec(u) == seq![u.take(n)] + tokenize_spec(u.skip(n)));
        if spaced {
            assert(u.skip(n) =~= seq![' '] + r);
            lemma_space_skip(r);
        } else {
            assert(u.skip(n) =~= Seq::<char>::empty());
            assert(tokenize_spec(u.skip(n)) =~= Seq::<Seq<char>>::empty());
            assert(tokenize_spec(u) =~= seq![t]);
        }
    } else {
        let q = t[0];
        assert(t.len() >= 2 && quote_char(q) && t[t.len() - 1] == q);
        assert(!ws_char(u[0]) && !punct_char(u[0]));
        let interior = t.subrange(1, t.len() - 1);
        assert(forall|i: int| 0 <= i < interior.len() ==> #[trigger] interior[i] != q);
        let tail = if spaced {
            seq![' '] + r
        } else {
            Seq::<char>::empty()
        };
        assert(u.drop_first() =~= interior + seq![q] + tail);
        lemma_literal_len_concat(interior, q, tail);
        let n = 1 + literal_len(u.drop_first(), q) as int;
        assert(n == t.len());
        assert(u.take(n) =~= t);
        assert(tokenize_spec(u) == seq![u.take(n)] + tokenize_spec(u.skip(n)));
        if spaced {
            assert(u.skip(n) =~= seq![' '] + r);
            lemma_space_skip(r);
        } else {
            assert(u.skip(n) =~= Seq::<char>::empty());
            assert(tokenize_spec(u.skip(n)) =~= Seq::<Seq<char>>::empty());
            assert(tokenize_spec(u) =~= seq![t]);
        }
    }
}

/// A leading space is skipped.
proof fn lemma_space_skip(r: Seq<char>)
    ensures
        tokenize_spec(seq![' '] + r) == tokenize_spec(r),
{
    let u = seq![' '] + r;
    assert(u[0] == ' ');
    assert(ws_char(u[0]));
    assert(u.drop_first() =~= r);
}

/// An unterminated literal re-tokenizes to exactly itself.
proof fn lemma_open_literal_alone(t: Seq<char>)
    requires
        open_literal(t),
    ensures
        tokenize_spec(t) == seq![t],
{
    let q = t[0];
    assert(!ws_char(q) && !punct_char(q));
    let body = t.drop_first();
    assert(forall|i: int| 0 <= i < body.len() ==> #[trigger] body[i] != q);
    lemma_literal_len_no_quote(body, q);
    let n = 1 + literal_len(body, q) as int;
    assert(n == t.len());
    assert(t.take(n) =~= t);
    assert(t.skip(n) =~= Seq::<char>::empty());
    assert(tokenize_spec(t) == seq![t.take(n)] + tokenize_spec(t.skip(n)));
    assert(tokenize_spec(t.skip(n)) =~= Seq::<Seq<char>>::empty());
    assert(tokenize_spec(t) =~= seq![t]);
}

/// Re-tokenizing the space-joined texts of a well-formed token sequence
/// reproduces it.
proof fn lemma_retokenize_wf(ts: Seq<Seq<char>>)
    requires
        wf_tokens(ts),
    ensures
        tokenize_spec(join_spaces(ts)) == ts,
    decreases ts.len(),
{
    if ts.len() == 0 {
        assert(tokenize_spec(Seq::<char>::empty()) =~= ts);
    } else if ts.len() == 1 {
        let t = ts[0];
        if closed_token(t) {
            lemma_closed_token_step(t, Seq::<char>::empty(), false);
        } else {
            assert(open_literal(t));
            lemma_open_literal_alone(t);
        }
        assert(seq![t] =~= ts);
    } else {
        let t = ts[0];
        let rest = ts.drop_first();
        assert(closed_token(t));
        assert forall|i: int|
            0 <= i < rest.len() implies (closed_token(#[trigger] rest[i]) || (i == rest.len() - 1
            && open_literal(rest[i]))) by {
            assert(rest[i] == ts[i + 1]);
            assert(closed_token(ts[i + 1]) || (i + 1 == ts.len() - 1 && open_literal(ts[i + 1])));
        }
        lemma_retokenize_wf(rest);
        lemma_closed_token_step(t, join_spaces(rest), true);
        assert(tokenize_spec(join_spaces(ts)) =~= seq![t] + rest);
        assert(seq![t] + rest =~= ts);
    }
}


/// The token sequence wrapped in one pair of parentheses.
pub open spec fn parenthesized(ts: Seq<Seq<char>>) -> Seq<Seq<char>> {
    seq!["("@] + ts + seq![")"@]
}

/// A closing parenthesis spells no operator.
proof fn lemma_rparen_not_op()
    ensures
        !is_comparison_op(")"@),
        !is_logical_op(")"@),
{
    reveal_strlit(")");
    reveal_strlit("==");
    reveal_strlit("!=");
    reveal_strlit("<");
    reveal_strlit(">");
    reveal_strlit("<=");
    reveal_strlit(">=");
    reveal_strlit("AND");
    reveal_strlit("OR");
    assert(")"@[0] != "<"@[0]);
    assert(")"@[0] != ">"@[0]);
}

/// Replaying a successful primary parse one position to the right inside the
/// parenthesized sequence.
proof fn lemma_embed_primary(ts: Seq<Seq<char>>, pos: int, x: ExprModel, p: int)
    requires
        0 <= pos,
        primary_spec(ts, pos) == Some((x, p)),
    ensures
        primary_spec(parenthesized(ts), pos + 1) == Some((x, p + 1)),
    decreases ts.len() - pos, 0int,
{
    let u = parenthesized(ts);
    assert(pos < ts.len());
    assert(u[pos + 1] == ts[pos]);
    if ts[pos] == "("@ {
        let (e2, p2) = logical_spec(ts, pos + 1)->Some_0;
        lemma_embed_logical(ts, pos + 1, e2, p2);
        assert(0 <= p2 < ts.len() && ts[p2] == ")"@);
        assert(u[p2 + 1] == ts[p2]);
    } else {
        assert(primary_spec(u, pos + 1) == Some((ExprModel::Identifier(u[pos + 1]), pos + 2)));
    }
}

/// Replaying a successful comparison chain one position to the right.
proof fn lemma_embed_comparison_rest(ts: Seq<Seq<char>>, pos: int, left: ExprModel, x: ExprModel, p: int)
    requires
        0 <= pos <= ts.len(),
        comparison_rest_spec(ts, pos, left) == Some((x, p)),
    ensures
        comparison_rest_spec(parenthesized(ts), pos + 1, left) == Some((x, p + 1)),
    decreases ts.len() - pos, 1int,
{
    let u = parenthesized(ts);
    if 0 <= pos < ts.len() && is_comparison_op(ts[pos]) {
        assert(u[pos + 1] == ts[pos]);
        let (r, p2) = primary_spec(ts, pos + 1)->Some_0;
        lemma_embed_primary(ts, pos + 1, r, p2);
        let e = ExprModel::BinaryExpression {
            operator: ts[pos],
            left: Box::new(left),
            right: Box::new(r),
        };
        assert(pos < p2 <= ts.len());
        lemma_embed_comparison_rest(ts, p2, e, x, p);
        assert(u[pos + 1] == ts[pos]);
    } else {
        assert(x == left && p == pos);
        if pos < ts.len() {
            assert(u[pos + 1] == ts[pos]);
            assert(!is_comparison_op(u[pos + 1]));
        } else {
            assert(pos == ts.len());
            assert(u[pos + 1] == ")"@);
            lemma_rparen_not_op();
        }
        assert(comparison_rest_spec(u, pos + 1, left) == Some((left, pos + 1)));
    }
}

/// Replaying a successful comparison-level parse one position to the right.
proof fn lemma_embed_comparison(ts: Seq<Seq<char>>, pos: int, x: ExprModel, p: int)
    requires
        0 <= pos,
        comparison_spec(ts, pos) == Some((x, p)),
    ensures
        comparison_spec(parenthesized(ts), pos + 1) == Some((x, p + 1)),
    decreases ts.len() - pos, 2int,
{
    let u = parenthesized(ts);
    assert(pos < ts.len());
    let (l, p1) = primary_spec(ts, pos)->Some_0;
    lemma_embed_primary(ts, pos, l, p1);
    assert(pos < p1 <= ts.len());
    lemma_embed_comparison_rest(ts, p1, l, x, p);
}

/// Replaying a successful logical chain one position to the right.
proof fn lemma_embed_logical_rest(ts: Seq<Seq<char>>, pos: int, left: ExprModel, x: ExprModel, p: int)
    requires
        0 <= pos <= ts.len(),
        logical_rest_spec(ts, pos, left) == Some((x, p)),
    ensures
        logical_rest_spec(parenthesized(ts), pos + 1, left) == Some((x, p + 1)),
    decreases ts.len() - pos, 3int,
{
    let u = parenthesized(ts);
    if 0 <= pos < ts.len() && is_logical_op(ts[pos]) {
        assert(u[pos + 1] == ts[pos]);
        let (r, p2) = comparison_spec(ts, pos + 1)->Some_0;
        lemma_embed_comparison(ts, pos + 1, r, p2);
        let e = ExprModel::BinaryExpression {
            operator: ts[pos],
            left: Box::new(left),
            right: Box::new(r),
        };
        assert(pos < p2 <= ts.len());
        lemma_embed_logical_rest(ts, p2, e, x, p);
    } else {
        assert(x == left && p == pos);
        if pos < ts.len() {
            assert(u[pos + 1] == ts[pos]);
            assert(!is_logical_op(u[pos + 1]));
        } else {
            assert(pos == ts.len());
            assert(u[pos + 1] == ")"@);
            lemma_rparen_not_op();
        }
        assert(logical_rest_spec(u, pos + 1, left) == Some((left, pos + 1)));
    }
}

/// Replaying a successful logical-level parse one position to the right.
proof fn lemma_embed_logical(ts: Seq<Seq<char>>, pos: int, x: ExprModel, p: int)
    requires
        0 <= pos,
        logical_spec(ts, pos) == Some((x, p)),
    ensures
        logical_spec(parenthesized(ts), pos + 1) == Some((x, p + 1)),
    decreases ts.len() - pos, 4int,
{
    let u = parenthesized(ts);
    assert(pos < ts.len());
    let (l, p1) = comparison_spec(ts, pos)->Some_0;
    lemma_embed_comparison(ts, pos, l, p1);
    assert(pos < p1 <= ts.len());
    lemma_embed_logical_rest(ts, p1, l, x, p);
}

/// Redundant parentheses change nothing: a token sequence that parses as a
/// complete logical expression parses, wrapped in one pair of parentheses, to
/// exactly the same tree.
pub proof fn lemma_redundant_parens(ts: Seq<Seq<char>>, e: ExprModel)
    requires
        logical_spec(ts, 0) == Some((e, ts.len() as int)),
    ensures
        logical_spec(parenthesized(ts), 0) == Some((e, ts.len() as int + 2)),
{
    let u = parenthesized(ts);
    let n = ts.len() as int;
    lemma_embed_logical(ts, 0, e, n);
    assert(u[0] == "("@);
    assert(u[n + 1] == ")"@);
    assert(primary_spec(u, 0) == Some((e, n + 2)));
    lemma_rparen_not_op();
    assert(comparison_rest_spec(u, n + 2, e) == Some((e, n + 2)));
    assert(comparison_spec(u, 0) == Some((e, n + 2)));
    assert(logical_rest_spec(u, n + 2, e) == Some((e, n + 2)));
    assert(logical_spec(u, 0) == Some((e, n + 2)));
}

/// Idempotence of tokenization: the texts a tokenization yields, joined with
/// single spaces and tokenized again, come back unchanged, one to one.
pub proof fn lemma_retokenize(s: Seq<char>)
    ensures
        tokenize_spec(join_spaces(tokenize_spec(s))) == tokenize_spec(s),
{
    lemma_tokenize_wf(s);
    lemma_retokenize_wf(tokenize_spec(s));
}

} // verus!
