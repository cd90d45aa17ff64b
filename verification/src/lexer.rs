//! The tokenizer: a single left-to-right pass over the character stream with
//! one character of lookahead.  `tokenize_spec` is the mathematical statement
//! of what the pass produces; `Lexer::tokenize` is proved equal to it.

use vstd::prelude::*;
use crate::text::{
    is_op_char, is_word_char, op_char, punct_char, push_char, quote_char, word_char, ws_char,
};

verus! {

/// Length of the maximal prefix of `s` on which `pred` holds of every character.
pub open spec fn run_len(s: Seq<char>, pred: spec_fn(char) -> bool) -> nat
    decreases s.len(),
{
    if s.len() > 0 && pred(s[0]) {
        (1 + run_len(s.drop_first(), pred)) as nat
    } else {
        0
    }
}

/// Number of characters a string literal consumes after its opening quote:
/// everything up to and including the first closing quote `q`, or the whole
/// rest of the input when no closing quote exists.
pub open spec fn literal_len(s: Seq<char>, q: char) -> nat
    decreases s.len(),
{
    if s.len() == 0 {
        0
    } else if s[0] == q {
        1
    } else {
        (1 + literal_len(s.drop_first(), q)) as nat
    }
}

pub proof fn lemma_run_len_le(s: Seq<char>, pred: spec_fn(char) -> bool)
    ensures
        run_len(s, pred) <= s.len(),
    decreases s.len(),
{
    if s.len() > 0 && pred(s[0]) {
        lemma_run_len_le(s.drop_first(), pred);
    }
}

pub proof fn lemma_literal_len_le(s: Seq<char>, q: char)
    ensures
        literal_len(s, q) <= s.len(),
    decreases s.len(),
{
    if s.len() > 0 && s[0] != q {
        lemma_literal_len_le(s.drop_first(), q);
    }
}

/// The token sequence produced from the character sequence `s`, in priority
/// order: whitespace is skipped; `(` `)` `,` `;` are one-character tokens; a
/// quote opens a string literal that extends through the first matching quote
/// (or to the end of input); a maximal run of `!` `=` `<` `>` is one operator
/// token; a maximal run of alphanumerics and `_` is one identifier token; any
/// other character is dropped.
pub open spec fn tokenize_spec(s: Seq<char>) -> Seq<Seq<char>>
    decreases s.len(),
    via tokenize_spec_decreases
{
    if s.len() == 0 {
        Seq::empty()
    } else {
        let c = s[0];
        if ws_char(c) {
            tokenize_spec(s.drop_first())
        } else if punct_char(c) {
            seq![seq![c]] + tokenize_spec(s.drop_first())
        } else if quote_char(c) {
            let n = 1 + literal_len(s.drop_first(), c) as int;
            seq![s.take(n)] + tokenize_spec(s.skip(n))
        } else if op_char(c) {
            let n = 1 + run_len(s.drop_first(), |c2: char| op_char(c2)) as int;
            seq![s.take(n)] + tokenize_spec(s.skip(n))
        } else if word_char(c) {
            let n = 1 + run_len(s.drop_first(), |c2: char| word_char(c2)) as int;
            seq![s.take(n)] + tokenize_spec(s.skip(n))
        } else {
            tokenize_spec(s.drop_first())
        }
    }
}

#[via_fn]
proof fn tokenize_spec_decreases(s: Seq<char>) {
    if s.len() > 0 {
        let c = s[0];
        lemma_literal_len_le(s.drop_first(), c);
        lemma_run_len_le(s.drop_first(), |c2: char| op_char(c2));
        lemma_run_len_le(s.drop_first(), |c2: char| word_char(c2));
    }
}

/// The texts of a sequence of tokens.
pub open spec fn token_views(ts: Seq<String>) -> Seq<Seq<char>> {
    ts.map_values(|t: String| t@)
}

/// The tokenizer's cursor over the input characters.
pub struct Lexer {
    chars: Vec<char>,
    pos: usize,
}

impl Lexer {
    /// The characters not yet consumed.
    pub closed spec fn remaining(self) -> Seq<char> {
        if self.pos <= self.chars.len() {
            self.chars@.skip(self.pos as int)
        } else {
            Seq::empty()
        }
    }

    pub fn new(input: &str) -> (l: Lexer)
        ensures
            l.remaining() == input@,
    {
        let chars = chars_of(input);
        Lexer { chars, pos: 0 }
    }

    /// Scans the whole remaining input and returns its tokens, exactly as
    /// `tokenize_spec` describes them.
    #[verifier::loop_isolation(false)]
    pub fn tokenize(&mut self) -> (tokens: Vec<String>)
        ensures
            token_views(tokens@) == tokenize_spec(old(self).remaining()),
            final(self).remaining() == Seq::<char>::empty(),
    {
        let mut tokens: Vec<String> = Vec::new();
        if self.pos > self.chars.len() {
            assert(token_views(tokens@) =~= tokenize_spec(old(self).remaining()));
            return tokens;
        }
        while self.pos < self.chars.len()
            invariant
                self.pos <= self.chars.len(),
                self.chars == old(self).chars,
                token_views(tokens@) + tokenize_spec(self.remaining())
                    == tokenize_spec(old(self).remaining()),
            decreases self.chars.len() - self.pos,
        {
            let ghost rem = self.remaining();
            let ghost toks_before = tokens@;
            let ch = self.chars[self.pos];
            assert(rem[0] == ch);
            if ch == ' ' || ch == '\t' || ch == '\n' || ch == '\r' {
                self.pos = self.pos + 1;
                assert(self.remaining() =~= rem.drop_first());
            } else if ch == '(' || ch == ')' || ch == ',' || ch == ';' {
                let mut t = String::new();
                push_char(&mut t, ch);
                tokens.push(t);
                self.pos = self.pos + 1;
                proof {
                    assert(t@ =~= seq![ch]);
                    assert(self.remaining() =~= rem.drop_first());
                    assert(token_views(tokens@) =~= token_views(toks_before) + seq![t@]);
                    assert(tokenize_spec(rem) =~= seq![seq![ch]] + tokenize_spec(rem.drop_first()));
                }
            } else if ch == '\'' || ch == '"' {
                let t = self.collect_string_literal(ch);
                tokens.push(t);
                proof {
                    let n = 1 + literal_len(rem.drop_first(), ch) as int;
                    assert(self.remaining() =~= rem.skip(n));
                    assert(tokenize_spec(rem) =~= seq![rem.take(n)] + tokenize_spec(rem.skip(n)));
                    assert(token_views(tokens@) =~= token_views(toks_before) + seq![t@]);
                }
            } else if ch == '!' || ch == '=' || ch == '<' || ch == '>' {
                let t = self.collect_operator();
                tokens.push(t);
                proof {
                    let n = 1 + run_len(rem.drop_first(), |c2: char| op_char(c2)) as int;
                    assert(self.remaining() =~= rem.skip(n));
                    assert(tokenize_spec(rem) =~= seq![rem.take(n)] + tokenize_spec(rem.skip(n)));
                    assert(token_views(tokens@) =~= token_views(toks_before) + seq![t@]);
                }
            } else {
                if is_word_char(ch) {
                    let t = self.collect_identifier();
                    tokens.push(t);
                    proof {
                        let n = 1 + run_len(rem.drop_first(), |c2: char| word_char(c2)) as int;
                        assert(self.remaining() =~= rem.skip(n));
                        assert(tokenize_spec(rem) =~= seq![rem.take(n)]
                            + tokenize_spec(rem.skip(n)));
                        assert(token_views(tokens@) =~= token_views(toks_before) + seq![t@]);
                    }
                } else {
                    self.pos = self.pos + 1;
                    assert(self.remaining() =~= rem.drop_first());
                }
            }
        }
        proof {
            assert(self.remaining() =~= Seq::<char>::empty());
            assert(token_views(tokens@) =~= tokenize_spec(old(self).remaining()));
        }
        tokens
    }

    /// Consumes the opening quote and then characters verbatim until and
    /// including the first matching closing quote, or to the end of input.
    #[verifier::loop_isolation(false)]
    fn collect_string_literal(&mut self, quote: char) -> (lit: String)
        requires
            old(self).pos < old(self).chars.len(),
            old(self).chars@[old(self).pos as int] == quote,
        ensures
            final(self).chars == old(self).chars,
            final(self).pos == old(self).pos + 1 + literal_len(
                old(self).remaining().drop_first(),
                quote,
            ),
            final(self).pos <= final(self).chars.len(),
            lit@ == old(self).remaining().take(
                1 + literal_len(old(self).remaining().drop_first(), quote) as int,
            ),
    {
        let ghost rem = old(self).remaining();
        let ghost body = rem.drop_first();
        proof {
            lemma_literal_len_le(body, quote);
        }
        let mut lit = String::new();
        push_char(&mut lit, self.chars[self.pos]);
        self.pos = self.pos + 1;
        proof {
            assert(rem[0] == quote);
            assert(lit@ =~= rem.take(1));
            assert(self.remaining() =~= body);
        }
        while self.pos < self.chars.len()
            invariant
                old(self).pos < self.pos <= self.chars.len(),
                self.chars == old(self).chars,
                lit@ == rem.take(self.pos - old(self).pos),
                literal_len(body, quote) == (self.pos - old(self).pos - 1)
                    + literal_len(self.remaining(), quote),
                forall|j: int|
                    0 <= j < self.pos - old(self).pos - 1 ==> body[j] != quote,
            decreases self.chars.len() - self.pos,
        {
            let ghost rem_now = self.remaining();
            let ch = self.chars[self.pos];
            assert(rem_now[0] == ch);
            push_char(&mut lit, ch);
            self.pos = self.pos + 1;
            proof {
                assert(self.remaining() =~= rem_now.drop_first());
                assert(rem_now =~= rem.skip(self.pos - old(self).pos - 1));
                assert(rem[self.pos - old(self).pos - 1] == ch);
                assert(lit@ =~= rem.take(self.pos - old(self).pos));
                assert(body[self.pos - old(self).pos - 2] == ch);
            }
            if ch == quote {
                proof {
                    assert(literal_len(rem_now, quote) == 1);
                    assert(lit@ == rem.take(1 + literal_len(body, quote) as int));
                }
                return lit;
            }
            assert(literal_len(rem_now, quote) == 1 + literal_len(rem_now.drop_first(), quote));
        }
        proof {
            assert(self.remaining() =~= Seq::<char>::empty());
            assert(literal_len(self.remaining(), quote) == 0);
            assert(lit@ == rem.take(1 + literal_len(body, quote) as int));
        }
        lit
    }

    /// Consumes the maximal run of operator characters at the cursor.
    #[verifier::loop_isolation(false)]
    fn collect_operator(&mut self) -> (t: String)
        requires
            old(self).pos < old(self).chars.len(),
            op_char(old(self).chars@[old(self).pos as int]),
        ensures
            final(self).chars == old(self).chars,
            final(self).pos == old(self).pos + 1
                + run_len(old(self).remaining().drop_first(), |c: char| op_char(c)),
            final(self).pos <= final(self).chars.len(),
            t@ == old(self).remaining().take(
                1 + run_len(old(self).remaining().drop_first(), |c: char| op_char(c)) as int,
            ),
    {
        let ghost rem = old(self).remaining();
        let ghost pred = |c: char| op_char(c);
        proof {
            lemma_run_len_le(rem.drop_first(), pred);
        }
        let mut t = String::new();
        push_char(&mut t, self.chars[self.pos]);
        self.pos = self.pos + 1;
        proof {
            assert(rem[0] == old(self).chars@[old(self).pos as int]);
            assert(t@ =~= rem.take(1));
            assert(self.remaining() =~= rem.drop_first());
        }
        while self.pos < self.chars.len() && is_op_char(self.chars[self.pos])
            invariant
                old(self).pos < self.pos <= self.chars.len(),
                self.chars == old(self).chars,
                t@ == rem.take(self.pos - old(self).pos),
                run_len(rem.drop_first(), pred) == (self.pos - old(self).pos - 1)
                    + run_len(self.remaining(), pred),
            decreases self.chars.len() - self.pos,
        {
            let ghost rem_now = self.remaining();
            let ch = self.chars[self.pos];
            assert(rem_now[0] == ch && pred(ch));
            assert(run_len(rem_now, pred) == 1 + run_len(rem_now.drop_first(), pred));
            push_char(&mut t, ch);
            self.pos = self.pos + 1;
            proof {
                assert(self.remaining() =~= rem_now.drop_first());
                assert(rem_now =~= rem.skip(self.pos - old(self).pos - 1));
                assert(rem[self.pos - old(self).pos - 1] == ch);
                assert(t@ =~= rem.take(self.pos - old(self).pos));
            }
        }
        proof {
            if self.pos < self.chars.len() {
                assert(self.remaining()[0] == self.chars@[self.pos as int]);
                assert(run_len(self.remaining(), pred) == 0);
            } else {
                assert(self.remaining() =~= Seq::<char>::empty());
                assert(run_len(self.remaining(), pred) == 0);
            }
            assert(t@ == rem.take(1 + run_len(rem.drop_first(), pred) as int));
        }
        t
    }

    /// Consumes the maximal run of identifier characters at the cursor.
    #[verifier::loop_isolation(false)]
    fn collect_identifier(&mut self) -> (t: String)
        requires
            old(self).pos < old(self).chars.len(),
            word_char(old(self).chars@[old(self).pos as int]),
        ensures
            final(self).chars == old(self).chars,
            final(self).pos == old(self).pos + 1
                + run_len(old(self).remaining().drop_first(), |c: char| word_char(c)),
            final(self).pos <= final(self).chars.len(),
            t@ == old(self).remaining().take(
                1 + run_len(old(self).remaining().drop_first(), |c: char| word_char(c)) as int,
            ),
    {
        let ghost rem = old(self).remaining();
        let ghost pred = |c: char| word_char(c);
        proof {
            lemma_run_len_le(rem.drop_first(), pred);
        }
        let mut t = String::new();
        push_char(&mut t, self.chars[self.pos]);
        self.pos = self.pos + 1;
        proof {
            assert(rem[0] == old(self).chars@[old(self).pos as int]);
            assert(t@ =~= rem.take(1));
            assert(self.remaining() =~= rem.drop_first());
        }
        while self.pos < self.chars.len() && is_word_char(self.chars[self.pos])
            invariant
                old(self).pos < self.pos <= self.chars.len(),
                self.chars == old(self).chars,
                t@ == rem.take(self.pos - old(self).pos),
                run_len(rem.drop_first(), pred) == (self.pos - old(self).pos - 1)
                    + run_len(self.remaining(), pred),
            decreases self.chars.len() - self.pos,
        {
            let ghost rem_now = self.remaining();
            let ch = self.chars[self.pos];
            assert(rem_now[0] == ch && pred(ch));
            assert(run_len(rem_now, pred) == 1 + run_len(rem_now.drop_first(), pred));
            push_char(&mut t, ch);
            self.pos = self.pos + 1;
            proof {
                assert(self.remaining() =~= rem_now.drop_first());
                assert(rem_now =~= rem.skip(self.pos - old(self).pos - 1));
                assert(rem[self.pos - old(self).pos - 1] == ch);
                assert(t@ =~= rem.take(self.pos - old(self).pos));
            }
        }
        proof {
            if self.pos < self.chars.len() {
                assert(self.remaining()[0] == self.chars@[self.pos as int]);
                assert(run_len(self.remaining(), pred) == 0);
            } else {
                assert(self.remaining() =~= Seq::<char>::empty());
                assert(run_len(self.remaining(), pred) == 0);
            }
            assert(t@ == rem.take(1 + run_len(rem.drop_first(), pred) as int));
        }
        t
    }
}

/// The characters of a string slice, collected one by one.
#[verifier::loop_isolation(false)]
fn chars_of(s: &str) -> (v: Vec<char>)
    ensures
        v@ == s@,
{
    broadcast use vstd::string::next_postcondition;
    broadcast use vstd::string::axiom_spec_iter;

    let mut v: Vec<char> = Vec::new();
    let mut it = s.chars();
    loop
        invariant
            vstd::std_specs::iter::IteratorSpec::obeys_prophetic_iter_laws(&it),
            vstd::std_specs::iter::IteratorSpec::decrease(&it) is Some,
            v@ + vstd::std_specs::iter::IteratorSpec::remaining(&it) == s@,
        decreases vstd::std_specs::iter::IteratorSpec::decrease(&it)->0,
    {
        match it.next() {
            Some(c) => {
                v.push(c);
                assert(v@ + vstd::std_specs::iter::IteratorSpec::remaining(&it) =~= s@);
            },
            None => {
                assert(v@ =~= s@);
                return v;
            },
        }
    }
}

} // verus!
