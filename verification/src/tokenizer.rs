//! The quote-aware tokenizer: splits one input line into argument
//! tokens, honoring single quotes (fully literal), double quotes
//! (backslash escapes only `\` and `"`), and unquoted backslash
//! escapes. An unterminated quote is accepted permissively: whatever
//! was accumulated is flushed at end of input.

use vstd::prelude::*;
use vstd::string::*;
use crate::text::join_spaces;

verus! {

/// Which kind of quotation the tokenizer is currently inside.
pub enum QuoteState {
    Unquoted,
    SingleQuoted,
    DoubleQuoted,
}

/// The whole state of the tokenizer between two characters.
pub ghost struct LexState {
    pub quote: QuoteState,
    /// A backslash has been read and not yet resolved against the
    /// character that follows it.
    pub escaped: bool,
    /// The token accumulated so far.
    pub cur: Seq<char>,
    /// The tokens already emitted.
    pub toks: Seq<Seq<char>>,
}

/// Token separators outside quotes.
pub open spec fn is_space_char(c: char) -> bool {
    c == ' ' || c == '\t'
}

pub open spec fn lex_init() -> LexState {
    LexState { quote: QuoteState::Unquoted, escaped: false, cur: Seq::empty(), toks: Seq::empty() }
}

/// Ends the current token if it is non-empty; consecutive separators
/// and empty quoted segments standing alone thus emit nothing.
pub open spec fn lex_flush(st: LexState) -> LexState {
    if st.cur.len() > 0 {
        LexState { quote: st.quote, escaped: st.escaped, cur: Seq::empty(), toks: st.toks.push(st.cur) }
    } else {
        st
    }
}

/// One transition of the quoting state machine.
pub open spec fn lex_step(st: LexState, c: char) -> LexState {
    if st.escaped {
        match st.quote {
            QuoteState::Unquoted => LexState {
                quote: st.quote,
                escaped: false,
                cur: st.cur.push(c),
                toks: st.toks,
            },
            QuoteState::DoubleQuoted => if c == '\\' || c == '"' {
                LexState { quote: st.quote, escaped: false, cur: st.cur.push(c), toks: st.toks }
            } else {
                LexState {
                    quote: st.quote,
                    escaped: false,
                    cur: st.cur.push('\\').push(c),
                    toks: st.toks,
                }
            },
            // A backslash is never pending inside single quotes; the
            // arm only completes the match.
            QuoteState::SingleQuoted => LexState {
                quote: st.quote,
                escaped: false,
                cur: st.cur.push(c),
                toks: st.toks,
            },
        }
    } else {
        match st.quote {
            QuoteState::Unquoted => if c == '\'' {
                LexState { quote: QuoteState::SingleQuoted, escaped: false, cur: st.cur, toks: st.toks }
            } else if c == '"' {
                LexState { quote: QuoteState::DoubleQuoted, escaped: false, cur: st.cur, toks: st.toks }
            } else if c == '\\' {
                LexState { quote: st.quote, escaped: true, cur: st.cur, toks: st.toks }
            } else if is_space_char(c) {
                lex_flush(st)
            } else {
                LexState { quote: st.quote, escaped: false, cur: st.cur.push(c), toks: st.toks }
            },
            QuoteState::SingleQuoted => if c == '\'' {
                LexState { quote: QuoteState::Unquoted, escaped: false, cur: st.cur, toks: st.toks }
            } else {
                LexState { quote: st.quote, escaped: false, cur: st.cur.push(c), toks: st.toks }
            },
            QuoteState::DoubleQuoted => if c == '"' {
                LexState { quote: QuoteState::Unquoted, escaped: false, cur: st.cur, toks: st.toks }
            } else if c == '\\' {
                LexState { quote: st.quote, escaped: true, cur: st.cur, toks: st.toks }
            } else {
                LexState { quote: st.quote, escaped: false, cur: st.cur.push(c), toks: st.toks }
            },
        }
    }
}

/// Runs the state machine over `s` starting from `st`.
pub open spec fn lex_run_from(st: LexState, s: Seq<char>) -> LexState
    decreases s.len(),
{
    if s.len() == 0 {
        st
    } else {
        lex_step(lex_run_from(st, s.drop_last()), s.last())
    }
}

pub open spec fn lex_run(s: Seq<char>) -> LexState {
    lex_run_from(lex_init(), s)
}

/// The tokens of one input line: run the machine over the whole line,
/// then flush whatever is left (permissive handling of an unterminated
/// quote or a trailing backslash).
pub open spec fn tokenize_spec(s: Seq<char>) -> Seq<Seq<char>> {
    lex_flush(lex_run(s)).toks
}

/// Splits one input line into argument tokens.
pub fn parse_args(s: &str) -> (tokens: Vec<String>)
    ensures
        tokens.deep_view() == tokenize_spec(s@),
{
    let n = s.unicode_len();
    let mut quote = QuoteState::Unquoted;
    let mut escaped = false;
    let mut cur = String::new();
    let mut toks: Vec<String> = Vec::new();
    let mut i: usize = 0;
    while i < n
        invariant
            n == s@.len(),
            i <= n,
            lex_run(s@.take(i as int)).quote == quote,
            lex_run(s@.take(i as int)).escaped == escaped,
            lex_run(s@.take(i as int)).cur == cur@,
            lex_run(s@.take(i as int)).toks == toks.deep_view(),
        decreases n - i,
    {
        let c = s.get_char(i);
        proof {
            assert(s@.take(i as int + 1).drop_last() =~= s@.take(i as int));
            assert(s@.take(i as int + 1).last() == c);
        }
        let ghost prev = lex_run(s@.take(i as int));
        let ghost next = lex_step(prev, c);
        if escaped {
            match quote {
                QuoteState::Unquoted => {
                    crate::text::push_char(&mut cur, c);
                    escaped = false;
                },
                QuoteState::DoubleQuoted => {
                    if c == '\\' || c == '"' {
                        crate::text::push_char(&mut cur, c);
                    } else {
                        crate::text::push_char(&mut cur, '\\');
                        crate::text::push_char(&mut cur, c);
                    }
                    escaped = false;
                },
                QuoteState::SingleQuoted => {
                    crate::text::push_char(&mut cur, c);
                    escaped = false;
                },
            }
        } else {
            match quote {
                QuoteState::Unquoted => {
                    if c == '\'' {
                        quote = QuoteState::SingleQuoted;
                    } else if c == '"' {
                        quote = QuoteState::DoubleQuoted;
                    } else if c == '\\' {
                        escaped = true;
                    } else if c == ' ' || c == '\t' {
                        if !cur.as_str().is_empty() {
                            let ghost old_dv = toks.deep_view();
                            toks.push(cur);
                            cur = String::new();
                            proof {
                                assert(toks.deep_view() =~= old_dv.push(prev.cur));
                            }
                        }
                    } else {
                        crate::text::push_char(&mut cur, c);
                    }
                },
                QuoteState::SingleQuoted => {
                    if c == '\'' {
                        quote = QuoteState::Unquoted;
                    } else {
                        crate::text::push_char(&mut cur, c);
                    }
                },
                QuoteState::DoubleQuoted => {
                    if c == '"' {
                        quote = QuoteState::Unquoted;
                    } else if c == '\\' {
                        escaped = true;
                    } else {
                        crate::text::push_char(&mut cur, c);
                    }
                },
            }
        }
        proof {
            assert(lex_run(s@.take(i as int + 1)) == next);
        }
        i += 1;
    }
    proof {
        assert(s@.take(n as int) =~= s@);
    }
    if !cur.as_str().is_empty() {
        let ghost old_dv = toks.deep_view();
        toks.push(cur);
        proof {
            assert(toks.deep_view() =~= old_dv.push(lex_run(s@).cur));
        }
    }
    toks
}

/// A character with no special meaning to the tokenizer: neither a
/// separator, nor a quote, nor a backslash.
pub open spec fn is_plain_char(c: char) -> bool {
    !is_space_char(c) && c != '\'' && c != '"' && c != '\\'
}

/// A non-empty token all of whose characters are plain.
pub open spec fn is_plain_token(t: Seq<char>) -> bool {
    t.len() > 0 && forall|j: int| 0 <= j < t.len() ==> is_plain_char(t[j])
}

/// Accumulator of plain whitespace splitting: the token being read and
/// the tokens already emitted.
pub ghost struct SplitAcc {
    pub cur: Seq<char>,
    pub toks: Seq<Seq<char>>,
}

/// One step of plain whitespace splitting: a separator ends the
/// current token if it is non-empty; any other character extends it.
pub open spec fn ws_step(acc: SplitAcc, c: char) -> SplitAcc {
    if is_space_char(c) {
        if acc.cur.len() > 0 {
            SplitAcc { cur: Seq::empty(), toks: acc.toks.push(acc.cur) }
        } else {
            acc
        }
    } else {
        SplitAcc { cur: acc.cur.push(c), toks: acc.toks }
    }
}

pub open spec fn ws_run(s: Seq<char>) -> SplitAcc
    decreases s.len(),
{
    if s.len() == 0 {
        SplitAcc { cur: Seq::empty(), toks: Seq::empty() }
    } else {
        ws_step(ws_run(s.drop_last()), s.last())
    }
}

/// The maximal non-empty runs of non-separator characters of `s`.
pub open spec fn whitespace_split(s: Seq<char>) -> Seq<Seq<char>> {
    let acc = ws_run(s);
    if acc.cur.len() > 0 {
        acc.toks.push(acc.cur)
    } else {
        acc.toks
    }
}

proof fn lemma_lex_run_plain_input(s: Seq<char>)
    requires
        forall|i: int| 0 <= i < s.len() ==> s[i] != '\'' && s[i] != '"' && s[i] != '\\',
    ensures
        lex_run(s).quote == QuoteState::Unquoted,
        !lex_run(s).escaped,
        lex_run(s).cur == ws_run(s).cur,
        lex_run(s).toks == ws_run(s).toks,
    decreases s.len(),
{
    if s.len() > 0 {
        lemma_lex_run_plain_input(s.drop_last());
    }
}

/// On an input with no quote and no backslash characters, tokenization
/// is exactly splitting on runs of whitespace.
pub proof fn lemma_tokenize_plain_input(s: Seq<char>)
    requires
        forall|i: int| 0 <= i < s.len() ==> s[i] != '\'' && s[i] != '"' && s[i] != '\\',
    ensures
        tokenize_spec(s) == whitespace_split(s),
{
    lemma_lex_run_plain_input(s);
}

/// Running the machine over a concatenation is running it over the
/// pieces in turn.
proof fn lemma_lex_run_from_concat(st: LexState, a: Seq<char>, b: Seq<char>)
    ensures
        lex_run_from(st, a + b) == lex_run_from(lex_run_from(st, a), b),
    decreases b.len(),
{
    if b.len() == 0 {
        assert(a + b =~= a);
    } else {
        lemma_lex_run_from_concat(st, a, b.drop_last());
        assert((a + b).drop_last() =~= a + b.drop_last());
        assert((a + b).last() == b.last());
    }
}

/// From an unquoted, unescaped state, a plain token only extends the
/// current token.
proof fn lemma_lex_run_from_plain_token(st: LexState, t: Seq<char>)
    requires
        st.quote == QuoteState::Unquoted,
        !st.escaped,
        forall|j: int| 0 <= j < t.len() ==> is_plain_char(t[j]),
    ensures
        lex_run_from(st, t) == (LexState {
            quote: QuoteState::Unquoted,
            escaped: false,
            cur: st.cur + t,
            toks: st.toks,
        }),
    decreases t.len(),
{
    if t.len() == 0 {
        assert(st.cur + t =~= st.cur);
        assert(st == (LexState {
            quote: QuoteState::Unquoted,
            escaped: false,
            cur: st.cur + t,
            toks: st.toks,
        }));
    } else {
        lemma_lex_run_from_plain_token(st, t.drop_last());
        assert(is_plain_char(t.last()));
        assert((st.cur + t.drop_last()).push(t.last()) =~= st.cur + t);
    }
}

proof fn lemma_retokenize_joined_from(toks0: Seq<Seq<char>>, ts: Seq<Seq<char>>)
    requires
        ts.len() > 0,
        forall|i: int| 0 <= i < ts.len() ==> is_plain_token(ts[i]),
    ensures
        lex_run_from(
            LexState {
                quote: QuoteState::Unquoted,
                escaped: false,
                cur: Seq::empty(),
                toks: toks0,
            },
            join_spaces(ts),
        ) == (LexState {
            quote: QuoteState::Unquoted,
            escaped: false,
            cur: ts.last(),
            toks: toks0 + ts.drop_last(),
        }),
    decreases ts.len(),
{
    let st0 = LexState {
        quote: QuoteState::Unquoted,
        escaped: false,
        cur: Seq::empty(),
        toks: toks0,
    };
    if ts.len() == 1 {
        lemma_lex_run_from_plain_token(st0, ts[0]);
        assert(Seq::empty() + ts[0] =~= ts.last());
        assert(toks0 + ts.drop_last() =~= toks0);
    } else {
        lemma_retokenize_joined_from(toks0, ts.drop_last());
        let mid = lex_run_from(st0, join_spaces(ts.drop_last()));
        lemma_lex_run_from_concat(st0, join_spaces(ts.drop_last()), seq![' '] + ts.last());
        assert(join_spaces(ts.drop_last()) + (seq![' '] + ts.last()) =~= join_spaces(ts));
        lemma_lex_run_from_concat(mid, seq![' '], ts.last());
        assert((seq![' ']).len() == 1);
        assert((seq![' ']).last() == ' ');
        assert((seq![' ']).drop_last() =~= Seq::<char>::empty());
        assert(lex_run_from(mid, Seq::<char>::empty()) == mid);
        assert(lex_run_from(mid, seq![' ']) == lex_step(mid, ' '));
        let flushed = lex_step(mid, ' ');
        assert(ts.drop_last().last().len() > 0);
        assert(flushed == (LexState {
            quote: QuoteState::Unquoted,
            escaped: false,
            cur: Seq::empty(),
            toks: (toks0 + ts.drop_last().drop_last()).push(ts.drop_last().last()),
        }));
        assert((toks0 + ts.drop_last().drop_last()).push(ts.drop_last().last()) =~= toks0
            + ts.drop_last());
        lemma_lex_run_from_plain_token(flushed, ts.last());
        assert(Seq::empty() + ts.last() =~= ts.last());
    }
}

/// Round trip: joining non-empty tokens of plain characters with single
/// spaces and tokenizing the result yields the tokens again.
pub proof fn lemma_retokenize_joined(ts: Seq<Seq<char>>)
    requires
        forall|i: int| 0 <= i < ts.len() ==> is_plain_token(ts[i]),
    ensures
        tokenize_spec(join_spaces(ts)) == ts,
{
    if ts.len() == 0 {
        assert(tokenize_spec(join_spaces(ts)) =~= ts);
    } else {
        lemma_retokenize_joined_from(Seq::empty(), ts);
        assert(ts.last().len() > 0);
        assert((Seq::empty() + ts.drop_last()).push(ts.last()) =~= ts);
    }
}

} // verus!
