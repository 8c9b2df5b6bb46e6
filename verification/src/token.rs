//! Tokenization: splitting a text into the ordered sequence of comparable
//! units that the aligner and the formatter work on.
//!
//! A token is a half-open index range into the source text (kept as a
//! `Vec<char>`, one entry per Unicode scalar value) together with a kind tag.
//! Tokens never copy the text they point into.

use vstd::prelude::*;

verus! {

/// The unit of comparison requested by the caller.
#[derive(Clone, Copy, PartialEq, Eq, Structural, Debug)]
pub enum Granularity {
    Character,
    Word,
    Line,
}

/// What a single token stands for.
#[derive(Clone, Copy, PartialEq, Eq, Structural, Debug)]
pub enum TokenKind {
    /// One Unicode scalar value.
    Character,
    /// A maximal run of non-whitespace characters.
    Word,
    /// A maximal run of whitespace characters.
    Whitespace,
    /// A final line with no trailing terminator.
    Line,
    /// A line whose trailing `'\n'` terminator is part of the token.
    LineWithTerminator,
}

/// A borrowed view into the source text: the half-open range
/// `start..end` of character indices, plus a kind tag.
#[derive(Clone, Copy, PartialEq, Eq, Structural, Debug)]
pub struct Token {
    pub start: usize,
    pub end: usize,
    pub kind: TokenKind,
}

/// One input text together with its tokenization.
pub struct TokenSequence {
    /// The text, one `char` per Unicode scalar value.
    pub text: Vec<char>,
    /// The tokens, in order; contiguous index ranges covering the text.
    pub toks: Vec<Token>,
    /// The granularity the tokens were produced for.
    pub granularity: Granularity,
}

/// The text of one token: the slice of the source it points at.
pub open spec fn token_text(text: Seq<char>, t: Token) -> Seq<char> {
    text.subrange(t.start as int, t.end as int)
}

/// The sequence of token texts; the mathematical value the aligner compares.
pub open spec fn token_texts(text: Seq<char>, toks: Seq<Token>) -> Seq<Seq<char>> {
    toks.map(|k: int, t: Token| token_text(text, t))
}

impl TokenSequence {
    /// The model of a token sequence: its tokens' texts, in order.
    pub open spec fn view(&self) -> Seq<Seq<char>> {
        token_texts(self.text@, self.toks@)
    }

    /// Well-formedness: the tokens are nonempty, contiguous index ranges
    /// that cover the whole text in order.
    pub open spec fn wf(&self) -> bool {
        &&& forall|k: int|
            0 <= k < self.toks@.len() ==> (#[trigger] self.toks@[k]).start < self.toks@[k].end
                <= self.text@.len()
        &&& forall|k: int|
            0 < k < self.toks@.len() ==> (#[trigger] self.toks@[k]).start == self.toks@[
                k - 1
            ].end
        &&& self.toks@.len() == 0 ==> self.text@.len() == 0
        &&& self.toks@.len() > 0 ==> self.toks@[0].start == 0 && self.toks@[
            self.toks@.len() - 1
        ].end == self.text@.len()
    }
}

/// The whitespace alphabet: the characters with the Unicode `White_Space`
/// property, written out so the definition is self-contained.
#[verifier::opaque]
pub open spec fn is_ws(c: char) -> bool {
    ||| c == ' '
    ||| c == '\t'
    ||| c == '\n'
    ||| c == '\u{b}'
    ||| c == '\u{c}'
    ||| c == '\r'
    ||| c == '\u{85}'
    ||| c == '\u{a0}'
    ||| c == '\u{1680}'
    ||| ('\u{2000}' <= c && c <= '\u{200a}')
    ||| c == '\u{2028}'
    ||| c == '\u{2029}'
    ||| c == '\u{202f}'
    ||| c == '\u{205f}'
    ||| c == '\u{3000}'
}

/// Whitespace test on one character; the executable twin of `is_ws`.
pub fn is_ws_char(c: char) -> (r: bool)
    ensures
        r == is_ws(c),
{
    proof {
        reveal(is_ws);
    }
    c == ' ' || c == '\t' || c == '\n' || c == '\u{b}' || c == '\u{c}' || c == '\r' || c
        == '\u{85}' || c == '\u{a0}' || c == '\u{1680}' || ('\u{2000}' <= c && c <= '\u{200a}')
        || c == '\u{2028}' || c == '\u{2029}' || c == '\u{202f}' || c == '\u{205f}' || c
        == '\u{3000}'
}

/// How many characters from position `p` on share the whitespace class `cls`.
pub open spec fn run_len(text: Seq<char>, p: int, cls: bool) -> nat
    decreases text.len() - p when p <= text.len()
{
    if p < 0 || p >= text.len() || is_ws(text[p]) != cls {
        0
    } else {
        1 + run_len(text, p + 1, cls)
    }
}

/// How many characters the line starting at position `p` spans, its
/// terminating `'\n'` included.
pub open spec fn line_len(text: Seq<char>, p: int) -> nat
    decreases text.len() - p when p <= text.len()
{
    if p < 0 || p >= text.len() {
        0
    } else if text[p] == '\n' {
        1
    } else {
        1 + line_len(text, p + 1)
    }
}

/// Clamp an endpoint to the text length, so that the recursions below
/// terminate without a side condition.
pub open spec fn clamp_to(q: int, len: int) -> int {
    if q > len {
        len
    } else {
        q
    }
}

/// The word-mode tokens of `text` from position `p` on: alternating maximal
/// runs of non-whitespace (words) and whitespace.
pub open spec fn word_toks_from(text: Seq<char>, p: int) -> Seq<Token>
    decreases text.len() - p when 0 <= p <= text.len()
{
    if p >= text.len() {
        Seq::empty()
    } else {
        let cls = is_ws(text[p]);
        let q = clamp_to(p + run_len(text, p, cls), text.len() as int);
        let kind = if cls {
            TokenKind::Whitespace
        } else {
            TokenKind::Word
        };
        seq![Token { start: p as usize, end: q as usize, kind }] + word_toks_from(
            text,
            if q > p {
                q
            } else {
                p + 1
            },
        )
    }
}

/// The line-mode tokens of `text` from position `p` on: each line keeps its
/// `'\n'` terminator; an unterminated final line is its own token.
pub open spec fn line_toks_from(text: Seq<char>, p: int) -> Seq<Token>
    decreases text.len() - p when 0 <= p <= text.len()
{
    if p >= text.len() {
        Seq::empty()
    } else {
        let q = clamp_to(p + line_len(text, p), text.len() as int);
        let kind = if q > p && text[q - 1] == '\n' {
            TokenKind::LineWithTerminator
        } else {
            TokenKind::Line
        };
        seq![Token { start: p as usize, end: q as usize, kind }] + line_toks_from(
            text,
            if q > p {
                q
            } else {
                p + 1
            },
        )
    }
}

/// The tokens of `text` at granularity `g`. This pins the tokenizer's
/// output exactly: every run on the same input yields these tokens.
pub open spec fn spec_tokenize(text: Seq<char>, g: Granularity) -> Seq<Token> {
    match g {
        Granularity::Character => Seq::new(
            text.len(),
            |k: int|
                Token {
                    start: k as usize,
                    end: (k + 1) as usize,
                    kind: TokenKind::Character,
                },
        ),
        Granularity::Word => word_toks_from(text, 0),
        Granularity::Line => line_toks_from(text, 0),
    }
}

/// Collect the characters of a string slice.
pub fn chars_of(s: &str) -> (r: Vec<char>)
    ensures
        r@ == s@,
{
    let mut v: Vec<char> = Vec::new();
    for c in it: s.chars()
        invariant
            it.seq() == s@,
            v@ == it.seq().take(it.index() as int),
    {
        v.push(c);
    }
    proof {
        assert(v@ =~= s@);
    }
    v
}

#[verifier::rlimit(50)]
fn tokenize_chars(text: &Vec<char>) -> (toks: Vec<Token>)
    ensures
        toks@ == spec_tokenize(text@, Granularity::Character),
        toks_wf(toks@, text@.len() as int),
{
    let n = text.len();
    let mut toks: Vec<Token> = Vec::new();
    let mut k: usize = 0;
    while k < n
        invariant
            k <= n,
            n == text@.len(),
            toks@.len() == k,
            forall|x: int|
                0 <= x < k ==> toks@[x] == (Token {
                    start: x as usize,
                    end: (x + 1) as usize,
                    kind: TokenKind::Character,
                }),
        decreases n - k,
    {
        toks.push(Token { start: k, end: k + 1, kind: TokenKind::Character });
        k = k + 1;
    }
    proof {
        assert(toks@ =~= spec_tokenize(text@, Granularity::Character));
        assert forall|x: int| 0 <= x < toks@.len() implies (#[trigger] toks@[x]).start
            < toks@[x].end && toks@[x].end <= n by {}
        assert forall|x: int| 0 < x < toks@.len() implies (#[trigger] toks@[x]).start == toks@[
            x - 1
        ].end by {}
        assert(toks_wf(toks@, text@.len() as int));
    }
    toks
}

#[verifier::rlimit(50)]
fn tokenize_words(text: &Vec<char>) -> (toks: Vec<Token>)
    ensures
        toks@ == spec_tokenize(text@, Granularity::Word),
        toks_wf(toks@, text@.len() as int),
{
    let n = text.len();
    let mut toks: Vec<Token> = Vec::new();
    let mut p: usize = 0;
    proof {
        assert(toks@ + word_toks_from(text@, 0) =~= word_toks_from(text@, 0));
        assert(toks@ + line_toks_from(text@, 0) =~= line_toks_from(text@, 0));
    }
    while p < n
        invariant
            p <= n,
            n == text@.len(),
            word_toks_from(text@, 0) == toks@ + word_toks_from(text@, p as int),
            toks_wf_upto(toks@, p as int),
        decreases n - p,
    {
        let start = p;
        let cls = is_ws_char(text[p]);
        p = p + 1;
        while p < n && is_ws_char(text[p]) == cls
            invariant
                start < p <= n,
                n == text@.len(),
                cls == is_ws(text@[start as int]),
                run_len(text@, start as int, cls) == (p - start) + run_len(text@, p as int, cls),
            decreases n - p,
        {
            p = p + 1;
        }
        let kind = if cls {
            TokenKind::Whitespace
        } else {
            TokenKind::Word
        };
        proof {
            assert(run_len(text@, p as int, cls) == 0);
            assert(run_len(text@, start as int, cls) == p - start);
            assert(clamp_to(start + run_len(text@, start as int, cls), n as int) == p as int);
            assert(word_toks_from(text@, start as int) =~= seq![
                Token { start: start, end: p, kind },
            ] + word_toks_from(text@, p as int));
        }
        let ghost old_toks = toks@;
        toks.push(Token { start, end: p, kind });
        proof {
            assert(toks@ =~= old_toks + seq![Token { start: start, end: p, kind }]);
            assert(old_toks + word_toks_from(text@, start as int) =~= toks@ + word_toks_from(
                text@,
                p as int,
            ));
        }
    }
    proof {
        assert(toks@ =~= word_toks_from(text@, 0));
    }
    toks
}

#[verifier::rlimit(50)]
fn tokenize_lines(text: &Vec<char>) -> (toks: Vec<Token>)
    ensures
        toks@ == spec_tokenize(text@, Granularity::Line),
        toks_wf(toks@, text@.len() as int),
{
    let n = text.len();
    let mut toks: Vec<Token> = Vec::new();
    let mut p: usize = 0;
    proof {
        assert(toks@ + word_toks_from(text@, 0) =~= word_toks_from(text@, 0));
        assert(toks@ + line_toks_from(text@, 0) =~= line_toks_from(text@, 0));
    }
    while p < n
        invariant
            p <= n,
            n == text@.len(),
            line_toks_from(text@, 0) == toks@ + line_toks_from(text@, p as int),
            toks_wf_upto(toks@, p as int),
        decreases n - p,
    {
        let start = p;
        while p < n && text[p] != '\n'
            invariant
                start <= p <= n,
                n == text@.len(),
                line_len(text@, start as int) == (p - start) + line_len(text@, p as int),
                forall|k: int| start <= k < p ==> text@[k] != '\n',
            decreases n - p,
        {
            p = p + 1;
        }
        let kind;
        if p < n {
            p = p + 1;
            kind = TokenKind::LineWithTerminator;
            proof {
                assert(line_len(text@, (p - 1) as int) == 1);
                assert(line_len(text@, start as int) == p - start);
                assert(text@[p - 1] == '\n');
            }
        } else {
            kind = TokenKind::Line;
            proof {
                assert(line_len(text@, p as int) == 0);
                assert(line_len(text@, start as int) == p - start);
                assert(text@[p - 1] != '\n');
            }
        }
        proof {
            assert(clamp_to(start + line_len(text@, start as int), n as int) == p as int);
            assert(line_toks_from(text@, start as int) =~= seq![
                Token { start: start, end: p, kind },
            ] + line_toks_from(text@, p as int));
        }
        let ghost old_toks = toks@;
        toks.push(Token { start, end: p, kind });
        proof {
            assert(toks@ =~= old_toks + seq![Token { start: start, end: p, kind }]);
            assert(old_toks + line_toks_from(text@, start as int) =~= toks@ + line_toks_from(
                text@,
                p as int,
            ));
        }
    }
    proof {
        assert(toks@ =~= line_toks_from(text@, 0));
    }
    toks
}

/// Well-formedness of a token list over a text of length `len`, the list
/// covering exactly `0..upto`.
pub open spec fn toks_wf_upto(toks: Seq<Token>, upto: int) -> bool {
    &&& forall|k: int| 0 <= k < toks.len() ==> (#[trigger] toks[k]).start < toks[k].end
    &&& forall|k: int| 0 <= k < toks.len() ==> (#[trigger] toks[k]).end <= upto
    &&& forall|k: int| 0 < k < toks.len() ==> (#[trigger] toks[k]).start == toks[k - 1].end
    &&& toks.len() == 0 ==> upto == 0
    &&& toks.len() > 0 ==> toks[0].start == 0 && toks[toks.len() - 1].end == upto
}

/// Well-formedness of a token list that covers a whole text of length `len`.
pub open spec fn toks_wf(toks: Seq<Token>, len: int) -> bool {
    toks_wf_upto(toks, len)
}

/// Split a text into tokens at the requested granularity.
///
/// The token list is pinned to `spec_tokenize`, so identical inputs always
/// tokenize identically, and it is well formed: nonempty contiguous ranges
/// covering the whole text in order.
pub fn tokenize(text: &str, g: Granularity) -> (ts: TokenSequence)
    ensures
        ts.text@ == text@,
        ts.toks@ == spec_tokenize(text@, g),
        ts.granularity == g,
        ts.wf(),
{
    let chars = chars_of(text);
    let toks = match g {
        Granularity::Character => tokenize_chars(&chars),
        Granularity::Word => tokenize_words(&chars),
        Granularity::Line => tokenize_lines(&chars),
    };
    let ts = TokenSequence { text: chars, toks, granularity: g };
    proof {
        assert(toks_wf(ts.toks@, ts.text@.len() as int));
        assert(ts.wf());
    }
    ts
}

} // verus!
