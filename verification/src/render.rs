//! The diff formatter: renders an edit script as a single piece of text.
//!
//! Character and word granularities render inline: equal runs appear as
//! plain text, deleted runs are wrapped in the removed marker `[-`...`-]`
//! sourced from the expected tokens, inserted runs in the added marker
//! `{+`...`+}` sourced from the actual tokens. A Delete op immediately
//! followed by an Insert op thus reads as one paired changed region. With
//! whitespace highlighting on, a whitespace-only token inside a removed or
//! added run is additionally wrapped in `~`...`~`, so purely whitespace
//! edits are distinguishable from content edits.
//!
//! Line granularity renders line by line: each line is prefixed with `  `
//! (unchanged), `- ` (removed) or `+ ` (added), optionally preceded by its
//! 1-based line number in its own sequence (the expected one for unchanged
//! and removed lines, the actual one for added lines). A final line without
//! a terminator is printed with one. With a context radius set, an
//! unchanged run is collapsed to at most that many lines adjacent to each
//! neighbouring change, the elided middle standing as a `...` line; runs at
//! the very start or end of the script keep context only on the side that
//! touches a change.
//!
//! Every rendering is pinned to `spec_render`, so identical script, tokens
//! and options give byte-identical output.

use vstd::prelude::*;

use crate::script::EditOp;
use crate::script::op_next_i;
use crate::script::op_next_j;
use crate::script::op_ok;
use crate::script::ops_from;
use crate::script::script_ok;
use crate::token::Granularity;
use crate::token::Token;
use crate::token::TokenSequence;
use crate::token::is_ws;
use crate::token::is_ws_char;
use crate::token::token_text;

verus! {

/// Options of the formatter. Inline granularities read
/// `highlight_whitespace`; line granularity reads the other two.
#[derive(Clone, Copy, Debug)]
pub struct FormatOptions {
    /// Mark whitespace-only tokens inside changed runs distinctly.
    pub highlight_whitespace: bool,
    /// Prefix each rendered line with its 1-based line number.
    pub display_line_numbers: bool,
    /// Collapse unchanged line runs, keeping this many context lines
    /// next to each change; `None` renders everything.
    pub context_radius: Option<usize>,
}

/// The opening marker of a removed run.
pub open spec fn del_open() -> Seq<char> {
    seq!['[', '-']
}

/// The closing marker of a removed run.
pub open spec fn del_close() -> Seq<char> {
    seq!['-', ']']
}

/// The opening marker of an added run.
pub open spec fn ins_open() -> Seq<char> {
    seq!['{', '+']
}

/// The closing marker of an added run.
pub open spec fn ins_close() -> Seq<char> {
    seq!['+', '}']
}

/// The marker wrapped around a whitespace-only token in a changed run.
pub open spec fn ws_mark() -> Seq<char> {
    seq!['~']
}

/// The line standing for elided unchanged lines.
pub open spec fn elision_line() -> Seq<char> {
    seq!['.', '.', '.', '\n']
}

/// A token text consisting of whitespace alone.
pub open spec fn ws_only(s: Seq<char>) -> bool {
    forall|k: int| 0 <= k < s.len() ==> is_ws(s[k])
}

/// The tokens `k0..k1` of `v`, concatenated.
pub open spec fn concat_range(v: Seq<Seq<char>>, k0: int, k1: int) -> Seq<char>
    decreases k1 - k0 when k0 <= k1
{
    if k0 >= k1 {
        Seq::empty()
    } else {
        v[k0] + concat_range(v, k0 + 1, k1)
    }
}

/// One token text as it appears in a changed run: wrapped in the
/// whitespace marker when highlighting is on and it is whitespace alone.
pub open spec fn marked_tok(s: Seq<char>, hw: bool) -> Seq<char> {
    if hw && ws_only(s) {
        ws_mark() + s + ws_mark()
    } else {
        s
    }
}

/// The tokens `k0..k1` of `v`, each whitespace-only token wrapped in the
/// whitespace marker when `hw` is set.
pub open spec fn marked_range(v: Seq<Seq<char>>, k0: int, k1: int, hw: bool) -> Seq<char>
    decreases k1 - k0 when k0 <= k1
{
    if k0 >= k1 {
        Seq::empty()
    } else {
        marked_tok(v[k0], hw) + marked_range(v, k0 + 1, k1, hw)
    }
}

/// One op rendered inline.
pub open spec fn render_inline_op(
    op: EditOp,
    ev: Seq<Seq<char>>,
    av: Seq<Seq<char>>,
    hw: bool,
) -> Seq<char> {
    match op {
        EditOp::Equal { i_start, i_end, .. } => concat_range(ev, i_start as int, i_end as int),
        EditOp::Delete { i_start, i_end } => del_open() + marked_range(
            ev,
            i_start as int,
            i_end as int,
            hw,
        ) + del_close(),
        EditOp::Insert { j_start, j_end } => ins_open() + marked_range(
            av,
            j_start as int,
            j_end as int,
            hw,
        ) + ins_close(),
    }
}

/// A whole script rendered inline.
pub open spec fn render_inline(
    ops: Seq<EditOp>,
    ev: Seq<Seq<char>>,
    av: Seq<Seq<char>>,
    hw: bool,
) -> Seq<char>
    decreases ops.len(),
{
    if ops.len() == 0 {
        Seq::empty()
    } else {
        render_inline_op(ops[0], ev, av, hw) + render_inline(ops.drop_first(), ev, av, hw)
    }
}

/// The decimal digit `d` as a character.
pub open spec fn digit_char(d: nat) -> char {
    if d == 0 {
        '0'
    } else if d == 1 {
        '1'
    } else if d == 2 {
        '2'
    } else if d == 3 {
        '3'
    } else if d == 4 {
        '4'
    } else if d == 5 {
        '5'
    } else if d == 6 {
        '6'
    } else if d == 7 {
        '7'
    } else if d == 8 {
        '8'
    } else {
        '9'
    }
}

/// The decimal digits of `x`, most significant first.
pub open spec fn dec_chars(x: nat) -> Seq<char>
    decreases x,
{
    if x < 10 {
        seq![digit_char(x)]
    } else {
        dec_chars(x / 10).push(digit_char(x % 10))
    }
}

/// The number column of one rendered line: the 1-based line number and a
/// space, or nothing when numbers are off.
pub open spec fn num_prefix(numbers: bool, num: int) -> Seq<char> {
    if numbers {
        dec_chars(num as nat) + seq![' ']
    } else {
        Seq::empty()
    }
}

/// A line token as printed: itself, terminated if it was not.
pub open spec fn line_out(tok: Seq<char>) -> Seq<char> {
    if tok.len() > 0 && tok[tok.len() - 1] == '\n' {
        tok
    } else {
        tok + seq!['\n']
    }
}

/// One rendered line: number column, change prefix, line text.
pub open spec fn render_line(
    prefix: Seq<char>,
    numbers: bool,
    num: int,
    tok: Seq<char>,
) -> Seq<char> {
    num_prefix(numbers, num) + prefix + line_out(tok)
}

/// The lines `k0..k1` of `v`, each rendered with `prefix` and its 1-based
/// number.
pub open spec fn render_lines_range(
    v: Seq<Seq<char>>,
    k0: int,
    k1: int,
    numbers: bool,
    prefix: Seq<char>,
) -> Seq<char>
    decreases k1 - k0 when k0 <= k1
{
    if k0 >= k1 {
        Seq::empty()
    } else {
        render_line(prefix, numbers, k0 + 1, v[k0]) + render_lines_range(
            v,
            k0 + 1,
            k1,
            numbers,
            prefix,
        )
    }
}

/// The prefix of an unchanged line.
pub open spec fn eq_prefix() -> Seq<char> {
    seq![' ', ' ']
}

/// The prefix of a removed line.
pub open spec fn del_prefix() -> Seq<char> {
    seq!['-', ' ']
}

/// The prefix of an added line.
pub open spec fn ins_prefix() -> Seq<char> {
    seq!['+', ' ']
}

/// An unchanged run of lines, possibly collapsed to its context edges.
/// The first run of the script keeps no leading context, the last keeps
/// no trailing context: there is no change on that side to frame.
pub open spec fn equal_block(
    ev: Seq<Seq<char>>,
    i0: int,
    i1: int,
    numbers: bool,
    ctx: Option<usize>,
    first: bool,
    last: bool,
) -> Seq<char> {
    match ctx {
        Option::None => render_lines_range(ev, i0, i1, numbers, eq_prefix()),
        Option::Some(r) => {
            let kb = if first {
                0
            } else {
                r as int
            };
            let ka = if last {
                0
            } else {
                r as int
            };
            if i1 - i0 > kb + ka {
                render_lines_range(ev, i0, i0 + kb, numbers, eq_prefix()) + elision_line()
                    + render_lines_range(ev, i1 - ka, i1, numbers, eq_prefix())
            } else {
                render_lines_range(ev, i0, i1, numbers, eq_prefix())
            }
        },
    }
}

/// One op rendered in line mode.
pub open spec fn render_line_op(
    op: EditOp,
    ev: Seq<Seq<char>>,
    av: Seq<Seq<char>>,
    numbers: bool,
    ctx: Option<usize>,
    first: bool,
    last: bool,
) -> Seq<char> {
    match op {
        EditOp::Equal { i_start, i_end, .. } => equal_block(
            ev,
            i_start as int,
            i_end as int,
            numbers,
            ctx,
            first,
            last,
        ),
        EditOp::Delete { i_start, i_end } => render_lines_range(
            ev,
            i_start as int,
            i_end as int,
            numbers,
            del_prefix(),
        ),
        EditOp::Insert { j_start, j_end } => render_lines_range(
            av,
            j_start as int,
            j_end as int,
            numbers,
            ins_prefix(),
        ),
    }
}

/// A whole script rendered in line mode; `first` says whether the head op
/// opens the script.
pub open spec fn render_linemode(
    ops: Seq<EditOp>,
    ev: Seq<Seq<char>>,
    av: Seq<Seq<char>>,
    numbers: bool,
    ctx: Option<usize>,
    first: bool,
) -> Seq<char>
    decreases ops.len(),
{
    if ops.len() == 0 {
        Seq::empty()
    } else {
        render_line_op(ops[0], ev, av, numbers, ctx, first, ops.len() == 1) + render_linemode(
            ops.drop_first(),
            ev,
            av,
            numbers,
            ctx,
            false,
        )
    }
}

/// What the formatter prints for a script over the token views `ev` and
/// `av` at granularity `g`.
pub open spec fn spec_render(
    ops: Seq<EditOp>,
    ev: Seq<Seq<char>>,
    av: Seq<Seq<char>>,
    g: Granularity,
    opts: FormatOptions,
) -> Seq<char> {
    if g is Line {
        render_linemode(ops, ev, av, opts.display_line_numbers, opts.context_radius, true)
    } else {
        render_inline(ops, ev, av, opts.highlight_whitespace)
    }
}

/// Concatenation of character sequences is associative.
proof fn lemma_assoc(x: Seq<char>, y: Seq<char>, z: Seq<char>)
    ensures
        (x + y) + z == x + (y + z),
{
    assert((x + y) + z =~= x + (y + z));
}

/// Append the text of one token.
fn push_token(out: &mut Vec<char>, text: &Vec<char>, t: Token)
    requires
        t.start <= t.end <= text@.len(),
    ensures
        final (out)@ == old(out)@ + token_text(text@, t),
{
    let ghost orig = out@;
    let mut k = t.start;
    while k < t.end
        invariant
            t.start <= k <= t.end <= text@.len(),
            out@ == orig + text@.subrange(t.start as int, k as int),
        decreases t.end - k,
    {
        out.push(text[k]);
        k = k + 1;
        proof {
            assert(out@ =~= orig + text@.subrange(t.start as int, k as int));
        }
    }
    proof {
        assert(out@ =~= orig + token_text(text@, t));
    }
}

/// Whether a token's text is whitespace alone.
fn ws_only_tok(text: &Vec<char>, t: Token) -> (r: bool)
    requires
        t.start <= t.end <= text@.len(),
    ensures
        r == ws_only(token_text(text@, t)),
{
    let mut k = t.start;
    while k < t.end
        invariant
            t.start <= k <= t.end <= text@.len(),
            forall|x: int| t.start <= x < k ==> is_ws(#[trigger] text@[x]),
        decreases t.end - k,
    {
        if !is_ws_char(text[k]) {
            proof {
                assert(!is_ws(token_text(text@, t)[k - t.start]));
            }
            return false;
        }
        k = k + 1;
    }
    proof {
        assert forall|x: int| 0 <= x < token_text(text@, t).len() implies is_ws(
            #[trigger] token_text(text@, t)[x],
        ) by {
            assert(is_ws(text@[t.start + x]));
        }
    }
    true
}

/// One decimal digit as a character.
fn digit_of(d: usize) -> (c: char)
    requires
        d < 10,
    ensures
        c == digit_char(d as nat),
{
    match d {
        0 => '0',
        1 => '1',
        2 => '2',
        3 => '3',
        4 => '4',
        5 => '5',
        6 => '6',
        7 => '7',
        8 => '8',
        _ => '9',
    }
}

/// Append the decimal digits of `x`.
fn push_dec(out: &mut Vec<char>, x: usize)
    ensures
        final (out)@ == old(out)@ + dec_chars(x as nat),
    decreases x,
{
    if x < 10 {
        out.push(digit_of(x));
        proof {
            assert(out@ =~= old(out)@ + dec_chars(x as nat));
        }
    } else {
        push_dec(out, x / 10);
        out.push(digit_of(x % 10));
        proof {
            assert(out@ =~= old(out)@ + dec_chars(x as nat));
        }
    }
}

/// Append one rendered line: number column, prefix, line text,
/// terminator if the line had none.
fn push_line(
    out: &mut Vec<char>,
    text: &Vec<char>,
    t: Token,
    numbers: bool,
    num: usize,
    p0: char,
    p1: char,
)
    requires
        t.start <= t.end <= text@.len(),
    ensures
        final (out)@ == old(out)@ + render_line(
            seq![p0, p1],
            numbers,
            num as int,
            token_text(text@, t),
        ),
{
    let ghost orig = out@;
    if numbers {
        push_dec(out, num);
        out.push(' ');
        proof {
            assert(out@ =~= orig + num_prefix(numbers, num as int));
        }
    }
    out.push(p0);
    out.push(p1);
    proof {
        assert(out@ =~= orig + num_prefix(numbers, num as int) + seq![p0, p1]);
    }
    let ghost mid = out@;
    push_token(out, text, t);
    let terminated = t.end > t.start && text[t.end - 1] == '\n';
    if !terminated {
        out.push('\n');
    }
    proof {
        let tok = token_text(text@, t);
        if terminated {
            assert(tok.len() > 0 && tok[tok.len() - 1] == '\n');
            assert(out@ == mid + tok);
        } else {
            assert(out@ =~= mid + (tok + seq!['\n']));
        }
        assert(out@ =~= orig + render_line(seq![p0, p1], numbers, num as int, tok));
    }
}

/// Append the rendered lines `k0..k1` of a token sequence.
fn push_lines_range(
    out: &mut Vec<char>,
    ts: &TokenSequence,
    k0: usize,
    k1: usize,
    numbers: bool,
    p0: char,
    p1: char,
)
    requires
        ts.wf(),
        k0 <= k1 <= ts.toks@.len(),
    ensures
        final (out)@ == old(out)@ + render_lines_range(
            ts@,
            k0 as int,
            k1 as int,
            numbers,
            seq![p0, p1],
        ),
{
    let ghost orig = out@;
    let ghost v = ts@;
    let mut k = k0;
    proof {
        assert(orig + render_lines_range(v, k0 as int, k1 as int, numbers, seq![p0, p1]) =~= out@
            + render_lines_range(v, k as int, k1 as int, numbers, seq![p0, p1]));
    }
    while k < k1
        invariant
            k0 <= k <= k1 <= ts.toks@.len(),
            ts.wf(),
            v == ts@,
            orig + render_lines_range(v, k0 as int, k1 as int, numbers, seq![p0, p1]) == out@
                + render_lines_range(v, k as int, k1 as int, numbers, seq![p0, p1]),
        decreases k1 - k,
    {
        let ghost before = out@;
        proof {
            assert(v[k as int] == token_text(ts.text@, ts.toks@[k as int]));
        }
        push_line(out, &ts.text, ts.toks[k], numbers, k + 1, p0, p1);
        k = k + 1;
        proof {
            lemma_assoc(
                before,
                render_line(seq![p0, p1], numbers, k as int, v[k - 1]),
                render_lines_range(v, k as int, k1 as int, numbers, seq![p0, p1]),
            );
        }
    }
}

/// Append the tokens `k0..k1` of a token sequence as plain text.
fn push_concat_range(out: &mut Vec<char>, ts: &TokenSequence, k0: usize, k1: usize)
    requires
        ts.wf(),
        k0 <= k1 <= ts.toks@.len(),
    ensures
        final (out)@ == old(out)@ + concat_range(ts@, k0 as int, k1 as int),
{
    let ghost orig = out@;
    let ghost v = ts@;
    let mut k = k0;
    proof {
        assert(orig + concat_range(v, k0 as int, k1 as int) =~= out@ + concat_range(
            v,
            k as int,
            k1 as int,
        ));
    }
    while k < k1
        invariant
            k0 <= k <= k1 <= ts.toks@.len(),
            ts.wf(),
            v == ts@,
            orig + concat_range(v, k0 as int, k1 as int) == out@ + concat_range(
                v,
                k as int,
                k1 as int,
            ),
        decreases k1 - k,
    {
        let ghost before = out@;
        proof {
            assert(v[k as int] == token_text(ts.text@, ts.toks@[k as int]));
        }
        push_token(out, &ts.text, ts.toks[k]);
        k = k + 1;
        proof {
            lemma_assoc(before, v[k - 1], concat_range(v, k as int, k1 as int));
        }
    }
}

/// Append one token of a changed run, marked if called for.
fn push_marked_token(out: &mut Vec<char>, text: &Vec<char>, t: Token, hw: bool)
    requires
        t.start <= t.end <= text@.len(),
    ensures
        final (out)@ == old(out)@ + marked_tok(token_text(text@, t), hw),
{
    let ghost orig = out@;
    if hw && ws_only_tok(text, t) {
        out.push('~');
        push_token(out, text, t);
        out.push('~');
        proof {
            assert(out@ =~= orig + (ws_mark() + token_text(text@, t) + ws_mark()));
        }
    } else {
        push_token(out, text, t);
    }
}

/// One step of the marked-range loop: folding the next token into the
/// rendered prefix.
proof fn lemma_marked_step(
    orig: Seq<char>,
    before: Seq<char>,
    v: Seq<Seq<char>>,
    k0: int,
    k: int,
    k1: int,
    hw: bool,
)
    requires
        k0 <= k < k1 <= v.len(),
        orig + marked_range(v, k0, k1, hw) == before + marked_range(v, k, k1, hw),
    ensures
        orig + marked_range(v, k0, k1, hw) == (before + marked_tok(v[k], hw)) + marked_range(
            v,
            k + 1,
            k1,
            hw,
        ),
{
    assert(marked_range(v, k, k1, hw) == marked_tok(v[k], hw) + marked_range(v, k + 1, k1, hw));
    lemma_assoc(before, marked_tok(v[k], hw), marked_range(v, k + 1, k1, hw));
}

/// Append the tokens `k0..k1` of a token sequence, marking whitespace-only
/// tokens when asked to.
#[verifier::spinoff_prover]
fn push_marked_range(out: &mut Vec<char>, ts: &TokenSequence, k0: usize, k1: usize, hw: bool)
    requires
        ts.wf(),
        k0 <= k1 <= ts.toks@.len(),
    ensures
        final (out)@ == old(out)@ + marked_range(ts@, k0 as int, k1 as int, hw),
{
    let ghost orig = out@;
    let ghost v = ts@;
    let mut k = k0;
    proof {
        assert(orig + marked_range(v, k0 as int, k1 as int, hw) =~= out@ + marked_range(
            v,
            k as int,
            k1 as int,
            hw,
        ));
    }
    while k < k1
        invariant
            k0 <= k <= k1 <= ts.toks@.len(),
            ts.wf(),
            v == ts@,
            orig + marked_range(v, k0 as int, k1 as int, hw) == out@ + marked_range(
                v,
                k as int,
                k1 as int,
                hw,
            ),
        decreases k1 - k,
    {
        let ghost before = out@;
        proof {
            assert(v[k as int] == token_text(ts.text@, ts.toks@[k as int]));
            lemma_marked_step(orig, before, v, k0 as int, k as int, k1 as int, hw);
        }
        push_marked_token(out, &ts.text, ts.toks[k], hw);
        k = k + 1;
    }
}

/// An op whose ranges lie within the two token sequences.
pub open spec fn op_in_bounds(op: EditOp, ev: Seq<Seq<char>>, av: Seq<Seq<char>>) -> bool {
    match op {
        EditOp::Equal { i_start, i_end, j_start, j_end } => i_start <= i_end <= ev.len()
            && j_start <= j_end <= av.len(),
        EditOp::Delete { i_start, i_end } => i_start <= i_end <= ev.len(),
        EditOp::Insert { j_start, j_end } => j_start <= j_end <= av.len(),
    }
}

/// One op rendered at granularity `g` with the options `opts`.
pub open spec fn render_op(
    op: EditOp,
    ev: Seq<Seq<char>>,
    av: Seq<Seq<char>>,
    g: Granularity,
    opts: FormatOptions,
    first: bool,
    last: bool,
) -> Seq<char> {
    if g is Line {
        render_line_op(op, ev, av, opts.display_line_numbers, opts.context_radius, first, last)
    } else {
        render_inline_op(op, ev, av, opts.highlight_whitespace)
    }
}

/// Append a collapsed unchanged run: leading context, the elision line,
/// trailing context.
#[verifier::rlimit(100)]
fn push_elided(
    out: &mut Vec<char>,
    e: &TokenSequence,
    i_start: usize,
    i_end: usize,
    kb: usize,
    ka: usize,
    numbers: bool,
)
    requires
        e.wf(),
        i_start <= i_end <= e.toks@.len(),
        i_end - i_start > kb + ka,
    ensures
        final (out)@ == old(out)@ + (render_lines_range(
            e@,
            i_start as int,
            i_start + kb,
            numbers,
            eq_prefix(),
        ) + elision_line() + render_lines_range(
            e@,
            i_end - ka,
            i_end as int,
            numbers,
            eq_prefix(),
        )),
{
    let ghost orig = out@;
    let ghost ev = e@;
    push_lines_range(out, e, i_start, i_start + kb, numbers, ' ', ' ');
    let ghost part1 = out@;
    out.push('.');
    out.push('.');
    out.push('.');
    out.push('\n');
    proof {
        assert(out@ =~= part1 + elision_line());
    }
    push_lines_range(out, e, i_end - ka, i_end, numbers, ' ', ' ');
    proof {
        let s1 = render_lines_range(ev, i_start as int, i_start + kb, numbers, eq_prefix());
        let s3 = render_lines_range(ev, i_end - ka, i_end as int, numbers, eq_prefix());
        lemma_assoc(orig, s1, elision_line());
        lemma_assoc(orig, s1 + elision_line(), s3);
    }
}

/// Append an unchanged run of lines, collapsed to its context edges when
/// a radius is set and the run is long enough.
#[verifier::rlimit(100)]
fn push_equal_block(
    out: &mut Vec<char>,
    e: &TokenSequence,
    i_start: usize,
    i_end: usize,
    numbers: bool,
    ctx: Option<usize>,
    first: bool,
    last: bool,
)
    requires
        e.wf(),
        i_start <= i_end <= e.toks@.len(),
    ensures
        final (out)@ == old(out)@ + equal_block(
            e@,
            i_start as int,
            i_end as int,
            numbers,
            ctx,
            first,
            last,
        ),
{
    if let Option::Some(r) = ctx {
        let kb: usize = if first {
            0
        } else {
            r
        };
        let ka: usize = if last {
            0
        } else {
            r
        };
        let ll = i_end - i_start;
        if ll > kb && ll - kb > ka {
            push_elided(out, e, i_start, i_end, kb, ka, numbers);
            proof {
                assert(i_end - i_start > kb + ka);
            }
        } else {
            push_lines_range(out, e, i_start, i_end, numbers, ' ', ' ');
            proof {
                assert(!(i_end - i_start > kb + ka));
            }
        }
    } else {
        push_lines_range(out, e, i_start, i_end, numbers, ' ', ' ');
    }
}

/// Append the rendering of one op.
#[verifier::rlimit(100)]
fn push_op(
    out: &mut Vec<char>,
    e: &TokenSequence,
    a: &TokenSequence,
    op: EditOp,
    opts: FormatOptions,
    first: bool,
    last: bool,
)
    requires
        e.wf(),
        a.wf(),
        e.granularity == a.granularity,
        op_in_bounds(op, e@, a@),
    ensures
        final (out)@ == old(out)@ + render_op(op, e@, a@, e.granularity, opts, first, last),
{
    let ghost orig = out@;
    let ghost ev = e@;
    let ghost av = a@;
    let line_mode = match e.granularity {
        Granularity::Line => true,
        _ => false,
    };
    let numbers = opts.display_line_numbers;
    match op {
        EditOp::Equal { i_start, i_end, j_start: _, j_end: _ } => {
            if line_mode {
                push_equal_block(out, e, i_start, i_end, numbers, opts.context_radius, first, last);
            } else {
                push_concat_range(out, e, i_start, i_end);
            }
        },
        EditOp::Delete { i_start, i_end } => {
            if line_mode {
                push_lines_range(out, e, i_start, i_end, numbers, '-', ' ');
            } else {
                out.push('[');
                out.push('-');
                proof {
                    assert(out@ =~= orig + del_open());
                }
                push_marked_range(out, e, i_start, i_end, opts.highlight_whitespace);
                out.push('-');
                out.push(']');
                proof {
                    assert(out@ =~= orig + (del_open() + marked_range(
                        ev,
                        i_start as int,
                        i_end as int,
                        opts.highlight_whitespace,
                    ) + del_close()));
                }
            }
        },
        EditOp::Insert { j_start, j_end } => {
            if line_mode {
                push_lines_range(out, a, j_start, j_end, numbers, '+', ' ');
            } else {
                out.push('{');
                out.push('+');
                proof {
                    assert(out@ =~= orig + ins_open());
                }
                push_marked_range(out, a, j_start, j_end, opts.highlight_whitespace);
                out.push('+');
                out.push('}');
                proof {
                    assert(out@ =~= orig + (ins_open() + marked_range(
                        av,
                        j_start as int,
                        j_end as int,
                        opts.highlight_whitespace,
                    ) + ins_close()));
                }
            }
        },
    }
}

/// Render an edit script over its two token sequences.
///
/// The output is pinned to `spec_render`: it is a function of the script,
/// the token views, the granularity and the options alone, so two runs on
/// identical inputs yield byte-identical output.
#[verifier::rlimit(100)]
pub fn format(
    script: &Vec<EditOp>,
    e: &TokenSequence,
    a: &TokenSequence,
    opts: FormatOptions,
) -> (out: Vec<char>)
    requires
        e.wf(),
        a.wf(),
        e.granularity == a.granularity,
        script_ok(script@, e@, a@),
    ensures
        out@ == spec_render(script@, e@, a@, e.granularity, opts),
{
    let ghost ev = e@;
    let ghost av = a@;
    let g = e.granularity;
    let mut out: Vec<char> = Vec::new();
    let len = script.len();
    let mut k: usize = 0;
    let ghost mut gi: int = 0;
    let ghost mut gj: int = 0;
    proof {
        assert(script@.skip(0) =~= script@);
        if g is Line {
            assert(out@ + render_linemode(
                script@,
                ev,
                av,
                opts.display_line_numbers,
                opts.context_radius,
                true,
            ) =~= spec_render(script@, ev, av, g, opts));
        } else {
            assert(out@ + render_inline(script@, ev, av, opts.highlight_whitespace) =~= spec_render(
                script@,
                ev,
                av,
                g,
                opts,
            ));
        }
    }
    while k < len
        invariant
            k <= len,
            len == script@.len(),
            e.wf(),
            a.wf(),
            ev == e@,
            av == a@,
            g == e.granularity,
            g == a.granularity,
            ops_from(script@.skip(k as int), ev, av, gi, gj),
            g is Line ==> spec_render(script@, ev, av, g, opts) == out@ + render_linemode(
                script@.skip(k as int),
                ev,
                av,
                opts.display_line_numbers,
                opts.context_radius,
                k == 0,
            ),
            !(g is Line) ==> spec_render(script@, ev, av, g, opts) == out@ + render_inline(
                script@.skip(k as int),
                ev,
                av,
                opts.highlight_whitespace,
            ),
        decreases len - k,
    {
        let op = script[k];
        let ghost rest = script@.skip(k as int);
        proof {
            assert(rest[0] == op);
            assert(rest.drop_first() =~= script@.skip(k as int + 1));
            assert(op_ok(op, ev, av, gi, gj));
        }
        let ghost before = out@;
        push_op(&mut out, e, a, op, opts, k == 0, k == len - 1);
        proof {
            let piece = render_op(op, ev, av, g, opts, k == 0, k == len - 1);
            if g is Line {
                lemma_assoc(
                    before,
                    piece,
                    render_linemode(
                        script@.skip(k as int + 1),
                        ev,
                        av,
                        opts.display_line_numbers,
                        opts.context_radius,
                        false,
                    ),
                );
                assert(render_linemode(
                    rest,
                    ev,
                    av,
                    opts.display_line_numbers,
                    opts.context_radius,
                    k == 0,
                ) == piece + render_linemode(
                    script@.skip(k as int + 1),
                    ev,
                    av,
                    opts.display_line_numbers,
                    opts.context_radius,
                    false,
                ));
            } else {
                lemma_assoc(
                    before,
                    piece,
                    render_inline(script@.skip(k as int + 1), ev, av, opts.highlight_whitespace),
                );
            }
            gi = op_next_i(op, gi);
            gj = op_next_j(op, gj);
        }
        k = k + 1;
    }
    proof {
        assert(script@.skip(k as int) =~= Seq::<EditOp>::empty());
    }
    out
}

} // verus!
