//! The public diffing operations: tokenize, align and format in one call.
//!
//! Each operation is pure and total over well-formed text; its output is
//! pinned to a spec-level composition of the three stages, so identical
//! inputs and options always produce byte-identical output. The byte-level
//! variants accept arbitrary byte buffers and surface malformed input as
//! the recoverable `InvalidEncoding` error instead of failing the process.

use vstd::prelude::*;

use crate::align::align;
use crate::render::FormatOptions;
use crate::render::spec_render;
use crate::script::spec_align;
use crate::token::Granularity;
use crate::token::TokenSequence;
use crate::token::spec_tokenize;
use crate::token::token_texts;
use crate::token::tokenize;

verus! {

/// The one failure of the pipeline: an input buffer is not well-formed
/// text in the expected encoding.
#[derive(Clone, Copy, PartialEq, Eq, Structural, Debug)]
pub enum DiffError {
    InvalidEncoding,
}

/// What a whole diff call returns: the rendering of the canonical edit
/// script between the tokenizations of the two texts.
pub open spec fn spec_diff(
    expected: Seq<char>,
    actual: Seq<char>,
    g: Granularity,
    opts: FormatOptions,
) -> Seq<char> {
    let ev = token_texts(expected, spec_tokenize(expected, g));
    let av = token_texts(actual, spec_tokenize(actual, g));
    spec_render(spec_align(ev, av), ev, av, g, opts)
}

/// Every token starts no earlier than its index: tokens are nonempty and
/// contiguous, so there are never more tokens than characters.
proof fn lemma_tok_start_ge(ts: &TokenSequence, k: int)
    requires
        ts.wf(),
        0 <= k < ts.toks@.len(),
    ensures
        ts.toks@[k].start >= k,
    decreases k,
{
    if k > 0 {
        lemma_tok_start_ge(ts, k - 1);
    }
}

/// A well-formed token sequence has at most one token per character.
proof fn lemma_toks_len(ts: &TokenSequence)
    requires
        ts.wf(),
    ensures
        ts.toks@.len() <= ts.text@.len(),
{
    let n = ts.toks@.len() as int;
    if n > 0 {
        lemma_tok_start_ge(ts, n - 1);
    }
}

/// Relies on `String`'s `FromIterator` over characters: collecting the
/// characters of a vector yields the string of exactly those characters.
#[verifier::external_body]
fn string_from_chars(v: &Vec<char>) -> (s: String)
    ensures
        s@ == v@,
{
    v.iter().collect()
}

/// Relies on `core::str::from_utf8`: it returns `Ok` exactly on
/// well-formed UTF-8, the returned slice views the decoding of those
/// bytes, and UTF-8 never decodes to more scalar values than it has bytes.
#[verifier::external_body]
fn utf8_to_str(b: &[u8]) -> (r: Option<&str>)
    ensures
        match r {
            Option::Some(s) => vstd::utf8::valid_utf8(b@) && s@ == vstd::utf8::decode_utf8(b@)
                && s@.len() <= b@.len(),
            Option::None => !vstd::utf8::valid_utf8(b@),
        },
{
    match core::str::from_utf8(b) {
        Ok(s) => Some(s),
        Err(_) => None,
    }
}

/// Run the full pipeline at one granularity.
fn diff_with(expected: &str, actual: &str, g: Granularity, opts: FormatOptions) -> (out: String)
    requires
        expected@.len() + actual@.len() < usize::MAX,
    ensures
        out@ == spec_diff(expected@, actual@, g, opts),
{
    let e = tokenize(expected, g);
    let a = tokenize(actual, g);
    proof {
        lemma_toks_len(&e);
        lemma_toks_len(&a);
    }
    let script = align(&e, &a);
    let rendered = crate::render::format(&script, &e, &a, opts);
    string_from_chars(&rendered)
}

/// Diff two texts character by character. Differing runs are wrapped in
/// the removed and added markers; with `highlight_whitespace`, changed
/// whitespace-only characters are marked distinctly.
pub fn diff_chars(expected: &str, actual: &str, highlight_whitespace: bool) -> (out: String)
    requires
        expected@.len() + actual@.len() < usize::MAX,
    ensures
        out@ == spec_diff(
            expected@,
            actual@,
            Granularity::Character,
            (FormatOptions {
                highlight_whitespace,
                display_line_numbers: false,
                context_radius: Option::None,
            }),
        ),
{
    diff_with(
        expected,
        actual,
        Granularity::Character,
        FormatOptions {
            highlight_whitespace,
            display_line_numbers: false,
            context_radius: Option::None,
        },
    )
}

/// Diff two texts word by word; maximal whitespace runs are tokens of
/// their own, so whitespace-only changes are visible.
pub fn diff_words(expected: &str, actual: &str, highlight_whitespace: bool) -> (out: String)
    requires
        expected@.len() + actual@.len() < usize::MAX,
    ensures
        out@ == spec_diff(
            expected@,
            actual@,
            Granularity::Word,
            (FormatOptions {
                highlight_whitespace,
                display_line_numbers: false,
                context_radius: Option::None,
            }),
        ),
{
    diff_with(
        expected,
        actual,
        Granularity::Word,
        FormatOptions {
            highlight_whitespace,
            display_line_numbers: false,
            context_radius: Option::None,
        },
    )
}

/// Diff two texts line by line, with no elision of unchanged runs.
pub fn diff_lines(expected: &str, actual: &str, display_line_numbers: bool) -> (out: String)
    requires
        expected@.len() + actual@.len() < usize::MAX,
    ensures
        out@ == spec_diff(
            expected@,
            actual@,
            Granularity::Line,
            (FormatOptions {
                highlight_whitespace: false,
                display_line_numbers,
                context_radius: Option::None,
            }),
        ),
{
    diff_with(
        expected,
        actual,
        Granularity::Line,
        FormatOptions {
            highlight_whitespace: false,
            display_line_numbers,
            context_radius: Option::None,
        },
    )
}

/// Diff two texts line by line; with a context radius set, unchanged runs
/// are collapsed to that many lines around each change.
pub fn diff_lines_with_context(
    expected: &str,
    actual: &str,
    display_line_numbers: bool,
    context_radius: Option<usize>,
) -> (out: String)
    requires
        expected@.len() + actual@.len() < usize::MAX,
    ensures
        out@ == spec_diff(
            expected@,
            actual@,
            Granularity::Line,
            (FormatOptions {
                highlight_whitespace: false,
                display_line_numbers,
                context_radius,
            }),
        ),
{
    diff_with(
        expected,
        actual,
        Granularity::Line,
        FormatOptions { highlight_whitespace: false, display_line_numbers, context_radius },
    )
}

/// Validate two byte buffers and diff them at the given granularity.
/// Malformed UTF-8 comes back as `InvalidEncoding`, exactly when one of
/// the buffers is not valid UTF-8.
fn diff_bytes_with(expected: &[u8], actual: &[u8], g: Granularity, opts: FormatOptions) -> (r:
    Result<String, DiffError>)
    requires
        expected@.len() + actual@.len() < usize::MAX,
    ensures
        match r {
            Result::Ok(out) => vstd::utf8::valid_utf8(expected@) && vstd::utf8::valid_utf8(actual@)
                && out@ == spec_diff(
                vstd::utf8::decode_utf8(expected@),
                vstd::utf8::decode_utf8(actual@),
                g,
                opts,
            ),
            Result::Err(err) => err == DiffError::InvalidEncoding && (!vstd::utf8::valid_utf8(
                expected@,
            ) || !vstd::utf8::valid_utf8(actual@)),
        },
{
    let oe = utf8_to_str(expected);
    let oa = utf8_to_str(actual);
    match (oe, oa) {
        (Option::Some(se), Option::Some(sa)) => Result::Ok(diff_with(se, sa, g, opts)),
        _ => Result::Err(DiffError::InvalidEncoding),
    }
}

/// Character diff of two byte buffers; `InvalidEncoding` exactly when a
/// buffer is not well-formed UTF-8.
pub fn diff_chars_bytes(expected: &[u8], actual: &[u8], highlight_whitespace: bool) -> (r: Result<
    String,
    DiffError,
>)
    requires
        expected@.len() + actual@.len() < usize::MAX,
    ensures
        match r {
            Result::Ok(out) => vstd::utf8::valid_utf8(expected@) && vstd::utf8::valid_utf8(actual@)
                && out@ == spec_diff(
                vstd::utf8::decode_utf8(expected@),
                vstd::utf8::decode_utf8(actual@),
                Granularity::Character,
                (FormatOptions {
                    highlight_whitespace,
                    display_line_numbers: false,
                    context_radius: Option::None,
                }),
            ),
            Result::Err(err) => err == DiffError::InvalidEncoding && (!vstd::utf8::valid_utf8(
                expected@,
            ) || !vstd::utf8::valid_utf8(actual@)),
        },
{
    diff_bytes_with(
        expected,
        actual,
        Granularity::Character,
        FormatOptions {
            highlight_whitespace,
            display_line_numbers: false,
            context_radius: Option::None,
        },
    )
}

/// Word diff of two byte buffers; `InvalidEncoding` exactly when a buffer
/// is not well-formed UTF-8.
pub fn diff_words_bytes(expected: &[u8], actual: &[u8], highlight_whitespace: bool) -> (r: Result<
    String,
    DiffError,
>)
    requires
        expected@.len() + actual@.len() < usize::MAX,
    ensures
        match r {
            Result::Ok(out) => vstd::utf8::valid_utf8(expected@) && vstd::utf8::valid_utf8(actual@)
                && out@ == spec_diff(
                vstd::utf8::decode_utf8(expected@),
                vstd::utf8::decode_utf8(actual@),
                Granularity::Word,
                (FormatOptions {
                    highlight_whitespace,
                    display_line_numbers: false,
                    context_radius: Option::None,
                }),
            ),
            Result::Err(err) => err == DiffError::InvalidEncoding && (!vstd::utf8::valid_utf8(
                expected@,
            ) || !vstd::utf8::valid_utf8(actual@)),
        },
{
    diff_bytes_with(
        expected,
        actual,
        Granularity::Word,
        FormatOptions {
            highlight_whitespace,
            display_line_numbers: false,
            context_radius: Option::None,
        },
    )
}

/// Line diff of two byte buffers; `InvalidEncoding` exactly when a buffer
/// is not well-formed UTF-8.
pub fn diff_lines_bytes(expected: &[u8], actual: &[u8], display_line_numbers: bool) -> (r: Result<
    String,
    DiffError,
>)
    requires
        expected@.len() + actual@.len() < usize::MAX,
    ensures
        match r {
            Result::Ok(out) => vstd::utf8::valid_utf8(expected@) && vstd::utf8::valid_utf8(actual@)
                && out@ == spec_diff(
                vstd::utf8::decode_utf8(expected@),
                vstd::utf8::decode_utf8(actual@),
                Granularity::Line,
                (FormatOptions {
                    highlight_whitespace: false,
                    display_line_numbers,
                    context_radius: Option::None,
                }),
            ),
            Result::Err(err) => err == DiffError::InvalidEncoding && (!vstd::utf8::valid_utf8(
                expected@,
            ) || !vstd::utf8::valid_utf8(actual@)),
        },
{
    diff_bytes_with(
        expected,
        actual,
        Granularity::Line,
        FormatOptions {
            highlight_whitespace: false,
            display_line_numbers,
            context_radius: Option::None,
        },
    )
}

} // verus!
