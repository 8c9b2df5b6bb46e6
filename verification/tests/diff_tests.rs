use textdiff::diff::diff_chars;
use textdiff::diff::diff_chars_bytes;
use textdiff::diff::diff_lines;
use textdiff::diff::diff_lines_with_context;
use textdiff::diff::diff_words;
use textdiff::diff::diff_words_bytes;
use textdiff::diff::diff_lines_bytes;
use textdiff::diff::DiffError;

#[test]
fn char_replacement_is_paired() {
    // "cat" -> "cot": Equal "c", Delete "a" / Insert "o" paired, Equal "t".
    assert_eq!(diff_chars("cat", "cot", false), "c[-a-]{+o+}t");
}

#[test]
fn word_replacement_at_index_one() {
    // Only the middle word changes; the surrounding words stay plain.
    assert_eq!(
        diff_words("the quick fox", "the slow fox", false),
        "the [-quick-]{+slow+} fox"
    );
}

#[test]
fn empty_inputs_render_nothing() {
    assert_eq!(diff_chars("", "", false), "");
}

#[test]
fn insertion_into_empty_is_all_added() {
    assert_eq!(diff_chars("", "abc", false), "{+abc+}");
}

#[test]
fn deletion_to_empty_is_all_removed() {
    assert_eq!(diff_chars("abc", "", false), "[-abc-]");
}

#[test]
fn identity_char_diff_is_plain() {
    assert_eq!(diff_chars("same text", "same text", false), "same text");
}

#[test]
fn identity_word_diff_is_plain() {
    assert_eq!(diff_words("one two three", "one two three", true), "one two three");
}

#[test]
fn identity_line_diff_keeps_all_lines() {
    assert_eq!(diff_lines("x\ny\n", "x\ny\n", false), "  x\n  y\n");
}

#[test]
fn multibyte_characters_stay_whole() {
    assert_eq!(diff_chars("h\u{e9}llo", "hello", false), "h[-\u{e9}-]{+e+}llo");
}

#[test]
fn whitespace_only_change_is_marked_distinctly() {
    assert_eq!(diff_words("a b", "a  b", true), "a[-~ ~-]{+~  ~+}b");
}

#[test]
fn whitespace_change_without_highlight_uses_plain_markers() {
    assert_eq!(diff_words("a b", "a  b", false), "a[- -]{+  +}b");
}

#[test]
fn line_diff_prefixes_changed_lines() {
    assert_eq!(diff_lines("a\nb\n", "a\nc\n", false), "  a\n- b\n+ c\n");
}

#[test]
fn line_diff_terminates_final_line() {
    assert_eq!(diff_lines("a", "b", false), "- a\n+ b\n");
}

#[test]
fn line_diff_numbers_lines_per_side() {
    assert_eq!(diff_lines("a\nb\n", "a\nc\n", true), "1   a\n2 - b\n2 + c\n");
}

#[test]
fn context_radius_elides_far_lines() {
    // Ten lines, the fifth changed, radius one: line 4, the change, line 6,
    // and elision markers for lines 1-3 and 7-10.
    let expected = "l1\nl2\nl3\nl4\nfive\nl6\nl7\nl8\nl9\nl10\n";
    let actual = "l1\nl2\nl3\nl4\nFIVE\nl6\nl7\nl8\nl9\nl10\n";
    assert_eq!(
        diff_lines_with_context(expected, actual, true, Some(1)),
        "...\n4   l4\n5 - five\n5 + FIVE\n6   l6\n...\n"
    );
}

#[test]
fn context_radius_keeps_short_runs() {
    let out = diff_lines_with_context("a\nb\n", "a\nc\n", false, Some(5));
    assert_eq!(out, "  a\n- b\n+ c\n");
}

#[test]
fn context_radius_elides_identical_input() {
    assert_eq!(
        diff_lines_with_context("a\nb\nc\n", "a\nb\nc\n", false, Some(1)),
        "...\n"
    );
}

#[test]
fn no_context_renders_every_line() {
    let expected = "l1\nl2\nl3\nl4\nfive\n";
    let actual = "l1\nl2\nl3\nl4\nFIVE\n";
    assert_eq!(
        diff_lines(expected, actual, false),
        "  l1\n  l2\n  l3\n  l4\n- five\n+ FIVE\n"
    );
}

#[test]
fn two_runs_are_byte_identical() {
    let first = diff_words("alpha beta gamma", "alpha delta gamma", true);
    let second = diff_words("alpha beta gamma", "alpha delta gamma", true);
    assert_eq!(first, second);
    let third = diff_lines_with_context("p\nq\n", "p\nr\n", true, Some(2));
    let fourth = diff_lines_with_context("p\nq\n", "p\nr\n", true, Some(2));
    assert_eq!(third, fourth);
}

#[test]
fn valid_bytes_diff_like_text() {
    let out = diff_chars_bytes(b"cat", b"cot", false);
    assert_eq!(out, Ok(String::from("c[-a-]{+o+}t")));
    let out = diff_words_bytes(b"the quick fox", b"the slow fox", false);
    assert_eq!(out, Ok(String::from("the [-quick-]{+slow+} fox")));
    let out = diff_lines_bytes(b"a\nb\n", b"a\nc\n", true);
    assert_eq!(out, Ok(String::from("1   a\n2 - b\n2 + c\n")));
}

#[test]
fn malformed_expected_bytes_are_rejected() {
    let out = diff_chars_bytes(&[0xff, 0xfe], b"ok", false);
    assert_eq!(out, Err(DiffError::InvalidEncoding));
}

#[test]
fn malformed_actual_bytes_are_rejected() {
    let out = diff_words_bytes(b"ok", &[0xc0, 0x20], false);
    assert_eq!(out, Err(DiffError::InvalidEncoding));
    let out = diff_lines_bytes(b"ok", &[0x80], false);
    assert_eq!(out, Err(DiffError::InvalidEncoding));
}

#[test]
fn tab_counts_as_whitespace_for_highlighting() {
    assert_eq!(diff_words("a\tb", "a b", true), "a[-~\t~-]{+~ ~+}b");
}

#[test]
fn common_prefix_and_suffix_stay_equal() {
    // Minimality on a small case: only one character differs, so exactly
    // one deletion and one insertion appear in the output.
    assert_eq!(diff_chars("abcdef", "abCdef", false), "ab[-c-]{+C+}def");
}

#[test]
fn disjoint_texts_are_fully_replaced() {
    assert_eq!(diff_chars("ab", "cd", false), "[-ab-]{+cd+}");
}

#[test]
fn delete_comes_before_insert_at_equal_cost() {
    // The tie-break policy: a replacement renders the removed run first.
    let out = diff_chars("x", "y", false);
    assert_eq!(out, "[-x-]{+y+}");
}

#[test]
fn crlf_stays_inside_its_line() {
    assert_eq!(diff_lines("a\r\nb\n", "a\r\nc\n", false), "  a\r\n- b\n+ c\n");
}
