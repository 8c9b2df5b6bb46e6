//! The global laws of the library, each proved once and for all inputs:
//! identity diffs are all Equal, a script replays either input exactly,
//! and no valid script beats the aligner's cost.

use vstd::prelude::*;

use crate::render::concat_range;
use crate::render::FormatOptions;
use crate::script::EditOp;
use crate::script::dist_from;
use crate::script::edit_distance;
use crate::script::eq_run;
use crate::script::op_next_i;
use crate::script::op_next_j;
use crate::script::ops_from;
use crate::script::script_cost;
use crate::script::script_ok;
use crate::script::spec_align;
use crate::script::spec_align_from;
use crate::script::lemma_dist_diag_zero;
use crate::token::Granularity;
use crate::token::TokenSequence;
use crate::diff::spec_diff;

verus! {

/// On the diagonal of a pair of equal sequences, the whole remainder is
/// one matching run.
proof fn lemma_eq_run_diag(v: Seq<Seq<char>>, i: int)
    requires
        0 <= i <= v.len(),
    ensures
        eq_run(v, v, i, i) == v.len() - i,
    decreases v.len() - i,
{
    if i < v.len() {
        lemma_dist_diag_zero(v, i);
        lemma_dist_diag_zero(v, i + 1);
        lemma_eq_run_diag(v, i + 1);
    }
}

/// Identity: aligning a token sequence with itself yields a script of
/// Equal ops alone, covering the whole sequence — one op, or none when
/// the sequence is empty.
pub proof fn lemma_identity(v: Seq<Seq<char>>)
    requires
        v.len() <= usize::MAX,
    ensures
        v.len() == 0 ==> spec_align(v, v) == Seq::<EditOp>::empty(),
        v.len() > 0 ==> spec_align(v, v) == seq![
            (EditOp::Equal {
                i_start: 0,
                i_end: v.len() as usize,
                j_start: 0,
                j_end: v.len() as usize,
            }),
        ],
{
    if v.len() == 0 {
        assert(spec_align(v, v) =~= Seq::<EditOp>::empty());
    } else {
        lemma_eq_run_diag(v, 0);
        let n = v.len() as int;
        let op = EditOp::Equal { i_start: 0, i_end: v.len() as usize, j_start: 0, j_end: v.len() as usize };
        assert(spec_align_from(v, v, n, n) =~= Seq::<EditOp>::empty());
        assert(spec_align(v, v) == seq![op] + Seq::<EditOp>::empty());
        assert(seq![op] + Seq::<EditOp>::empty() =~= seq![op]);
    }
}

/// Concatenating a token range splits at any interior point.
proof fn lemma_concat_split(v: Seq<Seq<char>>, k0: int, k1: int, k2: int)
    requires
        0 <= k0 <= k1 <= k2 <= v.len(),
    ensures
        concat_range(v, k0, k2) == concat_range(v, k0, k1) + concat_range(v, k1, k2),
    decreases k1 - k0,
{
    if k0 == k1 {
        assert(concat_range(v, k0, k1) =~= Seq::<char>::empty());
        assert(concat_range(v, k0, k2) =~= concat_range(v, k0, k1) + concat_range(v, k1, k2));
    } else {
        lemma_concat_split(v, k0 + 1, k1, k2);
        assert((v[k0] + concat_range(v, k0 + 1, k1)) + concat_range(v, k1, k2) =~= v[k0]
            + (concat_range(v, k0 + 1, k1) + concat_range(v, k1, k2)));
    }
}

/// What the Insert and Equal ops of a script spell, read against the
/// actual token sequence.
pub open spec fn replay_actual(ops: Seq<EditOp>, av: Seq<Seq<char>>) -> Seq<char>
    decreases ops.len(),
{
    if ops.len() == 0 {
        Seq::empty()
    } else {
        let head = match ops[0] {
            EditOp::Equal { j_start, j_end, .. } => concat_range(av, j_start as int, j_end as int),
            EditOp::Insert { j_start, j_end } => concat_range(av, j_start as int, j_end as int),
            EditOp::Delete { .. } => Seq::empty(),
        };
        head + replay_actual(ops.drop_first(), av)
    }
}

/// What the Delete and Equal ops of a script spell, read against the
/// expected token sequence.
pub open spec fn replay_expected(ops: Seq<EditOp>, ev: Seq<Seq<char>>) -> Seq<char>
    decreases ops.len(),
{
    if ops.len() == 0 {
        Seq::empty()
    } else {
        let head = match ops[0] {
            EditOp::Equal { i_start, i_end, .. } => concat_range(ev, i_start as int, i_end as int),
            EditOp::Delete { i_start, i_end } => concat_range(ev, i_start as int, i_end as int),
            EditOp::Insert { .. } => Seq::empty(),
        };
        head + replay_expected(ops.drop_first(), ev)
    }
}

/// A valid script tail replays the whole remaining actual range.
proof fn lemma_replay_actual_from(
    ops: Seq<EditOp>,
    e: Seq<Seq<char>>,
    a: Seq<Seq<char>>,
    i: int,
    j: int,
)
    requires
        0 <= i <= e.len(),
        0 <= j <= a.len(),
        ops_from(ops, e, a, i, j),
    ensures
        replay_actual(ops, a) == concat_range(a, j, a.len() as int),
    decreases ops.len(),
{
    if ops.len() == 0 {
        assert(replay_actual(ops, a) =~= concat_range(a, j, a.len() as int));
    } else {
        let op = ops[0];
        let ni = op_next_i(op, i);
        let nj = op_next_j(op, j);
        lemma_replay_actual_from(ops.drop_first(), e, a, ni, nj);
        lemma_concat_split(a, j, nj, a.len() as int);
    }
}

/// A valid script tail replays the whole remaining expected range.
proof fn lemma_replay_expected_from(
    ops: Seq<EditOp>,
    e: Seq<Seq<char>>,
    a: Seq<Seq<char>>,
    i: int,
    j: int,
)
    requires
        0 <= i <= e.len(),
        0 <= j <= a.len(),
        ops_from(ops, e, a, i, j),
    ensures
        replay_expected(ops, e) == concat_range(e, i, e.len() as int),
    decreases ops.len(),
{
    if ops.len() == 0 {
        assert(replay_expected(ops, e) =~= concat_range(e, i, e.len() as int));
    } else {
        let op = ops[0];
        let ni = op_next_i(op, i);
        let nj = op_next_j(op, j);
        lemma_replay_expected_from(ops.drop_first(), e, a, ni, nj);
        lemma_concat_split(e, i, ni, e.len() as int);
    }
}

/// The token texts of a well-formed token sequence, concatenated from
/// position `k` on, spell the underlying text from that token's start.
proof fn lemma_concat_tokens_from(ts: &TokenSequence, k: int)
    requires
        ts.wf(),
        0 <= k <= ts.toks@.len(),
    ensures
        concat_range(ts@, k, ts.toks@.len() as int) == ts.text@.subrange(
            if k < ts.toks@.len() {
                ts.toks@[k].start as int
            } else {
                ts.text@.len() as int
            },
            ts.text@.len() as int,
        ),
    decreases ts.toks@.len() - k,
{
    let n = ts.toks@.len() as int;
    if k == n {
        assert(concat_range(ts@, k, n) =~= ts.text@.subrange(
            ts.text@.len() as int,
            ts.text@.len() as int,
        ));
    } else {
        lemma_concat_tokens_from(ts, k + 1);
        let s = ts.toks@[k].start as int;
        let m = if k + 1 < n {
            ts.toks@[k + 1].start as int
        } else {
            ts.text@.len() as int
        };
        assert(ts.toks@[k].end == m);
        assert(ts@[k] == ts.text@.subrange(s, m));
        assert(ts.text@.subrange(s, m) + ts.text@.subrange(m, ts.text@.len() as int)
            =~= ts.text@.subrange(s, ts.text@.len() as int));
    }
}

/// Reconstruction: replaying the Insert and Equal ops of a valid script
/// against the actual tokens spells the actual text exactly, and
/// replaying the Delete and Equal ops against the expected tokens spells
/// the expected text exactly.
#[verifier::rlimit(100)]
pub proof fn lemma_reconstruction(ops: Seq<EditOp>, ets: &TokenSequence, ats: &TokenSequence)
    requires
        ets.wf(),
        ats.wf(),
        script_ok(ops, ets@, ats@),
    ensures
        replay_actual(ops, ats@) == ats.text@,
        replay_expected(ops, ets@) == ets.text@,
{
    lemma_replay_actual_from(ops, ets@, ats@, 0, 0);
    lemma_replay_expected_from(ops, ets@, ats@, 0, 0);
    lemma_concat_tokens_from(ats, 0);
    lemma_concat_tokens_from(ets, 0);
    if ats.toks@.len() == 0 {
        assert(replay_actual(ops, ats@) =~= ats.text@);
    } else {
        assert(ats.text@.subrange(0, ats.text@.len() as int) =~= ats.text@);
    }
    if ets.toks@.len() == 0 {
        assert(replay_expected(ops, ets@) =~= ets.text@);
    } else {
        assert(ets.text@.subrange(0, ets.text@.len() as int) =~= ets.text@);
    }
}

/// Matching a run of pairwise equal tokens never increases the distance.
proof fn lemma_dist_le_diag(e: Seq<Seq<char>>, a: Seq<Seq<char>>, i: int, j: int, l: int)
    requires
        0 <= i,
        0 <= j,
        0 <= l,
        i + l <= e.len(),
        j + l <= a.len(),
        forall|k: int| 0 <= k < l ==> #[trigger] e[i + k] == a[j + k],
    ensures
        dist_from(e, a, i, j) <= dist_from(e, a, i + l, j + l),
    decreases l,
{
    if l > 0 {
        assert(e[i + 0] == a[j + 0]);
        assert forall|k: int| 0 <= k < l - 1 implies #[trigger] e[(i + 1) + k] == a[(j + 1)
            + k] by {
            assert(e[i + (k + 1)] == a[j + (k + 1)]);
        }
        lemma_dist_le_diag(e, a, i + 1, j + 1, l - 1);
    }
}

/// Deleting a run costs at most one per token.
proof fn lemma_dist_le_del(e: Seq<Seq<char>>, a: Seq<Seq<char>>, i: int, j: int, l: int)
    requires
        0 <= i,
        0 <= j <= a.len(),
        0 <= l,
        i + l <= e.len(),
    ensures
        dist_from(e, a, i, j) <= l + dist_from(e, a, i + l, j),
    decreases l,
{
    if l > 0 {
        lemma_dist_le_del(e, a, i + 1, j, l - 1);
    }
}

/// Inserting a run costs at most one per token.
proof fn lemma_dist_le_ins(e: Seq<Seq<char>>, a: Seq<Seq<char>>, i: int, j: int, l: int)
    requires
        0 <= i <= e.len(),
        0 <= j,
        0 <= l,
        j + l <= a.len(),
    ensures
        dist_from(e, a, i, j) <= l + dist_from(e, a, i, j + l),
    decreases l,
{
    if l > 0 {
        lemma_dist_le_ins(e, a, i, j + 1, l - 1);
    }
}

/// No valid script tail beats the edit distance of what it still covers.
proof fn lemma_cost_lower_from(
    ops: Seq<EditOp>,
    e: Seq<Seq<char>>,
    a: Seq<Seq<char>>,
    i: int,
    j: int,
)
    requires
        0 <= i <= e.len(),
        0 <= j <= a.len(),
        ops_from(ops, e, a, i, j),
    ensures
        script_cost(ops) >= dist_from(e, a, i, j),
    decreases ops.len(),
{
    if ops.len() > 0 {
        let op = ops[0];
        let ni = op_next_i(op, i);
        let nj = op_next_j(op, j);
        lemma_cost_lower_from(ops.drop_first(), e, a, ni, nj);
        match op {
            EditOp::Equal { i_start, i_end, j_start, j_end } => {
                lemma_dist_le_diag(e, a, i, j, i_end - i_start);
            },
            EditOp::Delete { i_start, i_end } => {
                lemma_dist_le_del(e, a, i, j, i_end - i_start);
            },
            EditOp::Insert { j_start, j_end } => {
                lemma_dist_le_ins(e, a, i, j, j_end - j_start);
            },
        }
    }
}

/// Minimality: every valid edit script for a pair of token sequences
/// inserts and deletes at least `edit_distance` tokens; together with the
/// aligner's contract — its script costs exactly `edit_distance` — the
/// aligner's script is minimal among all valid scripts.
pub proof fn lemma_minimality(ops: Seq<EditOp>, e: Seq<Seq<char>>, a: Seq<Seq<char>>)
    requires
        script_ok(ops, e, a),
    ensures
        script_cost(ops) >= edit_distance(e, a),
{
    lemma_cost_lower_from(ops, e, a, 0, 0);
}

/// Determinism: a diff output is a function of the two texts, the
/// granularity and the options alone, so two runs on identical inputs
/// are byte-identical. Each public operation's contract pins its output
/// to `spec_diff`; this spells out that two such outputs coincide.
pub proof fn lemma_determinism(
    o1: Seq<char>,
    o2: Seq<char>,
    expected: Seq<char>,
    actual: Seq<char>,
    g: Granularity,
    opts: FormatOptions,
)
    requires
        o1 == spec_diff(expected, actual, g, opts),
        o2 == spec_diff(expected, actual, g, opts),
    ensures
        o1 == o2,
{
}

} // verus!
