//! The edit-script model: the operations a diff is made of, what it means
//! for a script to be valid for a pair of token sequences, the cost of a
//! script, and the edit distance it is measured against.
//!
//! All definitions here are over the mathematical view of a token sequence,
//! `Seq<Seq<char>>`: the token texts in order. `i` indexes the expected
//! sequence, `j` the actual one.

use vstd::prelude::*;

verus! {

/// One operation of an edit script. Ranges are half-open token-index
/// intervals; `i_*` into the expected sequence, `j_*` into the actual one.
#[derive(Clone, Copy, PartialEq, Eq, Structural, Debug)]
pub enum EditOp {
    /// The tokens `i_start..i_end` of expected equal `j_start..j_end`
    /// of actual, pairwise.
    Equal { i_start: usize, i_end: usize, j_start: usize, j_end: usize },
    /// The tokens `j_start..j_end` of actual are inserted.
    Insert { j_start: usize, j_end: usize },
    /// The tokens `i_start..i_end` of expected are deleted.
    Delete { i_start: usize, i_end: usize },
}

/// The expected-side position after an op that starts at position `i`.
pub open spec fn op_next_i(op: EditOp, i: int) -> int {
    match op {
        EditOp::Equal { i_end, .. } => i_end as int,
        EditOp::Delete { i_end, .. } => i_end as int,
        EditOp::Insert { .. } => i,
    }
}

/// The actual-side position after an op that starts at position `j`.
pub open spec fn op_next_j(op: EditOp, j: int) -> int {
    match op {
        EditOp::Equal { j_end, .. } => j_end as int,
        EditOp::Insert { j_end, .. } => j_end as int,
        EditOp::Delete { .. } => j,
    }
}

/// Whether `op` is well placed at positions `(i, j)`: it starts exactly
/// there, spans a nonempty in-bounds range, and an `Equal` op really pairs
/// equal tokens.
pub open spec fn op_ok(op: EditOp, e: Seq<Seq<char>>, a: Seq<Seq<char>>, i: int, j: int) -> bool {
    match op {
        EditOp::Equal { i_start, i_end, j_start, j_end } => {
            &&& i_start == i
            &&& j_start == j
            &&& i_start < i_end <= e.len()
            &&& j_start < j_end <= a.len()
            &&& i_end - i_start == j_end - j_start
            &&& forall|k: int|
                0 <= k < i_end - i_start ==> #[trigger] e[i_start + k] == a[j_start + k]
        },
        EditOp::Insert { j_start, j_end } => j_start == j && j_start < j_end <= a.len(),
        EditOp::Delete { i_start, i_end } => i_start == i && i_start < i_end <= e.len(),
    }
}

/// Validity of a script tail from positions `(i, j)` on: the ops are
/// contiguous in both index spaces and end exactly at the two lengths.
/// This is the coverage invariant: the `i`-ranges of Equal and Delete ops
/// partition `i..e.len()` in order, and the `j`-ranges of Equal and Insert
/// ops partition `j..a.len()`.
pub open spec fn ops_from(ops: Seq<EditOp>, e: Seq<Seq<char>>, a: Seq<Seq<char>>, i: int, j: int) -> bool
    decreases ops.len(),
{
    if ops.len() == 0 {
        i == e.len() && j == a.len()
    } else {
        op_ok(ops[0], e, a, i, j) && ops_from(
            ops.drop_first(),
            e,
            a,
            op_next_i(ops[0], i),
            op_next_j(ops[0], j),
        )
    }
}

/// A valid script for the whole of `e` and `a`.
pub open spec fn script_ok(ops: Seq<EditOp>, e: Seq<Seq<char>>, a: Seq<Seq<char>>) -> bool {
    ops_from(ops, e, a, 0, 0)
}

/// The number of tokens an op inserts or deletes; `Equal` is free.
pub open spec fn op_cost(op: EditOp) -> nat {
    match op {
        EditOp::Equal { .. } => 0,
        EditOp::Insert { j_start, j_end } => if j_start <= j_end {
            (j_end - j_start) as nat
        } else {
            0
        },
        EditOp::Delete { i_start, i_end } => if i_start <= i_end {
            (i_end - i_start) as nat
        } else {
            0
        },
    }
}

/// The total cost of a script: inserted plus deleted token count.
pub open spec fn script_cost(ops: Seq<EditOp>) -> nat
    decreases ops.len(),
{
    if ops.len() == 0 {
        0
    } else {
        op_cost(ops[0]) + script_cost(ops.drop_first())
    }
}

/// The smaller of two naturals.
pub open spec fn min_nat(x: nat, y: nat) -> nat {
    if x <= y {
        x
    } else {
        y
    }
}

/// The edit distance between the suffixes `e[i..]` and `a[j..]` under unit
/// insert/delete cost: the minimum, over matching the heads (when equal),
/// deleting the expected head, or inserting the actual head.
pub open spec fn dist_from(e: Seq<Seq<char>>, a: Seq<Seq<char>>, i: int, j: int) -> nat
    decreases e.len() - i + a.len() - j when 0 <= i <= e.len() && 0 <= j <= a.len()
{
    if i >= e.len() {
        (a.len() - j) as nat
    } else if j >= a.len() {
        (e.len() - i) as nat
    } else {
        let del = 1 + dist_from(e, a, i + 1, j);
        let ins = 1 + dist_from(e, a, i, j + 1);
        if e[i] == a[j] {
            min_nat(dist_from(e, a, i + 1, j + 1), min_nat(del, ins))
        } else {
            min_nat(del, ins)
        }
    }
}

/// The edit distance between two token sequences.
pub open spec fn edit_distance(e: Seq<Seq<char>>, a: Seq<Seq<char>>) -> nat {
    dist_from(e, a, 0, 0)
}

/// The distance of a pair of suffixes never exceeds their combined length.
pub proof fn lemma_dist_bound(e: Seq<Seq<char>>, a: Seq<Seq<char>>, i: int, j: int)
    requires
        0 <= i <= e.len(),
        0 <= j <= a.len(),
    ensures
        dist_from(e, a, i, j) <= e.len() - i + a.len() - j,
    decreases e.len() - i + a.len() - j,
{
    if i < e.len() && j < a.len() {
        lemma_dist_bound(e, a, i + 1, j);
        lemma_dist_bound(e, a, i, j + 1);
        lemma_dist_bound(e, a, i + 1, j + 1);
    }
}

/// Equal suffixes are at distance zero.
pub proof fn lemma_dist_diag_zero(v: Seq<Seq<char>>, i: int)
    requires
        0 <= i <= v.len(),
    ensures
        dist_from(v, v, i, i) == 0,
    decreases v.len() - i,
{
    if i < v.len() {
        lemma_dist_diag_zero(v, i + 1);
    }
}

/// Whether the aligner, standing at `(i, j)`, takes a matching step: the
/// heads are equal and matching them loses nothing. This is the tie-break
/// policy: match the earliest available equal tokens.
pub open spec fn eq_step(e: Seq<Seq<char>>, a: Seq<Seq<char>>, i: int, j: int) -> bool {
    &&& i < e.len()
    &&& j < a.len()
    &&& e[i] == a[j]
    &&& dist_from(e, a, i, j) == dist_from(e, a, i + 1, j + 1)
}

/// Whether the aligner, standing at `(i, j)` with no matching step, deletes
/// the expected head. Delete is preferred over Insert at equal cost.
pub open spec fn del_step(e: Seq<Seq<char>>, a: Seq<Seq<char>>, i: int, j: int) -> bool {
    &&& !eq_step(e, a, i, j)
    &&& i < e.len()
    &&& dist_from(e, a, i, j) == 1 + dist_from(e, a, i + 1, j)
}

/// Whether the aligner, standing at `(i, j)` with neither of the steps
/// above, inserts the actual head.
pub open spec fn ins_step(e: Seq<Seq<char>>, a: Seq<Seq<char>>, i: int, j: int) -> bool {
    &&& !eq_step(e, a, i, j)
    &&& !del_step(e, a, i, j)
    &&& j < a.len()
    &&& dist_from(e, a, i, j) == 1 + dist_from(e, a, i, j + 1)
}

/// The length of the maximal run of matching steps from `(i, j)`.
pub open spec fn eq_run(e: Seq<Seq<char>>, a: Seq<Seq<char>>, i: int, j: int) -> nat
    decreases e.len() - i when i <= e.len()
{
    if eq_step(e, a, i, j) {
        1 + eq_run(e, a, i + 1, j + 1)
    } else {
        0
    }
}

/// The length of the maximal run of delete steps from `(i, j)`.
pub open spec fn del_run(e: Seq<Seq<char>>, a: Seq<Seq<char>>, i: int, j: int) -> nat
    decreases e.len() - i when i <= e.len()
{
    if del_step(e, a, i, j) {
        1 + del_run(e, a, i + 1, j)
    } else {
        0
    }
}

/// The length of the maximal run of insert steps from `(i, j)`.
pub open spec fn ins_run(e: Seq<Seq<char>>, a: Seq<Seq<char>>, i: int, j: int) -> nat
    decreases a.len() - j when j <= a.len()
{
    if ins_step(e, a, i, j) {
        1 + ins_run(e, a, i, j + 1)
    } else {
        0
    }
}

/// A matching run stays in bounds and is sound: the paired tokens are
/// equal and the distance is unchanged across the run.
pub proof fn lemma_eq_run(e: Seq<Seq<char>>, a: Seq<Seq<char>>, i: int, j: int)
    requires
        0 <= i <= e.len(),
        0 <= j <= a.len(),
    ensures
        i + eq_run(e, a, i, j) <= e.len(),
        j + eq_run(e, a, i, j) <= a.len(),
        dist_from(e, a, i, j) == dist_from(e, a, i + eq_run(e, a, i, j), j + eq_run(e, a, i, j)),
        forall|k: int| 0 <= k < eq_run(e, a, i, j) ==> #[trigger] e[i + k] == a[j + k],
    decreases e.len() - i,
{
    if eq_step(e, a, i, j) {
        lemma_eq_run(e, a, i + 1, j + 1);
        assert forall|k: int| 0 <= k < eq_run(e, a, i, j) implies #[trigger] e[i + k] == a[j
            + k] by {
            if k > 0 {
                assert(e[(i + 1) + (k - 1)] == a[(j + 1) + (k - 1)]);
            }
        }
    }
}

/// A delete run stays in bounds and accounts exactly for its cost.
pub proof fn lemma_del_run(e: Seq<Seq<char>>, a: Seq<Seq<char>>, i: int, j: int)
    requires
        0 <= i <= e.len(),
        0 <= j <= a.len(),
    ensures
        i + del_run(e, a, i, j) <= e.len(),
        dist_from(e, a, i, j) == del_run(e, a, i, j) + dist_from(e, a, i + del_run(e, a, i, j), j),
    decreases e.len() - i,
{
    if del_step(e, a, i, j) {
        lemma_del_run(e, a, i + 1, j);
    }
}

/// An insert run stays in bounds and accounts exactly for its cost.
pub proof fn lemma_ins_run(e: Seq<Seq<char>>, a: Seq<Seq<char>>, i: int, j: int)
    requires
        0 <= i <= e.len(),
        0 <= j <= a.len(),
    ensures
        j + ins_run(e, a, i, j) <= a.len(),
        dist_from(e, a, i, j) == ins_run(e, a, i, j) + dist_from(e, a, i, j + ins_run(e, a, i, j)),
    decreases a.len() - j,
{
    if ins_step(e, a, i, j) {
        lemma_ins_run(e, a, i, j + 1);
    }
}

/// At positions that are not final, one of the three steps applies.
pub proof fn lemma_step_progress(e: Seq<Seq<char>>, a: Seq<Seq<char>>, i: int, j: int)
    requires
        0 <= i <= e.len(),
        0 <= j <= a.len(),
        !(i == e.len() && j == a.len()),
    ensures
        eq_step(e, a, i, j) || del_step(e, a, i, j) || ins_step(e, a, i, j),
{
    if !eq_step(e, a, i, j) && !del_step(e, a, i, j) {
        if i >= e.len() {
            assert(dist_from(e, a, i, j) == a.len() - j);
            assert(dist_from(e, a, i, j + 1) == a.len() - j - 1);
        } else if j >= a.len() {
            assert(dist_from(e, a, i, j) == e.len() - i);
            assert(dist_from(e, a, i + 1, j) == e.len() - i - 1);
            assert(del_step(e, a, i, j));
        } else {
            assert(dist_from(e, a, i, j) == if e[i] == a[j] {
                min_nat(
                    dist_from(e, a, i + 1, j + 1),
                    min_nat(1 + dist_from(e, a, i + 1, j), 1 + dist_from(e, a, i, j + 1)),
                )
            } else {
                min_nat(1 + dist_from(e, a, i + 1, j), 1 + dist_from(e, a, i, j + 1))
            });
        }
    }
}

/// The canonical edit script for the suffixes from `(i, j)`: maximal runs
/// of matches, deletions and insertions, chosen by the greedy tie-break
/// policy above, each run emitted as a single op.
pub open spec fn spec_align_from(e: Seq<Seq<char>>, a: Seq<Seq<char>>, i: int, j: int) -> Seq<
    EditOp,
>
    decreases e.len() - i + a.len() - j when 0 <= i <= e.len() && 0 <= j <= a.len()
    via spec_align_from_decreases
{
    if i >= e.len() && j >= a.len() {
        Seq::empty()
    } else if eq_run(e, a, i, j) > 0 {
        let run = eq_run(e, a, i, j) as int;
        seq![
            EditOp::Equal {
                i_start: i as usize,
                i_end: (i + run) as usize,
                j_start: j as usize,
                j_end: (j + run) as usize,
            },
        ] + spec_align_from(e, a, i + run, j + run)
    } else if del_run(e, a, i, j) > 0 {
        let run = del_run(e, a, i, j) as int;
        seq![EditOp::Delete { i_start: i as usize, i_end: (i + run) as usize }]
            + spec_align_from(e, a, i + run, j)
    } else {
        // This branch is only ever reached with a positive insert run
        // (lemma_step_progress); the fallback of one keeps the
        // definition total and terminating on its own.
        let run = if ins_run(e, a, i, j) > 0 {
            ins_run(e, a, i, j) as int
        } else {
            1
        };
        seq![EditOp::Insert { j_start: j as usize, j_end: (j + run) as usize }]
            + spec_align_from(e, a, i, j + run)
    }
}

#[via_fn]
proof fn spec_align_from_decreases(e: Seq<Seq<char>>, a: Seq<Seq<char>>, i: int, j: int) {
    lemma_eq_run(e, a, i, j);
    lemma_del_run(e, a, i, j);
    lemma_ins_run(e, a, i, j);
    if !(i >= e.len() && j >= a.len()) && eq_run(e, a, i, j) == 0 && del_run(e, a, i, j) == 0 {
        lemma_step_progress(e, a, i, j);
        assert(ins_step(e, a, i, j));
        assert(ins_run(e, a, i, j) > 0);
    }
}

/// The canonical edit script between two token sequences. The aligner's
/// output is pinned to this value: identical inputs give identical scripts.
pub open spec fn spec_align(e: Seq<Seq<char>>, a: Seq<Seq<char>>) -> Seq<EditOp> {
    spec_align_from(e, a, 0, 0)
}

/// The canonical script is valid — it covers both sequences exactly — and
/// its cost is exactly the edit distance of the suffixes it aligns.
pub proof fn lemma_spec_align_from_ok(e: Seq<Seq<char>>, a: Seq<Seq<char>>, i: int, j: int)
    requires
        0 <= i <= e.len(),
        0 <= j <= a.len(),
        e.len() <= usize::MAX,
        a.len() <= usize::MAX,
    ensures
        ops_from(spec_align_from(e, a, i, j), e, a, i, j),
        script_cost(spec_align_from(e, a, i, j)) == dist_from(e, a, i, j),
    decreases e.len() - i + a.len() - j,
{
    lemma_eq_run(e, a, i, j);
    lemma_del_run(e, a, i, j);
    lemma_ins_run(e, a, i, j);
    let ops = spec_align_from(e, a, i, j);
    if i >= e.len() && j >= a.len() {
        assert(ops =~= Seq::<EditOp>::empty());
    } else if eq_run(e, a, i, j) > 0 {
        let run = eq_run(e, a, i, j) as int;
        let op = EditOp::Equal {
            i_start: i as usize,
            i_end: (i + run) as usize,
            j_start: j as usize,
            j_end: (j + run) as usize,
        };
        let rest = spec_align_from(e, a, i + run, j + run);
        assert(ops == seq![op] + rest);
        assert(ops[0] == op);
        assert(ops.drop_first() =~= rest);
        lemma_spec_align_from_ok(e, a, i + run, j + run);
        assert(op_ok(op, e, a, i, j));
        assert(ops.len() > 0);
        assert(op_next_i(op, i) == i + run && op_next_j(op, j) == j + run);
        assert(ops_from(ops, e, a, i, j));
        assert(script_cost(ops) == op_cost(op) + script_cost(rest));
    } else if del_run(e, a, i, j) > 0 {
        let run = del_run(e, a, i, j) as int;
        let op = EditOp::Delete { i_start: i as usize, i_end: (i + run) as usize };
        let rest = spec_align_from(e, a, i + run, j);
        assert(ops == seq![op] + rest);
        assert(ops[0] == op);
        assert(ops.drop_first() =~= rest);
        lemma_spec_align_from_ok(e, a, i + run, j);
        assert(op_ok(op, e, a, i, j));
        assert(ops_from(ops, e, a, i, j));
        assert(script_cost(ops) == op_cost(op) + script_cost(rest));
    } else {
        lemma_step_progress(e, a, i, j);
        assert(ins_run(e, a, i, j) > 0);
        let run = ins_run(e, a, i, j) as int;
        let op = EditOp::Insert { j_start: j as usize, j_end: (j + run) as usize };
        let rest = spec_align_from(e, a, i, j + run);
        assert(ops == seq![op] + rest);
        assert(ops[0] == op);
        assert(ops.drop_first() =~= rest);
        lemma_spec_align_from_ok(e, a, i, j + run);
        assert(op_ok(op, e, a, i, j));
        assert(ops_from(ops, e, a, i, j));
        assert(script_cost(ops) == op_cost(op) + script_cost(rest));
    }
}

/// The canonical script of a whole pair is valid and minimal.
pub proof fn lemma_spec_align_ok(e: Seq<Seq<char>>, a: Seq<Seq<char>>)
    requires
        e.len() <= usize::MAX,
        a.len() <= usize::MAX,
    ensures
        script_ok(spec_align(e, a), e, a),
        script_cost(spec_align(e, a)) == edit_distance(e, a),
{
    lemma_spec_align_from_ok(e, a, 0, 0);
}

} // verus!
