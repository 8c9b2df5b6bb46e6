//! The sequence aligner: computes the canonical minimal edit script between
//! two token sequences.
//!
//! The implementation fills the classic dynamic-programming table of
//! suffix-to-suffix edit distances and then walks it from the front,
//! emitting maximal runs of matches, deletions and insertions. The walk
//! follows the deterministic tie-break policy of `spec_align`: match the
//! earliest available equal tokens, and prefer Delete over Insert at equal
//! cost. The returned script is pinned to `spec_align`, so it is valid,
//! minimal, and identical on identical inputs.

use vstd::prelude::*;

use crate::script::EditOp;
use crate::script::del_step;
use crate::script::dist_from;
use crate::script::edit_distance;
use crate::script::eq_run;
use crate::script::eq_step;
use crate::script::ins_step;
use crate::script::del_run;
use crate::script::ins_run;
use crate::script::lemma_dist_bound;
use crate::script::lemma_step_progress;
use crate::script::lemma_spec_align_ok;
use crate::script::script_cost;
use crate::script::script_ok;
use crate::script::spec_align;
use crate::script::spec_align_from;
use crate::token::Token;
use crate::token::TokenSequence;
use crate::token::token_text;

verus! {

/// Whether the texts of two tokens are identical.
fn tok_eq(etext: &Vec<char>, t1: Token, atext: &Vec<char>, t2: Token) -> (r: bool)
    requires
        t1.start <= t1.end <= etext@.len(),
        t2.start <= t2.end <= atext@.len(),
    ensures
        r == (token_text(etext@, t1) == token_text(atext@, t2)),
{
    let len1 = t1.end - t1.start;
    let len2 = t2.end - t2.start;
    if len1 != len2 {
        proof {
            assert(token_text(etext@, t1).len() != token_text(atext@, t2).len());
        }
        return false;
    }
    let mut k: usize = 0;
    while k < len1
        invariant
            k <= len1,
            len1 == t1.end - t1.start,
            len1 == t2.end - t2.start,
            t1.start <= t1.end <= etext@.len(),
            t2.start <= t2.end <= atext@.len(),
            forall|x: int|
                0 <= x < k ==> #[trigger] etext@[t1.start + x] == atext@[t2.start + x],
        decreases len1 - k,
    {
        if etext[t1.start + k] != atext[t2.start + k] {
            proof {
                assert(token_text(etext@, t1)[k as int] != token_text(atext@, t2)[k as int]);
            }
            return false;
        }
        k = k + 1;
    }
    proof {
        assert forall|x: int| 0 <= x < token_text(etext@, t1).len() implies token_text(
            etext@,
            t1,
        )[x] == token_text(atext@, t2)[x] by {
            assert(etext@[t1.start + x] == atext@[t2.start + x]);
        }
        assert(token_text(etext@, t1) =~= token_text(atext@, t2));
    }
    true
}

/// The distance table is correct: `dp[i][j]` is the edit distance between
/// the token suffixes `e[i..]` and `a[j..]`.
pub open spec fn dp_ok(dp: Seq<Vec<usize>>, e: Seq<Seq<char>>, a: Seq<Seq<char>>) -> bool {
    &&& dp.len() == e.len() + 1
    &&& forall|i: int| 0 <= i <= e.len() ==> (#[trigger] dp[i])@.len() == a.len() + 1
    &&& forall|i: int, j: int|
        0 <= i <= e.len() && 0 <= j <= a.len() ==> (#[trigger] dp[i]@[j]) == dist_from(e, a, i, j)
}

/// Splicing one op out of a pinned decomposition.
proof fn lemma_pin_extend(all: Seq<EditOp>, done: Seq<EditOp>, op: EditOp, rest: Seq<EditOp>)
    requires
        all == done + (seq![op] + rest),
    ensures
        all == done.push(op) + rest,
{
    assert(done + (seq![op] + rest) =~= done.push(op) + rest);
}

/// Fill the table of suffix edit distances, last row and column first.
#[verifier::rlimit(100)]
fn fill_dp(e: &TokenSequence, a: &TokenSequence) -> (dp: Vec<Vec<usize>>)
    requires
        e.wf(),
        a.wf(),
        e.toks@.len() + a.toks@.len() < usize::MAX,
    ensures
        dp_ok(dp@, e@, a@),
{
    let ghost ev = e@;
    let ghost av = a@;
    let n = e.toks.len();
    let m = a.toks.len();
    proof {
        assert(ev.len() == n && av.len() == m);
    }
    let mut dp: Vec<Vec<usize>> = Vec::new();
    let mut r: usize = 0;
    while r <= n
        invariant
            r <= n + 1,
            n + m < usize::MAX,
            dp@.len() == r,
            forall|i: int| 0 <= i < r ==> (#[trigger] dp@[i])@.len() == m + 1,
        decreases n + 1 - r,
    {
        let row: Vec<usize> = vec![0usize; m + 1];
        dp.push(row);
        r = r + 1;
    }
    let mut i: usize = n + 1;
    while i > 0
        invariant
            i <= n + 1,
            n == ev.len(),
            m == av.len(),
            n + m < usize::MAX,
            e.wf(),
            a.wf(),
            ev == e@,
            av == a@,
            n == e.toks@.len(),
            m == a.toks@.len(),
            dp@.len() == n + 1,
            forall|x: int| 0 <= x <= n ==> (#[trigger] dp@[x])@.len() == m + 1,
            forall|x: int, y: int|
                i <= x <= n && 0 <= y <= m ==> (#[trigger] dp@[x]@[y]) == dist_from(ev, av, x, y),
        decreases i,
    {
        i = i - 1;
        let mut jj: usize = m + 1;
        while jj > 0
            invariant
                jj <= m + 1,
                i <= n,
                n == ev.len(),
                m == av.len(),
                n + m < usize::MAX,
                e.wf(),
                a.wf(),
                ev == e@,
                av == a@,
                n == e.toks@.len(),
                m == a.toks@.len(),
                dp@.len() == n + 1,
                forall|x: int| 0 <= x <= n ==> (#[trigger] dp@[x])@.len() == m + 1,
                forall|x: int, y: int|
                    i < x <= n && 0 <= y <= m ==> (#[trigger] dp@[x]@[y]) == dist_from(
                        ev,
                        av,
                        x,
                        y,
                    ),
                forall|y: int|
                    jj <= y <= m ==> (#[trigger] dp@[i as int]@[y]) == dist_from(
                        ev,
                        av,
                        i as int,
                        y,
                    ),
            decreases jj,
        {
            jj = jj - 1;
            let j = jj;
            proof {
                lemma_dist_bound(ev, av, i as int, j as int);
                if i < n {
                    lemma_dist_bound(ev, av, i + 1, j as int);
                }
                if j < m {
                    lemma_dist_bound(ev, av, i as int, j + 1);
                }
            }
            let val: usize;
            if i == n {
                val = m - j;
            } else if j == m {
                val = n - i;
            } else {
                let del = 1 + dp[i + 1][j];
                let ins = 1 + dp[i][j + 1];
                let mut v = if del <= ins {
                    del
                } else {
                    ins
                };
                proof {
                    assert(ev[i as int] == token_text(e.text@, e.toks@[i as int]));
                    assert(av[j as int] == token_text(a.text@, a.toks@[j as int]));
                }
                if tok_eq(&e.text, e.toks[i], &a.text, a.toks[j]) {
                    let diag = dp[i + 1][j + 1];
                    if diag < v {
                        v = diag;
                    }
                }
                val = v;
            }
            proof {
                assert(val == dist_from(ev, av, i as int, j as int));
            }
            let ghost old_dp = dp@;
            dp[i][j] = val;
            proof {
                assert(dp@[i as int]@ =~= old_dp[i as int]@.update(j as int, val));
                assert forall|x: int| 0 <= x <= n implies (#[trigger] dp@[x])@.len() == m + 1 by {
                    if x != i {
                        assert(dp@[x] == old_dp[x]);
                    }
                }
                assert forall|x: int, y: int|
                    i < x <= n && 0 <= y <= m implies (#[trigger] dp@[x]@[y]) == dist_from(
                    ev,
                    av,
                    x,
                    y,
                ) by {
                    assert(dp@[x] == old_dp[x]);
                }
                assert forall|y: int|
                    j <= y <= m implies (#[trigger] dp@[i as int]@[y]) == dist_from(
                    ev,
                    av,
                    i as int,
                    y,
                ) by {
                    if y != j {
                        assert(dp@[i as int]@[y] == old_dp[i as int]@[y]);
                    }
                }
            }
        }
    }
    dp
}

/// Which step the canonical aligner takes at `(i, j)`: 0 match, 1 delete,
/// 2 insert, 3 done (both positions at the end).
#[verifier::rlimit(100)]
fn step_at(e: &TokenSequence, a: &TokenSequence, dp: &Vec<Vec<usize>>, i: usize, j: usize) -> (r:
    u8)
    requires
        e.wf(),
        a.wf(),
        e.toks@.len() + a.toks@.len() < usize::MAX,
        dp_ok(dp@, e@, a@),
        i <= e.toks@.len(),
        j <= a.toks@.len(),
    ensures
        (r == 0) == eq_step(e@, a@, i as int, j as int),
        (r == 1) == del_step(e@, a@, i as int, j as int),
        (r == 2) == ins_step(e@, a@, i as int, j as int),
        r == 3 ==> i == e.toks@.len() && j == a.toks@.len(),
        r <= 3,
{
    let ghost ev = e@;
    let ghost av = a@;
    let n = e.toks.len();
    let m = a.toks.len();
    proof {
        assert(ev.len() == n && av.len() == m);
        lemma_dist_bound(ev, av, i as int, j as int);
        if i < n {
            lemma_dist_bound(ev, av, i + 1, j as int);
        }
        if j < m {
            lemma_dist_bound(ev, av, i as int, j + 1);
        }
        if !(i == n && j == m) {
            lemma_step_progress(ev, av, i as int, j as int);
        }
        if i < n {
            assert(ev[i as int] == token_text(e.text@, e.toks@[i as int]));
        }
        if j < m {
            assert(av[j as int] == token_text(a.text@, a.toks@[j as int]));
        }
    }
    if i < n && j < m && dp[i][j] == dp[i + 1][j + 1] && tok_eq(
        &e.text,
        e.toks[i],
        &a.text,
        a.toks[j],
    ) {
        proof {
            assert(ev[i as int] == av[j as int]);
        }
        0
    } else if i < n && dp[i][j] == 1 + dp[i + 1][j] {
        1
    } else if j < m && dp[i][j] == 1 + dp[i][j + 1] {
        2
    } else {
        3
    }
}


/// The canonical script at the head of a matching run: one Equal op for
/// the whole run.
proof fn lemma_eq_run_op(ev: Seq<Seq<char>>, av: Seq<Seq<char>>, ri: int, rj: int, i: int, j: int)
    requires
        0 <= ri < i <= ev.len() <= usize::MAX,
        0 <= rj < j <= av.len() <= usize::MAX,
        i - ri == j - rj,
        eq_run(ev, av, ri, rj) == i - ri,
    ensures
        spec_align_from(ev, av, ri, rj) == seq![
            (EditOp::Equal {
                i_start: ri as usize,
                i_end: i as usize,
                j_start: rj as usize,
                j_end: j as usize,
            }),
        ] + spec_align_from(ev, av, i, j),
{
}

/// The canonical script at the head of a delete run: one Delete op for
/// the whole run.
proof fn lemma_del_run_op(ev: Seq<Seq<char>>, av: Seq<Seq<char>>, ri: int, j: int, i: int)
    requires
        0 <= ri < i <= ev.len() <= usize::MAX,
        0 <= j <= av.len() <= usize::MAX,
        eq_run(ev, av, ri, j) == 0,
        del_run(ev, av, ri, j) == i - ri,
    ensures
        spec_align_from(ev, av, ri, j) == seq![
            (EditOp::Delete { i_start: ri as usize, i_end: i as usize }),
        ] + spec_align_from(ev, av, i, j),
{
}

/// The canonical script at the head of an insert run: one Insert op for
/// the whole run.
proof fn lemma_ins_run_op(ev: Seq<Seq<char>>, av: Seq<Seq<char>>, i: int, rj: int, j: int)
    requires
        0 <= i <= ev.len() <= usize::MAX,
        0 <= rj < j <= av.len() <= usize::MAX,
        eq_run(ev, av, i, rj) == 0,
        del_run(ev, av, i, rj) == 0,
        ins_run(ev, av, i, rj) == j - rj,
    ensures
        spec_align_from(ev, av, i, rj) == seq![
            (EditOp::Insert { j_start: rj as usize, j_end: j as usize }),
        ] + spec_align_from(ev, av, i, j),
{
}

/// Emit the maximal run of matching steps from `(i, j)` as one Equal op.
#[verifier::rlimit(100)]
fn emit_eq_run(
    e: &TokenSequence,
    a: &TokenSequence,
    dp: &Vec<Vec<usize>>,
    ops: &mut Vec<EditOp>,
    i: &mut usize,
    j: &mut usize,
)
    requires
        e.wf(),
        a.wf(),
        e.toks@.len() + a.toks@.len() < usize::MAX,
        dp_ok(dp@, e@, a@),
        *old(i) <= e.toks@.len(),
        *old(j) <= a.toks@.len(),
        eq_step(e@, a@, *old(i) as int, *old(j) as int),
    ensures
        *old(i) < *final(i) <= e.toks@.len(),
        *old(j) < *final(j) <= a.toks@.len(),
        *final(i) - *old(i) == *final(j) - *old(j),
        final(ops)@ == old(ops)@.push(
            (EditOp::Equal {
                i_start: *old(i),
                i_end: *final(i),
                j_start: *old(j),
                j_end: *final(j),
            }),
        ),
        spec_align_from(e@, a@, *old(i) as int, *old(j) as int) == seq![
            (EditOp::Equal {
                i_start: *old(i),
                i_end: *final(i),
                j_start: *old(j),
                j_end: *final(j),
            }),
        ] + spec_align_from(e@, a@, *final(i) as int, *final(j) as int),
{
    let ghost ev = e@;
    let ghost av = a@;
    let n = e.toks.len();
    let m = a.toks.len();
    let ri = *i;
    let rj = *j;
    *i = *i + 1;
    *j = *j + 1;
    while step_at(e, a, dp, *i, *j) == 0
        invariant
            ri < *i <= n,
            rj < *j <= m,
            *i - ri == *j - rj,
            n == e.toks@.len(),
            m == a.toks@.len(),
            n + m < usize::MAX,
            e.wf(),
            a.wf(),
            ev == e@,
            av == a@,
            dp_ok(dp@, ev, av),
            eq_run(ev, av, ri as int, rj as int) == (*i - ri) + eq_run(ev, av, *i as int, *j as int),
        decreases n - *i,
    {
        *i = *i + 1;
        *j = *j + 1;
    }
    let op = EditOp::Equal { i_start: ri, i_end: *i, j_start: rj, j_end: *j };
    proof {
        assert(eq_run(ev, av, *i as int, *j as int) == 0);
        assert(eq_run(ev, av, ri as int, rj as int) == *i - ri);
        lemma_eq_run_op(ev, av, ri as int, rj as int, *i as int, *j as int);
    }
    ops.push(op);
}

/// Emit the maximal run of delete steps from `(i, j)` as one Delete op.
#[verifier::rlimit(100)]
fn emit_del_run(
    e: &TokenSequence,
    a: &TokenSequence,
    dp: &Vec<Vec<usize>>,
    ops: &mut Vec<EditOp>,
    i: &mut usize,
    j: usize,
)
    requires
        e.wf(),
        a.wf(),
        e.toks@.len() + a.toks@.len() < usize::MAX,
        dp_ok(dp@, e@, a@),
        *old(i) <= e.toks@.len(),
        j <= a.toks@.len(),
        del_step(e@, a@, *old(i) as int, j as int),
    ensures
        *old(i) < *final(i) <= e.toks@.len(),
        final(ops)@ == old(ops)@.push(
            (EditOp::Delete { i_start: *old(i), i_end: *final(i) }),
        ),
        spec_align_from(e@, a@, *old(i) as int, j as int) == seq![
            (EditOp::Delete { i_start: *old(i), i_end: *final(i) }),
        ] + spec_align_from(e@, a@, *final(i) as int, j as int),
{
    let ghost ev = e@;
    let ghost av = a@;
    let n = e.toks.len();
    let m = a.toks.len();
    let ri = *i;
    *i = *i + 1;
    while step_at(e, a, dp, *i, j) == 1
        invariant
            ri < *i <= n,
            j <= m,
            n == e.toks@.len(),
            m == a.toks@.len(),
            n + m < usize::MAX,
            e.wf(),
            a.wf(),
            ev == e@,
            av == a@,
            dp_ok(dp@, ev, av),
            del_run(ev, av, ri as int, j as int) == (*i - ri) + del_run(ev, av, *i as int, j as int),
            eq_run(ev, av, ri as int, j as int) == 0,
        decreases n - *i,
    {
        *i = *i + 1;
    }
    let op = EditOp::Delete { i_start: ri, i_end: *i };
    proof {
        assert(del_run(ev, av, *i as int, j as int) == 0);
        assert(del_run(ev, av, ri as int, j as int) == *i - ri);
        lemma_del_run_op(ev, av, ri as int, j as int, *i as int);
    }
    ops.push(op);
}

/// Emit the maximal run of insert steps from `(i, j)` as one Insert op.
#[verifier::rlimit(100)]
fn emit_ins_run(
    e: &TokenSequence,
    a: &TokenSequence,
    dp: &Vec<Vec<usize>>,
    ops: &mut Vec<EditOp>,
    i: usize,
    j: &mut usize,
)
    requires
        e.wf(),
        a.wf(),
        e.toks@.len() + a.toks@.len() < usize::MAX,
        dp_ok(dp@, e@, a@),
        i <= e.toks@.len(),
        *old(j) <= a.toks@.len(),
        ins_step(e@, a@, i as int, *old(j) as int),
    ensures
        *old(j) < *final(j) <= a.toks@.len(),
        final(ops)@ == old(ops)@.push(
            (EditOp::Insert { j_start: *old(j), j_end: *final(j) }),
        ),
        spec_align_from(e@, a@, i as int, *old(j) as int) == seq![
            (EditOp::Insert { j_start: *old(j), j_end: *final(j) }),
        ] + spec_align_from(e@, a@, i as int, *final(j) as int),
{
    let ghost ev = e@;
    let ghost av = a@;
    let n = e.toks.len();
    let m = a.toks.len();
    let rj = *j;
    *j = *j + 1;
    while step_at(e, a, dp, i, *j) == 2
        invariant
            rj < *j <= m,
            i <= n,
            n == e.toks@.len(),
            m == a.toks@.len(),
            n + m < usize::MAX,
            e.wf(),
            a.wf(),
            ev == e@,
            av == a@,
            dp_ok(dp@, ev, av),
            ins_run(ev, av, i as int, rj as int) == (*j - rj) + ins_run(ev, av, i as int, *j as int),
            eq_run(ev, av, i as int, rj as int) == 0,
            del_run(ev, av, i as int, rj as int) == 0,
        decreases m - *j,
    {
        *j = *j + 1;
    }
    let op = EditOp::Insert { j_start: rj, j_end: *j };
    proof {
        assert(ins_run(ev, av, i as int, *j as int) == 0);
        assert(ins_run(ev, av, i as int, rj as int) == *j - rj);
        lemma_ins_run_op(ev, av, i as int, rj as int, *j as int);
    }
    ops.push(op);
}

/// Align two token sequences: compute the canonical minimal edit script.
///
/// The result is pinned to `spec_align`, covers both sequences exactly
/// (`script_ok`), and its Insert plus Delete token count is exactly the
/// edit distance between the two sequences.
#[verifier::rlimit(100)]
pub fn align(e: &TokenSequence, a: &TokenSequence) -> (r: Vec<EditOp>)
    requires
        e.wf(),
        a.wf(),
        e.toks@.len() + a.toks@.len() < usize::MAX,
    ensures
        r@ == spec_align(e@, a@),
        script_ok(r@, e@, a@),
        script_cost(r@) == edit_distance(e@, a@),
{
    let ghost ev = e@;
    let ghost av = a@;
    let n = e.toks.len();
    let m = a.toks.len();
    proof {
        assert(ev.len() == n && av.len() == m);
    }
    let dp = fill_dp(e, a);
    let mut ops: Vec<EditOp> = Vec::new();
    let mut i: usize = 0;
    let mut j: usize = 0;
    proof {
        assert(ops@ + spec_align_from(ev, av, 0, 0) =~= spec_align_from(ev, av, 0, 0));
    }
    while i < n || j < m
        invariant
            i <= n,
            j <= m,
            n == ev.len(),
            m == av.len(),
            n + m < usize::MAX,
            e.wf(),
            a.wf(),
            ev == e@,
            av == a@,
            n == e.toks@.len(),
            m == a.toks@.len(),
            dp_ok(dp@, ev, av),
            spec_align(ev, av) == ops@ + spec_align_from(ev, av, i as int, j as int),
        decreases n - i + m - j,
    {
        let step = step_at(e, a, &dp, i, j);
        let ghost old_ops = ops@;
        let ghost oi = i as int;
        let ghost oj = j as int;
        if step == 0 {
            emit_eq_run(e, a, &dp, &mut ops, &mut i, &mut j);
        } else if step == 1 {
            emit_del_run(e, a, &dp, &mut ops, &mut i, j);
        } else {
            proof {
                assert(ins_step(ev, av, oi, oj));
            }
            emit_ins_run(e, a, &dp, &mut ops, i, &mut j);
        }
        proof {
            lemma_pin_extend(
                spec_align(ev, av),
                old_ops,
                ops@[ops@.len() - 1],
                spec_align_from(ev, av, i as int, j as int),
            );
        }
    }
    proof {
        assert(spec_align_from(ev, av, i as int, j as int) =~= Seq::<EditOp>::empty());
        assert(ops@ =~= spec_align(ev, av));
        lemma_spec_align_ok(ev, av);
    }
    ops
}

} // verus!
