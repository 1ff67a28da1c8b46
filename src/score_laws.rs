use crate::credit_scoring::{
    balance_of, balance_sum, credit_of, credit_tag, debit_of, debit_tag, failed_count,
    failure_of, is_failed, min_int, penalty_points, score_denominator, score_numerator,
    success_count, success_of, sum_of, total_credit, total_debit, INCOME_TARGET,
    LIQUIDITY_TARGET,
};
use crate::openbank::Transaction;
use vstd::prelude::*;

verus! {

broadcast use vstd::seq_lib::group_to_multiset_ensures;

proof fn lemma_sum_nonneg(s: Seq<Transaction>, f: spec_fn(Transaction) -> int)
    requires
        forall|t: Transaction| #[trigger] f(t) >= 0,
    ensures
        sum_of(s, f) >= 0,
    decreases s.len(),
{
    if s.len() > 0 {
        lemma_sum_nonneg(s.drop_last(), f);
    }
}

proof fn lemma_counts_add_up(s: Seq<Transaction>)
    ensures
        success_count(s) + failed_count(s) == s.len(),
        success_count(s) >= 0,
        failed_count(s) >= 0,
    decreases s.len(),
{
    if s.len() > 0 {
        lemma_counts_add_up(s.drop_last());
    }
}

proof fn lemma_credit_nonneg(s: Seq<Transaction>)
    ensures
        total_credit(s) >= 0,
{
    lemma_sum_nonneg(s, |t: Transaction| credit_of(t));
}

/// Taking one element out of a sequence takes its share out of any sum.
proof fn lemma_sum_of_remove(s: Seq<Transaction>, j: int, f: spec_fn(Transaction) -> int)
    requires
        0 <= j < s.len(),
    ensures
        sum_of(s, f) == sum_of(s.remove(j), f) + f(s[j]),
    decreases s.len(),
{
    if j == s.len() - 1 {
        assert(s.remove(j) =~= s.drop_last());
    } else {
        let p = s.drop_last();
        lemma_sum_of_remove(p, j, f);
        assert(s.remove(j).drop_last() =~= p.remove(j));
        assert(s.remove(j).last() == s.last());
    }
}

proof fn lemma_sum_of_permutation(a: Seq<Transaction>, b: Seq<Transaction>, f: spec_fn(Transaction) -> int)
    requires
        a.to_multiset() == b.to_multiset(),
    ensures
        sum_of(a, f) == sum_of(b, f),
    decreases a.len(),
{
    if a.len() > 0 {
        let x = a.last();
        assert(a.contains(x)) by {
            assert(a[a.len() - 1] == x);
        }
        assert(a.to_multiset().count(x) > 0);
        assert(b.to_multiset().count(x) > 0);
        assert(b.contains(x));
        let j = choose|j: int| 0 <= j < b.len() && b[j] == x;
        let rest = a.remove(a.len() - 1);
        assert(rest =~= a.drop_last());
        assert(rest.to_multiset() == b.remove(j).to_multiset());
        lemma_sum_of_permutation(rest, b.remove(j), f);
        lemma_sum_of_remove(b, j, f);
    } else {
        assert(a.to_multiset().len() == 0);
        assert(b.len() == b.to_multiset().len());
    }
}

proof fn lemma_sum_of_pointwise(a: Seq<Transaction>, b: Seq<Transaction>, f: spec_fn(Transaction) -> int)
    requires
        a.len() == b.len(),
        forall|i: int| 0 <= i < a.len() ==> f(#[trigger] a[i]) == f(b[i]),
    ensures
        sum_of(a, f) == sum_of(b, f),
    decreases a.len(),
{
    if a.len() > 0 {
        let (pa, pb) = (a.drop_last(), b.drop_last());
        assert forall|i: int| 0 <= i < pa.len() implies f(#[trigger] pa[i]) == f(pb[i]) by {
            assert(pa[i] == a[i] && pb[i] == b[i]);
        }
        lemma_sum_of_pointwise(pa, pb, f);
        assert(f(a[a.len() - 1]) == f(b[b.len() - 1]));
    }
}

/// The score is never negative and never above 100: its numerator lies between
/// zero and one hundred times its positive denominator.
pub proof fn lemma_score_in_range(s: Seq<Transaction>)
    ensures
        score_denominator(s) > 0,
        0 <= score_numerator(s) <= 100 * score_denominator(s),
{
    if s.len() > 0 {
        let n = s.len() as int;
        let ti = INCOME_TARGET as int;
        let tl = LIQUIDITY_TARGET as int;
        lemma_counts_add_up(s);
        lemma_credit_nonneg(s);
        crate::credit_scoring::lemma_weighted_at_most_full(
            n,
            total_credit(s),
            total_debit(s),
            balance_sum(s),
            success_count(s),
        );
        assert(penalty_points(n, failed_count(s)) >= 0) by (nonlinear_arith)
            requires
                failed_count(s) >= 0,
                n > 0,
                ti > 0,
                tl > 0,
                penalty_points(n, failed_count(s)) == 20 * failed_count(s) * n * ti * tl,
        ;
        assert(score_denominator(s) == n * ti * tl);
        assert(n * ti * tl > 0) by (nonlinear_arith)
            requires
                n > 0,
                ti > 0,
                tl > 0,
        ;
    }
}

/// A single failed transaction scores zero, provided its balance is at most
/// two thirds of the liquidity target (above that, its liquidity share of up to
/// thirty points outweighs the twenty-point penalty).
pub proof fn lemma_single_failure_scores_zero(t: Transaction)
    requires
        is_failed(t),
        3 * (t.balance_after as int) <= 2 * (LIQUIDITY_TARGET as int),
    ensures
        score_numerator(seq![t]) == 0,
{
    let s = seq![t];
    assert(s.drop_last() =~= Seq::<Transaction>::empty());
    assert(s.last() == t);
    let ti = INCOME_TARGET as int;
    let tl = LIQUIDITY_TARGET as int;
    reveal_with_fuel(sum_of, 2);
    assert(total_credit(s) == 0);
    assert(total_debit(s) == 0);
    assert(success_count(s) == 0);
    assert(failed_count(s) == 1);
    assert(balance_sum(s) == t.balance_after);
    let bl = min_int(balance_sum(s), tl);
    assert(30 * bl * ti <= 20 * ti * tl) by (nonlinear_arith)
        requires
            3 * bl <= 2 * tl,
            ti > 0,
    ;
}

/// A successful transaction whose direction is neither credit nor debit adds to
/// the success count and the balance sum, and to neither the credit nor the
/// debit total.
pub proof fn lemma_unrecognized_direction(s: Seq<Transaction>, t: Transaction)
    requires
        !is_failed(t),
        t.debit_credit@ != credit_tag(),
        t.debit_credit@ != debit_tag(),
    ensures
        total_credit(s.push(t)) == total_credit(s),
        total_debit(s.push(t)) == total_debit(s),
        success_count(s.push(t)) == success_count(s) + 1,
        failed_count(s.push(t)) == failed_count(s),
        balance_sum(s.push(t)) == balance_sum(s) + t.balance_after,
{
    assert(s.push(t).drop_last() =~= s);
    assert(s.push(t).last() == t);
}

/// The score depends on nothing but the amount, direction, balance and status
/// of each transaction; in particular the same input always scores the same.
pub proof fn lemma_score_depends_on_scored_fields(a: Seq<Transaction>, b: Seq<Transaction>)
    requires
        a.len() == b.len(),
        forall|i: int|
            0 <= i < a.len() ==> {
                &&& (#[trigger] a[i]).amount == b[i].amount
                &&& a[i].debit_credit@ == b[i].debit_credit@
                &&& a[i].balance_after == b[i].balance_after
                &&& a[i].status@ == b[i].status@
            },
    ensures
        score_numerator(a) == score_numerator(b),
        score_denominator(a) == score_denominator(b),
{
    lemma_sum_of_pointwise(a, b, |t: Transaction| credit_of(t));
    lemma_sum_of_pointwise(a, b, |t: Transaction| debit_of(t));
    lemma_sum_of_pointwise(a, b, |t: Transaction| balance_of(t));
    lemma_sum_of_pointwise(a, b, |t: Transaction| success_of(t));
    lemma_sum_of_pointwise(a, b, |t: Transaction| failure_of(t));
}

/// Reordering the transactions leaves the score unchanged.
pub proof fn lemma_score_order_independent(a: Seq<Transaction>, b: Seq<Transaction>)
    requires
        a.to_multiset() == b.to_multiset(),
    ensures
        score_numerator(a) == score_numerator(b),
        score_denominator(a) == score_denominator(b),
{
    assert(a.len() == a.to_multiset().len());
    assert(b.len() == b.to_multiset().len());
    lemma_sum_of_permutation(a, b, |t: Transaction| credit_of(t));
    lemma_sum_of_permutation(a, b, |t: Transaction| debit_of(t));
    lemma_sum_of_permutation(a, b, |t: Transaction| balance_of(t));
    lemma_sum_of_permutation(a, b, |t: Transaction| success_of(t));
    lemma_sum_of_permutation(a, b, |t: Transaction| failure_of(t));
}

} // verus!
