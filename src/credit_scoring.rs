use crate::openbank::Transaction;
use vstd::prelude::*;

verus! {

/// Total credit, in minor units, that earns the whole income sub-score.
pub const INCOME_TARGET: u64 = 1_000_000;

/// Average balance, in minor units, that earns the whole liquidity sub-score.
pub const LIQUIDITY_TARGET: u64 = 500_000;

/// The scoring model in use and its parameters.
#[derive(Clone, Copy, Debug, PartialEq, Eq, Structural)]
pub struct ScoringConfig {
    pub model: ScoringModel,
}

/// The scoring models on offer. The target balance, in minor units, is kept
/// for the model's parameters; the heuristic formula does not read it.
#[derive(Clone, Copy, Debug, PartialEq, Eq, Structural)]
pub enum ScoringModel {
    HeuristicWeighted { target_balance: i64 },
}

impl Default for ScoringModel {
    fn default() -> (r: Self)
        ensures
            r == (ScoringModel::HeuristicWeighted { target_balance: 1_000_000 }),
    {
        ScoringModel::HeuristicWeighted { target_balance: 1_000_000 }
    }
}

impl Default for ScoringConfig {
    fn default() -> (r: Self)
        ensures
            r == (ScoringConfig { model: ScoringModel::HeuristicWeighted { target_balance: 1_000_000 } }),
    {
        ScoringConfig { model: ScoringModel::default() }
    }
}

/// A score as it is presented: a whole number from 0 to 100, a risk level
/// ("Low", "Medium" or "High") and the factors behind it.
#[derive(Clone, Debug)]
pub struct CreditScore {
    pub total_score: u8,
    pub risk_level: String,
    pub factors: Vec<String>,
}

pub open spec fn failed_tag() -> Seq<char> {
    seq!['F', 'A', 'I', 'L', 'E', 'D']
}

pub open spec fn credit_tag() -> Seq<char> {
    seq!['C', 'R', 'E', 'D', 'I', 'T']
}

pub open spec fn debit_tag() -> Seq<char> {
    seq!['D', 'E', 'B', 'I', 'T']
}

pub open spec fn is_failed(t: Transaction) -> bool {
    t.status@ == failed_tag()
}

/// What a transaction adds to the total credit: its amount when it succeeded
/// and is tagged as a credit.
pub open spec fn credit_of(t: Transaction) -> int {
    if !is_failed(t) && t.debit_credit@ == credit_tag() {
        t.amount as int
    } else {
        0
    }
}

/// What a transaction adds to the total debit.
pub open spec fn debit_of(t: Transaction) -> int {
    if !is_failed(t) && t.debit_credit@ == debit_tag() {
        t.amount as int
    } else {
        0
    }
}

/// Every transaction, failed or not, adds its balance to the balance sum.
pub open spec fn balance_of(t: Transaction) -> int {
    t.balance_after as int
}

pub open spec fn success_of(t: Transaction) -> int {
    if is_failed(t) {
        0
    } else {
        1
    }
}

pub open spec fn failure_of(t: Transaction) -> int {
    if is_failed(t) {
        1
    } else {
        0
    }
}

pub open spec fn sum_of(s: Seq<Transaction>, f: spec_fn(Transaction) -> int) -> int
    decreases s.len(),
{
    if s.len() == 0 {
        0
    } else {
        sum_of(s.drop_last(), f) + f(s.last())
    }
}

pub open spec fn total_credit(s: Seq<Transaction>) -> int {
    sum_of(s, |t: Transaction| credit_of(t))
}

pub open spec fn total_debit(s: Seq<Transaction>) -> int {
    sum_of(s, |t: Transaction| debit_of(t))
}

pub open spec fn balance_sum(s: Seq<Transaction>) -> int {
    sum_of(s, |t: Transaction| balance_of(t))
}

pub open spec fn success_count(s: Seq<Transaction>) -> int {
    sum_of(s, |t: Transaction| success_of(t))
}

pub open spec fn failed_count(s: Seq<Transaction>) -> int {
    sum_of(s, |t: Transaction| failure_of(t))
}

/// The totals that the score is computed from, gathered in one pass.
#[derive(Clone, Copy, Debug)]
pub struct AccountSummary {
    pub total_credit: u128,
    pub total_debit: u128,
    pub balance_sum: i128,
    pub success_count: usize,
    pub failed_count: usize,
    pub count: usize,
}

impl AccountSummary {
    pub open spec fn describes(self, s: Seq<Transaction>) -> bool {
        &&& self.total_credit == total_credit(s)
        &&& self.total_debit == total_debit(s)
        &&& self.balance_sum == balance_sum(s)
        &&& self.success_count == success_count(s)
        &&& self.failed_count == failed_count(s)
        &&& self.count == s.len()
    }
}

/// Adding one more transaction to a prefix adds its share to every total.
proof fn lemma_sum_of_prefix(s: Seq<Transaction>, i: int, f: spec_fn(Transaction) -> int)
    requires
        0 <= i < s.len(),
    ensures
        sum_of(s.take(i + 1), f) == sum_of(s.take(i), f) + f(s[i]),
{
    assert(s.take(i + 1).drop_last() =~= s.take(i));
}

/// Gathers the totals of `transactions` in a single pass.
pub fn summarize(transactions: &[Transaction]) -> (r: AccountSummary)
    ensures
        r.describes(transactions@),
        r.success_count + r.failed_count == r.count,
{
    let ghost s = transactions@;
    let failed = "FAILED".to_owned();
    let credit = "CREDIT".to_owned();
    let debit = "DEBIT".to_owned();
    proof {
        reveal_strlit("FAILED");
        reveal_strlit("CREDIT");
        reveal_strlit("DEBIT");
        assert(failed@ =~= failed_tag());
        assert(credit@ =~= credit_tag());
        assert(debit@ =~= debit_tag());
    }
    let mut total_credit_acc: u128 = 0;
    let mut total_debit_acc: u128 = 0;
    let mut balance_acc: i128 = 0;
    let mut successes: usize = 0;
    let mut failures: usize = 0;
    let mut i: usize = 0;
    while i < transactions.len()
        invariant
            s == transactions@,
            failed@ == failed_tag(),
            credit@ == credit_tag(),
            debit@ == debit_tag(),
            0 <= i <= s.len(),
            total_credit_acc == total_credit(s.take(i as int)),
            total_debit_acc == total_debit(s.take(i as int)),
            balance_acc == balance_sum(s.take(i as int)),
            successes == success_count(s.take(i as int)),
            failures == failed_count(s.take(i as int)),
            successes + failures == i,
            total_credit_acc <= i * 0xffff_ffff_ffff_ffffint,
            total_debit_acc <= i * 0xffff_ffff_ffff_ffffint,
            i * (i64::MIN as int) <= balance_acc <= i * (i64::MAX as int),
        decreases s.len() - i,
    {
        let tx = &transactions[i];
        proof {
            let ii = i as int;
            lemma_sum_of_prefix(s, ii, |t: Transaction| credit_of(t));
            lemma_sum_of_prefix(s, ii, |t: Transaction| debit_of(t));
            lemma_sum_of_prefix(s, ii, |t: Transaction| balance_of(t));
            lemma_sum_of_prefix(s, ii, |t: Transaction| success_of(t));
            lemma_sum_of_prefix(s, ii, |t: Transaction| failure_of(t));
            assert((ii + 1) * 0xffff_ffff_ffff_ffffint == ii * 0xffff_ffff_ffff_ffffint
                + 0xffff_ffff_ffff_ffffint);
            assert((ii + 1) * (i64::MIN as int) == ii * (i64::MIN as int) + (i64::MIN as int));
            assert((ii + 1) * (i64::MAX as int) == ii * (i64::MAX as int) + (i64::MAX as int));
            assert(i < usize::MAX);
        }
        balance_acc = balance_acc + tx.balance_after as i128;
        if tx.status == failed {
            failures = failures + 1;
        } else {
            successes = successes + 1;
            if tx.debit_credit == credit {
                total_credit_acc = total_credit_acc + tx.amount as u128;
            } else if tx.debit_credit == debit {
                total_debit_acc = total_debit_acc + tx.amount as u128;
            }
        }
        i = i + 1;
    }
    proof {
        assert(s.take(s.len() as int) =~= s);
    }
    AccountSummary {
        total_credit: total_credit_acc,
        total_debit: total_debit_acc,
        balance_sum: balance_acc,
        success_count: successes,
        failed_count: failures,
        count: transactions.len(),
    }
}

pub open spec fn min_int(a: int, b: int) -> int {
    if a <= b {
        a
    } else {
        b
    }
}

pub open spec fn max_int(a: int, b: int) -> int {
    if a >= b {
        a
    } else {
        b
    }
}

/// The unit of the score's numerator is `1 / (n * INCOME_TARGET * LIQUIDITY_TARGET)`
/// for `n` transactions; in that unit the four weighted sub-scores are:
/// income, `0.4 * min(credit / INCOME_TARGET * 100, 100)`;
/// liquidity, `0.3 * min(balance / n / LIQUIDITY_TARGET * 100, 100)`;
/// cash flow, `0.2 * 100` when credit exceeds debit, else nothing;
/// reliability, `0.1 * successes / n * 100`.
pub open spec fn weighted_points(n: int, credit: int, debit: int, balance: int, successes: int) -> int {
    let ti = INCOME_TARGET as int;
    let tl = LIQUIDITY_TARGET as int;
    40 * min_int(credit, ti) * n * tl + 30 * min_int(balance, n * tl) * ti + (if credit > debit {
        20 * n * ti * tl
    } else {
        0
    }) + 10 * successes * ti * tl
}

/// Twenty points for each failed transaction, in the unit of `weighted_points`.
pub open spec fn penalty_points(n: int, failures: int) -> int {
    20 * failures * n * (INCOME_TARGET as int) * (LIQUIDITY_TARGET as int)
}

/// The score is `score_numerator(s) / score_denominator(s)`.
pub open spec fn score_denominator(s: Seq<Transaction>) -> int {
    if s.len() == 0 {
        1
    } else {
        s.len() * (INCOME_TARGET as int) * (LIQUIDITY_TARGET as int)
    }
}

/// The weighted sub-scores less the penalty, and never below zero.
pub open spec fn score_numerator(s: Seq<Transaction>) -> int {
    if s.len() == 0 {
        0
    } else {
        max_int(
            0,
            weighted_points(
                s.len() as int,
                total_credit(s),
                total_debit(s),
                balance_sum(s),
                success_count(s),
            ) - penalty_points(s.len() as int, failed_count(s)),
        )
    }
}

/// A score of the heuristic model, kept exact as a fraction.
#[derive(Clone, Copy, Debug)]
pub struct HeuristicScore {
    pub numerator: u128,
    pub denominator: u128,
}

/// The weighted sub-scores reach at most 100 points, and fall below zero once
/// the balance sum is under minus three times the liquidity target per
/// transaction.
pub(crate) proof fn lemma_weighted_at_most_full(n: int, credit: int, debit: int, balance: int, successes: int)
    requires
        n > 0,
        credit >= 0,
        0 <= successes <= n,
    ensures
        weighted_points(n, credit, debit, balance, successes)
            <= 100 * n * (INCOME_TARGET as int) * (LIQUIDITY_TARGET as int),
        balance < -3 * n * (LIQUIDITY_TARGET as int) ==> weighted_points(
            n,
            credit,
            debit,
            balance,
            successes,
        ) < 0,
{
    let ti = INCOME_TARGET as int;
    let tl = LIQUIDITY_TARGET as int;
    let ci = min_int(credit, ti);
    let bl = min_int(balance, n * tl);
    assert(40 * ci * n * tl <= 40 * n * ti * tl) by (nonlinear_arith)
        requires
            ci <= ti,
            n > 0,
            tl > 0,
    ;
    assert(30 * bl * ti <= 30 * n * ti * tl) by (nonlinear_arith)
        requires
            bl <= n * tl,
            ti > 0,
    ;
    assert(10 * successes * ti * tl <= 10 * n * ti * tl) by (nonlinear_arith)
        requires
            successes <= n,
            ti > 0,
            tl > 0,
    ;
    if balance < -3 * n * tl {
        assert(30 * bl * ti < -90 * n * ti * tl) by (nonlinear_arith)
            requires
                bl < -3 * n * tl,
                ti > 0,
        ;
    }
}

/// Scores `transactions` by the heuristic weighted model, exactly: the score is
/// `r.numerator / r.denominator`, from 0 to 100, and 0 when there are no
/// transactions.
pub fn calculate_heuristic_score(transactions: &[Transaction]) -> (r: HeuristicScore)
    ensures
        r.numerator == score_numerator(transactions@),
        r.denominator == score_denominator(transactions@),
        transactions@.len() == 0 ==> r.numerator == 0,
        0 < r.denominator,
        r.numerator <= 100 * r.denominator,
{
    proof {
        crate::score_laws::lemma_score_in_range(transactions@);
    }
    if transactions.len() == 0 {
        return HeuristicScore { numerator: 0, denominator: 1 };
    }
    let summary = summarize(transactions);
    let n: i128 = summary.count as i128;
    let ti: i128 = INCOME_TARGET as i128;
    let tl: i128 = LIQUIDITY_TARGET as i128;
    let ghost w = weighted_points(
        n as int,
        summary.total_credit as int,
        summary.total_debit as int,
        summary.balance_sum as int,
        summary.success_count as int,
    );
    proof {
        assert(n <= 0xffff_ffff_ffff_ffffint);
        lemma_weighted_at_most_full(
            n as int,
            summary.total_credit as int,
            summary.total_debit as int,
            summary.balance_sum as int,
            summary.success_count as int,
        );
    }
    let unit: i128 = n * 500_000_000_000;
    let denominator: u128 = unit as u128;
    proof {
        assert(unit == n * ti * tl);
    }
    // Five failures cost 100 points, all that the weighted sub-scores can give.
    if summary.failed_count >= 5 {
        proof {
            assert(20 * summary.failed_count * n * ti * tl >= 100 * n * ti * tl) by (nonlinear_arith)
                requires
                    summary.failed_count >= 5,
                    n > 0,
                    ti > 0,
                    tl > 0,
            ;
        }
        return HeuristicScore { numerator: 0, denominator };
    }
    let n_tl: i128 = n * tl;
    proof {
        assert(n_tl == n * 500_000);
    }
    // So low a balance outweighs every other sub-score.
    if summary.balance_sum < -3 * n_tl {
        return HeuristicScore { numerator: 0, denominator };
    }
    let ci: i128 = if summary.total_credit < INCOME_TARGET as u128 {
        summary.total_credit as i128
    } else {
        ti
    };
    let bl: i128 = if summary.balance_sum < n_tl {
        summary.balance_sum
    } else {
        n_tl
    };
    proof {
        assert(40 * ci * n <= 40 * ti * 0xffff_ffff_ffff_ffffint) by (nonlinear_arith)
            requires
                0 <= ci <= ti,
                0 < n <= 0xffff_ffff_ffff_ffffint,
                ti == 1_000_000,
        ;
        assert(-3 * 0xffff_ffff_ffff_ffffint * tl <= bl <= 0xffff_ffff_ffff_ffffint * tl)
            by (nonlinear_arith)
            requires
                -3 * n * tl <= bl <= n * tl,
                0 < n <= 0xffff_ffff_ffff_ffffint,
                tl == 500_000,
        ;
        assert(summary.success_count * 5_000_000_000_000int <= 0xffff_ffff_ffff_ffffint * 5_000_000_000_000int)
            by (nonlinear_arith)
            requires
                summary.success_count <= 0xffff_ffff_ffff_ffffint,
        ;
    }
    let income: i128 = 40 * ci * n * tl;
    let liquidity: i128 = 30 * bl * ti;
    let cashflow: i128 = if summary.total_credit > summary.total_debit {
        20 * unit
    } else {
        0
    };
    let reliability: i128 = 10 * (summary.success_count as i128) * ti * tl;
    proof {
        let m = 0xffff_ffff_ffff_ffffint * 500_000_000_000int;
        assert(0 <= unit <= m);
        assert(0 <= 20 * summary.failed_count * unit <= 80 * m) by (nonlinear_arith)
            requires
                0 <= summary.failed_count <= 4,
                0 <= unit <= m,
        ;
        assert(0 <= income <= 40 * m) by (nonlinear_arith)
            requires
                income == 40 * ci * n * tl,
                0 <= ci <= 1_000_000,
                0 < n <= 0xffff_ffff_ffff_ffffint,
                tl == 500_000,
                m == 0xffff_ffff_ffff_ffffint * 500_000_000_000int,
        ;
        assert(-90 * m <= liquidity <= 30 * m) by (nonlinear_arith)
            requires
                liquidity == 30 * bl * ti,
                -3 * 0xffff_ffff_ffff_ffffint * 500_000 <= bl <= 0xffff_ffff_ffff_ffffint * 500_000,
                ti == 1_000_000,
                m == 0xffff_ffff_ffff_ffffint * 500_000_000_000int,
        ;
        assert(0 <= reliability <= 10 * m) by (nonlinear_arith)
            requires
                reliability == 10 * summary.success_count * ti * tl,
                0 <= summary.success_count <= 0xffff_ffff_ffff_ffffint,
                ti == 1_000_000,
                tl == 500_000,
                m == 0xffff_ffff_ffff_ffffint * 500_000_000_000int,
        ;
    }
    let penalty: i128 = 20 * (summary.failed_count as i128) * unit;
    proof {
        assert(penalty == 20 * summary.failed_count * n * ti * tl) by (nonlinear_arith)
            requires
                penalty == 20 * (summary.failed_count as int) * unit,
                unit == n * ti * tl,
        ;
        assert(cashflow == (if summary.total_credit > summary.total_debit {
            20 * n * ti * tl
        } else {
            0
        })) by (nonlinear_arith)
            requires
                cashflow == (if summary.total_credit > summary.total_debit {
                    20 * unit
                } else {
                    0
                }),
                unit == n * ti * tl,
        ;
        assert(income + liquidity + cashflow + reliability == w);
    }
    let points: i128 = income + liquidity + cashflow + reliability - penalty;
    let numerator: u128 = if points > 0 {
        points as u128
    } else {
        0
    };
    HeuristicScore { numerator, denominator }
}

} // verus!
