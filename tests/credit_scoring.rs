use credit_core::app::AppState;
use credit_core::credit_scoring::{
    calculate_heuristic_score, summarize, HeuristicScore, ScoringConfig, ScoringModel,
};
use credit_core::openbank::Transaction;

fn tx(
    id: &str,
    amount: u64,
    transaction_type: &str,
    debit_credit: &str,
    narration: &str,
    reference: &str,
    date: &str,
    balance_after: i64,
    status: &str,
) -> Transaction {
    Transaction {
        id: id.into(),
        amount,
        channel: "ATM".into(),
        authorization_token: "x".into(),
        transaction_type: transaction_type.into(),
        debit_credit: debit_credit.into(),
        narration: narration.into(),
        reference: reference.into(),
        transaction_time: date.into(),
        value_date: date.into(),
        balance_after,
        status: status.into(),
    }
}

fn simple(amount: u64, debit_credit: &str, balance_after: i64, status: &str) -> Transaction {
    tx("1", amount, "TRF", debit_credit, "n", "r", "2023-01-01", balance_after, status)
}

fn as_f64(s: HeuristicScore) -> f64 {
    s.numerator as f64 / s.denominator as f64
}

#[test]
fn testing_calculate_heuristic_score() {
    let mut history = Vec::new();
    history.push(tx("1", 5_000_000_000, "TRF", "CREDIT", "Salary", "ref1", "2023-01-01", 500_000, "SUCCESSFUL"));
    for _ in 0..8 {
        history.push(tx("8", 5_000_000_000, "TRF", "CREDIT", "Salary", "ref1", "2023-01-01", 500_000, "SUCCESSFUL"));
    }
    for _ in 0..10 {
        history.push(tx("1", 50_000_000, "TRF", "CREDIT", "Salary", "ref1", "2023-01-01", 500_000, "SUCCESSFUL"));
    }
    history.push(tx("2", 200_000, "WDL", "DEBIT", "Rent", "ref2", "2023-01-02", 300_000, "SUCCESSFUL"));
    history.push(tx("3", 200_000, "WDL", "DEBIT", "Shopping", "ref2", "2023-01-02", 300_000, "SUCCESSFUL"));
    history.push(tx("4", 10_000, "WDL", "DEBIT", "Fail Test", "ref3", "2023-01-03", 300_000, "FAILED"));
    history.push(tx("5", 500_000_000, "TRF", "CREDIT", "Salary", "ref1", "2023-01-01", 500_000, "SUCCESSFUL"));
    history.push(tx("6", 500_000_000, "TRF", "CREDIT", "Salary", "ref1", "2023-01-01", 500_000, "SUCCESSFUL"));
    assert_eq!(history.len(), 24);

    let score = calculate_heuristic_score(&history);
    println!("Customer Credit Score: {:.2}", as_f64(score));
    assert_eq!(score.numerator, 937_000_000_000_000);
    assert_eq!(score.denominator, 12_000_000_000_000);
    assert!((as_f64(score) - 78.0833).abs() < 0.001);
}

#[test]
fn empty_history_scores_zero() {
    let score = calculate_heuristic_score(&[]);
    assert_eq!(score.numerator, 0);
    assert_eq!(score.denominator, 1);
}

#[test]
fn single_failed_transaction_scores_zero() {
    let score = calculate_heuristic_score(&[simple(0, "DEBIT", 100_000, "FAILED")]);
    assert_eq!(score.numerator, 0);
    assert_eq!(score.denominator, 500_000_000_000);
}

#[test]
fn single_failed_transaction_with_high_balance_keeps_liquidity() {
    let score = calculate_heuristic_score(&[simple(0, "DEBIT", 500_000, "FAILED")]);
    assert_eq!(score.numerator, 5_000_000_000_000);
    assert_eq!(as_f64(score), 10.0);
}

#[test]
fn pure_credit_high_balance_scores_full() {
    let score = calculate_heuristic_score(&[simple(1_000_000, "CREDIT", 500_000, "SUCCESSFUL")]);
    assert_eq!(score.numerator, 100 * score.denominator);
    assert_eq!(as_f64(score), 100.0);
}

#[test]
fn mixed_debit_credit_with_one_failure() {
    let txs = vec![
        simple(500_000, "CREDIT", 500_000, "SUCCESSFUL"),
        simple(200_000, "DEBIT", 300_000, "SUCCESSFUL"),
        simple(10_000, "DEBIT", 300_000, "FAILED"),
    ];
    let score = calculate_heuristic_score(&txs);
    assert_eq!(score.numerator, 73_000_000_000_000);
    assert_eq!(score.denominator, 1_500_000_000_000);
    assert!((as_f64(score) - 48.6667).abs() < 0.001);
}

#[test]
fn unrecognized_direction_counts_as_success_only() {
    let txs = vec![simple(300_000, "TRANSFER", 200_000, "SUCCESSFUL")];
    let summary = summarize(&txs);
    assert_eq!(summary.total_credit, 0);
    assert_eq!(summary.total_debit, 0);
    assert_eq!(summary.success_count, 1);
    assert_eq!(summary.failed_count, 0);
    assert_eq!(summary.balance_sum, 200_000);
    let score = calculate_heuristic_score(&txs);
    assert_eq!(as_f64(score), 22.0);
}

#[test]
fn empty_tags_are_tolerated() {
    let txs = vec![simple(300_000, "", 0, "")];
    let summary = summarize(&txs);
    assert_eq!(summary.success_count, 1);
    assert_eq!(summary.total_credit, 0);
    assert_eq!(calculate_heuristic_score(&txs).numerator, 5_000_000_000_000);
}

#[test]
fn scoring_twice_gives_the_same_result() {
    let txs = vec![
        simple(500_000, "CREDIT", 500_000, "SUCCESSFUL"),
        simple(200_000, "DEBIT", 300_000, "SUCCESSFUL"),
    ];
    let a = calculate_heuristic_score(&txs);
    let b = calculate_heuristic_score(&txs);
    assert_eq!(a.numerator, b.numerator);
    assert_eq!(a.denominator, b.denominator);
}

#[test]
fn order_does_not_change_the_score() {
    let a = vec![
        simple(500_000, "CREDIT", 500_000, "SUCCESSFUL"),
        simple(200_000, "DEBIT", 300_000, "SUCCESSFUL"),
        simple(10_000, "DEBIT", -300_000, "FAILED"),
    ];
    let b = vec![a[2].clone(), a[0].clone(), a[1].clone()];
    let x = calculate_heuristic_score(&a);
    let y = calculate_heuristic_score(&b);
    assert_eq!(x.numerator, y.numerator);
    assert_eq!(x.denominator, y.denominator);
}

#[test]
fn five_failures_always_score_zero() {
    let mut txs = vec![simple(5_000_000, "CREDIT", 900_000_000, "SUCCESSFUL")];
    for _ in 0..5 {
        txs.push(simple(1, "DEBIT", 900_000_000, "FAILED"));
    }
    assert_eq!(calculate_heuristic_score(&txs).numerator, 0);
}

#[test]
fn deeply_negative_balance_scores_zero() {
    let txs = vec![simple(u64::MAX, "CREDIT", i64::MIN, "SUCCESSFUL"), simple(u64::MAX, "CREDIT", i64::MIN, "SUCCESSFUL")];
    let summary = summarize(&txs);
    assert_eq!(summary.total_credit, 2 * (u64::MAX as u128));
    assert_eq!(summary.balance_sum, 2 * (i64::MIN as i128));
    assert_eq!(calculate_heuristic_score(&txs).numerator, 0);
}

#[test]
fn negative_balance_lowers_liquidity() {
    // income 40, liquidity -3, cash flow 20, reliability 10
    let txs = vec![simple(1_000_000, "CREDIT", -50_000, "SUCCESSFUL")];
    let score = calculate_heuristic_score(&txs);
    assert_eq!(as_f64(score), 67.0);
}

#[test]
fn debit_above_credit_loses_cash_flow() {
    // income 20, liquidity 0, no cash flow, reliability 10
    let txs = vec![
        simple(500_000, "CREDIT", 0, "SUCCESSFUL"),
        simple(600_000, "DEBIT", 0, "SUCCESSFUL"),
    ];
    assert_eq!(as_f64(calculate_heuristic_score(&txs)), 30.0);
}

#[test]
fn default_scoring_model() {
    let config = ScoringConfig::default();
    match config.model {
        ScoringModel::HeuristicWeighted { target_balance } => assert_eq!(target_balance, 1_000_000),
    }
    let state = AppState::new();
    assert_eq!(state.scoring_config, config);
    assert_eq!(ScoringModel::default(), config.model);
}
