use vstd::prelude::*;

verus! {

/// Settings of the open-banking data source; it has none yet.
#[derive(Clone, Copy, Debug, Default)]
pub struct Config {}

/// One movement on an account. Money is held in minor units (hundredths of
/// the currency unit): `amount` is a magnitude, `balance_after` may be negative.
#[derive(Clone, Debug)]
pub struct Transaction {
    pub id: String,
    pub amount: u64,
    pub channel: String,
    pub authorization_token: String,
    pub transaction_type: String,
    pub debit_credit: String,
    pub narration: String,
    pub reference: String,
    pub transaction_time: String,
    pub value_date: String,
    pub balance_after: i64,
    pub status: String,
}

/// The answer of the open-banking service to a request for transactions.
#[derive(Clone, Debug)]
pub struct TransactionsResponse {
    pub status: String,
    pub message: String,
    pub data: TransactionsData,
}

#[derive(Clone, Debug)]
pub struct TransactionsData {
    pub summary: Summary,
    pub transactions: Vec<Transaction>,
}

/// What the service reports of an account over a period; money in minor units.
#[derive(Clone, Debug)]
pub struct Summary {
    pub account_number: String,
    pub currency_code: String,
    pub from: String,
    pub to: String,
    pub first_transaction: String,
    pub last_transaction: String,
    pub opening_balance: i64,
    pub closing_balance: i64,
    pub total_debit_count: u32,
    pub total_credit_count: u32,
    pub total_debit_value: u64,
    pub total_credit_value: u64,
    pub pages: u32,
    pub records_per_page: u32,
}

} // verus!
