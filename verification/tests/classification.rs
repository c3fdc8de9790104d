use wallet_checker::account_type::AccountType;
use wallet_checker::horizon_helper::{
    check_if_centralized, is_ledger_sorted, page_exhausted, tx_frequency_for_account, TxRecord,
};
use wallet_checker::runner::{needs_frequency_check, Runner, TargetAddress};

fn runner() -> Runner {
    Runner::new(
        String::from("https://horizon.stellar.org/"),
        TargetAddress::Contract(String::from("CCJZ5DGASBWQXR5MPFCJXMBI333XE5U3FSJTNQU7RIKE3P5GN2K2WYYA")),
        "admin",
    )
}

fn rec(ledger: u64, token: &str, source: &str, fee: &str) -> TxRecord {
    TxRecord {
        ledger,
        paging_token: String::from(token),
        source_account: String::from(source),
        fee_account: String::from(fee),
    }
}

#[test]
fn deactivated_when_only_weightless_signers() {
    let verdict = check_if_centralized(&vec![0], 1);
    assert_eq!(verdict, AccountType::Deactivated);
}

#[test]
fn deactivated_when_no_signers() {
    let verdict = check_if_centralized(&vec![], 1);
    assert_eq!(verdict, AccountType::Deactivated);
}

#[test]
fn hot_wallet_when_one_signer_reaches_threshold() {
    let verdict = check_if_centralized(&vec![5], 5);
    assert_eq!(verdict, AccountType::HotWallet);
}

#[test]
fn multisig_two_of_two() {
    let verdict = check_if_centralized(&vec![10, 10], 15);
    assert_eq!(verdict, AccountType::Multisig(2, 2));
}

#[test]
fn multisig_sorts_weights_descending() {
    // sorted descending: [3, 2, 1]; 3 < 4, 3 + 2 >= 4
    let verdict = check_if_centralized(&vec![1, 2, 3], 4);
    assert_eq!(verdict, AccountType::Multisig(2, 3));
}

#[test]
fn deactivated_when_sum_falls_short_of_threshold() {
    let verdict = check_if_centralized(&vec![2, 2, 2], 10);
    assert_eq!(verdict, AccountType::Deactivated);
}

#[test]
fn threshold_comparison_is_greater_or_equal() {
    // the sum must reach the threshold, not exceed it
    let verdict = check_if_centralized(&vec![3, 3], 6);
    assert_eq!(verdict, AccountType::Multisig(2, 2));
}

#[test]
fn frequency_minimum_gap_of_three_records() {
    let acct = String::from("GA1");
    let records = vec![
        rec(100, "t1", "GA1", "GB"),
        rec(105, "t2", "GA1", "GB"),
        rec(260, "t3", "GB", "GA1"),
    ];
    assert_eq!(tx_frequency_for_account(&records, &acct), 5);
}

#[test]
fn frequency_gap_of_two_records() {
    let acct = String::from("GA1");
    let records = vec![rec(100, "t1", "GA1", "GB"), rec(300, "t2", "GA1", "GB")];
    assert_eq!(tx_frequency_for_account(&records, &acct), 200);
}

#[test]
fn frequency_unbounded_below_two_records() {
    let acct = String::from("GA1");
    let records = vec![rec(100, "t1", "GA1", "GB")];
    assert_eq!(tx_frequency_for_account(&records, &acct), u64::MAX);
    let none: Vec<TxRecord> = vec![];
    assert_eq!(tx_frequency_for_account(&none, &acct), u64::MAX);
}

#[test]
fn frequency_ignores_unrelated_records() {
    let acct = String::from("GA1");
    let records = vec![
        rec(100, "t1", "GA1", "GB"),
        rec(101, "t2", "GC", "GD"),
        rec(110, "t3", "GB", "GA1"),
    ];
    // the unrelated record at ledger 101 does not create a gap of 1
    assert_eq!(tx_frequency_for_account(&records, &acct), 10);
}

#[test]
fn pagination_boundary_record_counted_once() {
    let acct = String::from("GA1");
    // two pages overlap at the record with token t2; without deduplication
    // the doubled record would fake a zero gap
    let mut records = vec![rec(100, "t1", "GA1", "GB"), rec(105, "t2", "GA1", "GB")];
    let page_two = vec![rec(105, "t2", "GA1", "GB"), rec(260, "t3", "GA1", "GB")];
    records.extend(page_two);
    assert_eq!(tx_frequency_for_account(&records, &acct), 5);
}

#[test]
fn hot_wallet_kept_on_fast_cadence() {
    let r = runner();
    assert_eq!(r.is_hot_wallet(AccountType::HotWallet, 5), AccountType::HotWallet);
    assert_eq!(r.is_hot_wallet(AccountType::HotWallet, 12), AccountType::HotWallet);
}

#[test]
fn hot_wallet_becomes_mpc_on_slow_cadence() {
    let r = runner();
    assert_eq!(r.is_hot_wallet(AccountType::HotWallet, 13), AccountType::MPC);
    assert_eq!(r.is_hot_wallet(AccountType::HotWallet, 200), AccountType::MPC);
    assert_eq!(r.is_hot_wallet(AccountType::HotWallet, u64::MAX), AccountType::MPC);
}

#[test]
fn frequency_stage_leaves_other_verdicts_alone() {
    let r = runner();
    assert_eq!(r.is_hot_wallet(AccountType::Multisig(2, 3), 5), AccountType::Multisig(2, 3));
    assert_eq!(r.is_hot_wallet(AccountType::Deactivated, 5), AccountType::Deactivated);
    assert_eq!(r.is_hot_wallet(AccountType::Contract, 500), AccountType::Contract);
}

#[test]
fn only_a_tentative_hot_wallet_needs_the_frequency_stage() {
    assert!(needs_frequency_check(&AccountType::HotWallet));
    assert!(!needs_frequency_check(&AccountType::Deactivated));
    assert!(!needs_frequency_check(&AccountType::Multisig(1, 2)));
    assert!(!needs_frequency_check(&AccountType::Contract));
    assert!(!needs_frequency_check(&AccountType::MPC));
}

#[test]
fn ledger_order_check() {
    assert!(is_ledger_sorted(&vec![]));
    assert!(is_ledger_sorted(&vec![rec(7, "t1", "GA1", "GB")]));
    assert!(is_ledger_sorted(&vec![
        rec(100, "t1", "GA1", "GB"),
        rec(100, "t2", "GA1", "GB"),
        rec(260, "t3", "GA1", "GB"),
    ]));
    assert!(!is_ledger_sorted(&vec![
        rec(100, "t1", "GA1", "GB"),
        rec(99, "t2", "GA1", "GB"),
    ]));
}

#[test]
fn a_short_page_ends_the_history() {
    assert!(page_exhausted(0));
    assert!(page_exhausted(199));
    assert!(!page_exhausted(200));
    assert!(page_exhausted(201));
}
