use balances_bot::balance::BalanceError;
use balances_bot::notify::{
    low_balance_notification, notifications_for, plan_tick, select_low_balances, BalanceRecord,
    TickError,
};
use balances_bot::reserves::{reserve_addresses, RESERVE_COUNT};

fn record(account: &str, balance: &str) -> BalanceRecord {
    BalanceRecord { account: account.to_string(), balance: balance.to_string() }
}

fn reserves_with(balances: &[&str]) -> Vec<BalanceRecord> {
    reserve_addresses().iter().zip(balances.iter()).map(|(a, b)| record(a, b)).collect()
}

fn accounts(records: &[BalanceRecord]) -> Vec<String> {
    records.iter().map(|r| r.account.clone()).collect()
}

const HIGH: &str = "200000000000000000";
const LOW: &str = "50000000000000000";

#[test]
fn reserve_list_has_ten_addresses() {
    let r = reserve_addresses();
    assert_eq!(r.len(), RESERVE_COUNT);
    assert_eq!(r[0], "0xdf6764f41eb550f060aea6c852b822a49b53c6e2");
    assert_eq!(r[9], "0x5e1c7f0ef930d79598f9fadbaca3c1bea400e6f7");
}

#[test]
fn low_reserve_is_notified_high_is_not() {
    let records = vec![record("0xaa", LOW), record("0xbb", HIGH)];
    let low = select_low_balances(&records).unwrap();
    assert_eq!(accounts(&low), vec!["0xaa".to_string()]);
}

#[test]
fn one_message_per_low_reserve() {
    let records = reserves_with(&[HIGH, LOW, HIGH, LOW, LOW, HIGH, "0", HIGH, HIGH, "99999999999999999"]);
    let msgs = plan_tick(&records, Some((1000, 1000))).unwrap();
    assert_eq!(msgs.len(), 5);
    let expected = [1, 3, 4, 6, 9];
    for (m, i) in msgs.iter().zip(expected.iter()) {
        assert!(m.text.contains(&records[*i].account));
    }
}

#[test]
fn no_message_when_all_reserves_are_high() {
    let records = reserves_with(&[HIGH; 10]);
    assert_eq!(plan_tick(&records, Some((1000, 1000))).unwrap().len(), 0);
    assert_eq!(plan_tick(&records, None).unwrap().len(), 0);
}

#[test]
fn repeated_tick_notifies_the_same_reserves() {
    let records = reserves_with(&[LOW, HIGH, HIGH, LOW, HIGH, HIGH, HIGH, HIGH, HIGH, HIGH]);
    let first = plan_tick(&records, Some((998, 1000))).unwrap();
    let second = plan_tick(&records, Some((998, 1000))).unwrap();
    assert_eq!(first.len(), 2);
    let t1: Vec<String> = first.iter().map(|n| n.text.clone()).collect();
    let t2: Vec<String> = second.iter().map(|n| n.text.clone()).collect();
    assert_eq!(t1, t2);
}

#[test]
fn missing_status_skips_the_tick() {
    let records = reserves_with(&[LOW, HIGH, HIGH, HIGH, HIGH, HIGH, HIGH, HIGH, HIGH, HIGH]);
    assert!(matches!(plan_tick(&records, None), Err(TickError::StatusUnavailable)));
}

#[test]
fn unreadable_balance_skips_the_tick() {
    let records = vec![record("0xaa", LOW), record("0xbb", "n/a")];
    assert!(matches!(plan_tick(&records, Some((1, 1))), Err(TickError::InvalidBalance)));
    assert!(matches!(select_low_balances(&records), Err(BalanceError::NotADecimalInteger)));
}

#[test]
fn message_text_and_metadata() {
    let n = low_balance_notification(&record("0xabc", LOW), true).unwrap();
    assert_eq!(
        n.text,
        "ETH Balance in Account https://etherscan.io/address/0xabc  is low, current amount is 0.05 ETH .. please feed me @Derek\nSync Status true"
    );
    assert_eq!(n.channel, "#balances_bot");
    assert_eq!(n.username, "Balances Bot");
    assert_eq!(n.icon_emoji, ":eyes:");
    let m = low_balance_notification(&record("0xabc", "0"), false).unwrap();
    assert!(m.text.ends_with("current amount is 0 ETH .. please feed me @Derek\nSync Status false"));
    assert!(low_balance_notification(&record("0xabc", ""), false).is_err());
}

#[test]
fn out_of_sync_status_reaches_every_message() {
    let records = vec![record("0x01", "1"), record("0x02", "2")];
    let msgs = plan_tick(&records, Some((997, 1000))).unwrap();
    assert_eq!(msgs.len(), 2);
    assert!(msgs.iter().all(|n| n.text.ends_with("Sync Status false")));
    let direct = notifications_for(&records, false).unwrap();
    assert!(notifications_for(&vec![record("0x03", "?")], true).is_err());
    assert_eq!(direct[1].text, msgs[1].text);
}
