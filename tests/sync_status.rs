use balances_bot::status::{ledgers_in_sync, sync_state, Account, FeeStats, Links, Welcome};

fn account(href: &str) -> Account {
    Account { href: href.to_string(), templated: false }
}

fn welcome(ledger: i64) -> Welcome {
    let a = || account("https://node.example/");
    Welcome {
        links: Links {
            account: a(),
            accounts: a(),
            account_transactions: a(),
            claimable_balances: a(),
            assets: a(),
            effects: a(),
            fee_stats: FeeStats { href: "https://node.example/fee_stats".to_string() },
            ledger: a(),
            ledgers: a(),
            liquidity_pools: a(),
            offer: a(),
            offers: a(),
            operation: a(),
            operations: a(),
            order_book: a(),
            payments: a(),
            links_self: FeeStats { href: "https://node.example/".to_string() },
            strict_receive_paths: a(),
            strict_send_paths: a(),
            trade_aggregations: a(),
            trades: a(),
            transaction: a(),
            transactions: a(),
        },
        horizon_version: "2.0".to_string(),
        core_version: "19.0".to_string(),
        ingest_latest_ledger: ledger,
        history_latest_ledger: ledger,
        history_latest_ledger_closed_at: "2024-01-01T00:00:00Z".to_string(),
        history_elder_ledger: 2,
        core_latest_ledger: ledger,
        network_passphrase: "Public Global Stellar Network ; September 2015".to_string(),
        current_protocol_version: 19,
        supported_protocol_version: 19,
        core_supported_protocol_version: 19,
    }
}

#[test]
fn two_behind_is_in_sync() {
    assert!(ledgers_in_sync(998, 1000));
}

#[test]
fn three_behind_is_out_of_sync() {
    assert!(!ledgers_in_sync(997, 1000));
}

#[test]
fn level_and_ahead_are_in_sync() {
    assert!(ledgers_in_sync(1000, 1000));
    assert!(ledgers_in_sync(1005, 1000));
    assert!(ledgers_in_sync(999, 1000));
}

#[test]
fn extreme_ledgers_do_not_overflow() {
    assert!(ledgers_in_sync(i64::MAX, i64::MIN));
    assert!(!ledgers_in_sync(i64::MIN, i64::MAX));
    assert!(ledgers_in_sync(i64::MIN, i64::MIN + 2));
    assert!(!ledgers_in_sync(i64::MIN, i64::MIN + 3));
}

#[test]
fn sync_state_reads_ingested_ledgers() {
    assert!(sync_state(&welcome(998), &welcome(1000)));
    assert!(!sync_state(&welcome(997), &welcome(1000)));
    assert_eq!(welcome(42).latest_ledger(), 42);
}
