//! Ledger status documents and the synchronisation rule between two nodes.
use vstd::prelude::*;

verus! {

/// A link entry of a status document.
pub struct Account {
    pub href: String,
    pub templated: bool,
}

/// A link entry of a status document that carries only its target.
pub struct FeeStats {
    pub href: String,
}

/// The link table of a status document.
pub struct Links {
    pub account: Account,
    pub accounts: Account,
    pub account_transactions: Account,
    pub claimable_balances: Account,
    pub assets: Account,
    pub effects: Account,
    pub fee_stats: FeeStats,
    pub ledger: Account,
    pub ledgers: Account,
    pub liquidity_pools: Account,
    pub offer: Account,
    pub offers: Account,
    pub operation: Account,
    pub operations: Account,
    pub order_book: Account,
    pub payments: Account,
    pub links_self: FeeStats,
    pub strict_receive_paths: Account,
    pub strict_send_paths: Account,
    pub trade_aggregations: Account,
    pub trades: Account,
    pub transaction: Account,
    pub transactions: Account,
}

/// The status document that a ledger node serves at its root.
pub struct Welcome {
    pub links: Links,
    pub horizon_version: String,
    pub core_version: String,
    pub ingest_latest_ledger: i64,
    pub history_latest_ledger: i64,
    pub history_latest_ledger_closed_at: String,
    pub history_elder_ledger: i64,
    pub core_latest_ledger: i64,
    pub network_passphrase: String,
    pub current_protocol_version: i64,
    pub supported_protocol_version: i64,
    pub core_supported_protocol_version: i64,
}

/// How many ledgers the monitored node may trail the reference node by and
/// still count as synchronised.
pub const MAX_LEDGER_LAG: i64 = 2;

/// The monitored node is in sync when it is ahead of, level with, or at most
/// `MAX_LEDGER_LAG` ledgers behind the reference node.
pub open spec fn in_sync(source_ledger: int, reference_ledger: int) -> bool {
    source_ledger >= reference_ledger - MAX_LEDGER_LAG
}

/// Decides the synchronisation status from two latest-ledger numbers.
pub fn ledgers_in_sync(source_ledger: i64, reference_ledger: i64) -> (r: bool)
    ensures
        r == in_sync(source_ledger as int, reference_ledger as int),
{
    (source_ledger as i128) >= (reference_ledger as i128) - (MAX_LEDGER_LAG as i128)
}

impl Welcome {
    /// The latest ledger that the node has ingested.
    pub fn latest_ledger(&self) -> (r: i64)
        ensures
            r == self.ingest_latest_ledger,
    {
        self.ingest_latest_ledger
    }
}

/// Decides the synchronisation status from the status documents of the
/// monitored node (`source`) and of the reference node.
pub fn sync_state(source: &Welcome, reference: &Welcome) -> (r: bool)
    ensures
        r == in_sync(source.ingest_latest_ledger as int, reference.ingest_latest_ledger as int),
{
    ledgers_in_sync(source.latest_ledger(), reference.latest_ledger())
}

} // verus!
