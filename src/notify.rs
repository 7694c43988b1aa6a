//! Which reserves a tick reports, and the chat messages that report them.
use vstd::prelude::*;

use crate::balance::{
    decimal_value, is_decimal, is_low, is_low_balance, whole_units, whole_units_text,
    BalanceError,
};
use crate::status::{in_sync, ledgers_in_sync};

verus! {

/// The balance of one reserve address, in smallest units, as the balance
/// service reports it.
pub struct BalanceRecord {
    pub account: String,
    pub balance: String,
}

/// A chat message about one low reserve.
pub struct Notification {
    pub text: String,
    pub channel: String,
    pub username: String,
    pub icon_emoji: String,
}

/// The contents of a `Notification`.
pub struct NotificationView {
    pub text: Seq<char>,
    pub channel: Seq<char>,
    pub username: Seq<char>,
    pub icon_emoji: Seq<char>,
}

impl View for Notification {
    type V = NotificationView;

    open spec fn view(&self) -> NotificationView {
        NotificationView {
            text: self.text@,
            channel: self.channel@,
            username: self.username@,
            icon_emoji: self.icon_emoji@,
        }
    }
}

/// Why a tick sends nothing.
#[derive(Debug, PartialEq, Eq, Structural, Clone, Copy)]
pub enum TickError {
    /// A balance from the balance service is not a decimal integer.
    InvalidBalance,
    /// A reserve is low, but the ledger status needed for the message could
    /// not be fetched.
    StatusUnavailable,
}

pub open spec fn record_is_low(r: BalanceRecord) -> bool {
    is_low(decimal_value(r.balance@))
}

/// Every balance in `rs` is a decimal integer.
pub open spec fn all_decimal(rs: Seq<BalanceRecord>) -> bool {
    forall|i: int| 0 <= i < rs.len() ==> is_decimal(#[trigger] rs[i].balance@)
}

/// The low records of `rs`, in their order.
pub open spec fn low_records(rs: Seq<BalanceRecord>) -> Seq<BalanceRecord>
    decreases rs.len(),
{
    if rs.len() == 0 {
        Seq::empty()
    } else if record_is_low(rs.last()) {
        low_records(rs.drop_last()).push(rs.last())
    } else {
        low_records(rs.drop_last())
    }
}

/// The positions of the low records of `rs`, in increasing order.
pub open spec fn low_positions(rs: Seq<BalanceRecord>) -> Seq<int>
    decreases rs.len(),
{
    if rs.len() == 0 {
        Seq::empty()
    } else if record_is_low(rs.last()) {
        low_positions(rs.drop_last()).push(rs.len() - 1)
    } else {
        low_positions(rs.drop_last())
    }
}

pub open spec fn sync_text(synced: bool) -> Seq<char> {
    if synced {
        "true"@
    } else {
        "false"@
    }
}

/// The text of the message about a reserve at `account` holding `amount`
/// whole units.
pub open spec fn message_text(account: Seq<char>, amount: Seq<char>, synced: bool) -> Seq<char> {
    "ETH Balance in Account https://etherscan.io/address/"@ + account
        + "  is low, current amount is "@ + amount
        + " ETH .. please feed me @Derek\nSync Status "@ + sync_text(synced)
}

/// The message about the low reserve `r`, given the synchronisation status.
pub open spec fn notification_of(r: BalanceRecord, synced: bool) -> NotificationView {
    NotificationView {
        text: message_text(r.account@, whole_units_text(r.balance@), synced),
        channel: "#balances_bot"@,
        username: "Balances Bot"@,
        icon_emoji: ":eyes:"@,
    }
}

/// What one tick sends, given the balances it read and the latest ledgers
/// of the monitored and the reference node (`None` when either could not
/// be fetched). The ledgers are only needed when something is sent.
pub open spec fn tick_outcome(rs: Seq<BalanceRecord>, ledgers: Option<(i64, i64)>) -> Result<
    Seq<NotificationView>,
    TickError,
> {
    if !all_decimal(rs) {
        Err(TickError::InvalidBalance)
    } else if low_records(rs).len() == 0 {
        Ok(Seq::empty())
    } else {
        match ledgers {
            None => Err(TickError::StatusUnavailable),
            Some(l) => Ok(
                low_records(rs).map_values(
                    |r: BalanceRecord| notification_of(r, in_sync(l.0 as int, l.1 as int)),
                ),
            ),
        }
    }
}

pub open spec fn views(v: Seq<Notification>) -> Seq<NotificationView> {
    v.map_values(|n: Notification| n@)
}

pub open spec fn outcome_view(r: Result<Vec<Notification>, TickError>) -> Result<
    Seq<NotificationView>,
    TickError,
> {
    match r {
        Ok(v) => Ok(views(v@)),
        Err(e) => Err(e),
    }
}

fn copy_record(r: &BalanceRecord) -> (c: BalanceRecord)
    ensures
        c == *r,
{
    BalanceRecord { account: r.account.clone(), balance: r.balance.clone() }
}

/// Builds the message about the reserve `record`, given the
/// synchronisation status.
pub fn low_balance_notification(record: &BalanceRecord, synced: bool) -> (r: Result<
    Notification,
    BalanceError,
>)
    ensures
        r is Err <==> !is_decimal(record.balance@),
        r matches Ok(n) ==> n@ == notification_of(*record, synced),
{
    let amount = whole_units(record.balance.as_str())?;
    let mut text = String::from_str("ETH Balance in Account https://etherscan.io/address/");
    text.append(record.account.as_str());
    text.append("  is low, current amount is ");
    text.append(amount.as_str());
    text.append(" ETH .. please feed me @Derek\nSync Status ");
    if synced {
        text.append("true");
    } else {
        text.append("false");
    }
    let n = Notification {
        text,
        channel: String::from_str("#balances_bot"),
        username: String::from_str("Balances Bot"),
        icon_emoji: String::from_str(":eyes:"),
    };
    assert(n@ == notification_of(*record, synced));
    Ok(n)
}

/// Keeps the records whose balance is low, in their order.
pub fn select_low_balances(records: &Vec<BalanceRecord>) -> (r: Result<
    Vec<BalanceRecord>,
    BalanceError,
>)
    ensures
        r is Err <==> !all_decimal(records@),
        r matches Ok(low) ==> low@ == low_records(records@),
{
    let mut low: Vec<BalanceRecord> = Vec::new();
    let mut i: usize = 0;
    while i < records.len()
        invariant
            i <= records.len(),
            all_decimal(records@.subrange(0, i as int)),
            low@ == low_records(records@.subrange(0, i as int)),
        decreases records.len() - i,
    {
        let ghost pre = records@.subrange(0, i as int + 1);
        assert(pre.drop_last() =~= records@.subrange(0, i as int));
        let rec = &records[i];
        let is_low = match is_low_balance(rec.balance.as_str()) {
            Ok(b) => b,
            Err(e) => {
                assert(!is_decimal(records@[i as int].balance@));
                assert(!all_decimal(records@));
                return Err(e);
            },
        };
        if is_low {
            low.push(copy_record(rec));
        }
        proof {
            lemma_all_decimal_extend(records@, i as int);
        }
        i = i + 1;
    }
    assert(records@.subrange(0, records.len() as int) =~= records@);
    Ok(low)
}

/// Builds the message about each record of `low`, in order.
pub fn notifications_for(low: &Vec<BalanceRecord>, synced: bool) -> (r: Result<
    Vec<Notification>,
    BalanceError,
>)
    ensures
        r is Err <==> !all_decimal(low@),
        r matches Ok(v) ==> views(v@) == low@.map_values(
            |rec: BalanceRecord| notification_of(rec, synced),
        ),
{
    let mut out: Vec<Notification> = Vec::new();
    let mut i: usize = 0;
    while i < low.len()
        invariant
            i <= low.len(),
            all_decimal(low@.subrange(0, i as int)),
            out@.len() == i,
            forall|k: int| 0 <= k < i ==> (#[trigger] out@[k])@ == notification_of(low@[k], synced),
        decreases low.len() - i,
    {
        let n = match low_balance_notification(&low[i], synced) {
            Ok(n) => n,
            Err(e) => {
                assert(!is_decimal(low@[i as int].balance@));
                return Err(e);
            },
        };
        out.push(n);
        proof {
            lemma_all_decimal_extend(low@, i as int);
        }
        i = i + 1;
    }
    assert(low@.subrange(0, low.len() as int) =~= low@);
    assert(views(out@) =~= low@.map_values(|rec: BalanceRecord| notification_of(rec, synced)));
    Ok(out)
}

/// Decides what one tick sends: the message about each low record of
/// `records`, in order, with the synchronisation status of `ledgers` (the
/// latest ledgers of the monitored and the reference node). Nothing is sent
/// when a balance cannot be read, or when a reserve is low and `ledgers` is
/// missing.
pub fn plan_tick(records: &Vec<BalanceRecord>, ledgers: Option<(i64, i64)>) -> (r: Result<
    Vec<Notification>,
    TickError,
>)
    ensures
        outcome_view(r) == tick_outcome(records@, ledgers),
{
    let low = match select_low_balances(records) {
        Ok(low) => low,
        Err(_) => {
            return Err(TickError::InvalidBalance);
        },
    };
    if low.len() == 0 {
        let none: Vec<Notification> = Vec::new();
        assert(views(none@) =~= Seq::empty());
        return Ok(none);
    }
    let synced = match ledgers {
        Some(l) => ledgers_in_sync(l.0, l.1),
        None => {
            return Err(TickError::StatusUnavailable);
        },
    };
    proof {
        lemma_low_records_decimal(records@);
    }
    match notifications_for(&low, synced) {
        Ok(out) => {
            assert(outcome_view(Ok(out)) =~= tick_outcome(records@, ledgers));
            Ok(out)
        },
        Err(_) => Err(TickError::InvalidBalance),
    }
}

proof fn lemma_all_decimal_extend(rs: Seq<BalanceRecord>, i: int)
    requires
        0 <= i < rs.len(),
        all_decimal(rs.subrange(0, i)),
        is_decimal(rs[i].balance@),
    ensures
        all_decimal(rs.subrange(0, i + 1)),
{
    assert forall|j: int| 0 <= j < i + 1 implies is_decimal(
        #[trigger] rs.subrange(0, i + 1)[j].balance@,
    ) by {
        if j < i {
            assert(rs.subrange(0, i + 1)[j] == rs.subrange(0, i)[j]);
        }
    }
}

proof fn lemma_low_records_decimal(rs: Seq<BalanceRecord>)
    requires
        all_decimal(rs),
    ensures
        all_decimal(low_records(rs)),
    decreases rs.len(),
{
    if rs.len() > 0 {
        assert(all_decimal(rs.drop_last())) by {
            assert forall|i: int| 0 <= i < rs.len() - 1 implies is_decimal(
                #[trigger] rs.drop_last()[i].balance@,
            ) by {
                assert(rs.drop_last()[i] == rs[i]);
            }
        }
        lemma_low_records_decimal(rs.drop_last());
        assert(is_decimal(rs[rs.len() - 1].balance@));
    }
}

proof fn lemma_low_positions(rs: Seq<BalanceRecord>)
    ensures
        low_records(rs) == low_positions(rs).map_values(|i: int| rs[i]),
        forall|k: int|
            0 <= k < low_positions(rs).len() ==> 0 <= #[trigger] low_positions(rs)[k] < rs.len(),
        forall|k: int, m: int|
            0 <= k < m < low_positions(rs).len() ==> #[trigger] low_positions(rs)[k]
                < #[trigger] low_positions(rs)[m],
        forall|i: int|
            0 <= i < rs.len() ==> (record_is_low(#[trigger] rs[i]) <==> low_positions(rs).contains(
                i,
            )),
    decreases rs.len(),
{
    if rs.len() > 0 {
        let p = rs.drop_last();
        lemma_low_positions(p);
        let lp = low_positions(rs);
        assert forall|k: int| 0 <= k < low_positions(p).len() implies rs[#[trigger] low_positions(
            p,
        )[k]] == p[low_positions(p)[k]] by {}
        assert(low_records(rs) =~= lp.map_values(|i: int| rs[i]));
        assert forall|i: int| 0 <= i < rs.len() implies (record_is_low(#[trigger] rs[i])
            <==> lp.contains(i)) by {
            if i < rs.len() - 1 {
                assert(rs[i] == p[i]);
                if lp.contains(i) {
                    let k = choose|k: int| 0 <= k < lp.len() && lp[k] == i;
                    if k < low_positions(p).len() {
                        assert(low_positions(p)[k] == i);
                    }
                }
                if low_positions(p).contains(i) {
                    let k = choose|k: int| 0 <= k < low_positions(p).len() && low_positions(p)[k] == i;
                    assert(lp[k] == i);
                }
            } else {
                if record_is_low(rs[i]) {
                    assert(lp[lp.len() - 1] == i);
                } else {
                    if lp.contains(i) {
                        let k = choose|k: int| 0 <= k < lp.len() && lp[k] == i;
                        assert(lp[k] < rs.len() - 1);
                    }
                }
            }
        }
    }
}

/// Every reserve whose balance is low gets exactly one message, and no other
/// reserve gets one: the messages of a tick are, in order, those about the
/// records at the positions `low_positions(rs)`, which are increasing (so no
/// record is reported twice) and are exactly the positions of low balances.
/// When no balance is low, nothing is sent.
pub proof fn lemma_one_message_per_low_reserve(rs: Seq<BalanceRecord>, ledgers: (i64, i64))
    requires
        all_decimal(rs),
    ensures
        tick_outcome(rs, Some(ledgers)) is Ok,
        ({
            let msgs = tick_outcome(rs, Some(ledgers))->Ok_0;
            let pos = low_positions(rs);
            let synced = in_sync(ledgers.0 as int, ledgers.1 as int);
            &&& msgs.len() == pos.len()
            &&& forall|k: int|
                0 <= k < msgs.len() ==> #[trigger] msgs[k] == notification_of(rs[pos[k]], synced)
            &&& forall|k: int, m: int| 0 <= k < m < pos.len() ==> #[trigger] pos[k] < #[trigger] pos[m]
            &&& forall|i: int|
                0 <= i < rs.len() ==> (record_is_low(#[trigger] rs[i]) <==> pos.contains(i))
        }),
        (forall|i: int| 0 <= i < rs.len() ==> !record_is_low(#[trigger] rs[i])) ==> tick_outcome(
            rs,
            Some(ledgers),
        ) == Ok::<Seq<NotificationView>, TickError>(Seq::empty()),
{
    lemma_low_positions(rs);
    let pos = low_positions(rs);
    if forall|i: int| 0 <= i < rs.len() ==> !record_is_low(#[trigger] rs[i]) {
        if pos.len() > 0 {
            assert(pos.contains(pos[0]));
            assert(!record_is_low(rs[pos[0]]));
        }
        assert(low_records(rs).len() == 0);
    }
}

/// A tick keeps no memory of earlier ticks: two runs on the same balances
/// and ledgers, each meeting the contract of `plan_tick`, send the same
/// messages, so a reserve that stays low is reported on every tick.
pub proof fn lemma_repeated_tick_same_outcome(
    rs: Seq<BalanceRecord>,
    ledgers: Option<(i64, i64)>,
    first: Result<Vec<Notification>, TickError>,
    second: Result<Vec<Notification>, TickError>,
)
    requires
        outcome_view(first) == tick_outcome(rs, ledgers),
        outcome_view(second) == tick_outcome(rs, ledgers),
    ensures
        outcome_view(first) == outcome_view(second),
        first is Ok <==> second is Ok,
        first is Ok ==> views(first->Ok_0@) == views(second->Ok_0@),
        all_decimal(rs) && low_records(rs).len() > 0 && ledgers is Some ==> first is Ok && views(
            first->Ok_0@,
        ).len() == low_records(rs).len(),
{
}

} // verus!
