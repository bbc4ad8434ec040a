//! The bot's book-keeping: the orders it has placed, the position count,
//! the quote balances it may spend, and how stream events change them.
use crate::decimal::{dec_lt, decimal_checked_add, decimal_parse, Dec, DecModel};
use crate::text::{ascii_lower, nat_text, str_eq, u64_text};
use crate::ws_api::{AccountBalance, AccountBalanceResponse, AccountUpdateStream, BalanceItem, OrderTradeUpdateStream, TradeLiteStream};
use vstd::prelude::*;

verus! {

#[derive(Debug, Clone, Copy, PartialEq, Eq, Structural)]
pub enum OrderSide {
    Buy,
    Sell,
}

#[derive(Debug, Clone, Copy, PartialEq, Eq, Structural)]
pub enum OrderStatus {
    New,
    PartiallyFilled,
    Filled,
    Canceled,
    Rejected,
    Expired,
    Selling,
}

#[derive(Debug, Clone, Copy, PartialEq, Eq, Structural)]
pub enum QuoteAsset {
    USDT,
    USDC,
}

/// An order the bot placed, as it tracks it.
#[derive(Debug)]
pub struct Order {
    pub id: String,
    pub order_id: String,
    pub client_order_id: String,
    pub symbol: String,
    pub side: OrderSide,
    pub status: OrderStatus,
    pub price: Dec,
    pub quantity: Dec,
    pub filled_quantity: Dec,
    pub quote_asset: QuoteAsset,
    pub create_time: u64,
    pub update_time: u64,
    pub deducted_amount: Dec,
    pub related_buy_order_client_id: Option<String>,
    pub timeout_processed: bool,
}

/// The orders in flight and the number of open positions.
#[derive(Debug)]
pub struct GlobalOrderManager {
    pub orders: Vec<Order>,
    pub total_count: usize,
    pub last_buy_order_time: u64,
    pub last_sell_order_time: u64,
}

/// The quote balances the bot may spend, and how much one buy spends.
#[derive(Debug, Clone, Copy)]
pub struct Balances {
    pub usdc_available: Dec,
    pub usdt_available: Dec,
    pub usdt_to_use: Dec,
    pub usdc_to_use: Dec,
}

impl GlobalOrderManager {
    pub fn new() -> (r: GlobalOrderManager)
        ensures
            r.orders@.len() == 0,
            r.total_count == 0,
            r.last_buy_order_time == 0,
            r.last_sell_order_time == 0,
    {
        GlobalOrderManager {
            orders: Vec::new(),
            total_count: 0,
            last_buy_order_time: 0,
            last_sell_order_time: 0,
        }
    }
}

impl Balances {
    /// Nothing available yet; 500 of each quote asset per buy.
    pub fn new() -> (r: Balances)
        ensures
            r.usdc_available@ == (0int, 1nat),
            r.usdt_available@ == (0int, 1nat),
            r.usdt_to_use@ == (500int, 0nat),
            r.usdc_to_use@ == (500int, 0nat),
    {
        let zero = match Dec::from_parts(0, 1) {
            Some(d) => d,
            None => Dec::zero(),
        };
        let five_hundred = match Dec::from_parts(500, 0) {
            Some(d) => d,
            None => Dec::zero(),
        };
        Balances { usdc_available: zero, usdt_available: zero, usdt_to_use: five_hundred, usdc_to_use: five_hundred }
    }
}

pub open spec fn available_of(b: Balances, asset: QuoteAsset) -> DecModel {
    match asset {
        QuoteAsset::USDT => b.usdt_available@,
        QuoteAsset::USDC => b.usdc_available@,
    }
}

/// The balances with the available amount of one asset replaced.
pub open spec fn with_available(b: Balances, asset: QuoteAsset, v: DecModel, r: Balances) -> bool {
    &&& r.usdt_to_use@ == b.usdt_to_use@
    &&& r.usdc_to_use@ == b.usdc_to_use@
    &&& match asset {
        QuoteAsset::USDT => r.usdt_available@ == v && r.usdc_available@ == b.usdc_available@,
        QuoteAsset::USDC => r.usdc_available@ == v && r.usdt_available@ == b.usdt_available@,
    }
}

pub open spec fn same_balances(a: Balances, b: Balances) -> bool {
    &&& a.usdt_available@ == b.usdt_available@
    &&& a.usdc_available@ == b.usdc_available@
    &&& a.usdt_to_use@ == b.usdt_to_use@
    &&& a.usdc_to_use@ == b.usdc_to_use@
}

/// The side, upper-cased as `str::to_uppercase` does, reads `SELL`.  The
/// characters that upper-case to `S` are `s`, `S` and `ſ` (U+017F); to `E`,
/// `e` and `E`; to `L`, `l` and `L`; no other character's upper case begins
/// or ends one of these letters.
pub open spec fn is_sell_side(side: Seq<char>) -> bool {
    &&& side.len() == 4
    &&& (side[0] == 'S' || side[0] == 's' || side[0] == '\u{17f}')
    &&& (side[1] == 'E' || side[1] == 'e')
    &&& (side[2] == 'L' || side[2] == 'l')
    &&& (side[3] == 'L' || side[3] == 'l')
}

/// `side.to_uppercase() == "SELL"`.
pub fn side_is_sell(side: &str) -> (r: bool)
    ensures
        r == is_sell_side(side@),
{
    let cs = crate::text::chars_of(side);
    if cs.len() != 4 {
        return false;
    }
    (cs[0] == 'S' || cs[0] == 's' || cs[0] == '\u{17f}') && (cs[1] == 'E' || cs[1] == 'e') && (cs[2]
        == 'L' || cs[2] == 'l') && (cs[3] == 'L' || cs[3] == 'l')
}

/// The first order with the given client order id.
pub open spec fn first_with_client_id(orders: Seq<Order>, cid: Seq<char>) -> Option<int>
    decreases orders.len(),
{
    if orders.len() == 0 {
        None
    } else if first_with_client_id(orders.drop_last(), cid) is Some {
        first_with_client_id(orders.drop_last(), cid)
    } else if orders.last().client_order_id@ == cid {
        Some(orders.len() - 1)
    } else {
        None
    }
}

pub proof fn lemma_first_with_client_id(orders: Seq<Order>, cid: Seq<char>)
    ensures
        match first_with_client_id(orders, cid) {
            Some(i) => 0 <= i < orders.len() && orders[i].client_order_id@ == cid && forall|j: int|
                0 <= j < i ==> orders[j].client_order_id@ != cid,
            None => forall|j: int| 0 <= j < orders.len() ==> orders[j].client_order_id@ != cid,
        },
    decreases orders.len(),
{
    if orders.len() > 0 {
        lemma_first_with_client_id(orders.drop_last(), cid);
        assert forall|j: int| 0 <= j < orders.len() - 1 implies orders[j] == orders.drop_last()[j] by {}
    }
}

/// The index of the first order with this client order id.
pub fn find_client_order(orders: &Vec<Order>, cid: &str) -> (r: Option<usize>)
    ensures
        match first_with_client_id(orders@, cid@) {
            Some(i) => r matches Some(j) && j as int == i,
            None => r is None,
        },
        r matches Some(i) ==> i < orders@.len() && orders@[i as int].client_order_id@ == cid@,
{
    proof {
        lemma_first_with_client_id(orders@, cid@);
    }
    let mut i: usize = 0;
    while i < orders.len()
        invariant
            i <= orders.len(),
            forall|j: int| 0 <= j < i ==> orders@[j].client_order_id@ != cid@,
            match first_with_client_id(orders@, cid@) {
                Some(k) => 0 <= k < orders@.len() && orders@[k].client_order_id@ == cid@ && forall|
                    j: int,
                | 0 <= j < k ==> orders@[j].client_order_id@ != cid@,
                None => forall|j: int|
                    0 <= j < orders@.len() ==> orders@[j].client_order_id@ != cid@,
            },
        decreases orders.len() - i,
    {
        if str_eq(orders[i].client_order_id.as_str(), cid) {
            return Some(i);
        }
        i = i + 1;
    }
    None
}

/// Kept when its client order id is neither `cid` nor `other`.
pub open spec fn keeps(cid: Seq<char>, other: Option<Seq<char>>) -> spec_fn(Order) -> bool {
    |o: Order|
        !(o.client_order_id@ == cid || (other matches Some(b) && o.client_order_id@ == b))
}

proof fn lemma_filter_step(s: Seq<Order>, p: spec_fn(Order) -> bool, j: int)
    requires
        0 <= j < s.len(),
    ensures
        s.subrange(0, j + 1).filter(p) == if p(s[j]) {
            s.subrange(0, j).filter(p).push(s[j])
        } else {
            s.subrange(0, j).filter(p)
        },
{
    reveal_with_fuel(Seq::filter, 1);
    assert(s.subrange(0, j + 1).drop_last() =~= s.subrange(0, j));
}

/// Drops the orders whose client order id is `cid` or `other`, in place,
/// keeping the others in order; returns how many were dropped.
pub fn remove_client_orders(orders: &mut Vec<Order>, cid: &str, other: Option<&str>) -> (removed:
    usize)
    ensures
        final(orders)@ == old(orders)@.filter(
            keeps(
                cid@,
                match other {
                    Some(b) => Some(b@),
                    None => None,
                },
            ),
        ),
        removed == old(orders)@.len() - final(orders)@.len(),
{
    let ghost p = keeps(
        cid@,
        match other {
            Some(b) => Some(b@),
            None => None,
        },
    );
    let ghost start = orders@;
    let n0 = orders.len();
    let ghost mut j: int = 0;
    let mut i: usize = 0;
    let mut removed: usize = 0;
    assert(start.subrange(0, 0).filter(p) =~= Seq::<Order>::empty()) by {
        reveal_with_fuel(Seq::filter, 1);
    }
    assert(orders@ =~= start.subrange(0, 0).filter(p) + start.subrange(0, start.len() as int));
    while i < orders.len()
        invariant
            0 <= j <= start.len(),
            start.len() <= usize::MAX,
            i == start.subrange(0, j).filter(p).len(),
            orders@ == start.subrange(0, j).filter(p) + start.subrange(j, start.len() as int),
            removed == j - i,
            p == keeps(
                cid@,
                match other {
                    Some(b) => Some(b@),
                    None => None,
                },
            ),
        decreases orders.len() - i,
    {
        proof {
            lemma_filter_step(start, p, j);
            assert(orders@[i as int] == start[j]);
        }
        let o_cid = orders[i].client_order_id.as_str();
        let hit = str_eq(o_cid, cid) || match other {
            Some(b) => str_eq(o_cid, b),
            None => false,
        };
        if hit {
            orders.remove(i);
            removed = removed + 1;
            proof {
                j = j + 1;
                assert(orders@ =~= start.subrange(0, j).filter(p) + start.subrange(
                    j,
                    start.len() as int,
                ));
            }
        } else {
            i = i + 1;
            proof {
                j = j + 1;
                assert(orders@ =~= start.subrange(0, j).filter(p) + start.subrange(
                    j,
                    start.len() as int,
                ));
            }
        }
    }
    proof {
        assert(start.subrange(j, start.len() as int).len() == 0);
        assert(j == start.len());
        assert(start.subrange(0, j) =~= start);
        assert(orders@ =~= start.filter(p));
    }
    removed
}

/// How many orders carry this client order id.
pub fn count_client_orders(orders: &Vec<Order>, cid: &str) -> (r: usize)
    ensures
        r == orders@.len() - orders@.filter(keeps(cid@, None)).len(),
{
    let ghost p = keeps(cid@, None);
    let mut i: usize = 0;
    let mut n: usize = 0;
    assert(orders@.subrange(0, 0).filter(p) =~= Seq::<Order>::empty()) by {
        reveal_with_fuel(Seq::filter, 1);
    }
    while i < orders.len()
        invariant
            i <= orders.len(),
            p == keeps(cid@, None),
            n == i - orders@.subrange(0, i as int).filter(p).len(),
            n <= i,
        decreases orders.len() - i,
    {
        proof {
            lemma_filter_step(orders@, p, i as int);
        }
        if str_eq(orders[i].client_order_id.as_str(), cid) {
            n = n + 1;
        }
        i = i + 1;
    }
    assert(orders@.subrange(0, orders.len() as int) =~= orders@);
    n
}

pub open spec fn is_filled_status(s: Seq<char>) -> bool {
    s == "FILLED"@
}

/// A terminal status that frees a buy: cancelled, expired or rejected.
pub open spec fn is_cancel_status(s: Seq<char>) -> bool {
    s == "CANCELED"@ || s == "EXPIRED"@ || s == "REJECTED"@
}

/// The tracked status an exchange status maps to; others leave it as is.
pub open spec fn status_from_text(s: Seq<char>, current: OrderStatus) -> OrderStatus {
    if s == "NEW"@ {
        OrderStatus::New
    } else if s == "PARTIALLY_FILLED"@ {
        OrderStatus::PartiallyFilled
    } else if s == "FILLED"@ {
        OrderStatus::Filled
    } else if s == "CANCELED"@ {
        OrderStatus::Canceled
    } else if s == "REJECTED"@ {
        OrderStatus::Rejected
    } else if s == "EXPIRED"@ {
        OrderStatus::Expired
    } else {
        current
    }
}

fn map_status(s: &str, current: OrderStatus) -> (r: OrderStatus)
    ensures
        r == status_from_text(s@, current),
{
    if str_eq(s, "NEW") {
        OrderStatus::New
    } else if str_eq(s, "PARTIALLY_FILLED") {
        OrderStatus::PartiallyFilled
    } else if str_eq(s, "FILLED") {
        OrderStatus::Filled
    } else if str_eq(s, "CANCELED") {
        OrderStatus::Canceled
    } else if str_eq(s, "REJECTED") {
        OrderStatus::Rejected
    } else if str_eq(s, "EXPIRED") {
        OrderStatus::Expired
    } else {
        current
    }
}

/// All fields but the ones an exchange report refreshes are kept.
pub open spec fn same_identity(a: Order, b: Order) -> bool {
    &&& b.id == a.id
    &&& b.client_order_id == a.client_order_id
    &&& b.symbol == a.symbol
    &&& b.side == a.side
    &&& b.price@ == a.price@
    &&& b.quantity@ == a.quantity@
    &&& b.quote_asset == a.quote_asset
    &&& b.create_time == a.create_time
    &&& b.deducted_amount@ == a.deducted_amount@
    &&& b.related_buy_order_client_id == a.related_buy_order_client_id
    &&& b.timeout_processed == a.timeout_processed
}

/// An order after an exchange report for it: its exchange id, mapped
/// status, accumulated fill (when it parses) and update time are taken over.
pub open spec fn order_refreshed(
    a: Order,
    b: Order,
    order_id: u64,
    status: Seq<char>,
    filled: Seq<char>,
    time: u64,
) -> bool {
    &&& same_identity(a, b)
    &&& b.order_id@ == nat_text(order_id as nat)
    &&& b.status == status_from_text(status, a.status)
    &&& b.filled_quantity@ == match decimal_parse(filled) {
        Ok(v) => v,
        Err(_) => a.filled_quantity@,
    }
    &&& b.update_time == time
}

pub open spec fn manager_unchanged(a: GlobalOrderManager, b: GlobalOrderManager) -> bool {
    &&& b.orders@ == a.orders@
    &&& b.total_count == a.total_count
    &&& b.last_buy_order_time == a.last_buy_order_time
    &&& b.last_sell_order_time == a.last_sell_order_time
}

/// The orders and position count after a filled sell: the sell and the buy
/// it closes are dropped and, unless the sell already timed out, one
/// position is closed.
pub open spec fn sell_filled_post(
    a: GlobalOrderManager,
    cid: Seq<char>,
    b: GlobalOrderManager,
) -> bool {
    &&& b.last_buy_order_time == a.last_buy_order_time
    &&& b.last_sell_order_time == a.last_sell_order_time
    &&& match first_with_client_id(a.orders@, cid) {
        Some(i) => match a.orders@[i].related_buy_order_client_id {
            Some(buy) => {
                &&& b.orders@ == a.orders@.filter(keeps(cid, Some(buy@)))
                &&& b.total_count == if b.orders@.len() < a.orders@.len()
                    && !a.orders@[i].timeout_processed {
                    a.total_count - 1
                } else {
                    a.total_count as int
                }
            },
            None => manager_unchanged(a, b),
        },
        None => manager_unchanged(a, b),
    }
}

pub open spec fn sell_filled_allowed(a: GlobalOrderManager, cid: Seq<char>) -> bool {
    match first_with_client_id(a.orders@, cid) {
        Some(i) => a.orders@[i].related_buy_order_client_id is Some
            && !a.orders@[i].timeout_processed ==> a.total_count >= 1,
        None => true,
    }
}

/// What a filled sell does (shared by order updates and trade reports).
fn close_sold_position(manager: &mut GlobalOrderManager, cid: &str)
    requires
        sell_filled_allowed(*old(manager), cid@),
    ensures
        sell_filled_post(*old(manager), cid@, *final(manager)),
{
    let found = find_client_order(&manager.orders, cid);
    if let Some(i) = found {
        let timeout_processed = manager.orders[i].timeout_processed;
        let related: Option<String> = match &manager.orders[i].related_buy_order_client_id {
            Some(b) => Some(b.as_str().to_owned()),
            None => None,
        };
        proof {
            let orig = old(manager).orders@[i as int].related_buy_order_client_id;
            assert(related is Some <==> orig is Some);
            if related is Some {
                assert(related.unwrap()@ == orig.unwrap()@);
            }
        }
        if let Some(buy) = related {
            let removed = remove_client_orders(&mut manager.orders, cid, Some(buy.as_str()));
            if removed > 0 {
                if !timeout_processed {
                    manager.total_count = manager.total_count - 1;
                }
            }
        }
    }
}

pub open spec fn cancel_post(
    a: GlobalOrderManager,
    ba: Balances,
    cid: Seq<char>,
    b: GlobalOrderManager,
    bb: Balances,
) -> bool {
    &&& b.last_buy_order_time == a.last_buy_order_time
    &&& b.last_sell_order_time == a.last_sell_order_time
    &&& b.orders@ == a.orders@.filter(keeps(cid, None))
    &&& b.total_count == a.total_count - (a.orders@.len() - b.orders@.len())
    &&& match first_with_client_id(a.orders@, cid) {
        Some(i) => with_available(
            ba,
            a.orders@[i].quote_asset,
            decimal_checked_add(
                available_of(ba, a.orders@[i].quote_asset),
                a.orders@[i].deducted_amount@,
            ).unwrap(),
            bb,
        ),
        None => same_balances(ba, bb),
    }
}

pub open spec fn cancel_allowed(a: GlobalOrderManager, ba: Balances, cid: Seq<char>) -> bool {
    &&& a.orders@.len() - a.orders@.filter(keeps(cid, None)).len() <= a.total_count
    &&& match first_with_client_id(a.orders@, cid) {
        Some(i) => decimal_checked_add(
            available_of(ba, a.orders@[i].quote_asset),
            a.orders@[i].deducted_amount@,
        ) is Some,
        None => true,
    }
}

fn add_available(balances: &mut Balances, asset: QuoteAsset, amount: &Dec)
    requires
        decimal_checked_add(available_of(*old(balances), asset), amount@) is Some,
    ensures
        with_available(
            *old(balances),
            asset,
            decimal_checked_add(available_of(*old(balances), asset), amount@).unwrap(),
            *final(balances),
        ),
{
    match asset {
        QuoteAsset::USDT => {
            match balances.usdt_available.checked_add(amount) {
                Some(v) => balances.usdt_available = v,
                None => {},
            }
        },
        QuoteAsset::USDC => {
            match balances.usdc_available.checked_add(amount) {
                Some(v) => balances.usdc_available = v,
                None => {},
            }
        },
    }
}

/// What a cancelled, expired or rejected buy does: its reserved amount goes
/// back to the available balance and it is dropped.
fn release_cancelled_buy(manager: &mut GlobalOrderManager, balances: &mut Balances, cid: &str)
    requires
        cancel_allowed(*old(manager), *old(balances), cid@),
    ensures
        cancel_post(*old(manager), *old(balances), cid@, *final(manager), *final(balances)),
{
    match find_client_order(&manager.orders, cid) {
        Some(i) => {
            let amount = manager.orders[i].deducted_amount;
            let asset = manager.orders[i].quote_asset;
            proof {
                assert(first_with_client_id(old(manager).orders@, cid@) == Some(i as int));
                assert(amount@ == old(manager).orders@[i as int].deducted_amount@);
                assert(asset == old(manager).orders@[i as int].quote_asset);
            }
            add_available(balances, asset, &amount);
        },
        None => {},
    }
    let removed = remove_client_orders(&mut manager.orders, cid, None);
    if removed > 0 {
        manager.total_count = manager.total_count - removed;
    }
}

/// The report's fields copied onto the order at `i`.
fn refresh_order(
    manager: &mut GlobalOrderManager,
    i: usize,
    order_id: u64,
    status: Option<&str>,
    filled: Option<&str>,
    time: u64,
)
    requires
        i < old(manager).orders@.len(),
    ensures
        final(manager).total_count == old(manager).total_count,
        final(manager).last_buy_order_time == old(manager).last_buy_order_time,
        final(manager).last_sell_order_time == old(manager).last_sell_order_time,
        final(manager).orders@.len() == old(manager).orders@.len(),
        forall|j: int|
            0 <= j < old(manager).orders@.len() && j != i ==> final(manager).orders@[j] == old(
                manager,
            ).orders@[j],
        same_identity(old(manager).orders@[i as int], final(manager).orders@[i as int]),
        final(manager).orders@[i as int].order_id@ == nat_text(order_id as nat),
        final(manager).orders@[i as int].update_time == time,
        final(manager).orders@[i as int].status == match status {
            Some(s) => status_from_text(s@, old(manager).orders@[i as int].status),
            None => old(manager).orders@[i as int].status,
        },
        final(manager).orders@[i as int].filled_quantity@ == match filled {
            Some(f) => match decimal_parse(f@) {
                Ok(v) => v,
                Err(_) => old(manager).orders@[i as int].filled_quantity@,
            },
            None => old(manager).orders@[i as int].filled_quantity@,
        },
{
    let mut o = manager.orders.remove(i);
    o.order_id = u64_text(order_id);
    match status {
        Some(s) => {
            o.status = map_status(s, o.status);
        },
        None => {},
    }
    match filled {
        Some(f) => {
            if let Ok(q) = Dec::parse(f) {
                o.filled_quantity = q;
            }
        },
        None => {},
    }
    o.update_time = time;
    manager.orders.insert(i, o);
}

pub open spec fn report_post(
    a: GlobalOrderManager,
    cid: Seq<char>,
    b: GlobalOrderManager,
    order_id: u64,
    status: Seq<char>,
    filled: Seq<char>,
    time: u64,
) -> bool {
    match first_with_client_id(a.orders@, cid) {
        Some(i) => {
            &&& b.total_count == a.total_count
            &&& b.last_buy_order_time == a.last_buy_order_time
            &&& b.last_sell_order_time == a.last_sell_order_time
            &&& b.orders@.len() == a.orders@.len()
            &&& forall|j: int| 0 <= j < a.orders@.len() && j != i ==> b.orders@[j] == a.orders@[j]
            &&& order_refreshed(a.orders@[i], b.orders@[i], order_id, status, filled, time)
        },
        None => manager_unchanged(a, b),
    }
}

/// Whether an order trade update can be applied without overflowing: the
/// position count stays non-negative and a released amount fits.
pub open spec fn order_trade_update_allowed(
    m: GlobalOrderManager,
    b: Balances,
    u: OrderTradeUpdateStream,
) -> bool {
    let o = u.data.order;
    if is_sell_side(o.side@) && is_filled_status(o.order_status@) {
        sell_filled_allowed(m, o.client_order_id@)
    } else if is_cancel_status(o.order_status@) && !is_sell_side(o.side@) {
        cancel_allowed(m, b, o.client_order_id@)
    } else {
        true
    }
}

/// The book-keeping an `ORDER_TRADE_UPDATE` event calls for.
pub open spec fn order_trade_update_post(
    m: GlobalOrderManager,
    b: Balances,
    u: OrderTradeUpdateStream,
    m2: GlobalOrderManager,
    b2: Balances,
) -> bool {
    let o = u.data.order;
    if is_sell_side(o.side@) && is_filled_status(o.order_status@) {
        sell_filled_post(m, o.client_order_id@, m2) && same_balances(b, b2)
    } else if is_cancel_status(o.order_status@) && !is_sell_side(o.side@) {
        cancel_post(m, b, o.client_order_id@, m2, b2)
    } else {
        &&& report_post(
            m,
            o.client_order_id@,
            m2,
            o.order_id,
            o.order_status@,
            o.filled_accumulated_qty@,
            o.transaction_time,
        )
        &&& same_balances(b, b2)
    }
}

/// Applies an `ORDER_TRADE_UPDATE` event: a filled sell closes its
/// position; a cancelled, expired or rejected buy gives its reserved amount
/// back and is dropped; any other report refreshes the order it names.
pub fn handle_order_trade_update(
    manager: &mut GlobalOrderManager,
    balances: &mut Balances,
    update: &OrderTradeUpdateStream,
)
    requires
        order_trade_update_allowed(*old(manager), *old(balances), *update),
    ensures
        order_trade_update_post(
            *old(manager),
            *old(balances),
            *update,
            *final(manager),
            *final(balances),
        ),
{
    let o = &update.data.order;
    let cid = o.client_order_id.as_str();
    let is_sell_order = side_is_sell(o.side.as_str());
    let is_filled = str_eq(o.order_status.as_str(), "FILLED");
    let is_canceled = str_eq(o.order_status.as_str(), "CANCELED") || str_eq(
        o.order_status.as_str(),
        "EXPIRED",
    ) || str_eq(o.order_status.as_str(), "REJECTED");
    if is_sell_order && is_filled {
        close_sold_position(manager, cid);
    } else if is_canceled && !is_sell_order {
        release_cancelled_buy(manager, balances, cid);
    } else {
        match find_client_order(&manager.orders, cid) {
            Some(i) => {
                refresh_order(
                    manager,
                    i,
                    o.order_id,
                    Some(o.order_status.as_str()),
                    Some(o.filled_accumulated_qty.as_str()),
                    o.transaction_time,
                );
            },
            None => {},
        }
    }
}

/// Whether the update would overflow, tested as the event loop must before
/// calling `handle_order_trade_update`.
pub fn order_trade_update_fits(
    manager: &GlobalOrderManager,
    balances: &Balances,
    update: &OrderTradeUpdateStream,
) -> (r: bool)
    ensures
        r == order_trade_update_allowed(*manager, *balances, *update),
{
    let o = &update.data.order;
    let cid = o.client_order_id.as_str();
    let is_sell_order = side_is_sell(o.side.as_str());
    let is_filled = str_eq(o.order_status.as_str(), "FILLED");
    let is_canceled = str_eq(o.order_status.as_str(), "CANCELED") || str_eq(
        o.order_status.as_str(),
        "EXPIRED",
    ) || str_eq(o.order_status.as_str(), "REJECTED");
    if is_sell_order && is_filled {
        match find_client_order(&manager.orders, cid) {
            Some(i) => {
                if manager.orders[i].related_buy_order_client_id.is_some()
                    && !manager.orders[i].timeout_processed {
                    manager.total_count >= 1
                } else {
                    true
                }
            },
            None => true,
        }
    } else if is_canceled && !is_sell_order {
        let n = count_client_orders(&manager.orders, cid);
        if n > manager.total_count {
            return false;
        }
        match find_client_order(&manager.orders, cid) {
            Some(i) => {
                let o = &manager.orders[i];
                let avail = match o.quote_asset {
                    QuoteAsset::USDT => balances.usdt_available,
                    QuoteAsset::USDC => balances.usdc_available,
                };
                avail.checked_add(&o.deducted_amount).is_some()
            },
            None => true,
        }
    } else {
        true
    }
}

/// `handle_order_trade_update` where it stays in range; otherwise nothing
/// changes and `false` is returned.
pub fn try_handle_order_trade_update(
    manager: &mut GlobalOrderManager,
    balances: &mut Balances,
    update: &OrderTradeUpdateStream,
) -> (applied: bool)
    ensures
        applied == order_trade_update_allowed(*old(manager), *old(balances), *update),
        applied ==> order_trade_update_post(
            *old(manager),
            *old(balances),
            *update,
            *final(manager),
            *final(balances),
        ),
        !applied ==> manager_unchanged(*old(manager), *final(manager)) && same_balances(
            *old(balances),
            *final(balances),
        ),
{
    if order_trade_update_fits(manager, balances, update) {
        handle_order_trade_update(manager, balances, update);
        true
    } else {
        false
    }
}

/// Filtering forgets a position whose entries are both dropped.
proof fn lemma_filter_same_except(s1: Seq<Order>, s2: Seq<Order>, p: spec_fn(Order) -> bool, i: int)
    requires
        s1.len() == s2.len(),
        0 <= i < s1.len(),
        forall|j: int| 0 <= j < s1.len() && j != i ==> s1[j] == s2[j],
        !p(s1[i]),
        !p(s2[i]),
    ensures
        s1.filter(p) == s2.filter(p),
    decreases s1.len(),
{
    reveal_with_fuel(Seq::filter, 1);
    if s1.len() - 1 == i {
        assert(s1.drop_last() =~= s2.drop_last());
    } else {
        lemma_filter_same_except(s1.drop_last(), s2.drop_last(), p, i);
    }
}

/// Whether a trade report can be applied without the position count going
/// below zero.
pub open spec fn trade_lite_allowed(m: GlobalOrderManager, t: TradeLiteStream) -> bool {
    match first_with_client_id(m.orders@, t.data.client_order_id@) {
        Some(i) => is_sell_side(t.data.side@) && !dec_lt(
            m.orders@[i].filled_quantity@,
            m.orders@[i].quantity@,
        ) && m.orders@[i].related_buy_order_client_id is Some && !m.orders@[i].timeout_processed
            ==> m.total_count >= 1,
        None => true,
    }
}

/// The book-keeping a `TRADE_LITE` report calls for: the order it names
/// takes over the exchange id and time, and a sell whose fill has reached
/// its quantity closes its position.
pub open spec fn trade_lite_post(m: GlobalOrderManager, t: TradeLiteStream, m2: GlobalOrderManager) -> bool {
    let cid = t.data.client_order_id@;
    match first_with_client_id(m.orders@, cid) {
        None => manager_unchanged(m, m2),
        Some(i) => {
            let o = m.orders@[i];
            if is_sell_side(t.data.side@) && !dec_lt(o.filled_quantity@, o.quantity@)
                && o.related_buy_order_client_id is Some {
                &&& m2.last_buy_order_time == m.last_buy_order_time
                &&& m2.last_sell_order_time == m.last_sell_order_time
                &&& m2.orders@ == m.orders@.filter(
                    keeps(cid, Some(o.related_buy_order_client_id.unwrap()@)),
                )
                &&& m2.total_count == if m2.orders@.len() < m.orders@.len()
                    && !o.timeout_processed {
                    m.total_count - 1
                } else {
                    m.total_count as int
                }
            } else {
                &&& m2.total_count == m.total_count
                &&& m2.last_buy_order_time == m.last_buy_order_time
                &&& m2.last_sell_order_time == m.last_sell_order_time
                &&& m2.orders@.len() == m.orders@.len()
                &&& forall|j: int|
                    0 <= j < m.orders@.len() && j != i ==> m2.orders@[j] == m.orders@[j]
                &&& same_identity(o, m2.orders@[i])
                &&& m2.orders@[i].order_id@ == nat_text(t.data.order_id as nat)
                &&& m2.orders@[i].update_time == t.data.transaction_time
                &&& m2.orders@[i].status == o.status
                &&& m2.orders@[i].filled_quantity@ == o.filled_quantity@
            }
        },
    }
}

/// Applies a `TRADE_LITE` report.
pub fn handle_trade_lite(manager: &mut GlobalOrderManager, trade: &TradeLiteStream)
    requires
        trade_lite_allowed(*old(manager), *trade),
    ensures
        trade_lite_post(*old(manager), *trade, *final(manager)),
{
    let cid = trade.data.client_order_id.as_str();
    let is_sell_order = side_is_sell(trade.data.side.as_str());
    match find_client_order(&manager.orders, cid) {
        Some(i) => {
            let ghost m0 = *manager;
            refresh_order(
                manager,
                i,
                trade.data.order_id,
                None,
                None,
                trade.data.transaction_time,
            );
            let ghost m1 = *manager;
            proof {
                assert forall|j: int| 0 <= j < i implies m1.orders@[j].client_order_id@ != cid@ by {
                    lemma_first_with_client_id(m0.orders@, cid@);
                }
                lemma_first_with_client_id(m0.orders@, cid@);
                lemma_first_with_client_id(m1.orders@, cid@);
                assert(first_with_client_id(m1.orders@, cid@) == Some(i as int));
            }
            let filled = manager.orders[i].filled_quantity;
            let quantity = manager.orders[i].quantity;
            if is_sell_order && !filled.lt(&quantity) {
                close_sold_position(manager, cid);
                proof {
                    let o = m0.orders@[i as int];
                    if o.related_buy_order_client_id is Some {
                        let p = keeps(cid@, Some(o.related_buy_order_client_id.unwrap()@));
                        lemma_filter_same_except(m0.orders@, m1.orders@, p, i as int);
                    }
                }
            }
        },
        None => {},
    }
}

/// Whether a trade report keeps the position count from going below zero,
/// tested as the event loop must before calling `handle_trade_lite`.
pub fn trade_lite_fits(manager: &GlobalOrderManager, trade: &TradeLiteStream) -> (r: bool)
    ensures
        r == trade_lite_allowed(*manager, *trade),
{
    match find_client_order(&manager.orders, trade.data.client_order_id.as_str()) {
        Some(i) => {
            let o = &manager.orders[i];
            if side_is_sell(trade.data.side.as_str()) && !o.filled_quantity.lt(&o.quantity)
                && o.related_buy_order_client_id.is_some() && !o.timeout_processed {
                manager.total_count >= 1
            } else {
                true
            }
        },
        None => true,
    }
}

/// `handle_trade_lite` where the count stays in range; otherwise nothing
/// changes and `false` is returned.
pub fn try_handle_trade_lite(manager: &mut GlobalOrderManager, trade: &TradeLiteStream) -> (applied:
    bool)
    ensures
        applied == trade_lite_allowed(*old(manager), *trade),
        applied ==> trade_lite_post(*old(manager), *trade, *final(manager)),
        !applied ==> manager_unchanged(*old(manager), *final(manager)),
{
    if trade_lite_fits(manager, trade) {
        handle_trade_lite(manager, trade);
        true
    } else {
        false
    }
}

/// `s.to_lowercase() == target` for a lower-case ASCII `target` without `k`
/// or `i`: the only characters that lower-case to such letters are the
/// letters themselves in either case.
pub open spec fn lower_equals(s: Seq<char>, target: Seq<char>) -> bool {
    &&& s.len() == target.len()
    &&& forall|i: int| 0 <= i < s.len() ==> ascii_lower(#[trigger] s[i]) == target[i]
}

fn lower_char(c: char) -> (r: char)
    ensures
        r == ascii_lower(c),
{
    if 'A' <= c && c <= 'Z' {
        ((c as u8) + 32) as char
    } else {
        c
    }
}

/// Compares the lower-cased asset name with an all-lower-case target.
pub fn lower_is(s: &str, target: &str) -> (r: bool)
    ensures
        r == lower_equals(s@, target@),
{
    let cs = crate::text::chars_of(s);
    let ct = crate::text::chars_of(target);
    if cs.len() != ct.len() {
        return false;
    }
    let mut i: usize = 0;
    while i < cs.len()
        invariant
            cs@ == s@,
            ct@ == target@,
            cs.len() == ct.len(),
            i <= cs.len(),
            forall|j: int| 0 <= j < i ==> ascii_lower(#[trigger] s@[j]) == target@[j],
        decreases cs.len() - i,
    {
        if lower_char(cs[i]) != ct[i] {
            return false;
        }
        i = i + 1;
    }
    true
}

/// The (USDC, USDT) available balances after a reported balance of `asset`.
pub open spec fn reported(avail: (DecModel, DecModel), asset: Seq<char>, amount: Seq<char>) -> (
    DecModel,
    DecModel,
) {
    if lower_equals(asset, "usdc"@) {
        match decimal_parse(amount) {
            Ok(v) => (v, avail.1),
            Err(_) => avail,
        }
    } else if lower_equals(asset, "usdt"@) {
        match decimal_parse(amount) {
            Ok(v) => (avail.0, v),
            Err(_) => avail,
        }
    } else {
        avail
    }
}

pub open spec fn available_pair(b: Balances) -> (DecModel, DecModel) {
    (b.usdc_available@, b.usdt_available@)
}

/// Takes over a reported balance of USDC or USDT; returns the parse error's
/// text when the amount is not a decimal.
pub fn apply_reported_balance(balances: &mut Balances, asset: &str, amount: &str) -> (r: Option<String>)
    ensures
        available_pair(*final(balances)) == reported(available_pair(*old(balances)), asset@, amount@),
        final(balances).usdt_to_use@ == old(balances).usdt_to_use@,
        final(balances).usdc_to_use@ == old(balances).usdc_to_use@,
        r is Some <==> (lower_equals(asset@, "usdc"@) || lower_equals(asset@, "usdt"@))
            && decimal_parse(amount@) is Err,
        r matches Some(e) ==> decimal_parse(amount@) == Err::<DecModel, Seq<char>>(e@),
{
    if lower_is(asset, "usdc") {
        match Dec::parse(amount) {
            Ok(v) => {
                balances.usdc_available = v;
                None
            },
            Err(e) => Some(e),
        }
    } else if lower_is(asset, "usdt") {
        match Dec::parse(amount) {
            Ok(v) => {
                balances.usdt_available = v;
                None
            },
            Err(e) => Some(e),
        }
    } else {
        None
    }
}

/// The parse error a reported balance gives, if any.
pub open spec fn reported_error(asset: Seq<char>, amount: Seq<char>) -> Seq<Seq<char>> {
    if lower_equals(asset, "usdc"@) || lower_equals(asset, "usdt"@) {
        match decimal_parse(amount) {
            Ok(_) => Seq::empty(),
            Err(e) => seq![e],
        }
    } else {
        Seq::empty()
    }
}

pub open spec fn account_update_errors(items: Seq<AccountBalance>) -> Seq<Seq<char>>
    decreases items.len(),
{
    if items.len() == 0 {
        Seq::empty()
    } else {
        account_update_errors(items.drop_last()) + reported_error(
            items.last().asset@,
            items.last().cross_wallet_balance@,
        )
    }
}

pub open spec fn balance_items_errors(items: Seq<BalanceItem>) -> Seq<Seq<char>>
    decreases items.len(),
{
    if items.len() == 0 {
        Seq::empty()
    } else {
        balance_items_errors(items.drop_last()) + reported_error(
            items.last().asset@,
            items.last().available_balance@,
        )
    }
}

pub open spec fn error_texts(errors: Seq<String>) -> Seq<Seq<char>> {
    errors.map_values(|e: String| e@)
}

pub open spec fn account_update_fold(avail: (DecModel, DecModel), items: Seq<AccountBalance>) -> (
    DecModel,
    DecModel,
)
    decreases items.len(),
{
    if items.len() == 0 {
        avail
    } else {
        reported(
            account_update_fold(avail, items.drop_last()),
            items.last().asset@,
            items.last().cross_wallet_balance@,
        )
    }
}

/// Takes over the USDC and USDT cross wallet balances of an
/// `ACCOUNT_UPDATE` event, in the order listed; returns the texts of the
/// amounts that did not parse.
pub fn apply_account_update(balances: &mut Balances, update: &AccountUpdateStream) -> (errors: Vec<
    String,
>)
    ensures
        available_pair(*final(balances)) == account_update_fold(
            available_pair(*old(balances)),
            update.data.account.balances@,
        ),
        final(balances).usdt_to_use@ == old(balances).usdt_to_use@,
        final(balances).usdc_to_use@ == old(balances).usdc_to_use@,
        error_texts(errors@) == account_update_errors(update.data.account.balances@),
{
    let items = &update.data.account.balances;
    let mut errors: Vec<String> = Vec::new();
    let mut i: usize = 0;
    assert(error_texts(errors@) =~= Seq::<Seq<char>>::empty());
    while i < items.len()
        invariant
            i <= items.len(),
            available_pair(*balances) == account_update_fold(
                available_pair(*old(balances)),
                items@.subrange(0, i as int),
            ),
            error_texts(errors@) == account_update_errors(items@.subrange(0, i as int)),
            balances.usdt_to_use@ == old(balances).usdt_to_use@,
            balances.usdc_to_use@ == old(balances).usdc_to_use@,
        decreases items.len() - i,
    {
        proof {
            assert(items@.subrange(0, i + 1).drop_last() =~= items@.subrange(0, i as int));
        }
        let ghost before = errors@;
        match apply_reported_balance(
            balances,
            items[i].asset.as_str(),
            items[i].cross_wallet_balance.as_str(),
        ) {
            Some(e) => errors.push(e),
            None => {},
        }
        proof {
            assert(error_texts(errors@) =~= error_texts(before) + reported_error(
                items@[i as int].asset@,
                items@[i as int].cross_wallet_balance@,
            ));
        }
        i = i + 1;
    }
    assert(items@.subrange(0, items.len() as int) =~= items@);
    errors
}

pub open spec fn balance_items_fold(avail: (DecModel, DecModel), items: Seq<BalanceItem>) -> (
    DecModel,
    DecModel,
)
    decreases items.len(),
{
    if items.len() == 0 {
        avail
    } else {
        reported(
            balance_items_fold(avail, items.drop_last()),
            items.last().asset@,
            items.last().available_balance@,
        )
    }
}

/// Takes over the USDC and USDT available balances of a successful
/// `v2/account.balance` reply, in the order listed; returns the texts of
/// the amounts that did not parse.
pub fn apply_account_balances(balances: &mut Balances, items: &Vec<BalanceItem>) -> (errors: Vec<
    String,
>)
    ensures
        available_pair(*final(balances)) == balance_items_fold(
            available_pair(*old(balances)),
            items@,
        ),
        final(balances).usdt_to_use@ == old(balances).usdt_to_use@,
        final(balances).usdc_to_use@ == old(balances).usdc_to_use@,
        error_texts(errors@) == balance_items_errors(items@),
{
    let mut errors: Vec<String> = Vec::new();
    let mut i: usize = 0;
    assert(error_texts(errors@) =~= Seq::<Seq<char>>::empty());
    while i < items.len()
        invariant
            i <= items.len(),
            available_pair(*balances) == balance_items_fold(
                available_pair(*old(balances)),
                items@.subrange(0, i as int),
            ),
            error_texts(errors@) == balance_items_errors(items@.subrange(0, i as int)),
            balances.usdt_to_use@ == old(balances).usdt_to_use@,
            balances.usdc_to_use@ == old(balances).usdc_to_use@,
        decreases items.len() - i,
    {
        proof {
            assert(items@.subrange(0, i + 1).drop_last() =~= items@.subrange(0, i as int));
        }
        let ghost before = errors@;
        match apply_reported_balance(
            balances,
            items[i].asset.as_str(),
            items[i].available_balance.as_str(),
        ) {
            Some(e) => errors.push(e),
            None => {},
        }
        proof {
            assert(error_texts(errors@) =~= error_texts(before) + reported_error(
                items@[i as int].asset@,
                items@[i as int].available_balance@,
            ));
        }
        i = i + 1;
    }
    assert(items@.subrange(0, items.len() as int) =~= items@);
    errors
}

/// Applies a `v2/account.balance` reply: a successful one (status 200)
/// hands its balances to `apply_account_balances` and gives back the parse
/// errors; a failed one changes nothing and gives `None`.
pub fn apply_account_balance_reply(balances: &mut Balances, reply: &AccountBalanceResponse) -> (r: Option<
    Vec<String>,
>)
    ensures
        r is Some <==> reply.status == 200,
        reply.status == 200 && reply.result is Some ==> available_pair(*final(balances))
            == balance_items_fold(available_pair(*old(balances)), reply.result.unwrap()@),
        r matches Some(errors) ==> error_texts(errors@) == match reply.result {
            Some(items) => balance_items_errors(items@),
            None => Seq::<Seq<char>>::empty(),
        },
        !(reply.status == 200 && reply.result is Some) ==> same_balances(*old(balances), *final(balances)),
        final(balances).usdt_to_use@ == old(balances).usdt_to_use@,
        final(balances).usdc_to_use@ == old(balances).usdc_to_use@,
{
    if reply.status != 200 {
        return None;
    }
    match &reply.result {
        Some(items) => Some(apply_account_balances(balances, items)),
        None => {
            let errors: Vec<String> = Vec::new();
            assert(error_texts(errors@) =~= Seq::<Seq<char>>::empty());
            Some(errors)
        },
    }
}

/// An exchange report sets the tracked order's status to the one the
/// exchange names: each of `NEW`, `PARTIALLY_FILLED`, `FILLED`, `CANCELED`,
/// `REJECTED` and `EXPIRED` to its own status, while any other text leaves
/// the status as it was.
pub proof fn law_report_takes_exchange_status(
    a: GlobalOrderManager,
    b: GlobalOrderManager,
    cid: Seq<char>,
    i: int,
    order_id: u64,
    status: Seq<char>,
    filled: Seq<char>,
    time: u64,
)
    requires
        first_with_client_id(a.orders@, cid) == Some(i),
        report_post(a, cid, b, order_id, status, filled, time),
    ensures
        status == "NEW"@ ==> b.orders@[i].status == OrderStatus::New,
        status == "PARTIALLY_FILLED"@ ==> b.orders@[i].status == OrderStatus::PartiallyFilled,
        status == "FILLED"@ ==> b.orders@[i].status == OrderStatus::Filled,
        status == "CANCELED"@ ==> b.orders@[i].status == OrderStatus::Canceled,
        status == "REJECTED"@ ==> b.orders@[i].status == OrderStatus::Rejected,
        status == "EXPIRED"@ ==> b.orders@[i].status == OrderStatus::Expired,
        status != "NEW"@ && status != "PARTIALLY_FILLED"@ && status != "FILLED"@ && status
            != "CANCELED"@ && status != "REJECTED"@ && status != "EXPIRED"@ ==> b.orders@[i].status
            == a.orders@[i].status,
{
    reveal_strlit("NEW");
    reveal_strlit("PARTIALLY_FILLED");
    reveal_strlit("FILLED");
    reveal_strlit("CANCELED");
    reveal_strlit("REJECTED");
    reveal_strlit("EXPIRED");
    assert("NEW"@.len() == 3);
    assert("PARTIALLY_FILLED"@.len() == 16);
    assert("FILLED"@.len() == 6);
    assert("CANCELED"@.len() == 8 && "CANCELED"@[0] == 'C');
    assert("REJECTED"@.len() == 8 && "REJECTED"@[0] == 'R');
    assert("EXPIRED"@.len() == 7);
    assert(order_refreshed(a.orders@[i], b.orders@[i], order_id, status, filled, time));
}

/// A balance item whose USDC amount is taken over: its asset is USDC (in
/// any case) and its `availableBalance` is a decimal.
pub open spec fn usdc_item_taken(item: BalanceItem) -> bool {
    lower_equals(item.asset@, "usdc"@) && decimal_parse(item.available_balance@) is Ok
}

/// The same for USDT.
pub open spec fn usdt_item_taken(item: BalanceItem) -> bool {
    lower_equals(item.asset@, "usdt"@) && decimal_parse(item.available_balance@) is Ok
}

/// A balance reply leaves as the USDC (USDT) available balance the
/// `availableBalance` of the last USDC (USDT) item that parses, and the
/// previous one when there is none; the total and wallet balances play no
/// part.
pub proof fn law_balances_from_available(avail: (DecModel, DecModel), items: Seq<BalanceItem>)
    ensures
        forall|i: int|
            0 <= i < items.len() && #[trigger] usdc_item_taken(items[i]) && (forall|j: int|
                i < j < items.len() ==> !usdc_item_taken(#[trigger] items[j])) ==> decimal_parse(
                items[i].available_balance@,
            ) == Ok::<DecModel, Seq<char>>(balance_items_fold(avail, items).0),
        forall|i: int|
            0 <= i < items.len() && #[trigger] usdt_item_taken(items[i]) && (forall|j: int|
                i < j < items.len() ==> !usdt_item_taken(#[trigger] items[j])) ==> decimal_parse(
                items[i].available_balance@,
            ) == Ok::<DecModel, Seq<char>>(balance_items_fold(avail, items).1),
        (forall|j: int| 0 <= j < items.len() ==> !usdc_item_taken(#[trigger] items[j]))
            ==> balance_items_fold(avail, items).0 == avail.0,
        (forall|j: int| 0 <= j < items.len() ==> !usdt_item_taken(#[trigger] items[j]))
            ==> balance_items_fold(avail, items).1 == avail.1,
    decreases items.len(),
{
    if items.len() > 0 {
        let d = items.drop_last();
        let n = items.len() - 1;
        law_balances_from_available(avail, d);
        let last = items[n];
        assert(last == items.last());
        reveal_strlit("usdc");
        reveal_strlit("usdt");
        if lower_equals(last.asset@, "usdc"@) && lower_equals(last.asset@, "usdt"@) {
            assert(ascii_lower(last.asset@[3]) == 'c');
            assert(ascii_lower(last.asset@[3]) == 't');
        }
        assert forall|j: int| 0 <= j < d.len() implies #[trigger] d[j] == items[j] by {}
        assert forall|i: int|
            0 <= i < items.len() && #[trigger] usdc_item_taken(items[i]) && (forall|j: int|
                i < j < items.len() ==> !usdc_item_taken(#[trigger] items[j])) implies decimal_parse(
                items[i].available_balance@,
            ) == Ok::<DecModel, Seq<char>>(balance_items_fold(avail, items).0) by {
            if i < n {
                assert(!usdc_item_taken(items[n]));
                assert(usdc_item_taken(d[i]));
                assert forall|j: int| i < j < d.len() implies !usdc_item_taken(#[trigger] d[j]) by {
                    assert(!usdc_item_taken(items[j]));
                }
            }
        }
        assert forall|i: int|
            0 <= i < items.len() && #[trigger] usdt_item_taken(items[i]) && (forall|j: int|
                i < j < items.len() ==> !usdt_item_taken(#[trigger] items[j])) implies decimal_parse(
                items[i].available_balance@,
            ) == Ok::<DecModel, Seq<char>>(balance_items_fold(avail, items).1) by {
            if i < n {
                assert(!usdt_item_taken(items[n]));
                assert(usdt_item_taken(d[i]));
                assert forall|j: int| i < j < d.len() implies !usdt_item_taken(#[trigger] d[j]) by {
                    assert(!usdt_item_taken(items[j]));
                }
            }
        }
        if forall|j: int| 0 <= j < items.len() ==> !usdc_item_taken(#[trigger] items[j]) {
            assert(!usdc_item_taken(items[n]));
            assert forall|j: int| 0 <= j < d.len() implies !usdc_item_taken(#[trigger] d[j]) by {
                assert(!usdc_item_taken(items[j]));
            }
        }
        if forall|j: int| 0 <= j < items.len() ==> !usdt_item_taken(#[trigger] items[j]) {
            assert(!usdt_item_taken(items[n]));
            assert forall|j: int| 0 <= j < d.len() implies !usdt_item_taken(#[trigger] d[j]) by {
                assert(!usdt_item_taken(items[j]));
            }
        }
    }
}

} // verus!
