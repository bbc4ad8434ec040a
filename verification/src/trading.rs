//! When to buy and sell, at what price and size, and what happens to the
//! book-keeping once an order is sent or answered.
use crate::bot::{
    available_of, find_client_order, first_with_client_id, is_cancel_status, is_filled_status,
    is_sell_side, keeps, lemma_first_with_client_id, manager_unchanged, order_trade_update_allowed,
    order_trade_update_post, same_balances, same_identity, with_available, Balances,
    GlobalOrderManager, Order, OrderSide, OrderStatus, QuoteAsset,
};
use crate::decimal::{
    dec_lt, decimal_checked_add, decimal_checked_div, decimal_checked_sub, decimal_parse,
    decimal_text, Dec, DecModel,
};
use crate::market::{
    calculate_median, copy_gaps, median_allowed, median_fits, median_of, sort_desc,
};
use crate::text::{
    concat, ends_with, has_prefix, has_suffix, i64_text, int_text, starts_with, str_eq,
};
use crate::utils::{
    calc_quantity_spec, calc_result_model, on_lot_step, try_calc_quantity, CalcError,
    CalcErrorModel, Filter, Symbol,
};
use crate::ws_api::{BookTickerStream, OrderTradeUpdateStream};
use vstd::prelude::*;

verus! {

/// Ten seconds, in milliseconds: the least time between two buys or two
/// sells, and the age at which an unfilled buy is cancelled.
pub const ORDER_INTERVAL_MS: u64 = 10000;

/// One hour, in milliseconds: the age at which an open sell stops counting
/// as a position.
pub const SELL_TIMEOUT_MS: u64 = 3600000;

/// Why a buy was not placed.
#[derive(Debug)]
pub enum BuySkip {
    /// The best bid did not parse; the parse error's text.
    BadBidPrice(String),
    /// ETHUSDC above 3000 is not bought.
    PriceTooHigh,
    /// A position is already open.
    PositionOpen,
    /// The last buy was less than ten seconds ago; the milliseconds left.
    TooSoon(u64),
    /// Nothing to spend.
    NothingToSpend,
    /// Less available than one buy spends.
    InsufficientBalance,
}

/// A buy that passed the checks: what it spends, at which bid.
#[derive(Debug)]
pub struct BuyPlan {
    pub quote_asset: QuoteAsset,
    pub amount: Dec,
    pub available: Dec,
    pub bid_price: Dec,
    pub timestamp: i64,
}

/// The quote asset a symbol is bought with.
pub open spec fn quote_asset_of(symbol: Seq<char>) -> QuoteAsset {
    if has_suffix(symbol, "USDC"@) {
        QuoteAsset::USDC
    } else {
        QuoteAsset::USDT
    }
}

pub fn quote_asset_for(symbol: &str) -> (r: QuoteAsset)
    ensures
        r == quote_asset_of(symbol@),
{
    if ends_with(symbol, "USDC") {
        QuoteAsset::USDC
    } else {
        QuoteAsset::USDT
    }
}

pub open spec fn to_use_of(b: Balances, asset: QuoteAsset) -> DecModel {
    match asset {
        QuoteAsset::USDT => b.usdt_to_use@,
        QuoteAsset::USDC => b.usdc_to_use@,
    }
}

pub open spec fn three_thousand() -> DecModel {
    (3000int, 0nat)
}

/// The amount one buy spends: the configured amount, or a tenth of the
/// available balance when none is configured.
pub open spec fn spend_amount(b: Balances, asset: QuoteAsset) -> Option<DecModel> {
    if to_use_of(b, asset).0 == 0 {
        decimal_checked_div(available_of(b, asset), (10int, 0nat))
    } else {
        Some(to_use_of(b, asset))
    }
}

/// Whether the checks before a buy stay in range: the throttle's clock
/// does not run backwards, and a tenth of the balance can be computed.
pub open spec fn buy_check_allowed(
    m: GlobalOrderManager,
    b: Balances,
    symbol: Seq<char>,
    ticker: BookTickerStream,
) -> bool {
    let t = ticker.data.event_time;
    match decimal_parse(ticker.data.best_bid_price@) {
        Err(_) => true,
        Ok(bid) => {
            (symbol == "ETHUSDC"@ && dec_lt(three_thousand(), bid)) || m.total_count >= 1 || {
                &&& m.last_buy_order_time != 0 ==> t >= m.last_buy_order_time
                &&& (m.last_buy_order_time != 0 && t - m.last_buy_order_time < 10000)
                    || spend_amount(b, quote_asset_of(symbol)) is Some
            }
        },
    }
}

/// What the checks before a buy decide, with the amount they fix.
pub open spec fn buy_check_result(
    m: GlobalOrderManager,
    b: Balances,
    symbol: Seq<char>,
    ticker: BookTickerStream,
    r: Result<BuyPlan, BuySkip>,
) -> bool {
    let t = ticker.data.event_time;
    match decimal_parse(ticker.data.best_bid_price@) {
        Err(e) => r matches Err(BuySkip::BadBidPrice(msg)) && msg@ == e,
        Ok(bid) => if symbol == "ETHUSDC"@ && dec_lt(three_thousand(), bid) {
            r matches Err(BuySkip::PriceTooHigh)
        } else if m.total_count >= 1 {
            r matches Err(BuySkip::PositionOpen)
        } else if m.last_buy_order_time != 0 && t - m.last_buy_order_time < 10000 {
            r matches Err(BuySkip::TooSoon(left)) && left == 10000 - (t - m.last_buy_order_time)
        } else {
            let asset = quote_asset_of(symbol);
            let amount = spend_amount(b, asset).unwrap();
            if !dec_lt((0int, 0nat), amount) {
                r matches Err(BuySkip::NothingToSpend)
            } else if dec_lt(available_of(b, asset), amount) {
                r matches Err(BuySkip::InsufficientBalance)
            } else {
                r matches Ok(plan) && plan.quote_asset == asset && plan.amount@ == amount
                    && plan.available@ == available_of(b, asset) && plan.bid_price@ == bid
                    && plan.timestamp == t as i64
            }
        },
    }
}

/// The balances after the checks: a computed tenth of the balance becomes
/// the amount each later buy spends.
pub open spec fn buy_check_balances(
    m: GlobalOrderManager,
    b: Balances,
    symbol: Seq<char>,
    ticker: BookTickerStream,
    b2: Balances,
) -> bool {
    let t = ticker.data.event_time;
    let asset = quote_asset_of(symbol);
    let passes = match decimal_parse(ticker.data.best_bid_price@) {
        Ok(bid) => !(symbol == "ETHUSDC"@ && dec_lt(three_thousand(), bid)) && m.total_count < 1
            && !(m.last_buy_order_time != 0 && t - m.last_buy_order_time < 10000),
        Err(_) => false,
    };
    if passes && to_use_of(b, asset).0 == 0 {
        &&& b2.usdt_available@ == b.usdt_available@
        &&& b2.usdc_available@ == b.usdc_available@
        &&& match asset {
            QuoteAsset::USDT => b2.usdt_to_use@ == spend_amount(b, asset).unwrap()
                && b2.usdc_to_use@ == b.usdc_to_use@,
            QuoteAsset::USDC => b2.usdc_to_use@ == spend_amount(b, asset).unwrap()
                && b2.usdt_to_use@ == b.usdt_to_use@,
        }
    } else {
        same_balances(b, b2)
    }
}

/// The checks before a buy on a book ticker: a parseable bid, not ETHUSDC
/// above 3000, no open position, ten seconds since the last buy, and an
/// amount to spend that is positive and available.
pub fn check_buy(
    manager: &GlobalOrderManager,
    balances: &mut Balances,
    symbol: &str,
    ticker: &BookTickerStream,
) -> (r: Result<BuyPlan, BuySkip>)
    requires
        buy_check_allowed(*manager, *old(balances), symbol@, *ticker),
    ensures
        buy_check_result(*manager, *old(balances), symbol@, *ticker, r),
        buy_check_balances(*manager, *old(balances), symbol@, *ticker, *final(balances)),
        r matches Ok(plan) ==> {
            &&& manager.total_count == 0
            &&& manager.last_buy_order_time == 0 || ticker.data.event_time
                - manager.last_buy_order_time >= 10000
            &&& dec_lt((0int, 0nat), plan.amount@)
            &&& !dec_lt(plan.available@, plan.amount@)
            &&& symbol@ == "ETHUSDC"@ ==> !dec_lt(three_thousand(), plan.bid_price@)
        },
{
    let bid_price = match Dec::parse(ticker.data.best_bid_price.as_str()) {
        Ok(p) => p,
        Err(e) => return Err(BuySkip::BadBidPrice(e)),
    };
    let limit = Dec::from_parts(3000, 0);
    let limit = match limit {
        Some(l) => l,
        None => Dec::zero(),
    };
    if str_eq(symbol, "ETHUSDC") && limit.lt(&bid_price) {
        return Err(BuySkip::PriceTooHigh);
    }
    let timestamp = ticker.data.event_time;
    if manager.total_count >= 1 {
        return Err(BuySkip::PositionOpen);
    }
    if manager.last_buy_order_time != 0 && timestamp - manager.last_buy_order_time
        < ORDER_INTERVAL_MS {
        return Err(BuySkip::TooSoon(ORDER_INTERVAL_MS - (timestamp - manager.last_buy_order_time)));
    }
    let quote_asset = quote_asset_for(symbol);
    let ten = match Dec::from_parts(10, 0) {
        Some(t) => t,
        None => Dec::zero(),
    };
    let (amount, available) = match quote_asset {
        QuoteAsset::USDT => {
            let available = balances.usdt_available;
            let amount = if balances.usdt_to_use.mantissa() == 0 {
                let calculated = match available.checked_div(&ten) {
                    Some(c) => c,
                    None => {
                        proof {
                            assert(false);
                        }
                        available
                    },
                };
                balances.usdt_to_use = calculated;
                calculated
            } else {
                balances.usdt_to_use
            };
            (amount, available)
        },
        QuoteAsset::USDC => {
            let available = balances.usdc_available;
            let amount = if balances.usdc_to_use.mantissa() == 0 {
                let calculated = match available.checked_div(&ten) {
                    Some(c) => c,
                    None => {
                        proof {
                            assert(false);
                        }
                        available
                    },
                };
                balances.usdc_to_use = calculated;
                calculated
            } else {
                balances.usdc_to_use
            };
            (amount, available)
        },
    };
    if !amount.is_positive() {
        return Err(BuySkip::NothingToSpend);
    }
    if available.lt(&amount) {
        return Err(BuySkip::InsufficientBalance);
    }
    Ok(BuyPlan { quote_asset, amount, available, bid_price, timestamp: timestamp as i64 })
}

/// Whether `check_buy` stays in range, tested as the event loop must
/// before calling it.
pub fn buy_check_fits(
    manager: &GlobalOrderManager,
    balances: &Balances,
    symbol: &str,
    ticker: &BookTickerStream,
) -> (r: bool)
    ensures
        r == buy_check_allowed(*manager, *balances, symbol@, *ticker),
{
    let bid = match Dec::parse(ticker.data.best_bid_price.as_str()) {
        Ok(p) => p,
        Err(_) => return true,
    };
    let limit = match Dec::from_parts(3000, 0) {
        Some(l) => l,
        None => Dec::zero(),
    };
    if str_eq(symbol, "ETHUSDC") && limit.lt(&bid) {
        return true;
    }
    if manager.total_count >= 1 {
        return true;
    }
    let t = ticker.data.event_time;
    if manager.last_buy_order_time != 0 && t < manager.last_buy_order_time {
        return false;
    }
    if manager.last_buy_order_time != 0 && t - manager.last_buy_order_time < ORDER_INTERVAL_MS {
        return true;
    }
    let asset = quote_asset_for(symbol);
    let (to_use, available) = match asset {
        QuoteAsset::USDT => (balances.usdt_to_use, balances.usdt_available),
        QuoteAsset::USDC => (balances.usdc_to_use, balances.usdc_available),
    };
    if to_use.mantissa() != 0 {
        return true;
    }
    let ten = match Dec::from_parts(10, 0) {
        Some(t) => t,
        None => Dec::zero(),
    };
    available.checked_div(&ten).is_some()
}

/// `check_buy` where it stays in range; otherwise nothing changes and
/// `None` is returned.
pub fn try_check_buy(
    manager: &GlobalOrderManager,
    balances: &mut Balances,
    symbol: &str,
    ticker: &BookTickerStream,
) -> (r: Option<Result<BuyPlan, BuySkip>>)
    ensures
        r is Some == buy_check_allowed(*manager, *old(balances), symbol@, *ticker),
        r matches Some(x) ==> buy_check_result(*manager, *old(balances), symbol@, *ticker, x)
            && buy_check_balances(*manager, *old(balances), symbol@, *ticker, *final(balances)),
        r is None ==> same_balances(*old(balances), *final(balances)),
{
    if buy_check_fits(manager, balances, symbol, ticker) {
        Some(check_buy(manager, balances, symbol, ticker))
    } else {
        None
    }
}

/// The id of the `order.place` request for a buy placed at `ts`.
pub open spec fn buy_request_id_text(ts: int) -> Seq<char> {
    "place_order_buy_"@ + int_text(ts)
}

/// The client order id of a buy placed at `ts`.
pub open spec fn buy_client_id_text(symbol: Seq<char>, ts: int) -> Seq<char> {
    symbol + "_BUY_"@ + int_text(ts)
}

/// The id of the `order.place` request for a sell placed at `ts`.
pub open spec fn sell_request_id_text(ts: int) -> Seq<char> {
    "place_order_sell_"@ + int_text(ts)
}

/// The client order id of a sell placed at `ts`.
pub open spec fn sell_client_id_text(symbol: Seq<char>, ts: int) -> Seq<char> {
    symbol + "_SELL_"@ + int_text(ts) + "_sell"@
}

/// What sizing a buy gives: the symbol's order rules applied to the amount
/// and bid as `Decimal` displays them.
pub open spec fn buy_quantity_spec(plan: BuyPlan, filters: Seq<Filter>) -> Option<
    Result<DecModel, CalcErrorModel>,
> {
    calc_quantity_spec(decimal_text(plan.amount@), decimal_text(plan.bid_price@), filters)
}

/// The quantity a checked buy orders; `None` where sizing would overflow.
pub fn buy_quantity(plan: &BuyPlan, symbol: &str, symbol_info: &Symbol) -> (r: Option<
    Result<Dec, CalcError>,
>)
    ensures
        match buy_quantity_spec(*plan, symbol_info.filters@) {
            Some(v) => r matches Some(x) && calc_result_model(x) == v,
            None => r is None,
        },
        r matches Some(Ok(q)) ==> on_lot_step(
            decimal_text(plan.amount@),
            decimal_text(plan.bid_price@),
            symbol_info.filters@,
            q@,
        ),
{
    let amount = plan.amount.to_text();
    let bid = plan.bid_price.to_text();
    try_calc_quantity(amount.as_str(), symbol, bid.as_str(), symbol_info)
}

/// The order a buy adds to the book: new, unfilled, at the bid, with the
/// amount it spends reserved.
pub open spec fn is_new_buy_order(o: Order, symbol: Seq<char>, plan: BuyPlan, quantity: DecModel) -> bool {
    &&& o.id@ == buy_request_id_text(plan.timestamp as int)
    &&& o.order_id@ == Seq::<char>::empty()
    &&& o.client_order_id@ == buy_client_id_text(symbol, plan.timestamp as int)
    &&& o.symbol@ == symbol
    &&& o.side == OrderSide::Buy
    &&& o.status == OrderStatus::New
    &&& o.price@ == plan.bid_price@
    &&& o.quantity@ == quantity
    &&& o.filled_quantity@ == (0int, 1nat)
    &&& o.quote_asset == plan.quote_asset
    &&& o.create_time == plan.timestamp as u64
    &&& o.update_time == plan.timestamp as u64
    &&& o.deducted_amount@ == plan.amount@
    &&& o.related_buy_order_client_id is None
    &&& !o.timeout_processed
}

/// Adds a checked buy to the book and opens a position; returns the
/// request id and the client order id the order is sent under.
pub fn record_buy_order(
    manager: &mut GlobalOrderManager,
    symbol: &str,
    plan: &BuyPlan,
    quantity: Dec,
) -> (ids: (String, String))
    requires
        old(manager).total_count < usize::MAX,
    ensures
        ids.0@ == buy_request_id_text(plan.timestamp as int),
        ids.1@ == buy_client_id_text(symbol@, plan.timestamp as int),
        final(manager).orders@ == old(manager).orders@.push(final(manager).orders@.last()),
        is_new_buy_order(final(manager).orders@.last(), symbol@, *plan, quantity@),
        final(manager).total_count == old(manager).total_count + 1,
        final(manager).last_buy_order_time == old(manager).last_buy_order_time,
        final(manager).last_sell_order_time == old(manager).last_sell_order_time,
{
    let ts = i64_text(plan.timestamp);
    let request_id = concat("place_order_buy_", ts.as_str());
    let mut client_id = concat(symbol, "_BUY_");
    client_id.append(ts.as_str());
    let zero = match Dec::from_parts(0, 1) {
        Some(d) => d,
        None => Dec::zero(),
    };
    let order = Order {
        id: request_id.as_str().to_owned(),
        order_id: String::new(),
        client_order_id: client_id.as_str().to_owned(),
        symbol: symbol.to_owned(),
        side: OrderSide::Buy,
        status: OrderStatus::New,
        price: plan.bid_price,
        quantity,
        filled_quantity: zero,
        quote_asset: plan.quote_asset,
        create_time: plan.timestamp as u64,
        update_time: plan.timestamp as u64,
        deducted_amount: plan.amount,
        related_buy_order_client_id: None,
        timeout_processed: false,
    };
    manager.orders.push(order);
    manager.total_count = manager.total_count + 1;
    (request_id, client_id)
}

/// Whether the amount a sent buy spends can be taken off the balance
/// without overflowing.
pub open spec fn buy_sent_allowed(b: Balances, plan: BuyPlan) -> bool {
    decimal_checked_sub(available_of(b, plan.quote_asset), plan.amount@) is Some
}

/// After a buy request went out: the buy clock moves to its time and the
/// amount it spends leaves the available balance.
pub fn on_buy_sent(manager: &mut GlobalOrderManager, balances: &mut Balances, plan: &BuyPlan)
    requires
        buy_sent_allowed(*old(balances), *plan),
    ensures
        final(manager).orders@ == old(manager).orders@,
        final(manager).total_count == old(manager).total_count,
        final(manager).last_buy_order_time == plan.timestamp as u64,
        final(manager).last_sell_order_time == old(manager).last_sell_order_time,
        with_available(
            *old(balances),
            plan.quote_asset,
            decimal_checked_sub(available_of(*old(balances), plan.quote_asset), plan.amount@).unwrap(),
            *final(balances),
        ),
{
    manager.last_buy_order_time = plan.timestamp as u64;
    match plan.quote_asset {
        QuoteAsset::USDT => {
            if let Some(v) = balances.usdt_available.checked_sub(&plan.amount) {
                balances.usdt_available = v;
            }
        },
        QuoteAsset::USDC => {
            if let Some(v) = balances.usdc_available.checked_sub(&plan.amount) {
                balances.usdc_available = v;
            }
        },
    }
}

/// `on_buy_sent` where the subtraction stays in range; otherwise nothing
/// changes and `false` is returned.
pub fn try_on_buy_sent(manager: &mut GlobalOrderManager, balances: &mut Balances, plan: &BuyPlan) -> (applied: bool)
    ensures
        applied == buy_sent_allowed(*old(balances), *plan),
        applied ==> final(manager).orders@ == old(manager).orders@
            && final(manager).total_count == old(manager).total_count
            && final(manager).last_buy_order_time == plan.timestamp as u64
            && final(manager).last_sell_order_time == old(manager).last_sell_order_time
            && with_available(
            *old(balances),
            plan.quote_asset,
            decimal_checked_sub(available_of(*old(balances), plan.quote_asset), plan.amount@).unwrap(),
            *final(balances),
        ),
        !applied ==> manager_unchanged(*old(manager), *final(manager)) && same_balances(
            *old(balances),
            *final(balances),
        ),
{
    let avail = match plan.quote_asset {
        QuoteAsset::USDT => balances.usdt_available,
        QuoteAsset::USDC => balances.usdc_available,
    };
    if avail.checked_sub(&plan.amount).is_some() {
        on_buy_sent(manager, balances, plan);
        true
    } else {
        false
    }
}

/// Why no sell was placed.
#[derive(Debug)]
pub enum SellSkip {
    /// The last sell was less than ten seconds ago; the milliseconds left.
    TooSoon(u64),
    /// No filled buy is waiting to be sold.
    NoFilledBuy,
    /// The best ask did not parse; the parse error's text.
    BadAskPrice(String),
}

/// A sell to place: the filled buy it closes, at what price and size.
#[derive(Debug)]
pub struct SellPlan {
    pub buy_client_order_id: String,
    pub price: Dec,
    pub quantity: Dec,
    pub timestamp: i64,
}

pub open spec fn is_filled_buy(o: Order) -> bool {
    o.status == OrderStatus::Filled && o.side == OrderSide::Buy
}

/// The first filled buy in the book.
pub open spec fn first_filled_buy(orders: Seq<Order>) -> Option<int>
    decreases orders.len(),
{
    if orders.len() == 0 {
        None
    } else if first_filled_buy(orders.drop_last()) is Some {
        first_filled_buy(orders.drop_last())
    } else if is_filled_buy(orders.last()) {
        Some(orders.len() - 1)
    } else {
        None
    }
}

proof fn lemma_first_filled_buy(orders: Seq<Order>)
    ensures
        match first_filled_buy(orders) {
            Some(i) => 0 <= i < orders.len() && is_filled_buy(orders[i]) && forall|j: int|
                0 <= j < i ==> !is_filled_buy(#[trigger] orders[j]),
            None => forall|j: int| 0 <= j < orders.len() ==> !is_filled_buy(#[trigger] orders[j]),
        },
    decreases orders.len(),
{
    if orders.len() > 0 {
        lemma_first_filled_buy(orders.drop_last());
        assert forall|j: int| 0 <= j < orders.len() - 1 implies orders[j] == orders.drop_last()[j] by {}
    }
}

fn find_filled_buy(orders: &Vec<Order>) -> (r: Option<usize>)
    ensures
        match first_filled_buy(orders@) {
            Some(i) => r matches Some(j) && j as int == i,
            None => r is None,
        },
{
    proof {
        lemma_first_filled_buy(orders@);
    }
    let mut i: usize = 0;
    while i < orders.len()
        invariant
            i <= orders.len(),
            forall|j: int| 0 <= j < i ==> !is_filled_buy(#[trigger] orders@[j]),
            match first_filled_buy(orders@) {
                Some(k) => 0 <= k < orders@.len() && is_filled_buy(orders@[k]) && forall|j: int|
                    0 <= j < k ==> !is_filled_buy(#[trigger] orders@[j]),
                None => forall|j: int| 0 <= j < orders@.len() ==> !is_filled_buy(#[trigger] orders@[j]),
            },
        decreases orders.len() - i,
    {
        if orders[i].status == OrderStatus::Filled && orders[i].side == OrderSide::Buy {
            return Some(i);
        }
        i = i + 1;
    }
    None
}

/// The median price gap, when there are gaps.
pub open spec fn median_value(gaps: Seq<Dec>) -> Option<DecModel> {
    match median_of(sort_desc(gaps)) {
        Some(Some(m)) => Some(m),
        _ => None,
    }
}

/// The sell price: the buy price raised by the median gap (the ask when
/// there are no gaps), and never below the ask; `None` where the sum
/// overflows.
pub open spec fn sell_price_model(buy_price: DecModel, median: Option<DecModel>, ask: DecModel) -> Option<
    DecModel,
> {
    let target = match median {
        Some(g) => decimal_checked_add(buy_price, g),
        None => Some(ask),
    };
    match target {
        Some(t) => Some(if dec_lt(t, ask) { ask } else { t }),
        None => None,
    }
}

pub open spec fn sell_throttled(m: GlobalOrderManager, t: u64) -> bool {
    m.last_sell_order_time != 0 && t - m.last_sell_order_time < 10000
}

/// Whether the sell checks stay in range: the sell clock does not run
/// backwards, the median can be taken, and the raised price fits.
pub open spec fn sell_check_allowed(m: GlobalOrderManager, gaps: Seq<Dec>, ticker: BookTickerStream) -> bool {
    let t = ticker.data.event_time;
    &&& m.last_sell_order_time != 0 ==> t >= m.last_sell_order_time
    &&& !sell_throttled(m, t) ==> {
        &&& median_allowed(gaps)
        &&& match first_filled_buy(m.orders@) {
            Some(i) => match decimal_parse(ticker.data.best_ask_price@) {
                Ok(ask) => sell_price_model(m.orders@[i].price@, median_value(gaps), ask) is Some,
                Err(_) => true,
            },
            None => true,
        }
    }
}

/// The order with only its status changed.
pub open spec fn with_status(a: Order, b: Order, status: OrderStatus) -> bool {
    &&& same_identity(a, b)
    &&& b.order_id == a.order_id
    &&& b.filled_quantity@ == a.filled_quantity@
    &&& b.update_time == a.update_time
    &&& b.status == status
}

/// The book with the first order of this client order id set to `status`.
pub open spec fn status_set(m: GlobalOrderManager, cid: Seq<char>, status: OrderStatus, m2: GlobalOrderManager) -> bool {
    match first_with_client_id(m.orders@, cid) {
        Some(j) => {
            &&& m2.total_count == m.total_count
            &&& m2.last_buy_order_time == m.last_buy_order_time
            &&& m2.last_sell_order_time == m.last_sell_order_time
            &&& m2.orders@.len() == m.orders@.len()
            &&& forall|k: int| 0 <= k < m.orders@.len() && k != j ==> m2.orders@[k] == m.orders@[k]
            &&& with_status(m.orders@[j], m2.orders@[j], status)
        },
        None => manager_unchanged(m, m2),
    }
}

/// What the sell checks decide, and what they do to the book and the gaps.
pub open spec fn sell_check_post(
    m: GlobalOrderManager,
    gaps: Seq<Dec>,
    ticker: BookTickerStream,
    r: Result<SellPlan, SellSkip>,
    m2: GlobalOrderManager,
    gaps2: Seq<Dec>,
) -> bool {
    let t = ticker.data.event_time;
    if sell_throttled(m, t) {
        &&& r matches Err(SellSkip::TooSoon(left)) && left == 10000 - (t - m.last_sell_order_time)
        &&& manager_unchanged(m, m2)
        &&& gaps2 == gaps
    } else {
        &&& gaps2 == sort_desc(gaps)
        &&& match first_filled_buy(m.orders@) {
            None => r matches Err(SellSkip::NoFilledBuy) && manager_unchanged(m, m2),
            Some(i) => match decimal_parse(ticker.data.best_ask_price@) {
                Err(e) => r matches Err(SellSkip::BadAskPrice(msg)) && msg@ == e && manager_unchanged(
                    m,
                    m2,
                ),
                Ok(ask) => {
                    let buy = m.orders@[i];
                    &&& r matches Ok(plan) && plan.buy_client_order_id@ == buy.client_order_id@
                        && Some(plan.price@) == sell_price_model(buy.price@, median_value(gaps), ask)
                        && plan.quantity@ == buy.filled_quantity@ && plan.timestamp == t as i64
                    &&& status_set(m, buy.client_order_id@, OrderStatus::Selling, m2)
                },
            },
        }
    }
}

/// The orders with the first one of this client order id set to `status`.
pub open spec fn mark_status(orders: Seq<Order>, cid: Seq<char>, status: OrderStatus) -> Seq<Order> {
    match first_with_client_id(orders, cid) {
        Some(j) => orders.update(j, Order { status: status, ..orders[j] }),
        None => orders,
    }
}

/// Sets the first order with this client order id to `status`.
pub fn set_order_status(manager: &mut GlobalOrderManager, cid: &str, status: OrderStatus)
    ensures
        status_set(*old(manager), cid@, status, *final(manager)),
        final(manager).orders@ == mark_status(old(manager).orders@, cid@, status),
{
    match find_client_order(&manager.orders, cid) {
        Some(j) => {
            let mut o = manager.orders.remove(j);
            o.status = status;
            manager.orders.insert(j, o);
        },
        None => {},
    }
}

/// The checks before a sell on a book ticker: ten seconds since the last
/// sell; then the gaps are sorted for their median, the first filled buy
/// is taken, priced at its price plus the median gap but not below the
/// ask, and marked as being sold.
pub fn select_sell(manager: &mut GlobalOrderManager, gaps: &mut Vec<Dec>, ticker: &BookTickerStream) -> (r:
    Result<SellPlan, SellSkip>)
    requires
        sell_check_allowed(*old(manager), old(gaps)@, *ticker),
    ensures
        sell_check_post(*old(manager), old(gaps)@, *ticker, r, *final(manager), final(gaps)@),
        r matches Ok(plan) ==> decimal_parse(ticker.data.best_ask_price@) matches Ok(ask) && !dec_lt(
            plan.price@,
            ask,
        ),
        r is Ok ==> old(manager).last_sell_order_time == 0 || ticker.data.event_time - old(
            manager,
        ).last_sell_order_time >= 10000,
{
    let timestamp = ticker.data.event_time;
    if manager.last_sell_order_time != 0 && timestamp - manager.last_sell_order_time
        < ORDER_INTERVAL_MS {
        return Err(SellSkip::TooSoon(ORDER_INTERVAL_MS - (timestamp - manager.last_sell_order_time)));
    }
    let median_gap = calculate_median(gaps);
    let i = match find_filled_buy(&manager.orders) {
        Some(i) => i,
        None => return Err(SellSkip::NoFilledBuy),
    };
    proof {
        lemma_first_filled_buy(manager.orders@);
    }
    let ask_price = match Dec::parse(ticker.data.best_ask_price.as_str()) {
        Ok(p) => p,
        Err(e) => return Err(SellSkip::BadAskPrice(e)),
    };
    let buy_price = manager.orders[i].price;
    let target = match median_gap {
        Some(gap) => match buy_price.checked_add(&gap) {
            Some(t) => t,
            None => {
                proof {
                    assert(false);
                }
                ask_price
            },
        },
        None => ask_price,
    };
    let price = if target.lt(&ask_price) {
        ask_price
    } else {
        target
    };
    let quantity = manager.orders[i].filled_quantity;
    let cid = manager.orders[i].client_order_id.as_str().to_owned();
    set_order_status(manager, cid.as_str(), OrderStatus::Selling);
    Ok(SellPlan { buy_client_order_id: cid, price, quantity, timestamp: timestamp as i64 })
}

/// Whether `select_sell` stays in range, tested as the event loop must
/// before calling it.
pub fn sell_check_fits(manager: &GlobalOrderManager, gaps: &Vec<Dec>, ticker: &BookTickerStream) -> (r: bool)
    ensures
        r == sell_check_allowed(*manager, gaps@, *ticker),
{
    let t = ticker.data.event_time;
    if manager.last_sell_order_time != 0 && t < manager.last_sell_order_time {
        return false;
    }
    if manager.last_sell_order_time != 0 && t - manager.last_sell_order_time < ORDER_INTERVAL_MS {
        return true;
    }
    if !median_fits(gaps) {
        return false;
    }
    let i = match find_filled_buy(&manager.orders) {
        Some(i) => i,
        None => return true,
    };
    proof {
        lemma_first_filled_buy(manager.orders@);
    }
    if Dec::parse(ticker.data.best_ask_price.as_str()).is_err() {
        return true;
    }
    let mut sorted = copy_gaps(gaps);
    match calculate_median(&mut sorted) {
        Some(g) => manager.orders[i].price.checked_add(&g).is_some(),
        None => true,
    }
}

/// `select_sell` where it stays in range; otherwise nothing changes and
/// `None` is returned.
pub fn try_select_sell(manager: &mut GlobalOrderManager, gaps: &mut Vec<Dec>, ticker: &BookTickerStream) -> (r:
    Option<Result<SellPlan, SellSkip>>)
    ensures
        r is Some == sell_check_allowed(*old(manager), old(gaps)@, *ticker),
        r matches Some(x) ==> sell_check_post(
            *old(manager),
            old(gaps)@,
            *ticker,
            x,
            *final(manager),
            final(gaps)@,
        ),
        r is None ==> manager_unchanged(*old(manager), *final(manager)) && final(gaps)@ == old(
            gaps,
        )@,
{
    if sell_check_fits(manager, gaps, ticker) {
        Some(select_sell(manager, gaps, ticker))
    } else {
        None
    }
}

/// The sell a plan places: new, unfilled, at the plan's price and size,
/// nothing reserved, tied to the buy it closes.
pub open spec fn is_new_sell_order(o: Order, symbol: Seq<char>, plan: SellPlan) -> bool {
    &&& o.id@ == sell_request_id_text(plan.timestamp as int)
    &&& o.order_id@ == Seq::<char>::empty()
    &&& o.client_order_id@ == sell_client_id_text(symbol, plan.timestamp as int)
    &&& o.symbol@ == symbol
    &&& o.side == OrderSide::Sell
    &&& o.status == OrderStatus::New
    &&& o.price@ == plan.price@
    &&& o.quantity@ == plan.quantity@
    &&& o.filled_quantity@ == (0int, 1nat)
    &&& o.quote_asset == quote_asset_of(symbol)
    &&& o.create_time == plan.timestamp as u64
    &&& o.update_time == plan.timestamp as u64
    &&& o.deducted_amount@ == (0int, 1nat)
    &&& o.related_buy_order_client_id matches Some(b) && b@ == plan.buy_client_order_id@
    &&& !o.timeout_processed
}

/// The sell order for a plan; its `id` is the request id it is sent under.
pub fn new_sell_order(symbol: &str, plan: &SellPlan) -> (o: Order)
    ensures
        is_new_sell_order(o, symbol@, *plan),
{
    let ts = i64_text(plan.timestamp);
    let request_id = concat("place_order_sell_", ts.as_str());
    let mut client_id = concat(symbol, "_SELL_");
    client_id.append(ts.as_str());
    client_id.append("_sell");
    let zero = match Dec::from_parts(0, 1) {
        Some(d) => d,
        None => Dec::zero(),
    };
    Order {
        id: request_id,
        order_id: String::new(),
        client_order_id: client_id,
        symbol: symbol.to_owned(),
        side: OrderSide::Sell,
        status: OrderStatus::New,
        price: plan.price,
        quantity: plan.quantity,
        filled_quantity: zero,
        quote_asset: quote_asset_for(symbol),
        create_time: plan.timestamp as u64,
        update_time: plan.timestamp as u64,
        deducted_amount: zero,
        related_buy_order_client_id: Some(plan.buy_client_order_id.as_str().to_owned()),
        timeout_processed: false,
    }
}

/// After a sell request went out: the sell joins the book and the sell
/// clock moves to its time.
pub fn on_sell_sent(manager: &mut GlobalOrderManager, sell_order: Order, timestamp: i64)
    ensures
        final(manager).orders@ == old(manager).orders@.push(sell_order),
        final(manager).total_count == old(manager).total_count,
        final(manager).last_buy_order_time == old(manager).last_buy_order_time,
        final(manager).last_sell_order_time == timestamp as u64,
{
    manager.orders.push(sell_order);
    manager.last_sell_order_time = timestamp as u64;
}

/// After a sell request could not be sent: the buy it would close is
/// filled again, ready for the next try.
pub fn on_sell_failed(manager: &mut GlobalOrderManager, plan: &SellPlan)
    ensures
        status_set(*old(manager), plan.buy_client_order_id@, OrderStatus::Filled, *final(manager)),
{
    set_order_status(manager, plan.buy_client_order_id.as_str(), OrderStatus::Filled);
}

/// Which of the bot's requests a reply answers, by its id's prefix.
#[derive(Debug, Clone, Copy, PartialEq, Eq, Structural)]
pub enum ReplyKind {
    PlaceBuy,
    PlaceSell,
    Cancel,
    Other,
}

pub open spec fn reply_kind_of(id: Seq<char>) -> ReplyKind {
    if has_prefix(id, "place_order_buy_"@) {
        ReplyKind::PlaceBuy
    } else if has_prefix(id, "place_order_sell_"@) {
        ReplyKind::PlaceSell
    } else if has_prefix(id, "cancel_order_"@) {
        ReplyKind::Cancel
    } else {
        ReplyKind::Other
    }
}

pub fn reply_kind(id: &str) -> (r: ReplyKind)
    ensures
        r == reply_kind_of(id@),
{
    if starts_with(id, "place_order_buy_") {
        ReplyKind::PlaceBuy
    } else if starts_with(id, "place_order_sell_") {
        ReplyKind::PlaceSell
    } else if starts_with(id, "cancel_order_") {
        ReplyKind::Cancel
    } else {
        ReplyKind::Other
    }
}

/// Kept when its request id is not `id`.
pub open spec fn keeps_id(id: Seq<char>) -> spec_fn(Order) -> bool {
    |o: Order| o.id@ != id
}

/// The first order sent under this request id.
pub open spec fn first_with_id(orders: Seq<Order>, id: Seq<char>) -> Option<int>
    decreases orders.len(),
{
    if orders.len() == 0 {
        None
    } else if first_with_id(orders.drop_last(), id) is Some {
        first_with_id(orders.drop_last(), id)
    } else if orders.last().id@ == id {
        Some(orders.len() - 1)
    } else {
        None
    }
}

proof fn lemma_first_with_id(orders: Seq<Order>, id: Seq<char>)
    ensures
        match first_with_id(orders, id) {
            Some(i) => 0 <= i < orders.len() && orders[i].id@ == id && forall|j: int|
                0 <= j < i ==> orders[j].id@ != id,
            None => forall|j: int| 0 <= j < orders.len() ==> orders[j].id@ != id,
        },
    decreases orders.len(),
{
    if orders.len() > 0 {
        lemma_first_with_id(orders.drop_last(), id);
        assert forall|j: int| 0 <= j < orders.len() - 1 implies orders[j] == orders.drop_last()[j] by {}
    }
}

fn find_order_by_id(orders: &Vec<Order>, id: &str) -> (r: Option<usize>)
    ensures
        match first_with_id(orders@, id@) {
            Some(i) => r matches Some(j) && j as int == i,
            None => r is None,
        },
{
    proof {
        lemma_first_with_id(orders@, id@);
    }
    let mut i: usize = 0;
    while i < orders.len()
        invariant
            i <= orders.len(),
            forall|j: int| 0 <= j < i ==> orders@[j].id@ != id@,
            match first_with_id(orders@, id@) {
                Some(k) => 0 <= k < orders@.len() && orders@[k].id@ == id@ && forall|j: int|
                    0 <= j < k ==> orders@[j].id@ != id@,
                None => forall|j: int| 0 <= j < orders@.len() ==> orders@[j].id@ != id@,
            },
        decreases orders.len() - i,
    {
        if str_eq(orders[i].id.as_str(), id) {
            return Some(i);
        }
        i = i + 1;
    }
    None
}

proof fn lemma_filter_step(s: Seq<Order>, p: spec_fn(Order) -> bool, j: int)
    requires
        0 <= j < s.len(),
    ensures
        s.subrange(0, j + 1).filter(p) == if p(s[j]) {
            s.subrange(0, j).filter(p).push(s[j])
        } else {
            s.subrange(0, j).filter(p)
        },
{
    reveal_with_fuel(Seq::filter, 1);
    assert(s.subrange(0, j + 1).drop_last() =~= s.subrange(0, j));
}

/// Drops the orders sent under request id `id`, keeping the others in
/// order; returns how many were dropped.
fn remove_orders_with_id(orders: &mut Vec<Order>, id: &str) -> (removed: usize)
    ensures
        final(orders)@ == old(orders)@.filter(keeps_id(id@)),
        removed == old(orders)@.len() - final(orders)@.len(),
{
    let ghost p = keeps_id(id@);
    let ghost start = orders@;
    assert(start.len() == orders.len());
    let ghost mut j: int = 0;
    let mut i: usize = 0;
    let mut removed: usize = 0;
    assert(start.subrange(0, 0).filter(p) =~= Seq::<Order>::empty()) by {
        reveal_with_fuel(Seq::filter, 1);
    }
    assert(orders@ =~= start.subrange(0, 0).filter(p) + start.subrange(0, start.len() as int));
    while i < orders.len()
        invariant
            0 <= j <= start.len(),
            start.len() <= usize::MAX,
            i == start.subrange(0, j).filter(p).len(),
            orders@ == start.subrange(0, j).filter(p) + start.subrange(j, start.len() as int),
            removed == j - i,
            p == keeps_id(id@),
        decreases orders.len() - i,
    {
        proof {
            lemma_filter_step(start, p, j);
            assert(orders@[i as int] == start[j]);
        }
        if str_eq(orders[i].id.as_str(), id) {
            orders.remove(i);
            removed = removed + 1;
        } else {
            i = i + 1;
        }
        proof {
            j = j + 1;
            assert(orders@ =~= start.subrange(0, j).filter(p) + start.subrange(j, start.len() as int));
        }
    }
    proof {
        assert(j == start.len());
        assert(start.subrange(0, j) =~= start);
    }
    removed
}

/// Whether a reply can be applied without overflowing: for a refused buy,
/// the dropped orders are counted in the positions and the reserved amount
/// fits back into the balance.
pub open spec fn reply_allowed(m: GlobalOrderManager, b: Balances, id: Seq<char>, status: i32) -> bool {
    reply_kind_of(id) == ReplyKind::PlaceBuy && status != 200 ==> {
        &&& m.orders@.len() - m.orders@.filter(keeps_id(id)).len() <= m.total_count
        &&& match first_with_id(m.orders@, id) {
            Some(i) => m.orders@[i].side == OrderSide::Buy ==> decimal_checked_add(
                available_of(b, m.orders@[i].quote_asset),
                m.orders@[i].deducted_amount@,
            ) is Some,
            None => true,
        }
    }
}

/// The book after a refused sell: the buy it would close is filled again.
pub open spec fn sell_refusal_marked(orders: Seq<Order>, id: Seq<char>) -> Seq<Order> {
    match first_with_id(orders, id) {
        Some(i) => match orders[i].related_buy_order_client_id {
            Some(buy) => mark_status(orders, buy@, OrderStatus::Filled),
            None => orders,
        },
        None => orders,
    }
}

/// What a reply to one of the bot's requests does.  A refused buy gives
/// its reserved amount back (when the first order under that id is a buy),
/// is dropped and closes its position; a refused sell refills the buy it
/// would close and is dropped; anything else changes nothing.
pub open spec fn reply_post(
    m: GlobalOrderManager,
    b: Balances,
    id: Seq<char>,
    status: i32,
    m2: GlobalOrderManager,
    b2: Balances,
) -> bool {
    if status != 200 && reply_kind_of(id) == ReplyKind::PlaceBuy {
        &&& m2.orders@ == m.orders@.filter(keeps_id(id))
        &&& m2.total_count == m.total_count - (m.orders@.len() - m2.orders@.len())
        &&& m2.last_buy_order_time == m.last_buy_order_time
        &&& m2.last_sell_order_time == m.last_sell_order_time
        &&& match first_with_id(m.orders@, id) {
            Some(i) => if m.orders@[i].side == OrderSide::Buy {
                with_available(
                    b,
                    m.orders@[i].quote_asset,
                    decimal_checked_add(
                        available_of(b, m.orders@[i].quote_asset),
                        m.orders@[i].deducted_amount@,
                    ).unwrap(),
                    b2,
                )
            } else {
                same_balances(b, b2)
            },
            None => same_balances(b, b2),
        }
    } else if status != 200 && reply_kind_of(id) == ReplyKind::PlaceSell {
        &&& m2.orders@ == sell_refusal_marked(m.orders@, id).filter(keeps_id(id))
        &&& m2.total_count == m.total_count
        &&& m2.last_buy_order_time == m.last_buy_order_time
        &&& m2.last_sell_order_time == m.last_sell_order_time
        &&& same_balances(b, b2)
    } else {
        manager_unchanged(m, m2) && same_balances(b, b2)
    }
}

/// Applies the reply (its id and status) to a request the bot sent, and
/// says which kind of request it answered.
pub fn on_order_reply(manager: &mut GlobalOrderManager, balances: &mut Balances, id: &str, status: i32) -> (kind:
    ReplyKind)
    requires
        reply_allowed(*old(manager), *old(balances), id@, status),
    ensures
        kind == reply_kind_of(id@),
        reply_post(*old(manager), *old(balances), id@, status, *final(manager), *final(balances)),
{
    let kind = reply_kind(id);
    if status != 200 {
        match kind {
            ReplyKind::PlaceBuy => {
                match find_order_by_id(&manager.orders, id) {
                    Some(i) => {
                        proof {
                            lemma_first_with_id(manager.orders@, id@);
                        }
                        if manager.orders[i].side == OrderSide::Buy {
                            let amount = manager.orders[i].deducted_amount;
                            let asset = manager.orders[i].quote_asset;
                            match asset {
                                QuoteAsset::USDT => {
                                    if let Some(v) = balances.usdt_available.checked_add(&amount) {
                                        balances.usdt_available = v;
                                    }
                                },
                                QuoteAsset::USDC => {
                                    if let Some(v) = balances.usdc_available.checked_add(&amount) {
                                        balances.usdc_available = v;
                                    }
                                },
                            }
                        }
                    },
                    None => {},
                }
                let removed = remove_orders_with_id(&mut manager.orders, id);
                if removed > 0 {
                    manager.total_count = manager.total_count - removed;
                }
            },
            ReplyKind::PlaceSell => {
                let related: Option<String> = match find_order_by_id(&manager.orders, id) {
                    Some(i) => {
                        proof {
                            lemma_first_with_id(manager.orders@, id@);
                        }
                        match &manager.orders[i].related_buy_order_client_id {
                            Some(b) => Some(b.as_str().to_owned()),
                            None => None,
                        }
                    },
                    None => None,
                };
                match related {
                    Some(buy) => set_order_status(manager, buy.as_str(), OrderStatus::Filled),
                    None => {},
                }
                remove_orders_with_id(&mut manager.orders, id);
            },
            _ => {},
        }
    }
    kind
}

fn count_orders_with_id(orders: &Vec<Order>, id: &str) -> (r: usize)
    ensures
        r == orders@.len() - orders@.filter(keeps_id(id@)).len(),
{
    let ghost p = keeps_id(id@);
    let mut i: usize = 0;
    let mut n: usize = 0;
    assert(orders@.subrange(0, 0).filter(p) =~= Seq::<Order>::empty()) by {
        reveal_with_fuel(Seq::filter, 1);
    }
    while i < orders.len()
        invariant
            i <= orders.len(),
            p == keeps_id(id@),
            n == i - orders@.subrange(0, i as int).filter(p).len(),
            n <= i,
        decreases orders.len() - i,
    {
        proof {
            lemma_filter_step(orders@, p, i as int);
        }
        if str_eq(orders[i].id.as_str(), id) {
            n = n + 1;
        }
        i = i + 1;
    }
    assert(orders@.subrange(0, orders.len() as int) =~= orders@);
    n
}

/// Whether `on_order_reply` stays in range, tested as the event loop must
/// before calling it.
pub fn order_reply_fits(manager: &GlobalOrderManager, balances: &Balances, id: &str, status: i32) -> (r: bool)
    ensures
        r == reply_allowed(*manager, *balances, id@, status),
{
    if status == 200 || reply_kind(id) != ReplyKind::PlaceBuy {
        return true;
    }
    if count_orders_with_id(&manager.orders, id) > manager.total_count {
        return false;
    }
    match find_order_by_id(&manager.orders, id) {
        Some(i) => {
            proof {
                lemma_first_with_id(manager.orders@, id@);
            }
            let o = &manager.orders[i];
            if o.side != OrderSide::Buy {
                return true;
            }
            let avail = match o.quote_asset {
                QuoteAsset::USDT => balances.usdt_available,
                QuoteAsset::USDC => balances.usdc_available,
            };
            avail.checked_add(&o.deducted_amount).is_some()
        },
        None => true,
    }
}

/// `on_order_reply` where it stays in range; otherwise nothing changes and
/// `None` is returned.
pub fn try_on_order_reply(manager: &mut GlobalOrderManager, balances: &mut Balances, id: &str, status: i32) -> (r:
    Option<ReplyKind>)
    ensures
        r is Some == reply_allowed(*old(manager), *old(balances), id@, status),
        r matches Some(kind) ==> kind == reply_kind_of(id@) && reply_post(
            *old(manager),
            *old(balances),
            id@,
            status,
            *final(manager),
            *final(balances),
        ),
        r is None ==> manager_unchanged(*old(manager), *final(manager)) && same_balances(
            *old(balances),
            *final(balances),
        ),
{
    if order_reply_fits(manager, balances, id, status) {
        Some(on_order_reply(manager, balances, id, status))
    } else {
        None
    }
}

/// A buy still waiting to be filled.
pub open spec fn is_open_buy(o: Order) -> bool {
    o.side == OrderSide::Buy && o.status == OrderStatus::New
}

/// The clock has not fallen behind any open buy.
pub open spec fn buy_clock_ok(orders: Seq<Order>, now: u64) -> bool {
    forall|i: int| 0 <= i < orders.len() && is_open_buy(#[trigger] orders[i]) ==> now >= orders[i].create_time
}

/// An open buy at least ten seconds old.
pub open spec fn is_expired_buy(o: Order, now: u64) -> bool {
    is_open_buy(o) && now - o.create_time >= 10000
}

pub open spec fn expired_at(now: u64) -> spec_fn(Order) -> bool {
    |o: Order| is_expired_buy(o, now)
}

pub open spec fn cid_and_symbol(o: Order) -> (Seq<char>, Seq<char>) {
    (o.client_order_id@, o.symbol@)
}

pub open spec fn pair_view(p: (String, String)) -> (Seq<char>, Seq<char>) {
    (p.0@, p.1@)
}

/// The client order id and symbol of each expired buy, in book order.
pub open spec fn expired_buys(orders: Seq<Order>, now: u64) -> Seq<(Seq<char>, Seq<char>)> {
    orders.filter(expired_at(now)).map_values(|o: Order| cid_and_symbol(o))
}

/// Whether the clock is not behind any open buy, tested as the timer loop
/// must before calling `expired_buy_orders`.
pub fn buy_clock_fits(manager: &GlobalOrderManager, now: i64) -> (r: bool)
    ensures
        r == buy_clock_ok(manager.orders@, now as u64),
{
    let t = now as u64;
    let mut i: usize = 0;
    while i < manager.orders.len()
        invariant
            i <= manager.orders.len(),
            t == now as u64,
            forall|j: int|
                0 <= j < i && is_open_buy(#[trigger] manager.orders@[j]) ==> t >= manager.orders@[j].create_time,
        decreases manager.orders.len() - i,
    {
        let o = &manager.orders[i];
        if o.side == OrderSide::Buy && o.status == OrderStatus::New && t < o.create_time {
            return false;
        }
        i = i + 1;
    }
    true
}

/// The buys to cancel at `now` (server time): open buys at least ten
/// seconds old, each as (client order id, symbol).
pub fn expired_buy_orders(manager: &GlobalOrderManager, now: i64) -> (r: Vec<(String, String)>)
    requires
        buy_clock_ok(manager.orders@, now as u64),
    ensures
        r@.map_values(|p: (String, String)| pair_view(p)) == expired_buys(manager.orders@, now as u64),
{
    let t = now as u64;
    let ghost p = expired_at(t);
    let ghost orders = manager.orders@;
    let mut out: Vec<(String, String)> = Vec::new();
    let mut i: usize = 0;
    assert(orders.subrange(0, 0).filter(p) =~= Seq::<Order>::empty()) by {
        reveal_with_fuel(Seq::filter, 1);
    }
    while i < manager.orders.len()
        invariant
            i <= manager.orders.len(),
            orders == manager.orders@,
            t == now as u64,
            p == expired_at(t),
            buy_clock_ok(orders, t),
            out@.map_values(|q: (String, String)| pair_view(q)) == orders.subrange(0, i as int).filter(
                p,
            ).map_values(|o: Order| cid_and_symbol(o)),
        decreases manager.orders.len() - i,
    {
        proof {
            lemma_filter_step(orders, p, i as int);
        }
        let o = &manager.orders[i];
        if o.side == OrderSide::Buy && o.status == OrderStatus::New && t - o.create_time
            >= ORDER_INTERVAL_MS {
            let ghost before = out@;
            out.push((o.client_order_id.as_str().to_owned(), o.symbol.as_str().to_owned()));
            proof {
                assert(out@.map_values(|q: (String, String)| pair_view(q)) =~= before.map_values(
                    |q: (String, String)| pair_view(q),
                ).push(cid_and_symbol(orders[i as int])));
                assert(orders.subrange(0, i + 1).filter(p).map_values(|o: Order| cid_and_symbol(o))
                    =~= orders.subrange(0, i as int).filter(p).map_values(
                    |o: Order| cid_and_symbol(o),
                ).push(cid_and_symbol(orders[i as int])));
            }
        }
        i = i + 1;
    }
    assert(orders.subrange(0, orders.len() as int) =~= orders);
    out
}

/// A sell that still counts as a position: not yet timed out and not
/// filled, cancelled, expired or rejected.
pub open spec fn is_open_sell(o: Order) -> bool {
    &&& o.side == OrderSide::Sell
    &&& !o.timeout_processed
    &&& o.status != OrderStatus::Filled
    &&& o.status != OrderStatus::Canceled
    &&& o.status != OrderStatus::Expired
    &&& o.status != OrderStatus::Rejected
}

/// An open sell at least an hour old.
pub open spec fn is_timed_out_sell(o: Order, now: u64) -> bool {
    is_open_sell(o) && now - o.create_time >= 3600000
}

pub open spec fn timed_out_at(now: u64) -> spec_fn(Order) -> bool {
    |o: Order| is_timed_out_sell(o, now)
}

/// Whether the sell timeout check stays in range: the clock is not behind
/// any open sell, and the timed-out sells are counted in the positions.
pub open spec fn timeout_allowed(m: GlobalOrderManager, now: u64) -> bool {
    &&& forall|i: int|
        0 <= i < m.orders@.len() && is_open_sell(#[trigger] m.orders@[i]) ==> now >= m.orders@[i].create_time
    &&& m.orders@.filter(timed_out_at(now)).len() <= m.total_count
}

/// The order as the timeout check leaves it.
pub open spec fn after_timeout(o: Order, now: u64) -> Order {
    if is_timed_out_sell(o, now) {
        Order { timeout_processed: true, ..o }
    } else {
        o
    }
}

/// Whether `mark_timed_out_sells` stays in range, tested as the timer loop
/// must before calling it.
pub fn timeout_fits(manager: &GlobalOrderManager, now: i64) -> (r: bool)
    ensures
        r == timeout_allowed(*manager, now as u64),
{
    let t = now as u64;
    let ghost p = timed_out_at(t);
    let ghost orders = manager.orders@;
    let mut i: usize = 0;
    let mut n: usize = 0;
    assert(orders.subrange(0, 0).filter(p) =~= Seq::<Order>::empty()) by {
        reveal_with_fuel(Seq::filter, 1);
    }
    while i < manager.orders.len()
        invariant
            i <= manager.orders.len(),
            orders == manager.orders@,
            t == now as u64,
            p == timed_out_at(t),
            n == orders.subrange(0, i as int).filter(p).len(),
            n <= i,
            forall|j: int|
                0 <= j < i && is_open_sell(#[trigger] orders[j]) ==> t >= orders[j].create_time,
        decreases manager.orders.len() - i,
    {
        proof {
            lemma_filter_step(orders, p, i as int);
        }
        let o = &manager.orders[i];
        let open = o.side == OrderSide::Sell && !o.timeout_processed && o.status
            != OrderStatus::Filled && o.status != OrderStatus::Canceled && o.status
            != OrderStatus::Expired && o.status != OrderStatus::Rejected;
        if open {
            if t < o.create_time {
                return false;
            }
            if t - o.create_time >= SELL_TIMEOUT_MS {
                n = n + 1;
            }
        }
        i = i + 1;
    }
    assert(orders.subrange(0, orders.len() as int) =~= orders);
    n <= manager.total_count
}

/// The hourly sell timeout at `now` (server time): every open sell at least
/// an hour old is marked as timed out and stops counting as a position;
/// returns the client order ids marked, in book order.
pub fn mark_timed_out_sells(manager: &mut GlobalOrderManager, now: i64) -> (marked: Vec<String>)
    requires
        timeout_allowed(*old(manager), now as u64),
    ensures
        final(manager).orders@ == old(manager).orders@.map_values(
            |o: Order| after_timeout(o, now as u64),
        ),
        final(manager).total_count == old(manager).total_count - old(manager).orders@.filter(
            timed_out_at(now as u64),
        ).len(),
        final(manager).last_buy_order_time == old(manager).last_buy_order_time,
        final(manager).last_sell_order_time == old(manager).last_sell_order_time,
        marked@.map_values(|c: String| c@) == old(manager).orders@.filter(
            timed_out_at(now as u64),
        ).map_values(|o: Order| o.client_order_id@),
{
    let t = now as u64;
    let ghost p = timed_out_at(t);
    let ghost orders = manager.orders@;
    let mut marked: Vec<String> = Vec::new();
    let mut i: usize = 0;
    assert(orders.subrange(0, 0).filter(p) =~= Seq::<Order>::empty()) by {
        reveal_with_fuel(Seq::filter, 1);
    }
    while i < manager.orders.len()
        invariant
            i <= manager.orders.len(),
            manager.orders@.len() == orders.len(),
            t == now as u64,
            p == timed_out_at(t),
            timeout_allowed(*old(manager), t),
            orders == old(manager).orders@,
            manager.total_count == old(manager).total_count,
            manager.last_buy_order_time == old(manager).last_buy_order_time,
            manager.last_sell_order_time == old(manager).last_sell_order_time,
            forall|j: int| 0 <= j < i ==> manager.orders@[j] == after_timeout(orders[j], t),
            forall|j: int| i <= j < orders.len() ==> manager.orders@[j] == orders[j],
            marked@.map_values(|c: String| c@) == orders.subrange(0, i as int).filter(p).map_values(
                |o: Order| o.client_order_id@,
            ),
            marked@.len() <= i,
        decreases manager.orders.len() - i,
    {
        proof {
            lemma_filter_step(orders, p, i as int);
        }
        let o = &manager.orders[i];
        let open = o.side == OrderSide::Sell && !o.timeout_processed && o.status
            != OrderStatus::Filled && o.status != OrderStatus::Canceled && o.status
            != OrderStatus::Expired && o.status != OrderStatus::Rejected;
        if open && t - o.create_time >= SELL_TIMEOUT_MS {
            let ghost before = marked@;
            marked.push(o.client_order_id.as_str().to_owned());
            let mut taken = manager.orders.remove(i);
            taken.timeout_processed = true;
            manager.orders.insert(i, taken);
            proof {
                assert(marked@.map_values(|c: String| c@) =~= before.map_values(|c: String| c@).push(
                    orders[i as int].client_order_id@,
                ));
                assert(orders.subrange(0, i + 1).filter(p).map_values(|o: Order| o.client_order_id@)
                    =~= orders.subrange(0, i as int).filter(p).map_values(
                    |o: Order| o.client_order_id@,
                ).push(orders[i as int].client_order_id@));
            }
        }
        i = i + 1;
    }
    proof {
        assert(orders.subrange(0, orders.len() as int) =~= orders);
        assert(manager.orders@ =~= orders.map_values(|o: Order| after_timeout(o, t)));
    }
    let n = marked.len();
    manager.total_count = manager.total_count - n;
    marked
}

/// The sell price is never below the ask, and where there is a median gap
/// never below the buy price raised by it; without gaps it is the ask.
pub proof fn law_sell_price_floor(buy_price: DecModel, median: Option<DecModel>, ask: DecModel)
    ensures
        sell_price_model(buy_price, median, ask) matches Some(p) ==> {
            &&& !dec_lt(p, ask)
            &&& match median {
                Some(g) => decimal_checked_add(buy_price, g) matches Some(t) && !dec_lt(p, t),
                None => p == ask,
            }
        },
{
}

/// Filtering keeps a sequence whose elements all pass.
proof fn lemma_filter_all_kept(s: Seq<Order>, p: spec_fn(Order) -> bool)
    requires
        forall|j: int| 0 <= j < s.len() ==> p(#[trigger] s[j]),
    ensures
        s.filter(p) == s,
    decreases s.len(),
{
    reveal_with_fuel(Seq::filter, 1);
    if s.len() > 0 {
        lemma_filter_all_kept(s.drop_last(), p);
        assert(s.drop_last().push(s.last()) =~= s);
    }
}

/// Filtering drops an element that fails at the end.
proof fn lemma_filter_push_dropped(s: Seq<Order>, x: Order, p: spec_fn(Order) -> bool)
    requires
        !p(x),
    ensures
        s.push(x).filter(p) == s.filter(p),
{
    reveal_with_fuel(Seq::filter, 1);
    assert(s.push(x).drop_last() =~= s);
}

proof fn lemma_prefix_of_concat(a: Seq<char>, b: Seq<char>)
    ensures
        has_prefix(a + b, a),
{
    assert((a + b).subrange(0, a.len() as int) =~= a);
}

/// A buy the exchange refuses is undone: once recorded and then refused,
/// the book and the position count are as before the buy was recorded,
/// and the amount it reserved goes back to its quote balance.
pub proof fn law_refused_buy_undone(
    m0: GlobalOrderManager,
    m1: GlobalOrderManager,
    m2: GlobalOrderManager,
    b1: Balances,
    b2: Balances,
    symbol: Seq<char>,
    plan: BuyPlan,
    qty: DecModel,
    status: i32,
)
    requires
        m1.orders@ == m0.orders@.push(m1.orders@.last()),
        is_new_buy_order(m1.orders@.last(), symbol, plan, qty),
        m1.total_count == m0.total_count + 1,
        forall|j: int|
            0 <= j < m0.orders@.len() ==> (#[trigger] m0.orders@[j]).id@ != buy_request_id_text(
                plan.timestamp as int,
            ),
        status != 200,
        reply_allowed(m1, b1, buy_request_id_text(plan.timestamp as int), status),
        reply_post(m1, b1, buy_request_id_text(plan.timestamp as int), status, m2, b2),
    ensures
        m2.orders@ == m0.orders@,
        m2.total_count == m0.total_count,
        with_available(
            b1,
            plan.quote_asset,
            decimal_checked_add(available_of(b1, plan.quote_asset), plan.amount@).unwrap(),
            b2,
        ),
{
    let id = buy_request_id_text(plan.timestamp as int);
    let o = m1.orders@.last();
    lemma_prefix_of_concat("place_order_buy_"@, int_text(plan.timestamp as int));
    assert(reply_kind_of(id) == ReplyKind::PlaceBuy);
    lemma_filter_all_kept(m0.orders@, keeps_id(id));
    lemma_filter_push_dropped(m0.orders@, o, keeps_id(id));
    lemma_first_with_id(m1.orders@, id);
    let n = m0.orders@.len() as int;
    assert(m1.orders@[n] == o);
    assert(first_with_id(m1.orders@, id) == Some(n));
}

/// A sent buy that is cancelled, expires or is rejected is undone: once
/// recorded, sent and then reported so, the book and the position count
/// are as before it was recorded, and its quote balance is what sending it
/// left, with the reserved amount added back.
pub proof fn law_cancelled_buy_undone(
    m0: GlobalOrderManager,
    m1: GlobalOrderManager,
    m2: GlobalOrderManager,
    m3: GlobalOrderManager,
    b1: Balances,
    b2: Balances,
    b3: Balances,
    symbol: Seq<char>,
    plan: BuyPlan,
    qty: DecModel,
    update: OrderTradeUpdateStream,
)
    requires
        m1.orders@ == m0.orders@.push(m1.orders@.last()),
        is_new_buy_order(m1.orders@.last(), symbol, plan, qty),
        m1.total_count == m0.total_count + 1,
        forall|j: int|
            0 <= j < m0.orders@.len() ==> (#[trigger] m0.orders@[j]).client_order_id@
                != buy_client_id_text(symbol, plan.timestamp as int),
        buy_sent_allowed(b1, plan),
        m2.orders@ == m1.orders@,
        m2.total_count == m1.total_count,
        with_available(
            b1,
            plan.quote_asset,
            decimal_checked_sub(available_of(b1, plan.quote_asset), plan.amount@).unwrap(),
            b2,
        ),
        update.data.order.client_order_id@ == buy_client_id_text(symbol, plan.timestamp as int),
        is_cancel_status(update.data.order.order_status@),
        !is_sell_side(update.data.order.side@),
        order_trade_update_allowed(m2, b2, update),
        order_trade_update_post(m2, b2, update, m3, b3),
    ensures
        m3.orders@ == m0.orders@,
        m3.total_count == m0.total_count,
        with_available(
            b1,
            plan.quote_asset,
            decimal_checked_add(
                decimal_checked_sub(available_of(b1, plan.quote_asset), plan.amount@).unwrap(),
                plan.amount@,
            ).unwrap(),
            b3,
        ),
{
    let cid = buy_client_id_text(symbol, plan.timestamp as int);
    let o = m1.orders@.last();
    lemma_filter_all_kept(m0.orders@, keeps(cid, None));
    lemma_filter_push_dropped(m0.orders@, o, keeps(cid, None));
    lemma_first_with_client_id(m2.orders@, cid);
    let n = m0.orders@.len() as int;
    assert(m2.orders@[n] == o);
    assert(first_with_client_id(m2.orders@, cid) == Some(n));
}

/// The client order ids of a book stay put when each order is mapped to
/// one with the same client order id.
proof fn lemma_first_with_client_id_same_ids(a: Seq<Order>, b: Seq<Order>, cid: Seq<char>)
    requires
        a.len() == b.len(),
        forall|j: int| 0 <= j < a.len() ==> (#[trigger] a[j]).client_order_id@ == b[j].client_order_id@,
    ensures
        first_with_client_id(a, cid) == first_with_client_id(b, cid),
{
    lemma_first_with_client_id(a, cid);
    lemma_first_with_client_id(b, cid);
    match first_with_client_id(a, cid) {
        Some(i) => {
            assert(b[i].client_order_id@ == cid);
            match first_with_client_id(b, cid) {
                Some(k) => {
                    if k < i {
                        assert(a[k].client_order_id@ == cid);
                    }
                    if i < k {
                        assert(b[i].client_order_id@ != cid);
                    }
                },
                None => {
                    assert(b[i].client_order_id@ != cid);
                },
            }
        },
        None => {
            match first_with_client_id(b, cid) {
                Some(k) => {
                    assert(a[k].client_order_id@ == cid);
                },
                None => {},
            }
        },
    }
}

/// A sell closes its position at most once: once the hourly timeout has
/// marked it, a later fill drops it and its buy but leaves the position
/// count as it is.
pub proof fn law_timed_out_sell_closed_once(
    m0: GlobalOrderManager,
    m1: GlobalOrderManager,
    m2: GlobalOrderManager,
    b1: Balances,
    b2: Balances,
    now: u64,
    i: int,
    update: OrderTradeUpdateStream,
)
    requires
        0 <= i < m0.orders@.len(),
        is_timed_out_sell(m0.orders@[i], now),
        m1.orders@ == m0.orders@.map_values(|o: Order| after_timeout(o, now)),
        first_with_client_id(m0.orders@, update.data.order.client_order_id@) == Some(i),
        is_sell_side(update.data.order.side@),
        is_filled_status(update.data.order.order_status@),
        order_trade_update_post(m1, b1, update, m2, b2),
    ensures
        m2.total_count == m1.total_count,
{
    let cid = update.data.order.client_order_id@;
    assert forall|j: int| 0 <= j < m0.orders@.len() implies (#[trigger] m0.orders@[j]).client_order_id@
        == m1.orders@[j].client_order_id@ by {
        assert(m1.orders@[j] == after_timeout(m0.orders@[j], now));
    }
    lemma_first_with_client_id_same_ids(m0.orders@, m1.orders@, cid);
    assert(m1.orders@[i] == after_timeout(m0.orders@[i], now));
    assert(m1.orders@[i].timeout_processed);
}

/// Across two ticks of the timeout check, the sells marked at the first
/// tick and those marked at the second are together no more than the open
/// sells at the start: a marked sell is never timed out again.
proof fn lemma_marks_once_count(s: Seq<Order>, now1: u64, now2: u64)
    ensures
        s.map_values(|o: Order| after_timeout(o, now1)).filter(timed_out_at(now2)).len()
            + s.filter(timed_out_at(now1)).len() <= s.filter(|o: Order| is_open_sell(o)).len(),
    decreases s.len(),
{
    reveal_with_fuel(Seq::filter, 1);
    if s.len() > 0 {
        let t = s.drop_last();
        lemma_marks_once_count(t, now1, now2);
        let f = |o: Order| after_timeout(o, now1);
        assert(s.map_values(f).drop_last() =~= t.map_values(f));
        assert(s.map_values(f).last() == after_timeout(s.last(), now1));
    }
}

/// The hourly timeout closes a sell's position at most once: a sell that
/// one tick marks is not timed out at any later tick, and two ticks in turn
/// lower the position count by no more than the number of sells open at
/// the start.
pub proof fn law_timeout_marks_once(
    m0: GlobalOrderManager,
    m1: GlobalOrderManager,
    m2: GlobalOrderManager,
    now1: u64,
    now2: u64,
)
    requires
        m1.orders@ == m0.orders@.map_values(|o: Order| after_timeout(o, now1)),
        m1.total_count == m0.total_count - m0.orders@.filter(timed_out_at(now1)).len(),
        m2.total_count == m1.total_count - m1.orders@.filter(timed_out_at(now2)).len(),
    ensures
        forall|i: int|
            0 <= i < m0.orders@.len() && is_timed_out_sell(#[trigger] m0.orders@[i], now1)
                ==> !is_timed_out_sell(m1.orders@[i], now2),
        m0.total_count - m2.total_count <= m0.orders@.filter(|o: Order| is_open_sell(o)).len(),
{
    assert forall|i: int|
        0 <= i < m0.orders@.len() && is_timed_out_sell(#[trigger] m0.orders@[i], now1)
            implies !is_timed_out_sell(m1.orders@[i], now2) by {
        assert(m1.orders@[i] == after_timeout(m0.orders@[i], now1));
    }
    lemma_marks_once_count(m0.orders@, now1, now2);
}

/// A status the exchange has closed the order with.
pub open spec fn is_closed_status(s: OrderStatus) -> bool {
    s == OrderStatus::Filled || s == OrderStatus::Canceled || s == OrderStatus::Expired || s
        == OrderStatus::Rejected
}

/// No order passes a test that none of its elements passes.
proof fn lemma_filter_none(s: Seq<Order>, p: spec_fn(Order) -> bool)
    requires
        forall|j: int| 0 <= j < s.len() ==> !p(#[trigger] s[j]),
    ensures
        s.filter(p).len() == 0,
    decreases s.len(),
{
    reveal_with_fuel(Seq::filter, 1);
    if s.len() > 0 {
        assert(!p(s[s.len() - 1]));
        lemma_filter_none(s.drop_last(), p);
    }
}

/// The hourly timeout marks exactly the sells that are still open: a sell
/// that is filled, cancelled, expired or rejected is never marked, while an
/// unmarked sell in any other status is marked once it is an hour old.
pub proof fn law_closed_sells_never_time_out(o: Order, now: u64)
    ensures
        is_closed_status(o.status) ==> !is_timed_out_sell(o, now) && after_timeout(o, now) == o,
        o.side == OrderSide::Sell && !o.timeout_processed && !is_closed_status(o.status) && now
            >= o.create_time + 3600000 ==> is_timed_out_sell(o, now) && after_timeout(
            o,
            now,
        ).timeout_processed,
{
}

/// The timeout check leaves every closed order as it is, and where every
/// sell in the book is closed it marks nothing, so the position count
/// stays.
pub proof fn law_timeout_leaves_closed_sells(m0: GlobalOrderManager, m1: GlobalOrderManager, now: u64)
    requires
        m1.orders@ == m0.orders@.map_values(|o: Order| after_timeout(o, now)),
    ensures
        forall|i: int|
            0 <= i < m0.orders@.len() && is_closed_status((#[trigger] m0.orders@[i]).status)
                ==> m1.orders@[i] == m0.orders@[i],
        (forall|i: int|
            0 <= i < m0.orders@.len() && (#[trigger] m0.orders@[i]).side == OrderSide::Sell
                ==> is_closed_status(m0.orders@[i].status)) ==> m0.orders@.filter(
            timed_out_at(now),
        ).len() == 0,
{
    assert forall|i: int|
        0 <= i < m0.orders@.len() && is_closed_status((#[trigger] m0.orders@[i]).status)
            implies m1.orders@[i] == m0.orders@[i] by {
        assert(m1.orders@[i] == after_timeout(m0.orders@[i], now));
    }
    if forall|i: int|
        0 <= i < m0.orders@.len() && (#[trigger] m0.orders@[i]).side == OrderSide::Sell
            ==> is_closed_status(m0.orders@[i].status) {
        assert forall|j: int| 0 <= j < m0.orders@.len() implies !(timed_out_at(now))(
            #[trigger] m0.orders@[j],
        ) by {}
        lemma_filter_none(m0.orders@, timed_out_at(now));
    }
}

/// Filtering by two tests that agree on every element gives the same.
proof fn lemma_filter_agree(s: Seq<Order>, p: spec_fn(Order) -> bool, q: spec_fn(Order) -> bool)
    requires
        forall|j: int| 0 <= j < s.len() ==> p(#[trigger] s[j]) == q(s[j]),
    ensures
        s.filter(p) == s.filter(q),
    decreases s.len(),
{
    reveal_with_fuel(Seq::filter, 1);
    if s.len() > 0 {
        lemma_filter_agree(s.drop_last(), p, q);
        assert(s.drop_last().push(s.last()) =~= s);
        assert(p(s.last()) == q(s[s.len() - 1]));
    }
}

/// A filled sell closes the position its buy opened: once the sell a plan
/// places is in the book under a fresh client order id, its fill drops it
/// and the buy it closes, and the position count goes down by one.
pub proof fn law_filled_sell_closes_position(
    m0: GlobalOrderManager,
    m1: GlobalOrderManager,
    m2: GlobalOrderManager,
    b1: Balances,
    b2: Balances,
    symbol: Seq<char>,
    plan: SellPlan,
    sell: Order,
    update: OrderTradeUpdateStream,
)
    requires
        is_new_sell_order(sell, symbol, plan),
        forall|j: int|
            0 <= j < m0.orders@.len() ==> (#[trigger] m0.orders@[j]).client_order_id@
                != sell.client_order_id@,
        m1.orders@ == m0.orders@.push(sell),
        m1.total_count == m0.total_count,
        update.data.order.client_order_id@ == sell.client_order_id@,
        is_sell_side(update.data.order.side@),
        is_filled_status(update.data.order.order_status@),
        order_trade_update_allowed(m1, b1, update),
        order_trade_update_post(m1, b1, update, m2, b2),
    ensures
        m2.orders@ == m0.orders@.filter(keeps(plan.buy_client_order_id@, None)),
        m2.total_count == m0.total_count - 1,
        same_balances(b1, b2),
{
    let cid = sell.client_order_id@;
    let buy = plan.buy_client_order_id@;
    let n = m0.orders@.len() as int;
    lemma_first_with_client_id(m1.orders@, cid);
    assert(m1.orders@[n] == sell);
    assert(first_with_client_id(m1.orders@, cid) == Some(n));
    let p = keeps(cid, Some(buy));
    lemma_filter_push_dropped(m0.orders@, sell, p);
    lemma_filter_agree(m0.orders@, p, keeps(buy, None));
    reveal_with_fuel(Seq::filter, 1);
    assert(m1.orders@.drop_last() =~= m0.orders@);
    lemma_filter_len_le(m0.orders@, p);
}

proof fn lemma_filter_len_le(s: Seq<Order>, p: spec_fn(Order) -> bool)
    ensures
        s.filter(p).len() <= s.len(),
    decreases s.len(),
{
    reveal_with_fuel(Seq::filter, 1);
    if s.len() > 0 {
        lemma_filter_len_le(s.drop_last(), p);
    }
}

} // verus!
