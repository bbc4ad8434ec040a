use binance_bot::bot::{
    apply_account_balance_reply, apply_account_update, handle_order_trade_update, handle_trade_lite,
    try_handle_order_trade_update, Balances, GlobalOrderManager, Order, OrderSide, OrderStatus,
    QuoteAsset,
};
use binance_bot::decimal::Dec;
use binance_bot::market::{calculate_median, record_trade_price, try_calculate_median, try_record_trade_price};
use binance_bot::trading::{
    buy_clock_fits, buy_quantity, check_buy, expired_buy_orders, mark_timed_out_sells, new_sell_order,
    on_buy_sent, on_order_reply, on_sell_failed, on_sell_sent, quote_asset_for, record_buy_order,
    reply_kind, select_sell, sell_check_fits, timeout_fits, try_on_order_reply, try_select_sell,
    BuySkip, ReplyKind, SellSkip,
};
use binance_bot::utils::{Filter, Symbol};
use binance_bot::ws_api::{
    AccountBalance, AccountBalanceResponse, AccountInfo, AccountUpdateData, AccountUpdateStream,
    BalanceItem, BookTickerData, BookTickerStream, Order as StreamOrder, OrderTradeUpdateData,
    OrderTradeUpdateStream, TradeLiteData, TradeLiteStream,
};

fn dec(text: &str) -> Dec {
    Dec::parse(text).unwrap()
}

fn text(d: &Dec) -> String {
    d.to_text()
}

fn ticker(bid: &str, ask: &str, event_time: u64) -> BookTickerStream {
    BookTickerStream {
        stream: "ethusdc@bookTicker".to_string(),
        data: BookTickerData {
            event_type: "bookTicker".to_string(),
            update_id: 1,
            symbol: "ETHUSDC".to_string(),
            best_bid_price: bid.to_string(),
            best_bid_qty: "1.0".to_string(),
            best_ask_price: ask.to_string(),
            best_ask_qty: "1.0".to_string(),
            transaction_time: event_time,
            event_time,
        },
    }
}

fn order(id: &str, cid: &str, side: OrderSide, status: OrderStatus, price: &str, create_time: u64) -> Order {
    Order {
        id: id.to_string(),
        order_id: String::new(),
        client_order_id: cid.to_string(),
        symbol: "ETHUSDC".to_string(),
        side,
        status,
        price: dec(price),
        quantity: dec("0.050"),
        filled_quantity: dec("0.0"),
        quote_asset: QuoteAsset::USDC,
        create_time,
        update_time: create_time,
        deducted_amount: dec("100"),
        related_buy_order_client_id: None,
        timeout_processed: false,
    }
}

fn stream_order(cid: &str, side: &str, status: &str, filled: &str) -> OrderTradeUpdateStream {
    OrderTradeUpdateStream {
        stream: "listenkey".to_string(),
        data: OrderTradeUpdateData {
            event_type: "ORDER_TRADE_UPDATE".to_string(),
            transaction_time: 5000,
            event_time: 5001,
            order: StreamOrder {
                symbol: "ETHUSDC".to_string(),
                client_order_id: cid.to_string(),
                side: side.to_string(),
                order_type: "LIMIT".to_string(),
                time_in_force: "GTX".to_string(),
                quantity: "0.050".to_string(),
                price: "2000".to_string(),
                avg_price: "0".to_string(),
                stop_price: "0".to_string(),
                execution_type: "TRADE".to_string(),
                order_status: status.to_string(),
                order_id: 8389765,
                last_filled_qty: "0".to_string(),
                filled_accumulated_qty: filled.to_string(),
                last_filled_price: "0".to_string(),
                commission: "0".to_string(),
                commission_asset: None,
                transaction_time: 5000,
                trade_id: 0,
                bids_notional: "0".to_string(),
                asks_notional: "0".to_string(),
                is_maker: true,
                is_reduce_only: false,
                working_type: "CONTRACT_PRICE".to_string(),
                original_order_type: "LIMIT".to_string(),
                position_side: "BOTH".to_string(),
                close_all: false,
                realized_profit: "0".to_string(),
                price_protect: false,
                ignore1: 0,
                ignore2: 0,
                self_trade_prevention_mode: "NONE".to_string(),
                price_match: "NONE".to_string(),
                gtd_order_auto_cancel_time: 0,
                good_till_date: "0".to_string(),
            },
        },
    }
}

fn trade_lite(cid: &str, side: &str) -> TradeLiteStream {
    TradeLiteStream {
        stream: "listenkey".to_string(),
        data: TradeLiteData {
            event_type: "TRADE_LITE".to_string(),
            event_time: 7001,
            transaction_time: 7000,
            symbol: "ETHUSDC".to_string(),
            quantity: "0.050".to_string(),
            price: "2000".to_string(),
            is_maker: true,
            client_order_id: cid.to_string(),
            side: side.to_string(),
            last_filled_price: "2000".to_string(),
            last_filled_qty: "0.050".to_string(),
            trade_id: 3,
            order_id: 77,
        },
    }
}

fn eth_symbol() -> Symbol {
    let f = |kind: &str| Filter {
        filter_type: kind.to_string(),
        max_price: None,
        min_price: None,
        tick_size: None,
        max_qty: None,
        min_qty: None,
        step_size: None,
        limit: None,
        notional: None,
        multiplier_up: None,
        multiplier_down: None,
        multiplier_decimal: None,
    };
    let mut lot = f("LOT_SIZE");
    lot.step_size = Some("0.001".to_string());
    lot.min_qty = Some("0.001".to_string());
    lot.max_qty = Some("10000".to_string());
    let mut notional = f("MIN_NOTIONAL");
    notional.notional = Some("20".to_string());
    Symbol {
        symbol: "ETHUSDC".to_string(),
        pair: "ETHUSDC".to_string(),
        contract_type: "PERPETUAL".to_string(),
        delivery_date: 0,
        onboard_date: 0,
        status: "TRADING".to_string(),
        maint_margin_percent: "2.5".to_string(),
        required_margin_percent: "5".to_string(),
        base_asset: "ETH".to_string(),
        quote_asset: "USDC".to_string(),
        margin_asset: "USDC".to_string(),
        price_precision: 2,
        quantity_precision: 3,
        base_asset_precision: 8,
        quote_precision: 8,
        underlying_type: "COIN".to_string(),
        underlying_sub_type: vec![],
        settle_plan: 0,
        trigger_protect: "0.05".to_string(),
        filters: vec![lot, notional],
        order_types: vec![],
        time_in_force: vec![],
        liquidation_fee: "0.01".to_string(),
        market_take_bound: "0.05".to_string(),
    }
}

fn funded() -> Balances {
    let mut b = Balances::new();
    b.usdc_available = dec("1000");
    b
}

#[test]
fn fresh_state() {
    let m = GlobalOrderManager::new();
    assert!(m.orders.is_empty());
    assert_eq!(m.total_count, 0);
    assert_eq!(m.last_buy_order_time, 0);
    assert_eq!(m.last_sell_order_time, 0);
    let b = Balances::new();
    assert_eq!(text(&b.usdc_available), "0.0");
    assert_eq!(text(&b.usdt_available), "0.0");
    assert_eq!(text(&b.usdt_to_use), "500");
    assert_eq!(text(&b.usdc_to_use), "500");
}

#[test]
fn quote_asset_by_suffix() {
    assert_eq!(quote_asset_for("ETHUSDC"), QuoteAsset::USDC);
    assert_eq!(quote_asset_for("ETHUSDT"), QuoteAsset::USDT);
    assert_eq!(quote_asset_for("BTCBUSD"), QuoteAsset::USDT);
}

#[test]
fn check_buy_passes_and_plans() {
    let m = GlobalOrderManager::new();
    let mut b = funded();
    let plan = check_buy(&m, &mut b, "ETHUSDC", &ticker("2000.50", "2000.60", 20000)).unwrap();
    assert_eq!(plan.quote_asset, QuoteAsset::USDC);
    assert_eq!(text(&plan.amount), "500");
    assert_eq!(text(&plan.available), "1000");
    assert_eq!(text(&plan.bid_price), "2000.50");
    assert_eq!(plan.timestamp, 20000);
}

#[test]
fn check_buy_skips() {
    let m = GlobalOrderManager::new();
    let mut b = funded();
    assert!(matches!(check_buy(&m, &mut b, "ETHUSDC", &ticker("abc", "1", 1)), Err(BuySkip::BadBidPrice(_))));
    assert!(matches!(check_buy(&m, &mut b, "ETHUSDC", &ticker("3000.01", "3001", 1)), Err(BuySkip::PriceTooHigh)));
    // Only ETHUSDC has the price ceiling; 3000 itself is allowed.
    assert!(check_buy(&m, &mut b, "ETHUSDC", &ticker("3000", "3001", 1)).is_ok());
    let mut bt = Balances::new();
    bt.usdt_available = dec("1000");
    assert!(check_buy(&m, &mut bt, "ETHUSDT", &ticker("3500", "3501", 1)).is_ok());

    let mut open = GlobalOrderManager::new();
    open.total_count = 1;
    assert!(matches!(check_buy(&open, &mut b, "ETHUSDC", &ticker("2000", "2001", 1)), Err(BuySkip::PositionOpen)));

    let mut recent = GlobalOrderManager::new();
    recent.last_buy_order_time = 20000;
    assert!(matches!(
        check_buy(&recent, &mut b, "ETHUSDC", &ticker("2000", "2001", 26500)),
        Err(BuySkip::TooSoon(3500))
    ));
    assert!(check_buy(&recent, &mut b, "ETHUSDC", &ticker("2000", "2001", 30000)).is_ok());

    let mut poor = Balances::new();
    poor.usdc_available = dec("499.99");
    assert!(matches!(
        check_buy(&m, &mut poor, "ETHUSDC", &ticker("2000", "2001", 1)),
        Err(BuySkip::InsufficientBalance)
    ));

    let mut nothing = Balances::new();
    nothing.usdc_to_use = dec("0");
    assert!(matches!(
        check_buy(&m, &mut nothing, "ETHUSDC", &ticker("2000", "2001", 1)),
        Err(BuySkip::NothingToSpend)
    ));
}

#[test]
fn check_buy_sets_a_tenth_when_unset() {
    let m = GlobalOrderManager::new();
    let mut b = funded();
    b.usdc_to_use = dec("0.0");
    let plan = check_buy(&m, &mut b, "ETHUSDC", &ticker("2000", "2001", 1)).unwrap();
    assert_eq!(text(&plan.amount), "100");
    assert_eq!(text(&b.usdc_to_use), "100");
    assert_eq!(text(&b.usdt_to_use), "500");
}

#[test]
fn buy_sizing_and_recording() {
    let mut m = GlobalOrderManager::new();
    let mut b = funded();
    let plan = check_buy(&m, &mut b, "ETHUSDC", &ticker("2000.0", "2000.1", 1700000000123)).unwrap();
    let qty = buy_quantity(&plan, "ETHUSDC", &eth_symbol()).unwrap().unwrap();
    assert_eq!(text(&qty), "0.250");

    let (request_id, client_id) = record_buy_order(&mut m, "ETHUSDC", &plan, qty);
    assert_eq!(request_id, "place_order_buy_1700000000123");
    assert_eq!(client_id, "ETHUSDC_BUY_1700000000123");
    assert_eq!(m.total_count, 1);
    let o = &m.orders[0];
    assert_eq!(o.id, request_id);
    assert_eq!(o.client_order_id, client_id);
    assert_eq!(o.order_id, "");
    assert_eq!(o.side, OrderSide::Buy);
    assert_eq!(o.status, OrderStatus::New);
    assert_eq!(text(&o.price), "2000.0");
    assert_eq!(text(&o.quantity), "0.250");
    assert_eq!(text(&o.filled_quantity), "0.0");
    assert_eq!(text(&o.deducted_amount), "500");
    assert_eq!(o.create_time, 1700000000123);
    assert!(o.related_buy_order_client_id.is_none());

    on_buy_sent(&mut m, &mut b, &plan);
    assert_eq!(m.last_buy_order_time, 1700000000123);
    assert_eq!(text(&b.usdc_available), "500");
    assert_eq!(text(&b.usdt_available), "0.0");
}

#[test]
fn refused_buy_is_undone() {
    let mut m = GlobalOrderManager::new();
    let mut b = funded();
    let plan = check_buy(&m, &mut b, "ETHUSDC", &ticker("2000", "2001", 42)).unwrap();
    let (request_id, _) = record_buy_order(&mut m, "ETHUSDC", &plan, dec("0.25"));
    on_buy_sent(&mut m, &mut b, &plan);
    assert_eq!(text(&b.usdc_available), "500");
    let kind = on_order_reply(&mut m, &mut b, &request_id, 400);
    assert_eq!(kind, ReplyKind::PlaceBuy);
    assert!(m.orders.is_empty());
    assert_eq!(m.total_count, 0);
    assert_eq!(text(&b.usdc_available), "1000");
}

#[test]
fn accepted_replies_change_nothing() {
    let mut m = GlobalOrderManager::new();
    let mut b = funded();
    m.orders.push(order("place_order_buy_1", "c1", OrderSide::Buy, OrderStatus::New, "2000", 1));
    m.total_count = 1;
    assert_eq!(on_order_reply(&mut m, &mut b, "place_order_buy_1", 200), ReplyKind::PlaceBuy);
    assert_eq!(m.orders.len(), 1);
    assert_eq!(on_order_reply(&mut m, &mut b, "cancel_order_9", 400), ReplyKind::Cancel);
    assert_eq!(on_order_reply(&mut m, &mut b, "login", 400), ReplyKind::Other);
    assert_eq!(m.orders.len(), 1);
    assert_eq!(m.total_count, 1);
    assert_eq!(text(&b.usdc_available), "1000");
    assert_eq!(reply_kind("place_order_sell_3"), ReplyKind::PlaceSell);
    assert_eq!(try_on_order_reply(&mut m, &mut b, "place_order_buy_1", 200), Some(ReplyKind::PlaceBuy));
}

#[test]
fn refused_buy_reply_out_of_range_is_refused() {
    let mut m = GlobalOrderManager::new();
    let mut b = funded();
    m.orders.push(order("place_order_buy_1", "c1", OrderSide::Buy, OrderStatus::New, "2000", 1));
    // The order is not counted as a position: dropping it would take the count below zero.
    assert_eq!(try_on_order_reply(&mut m, &mut b, "place_order_buy_1", 400), None);
    assert_eq!(m.orders.len(), 1);
}

#[test]
fn cancelled_buy_is_undone() {
    let mut m = GlobalOrderManager::new();
    let mut b = funded();
    let plan = check_buy(&m, &mut b, "ETHUSDC", &ticker("2000", "2001", 42)).unwrap();
    let (_, client_id) = record_buy_order(&mut m, "ETHUSDC", &plan, dec("0.25"));
    on_buy_sent(&mut m, &mut b, &plan);
    handle_order_trade_update(&mut m, &mut b, &stream_order(&client_id, "BUY", "CANCELED", "0"));
    assert!(m.orders.is_empty());
    assert_eq!(m.total_count, 0);
    assert_eq!(text(&b.usdc_available), "1000");
}

#[test]
fn expired_and_rejected_buys_give_back_too() {
    for status in ["EXPIRED", "REJECTED"] {
        let mut m = GlobalOrderManager::new();
        let mut b = funded();
        m.orders.push(order("r", "c1", OrderSide::Buy, OrderStatus::New, "2000", 1));
        m.total_count = 1;
        handle_order_trade_update(&mut m, &mut b, &stream_order("c1", "BUY", status, "0"));
        assert!(m.orders.is_empty());
        assert_eq!(text(&b.usdc_available), "1100");
    }
}

#[test]
fn order_update_refreshes_the_order() {
    let mut m = GlobalOrderManager::new();
    let mut b = funded();
    m.orders.push(order("r", "c1", OrderSide::Buy, OrderStatus::New, "2000", 1));
    m.total_count = 1;
    handle_order_trade_update(&mut m, &mut b, &stream_order("c1", "BUY", "PARTIALLY_FILLED", "0.020"));
    let o = &m.orders[0];
    assert_eq!(o.status, OrderStatus::PartiallyFilled);
    assert_eq!(o.order_id, "8389765");
    assert_eq!(text(&o.filled_quantity), "0.020");
    assert_eq!(o.update_time, 5000);
    handle_order_trade_update(&mut m, &mut b, &stream_order("c1", "BUY", "FILLED", "oops"));
    assert_eq!(m.orders[0].status, OrderStatus::Filled);
    assert_eq!(text(&m.orders[0].filled_quantity), "0.020");
    // An unknown status keeps the tracked one; an unknown order changes nothing.
    handle_order_trade_update(&mut m, &mut b, &stream_order("c1", "BUY", "NEW_ADL", "0.050"));
    assert_eq!(m.orders[0].status, OrderStatus::Filled);
    handle_order_trade_update(&mut m, &mut b, &stream_order("other", "BUY", "NEW", "1"));
    assert_eq!(m.orders.len(), 1);
    assert_eq!(m.total_count, 1);
}

fn filled_position() -> (GlobalOrderManager, Balances) {
    let mut m = GlobalOrderManager::new();
    let mut buy = order("place_order_buy_1", "ETHUSDC_BUY_1", OrderSide::Buy, OrderStatus::Filled, "2000", 1);
    buy.filled_quantity = dec("0.050");
    m.orders.push(buy);
    m.total_count = 1;
    (m, funded())
}

#[test]
fn sell_selection_and_placement() {
    let (mut m, _) = filled_position();
    let mut gaps = vec![dec("1.5"), dec("-0.5"), dec("2.5")];
    let plan = select_sell(&mut m, &mut gaps, &ticker("2000.9", "2001.0", 60000)).unwrap();
    // The gaps are sorted, largest first; the median gap is 1.5.
    assert_eq!(gaps.iter().map(text).collect::<Vec<_>>(), vec!["2.5", "1.5", "-0.5"]);
    assert_eq!(text(&plan.price), "2001.5");
    assert_eq!(text(&plan.quantity), "0.050");
    assert_eq!(plan.buy_client_order_id, "ETHUSDC_BUY_1");
    assert_eq!(plan.timestamp, 60000);
    assert_eq!(m.orders[0].status, OrderStatus::Selling);

    let sell = new_sell_order("ETHUSDC", &plan);
    assert_eq!(sell.id, "place_order_sell_60000");
    assert_eq!(sell.client_order_id, "ETHUSDC_SELL_60000_sell");
    assert_eq!(sell.side, OrderSide::Sell);
    assert_eq!(sell.status, OrderStatus::New);
    assert_eq!(sell.quote_asset, QuoteAsset::USDC);
    assert_eq!(text(&sell.price), "2001.5");
    assert_eq!(text(&sell.quantity), "0.050");
    assert_eq!(text(&sell.deducted_amount), "0.0");
    assert_eq!(sell.related_buy_order_client_id.as_deref(), Some("ETHUSDC_BUY_1"));
    on_sell_sent(&mut m, sell, plan.timestamp);
    assert_eq!(m.orders.len(), 2);
    assert_eq!(m.last_sell_order_time, 60000);
    assert_eq!(m.total_count, 1);

    // A second sell is throttled for ten seconds.
    let r = select_sell(&mut m, &mut gaps, &ticker("2000", "2001", 65000));
    assert!(matches!(r, Err(SellSkip::TooSoon(5000))));
}

#[test]
fn sell_price_is_never_below_the_ask() {
    let (mut m, _) = filled_position();
    let mut gaps = vec![dec("0.5")];
    let plan = select_sell(&mut m, &mut gaps, &ticker("2009", "2010.25", 1)).unwrap();
    assert_eq!(text(&plan.price), "2010.25");
    // Without gaps the ask is the price.
    let (mut m, _) = filled_position();
    let mut none: Vec<Dec> = vec![];
    let plan = select_sell(&mut m, &mut none, &ticker("1999", "1999.5", 1)).unwrap();
    assert_eq!(text(&plan.price), "1999.5");
}

#[test]
fn sell_skips() {
    let mut m = GlobalOrderManager::new();
    m.orders.push(order("b", "c", OrderSide::Buy, OrderStatus::New, "2000", 1));
    let mut gaps = vec![dec("1")];
    assert!(matches!(select_sell(&mut m, &mut gaps, &ticker("1", "2", 1)), Err(SellSkip::NoFilledBuy)));
    let (mut m, _) = filled_position();
    assert!(matches!(select_sell(&mut m, &mut gaps, &ticker("1", "x", 1)), Err(SellSkip::BadAskPrice(_))));
    assert_eq!(m.orders[0].status, OrderStatus::Filled);
    assert!(sell_check_fits(&m, &gaps, &ticker("1", "2", 1)));
    assert!(try_select_sell(&mut m, &mut gaps, &ticker("1", "2", 1)).unwrap().is_ok());
}

#[test]
fn failed_sell_refills_the_buy() {
    let (mut m, _) = filled_position();
    let mut gaps: Vec<Dec> = vec![];
    let plan = select_sell(&mut m, &mut gaps, &ticker("2000", "2001", 1)).unwrap();
    assert_eq!(m.orders[0].status, OrderStatus::Selling);
    on_sell_failed(&mut m, &plan);
    assert_eq!(m.orders[0].status, OrderStatus::Filled);
}

#[test]
fn refused_sell_refills_the_buy_and_is_dropped() {
    let (mut m, mut b) = filled_position();
    let mut gaps: Vec<Dec> = vec![];
    let plan = select_sell(&mut m, &mut gaps, &ticker("2000", "2001", 9)).unwrap();
    on_sell_sent(&mut m, new_sell_order("ETHUSDC", &plan), plan.timestamp);
    assert_eq!(on_order_reply(&mut m, &mut b, "place_order_sell_9", 400), ReplyKind::PlaceSell);
    assert_eq!(m.orders.len(), 1);
    assert_eq!(m.orders[0].status, OrderStatus::Filled);
    assert_eq!(m.total_count, 1);
}

#[test]
fn filled_sell_closes_the_position() {
    let (mut m, mut b) = filled_position();
    let mut gaps: Vec<Dec> = vec![];
    let plan = select_sell(&mut m, &mut gaps, &ticker("2000", "2001", 9)).unwrap();
    on_sell_sent(&mut m, new_sell_order("ETHUSDC", &plan), plan.timestamp);
    handle_order_trade_update(&mut m, &mut b, &stream_order("ETHUSDC_SELL_9_sell", "sell", "FILLED", "0.050"));
    assert!(m.orders.is_empty());
    assert_eq!(m.total_count, 0);
}

#[test]
fn trade_lite_closes_a_fully_filled_sell() {
    let (mut m, _) = filled_position();
    let mut gaps: Vec<Dec> = vec![];
    let plan = select_sell(&mut m, &mut gaps, &ticker("2000", "2001", 9)).unwrap();
    let mut sell = new_sell_order("ETHUSDC", &plan);
    sell.filled_quantity = dec("0.050");
    on_sell_sent(&mut m, sell, plan.timestamp);
    handle_trade_lite(&mut m, &trade_lite("ETHUSDC_SELL_9_sell", "SELL"));
    assert!(m.orders.is_empty());
    assert_eq!(m.total_count, 0);
}

#[test]
fn trade_lite_refreshes_a_partial_fill() {
    let (mut m, _) = filled_position();
    handle_trade_lite(&mut m, &trade_lite("ETHUSDC_BUY_1", "BUY"));
    assert_eq!(m.orders.len(), 1);
    assert_eq!(m.orders[0].order_id, "77");
    assert_eq!(m.orders[0].update_time, 7000);
    assert_eq!(m.total_count, 1);
}

#[test]
fn timed_out_sell_is_closed_once() {
    let (mut m, mut b) = filled_position();
    let mut gaps: Vec<Dec> = vec![];
    let plan = select_sell(&mut m, &mut gaps, &ticker("2000", "2001", 1000)).unwrap();
    on_sell_sent(&mut m, new_sell_order("ETHUSDC", &plan), plan.timestamp);
    assert!(timeout_fits(&m, 3601000));
    let marked = mark_timed_out_sells(&mut m, 3600999);
    assert!(marked.is_empty());
    let marked = mark_timed_out_sells(&mut m, 3601000);
    assert_eq!(marked, vec!["ETHUSDC_SELL_1000_sell".to_string()]);
    assert_eq!(m.total_count, 0);
    assert!(m.orders[1].timeout_processed);
    // Marked once only.
    assert!(mark_timed_out_sells(&mut m, 9000000).is_empty());
    assert!(try_handle_order_trade_update(
        &mut m,
        &mut b,
        &stream_order("ETHUSDC_SELL_1000_sell", "SELL", "FILLED", "0.050")
    ));
    assert!(m.orders.is_empty());
    assert_eq!(m.total_count, 0);
}

#[test]
fn expired_buys_are_listed() {
    let mut m = GlobalOrderManager::new();
    m.orders.push(order("a", "old", OrderSide::Buy, OrderStatus::New, "2000", 1000));
    m.orders.push(order("b", "young", OrderSide::Buy, OrderStatus::New, "2000", 5000));
    m.orders.push(order("c", "filled", OrderSide::Buy, OrderStatus::Filled, "2000", 0));
    m.orders.push(order("d", "sell", OrderSide::Sell, OrderStatus::New, "2000", 0));
    assert!(buy_clock_fits(&m, 11000));
    assert!(!buy_clock_fits(&m, 4000));
    assert_eq!(
        expired_buy_orders(&m, 11000),
        vec![("old".to_string(), "ETHUSDC".to_string())]
    );
    assert_eq!(expired_buy_orders(&m, 15000).len(), 2);
}

#[test]
fn account_update_takes_over_balances() {
    let mut b = funded();
    let bal = |asset: &str, amount: &str| AccountBalance {
        asset: asset.to_string(),
        wallet_balance: amount.to_string(),
        cross_wallet_balance: amount.to_string(),
        balance_change: "0".to_string(),
    };
    let update = AccountUpdateStream {
        stream: "lk".to_string(),
        data: AccountUpdateData {
            event_type: "ACCOUNT_UPDATE".to_string(),
            transaction_time: 1,
            event_time: 1,
            account: AccountInfo {
                balances: vec![bal("USDC", "123.45"), bal("usdt", "7"), bal("BNB", "1"), bal("UsDc", "bad")],
                positions: vec![],
                reason: "ORDER".to_string(),
            },
        },
    };
    let errors = apply_account_update(&mut b, &update);
    assert_eq!(text(&b.usdc_available), "123.45");
    assert_eq!(text(&b.usdt_available), "7");
    assert_eq!(errors.len(), 1);
}

#[test]
fn balance_reply_takes_over_balances() {
    let mut b = Balances::new();
    let item = |asset: &str, avail: &str| BalanceItem {
        account_alias: "x".to_string(),
        asset: asset.to_string(),
        balance: avail.to_string(),
        cross_wallet_balance: avail.to_string(),
        cross_un_pnl: "0".to_string(),
        available_balance: avail.to_string(),
        max_withdraw_amount: avail.to_string(),
        margin_available: true,
        update_time: 0,
    };
    let reply = AccountBalanceResponse {
        id: "account_balance".to_string(),
        status: 200,
        result: Some(vec![item("USDT", "50.5"), item("USDC", "60")]),
        rateLimits: None,
        error: None,
    };
    assert_eq!(apply_account_balance_reply(&mut b, &reply).map(|e| e.len()), Some(0));
    assert_eq!(text(&b.usdt_available), "50.5");
    assert_eq!(text(&b.usdc_available), "60");
    let failed = AccountBalanceResponse { id: "account_balance".to_string(), status: 500, result: None, rateLimits: None, error: None };
    assert!(apply_account_balance_reply(&mut b, &failed).is_none());
    assert_eq!(text(&b.usdc_available), "60");
}

#[test]
fn trade_prices_become_gaps() {
    let mut last: Option<Dec> = None;
    let mut gaps: Vec<Dec> = vec![];
    record_trade_price(&mut last, &mut gaps, "2000.5");
    assert!(gaps.is_empty());
    record_trade_price(&mut last, &mut gaps, "2001.0");
    record_trade_price(&mut last, &mut gaps, "2001.00");
    record_trade_price(&mut last, &mut gaps, "bad");
    record_trade_price(&mut last, &mut gaps, "2000");
    assert_eq!(gaps.iter().map(text).collect::<Vec<_>>(), vec!["0.5", "-1.00"]);
    assert_eq!(text(&last.unwrap()), "2000");
    assert!(try_record_trade_price(&mut last, &mut gaps, "2000.25"));
    assert_eq!(gaps.len(), 3);
}

#[test]
fn gaps_are_capped_at_a_thousand() {
    let mut last: Option<Dec> = None;
    let mut gaps: Vec<Dec> = vec![];
    for i in 0..1005 {
        let price = if i % 2 == 0 { "100" } else { "101" };
        record_trade_price(&mut last, &mut gaps, price);
    }
    assert_eq!(gaps.len(), 1000);
}

#[test]
fn median_of_gaps() {
    let mut none: Vec<Dec> = vec![];
    assert!(calculate_median(&mut none).is_none());
    let mut odd = vec![dec("1"), dec("3"), dec("2")];
    assert_eq!(text(&calculate_median(&mut odd).unwrap()), "2");
    let mut even = vec![dec("1"), dec("4"), dec("2"), dec("3")];
    assert_eq!(calculate_median(&mut even).map(|d| text(&d)), Some("2.5".to_string()));
    assert_eq!(even.iter().map(text).collect::<Vec<_>>(), vec!["4", "3", "2", "1"]);
    let mut ties = vec![dec("1.0"), dec("1.00"), dec("-2")];
    assert_eq!(text(&try_calculate_median(&mut ties).unwrap().unwrap()), "1.00");
}

#[test]
fn median_does_not_depend_on_order() {
    let mut a = vec![dec("3"), dec("1.0"), dec("-2"), dec("1.00"), dec("5")];
    let mut b = vec![dec("1.00"), dec("5"), dec("1.0"), dec("3"), dec("-2")];
    let ma = calculate_median(&mut a).unwrap();
    let mb = calculate_median(&mut b).unwrap();
    // The same value, though not always the same spelling.
    assert_eq!(ma.to_text(), "1.0");
    assert_eq!(mb.to_text(), "1.00");
    assert!(!ma.lt(&mb) && !mb.lt(&ma));
}

#[test]
fn median_same_for_every_order_when_ties_are_spelled_alike() {
    let orders = [
        ["0.5", "-1.25", "2", "0.5", "3.10", "-7"],
        ["-7", "0.5", "3.10", "2", "-1.25", "0.5"],
        ["3.10", "0.5", "-7", "0.5", "2", "-1.25"],
    ];
    for order in orders {
        let mut gaps: Vec<Dec> = order.iter().map(|t| dec(t)).collect();
        assert_eq!(calculate_median(&mut gaps).map(|d| text(&d)), Some("0.50".to_string()));
    }
    let orders = [["4", "-1", "2.5", "10"], ["10", "2.5", "-1", "4"], ["-1", "10", "4", "2.5"]];
    for order in orders {
        let mut gaps: Vec<Dec> = order.iter().map(|t| dec(t)).collect();
        assert_eq!(calculate_median(&mut gaps).map(|d| text(&d)), Some("3.25".to_string()));
    }
}

#[test]
fn no_gap_is_zero() {
    let mut last: Option<Dec> = None;
    let mut gaps: Vec<Dec> = vec![];
    for p in ["10", "10.0", "11", "11.00", "10.5", "10.50", "12"] {
        record_trade_price(&mut last, &mut gaps, p);
    }
    assert_eq!(gaps.iter().map(text).collect::<Vec<_>>(), vec!["1.0", "-0.50", "1.50"]);
    assert!(gaps.iter().all(|g| !g.is_zero()));
}
