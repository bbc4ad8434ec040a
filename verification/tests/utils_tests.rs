use binance_bot::decimal::Dec;
use binance_bot::utils::{
    calc_quantity, check_api_response, find_filter, find_symbol, floor_to_step, get_rest_baseurl,
    get_symbol, get_ws_api_baseurl, get_ws_baseurl, get_ws_market_baseurl, get_ws_public_baseurl,
    parse_field, rest_url, server_time_from_reply, try_calc_quantity, try_floor_to_step, CalcError, Filter, Symbol,
};

fn filter(kind: &str) -> Filter {
    Filter {
        filter_type: kind.to_string(),
        max_price: None,
        min_price: None,
        tick_size: None,
        max_qty: None,
        min_qty: None,
        step_size: None,
        limit: None,
        notional: None,
        multiplier_up: None,
        multiplier_down: None,
        multiplier_decimal: None,
    }
}

fn symbol_with(filters: Vec<Filter>) -> Symbol {
    Symbol {
        symbol: "ETHUSDT".to_string(),
        pair: "ETHUSDT".to_string(),
        contract_type: "PERPETUAL".to_string(),
        delivery_date: 4133404800000,
        onboard_date: 1569398400000,
        status: "TRADING".to_string(),
        maint_margin_percent: "2.5000".to_string(),
        required_margin_percent: "5.0000".to_string(),
        base_asset: "ETH".to_string(),
        quote_asset: "USDT".to_string(),
        margin_asset: "USDT".to_string(),
        price_precision: 2,
        quantity_precision: 3,
        base_asset_precision: 8,
        quote_precision: 8,
        underlying_type: "COIN".to_string(),
        underlying_sub_type: vec!["Layer-1".to_string()],
        settle_plan: 0,
        trigger_protect: "0.0500".to_string(),
        filters,
        order_types: vec!["LIMIT".to_string(), "MARKET".to_string()],
        time_in_force: vec!["GTC".to_string(), "GTX".to_string()],
        liquidation_fee: "0.012500".to_string(),
        market_take_bound: "0.05".to_string(),
    }
}

/// ETHUSDT's rules: prices 39.86 to 306177, lots of 0.001 from 0.001 to
/// 10000, market lots of 0.001 from 0.001 to 2000, orders worth at least 20.
fn ethusdt_filters() -> Vec<Filter> {
    let mut price = filter("PRICE_FILTER");
    price.min_price = Some("39.86".to_string());
    price.max_price = Some("306177".to_string());
    price.tick_size = Some("0.01".to_string());
    let mut lot = filter("LOT_SIZE");
    lot.step_size = Some("0.001".to_string());
    lot.min_qty = Some("0.001".to_string());
    lot.max_qty = Some("10000".to_string());
    let mut market = filter("MARKET_LOT_SIZE");
    market.step_size = Some("0.001".to_string());
    market.min_qty = Some("0.001".to_string());
    market.max_qty = Some("2000".to_string());
    let mut notional = filter("MIN_NOTIONAL");
    notional.notional = Some("20".to_string());
    vec![price, lot, market, notional]
}

/// ETHUSDT's rules with the market lot rule replaced.
fn ethusdt_filters_with_market_lot(step: &str, min: &str, max: &str) -> Vec<Filter> {
    let mut filters = ethusdt_filters();
    for f in &mut filters {
        if f.filter_type == "MARKET_LOT_SIZE" {
            f.step_size = Some(step.to_string());
            f.min_qty = Some(min.to_string());
            f.max_qty = Some(max.to_string());
        }
    }
    filters
}

fn ethusdt() -> Symbol {
    symbol_with(ethusdt_filters())
}

fn dec(text: &str) -> Dec {
    Dec::parse(text).unwrap()
}

#[test]
fn test_calc_quantity_normal_case() {
    let symbol_info = ethusdt();
    let result = calc_quantity("21", "ETHUSDT", "2311.12", &symbol_info);
    assert_eq!(result.unwrap().to_text(), "0.009");
}

#[test]
fn test_calc_quantity_step_size_alignment() {
    let symbol_info = ethusdt();
    let result = calc_quantity("150.0", "ETHUSDT", "2000.0", &symbol_info);
    assert!(result.is_ok());
    assert_eq!(result.unwrap().to_text(), "0.075");
}

#[test]
fn test_calc_quantity_floor_to_step() {
    let symbol_info = ethusdt();
    let result = calc_quantity("100.123", "ETHUSDT", "2000.0", &symbol_info);
    assert!(result.is_ok());
    assert_eq!(result.unwrap().to_text(), "0.050");
}

#[test]
fn test_calc_quantity_invalid_usd_amount() {
    let symbol_info = ethusdt();
    let result = calc_quantity("invalid", "ETHUSDT", "2000.0", &symbol_info);
    assert!(result.is_err());
    assert!(matches!(result.unwrap_err(), CalcError::InvalidInput(_)));
}

#[test]
fn test_calc_quantity_invalid_price() {
    let symbol_info = ethusdt();
    let result = calc_quantity("100.0", "ETHUSDT", "invalid", &symbol_info);
    assert!(result.is_err());
    assert!(matches!(result.unwrap_err(), CalcError::InvalidInput(_)));
}

#[test]
fn test_calc_quantity_zero_usd_amount() {
    let symbol_info = ethusdt();
    let result = calc_quantity("0", "ETHUSDT", "2000.0", &symbol_info);
    assert!(result.is_err());
    assert!(matches!(result.unwrap_err(), CalcError::InvalidInput(_)));
}

#[test]
fn test_calc_quantity_zero_price() {
    let symbol_info = ethusdt();
    let result = calc_quantity("100.0", "ETHUSDT", "0", &symbol_info);
    assert!(result.is_err());
    assert!(matches!(result.unwrap_err(), CalcError::InvalidInput(_)));
}

#[test]
fn test_calc_quantity_below_min_notional() {
    let symbol_info = ethusdt();
    let result = calc_quantity("5.0", "ETHUSDT", "2000.0", &symbol_info);
    assert!(result.is_err());
    assert_eq!(result.unwrap_err().message(), "BelowMinNotional: 5.0 < 20");
}

#[test]
fn test_calc_quantity_below_min_qty() {
    let mut symbol_info = ethusdt();
    for filter in &mut symbol_info.filters {
        if filter.filter_type == "LOT_SIZE" {
            filter.min_qty = Some("0.1".to_string());
        }
    }
    let result = calc_quantity("100.0", "ETHUSDT", "2000.0", &symbol_info);
    assert!(result.is_err());
    assert!(matches!(result.unwrap_err(), CalcError::BelowMinQty(_, _)));
}

#[test]
fn test_calc_quantity_exceeds_max_qty() {
    let mut symbol_info = ethusdt();
    for filter in &mut symbol_info.filters {
        if filter.filter_type == "LOT_SIZE" {
            filter.max_qty = Some("0.01".to_string());
        }
    }
    let result = calc_quantity("100.0", "ETHUSDT", "2000.0", &symbol_info);
    assert_eq!(result.unwrap_err().message(), "ExceedsMaxQty: 0.050 > 0.01");
}

#[test]
fn calc_quantity_messages_for_invalid_input() {
    let symbol_info = ethusdt();
    let e = calc_quantity("abc", "ETHUSDT", "2000", &symbol_info).unwrap_err();
    assert_eq!(e.message(), "InvalidInput: Invalid usd_amount: abc");
    let e = calc_quantity("100", "ETHUSDT", "x1", &symbol_info).unwrap_err();
    assert_eq!(e.message(), "InvalidInput: Invalid price: x1");
    let e = calc_quantity("-1", "ETHUSDT", "2000", &symbol_info).unwrap_err();
    assert_eq!(e.message(), "InvalidInput: usd_amount must be > 0");
    let e = calc_quantity("100", "ETHUSDT", "-2000", &symbol_info).unwrap_err();
    assert_eq!(e.message(), "InvalidInput: price must be > 0");
}

#[test]
fn calc_quantity_price_out_of_range() {
    let symbol_info = ethusdt();
    let e = calc_quantity("100", "ETHUSDT", "10", &symbol_info).unwrap_err();
    assert_eq!(e.message(), "PriceOutOfRange: 10 not in [39.86, 306177]");
    let e = calc_quantity("100", "ETHUSDT", "400000", &symbol_info).unwrap_err();
    assert!(matches!(e, CalcError::PriceOutOfRange(_, _, _)));
}

#[test]
fn calc_quantity_missing_lot_size() {
    // Without LOT_SIZE the market lot rule applies: 100 at 2000 buys 0.050.
    let mut filters = ethusdt_filters();
    filters.retain(|f| f.filter_type != "LOT_SIZE");
    let q = calc_quantity("100", "ETHUSDT", "2000", &symbol_with(filters)).unwrap();
    assert_eq!(q.to_text(), "0.050");

    // Without either lot rule the missing LOT_SIZE is named.
    let mut filters = ethusdt_filters();
    filters.retain(|f| f.filter_type != "LOT_SIZE" && f.filter_type != "MARKET_LOT_SIZE");
    let e = calc_quantity("100", "ETHUSDT", "2000", &symbol_with(filters)).unwrap_err();
    assert_eq!(e.message(), "MissingFilter: LOT_SIZE not found");

    // An incomplete LOT_SIZE gives way to a usable market lot rule ...
    let mut filters = ethusdt_filters();
    for f in &mut filters {
        if f.filter_type == "LOT_SIZE" {
            f.min_qty = None;
        }
    }
    let q = calc_quantity("100", "ETHUSDT", "2000", &symbol_with(filters)).unwrap();
    assert_eq!(q.to_text(), "0.050");

    // ... and is named when the market lot step is zero (not set).
    let mut filters = ethusdt_filters_with_market_lot("0", "0.01", "100");
    for f in &mut filters {
        if f.filter_type == "LOT_SIZE" {
            f.min_qty = None;
        }
    }
    let e = calc_quantity("100", "ETHUSDT", "2000", &symbol_with(filters)).unwrap_err();
    assert_eq!(e.message(), "MissingFilter: LOT_SIZE.min_qty not found");
}

#[test]
fn calc_quantity_lot_size_decides_over_market_lot_size() {
    // A complete LOT_SIZE decides: its step 0.001 gives 0.075, not the
    // market step's 0.07.
    let filters = ethusdt_filters_with_market_lot("0.01", "0.01", "100");
    let q = calc_quantity("150", "ETHUSDT", "2000", &symbol_with(filters)).unwrap();
    assert_eq!(q.to_text(), "0.075");

    // Without LOT_SIZE the market step 0.01 rounds 0.075 down to 0.07.
    let mut filters = ethusdt_filters_with_market_lot("0.01", "0.01", "100");
    filters.retain(|f| f.filter_type != "LOT_SIZE");
    let q = calc_quantity("150", "ETHUSDT", "2000", &symbol_with(filters)).unwrap();
    assert_eq!(q.to_text(), "0.07");
}

#[test]
fn calc_quantity_notional_checked_after_rounding() {
    // 20.5 buys 0.010 at 2000 (0.01025 rounded down), worth 20.000 >= 20.
    let symbol_info = ethusdt();
    let q = calc_quantity("20.5", "ETHUSDT", "2000", &symbol_info).unwrap();
    assert_eq!(q.to_text(), "0.010");
    // 20.5 at 2100 buys 0.009, worth 18.9 < 20.
    let e = calc_quantity("20.5", "ETHUSDT", "2100", &symbol_info).unwrap_err();
    assert_eq!(e.message(), "BelowMinNotional: 18.900 < 20");
}

#[test]
fn try_calc_quantity_agrees_in_range() {
    let symbol_info = ethusdt();
    let r = try_calc_quantity("21", "ETHUSDT", "2311.12", &symbol_info);
    assert_eq!(r.unwrap().unwrap().to_text(), "0.009");
}

#[test]
fn floor_to_step_rounds_down() {
    assert_eq!(floor_to_step(dec("0.123"), dec("0.01")).to_text(), "0.12");
    assert_eq!(floor_to_step(dec("5"), dec("2")).to_text(), "4");
    // A step that is not positive leaves the value as it is.
    assert_eq!(floor_to_step(dec("0.123"), dec("0")).to_text(), "0.123");
    assert_eq!(floor_to_step(dec("0.123"), dec("-1")).to_text(), "0.123");
}

#[test]
fn parse_field_reads_decimals() {
    assert_eq!(parse_field(&Some("1.50".to_string())).unwrap().to_text(), "1.50");
    assert!(parse_field(&Some("x".to_string())).is_none());
    assert!(parse_field(&None).is_none());
}

#[test]
fn find_filter_takes_the_first_of_its_type() {
    let mut filters = ethusdt_filters();
    let mut second = filter("LOT_SIZE");
    second.step_size = Some("1".to_string());
    filters.push(second);
    let f = find_filter(&filters, "LOT_SIZE").unwrap();
    assert_eq!(f.step_size.as_deref(), Some("0.001"));
    assert!(find_filter(&filters, "PERCENT_PRICE").is_none());
}

#[test]
fn find_symbol_by_name() {
    let symbols = vec![ethusdt()];
    assert_eq!(find_symbol(&symbols, "ETHUSDT").unwrap().quote_asset, "USDT");
    assert!(find_symbol(&symbols, "BTCUSDT").is_none());
}

#[test]
fn endpoints() {
    assert_eq!(get_symbol(), "ETHUSDC");
    assert_eq!(get_rest_baseurl(), "https://fapi.binance.com");
    assert_eq!(
        get_ws_baseurl("dev", "abc"),
        "wss://fstream.binancefuture.com/private/stream?listenKey=abc"
    );
    assert_eq!(
        get_ws_baseurl("test", "abc"),
        "wss://fstream.binancefuture.com/private/stream?listenKey=abc"
    );
    assert_eq!(get_ws_baseurl("prod", "abc"), "wss://fstream.binance.com/private/stream?listenKey=abc");
    assert_eq!(get_ws_baseurl("staging", "abc"), "");
    assert_eq!(get_ws_market_baseurl("dev"), "wss://fstream.binancefuture.com/market/stream");
    assert_eq!(get_ws_market_baseurl("prod"), "wss://fstream.binance.com/market/stream");
    assert_eq!(get_ws_market_baseurl("other"), "");
    assert_eq!(get_ws_public_baseurl("test"), "wss://fstream.binancefuture.com/public/stream");
    assert_eq!(get_ws_public_baseurl("prod"), "wss://fstream.binance.com/public/stream");
    assert_eq!(get_ws_public_baseurl(""), "");
    assert_eq!(get_ws_api_baseurl("dev"), "wss://testnet.binancefuture.com/ws-fapi/v1");
    assert_eq!(get_ws_api_baseurl("prod"), "wss://ws-fapi.binance.com/ws-fapi/v1");
    assert_eq!(get_ws_api_baseurl("x"), "");
    assert_eq!(rest_url("https://fapi.binance.com", "/fapi/v1/time"), "https://fapi.binance.com/fapi/v1/time");
}

#[test]
fn api_response_checks() {
    assert!(check_api_response(true, "200 OK", "{}").is_ok());
    assert_eq!(
        check_api_response(false, "404 Not Found", "nope").unwrap_err(),
        "API request failed with status 404 Not Found: nope"
    );
    assert_eq!(check_api_response(true, "200 OK", "").unwrap_err(), "API returned empty response");
}

#[test]
fn server_time_from_reply_reads_the_clock() {
    assert_eq!(server_time_from_reply(true, "200 OK", "{\"serverTime\":1499827319559}"), Ok(1499827319559));
    assert_eq!(
        server_time_from_reply(false, "500 Internal Server Error", "down").unwrap_err(),
        "API request failed with status 500 Internal Server Error: down"
    );
    assert_eq!(server_time_from_reply(true, "200 OK", "").unwrap_err(), "API returned empty response");
    assert_eq!(
        server_time_from_reply(true, "200 OK", "{\"time\":1}").unwrap_err(),
        "missing field `serverTime`"
    );
    assert_eq!(
        server_time_from_reply(true, "200 OK", "{\"serverTime\":\"1\"}").unwrap_err(),
        "missing field `serverTime`"
    );
    assert!(server_time_from_reply(true, "200 OK", "not json").is_err());
}

#[test]
fn try_floor_to_step_in_range() {
    assert_eq!(try_floor_to_step(dec("0.123"), dec("0.01")).unwrap().to_text(), "0.12");
    assert_eq!(try_floor_to_step(dec("7"), dec("0")).unwrap().to_text(), "7");
    // 7.9e28 / 1e-28 overflows.
    assert!(try_floor_to_step(Dec::max_value(), dec("0.0000000000000000000000000001")).is_none());
}
