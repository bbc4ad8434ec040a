//! Endpoints, the exchange's symbol rules, and order sizing
//! (`calc_quantity`).
use crate::decimal::{
    dec_is_multiple_of, dec_lt, dec_max, dec_zero, decimal_checked_div, decimal_checked_mul,
    decimal_parse, decimal_text, exact_product, floor_model, pow10, product_is_exact, Dec, DecModel,
};
use crate::text::{concat, str_eq};
use vstd::prelude::*;

verus! {

/// A JSON value as `serde_json` parses it, carried through untouched.
#[verifier::external_type_specification]
#[verifier::external_body]
pub struct ExJsonValue(serde_json::Value);

pub const TEST_ENV: &'static str = "test";

pub const DEV_ENV: &'static str = "dev";

pub const PROD_ENV: &'static str = "prod";

/// The traded pair.
pub fn get_symbol() -> (r: &'static str)
    ensures
        r@ == "ETHUSDC"@,
{
    "ETHUSDC"
}

/// The REST endpoint of the futures API.
pub fn get_rest_baseurl() -> (r: &'static str)
    ensures
        r@ == "https://fapi.binance.com"@,
{
    "https://fapi.binance.com"
}

/// Test and dev runs go to the test network.
pub open spec fn is_test_env(env: Seq<char>) -> bool {
    env == "test"@ || env == "dev"@
}

pub open spec fn is_prod_env(env: Seq<char>) -> bool {
    env == "prod"@
}

fn env_is_test(env: &str) -> (r: bool)
    ensures
        r == is_test_env(env@),
{
    str_eq(env, "test") || str_eq(env, "dev")
}

/// The private user data stream for a listen key.
pub fn get_ws_baseurl(env: &str, listen_key: &str) -> (r: String)
    ensures
        r@ == if is_test_env(env@) {
            "wss://fstream.binancefuture.com/private/stream?listenKey="@ + listen_key@
        } else if is_prod_env(env@) {
            "wss://fstream.binance.com/private/stream?listenKey="@ + listen_key@
        } else {
            Seq::<char>::empty()
        },
{
    if env_is_test(env) {
        concat("wss://fstream.binancefuture.com/private/stream?listenKey=", listen_key)
    } else if str_eq(env, "prod") {
        concat("wss://fstream.binance.com/private/stream?listenKey=", listen_key)
    } else {
        String::new()
    }
}

/// The market data stream.
pub fn get_ws_market_baseurl(env: &str) -> (r: String)
    ensures
        r@ == if is_test_env(env@) {
            "wss://fstream.binancefuture.com/market/stream"@
        } else if is_prod_env(env@) {
            "wss://fstream.binance.com/market/stream"@
        } else {
            Seq::<char>::empty()
        },
{
    if env_is_test(env) {
        "wss://fstream.binancefuture.com/market/stream".to_owned()
    } else if str_eq(env, "prod") {
        "wss://fstream.binance.com/market/stream".to_owned()
    } else {
        String::new()
    }
}

/// The public (book ticker) stream.
pub fn get_ws_public_baseurl(env: &str) -> (r: String)
    ensures
        r@ == if is_test_env(env@) {
            "wss://fstream.binancefuture.com/public/stream"@
        } else if is_prod_env(env@) {
            "wss://fstream.binance.com/public/stream"@
        } else {
            Seq::<char>::empty()
        },
{
    if env_is_test(env) {
        "wss://fstream.binancefuture.com/public/stream".to_owned()
    } else if str_eq(env, "prod") {
        "wss://fstream.binance.com/public/stream".to_owned()
    } else {
        String::new()
    }
}

/// The WebSocket API endpoint.
pub fn get_ws_api_baseurl(env: &str) -> (r: String)
    ensures
        r@ == if is_test_env(env@) {
            "wss://testnet.binancefuture.com/ws-fapi/v1"@
        } else if is_prod_env(env@) {
            "wss://ws-fapi.binance.com/ws-fapi/v1"@
        } else {
            Seq::<char>::empty()
        },
{
    if env_is_test(env) {
        "wss://testnet.binancefuture.com/ws-fapi/v1".to_owned()
    } else if str_eq(env, "prod") {
        "wss://ws-fapi.binance.com/ws-fapi/v1".to_owned()
    } else {
        String::new()
    }
}

/// The URL of a REST path under the base URL.
pub fn rest_url(base: &str, path: &str) -> (r: String)
    ensures
        r@ == base@ + path@,
{
    concat(base, path)
}

pub open spec fn api_response_check(success: bool, status: Seq<char>, body: Seq<char>) -> Result<
    (),
    Seq<char>,
> {
    if !success {
        Err("API request failed with status "@ + status + ": "@ + body)
    } else if body.len() == 0 {
        Err("API returned empty response"@)
    } else {
        Ok(())
    }
}

/// What a REST reply must pass before its body is parsed: a success status
/// and a non-empty body.
pub fn check_api_response(success: bool, status: &str, body: &str) -> (r: Result<(), String>)
    ensures
        match api_response_check(success, status@, body@) {
            Ok(()) => r is Ok,
            Err(m) => r matches Err(e) && e@ == m,
        },
{
    if !success {
        let mut m = concat("API request failed with status ", status);
        m.append(": ");
        m.append(body);
        return Err(m);
    }
    if body.is_empty() {
        return Err("API returned empty response".to_owned());
    }
    Ok(())
}

/// The `serverTime` of a reply body as `serde_json` reads it into a
/// `Value`: `Err` with the reader's error text when the body is not JSON;
/// `Ok(None)` when there is no top-level `serverTime` holding an `i64`;
/// else that number.
pub uninterp spec fn json_server_time(body: Seq<char>) -> Result<Option<i64>, Seq<char>>;

/// `serde_json::from_str::<Value>` of the body, then `get("serverTime")`
/// and `as_i64`.
#[verifier::external_body]
fn server_time_field(body: &str) -> (r: Result<Option<i64>, String>)
    ensures
        json_server_time(body@) == match r {
            Ok(t) => Ok::<Option<i64>, Seq<char>>(t),
            Err(m) => Err::<Option<i64>, Seq<char>>(m@),
        },
{
    match serde_json::from_str::<serde_json::Value>(body) {
        Ok(json) => Ok(json.get("serverTime").and_then(|v| v.as_i64())),
        Err(e) => Err(e.to_string()),
    }
}

/// The exchange's clock from the reply to `/fapi/v1/time`: the reply must
/// pass `check_api_response` (else its message), its body must be JSON
/// (else the reader's error text) and must hold an integer `serverTime`
/// (else ``missing field `serverTime` ``).
pub fn server_time_from_reply(success: bool, status: &str, body: &str) -> (r: Result<i64, String>)
    ensures
        match api_response_check(success, status@, body@) {
            Err(m) => r matches Err(x) && x@ == m,
            Ok(()) => match json_server_time(body@) {
                Err(e) => r matches Err(x) && x@ == e,
                Ok(None) => r matches Err(x) && x@ == "missing field `serverTime`"@,
                Ok(Some(t)) => r == Ok::<i64, String>(t),
            },
        },
{
    match check_api_response(success, status, body) {
        Err(m) => return Err(m),
        Ok(()) => {},
    }
    match server_time_field(body) {
        Err(e) => Err(e),
        Ok(None) => {
            Err("missing field `serverTime`".to_owned())
        },
        Ok(Some(t)) => Ok(t),
    }
}

#[derive(Debug)]
pub struct RateLimit {
    pub interval: String,
    pub interval_num: i64,
    pub limit: i64,
    pub rate_limit_type: String,
}

#[derive(Debug)]
pub struct Asset {
    pub asset: String,
    pub margin_available: bool,
    pub auto_asset_exchange: Option<String>,
}

/// One of a symbol's trading rules (`PRICE_FILTER`, `LOT_SIZE`, ...).
#[derive(Debug)]
pub struct Filter {
    pub filter_type: String,
    pub max_price: Option<String>,
    pub min_price: Option<String>,
    pub tick_size: Option<String>,
    pub max_qty: Option<String>,
    pub min_qty: Option<String>,
    pub step_size: Option<String>,
    pub limit: Option<i64>,
    pub notional: Option<String>,
    pub multiplier_up: Option<String>,
    pub multiplier_down: Option<String>,
    pub multiplier_decimal: Option<String>,
}

#[derive(Debug)]
pub struct Symbol {
    pub symbol: String,
    pub pair: String,
    pub contract_type: String,
    pub delivery_date: i64,
    pub onboard_date: i64,
    pub status: String,
    pub maint_margin_percent: String,
    pub required_margin_percent: String,
    pub base_asset: String,
    pub quote_asset: String,
    pub margin_asset: String,
    pub price_precision: i32,
    pub quantity_precision: i32,
    pub base_asset_precision: i32,
    pub quote_precision: i32,
    pub underlying_type: String,
    pub underlying_sub_type: Vec<String>,
    pub settle_plan: i64,
    pub trigger_protect: String,
    pub filters: Vec<Filter>,
    pub order_types: Vec<String>,
    pub time_in_force: Vec<String>,
    pub liquidation_fee: String,
    pub market_take_bound: String,
}

#[derive(Debug)]
pub struct ExchangeInfo {
    pub exchange_filters: Vec<serde_json::Value>,
    pub rate_limits: Vec<RateLimit>,
    pub server_time: i64,
    pub assets: Vec<Asset>,
    pub symbols: Vec<Symbol>,
    pub timezone: String,
}

pub open spec fn first_symbol_index(symbols: Seq<Symbol>, name: Seq<char>) -> Option<int>
    decreases symbols.len(),
{
    if symbols.len() == 0 {
        None
    } else if symbols.last().symbol@ == name && first_symbol_index(symbols.drop_last(), name) is None {
        Some(symbols.len() - 1)
    } else {
        first_symbol_index(symbols.drop_last(), name)
    }
}

/// The first symbol of the exchange with the given name.
pub fn find_symbol<'a>(symbols: &'a Vec<Symbol>, name: &str) -> (r: Option<&'a Symbol>)
    ensures
        match first_symbol_index(symbols@, name@) {
            Some(i) => r == Some(&symbols@[i]),
            None => r is None,
        },
{
    let mut i: usize = 0;
    while i < symbols.len()
        invariant
            i <= symbols.len(),
            first_symbol_index(symbols@.subrange(0, i as int), name@) is None,
        decreases symbols.len() - i,
    {
        assert(symbols@.subrange(0, i + 1).drop_last() =~= symbols@.subrange(0, i as int));
        if str_eq(symbols[i].symbol.as_str(), name) {
            proof {
                lemma_first_symbol_prefix(symbols@, name@, i as int);
            }
            return Some(&symbols[i]);
        }
        i = i + 1;
    }
    assert(symbols@.subrange(0, symbols.len() as int) =~= symbols@);
    None
}

proof fn lemma_first_symbol_prefix(symbols: Seq<Symbol>, name: Seq<char>, i: int)
    requires
        0 <= i < symbols.len(),
        symbols[i].symbol@ == name,
        first_symbol_index(symbols.subrange(0, i), name) is None,
    ensures
        first_symbol_index(symbols, name) == Some(i),
    decreases symbols.len(),
{
    if i == symbols.len() - 1 {
        assert(symbols.drop_last() =~= symbols.subrange(0, i));
    } else {
        assert(symbols.drop_last().subrange(0, i) =~= symbols.subrange(0, i));
        lemma_first_symbol_prefix(symbols.drop_last(), name, i);
    }
}

/// The first filter of the given type.
pub open spec fn find_filter_spec(filters: Seq<Filter>, filter_type: Seq<char>) -> Option<Filter>
    decreases filters.len(),
{
    if filters.len() == 0 {
        None
    } else if filters[0].filter_type@ == filter_type {
        Some(filters[0])
    } else {
        find_filter_spec(filters.drop_first(), filter_type)
    }
}

proof fn lemma_find_filter_skip(filters: Seq<Filter>, filter_type: Seq<char>, i: int)
    requires
        0 <= i <= filters.len(),
        forall|j: int| 0 <= j < i ==> filters[j].filter_type@ != filter_type,
    ensures
        find_filter_spec(filters, filter_type) == find_filter_spec(
            filters.subrange(i, filters.len() as int),
            filter_type,
        ),
    decreases i,
{
    if i > 0 {
        assert(filters.subrange(1, filters.len() as int) =~= filters.drop_first());
        lemma_find_filter_skip(filters.drop_first(), filter_type, i - 1);
        assert(filters.drop_first().subrange(i - 1, filters.drop_first().len() as int)
            =~= filters.subrange(i, filters.len() as int));
    } else {
        assert(filters.subrange(0, filters.len() as int) =~= filters);
    }
}

/// The first of the filters whose type is `filter_type`.
pub fn find_filter<'a>(filters: &'a [Filter], filter_type: &str) -> (r: Option<&'a Filter>)
    ensures
        match find_filter_spec(filters@, filter_type@) {
            Some(f) => r matches Some(g) && *g == f,
            None => r is None,
        },
{
    let mut i: usize = 0;
    while i < filters.len()
        invariant
            i <= filters.len(),
            forall|j: int| 0 <= j < i ==> filters@[j].filter_type@ != filter_type@,
        decreases filters.len() - i,
    {
        if str_eq(filters[i].filter_type.as_str(), filter_type) {
            proof {
                lemma_find_filter_skip(filters@, filter_type@, i as int);
            }
            return Some(&filters[i]);
        }
        i = i + 1;
    }
    proof {
        lemma_find_filter_skip(filters@, filter_type@, i as int);
    }
    None
}

/// A filter field read as a decimal; `None` when absent or not a decimal.
pub open spec fn parse_field_spec(opt: Option<String>) -> Option<DecModel> {
    match opt {
        Some(s) => match decimal_parse(s@) {
            Ok(v) => Some(v),
            Err(_) => None,
        },
        None => None,
    }
}

/// A filter field read as a decimal: `None` when it is absent or does not parse.
pub fn parse_field(opt: &Option<String>) -> (r: Option<Dec>)
    ensures
        match parse_field_spec(*opt) {
            Some(v) => r matches Some(d) && d@ == v,
            None => r is None,
        },
{
    match opt {
        Some(s) => match Dec::parse(s.as_str()) {
            Ok(d) => Some(d),
            Err(_) => None,
        },
        None => None,
    }
}

/// `value` rounded down to a whole number of `step`s; unchanged when the
/// step is not positive.  `None` where `rust_decimal` overflows.
pub open spec fn floor_to_step_spec(value: DecModel, step: DecModel) -> Option<DecModel> {
    if !dec_lt(dec_zero(), step) {
        Some(value)
    } else {
        match decimal_checked_div(value, step) {
            Some(q) => decimal_checked_mul(floor_model(q), step),
            None => None,
        }
    }
}

/// Rounds `value` down to a whole number of `step_size`s, e.g. 0.123 with
/// step 0.01 gives 0.12.  When the step is positive and the final product
/// needs no rounding, the result is a whole multiple of the step.
pub fn floor_to_step(value: Dec, step_size: Dec) -> (r: Dec)
    requires
        floor_to_step_spec(value@, step_size@) is Some,
    ensures
        Some(r@) == floor_to_step_spec(value@, step_size@),
        dec_lt(dec_zero(), step_size@) && product_is_exact(
            floor_model(decimal_checked_div(value@, step_size@).unwrap()),
            step_size@,
        ) ==> dec_is_multiple_of(r@, step_size@),
{
    if !step_size.is_positive() {
        return value;
    }
    let q = step_size_quotient(&value, &step_size);
    let f = q.floor();
    match f.checked_mul(&step_size) {
        Some(r) => {
            proof {
                let n = f@.0;
                if product_is_exact(f@, step_size@) {
                    lemma_exact_product_multiple(f@, step_size@);
                }
            }
            r
        },
        None => {
            proof {
                assert(false);
            }
            value
        },
    }
}

fn step_size_quotient(value: &Dec, step: &Dec) -> (r: Dec)
    requires
        decimal_checked_div(value@, step@) is Some,
    ensures
        Some(r@) == decimal_checked_div(value@, step@),
{
    match value.checked_div(step) {
        Some(q) => q,
        None => {
            proof {
                assert(false);
            }
            *value
        },
    }
}

proof fn lemma_exact_product_multiple(f: DecModel, step: DecModel)
    requires
        f.1 == 0,
    ensures
        dec_is_multiple_of(exact_product(f, step), step),
{
    let p = exact_product(f, step);
    let n = f.0;
    if f.0 * step.0 == 0 {
        assert(pow10(0) == 1);
        assert((0 * step.0) * pow10(p.1) == p.0 * pow10(step.1));
        assert(dec_is_multiple_of(p, step)) by {
            assert((0 * step.0) * pow10(p.1) == p.0 * pow10(step.1));
        }
    } else {
        assert(p.1 == step.1);
        assert((n * step.0) * pow10(p.1) == p.0 * pow10(step.1));
    }
}

/// The reasons `calc_quantity` refuses an order.
#[derive(Debug)]
pub enum CalcError {
    InvalidInput(String),
    PriceOutOfRange(Dec, Dec, Dec),
    BelowMinNotional(Dec, Dec),
    BelowMinQty(Dec, Dec),
    ExceedsMaxQty(Dec, Dec),
    MissingFilter(String),
}

pub enum CalcErrorModel {
    InvalidInput(Seq<char>),
    PriceOutOfRange(DecModel, DecModel, DecModel),
    BelowMinNotional(DecModel, DecModel),
    BelowMinQty(DecModel, DecModel),
    ExceedsMaxQty(DecModel, DecModel),
    MissingFilter(Seq<char>),
}

impl View for CalcError {
    type V = CalcErrorModel;

    open spec fn view(&self) -> CalcErrorModel {
        match self {
            CalcError::InvalidInput(m) => CalcErrorModel::InvalidInput(m@),
            CalcError::PriceOutOfRange(p, lo, hi) => CalcErrorModel::PriceOutOfRange(p@, lo@, hi@),
            CalcError::BelowMinNotional(a, m) => CalcErrorModel::BelowMinNotional(a@, m@),
            CalcError::BelowMinQty(q, m) => CalcErrorModel::BelowMinQty(q@, m@),
            CalcError::ExceedsMaxQty(q, m) => CalcErrorModel::ExceedsMaxQty(q@, m@),
            CalcError::MissingFilter(n) => CalcErrorModel::MissingFilter(n@),
        }
    }
}

pub open spec fn calc_result_model(r: Result<Dec, CalcError>) -> Result<DecModel, CalcErrorModel> {
    match r {
        Ok(q) => Ok(q@),
        Err(e) => Err(e@),
    }
}

pub open spec fn calc_error_text(e: CalcErrorModel) -> Seq<char> {
    match e {
        CalcErrorModel::InvalidInput(m) => "InvalidInput: "@ + m,
        CalcErrorModel::PriceOutOfRange(p, lo, hi) => "PriceOutOfRange: "@ + decimal_text(p)
            + " not in ["@ + decimal_text(lo) + ", "@ + decimal_text(hi) + "]"@,
        CalcErrorModel::BelowMinNotional(a, m) => "BelowMinNotional: "@ + decimal_text(a) + " < "@
            + decimal_text(m),
        CalcErrorModel::BelowMinQty(q, m) => "BelowMinQty: "@ + decimal_text(q) + " < "@
            + decimal_text(m),
        CalcErrorModel::ExceedsMaxQty(q, m) => "ExceedsMaxQty: "@ + decimal_text(q) + " > "@
            + decimal_text(m),
        CalcErrorModel::MissingFilter(n) => "MissingFilter: "@ + n + " not found"@,
    }
}

impl CalcError {
    /// The message the error displays.
    pub fn message(&self) -> (r: String)
        ensures
            r@ == calc_error_text(self@),
    {
        match self {
            CalcError::InvalidInput(m) => concat("InvalidInput: ", m.as_str()),
            CalcError::PriceOutOfRange(p, lo, hi) => {
                let mut s = concat("PriceOutOfRange: ", p.to_text().as_str());
                s.append(" not in [");
                s.append(lo.to_text().as_str());
                s.append(", ");
                s.append(hi.to_text().as_str());
                s.append("]");
                s
            },
            CalcError::BelowMinNotional(a, m) => {
                let mut s = concat("BelowMinNotional: ", a.to_text().as_str());
                s.append(" < ");
                s.append(m.to_text().as_str());
                s
            },
            CalcError::BelowMinQty(q, m) => {
                let mut s = concat("BelowMinQty: ", q.to_text().as_str());
                s.append(" < ");
                s.append(m.to_text().as_str());
                s
            },
            CalcError::ExceedsMaxQty(q, m) => {
                let mut s = concat("ExceedsMaxQty: ", q.to_text().as_str());
                s.append(" > ");
                s.append(m.to_text().as_str());
                s
            },
            CalcError::MissingFilter(n) => {
                let mut s = concat("MissingFilter: ", n.as_str());
                s.append(" not found");
                s
            },
        }
    }
}

/// Whether the price breaks the symbol's `PRICE_FILTER`, with the bounds it
/// is held to (0 and `Decimal::MAX` where a bound is missing).
pub open spec fn price_bounds(filters: Seq<Filter>) -> Option<(DecModel, DecModel)> {
    match find_filter_spec(filters, "PRICE_FILTER"@) {
        Some(pf) => Some(
            (
                match parse_field_spec(pf.min_price) {
                    Some(v) => v,
                    None => dec_zero(),
                },
                match parse_field_spec(pf.max_price) {
                    Some(v) => v,
                    None => dec_max(),
                },
            ),
        ),
        None => None,
    }
}

/// The price filter's bounds when the price lies outside them.
pub open spec fn price_violation(filters: Seq<Filter>, px: DecModel) -> Option<(DecModel, DecModel)> {
    match price_bounds(filters) {
        Some((lo, hi)) => if dec_lt(px, lo) || dec_lt(hi, px) {
            Some((lo, hi))
        } else {
            None
        },
        None => None,
    }
}

/// The smallest order value allowed: `MIN_NOTIONAL.notional`, or zero.
pub open spec fn min_notional_spec(filters: Seq<Filter>) -> DecModel {
    match find_filter_spec(filters, "MIN_NOTIONAL"@) {
        Some(f) => match parse_field_spec(f.notional) {
            Some(v) => v,
            None => dec_zero(),
        },
        None => dec_zero(),
    }
}

/// (step, min, max) of `MARKET_LOT_SIZE` when all three parse and the
/// step is not zero.
pub open spec fn market_lot_spec(filters: Seq<Filter>) -> Option<(DecModel, DecModel, DecModel)> {
    match find_filter_spec(filters, "MARKET_LOT_SIZE"@) {
        Some(f) => match (
            parse_field_spec(f.step_size),
            parse_field_spec(f.min_qty),
            parse_field_spec(f.max_qty),
        ) {
            (Some(step), Some(min), Some(max)) => if step.0 == 0 {
                None
            } else {
                Some((step, min, max))
            },
            _ => None,
        },
        None => None,
    }
}

/// (step, min, max) of `LOT_SIZE`, or the name of what is missing.
pub open spec fn lot_size_spec(filters: Seq<Filter>) -> Result<
    (DecModel, DecModel, DecModel),
    Seq<char>,
> {
    match find_filter_spec(filters, "LOT_SIZE"@) {
        None => Err("LOT_SIZE"@),
        Some(f) => match parse_field_spec(f.step_size) {
            None => Err("LOT_SIZE.step_size"@),
            Some(step) => match parse_field_spec(f.min_qty) {
                None => Err("LOT_SIZE.min_qty"@),
                Some(min) => match parse_field_spec(f.max_qty) {
                    None => Err("LOT_SIZE.max_qty"@),
                    Some(max) => Ok((step, min, max)),
                },
            },
        },
    }
}

/// The lot rules that apply: `LOT_SIZE` when it is complete (its limits
/// decide the size of a limit order); else `MARKET_LOT_SIZE` when usable;
/// else the name of what `LOT_SIZE` lacks.
pub open spec fn lot_rules_spec(filters: Seq<Filter>) -> Result<
    (DecModel, DecModel, DecModel),
    Seq<char>,
> {
    match lot_size_spec(filters) {
        Ok(t) => Ok(t),
        Err(name) => match market_lot_spec(filters) {
            Some(t) => Ok(t),
            None => Err(name),
        },
    }
}

/// The checks after the raw quantity is known.
pub open spec fn calc_from_raw_spec(
    raw: DecModel,
    px: DecModel,
    min_notional: DecModel,
    filters: Seq<Filter>,
) -> Option<Result<DecModel, CalcErrorModel>> {
    match lot_rules_spec(filters) {
        Err(name) => Some(Err(CalcErrorModel::MissingFilter(name))),
        Ok((step, min_qty, max_qty)) => match floor_to_step_spec(raw, step) {
            None => None,
            Some(qty) => if dec_lt(qty, min_qty) {
                Some(Err(CalcErrorModel::BelowMinQty(qty, min_qty)))
            } else if dec_lt(dec_zero(), max_qty) && dec_lt(max_qty, qty) {
                Some(Err(CalcErrorModel::ExceedsMaxQty(qty, max_qty)))
            } else {
                match decimal_checked_mul(qty, px) {
                    None => None,
                    Some(actual) => if dec_lt(actual, min_notional) {
                        Some(Err(CalcErrorModel::BelowMinNotional(actual, min_notional)))
                    } else {
                        Some(Ok(qty))
                    },
                }
            },
        },
    }
}

/// What `calc_quantity` decides for the texts and filters given; `None`
/// where the arithmetic overflows `rust_decimal`.
pub open spec fn calc_quantity_spec(usd_amount: Seq<char>, price: Seq<char>, filters: Seq<Filter>) -> Option<
    Result<DecModel, CalcErrorModel>,
> {
    match decimal_parse(usd_amount) {
        Err(_) => Some(Err(CalcErrorModel::InvalidInput("Invalid usd_amount: "@ + usd_amount))),
        Ok(usd) => match decimal_parse(price) {
            Err(_) => Some(Err(CalcErrorModel::InvalidInput("Invalid price: "@ + price))),
            Ok(px) => if !dec_lt(dec_zero(), usd) {
                Some(Err(CalcErrorModel::InvalidInput("usd_amount must be > 0"@)))
            } else if !dec_lt(dec_zero(), px) {
                Some(Err(CalcErrorModel::InvalidInput("price must be > 0"@)))
            } else if price_violation(filters, px) is Some {
                Some(
                    Err(
                        CalcErrorModel::PriceOutOfRange(
                            px,
                            price_violation(filters, px).unwrap().0,
                            price_violation(filters, px).unwrap().1,
                        ),
                    ),
                )
            } else if dec_lt(usd, min_notional_spec(filters)) {
                Some(Err(CalcErrorModel::BelowMinNotional(usd, min_notional_spec(filters))))
            } else {
                match decimal_checked_div(usd, px) {
                    None => None,
                    Some(raw) => calc_from_raw_spec(raw, px, min_notional_spec(filters), filters),
                }
            },
        },
    }
}

/// The size is a whole number of lot steps: where the step is positive
/// and the rounded-down product needs no rounding of its own, the accepted
/// size is a multiple of the lot step.
pub open spec fn on_lot_step(usd_amount: Seq<char>, price: Seq<char>, filters: Seq<Filter>, qty: DecModel) -> bool {
    match (decimal_parse(usd_amount), decimal_parse(price), lot_rules_spec(filters)) {
        (Ok(usd), Ok(px), Ok((step, _, _))) => match decimal_checked_div(usd, px) {
            Some(raw) => dec_lt(dec_zero(), step) && product_is_exact(
                floor_model(decimal_checked_div(raw, step).unwrap()),
                step,
            ) ==> dec_is_multiple_of(qty, step),
            None => true,
        },
        _ => true,
    }
}

fn price_limits(filters: &[Filter]) -> (r: Option<(Dec, Dec)>)
    ensures
        match price_bounds(filters@) {
            Some((lo, hi)) => r matches Some((a, b)) && a@ == lo && b@ == hi,
            None => r is None,
        },
{
    match find_filter(filters, "PRICE_FILTER") {
        Some(pf) => {
            let lo = match parse_field(&pf.min_price) {
                Some(v) => v,
                None => Dec::zero(),
            };
            let hi = match parse_field(&pf.max_price) {
                Some(v) => v,
                None => Dec::max_value(),
            };
            Some((lo, hi))
        },
        None => None,
    }
}

fn min_notional(filters: &[Filter]) -> (r: Dec)
    ensures
        r@ == min_notional_spec(filters@),
{
    match find_filter(filters, "MIN_NOTIONAL") {
        Some(f) => match parse_field(&f.notional) {
            Some(v) => v,
            None => Dec::zero(),
        },
        None => Dec::zero(),
    }
}

fn market_lot(filters: &[Filter]) -> (r: Option<(Dec, Dec, Dec)>)
    ensures
        match market_lot_spec(filters@) {
            Some((s, lo, hi)) => r matches Some((a, b, c)) && a@ == s && b@ == lo && c@ == hi,
            None => r is None,
        },
{
    match find_filter(filters, "MARKET_LOT_SIZE") {
        Some(f) => {
            let step = parse_field(&f.step_size);
            let min = parse_field(&f.min_qty);
            let max = parse_field(&f.max_qty);
            match (step, min, max) {
                (Some(step), Some(min), Some(max)) => {
                    if step.mantissa() == 0 {
                        None
                    } else {
                        Some((step, min, max))
                    }
                },
                _ => None,
            }
        },
        None => None,
    }
}

fn lot_size(filters: &[Filter]) -> (r: Result<(Dec, Dec, Dec), String>)
    ensures
        match lot_size_spec(filters@) {
            Ok((s, lo, hi)) => r matches Ok((a, b, c)) && a@ == s && b@ == lo && c@ == hi,
            Err(n) => r matches Err(m) && m@ == n,
        },
{
    let lot = match find_filter(filters, "LOT_SIZE") {
        Some(f) => f,
        None => return Err("LOT_SIZE".to_owned()),
    };
    let step = match parse_field(&lot.step_size) {
        Some(v) => v,
        None => return Err("LOT_SIZE.step_size".to_owned()),
    };
    let min = match parse_field(&lot.min_qty) {
        Some(v) => v,
        None => return Err("LOT_SIZE.min_qty".to_owned()),
    };
    let max = match parse_field(&lot.max_qty) {
        Some(v) => v,
        None => return Err("LOT_SIZE.max_qty".to_owned()),
    };
    Ok((step, min, max))
}

fn calc_core(usd_amount: &str, price: &str, symbol_info: &Symbol) -> (r: Option<
    Result<Dec, CalcError>,
>)
    ensures
        match calc_quantity_spec(usd_amount@, price@, symbol_info.filters@) {
            Some(v) => r matches Some(x) && calc_result_model(x) == v,
            None => r is None,
        },
        r matches Some(Ok(q)) ==> on_lot_step(usd_amount@, price@, symbol_info.filters@, q@),
{
    let usd = match Dec::parse(usd_amount) {
        Ok(v) => v,
        Err(_) => return Some(Err(CalcError::InvalidInput(concat("Invalid usd_amount: ", usd_amount)))),
    };
    let px = match Dec::parse(price) {
        Ok(v) => v,
        Err(_) => return Some(Err(CalcError::InvalidInput(concat("Invalid price: ", price)))),
    };
    if !usd.is_positive() {
        return Some(Err(CalcError::InvalidInput("usd_amount must be > 0".to_owned())));
    }
    if !px.is_positive() {
        return Some(Err(CalcError::InvalidInput("price must be > 0".to_owned())));
    }
    let filters = symbol_info.filters.as_slice();
    if let Some((lo, hi)) = price_limits(filters) {
        if px.lt(&lo) || hi.lt(&px) {
            return Some(Err(CalcError::PriceOutOfRange(px, lo, hi)));
        }
    }
    let min_notional = min_notional(filters);
    if usd.lt(&min_notional) {
        return Some(Err(CalcError::BelowMinNotional(usd, min_notional)));
    }
    let raw_qty = match usd.checked_div(&px) {
        Some(q) => q,
        None => return None,
    };
    let (step_size, min_qty, max_qty) = match lot_size(filters) {
        Ok(t) => t,
        Err(name) => match market_lot(filters) {
            Some(m) => m,
            None => return Some(Err(CalcError::MissingFilter(name))),
        },
    };
    if floor_to_step_checked(&raw_qty, &step_size) {
    } else {
        return None;
    }
    let qty = floor_to_step(raw_qty, step_size);
    if qty.lt(&min_qty) {
        return Some(Err(CalcError::BelowMinQty(qty, min_qty)));
    }
    if Dec::zero().lt(&max_qty) && max_qty.lt(&qty) {
        return Some(Err(CalcError::ExceedsMaxQty(qty, max_qty)));
    }
    let actual_notional = match qty.checked_mul(&px) {
        Some(a) => a,
        None => return None,
    };
    if actual_notional.lt(&min_notional) {
        return Some(Err(CalcError::BelowMinNotional(actual_notional, min_notional)));
    }
    Some(Ok(qty))
}

/// Whether `floor_to_step` stays within `rust_decimal`'s range.
fn floor_to_step_checked(value: &Dec, step: &Dec) -> (r: bool)
    ensures
        r == floor_to_step_spec(value@, step@) is Some,
{
    if !step.is_positive() {
        return true;
    }
    match value.checked_div(step) {
        Some(q) => q.floor().checked_mul(step).is_some(),
        None => false,
    }
}

/// `floor_to_step` where `rust_decimal` stays in range; `None` otherwise.
pub fn try_floor_to_step(value: Dec, step_size: Dec) -> (r: Option<Dec>)
    ensures
        match floor_to_step_spec(value@, step_size@) {
            Some(v) => r matches Some(d) && d@ == v,
            None => r is None,
        },
        r matches Some(d) ==> (dec_lt(dec_zero(), step_size@) && product_is_exact(
            floor_model(decimal_checked_div(value@, step_size@).unwrap()),
            step_size@,
        ) ==> dec_is_multiple_of(d@, step_size@)),
{
    if floor_to_step_checked(&value, &step_size) {
        Some(floor_to_step(value, step_size))
    } else {
        None
    }
}

/// The quantity that `usd_amount` buys at `price`, rounded down to the
/// symbol's lot step and held to its price, lot and notional rules.
/// `_symbol` only names the pair.  The texts are read with
/// `Decimal::from_str`; where `rust_decimal`'s arithmetic would overflow
/// (a panic) the inputs are left out, see `try_calc_quantity`.
pub fn calc_quantity(usd_amount: &str, _symbol: &str, price: &str, symbol_info: &Symbol) -> (r: Result<Dec, CalcError>)
    requires
        calc_quantity_spec(usd_amount@, price@, symbol_info.filters@) is Some,
    ensures
        Some(calc_result_model(r)) == calc_quantity_spec(usd_amount@, price@, symbol_info.filters@),
        r matches Ok(q) ==> on_lot_step(usd_amount@, price@, symbol_info.filters@, q@),
{
    match calc_core(usd_amount, price, symbol_info) {
        Some(r) => r,
        None => {
            proof {
                assert(false);
            }
            Err(CalcError::InvalidInput(String::new()))
        },
    }
}

/// `calc_quantity` where its arithmetic stays in range, else `None`.
pub fn try_calc_quantity(usd_amount: &str, symbol: &str, price: &str, symbol_info: &Symbol) -> (r: Option<Result<Dec, CalcError>>)
    ensures
        match calc_quantity_spec(usd_amount@, price@, symbol_info.filters@) {
            Some(v) => r matches Some(x) && calc_result_model(x) == v,
            None => r is None,
        },
        r matches Some(Ok(q)) ==> on_lot_step(usd_amount@, price@, symbol_info.filters@, q@),
{
    match calc_core(usd_amount, price, symbol_info) {
        Some(_) => Some(calc_quantity(usd_amount, symbol, price, symbol_info)),
        None => None,
    }
}

/// An order size that `calc_quantity` accepts keeps every rule of the
/// symbol: the amount and price are positive decimals, the price lies in
/// the price filter's bounds, the amount reaches the minimum notional, the
/// size is the raw size (amount / price) rounded down to the lot step, it
/// is at least the lot minimum and, where a positive maximum is set, at
/// most the maximum, and its value at the price reaches the minimum
/// notional.
pub proof fn law_accepted_quantity_keeps_rules(
    usd_amount: Seq<char>,
    price: Seq<char>,
    filters: Seq<Filter>,
    qty: DecModel,
)
    requires
        calc_quantity_spec(usd_amount, price, filters) == Some(
            Ok::<DecModel, CalcErrorModel>(qty),
        ),
    ensures
        decimal_parse(usd_amount) matches Ok(usd) && decimal_parse(price) matches Ok(px) && {
            &&& dec_lt(dec_zero(), usd)
            &&& dec_lt(dec_zero(), px)
            &&& price_bounds(filters) matches Some((lo, hi)) ==> !dec_lt(px, lo) && !dec_lt(hi, px)
            &&& !dec_lt(usd, min_notional_spec(filters))
            &&& lot_rules_spec(filters) matches Ok((step, min_qty, max_qty)) && {
                &&& decimal_checked_div(usd, px) matches Some(raw) && floor_to_step_spec(raw, step)
                    == Some(qty)
                &&& !dec_lt(qty, min_qty)
                &&& dec_lt(dec_zero(), max_qty) ==> !dec_lt(max_qty, qty)
            }
            &&& decimal_checked_mul(qty, px) matches Some(value) && !dec_lt(
                value,
                min_notional_spec(filters),
            )
        },
{
}

} // verus!
