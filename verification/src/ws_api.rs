//! The WebSocket API: signed requests, their JSON text, and what the replies
//! and user data stream events mean.
#![allow(non_snake_case)]

use crate::codec::{base64_encode, base64_std, hex_decode, hex_decode_spec, hex_lower, json_quote, json_string, law_hex_round_trip};
use crate::ed25519::{ed25519_sign, ed25519_signature};
use crate::text::{concat, i64_text, int_text, nat_text, str_eq, u64_text};
use vstd::prelude::*;
use vstd::string::StringSliceAdditionalSpecFns;
use vstd::utf8::encode_utf8;

verus! {

#[derive(Debug)]
pub struct RateLimit {
    pub rateLimitType: String,
    pub interval: String,
    pub intervalNum: i32,
    pub limit: i32,
    pub count: i32,
}

#[derive(Debug)]
pub struct LoginResult {
    pub apiKey: String,
    pub authorizedSince: i64,
    pub connectedSince: i64,
    pub returnRateLimits: bool,
    pub serverTime: i64,
}

#[derive(Debug)]
pub struct LoginResponse {
    pub id: String,
    pub status: i32,
    pub result: Option<LoginResult>,
    pub rateLimits: Option<Vec<RateLimit>>,
    pub error: Option<serde_json::Value>,
}

#[derive(Debug)]
pub struct UserDataStreamResult {
    pub listenKey: String,
}

#[derive(Debug)]
pub struct UserDataStreamResponse {
    pub id: String,
    pub status: i32,
    pub result: Option<UserDataStreamResult>,
    pub rateLimits: Option<Vec<RateLimit>>,
    pub error: Option<serde_json::Value>,
}

#[derive(Debug)]
pub struct BalanceItem {
    pub account_alias: String,
    pub asset: String,
    pub balance: String,
    pub cross_wallet_balance: String,
    pub cross_un_pnl: String,
    pub available_balance: String,
    pub max_withdraw_amount: String,
    pub margin_available: bool,
    pub update_time: i64,
}

#[derive(Debug)]
pub struct AccountBalanceResponse {
    pub id: String,
    pub status: i32,
    pub result: Option<Vec<BalanceItem>>,
    pub rateLimits: Option<Vec<RateLimit>>,
    pub error: Option<serde_json::Value>,
}

#[derive(Debug)]
pub struct BookTickerData {
    pub event_type: String,
    pub update_id: u64,
    pub symbol: String,
    pub best_bid_price: String,
    pub best_bid_qty: String,
    pub best_ask_price: String,
    pub best_ask_qty: String,
    pub transaction_time: u64,
    pub event_time: u64,
}

#[derive(Debug)]
pub struct BookTickerStream {
    pub stream: String,
    pub data: BookTickerData,
}

/// An order as the user data stream reports it.
#[derive(Debug)]
pub struct Order {
    pub symbol: String,
    pub client_order_id: String,
    pub side: String,
    pub order_type: String,
    pub time_in_force: String,
    pub quantity: String,
    pub price: String,
    pub avg_price: String,
    pub stop_price: String,
    pub execution_type: String,
    pub order_status: String,
    pub order_id: u64,
    pub last_filled_qty: String,
    pub filled_accumulated_qty: String,
    pub last_filled_price: String,
    pub commission: String,
    pub commission_asset: Option<String>,
    pub transaction_time: u64,
    pub trade_id: u64,
    pub bids_notional: String,
    pub asks_notional: String,
    pub is_maker: bool,
    pub is_reduce_only: bool,
    pub working_type: String,
    pub original_order_type: String,
    pub position_side: String,
    pub close_all: bool,
    pub realized_profit: String,
    pub price_protect: bool,
    pub ignore1: i64,
    pub ignore2: i64,
    pub self_trade_prevention_mode: String,
    pub price_match: String,
    pub gtd_order_auto_cancel_time: u64,
    pub good_till_date: String,
}

#[derive(Debug)]
pub struct OrderTradeUpdateData {
    pub event_type: String,
    pub transaction_time: u64,
    pub event_time: u64,
    pub order: Order,
}

#[derive(Debug)]
pub struct OrderTradeUpdateStream {
    pub stream: String,
    pub data: OrderTradeUpdateData,
}

#[derive(Debug)]
pub struct TradeLiteData {
    pub event_type: String,
    pub event_time: u64,
    pub transaction_time: u64,
    pub symbol: String,
    pub quantity: String,
    pub price: String,
    pub is_maker: bool,
    pub client_order_id: String,
    pub side: String,
    pub last_filled_price: String,
    pub last_filled_qty: String,
    pub trade_id: u64,
    pub order_id: u64,
}

#[derive(Debug)]
pub struct TradeLiteStream {
    pub stream: String,
    pub data: TradeLiteData,
}

#[derive(Debug)]
pub struct AccountBalance {
    pub asset: String,
    pub wallet_balance: String,
    pub cross_wallet_balance: String,
    pub balance_change: String,
}

#[derive(Debug)]
pub struct Position {
    pub symbol: String,
    pub position_amount: String,
    pub entry_price: String,
    pub accumulated_realized: String,
    pub unrealized_pnl: String,
    pub margin_type: String,
    pub isolated_wallet: String,
    pub position_side: String,
    pub margin_asset: String,
    pub break_even_price: String,
}

#[derive(Debug)]
pub struct AccountUpdateData {
    pub event_type: String,
    pub transaction_time: u64,
    pub event_time: u64,
    pub account: AccountInfo,
}

#[derive(Debug)]
pub struct AccountInfo {
    pub balances: Vec<AccountBalance>,
    pub positions: Vec<Position>,
    pub reason: String,
}

#[derive(Debug)]
pub struct AccountUpdateStream {
    pub stream: String,
    pub data: AccountUpdateData,
}

/// An event of the user data stream.
#[derive(Debug)]
pub enum UserDataStreamEvent {
    OrderTradeUpdate(OrderTradeUpdateStream),
    TradeLite(TradeLiteStream),
    AccountUpdate(AccountUpdateStream),
    Unknown(serde_json::Value),
}

/// Which kind of user data stream event a message is, by its `data.e`.
#[derive(Debug, Clone, Copy, PartialEq, Eq, Structural)]
pub enum UserDataEventKind {
    OrderTradeUpdate,
    TradeLite,
    AccountUpdate,
    Unknown,
}

#[derive(Debug)]
pub struct GenericResponse {
    pub id: String,
    pub status: i32,
    pub result: Option<serde_json::Value>,
    pub rateLimits: Option<Vec<RateLimit>>,
    pub error: Option<serde_json::Value>,
}

pub open spec fn event_kind_spec(event_type: Option<Seq<char>>) -> UserDataEventKind {
    match event_type {
        Some(e) => if e == "ORDER_TRADE_UPDATE"@ {
            UserDataEventKind::OrderTradeUpdate
        } else if e == "TRADE_LITE"@ {
            UserDataEventKind::TradeLite
        } else if e == "ACCOUNT_UPDATE"@ {
            UserDataEventKind::AccountUpdate
        } else {
            UserDataEventKind::Unknown
        },
        None => UserDataEventKind::Unknown,
    }
}

/// What a message's `data.e` says, as `serde_json` reads the message into a
/// `Value`: `Err` with the reader's error text when the message is not
/// JSON; `Ok(None)` when there is no `data` object member `e` holding a
/// string; else that string.
pub uninterp spec fn json_event_type(text: Seq<char>) -> Result<Option<Seq<char>>, Seq<char>>;

/// `serde_json::from_str::<Value>` of the message, then
/// `get("data")`, `get("e")` and `as_str`.
#[verifier::external_body]
fn event_type_field(text: &str) -> (r: Result<Option<String>, String>)
    ensures
        json_event_type(text@) == match r {
            Ok(Some(e)) => Ok::<Option<Seq<char>>, Seq<char>>(Some(e@)),
            Ok(None) => Ok::<Option<Seq<char>>, Seq<char>>(None),
            Err(m) => Err::<Option<Seq<char>>, Seq<char>>(m@),
        },
{
    match serde_json::from_str::<serde_json::Value>(text) {
        Ok(json) => Ok(json.get("data").and_then(|d| d.get("e")).and_then(|e| e.as_str()).map(
            |e| e.to_string(),
        )),
        Err(e) => Err(e.to_string()),
    }
}

/// The kind of stream a user data message is parsed as: the message must
/// be JSON (else the reader's error, after `JSON解析失败: `), and its
/// `data.e` names the kind; any other message is `Unknown`.
pub fn parse_user_data_stream(response: &str) -> (r: Result<UserDataEventKind, String>)
    ensures
        match json_event_type(response@) {
            Err(m) => r matches Err(x) && x@ == "JSON解析失败: "@ + m,
            Ok(e) => r == Ok::<UserDataEventKind, String>(event_kind_spec(e)),
        },
{
    let event_type = match event_type_field(response) {
        Ok(e) => e,
        Err(m) => return Err(concat("JSON解析失败: ", m.as_str())),
    };
    match event_type {
        Some(e) => {
            if str_eq(e.as_str(), "ORDER_TRADE_UPDATE") {
                Ok(UserDataEventKind::OrderTradeUpdate)
            } else if str_eq(e.as_str(), "TRADE_LITE") {
                Ok(UserDataEventKind::TradeLite)
            } else if str_eq(e.as_str(), "ACCOUNT_UPDATE") {
                Ok(UserDataEventKind::AccountUpdate)
            } else {
                Ok(UserDataEventKind::Unknown)
            }
        },
        None => Ok(UserDataEventKind::Unknown),
    }
}

/// A login reply that parsed and carries status 200.
pub fn is_login_success(parsed: &Result<LoginResponse, String>) -> (r: bool)
    ensures
        r == (parsed matches Ok(resp) && resp.status == 200),
{
    match parsed {
        Ok(resp) => resp.status == 200,
        Err(_) => false,
    }
}

/// The top-level `id` of a reply as `serde_json` reads it into a `Value`:
/// `None` when the reply is not JSON or its `id` is missing or not a string.
pub uninterp spec fn json_top_level_id(text: Seq<char>) -> Option<Seq<char>>;

/// `serde_json::from_str::<Value>` of the reply, then `get("id")` and
/// `as_str`.
#[verifier::external_body]
fn top_level_id(text: &str) -> (r: Option<String>)
    ensures
        json_top_level_id(text@) == match r {
            Some(id) => Some(id@),
            None => None::<Seq<char>>,
        },
{
    match serde_json::from_str::<serde_json::Value>(text) {
        Ok(json) => json.get("id").and_then(|v| v.as_str()).map(|id| id.to_string()),
        Err(_) => None,
    }
}

/// The reply's top-level `id` is the string `expected_id`.
pub fn check_response_id(response: &str, expected_id: &str) -> (r: bool)
    ensures
        r == (json_top_level_id(response@) == Some(expected_id@)),
{
    match top_level_id(response) {
        Some(id) => str_eq(id.as_str(), expected_id),
        None => false,
    }
}

/// The text signed to log on: `apiKey=<key>&timestamp=<ms>`.
pub open spec fn sign_payload(api_key: Seq<char>, timestamp: int) -> Seq<char> {
    "apiKey="@ + api_key + "&timestamp="@ + int_text(timestamp)
}

/// The hexadecimal text spells a 32-byte Ed25519 secret key.
pub open spec fn is_private_key_hex(private_key_hex: Seq<u8>) -> bool {
    hex_decode_spec(private_key_hex) matches Some(k) && k.len() == 32
}

pub open spec fn signature_text(timestamp: int, api_key: Seq<char>, private_key_hex: Seq<u8>) -> Seq<char> {
    base64_std(
        ed25519_signature(
            hex_decode_spec(private_key_hex).unwrap(),
            encode_utf8(sign_payload(api_key, timestamp)),
        ),
    )
}

/// The Base64 Ed25519 signature of `apiKey=<key>&timestamp=<ms>` under the
/// key that `private_key_hex` spells.
pub fn sign_message(timestamp: i64, api_key: &str, private_key_hex: &str) -> (r: String)
    requires
        is_private_key_hex(private_key_hex.spec_bytes()),
    ensures
        r@ == signature_text(timestamp as int, api_key@, private_key_hex.spec_bytes()),
{
    let mut message = concat("apiKey=", api_key);
    message.append("&timestamp=");
    let ts = i64_text(timestamp);
    message.append(ts.as_str());
    let key = match hex_decode(private_key_hex.as_bytes()) {
        Some(k) => k,
        None => {
            proof {
                assert(false);
            }
            Vec::new()
        },
    };
    let signature = ed25519_sign(key.as_slice(), message.as_str().as_bytes());
    base64_encode(signature.as_slice())
}

/// Whether the text spells a 32-byte secret key in hexadecimal, tested as
/// callers must before `sign_message` or `login`.
pub fn is_valid_private_key(private_key_hex: &str) -> (r: bool)
    ensures
        r == is_private_key_hex(private_key_hex.spec_bytes()),
{
    match hex_decode(private_key_hex.as_bytes()) {
        Some(k) => k.len() == 32,
        None => false,
    }
}

/// A secret key spelled in lower-case hexadecimal, two digits a byte, is a
/// key that `sign_message` accepts, and it signs with that very secret.
pub proof fn law_hex_key_signs(secret: Seq<u8>)
    requires
        secret.len() == 32,
    ensures
        is_private_key_hex(encode_utf8(hex_lower(secret))),
        hex_decode_spec(encode_utf8(hex_lower(secret))) == Some(secret),
{
    law_hex_round_trip(secret);
}

pub open spec fn auth_request_text(
    id: Seq<char>,
    api_key: Seq<char>,
    signature: Seq<char>,
    timestamp: int,
) -> Seq<char> {
    "{\"id\":"@ + json_quote(id) + ",\"method\":\"session.logon\",\"params\":{\"apiKey\":"@
        + json_quote(api_key) + ",\"signature\":"@ + json_quote(signature) + ",\"timestamp\":"@
        + int_text(timestamp) + "}}"@
}

/// The `session.logon` request.
pub fn create_auth_request(id: &str, api_key: &str, signature: &str, timestamp: i64) -> (r: String)
    ensures
        r@ == auth_request_text(id@, api_key@, signature@, timestamp as int),
{
    let mut s = concat("{\"id\":", json_string(id).as_str());
    s.append(",\"method\":\"session.logon\",\"params\":{\"apiKey\":");
    s.append(json_string(api_key).as_str());
    s.append(",\"signature\":");
    s.append(json_string(signature).as_str());
    s.append(",\"timestamp\":");
    s.append(i64_text(timestamp).as_str());
    s.append("}}");
    s
}

/// The signed `session.logon` request.
pub fn login(id: &str, api_key: &str, private_key: &str, timestamp: i64) -> (r: String)
    requires
        is_private_key_hex(private_key.spec_bytes()),
    ensures
        r@ == auth_request_text(
            id@,
            api_key@,
            signature_text(timestamp as int, api_key@, private_key.spec_bytes()),
            timestamp as int,
        ),
{
    let signature = sign_message(timestamp, api_key, private_key);
    create_auth_request(id, api_key, signature.as_str(), timestamp)
}

/// A request that carries only the API key.
pub open spec fn api_key_request_text(id: Seq<char>, method: Seq<char>, api_key: Seq<char>) -> Seq<
    char,
> {
    "{\"id\":"@ + json_quote(id) + ",\"method\":"@ + json_quote(method) + ",\"params\":{\"apiKey\":"@
        + json_quote(api_key) + "}}"@
}

fn api_key_request(id: &str, method: &str, api_key: &str) -> (r: String)
    ensures
        r@ == api_key_request_text(id@, method@, api_key@),
{
    let mut s = concat("{\"id\":", json_string(id).as_str());
    s.append(",\"method\":");
    s.append(json_string(method).as_str());
    s.append(",\"params\":{\"apiKey\":");
    s.append(json_string(api_key).as_str());
    s.append("}}");
    s
}

/// The `userDataStream.start` request.
pub fn create_user_data_stream_request(id: &str, api_key: &str) -> (r: String)
    ensures
        r@ == api_key_request_text(id@, "userDataStream.start"@, api_key@),
{
    api_key_request(id, "userDataStream.start", api_key)
}

/// The `userDataStream.ping` request, which keeps the listen key alive.
pub fn create_ping_user_data_stream_request(id: &str, api_key: &str) -> (r: String)
    ensures
        r@ == api_key_request_text(id@, "userDataStream.ping"@, api_key@),
{
    api_key_request(id, "userDataStream.ping", api_key)
}

pub open spec fn account_balance_request_text(
    id: Seq<char>,
    api_key: Seq<char>,
    signature: Seq<char>,
    timestamp: int,
) -> Seq<char> {
    "{\"id\":"@ + json_quote(id) + ",\"method\":\"v2/account.balance\",\"params\":{\"apiKey\":"@
        + json_quote(api_key) + ",\"signature\":"@ + json_quote(signature) + ",\"timestamp\":"@
        + int_text(timestamp) + "}}"@
}

/// The signed `v2/account.balance` request.
pub fn create_account_balance_request(id: &str, api_key: &str, private_key: &str, timestamp: i64) -> (r: String)
    requires
        is_private_key_hex(private_key.spec_bytes()),
    ensures
        r@ == account_balance_request_text(
            id@,
            api_key@,
            signature_text(timestamp as int, api_key@, private_key.spec_bytes()),
            timestamp as int,
        ),
{
    let signature = sign_message(timestamp, api_key, private_key);
    let mut s = concat("{\"id\":", json_string(id).as_str());
    s.append(",\"method\":\"v2/account.balance\",\"params\":{\"apiKey\":");
    s.append(json_string(api_key).as_str());
    s.append(",\"signature\":");
    s.append(json_string(signature.as_str()).as_str());
    s.append(",\"timestamp\":");
    s.append(i64_text(timestamp).as_str());
    s.append("}}");
    s
}

/// The JSON array of the given strings.
pub open spec fn json_string_list(items: Seq<Seq<char>>) -> Seq<char>
    decreases items.len(),
{
    if items.len() == 0 {
        Seq::empty()
    } else if items.len() == 1 {
        json_quote(items[0])
    } else {
        json_string_list(items.drop_last()) + seq![','] + json_quote(items.last())
    }
}

pub open spec fn subscribe_request_text(id: nat, streams: Seq<Seq<char>>) -> Seq<char> {
    "{\"id\":"@ + nat_text(id) + ",\"method\":\"SUBSCRIBE\",\"params\":["@ + json_string_list(
        streams,
    ) + "]}"@
}

pub open spec fn stream_names(streams: Seq<&str>) -> Seq<Seq<char>> {
    streams.map_values(|s: &str| s@)
}

/// The `SUBSCRIBE` request for the given streams.
pub fn create_market_subscribe_request(id: u64, streams: Vec<&str>) -> (r: String)
    ensures
        r@ == subscribe_request_text(id as nat, stream_names(streams@)),
{
    let mut s = concat("{\"id\":", u64_text(id).as_str());
    s.append(",\"method\":\"SUBSCRIBE\",\"params\":[");
    let ghost prefix = s@;
    let mut i: usize = 0;
    while i < streams.len()
        invariant
            i <= streams.len(),
            s@ == prefix + json_string_list(stream_names(streams@.subrange(0, i as int))),
        decreases streams.len() - i,
    {
        if i > 0 {
            s.push(',');
        }
        s.append(json_string(streams[i]).as_str());
        proof {
            let before = stream_names(streams@.subrange(0, i as int));
            let after = stream_names(streams@.subrange(0, i + 1));
            assert(after.drop_last() =~= before);
            assert(after.last() == streams@[i as int]@);
            if i == 0 {
                assert(before =~= Seq::<Seq<char>>::empty());
            }
        }
        i = i + 1;
        proof {
            assert(s@ =~= prefix + json_string_list(stream_names(streams@.subrange(0, i as int))));
        }
    }
    s.append("]}");
    assert(streams@.subrange(0, streams.len() as int) =~= streams@);
    s
}

/// One optional `"key":"value",` member of the order parameters.
pub open spec fn optional_member(key: Seq<char>, value: Option<Seq<char>>) -> Seq<char> {
    match value {
        Some(v) => json_quote(key) + seq![':'] + json_quote(v) + seq![','],
        None => Seq::empty(),
    }
}

pub open spec fn opt_view(value: Option<&str>) -> Option<Seq<char>> {
    match value {
        Some(v) => Some(v@),
        None => None,
    }
}

pub open spec fn order_request_text(
    id: Seq<char>,
    symbol: Seq<char>,
    side: Seq<char>,
    order_type: Seq<char>,
    quantity: Seq<char>,
    price: Option<Seq<char>>,
    time_in_force: Option<Seq<char>>,
    position_side: Option<Seq<char>>,
    new_client_order_id: Option<Seq<char>>,
    timestamp: int,
) -> Seq<char> {
    "{\"id\":"@ + json_quote(id) + ",\"method\":\"order.place\",\"params\":{"@ + optional_member(
        "newClientOrderId"@,
        new_client_order_id,
    ) + optional_member("positionSide"@, position_side) + match price {
        Some(p) => "\"price\":"@ + p + seq![','],
        None => Seq::empty(),
    } + "\"quantity\":"@ + quantity + ",\"side\":"@ + json_quote(side) + ",\"symbol\":"@
        + json_quote(symbol) + seq![','] + optional_member("timeInForce"@, time_in_force)
        + "\"timestamp\":"@ + int_text(timestamp) + ",\"type\":"@ + json_quote(order_type) + "}}"@
}

fn append_optional_member(s: &mut String, key: &str, value: Option<&str>)
    ensures
        final(s)@ == old(s)@ + optional_member(key@, opt_view(value)),
{
    match value {
        Some(v) => {
            s.append(json_string(key).as_str());
            s.push(':');
            s.append(json_string(v).as_str());
            s.push(',');
        },
        None => {
            assert(old(s)@ + Seq::<char>::empty() =~= old(s)@);
        },
    }
}

/// The `order.place` request.  `quantity` and `price` are the JSON number
/// texts of the order's quantity and price; the members come in the order
/// `serde_json` writes an object's keys (sorted).
pub fn create_order_request(
    id: &str,
    symbol: &str,
    side: &str,
    order_type: &str,
    quantity: &str,
    price: Option<&str>,
    time_in_force: Option<&str>,
    position_side: Option<&str>,
    new_client_order_id: Option<&str>,
    timestamp: i64,
) -> (r: String)
    ensures
        r@ == order_request_text(
            id@,
            symbol@,
            side@,
            order_type@,
            quantity@,
            opt_view(price),
            opt_view(time_in_force),
            opt_view(position_side),
            opt_view(new_client_order_id),
            timestamp as int,
        ),
{
    let mut s = concat("{\"id\":", json_string(id).as_str());
    s.append(",\"method\":\"order.place\",\"params\":{");
    append_optional_member(&mut s, "newClientOrderId", new_client_order_id);
    append_optional_member(&mut s, "positionSide", position_side);
    match price {
        Some(p) => {
            s.append("\"price\":");
            s.append(p);
            s.push(',');
        },
        None => {},
    }
    s.append("\"quantity\":");
    s.append(quantity);
    s.append(",\"side\":");
    s.append(json_string(side).as_str());
    s.append(",\"symbol\":");
    s.append(json_string(symbol).as_str());
    s.push(',');
    append_optional_member(&mut s, "timeInForce", time_in_force);
    s.append("\"timestamp\":");
    s.append(i64_text(timestamp).as_str());
    s.append(",\"type\":");
    s.append(json_string(order_type).as_str());
    s.append("}}");
    assert(s@ =~= order_request_text(
        id@,
        symbol@,
        side@,
        order_type@,
        quantity@,
        opt_view(price),
        opt_view(time_in_force),
        opt_view(position_side),
        opt_view(new_client_order_id),
        timestamp as int,
    ));
    s
}

/// The listen key a `userDataStream.start` or `userDataStream.ping` reply
/// carries when it succeeded (status 200).
pub fn listen_key_of(reply: &UserDataStreamResponse) -> (r: Option<String>)
    ensures
        r is Some <==> reply.status == 200 && reply.result is Some,
        r matches Some(k) ==> k@ == reply.result.unwrap().listenKey@,
{
    if reply.status != 200 {
        return None;
    }
    match &reply.result {
        Some(res) => Some(res.listenKey.as_str().to_owned()),
        None => None,
    }
}

} // verus!
