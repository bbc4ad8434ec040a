//! Asking a chat-completion model for a buy or sell signal on recent
//! klines: the request, the checks on the reply, and reading the signal.
use crate::codec::{json_quote, json_string};
use crate::decimal::decimal_text;
use crate::rest_api::{Kline, KlineError, KlineInterval, KlineRequest};
use crate::text::{
    chars_of, concat, contains, has_substring, i64_text, int_text, nat_text, string_from_chars, trim,
    trim_spec, u64_text,
};
use crate::utils::api_response_check;
use vstd::prelude::*;

verus! {

/// The chat-completion service that the kline analysis asks.
pub const DEEPSEEK_BASE_URL: &'static str = "https://api.deepseek.com";

/// The model that the kline analysis asks.
pub const KLINE_ANALYSIS_MODEL: &'static str = "deepseek-reasoner";

/// One message of a chat.
#[derive(Debug)]
pub struct ChatMessage {
    pub role: String,
    pub content: String,
    pub reasoning_content: Option<String>,
}

#[derive(Debug)]
pub struct ChatChoice {
    pub index: u32,
    pub message: ChatMessage,
    pub finish_reason: Option<String>,
}

#[derive(Debug)]
pub struct Usage {
    pub prompt_tokens: u32,
    pub completion_tokens: u32,
    pub total_tokens: u32,
}

/// A chat-completion reply.
#[derive(Debug)]
pub struct ChatResponse {
    pub id: String,
    pub object: String,
    pub created: i64,
    pub model: String,
    pub choices: Vec<ChatChoice>,
    pub usage: Usage,
}

/// Why a chat completion failed.
#[derive(Debug)]
pub enum ChatError {
    RequestFailed(String),
    ParseFailed(String),
    ApiError(String),
}

pub open spec fn chat_error_text(e: ChatError) -> Seq<char> {
    match e {
        ChatError::RequestFailed(m) => "RequestFailed: "@ + m@,
        ChatError::ParseFailed(m) => "ParseFailed: "@ + m@,
        ChatError::ApiError(m) => "ApiError: "@ + m@,
    }
}

impl ChatError {
    /// The message the error displays.
    pub fn message(&self) -> (r: String)
        ensures
            r@ == chat_error_text(*self),
    {
        match self {
            ChatError::RequestFailed(m) => concat("RequestFailed: ", m.as_str()),
            ChatError::ParseFailed(m) => concat("ParseFailed: ", m.as_str()),
            ChatError::ApiError(m) => concat("ApiError: ", m.as_str()),
        }
    }
}

/// The model's verdict.
#[derive(Debug, Clone, Copy, PartialEq, Eq, Structural)]
pub enum TradeSignal {
    Buy,
    Sell,
}

/// Why no signal could be had.
#[derive(Debug)]
pub enum SignalError {
    KlineError(String),
    ChatError(ChatError),
    InvalidSignal(String),
}

impl SignalError {
    /// The message the error displays.
    pub fn message(&self) -> (r: String)
        ensures
            r@ == match self {
                SignalError::KlineError(m) => "KlineError: "@ + m@,
                SignalError::ChatError(e) => "ChatError: "@ + chat_error_text(*e),
                SignalError::InvalidSignal(m) => "InvalidSignal: "@ + m@,
            },
    {
        match self {
            SignalError::KlineError(m) => concat("KlineError: ", m.as_str()),
            SignalError::ChatError(e) => concat("ChatError: ", e.message().as_str()),
            SignalError::InvalidSignal(m) => concat("InvalidSignal: ", m.as_str()),
        }
    }
}

/// A kline failure as a signal failure: its displayed message.
pub fn kline_signal_error(e: &KlineError) -> (r: SignalError)
    ensures
        r matches SignalError::KlineError(m) && m@ == match e {
            KlineError::RequestFailed(x) => "RequestFailed: "@ + x@,
            KlineError::ParseFailed(x) => "ParseFailed: "@ + x@,
        },
{
    SignalError::KlineError(e.message())
}

/// The text without its trailing slashes, as `trim_end_matches('/')`.
pub open spec fn trim_end_slashes(s: Seq<char>) -> Seq<char>
    decreases s.len(),
{
    if s.len() > 0 && s.last() == '/' {
        trim_end_slashes(s.drop_last())
    } else {
        s
    }
}

/// The chat-completions endpoint under a base URL.
pub fn chat_completions_url(base_url: &str) -> (r: String)
    ensures
        r@ == trim_end_slashes(base_url@) + "/chat/completions"@,
{
    let cs = chars_of(base_url);
    let mut end: usize = cs.len();
    assert(cs@.subrange(0, end as int) =~= base_url@);
    while end > 0 && cs[end - 1] == '/'
        invariant
            end <= cs.len(),
            cs@ == base_url@,
            trim_end_slashes(cs@.subrange(0, end as int)) == trim_end_slashes(base_url@),
        decreases end,
    {
        proof {
            assert(cs@.subrange(0, end as int).drop_last() =~= cs@.subrange(0, end - 1));
        }
        end = end - 1;
    }
    let mut kept: Vec<char> = Vec::new();
    let mut i: usize = 0;
    while i < end
        invariant
            i <= end <= cs.len(),
            kept@ == cs@.subrange(0, i as int),
        decreases end - i,
    {
        kept.push(cs[i]);
        i = i + 1;
        proof {
            assert(kept@ =~= cs@.subrange(0, i as int));
        }
    }
    proof {
        assert(cs@.subrange(0, 0) =~= Seq::<char>::empty());
        if end > 0 {
            assert(cs@.subrange(0, end as int).last() == cs@[end - 1]);
        }
    }
    let mut url = string_from_chars(&kept);
    url.append("/chat/completions");
    url
}

pub open spec fn opt_text(v: Option<String>) -> Option<Seq<char>> {
    match v {
        Some(s) => Some(s@),
        None => None,
    }
}

/// A message as `serde_json` writes it inside the request body: the
/// members in key order, a missing reasoning as `null`.
pub open spec fn message_json(m: ChatMessage) -> Seq<char> {
    "{\"content\":"@ + json_quote(m.content@) + ",\"reasoning_content\":"@ + match opt_text(
        m.reasoning_content,
    ) {
        Some(r) => json_quote(r),
        None => "null"@,
    } + ",\"role\":"@ + json_quote(m.role@) + "}"@
}

pub open spec fn messages_json(ms: Seq<ChatMessage>) -> Seq<char>
    decreases ms.len(),
{
    if ms.len() == 0 {
        Seq::empty()
    } else if ms.len() == 1 {
        message_json(ms[0])
    } else {
        messages_json(ms.drop_last()) + seq![','] + message_json(ms.last())
    }
}

/// The chat-completion request body: `max_tokens` (when given),
/// `messages`, `model`, `stream` and `temperature` (when given), in that
/// key order.  `temperature` is the JSON number text of the temperature.
pub open spec fn chat_body_text(
    model: Seq<char>,
    messages: Seq<ChatMessage>,
    stream: bool,
    temperature: Option<Seq<char>>,
    max_tokens: Option<u32>,
) -> Seq<char> {
    "{"@ + match max_tokens {
        Some(n) => "\"max_tokens\":"@ + nat_text(n as nat) + ","@,
        None => Seq::empty(),
    } + "\"messages\":["@ + messages_json(messages) + "],\"model\":"@ + json_quote(model)
        + ",\"stream\":"@ + (if stream {
        "true"@
    } else {
        "false"@
    }) + match temperature {
        Some(t) => ",\"temperature\":"@ + t,
        None => Seq::empty(),
    } + "}"@
}

fn append_message_json(s: &mut String, m: &ChatMessage)
    ensures
        final(s)@ == old(s)@ + message_json(*m),
{
    s.append("{\"content\":");
    s.append(json_string(m.content.as_str()).as_str());
    s.append(",\"reasoning_content\":");
    match &m.reasoning_content {
        Some(r) => s.append(json_string(r.as_str()).as_str()),
        None => s.append("null"),
    }
    s.append(",\"role\":");
    s.append(json_string(m.role.as_str()).as_str());
    s.append("}");
    proof {
        assert(s@ =~= old(s)@ + message_json(*m));
    }
}

/// The body of a chat-completion request.
pub fn chat_request_body(
    model: &str,
    messages: &Vec<ChatMessage>,
    stream: bool,
    temperature: Option<&str>,
    max_tokens: Option<u32>,
) -> (r: String)
    ensures
        r@ == chat_body_text(
            model@,
            messages@,
            stream,
            match temperature {
                Some(t) => Some(t@),
                None => None,
            },
            max_tokens,
        ),
{
    let mut s = String::new();
    s.append("{");
    if let Some(n) = max_tokens {
        s.append("\"max_tokens\":");
        s.append(u64_text(n as u64).as_str());
        s.append(",");
    }
    s.append("\"messages\":[");
    let ghost prefix = s@;
    let mut i: usize = 0;
    while i < messages.len()
        invariant
            i <= messages.len(),
            s@ == prefix + messages_json(messages@.subrange(0, i as int)),
        decreases messages.len() - i,
    {
        if i > 0 {
            s.push(',');
        }
        append_message_json(&mut s, &messages[i]);
        proof {
            let before = messages@.subrange(0, i as int);
            let after = messages@.subrange(0, i + 1);
            assert(after.drop_last() =~= before);
            if i == 0 {
                assert(before =~= Seq::<ChatMessage>::empty());
            }
        }
        i = i + 1;
        proof {
            assert(s@ =~= prefix + messages_json(messages@.subrange(0, i as int)));
        }
    }
    s.append("],\"model\":");
    s.append(json_string(model).as_str());
    s.append(",\"stream\":");
    if stream {
        s.append("true");
    } else {
        s.append("false");
    }
    if let Some(t) = temperature {
        s.append(",\"temperature\":");
        s.append(t);
    }
    s.append("}");
    proof {
        assert(messages@.subrange(0, messages@.len() as int) =~= messages@);
        assert(s@ =~= chat_body_text(
            model@,
            messages@,
            stream,
            match temperature {
                Some(t) => Some(t@),
                None => None,
            },
            max_tokens,
        ));
    }
    s
}

/// What a chat-completion reply must pass before its body is read: a
/// failed status is an API error with the status and body, an empty body a
/// parse failure.
pub fn check_chat_response(success: bool, status: &str, body: &str) -> (r: Result<(), ChatError>)
    ensures
        match api_response_check(success, status@, body@) {
            Ok(()) => r is Ok,
            Err(m) => if !success {
                r matches Err(ChatError::ApiError(x)) && x@ == m
            } else {
                r matches Err(ChatError::ParseFailed(x)) && x@ == m
            },
        },
{
    match crate::utils::check_api_response(success, status, body) {
        Ok(()) => Ok(()),
        Err(m) => if !success {
            Err(ChatError::ApiError(m))
        } else {
            Err(ChatError::ParseFailed(m))
        },
    }
}

/// The failure reported when the reply body does not read as a chat
/// completion: the reader's error and the body.
pub fn chat_parse_error(error: &str, body: &str) -> (r: ChatError)
    ensures
        r matches ChatError::ParseFailed(m) && m@ == "Failed to parse response: "@ + error@
            + " - Body: "@ + body@,
{
    let mut m = concat("Failed to parse response: ", error);
    m.append(" - Body: ");
    m.append(body);
    ChatError::ParseFailed(m)
}

/// The klines the analysis reads: the last 96 fifteen-minute klines.
pub fn analysis_kline_request(symbol: &str) -> (r: KlineRequest)
    ensures
        r.symbol@ == symbol@,
        r.interval == KlineInterval::M15,
        r.start_time is None,
        r.end_time is None,
        r.limit == Some(96u32),
{
    KlineRequest {
        symbol: symbol.to_owned(),
        interval: KlineInterval::M15,
        start_time: None,
        end_time: None,
        limit: Some(96),
    }
}

/// One kline as a line of the prompt.
pub open spec fn kline_line(k: Kline) -> Seq<char> {
    "时间:"@ + int_text(k.open_time as int) + ", 开:"@ + decimal_text(k.open@) + ", 高:"@
        + decimal_text(k.high@) + ", 低:"@ + decimal_text(k.low@) + ", 收:"@ + decimal_text(k.close@)
        + ", 量:"@ + decimal_text(k.volume@) + ", 引用量:"@ + decimal_text(k.quote_volume@) + "\n"@
}

pub open spec fn klines_text(ks: Seq<Kline>) -> Seq<char>
    decreases ks.len(),
{
    if ks.len() == 0 {
        Seq::empty()
    } else {
        klines_text(ks.drop_last()) + kline_line(ks.last())
    }
}

fn append_kline_line(s: &mut String, k: &Kline)
    ensures
        final(s)@ == old(s)@ + kline_line(*k),
{
    s.append("时间:");
    s.append(i64_text(k.open_time).as_str());
    s.append(", 开:");
    s.append(k.open.to_text().as_str());
    s.append(", 高:");
    s.append(k.high.to_text().as_str());
    s.append(", 低:");
    s.append(k.low.to_text().as_str());
    s.append(", 收:");
    s.append(k.close.to_text().as_str());
    s.append(", 量:");
    s.append(k.volume.to_text().as_str());
    s.append(", 引用量:");
    s.append(k.quote_volume.to_text().as_str());
    s.append("\n");
    proof {
        assert(s@ =~= old(s)@ + kline_line(*k));
    }
}

/// The klines as the prompt lists them, one line each.
pub fn kline_prompt_text(klines: &Vec<Kline>) -> (r: String)
    ensures
        r@ == klines_text(klines@),
{
    let mut s = String::new();
    let mut i: usize = 0;
    while i < klines.len()
        invariant
            i <= klines.len(),
            s@ == klines_text(klines@.subrange(0, i as int)),
        decreases klines.len() - i,
    {
        append_kline_line(&mut s, &klines[i]);
        proof {
            assert(klines@.subrange(0, i + 1).drop_last() =~= klines@.subrange(0, i as int));
        }
        i = i + 1;
    }
    proof {
        assert(klines@.subrange(0, klines@.len() as int) =~= klines@);
    }
    s
}

pub open spec fn system_prompt_text(symbol: Seq<char>) -> Seq<char> {
    "你是一个专业的加密货币K线数据分析专家。你将收到"@ + symbol
        + "交易对最近96条15分钟K线数据。请基于技术分析（包括趋势、支撑阻力、成交量、价格形态等）判断当前市场走势。你只能回复一个字：买 或 卖。不要回复任何其他内容，不要解释原因，只回复买或卖。"@
}

pub open spec fn user_prompt_text(symbol: Seq<char>, klines: Seq<Kline>) -> Seq<char> {
    "以下是"@ + symbol + "最近96条15分钟K线数据：\n\n"@ + klines_text(klines)
}

/// The two messages of the analysis: the system prompt that asks for a
/// single 买 or 卖, and the klines.
pub fn analysis_messages(symbol: &str, klines: &Vec<Kline>) -> (r: Vec<ChatMessage>)
    ensures
        r@.len() == 2,
        r@[0].role@ == "system"@,
        r@[0].content@ == system_prompt_text(symbol@),
        r@[0].reasoning_content is None,
        r@[1].role@ == "user"@,
        r@[1].content@ == user_prompt_text(symbol@, klines@),
        r@[1].reasoning_content is None,
{
    let mut system = concat("你是一个专业的加密货币K线数据分析专家。你将收到", symbol);
    system.append(
        "交易对最近96条15分钟K线数据。请基于技术分析（包括趋势、支撑阻力、成交量、价格形态等）判断当前市场走势。你只能回复一个字：买 或 卖。不要回复任何其他内容，不要解释原因，只回复买或卖。",
    );
    let mut user = concat("以下是", symbol);
    user.append("最近96条15分钟K线数据：\n\n");
    user.append(kline_prompt_text(klines).as_str());
    let mut v: Vec<ChatMessage> = Vec::new();
    v.push(ChatMessage { role: "system".to_owned(), content: system, reasoning_content: None });
    v.push(ChatMessage { role: "user".to_owned(), content: user, reasoning_content: None });
    v
}

/// The text the signal is read from: the first choice's trimmed content,
/// or its trimmed reasoning when the content is blank; `None` without a
/// choice.
pub open spec fn signal_text(resp: ChatResponse) -> Option<Seq<char>> {
    if resp.choices@.len() == 0 {
        None
    } else {
        let m = resp.choices@[0].message;
        let c = trim_spec(m.content@);
        if c.len() == 0 {
            Some(
                trim_spec(
                    match opt_text(m.reasoning_content) {
                        Some(r) => r,
                        None => Seq::empty(),
                    },
                ),
            )
        } else {
            Some(c)
        }
    }
}

/// The signal a reply gives: 买 anywhere in the text is a buy, else 卖 a
/// sell; anything else is an invalid signal with this text.
pub open spec fn signal_spec(resp: ChatResponse) -> Result<TradeSignal, Seq<char>> {
    match signal_text(resp) {
        None => Err("No choices in response"@),
        Some(c) => if has_substring(c, "买"@) {
            Ok(TradeSignal::Buy)
        } else if has_substring(c, "卖"@) {
            Ok(TradeSignal::Sell)
        } else {
            Err("模型返回了无效信号: '"@ + c + "', 期望 '买' 或 '卖'"@)
        },
    }
}

/// The answer is the content: when the first choice's content is not
/// blank, the signal is read from that content, trimmed, and two replies
/// with the same such content give the same signal whatever reasoning
/// comes with them.
pub proof fn law_content_decides_signal(r1: ChatResponse, r2: ChatResponse)
    requires
        r1.choices@.len() > 0,
        r2.choices@.len() > 0,
        r1.choices@[0].message.content@ == r2.choices@[0].message.content@,
        trim_spec(r1.choices@[0].message.content@).len() > 0,
    ensures
        signal_text(r1) == Some(trim_spec(r1.choices@[0].message.content@)),
        signal_spec(r1) == signal_spec(r2),
{
    let c = trim_spec(r1.choices@[0].message.content@);
    assert(signal_text(r1) == Some(c));
    assert(signal_text(r2) == Some(c));
    lemma_signal_of_text(r1, r2);
}

/// Two replies read from the same text give the same signal.
proof fn lemma_signal_of_text(r1: ChatResponse, r2: ChatResponse)
    requires
        signal_text(r1) == signal_text(r2),
    ensures
        signal_spec(r1) == signal_spec(r2),
{
}

/// Reads the trade signal from a chat-completion reply.
pub fn signal_from_response(resp: &ChatResponse) -> (r: Result<TradeSignal, SignalError>)
    ensures
        match signal_spec(*resp) {
            Ok(s) => r == Ok::<TradeSignal, SignalError>(s),
            Err(m) => r matches Err(SignalError::InvalidSignal(x)) && x@ == m,
        },
{
    if resp.choices.len() == 0 {
        return Err(SignalError::InvalidSignal("No choices in response".to_owned()));
    }
    let m = &resp.choices[0].message;
    let c = trim(m.content.as_str());
    let content = if c.as_str().is_empty() {
        match &m.reasoning_content {
            Some(r) => trim(r.as_str()),
            None => trim(""),
        }
    } else {
        c
    };
    proof {
        reveal_strlit("");
    }
    if contains(content.as_str(), "买") {
        Ok(TradeSignal::Buy)
    } else if contains(content.as_str(), "卖") {
        Ok(TradeSignal::Sell)
    } else {
        let mut msg = concat("模型返回了无效信号: '", content.as_str());
        msg.append("', 期望 '买' 或 '卖'");
        Err(SignalError::InvalidSignal(msg))
    }
}

} // verus!
