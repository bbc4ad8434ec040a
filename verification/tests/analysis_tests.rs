use binance_bot::chat_api::{
    analysis_kline_request, analysis_messages, chat_completions_url, chat_parse_error,
    chat_request_body, check_chat_response, kline_prompt_text, kline_signal_error,
    signal_from_response, ChatChoice, ChatError, ChatMessage, ChatResponse, SignalError, TradeSignal,
    Usage,
};
use binance_bot::decimal::Dec;
use binance_bot::logger::{filter_accepts, log_plan, LogFilter, LogLevel, LogPlan};
use binance_bot::rest_api::{
    kline_query, klines_from_reply, klines_url, parse_kline_rows, JsonCell, Kline, KlineError,
    KlineInterval, KlineRequest,
};

const KLINE_BODY: &str = r#"[[1700000000000,"2000.10","2010.00","1995.5","2005.25","12.345",1700000899999,"24750.1",42,"6.1","12230.5","0"]]"#;

fn response_with(content: &str, reasoning: Option<&str>) -> ChatResponse {
    ChatResponse {
        id: "r1".to_string(),
        object: "chat.completion".to_string(),
        created: 1,
        model: "deepseek-reasoner".to_string(),
        choices: vec![ChatChoice {
            index: 0,
            message: ChatMessage {
                role: "assistant".to_string(),
                content: content.to_string(),
                reasoning_content: reasoning.map(|r| r.to_string()),
            },
            finish_reason: Some("stop".to_string()),
        }],
        usage: Usage { prompt_tokens: 1, completion_tokens: 1, total_tokens: 2 },
    }
}

#[test]
fn interval_names() {
    let all = [
        (KlineInterval::M1, "1m"),
        (KlineInterval::M3, "3m"),
        (KlineInterval::M5, "5m"),
        (KlineInterval::M15, "15m"),
        (KlineInterval::M30, "30m"),
        (KlineInterval::H1, "1h"),
        (KlineInterval::H2, "2h"),
        (KlineInterval::H4, "4h"),
        (KlineInterval::H6, "6h"),
        (KlineInterval::H8, "8h"),
        (KlineInterval::H12, "12h"),
        (KlineInterval::D1, "1d"),
        (KlineInterval::D3, "3d"),
        (KlineInterval::W1, "1w"),
        (KlineInterval::MO1, "1M"),
    ];
    for (interval, name) in all {
        assert_eq!(interval.as_str(), name);
    }
}

#[test]
fn kline_query_parameters() {
    let req = KlineRequest {
        symbol: "ETHUSDC".to_string(),
        interval: KlineInterval::M1,
        start_time: Some(-3),
        end_time: None,
        limit: Some(5),
    };
    let q = kline_query(&req);
    let expected: Vec<(String, String)> = vec![
        ("symbol".into(), "ETHUSDC".into()),
        ("interval".into(), "1m".into()),
        ("startTime".into(), "-3".into()),
        ("limit".into(), "5".into()),
    ];
    assert_eq!(q, expected);
    assert_eq!(klines_url("https://fapi.binance.com"), "https://fapi.binance.com/fapi/v1/klines");
}

#[test]
fn test_get_klines() {
    let req = analysis_kline_request("ETHUSDC");
    assert_eq!(req.symbol, "ETHUSDC");
    assert_eq!(req.interval, KlineInterval::M15);
    assert_eq!(req.limit, Some(96));
    let result = klines_from_reply(true, "200 OK", KLINE_BODY);
    assert!(result.is_ok(), "klines_from_reply failed: {:?}", result);
    let klines = result.unwrap();
    assert!(!klines.is_empty(), "klines should not be empty");
    assert!(klines.len() <= 5, "klines length should be <= limit");
    let k = &klines[0];
    assert_eq!(k.open_time, 1700000000000);
    assert_eq!(k.open.to_text(), "2000.10");
    assert_eq!(k.high.to_text(), "2010.00");
    assert_eq!(k.low.to_text(), "1995.5");
    assert_eq!(k.close.to_text(), "2005.25");
    assert_eq!(k.volume.to_text(), "12.345");
    assert_eq!(k.close_time, 1700000899999);
    assert_eq!(k.quote_volume.to_text(), "24750.1");
    assert_eq!(k.trades, 42);
    assert_eq!(k.taker_buy_base_volume.to_text(), "6.1");
    assert_eq!(k.taker_buy_quote_volume.to_text(), "12230.5");
}

#[test]
fn kline_reply_failures() {
    match klines_from_reply(false, "500 Internal Server Error", "down") {
        Err(KlineError::RequestFailed(m)) => {
            assert_eq!(m, "API request failed with status 500 Internal Server Error: down")
        }
        other => panic!("unexpected {:?}", other),
    }
    match klines_from_reply(true, "200 OK", "") {
        Err(KlineError::ParseFailed(m)) => assert_eq!(m, "API returned empty response"),
        other => panic!("unexpected {:?}", other),
    }
    assert!(matches!(klines_from_reply(true, "200 OK", "{\"code\":1}"), Err(KlineError::ParseFailed(_))));
    match klines_from_reply(true, "200 OK", "[[1,\"2\"]]") {
        Err(KlineError::ParseFailed(m)) => assert_eq!(m, "Unexpected kline array length: 2"),
        other => panic!("unexpected {:?}", other),
    }
    let bad_open = r#"[[1,"x","1","1","1","1",2,"1",3,"1","1"]]"#;
    match klines_from_reply(true, "200 OK", bad_open) {
        Err(e) => assert!(e.message().starts_with("ParseFailed: Failed to parse open: ")),
        other => panic!("unexpected {:?}", other),
    }
    let bad_time = r#"[["1","1","1","1","1","1",2,"1",3,"1","1"]]"#;
    match klines_from_reply(true, "200 OK", bad_time) {
        Err(e) => assert_eq!(e.message(), "ParseFailed: Failed to parse open_time"),
        other => panic!("unexpected {:?}", other),
    }
    // A column that is not a string reads as "0".
    let numbers = r#"[[1,2,"1","1","1","1",2,"1",3,"1","1"]]"#;
    assert_eq!(klines_from_reply(true, "200 OK", numbers).unwrap()[0].open.to_text(), "0");
}

#[test]
fn kline_rows_stop_at_the_first_failure() {
    let cell = |int: Option<i64>, text: Option<&str>| JsonCell { int, text: text.map(|t| t.to_string()) };
    let good: Vec<JsonCell> = (0..11)
        .map(|i| if i == 0 || i == 6 || i == 8 { cell(Some(1), None) } else { cell(None, Some("1.5")) })
        .collect();
    let mut bad_trades: Vec<JsonCell> = (0..11)
        .map(|i| if i == 0 || i == 6 { cell(Some(1), None) } else { cell(None, Some("1.5")) })
        .collect();
    bad_trades[8] = cell(None, Some("7"));
    let short = vec![cell(Some(1), None)];
    match parse_kline_rows(&vec![good, bad_trades, short]) {
        Err(KlineError::ParseFailed(m)) => assert_eq!(m, "Failed to parse trades"),
        other => panic!("unexpected {:?}", other),
    }
    assert_eq!(parse_kline_rows(&vec![]).unwrap().len(), 0);
}

#[test]
fn chat_url_and_checks() {
    assert_eq!(chat_completions_url("https://api.deepseek.com"), "https://api.deepseek.com/chat/completions");
    assert_eq!(chat_completions_url("https://api.deepseek.com//"), "https://api.deepseek.com/chat/completions");
    assert_eq!(chat_completions_url(""), "/chat/completions");
    assert!(check_chat_response(true, "200 OK", "{}").is_ok());
    match check_chat_response(false, "401 Unauthorized", "no key") {
        Err(ChatError::ApiError(m)) => assert_eq!(m, "API request failed with status 401 Unauthorized: no key"),
        other => panic!("unexpected {:?}", other),
    }
    match check_chat_response(true, "200 OK", "") {
        Err(ChatError::ParseFailed(m)) => assert_eq!(m, "API returned empty response"),
        other => panic!("unexpected {:?}", other),
    }
    assert_eq!(
        chat_parse_error("EOF", "{").message(),
        "ParseFailed: Failed to parse response: EOF - Body: {"
    );
    assert_eq!(ChatError::RequestFailed("x".into()).message(), "RequestFailed: x");
}

#[test]
fn test_chat_completion_deepseek() {
    let messages = vec![
        ChatMessage { role: "system".to_string(), content: "You are a helpful assistant.".to_string(), reasoning_content: None },
        ChatMessage { role: "user".to_string(), content: "Hello!".to_string(), reasoning_content: None },
    ];
    let body = chat_request_body("deepseek-chat", &messages, false, None, None);
    assert_eq!(
        body,
        "{\"messages\":[{\"content\":\"You are a helpful assistant.\",\"reasoning_content\":null,\"role\":\"system\"},{\"content\":\"Hello!\",\"reasoning_content\":null,\"role\":\"user\"}],\"model\":\"deepseek-chat\",\"stream\":false}"
    );
    let v: serde_json::Value = serde_json::from_str(&body).unwrap();
    assert_eq!(v["messages"][1]["content"], "Hello!");
    let with_options = chat_request_body("m", &vec![], true, Some("1.0"), Some(64));
    assert_eq!(with_options, "{\"max_tokens\":64,\"messages\":[],\"model\":\"m\",\"stream\":true,\"temperature\":1.0}");
}

#[test]
fn test_deepseek_kline_analysis() {
    let klines = klines_from_reply(true, "200 OK", KLINE_BODY).unwrap();
    let text = kline_prompt_text(&klines);
    assert_eq!(
        text,
        "时间:1700000000000, 开:2000.10, 高:2010.00, 低:1995.5, 收:2005.25, 量:12.345, 引用量:24750.1\n"
    );
    let messages = analysis_messages("ETHUSDC", &klines);
    assert_eq!(messages.len(), 2);
    assert_eq!(messages[0].role, "system");
    assert!(messages[0].content.starts_with("你是一个专业的加密货币K线数据分析专家。你将收到ETHUSDC交易对"));
    assert!(messages[0].content.ends_with("只回复买或卖。"));
    assert_eq!(messages[1].role, "user");
    assert_eq!(messages[1].content, format!("以下是ETHUSDC最近96条15分钟K线数据：\n\n{}", text));
    assert!(messages.iter().all(|m| m.reasoning_content.is_none()));
}

#[test]
fn signals() {
    assert_eq!(signal_from_response(&response_with("  买 ", None)).unwrap(), TradeSignal::Buy);
    assert_eq!(signal_from_response(&response_with("建议卖出", None)).unwrap(), TradeSignal::Sell);
    // 买 wins when both appear.
    assert_eq!(signal_from_response(&response_with("卖还是买", None)).unwrap(), TradeSignal::Buy);
    // A blank answer falls back to the reasoning.
    assert_eq!(signal_from_response(&response_with(" \n", Some(" 卖 "))).unwrap(), TradeSignal::Sell);
    match signal_from_response(&response_with("hold", None)) {
        Err(SignalError::InvalidSignal(m)) => assert_eq!(m, "模型返回了无效信号: 'hold', 期望 '买' 或 '卖'"),
        other => panic!("unexpected {:?}", other),
    }
    match signal_from_response(&response_with("", None)) {
        Err(e) => assert_eq!(e.message(), "InvalidSignal: 模型返回了无效信号: '', 期望 '买' 或 '卖'"),
        other => panic!("unexpected {:?}", other),
    }
    let mut empty = response_with("买", None);
    empty.choices.clear();
    match signal_from_response(&empty) {
        Err(SignalError::InvalidSignal(m)) => assert_eq!(m, "No choices in response"),
        other => panic!("unexpected {:?}", other),
    }
    let e = kline_signal_error(&KlineError::ParseFailed("x".to_string()));
    assert_eq!(e.message(), "KlineError: ParseFailed: x");
    assert_eq!(SignalError::ChatError(ChatError::ApiError("y".into())).message(), "ChatError: ApiError: y");
}

#[test]
fn log_plans() {
    assert!(matches!(log_plan("dev", "logs"), LogPlan::Console { level: LogLevel::Trace }));
    match log_plan("prod", "logs") {
        LogPlan::Files { archive_dir, files, level } => {
            assert_eq!(archive_dir, "logs/archive");
            assert_eq!(level, LogLevel::Trace);
            let names: Vec<&str> = files.iter().map(|f| f.name.as_str()).collect();
            assert_eq!(names, vec!["all", "info", "warn", "error"]);
            assert_eq!(files[0].path, "logs/all.log");
            assert_eq!(files[0].archive_pattern, "logs/archive/{}-all.log");
            assert_eq!(files[0].filter, LogFilter::AtLeast(LogLevel::Trace));
            assert_eq!(files[2].path, "logs/warn.log");
            assert_eq!(files[2].filter, LogFilter::Exactly(LogLevel::Warn));
        }
        other => panic!("unexpected {:?}", other),
    }
    assert!(filter_accepts(LogFilter::AtLeast(LogLevel::Info), LogLevel::Error));
    assert!(!filter_accepts(LogFilter::AtLeast(LogLevel::Info), LogLevel::Debug));
    assert!(filter_accepts(LogFilter::Exactly(LogLevel::Warn), LogLevel::Warn));
    assert!(!filter_accepts(LogFilter::Exactly(LogLevel::Warn), LogLevel::Error));
}

#[test]
fn kline_is_plain_data() {
    let k = Kline {
        open_time: 1,
        open: Dec::zero(),
        high: Dec::zero(),
        low: Dec::zero(),
        close: Dec::zero(),
        volume: Dec::zero(),
        close_time: 2,
        quote_volume: Dec::zero(),
        trades: 0,
        taker_buy_base_volume: Dec::zero(),
        taker_buy_quote_volume: Dec::zero(),
    };
    assert_eq!(kline_prompt_text(&vec![k]), "时间:1, 开:0, 高:0, 低:0, 收:0, 量:0, 引用量:0\n");
}
