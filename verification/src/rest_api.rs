//! Candlestick (kline) queries against the futures REST API: the query
//! parameters, the checks on the reply and the reading of its rows.
use crate::decimal::{decimal_parse, Dec, DecModel};
use crate::text::{concat, i64_text, int_text, nat_text, u64_text};
use crate::utils::{api_response_check, check_api_response};
use vstd::prelude::*;

verus! {

/// A kline interval, as the API names it.
#[derive(Debug, Clone, Copy, PartialEq, Eq, Structural)]
pub enum KlineInterval {
    M1,
    M3,
    M5,
    M15,
    M30,
    H1,
    H2,
    H4,
    H6,
    H8,
    H12,
    D1,
    D3,
    W1,
    MO1,
}

pub open spec fn interval_text(i: KlineInterval) -> Seq<char> {
    match i {
        KlineInterval::M1 => "1m"@,
        KlineInterval::M3 => "3m"@,
        KlineInterval::M5 => "5m"@,
        KlineInterval::M15 => "15m"@,
        KlineInterval::M30 => "30m"@,
        KlineInterval::H1 => "1h"@,
        KlineInterval::H2 => "2h"@,
        KlineInterval::H4 => "4h"@,
        KlineInterval::H6 => "6h"@,
        KlineInterval::H8 => "8h"@,
        KlineInterval::H12 => "12h"@,
        KlineInterval::D1 => "1d"@,
        KlineInterval::D3 => "3d"@,
        KlineInterval::W1 => "1w"@,
        KlineInterval::MO1 => "1M"@,
    }
}

/// Each interval has a name of its own: two intervals with the same name
/// are the same interval.
pub proof fn law_interval_names_distinct(a: KlineInterval, b: KlineInterval)
    ensures
        interval_text(a) == interval_text(b) ==> a == b,
{
    reveal_strlit("1m");
    reveal_strlit("3m");
    reveal_strlit("5m");
    reveal_strlit("15m");
    reveal_strlit("30m");
    reveal_strlit("1h");
    reveal_strlit("2h");
    reveal_strlit("4h");
    reveal_strlit("6h");
    reveal_strlit("8h");
    reveal_strlit("12h");
    reveal_strlit("1d");
    reveal_strlit("3d");
    reveal_strlit("1w");
    reveal_strlit("1M");
    if interval_text(a) == interval_text(b) {
        let t = interval_text(a);
        assert(t.len() == interval_text(b).len());
        assert(t[0] == interval_text(b)[0]);
        assert(t[1] == interval_text(b)[1]);
        if t.len() == 3 {
            assert(t[2] == interval_text(b)[2]);
        }
    }
}

impl KlineInterval {
    /// The interval's name in the API.
    pub fn as_str(&self) -> (r: &'static str)
        ensures
            r@ == interval_text(*self),
    {
        proof {
            reveal_strlit("1m");
            reveal_strlit("3m");
            reveal_strlit("5m");
            reveal_strlit("15m");
            reveal_strlit("30m");
            reveal_strlit("1h");
            reveal_strlit("2h");
            reveal_strlit("4h");
            reveal_strlit("6h");
            reveal_strlit("8h");
            reveal_strlit("12h");
            reveal_strlit("1d");
            reveal_strlit("3d");
            reveal_strlit("1w");
            reveal_strlit("1M");
        }
        match self {
            KlineInterval::M1 => "1m",
            KlineInterval::M3 => "3m",
            KlineInterval::M5 => "5m",
            KlineInterval::M15 => "15m",
            KlineInterval::M30 => "30m",
            KlineInterval::H1 => "1h",
            KlineInterval::H2 => "2h",
            KlineInterval::H4 => "4h",
            KlineInterval::H6 => "6h",
            KlineInterval::H8 => "8h",
            KlineInterval::H12 => "12h",
            KlineInterval::D1 => "1d",
            KlineInterval::D3 => "3d",
            KlineInterval::W1 => "1w",
            KlineInterval::MO1 => "1M",
        }
    }
}

/// One candlestick.
#[derive(Debug, Clone, Copy)]
pub struct Kline {
    pub open_time: i64,
    pub open: Dec,
    pub high: Dec,
    pub low: Dec,
    pub close: Dec,
    pub volume: Dec,
    pub close_time: i64,
    pub quote_volume: Dec,
    pub trades: i64,
    pub taker_buy_base_volume: Dec,
    pub taker_buy_quote_volume: Dec,
}

pub struct KlineModel {
    pub open_time: i64,
    pub open: DecModel,
    pub high: DecModel,
    pub low: DecModel,
    pub close: DecModel,
    pub volume: DecModel,
    pub close_time: i64,
    pub quote_volume: DecModel,
    pub trades: i64,
    pub taker_buy_base_volume: DecModel,
    pub taker_buy_quote_volume: DecModel,
}

impl View for Kline {
    type V = KlineModel;

    open spec fn view(&self) -> KlineModel {
        KlineModel {
            open_time: self.open_time,
            open: self.open@,
            high: self.high@,
            low: self.low@,
            close: self.close@,
            volume: self.volume@,
            close_time: self.close_time,
            quote_volume: self.quote_volume@,
            trades: self.trades,
            taker_buy_base_volume: self.taker_buy_base_volume@,
            taker_buy_quote_volume: self.taker_buy_quote_volume@,
        }
    }
}

/// Why the klines could not be had.
#[derive(Debug)]
pub enum KlineError {
    RequestFailed(String),
    ParseFailed(String),
}

impl KlineError {
    /// The message the error displays.
    pub fn message(&self) -> (r: String)
        ensures
            r@ == match self {
                KlineError::RequestFailed(m) => "RequestFailed: "@ + m@,
                KlineError::ParseFailed(m) => "ParseFailed: "@ + m@,
            },
    {
        match self {
            KlineError::RequestFailed(m) => concat("RequestFailed: ", m.as_str()),
            KlineError::ParseFailed(m) => concat("ParseFailed: ", m.as_str()),
        }
    }
}

/// A kline query.
#[derive(Debug)]
pub struct KlineRequest {
    pub symbol: String,
    pub interval: KlineInterval,
    pub start_time: Option<i64>,
    pub end_time: Option<i64>,
    pub limit: Option<u32>,
}

pub open spec fn text_pair(p: (String, String)) -> (Seq<char>, Seq<char>) {
    (p.0@, p.1@)
}

/// The query parameters of a kline request, in the order they are sent.
pub open spec fn kline_query_spec(req: KlineRequest) -> Seq<(Seq<char>, Seq<char>)> {
    let base = seq![("symbol"@, req.symbol@), ("interval"@, interval_text(req.interval))];
    let with_start = match req.start_time {
        Some(t) => base.push(("startTime"@, int_text(t as int))),
        None => base,
    };
    let with_end = match req.end_time {
        Some(t) => with_start.push(("endTime"@, int_text(t as int))),
        None => with_start,
    };
    match req.limit {
        Some(l) => with_end.push(("limit"@, nat_text(l as nat))),
        None => with_end,
    }
}

/// The query parameters of a kline request.
pub fn kline_query(req: &KlineRequest) -> (r: Vec<(String, String)>)
    ensures
        r@.map_values(|p: (String, String)| text_pair(p)) == kline_query_spec(*req),
{
    let mut params: Vec<(String, String)> = Vec::new();
    params.push(("symbol".to_owned(), req.symbol.as_str().to_owned()));
    params.push(("interval".to_owned(), req.interval.as_str().to_owned()));
    if let Some(t) = req.start_time {
        params.push(("startTime".to_owned(), i64_text(t)));
    }
    if let Some(t) = req.end_time {
        params.push(("endTime".to_owned(), i64_text(t)));
    }
    if let Some(l) = req.limit {
        params.push(("limit".to_owned(), u64_text(l as u64)));
    }
    assert(params@.map_values(|p: (String, String)| text_pair(p)) =~= kline_query_spec(*req));
    params
}

/// The URL of the kline endpoint under a REST base URL.
pub fn klines_url(base: &str) -> (r: String)
    ensures
        r@ == base@ + "/fapi/v1/klines"@,
{
    concat(base, "/fapi/v1/klines")
}

/// What the kline reader takes from one JSON value: what `as_i64` and
/// `as_str` give for it.
#[derive(Debug)]
pub struct JsonCell {
    pub int: Option<i64>,
    pub text: Option<String>,
}

pub type JsonCellModel = (Option<i64>, Option<Seq<char>>);

impl View for JsonCell {
    type V = JsonCellModel;

    open spec fn view(&self) -> JsonCellModel {
        (
            self.int,
            match self.text {
                Some(t) => Some(t@),
                None => None,
            },
        )
    }
}

pub open spec fn rows_view(rows: Seq<Vec<JsonCell>>) -> Seq<Seq<JsonCellModel>> {
    rows.map_values(|row: Vec<JsonCell>| row@.map_values(|c: JsonCell| c@))
}

/// What `serde_json::from_str` reads of a body as an array of arrays of
/// JSON values, each value seen as in `JsonCell`; the error's text where
/// the body is not such an array.
pub uninterp spec fn kline_json_rows(body: Seq<char>) -> Result<Seq<Seq<JsonCellModel>>, Seq<char>>;

/// Reads a body as rows of JSON values (`serde_json::from_str` into
/// `Vec<Vec<serde_json::Value>>`), keeping each value's `as_i64` and
/// `as_str`.
#[verifier::external_body]
fn json_value_rows(body: &str) -> (r: Result<Vec<Vec<JsonCell>>, String>)
    ensures
        match r {
            Ok(rows) => kline_json_rows(body@) == Ok::<Seq<Seq<JsonCellModel>>, Seq<char>>(rows_view(rows@)),
            Err(e) => kline_json_rows(body@) == Err::<Seq<Seq<JsonCellModel>>, Seq<char>>(e@),
        },
{
    match serde_json::from_str::<Vec<Vec<serde_json::Value>>>(body) {
        Ok(rows) => Ok(rows.iter().map(|row| row.iter().map(|v| JsonCell {
            int: v.as_i64(),
            text: v.as_str().map(|s| s.to_string()),
        }).collect()).collect()),
        Err(e) => Err(e.to_string()),
    }
}

/// The text a decimal column is read from: the string value, or "0".
pub open spec fn cell_text(c: JsonCellModel) -> Seq<char> {
    match c.1 {
        Some(t) => t,
        None => "0"@,
    }
}

pub open spec fn decimal_column(c: JsonCellModel, name: Seq<char>) -> Result<DecModel, Seq<char>> {
    match decimal_parse(cell_text(c)) {
        Ok(v) => Ok(v),
        Err(e) => Err("Failed to parse "@ + name + ": "@ + e),
    }
}

pub open spec fn int_column(c: JsonCellModel, name: Seq<char>) -> Result<i64, Seq<char>> {
    match c.0 {
        Some(v) => Ok(v),
        None => Err("Failed to parse "@ + name),
    }
}

/// One kline row read column by column; the first column that fails names
/// the error.
pub open spec fn kline_row_spec(row: Seq<JsonCellModel>) -> Result<KlineModel, Seq<char>> {
    if row.len() < 11 {
        Err("Unexpected kline array length: "@ + nat_text(row.len()))
    } else {
        match int_column(row[0], "open_time"@) {
            Err(e) => Err(e),
            Ok(open_time) => match decimal_column(row[1], "open"@) {
                Err(e) => Err(e),
                Ok(open) => match decimal_column(row[2], "high"@) {
                    Err(e) => Err(e),
                    Ok(high) => match decimal_column(row[3], "low"@) {
                        Err(e) => Err(e),
                        Ok(low) => match decimal_column(row[4], "close"@) {
                            Err(e) => Err(e),
                            Ok(close) => match decimal_column(row[5], "volume"@) {
                                Err(e) => Err(e),
                                Ok(volume) => match int_column(row[6], "close_time"@) {
                                    Err(e) => Err(e),
                                    Ok(close_time) => match decimal_column(row[7], "quote_volume"@) {
                                        Err(e) => Err(e),
                                        Ok(quote_volume) => match int_column(row[8], "trades"@) {
                                            Err(e) => Err(e),
                                            Ok(trades) => match decimal_column(
                                                row[9],
                                                "taker_buy_base_volume"@,
                                            ) {
                                                Err(e) => Err(e),
                                                Ok(taker_buy_base_volume) => match decimal_column(
                                                    row[10],
                                                    "taker_buy_quote_volume"@,
                                                ) {
                                                    Err(e) => Err(e),
                                                    Ok(taker_buy_quote_volume) => Ok(
                                                        KlineModel {
                                                            open_time,
                                                            open,
                                                            high,
                                                            low,
                                                            close,
                                                            volume,
                                                            close_time,
                                                            quote_volume,
                                                            trades,
                                                            taker_buy_base_volume,
                                                            taker_buy_quote_volume,
                                                        },
                                                    ),
                                                },
                                            },
                                        },
                                    },
                                },
                            },
                        },
                    },
                },
            },
        }
    }
}

/// All rows read in order; the first row that fails names the error.
pub open spec fn kline_rows_spec(rows: Seq<Seq<JsonCellModel>>) -> Result<Seq<KlineModel>, Seq<char>>
    decreases rows.len(),
{
    if rows.len() == 0 {
        Ok(Seq::empty())
    } else {
        match kline_rows_spec(rows.drop_last()) {
            Err(e) => Err(e),
            Ok(ks) => match kline_row_spec(rows.last()) {
                Ok(k) => Ok(ks.push(k)),
                Err(e) => Err(e),
            },
        }
    }
}

/// The rows read one kline each, in order, when every row reads as a
/// kline; otherwise the error is that of the first row that does not.
pub proof fn law_one_kline_per_row(rows: Seq<Seq<JsonCellModel>>)
    ensures
        (forall|i: int| 0 <= i < rows.len() ==> #[trigger] kline_row_spec(rows[i]) is Ok) ==> (
        kline_rows_spec(rows) matches Ok(ks) && ks.len() == rows.len() && forall|i: int|
            0 <= i < rows.len() ==> #[trigger] kline_row_spec(rows[i]) == Ok::<
                KlineModel,
                Seq<char>,
            >(ks[i])),
        forall|i: int|
            0 <= i < rows.len() && (#[trigger] kline_row_spec(rows[i]) matches Err(e)) && (forall|
                j: int,
            | 0 <= j < i ==> kline_row_spec(#[trigger] rows[j]) is Ok) ==> kline_rows_spec(rows)
                == Err::<Seq<KlineModel>, Seq<char>>(kline_row_spec(rows[i])->Err_0),
    decreases rows.len(),
{
    if rows.len() > 0 {
        let d = rows.drop_last();
        let n = rows.len() - 1;
        law_one_kline_per_row(d);
        assert(rows.last() == rows[n]);
        assert forall|j: int| 0 <= j < d.len() implies #[trigger] d[j] == rows[j] by {}
        if forall|i: int| 0 <= i < rows.len() ==> #[trigger] kline_row_spec(rows[i]) is Ok {
            assert forall|i: int| 0 <= i < d.len() implies #[trigger] kline_row_spec(d[i]) is Ok by {
                assert(kline_row_spec(rows[i]) is Ok);
            }
            assert(kline_row_spec(rows[n]) is Ok);
            let ks = kline_rows_spec(d)->Ok_0;
            let k = kline_row_spec(rows[n])->Ok_0;
            assert(kline_rows_spec(rows) == Ok::<Seq<KlineModel>, Seq<char>>(ks.push(k)));
            assert forall|i: int| 0 <= i < rows.len() implies #[trigger] kline_row_spec(rows[i])
                == Ok::<KlineModel, Seq<char>>(ks.push(k)[i]) by {
                if i < n {
                    assert(kline_row_spec(d[i]) == Ok::<KlineModel, Seq<char>>(ks[i]));
                }
            }
        }
        assert forall|i: int|
            0 <= i < rows.len() && (#[trigger] kline_row_spec(rows[i]) matches Err(e)) && (forall|
                j: int,
            | 0 <= j < i ==> kline_row_spec(#[trigger] rows[j]) is Ok) implies kline_rows_spec(rows)
            == Err::<Seq<KlineModel>, Seq<char>>(kline_row_spec(rows[i])->Err_0) by {
            if i < n {
                assert(kline_row_spec(d[i]) is Err);
                assert forall|j: int| 0 <= j < i implies kline_row_spec(#[trigger] d[j]) is Ok by {
                    assert(kline_row_spec(rows[j]) is Ok);
                }
            } else {
                assert forall|j: int| 0 <= j < d.len() implies #[trigger] kline_row_spec(d[j]) is Ok by {
                    assert(kline_row_spec(rows[j]) is Ok);
                }
            }
        }
    }
}

fn decimal_cell(c: &JsonCell, name: &str) -> (r: Result<Dec, String>)
    ensures
        match decimal_column(c@, name@) {
            Ok(v) => r matches Ok(d) && d@ == v,
            Err(e) => r matches Err(m) && m@ == e,
        },
{
    let parsed = match &c.text {
        Some(t) => Dec::parse(t.as_str()),
        None => Dec::parse("0"),
    };
    match parsed {
        Ok(d) => Ok(d),
        Err(e) => {
            let mut m = concat("Failed to parse ", name);
            m.append(": ");
            m.append(e.as_str());
            Err(m)
        },
    }
}

fn int_cell(c: &JsonCell, name: &str) -> (r: Result<i64, String>)
    ensures
        match int_column(c@, name@) {
            Ok(v) => r == Ok::<i64, String>(v),
            Err(e) => r matches Err(m) && m@ == e,
        },
{
    match c.int {
        Some(v) => Ok(v),
        None => Err(concat("Failed to parse ", name)),
    }
}

/// Reads one kline row.
pub fn parse_kline_row(row: &Vec<JsonCell>) -> (r: Result<Kline, String>)
    ensures
        match kline_row_spec(row@.map_values(|c: JsonCell| c@)) {
            Ok(k) => r matches Ok(x) && x@ == k,
            Err(e) => r matches Err(m) && m@ == e,
        },
{
    let ghost cells = row@.map_values(|c: JsonCell| c@);
    if row.len() < 11 {
        return Err(concat("Unexpected kline array length: ", u64_text(row.len() as u64).as_str()));
    }
    assert(cells[0] == row@[0]@ && cells[1] == row@[1]@ && cells[2] == row@[2]@ && cells[3]
        == row@[3]@ && cells[4] == row@[4]@ && cells[5] == row@[5]@);
    assert(cells[6] == row@[6]@ && cells[7] == row@[7]@ && cells[8] == row@[8]@ && cells[9]
        == row@[9]@ && cells[10] == row@[10]@);
    let open_time = int_cell(&row[0], "open_time")?;
    let open = decimal_cell(&row[1], "open")?;
    let high = decimal_cell(&row[2], "high")?;
    let low = decimal_cell(&row[3], "low")?;
    let close = decimal_cell(&row[4], "close")?;
    let volume = decimal_cell(&row[5], "volume")?;
    let close_time = int_cell(&row[6], "close_time")?;
    let quote_volume = decimal_cell(&row[7], "quote_volume")?;
    let trades = int_cell(&row[8], "trades")?;
    let taker_buy_base_volume = decimal_cell(&row[9], "taker_buy_base_volume")?;
    let taker_buy_quote_volume = decimal_cell(&row[10], "taker_buy_quote_volume")?;
    Ok(
        Kline {
            open_time,
            open,
            high,
            low,
            close,
            volume,
            close_time,
            quote_volume,
            trades,
            taker_buy_base_volume,
            taker_buy_quote_volume,
        },
    )
}

/// Reads the kline rows in order, stopping at the first that fails.
pub fn parse_kline_rows(rows: &Vec<Vec<JsonCell>>) -> (r: Result<Vec<Kline>, KlineError>)
    ensures
        match kline_rows_spec(rows_view(rows@)) {
            Ok(ks) => r matches Ok(v) && v@.map_values(|k: Kline| k@) == ks,
            Err(e) => r matches Err(KlineError::ParseFailed(m)) && m@ == e,
        },
{
    let mut klines: Vec<Kline> = Vec::new();
    let mut i: usize = 0;
    assert(rows_view(rows@.subrange(0, 0)) =~= Seq::<Seq<JsonCellModel>>::empty());
    assert(klines@.map_values(|k: Kline| k@) =~= Seq::<KlineModel>::empty());
    while i < rows.len()
        invariant
            i <= rows.len(),
            kline_rows_spec(rows_view(rows@.subrange(0, i as int))) == Ok::<Seq<KlineModel>, Seq<char>>(
                klines@.map_values(|k: Kline| k@),
            ),
        decreases rows.len() - i,
    {
        proof {
            assert(rows_view(rows@.subrange(0, i + 1)).drop_last() =~= rows_view(
                rows@.subrange(0, i as int),
            ));
            assert(rows_view(rows@.subrange(0, i + 1)).last() == rows@[i as int]@.map_values(
                |c: JsonCell| c@,
            ));
        }
        match parse_kline_row(&rows[i]) {
            Ok(k) => {
                let ghost before = klines@;
                klines.push(k);
                proof {
                    assert(klines@.map_values(|k: Kline| k@) =~= before.map_values(|k: Kline| k@).push(
                        k@,
                    ));
                }
            },
            Err(e) => {
                proof {
                    lemma_rows_error_stays(rows_view(rows@), i as int);
                    assert(rows_view(rows@).subrange(0, i + 1) =~= rows_view(rows@.subrange(0, i + 1)));
                }
                return Err(KlineError::ParseFailed(e));
            },
        }
        i = i + 1;
    }
    assert(rows@.subrange(0, rows.len() as int) =~= rows@);
    Ok(klines)
}

/// Once a prefix of the rows fails, every longer prefix fails the same way.
proof fn lemma_rows_error_stays(rows: Seq<Seq<JsonCellModel>>, i: int)
    requires
        0 <= i < rows.len(),
        kline_rows_spec(rows.subrange(0, i + 1)) is Err,
    ensures
        kline_rows_spec(rows) == kline_rows_spec(rows.subrange(0, i + 1)),
    decreases rows.len() - i,
{
    if i + 1 == rows.len() {
        assert(rows.subrange(0, i + 1) =~= rows);
    } else {
        let n = rows.len() - 1;
        assert(rows.drop_last() =~= rows.subrange(0, n));
        assert(rows.subrange(0, n).subrange(0, i + 1) =~= rows.subrange(0, i + 1));
        lemma_rows_error_stays(rows.subrange(0, n), i);
    }
}

/// The klines a REST reply carries.  A failed status is a request failure
/// with the status and body; an empty body, one that does not read as rows
/// of JSON values, or a row that does not read as a kline is a parse
/// failure.
pub fn klines_from_reply(success: bool, status: &str, body: &str) -> (r: Result<Vec<Kline>, KlineError>)
    ensures
        match api_response_check(success, status@, body@) {
            Err(m) => if !success {
                r matches Err(KlineError::RequestFailed(x)) && x@ == m
            } else {
                r matches Err(KlineError::ParseFailed(x)) && x@ == m
            },
            Ok(()) => match kline_json_rows(body@) {
                Err(e) => r matches Err(KlineError::ParseFailed(x)) && x@ == e,
                Ok(rows) => match kline_rows_spec(rows) {
                    Ok(ks) => r matches Ok(v) && v@.map_values(|k: Kline| k@) == ks,
                    Err(e) => r matches Err(KlineError::ParseFailed(x)) && x@ == e,
                },
            },
        },
{
    match check_api_response(success, status, body) {
        Err(m) => {
            if !success {
                return Err(KlineError::RequestFailed(m));
            } else {
                return Err(KlineError::ParseFailed(m));
            }
        },
        Ok(()) => {},
    }
    match json_value_rows(body) {
        Err(e) => Err(KlineError::ParseFailed(e)),
        Ok(rows) => parse_kline_rows(&rows),
    }
}

} // verus!
