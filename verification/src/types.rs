//! Typed representations of the exchange's positional wire records and the
//! decoders that recognize them inside a parsed JSON frame.
//!
//! Every record is a fixed-length JSON array. A structured frame (the
//! envelope) is `[event, sequence, payload]`; the payload carries either one
//! tick record or a list of trade / order-book records.

use vstd::prelude::*;

use crate::error::DecodeError;
use crate::json::{json_view, json_views, lemma_json_views, parse_json, parsed_json, JsonV, JsonVal};

verus! {

use vstd::pervasive::unreached;

/// A decimal digit.
pub open spec fn is_digit(c: char) -> bool {
    '0' <= c <= '9'
}

/// The numeric value of one digit.
pub open spec fn digit_val(c: char) -> int {
    c as int - 48
}

/// Every character of the sequence is a decimal digit.
pub open spec fn all_digits(s: Seq<char>) -> bool {
    forall|i: int| 0 <= i < s.len() ==> is_digit(#[trigger] s[i])
}

/// The value of a sequence of decimal digits, most significant first.
pub open spec fn dec_val(s: Seq<char>) -> int
    decreases s.len(),
{
    if s.len() == 0 {
        0
    } else {
        dec_val(s.drop_last()) * 10 + digit_val(s.last())
    }
}

/// A non-empty, all-digit string whose value fits a `u32`.
pub open spec fn is_dec_u32(s: Seq<char>) -> bool {
    s.len() > 0 && all_digits(s) && dec_val(s) <= u32::MAX
}

/// A digit string has a non-negative value.
pub proof fn lemma_dec_val_nonneg(s: Seq<char>)
    requires
        all_digits(s),
    ensures
        dec_val(s) >= 0,
    decreases s.len(),
{
    if s.len() > 0 {
        assert(all_digits(s.drop_last())) by {
            assert(forall|i: int| 0 <= i < s.len() - 1 ==> s.drop_last()[i] == s[i]);
        }
        lemma_dec_val_nonneg(s.drop_last());
    }
}

/// Appending digits never shrinks the value: the whole string is worth at
/// least any of its prefixes.
pub proof fn lemma_dec_val_prefix(s: Seq<char>, i: int)
    requires
        all_digits(s),
        0 <= i <= s.len(),
    ensures
        dec_val(s.subrange(0, i)) <= dec_val(s),
    decreases s.len() - i,
{
    if i == s.len() {
        assert(s.subrange(0, i) =~= s);
    } else {
        assert(s.subrange(0, i + 1).drop_last() =~= s.subrange(0, i));
        assert(s.subrange(0, i + 1).last() == s[i]);
        assert(all_digits(s.subrange(0, i))) by {
            assert(forall|j: int| 0 <= j < i ==> s.subrange(0, i)[j] == s[j]);
        }
        lemma_dec_val_nonneg(s.subrange(0, i));
        assert(dec_val(s.subrange(0, i + 1)) == dec_val(s.subrange(0, i)) * 10 + digit_val(
            s[i],
        ));
        lemma_dec_val_prefix(s, i + 1);
    }
}

/// Parses a decimal `u32`, accepting exactly the non-empty all-digit strings
/// whose value is in range.
pub fn parse_u32(s: &str) -> (r: Option<u32>)
    ensures
        r matches Some(u) ==> is_dec_u32(s@) && u == dec_val(s@),
        r is None ==> !is_dec_u32(s@),
{
    if !s.is_ascii() {
        proof {
            if all_digits(s@) {
                assert forall|i: int| 0 <= i < s@.len() implies '\0' <= #[trigger] s@[i]
                    <= '\u{7f}' by {
                    assert(is_digit(s@[i]));
                }
            }
        }
        return None;
    }
    let n = s.unicode_len();
    if n == 0 {
        return None;
    }
    let mut acc: u64 = 0;
    let mut i: usize = 0;
    while i < n
        invariant
            s.is_ascii(),
            n == s@.len(),
            0 <= i <= n,
            all_digits(s@.subrange(0, i as int)),
            acc == dec_val(s@.subrange(0, i as int)),
            acc <= u32::MAX,
        decreases n - i,
    {
        let b = s.get_ascii(i);
        proof {
            assert('\0' <= s@[i as int] <= '\u{7f}');
        }
        if b < 48 || b > 57 {
            proof {
                assert(!is_digit(s@[i as int]));
            }
            return None;
        }
        acc = acc * 10 + (b - 48) as u64;
        proof {
            let t = s@.subrange(0, i + 1 as int);
            assert(t.drop_last() =~= s@.subrange(0, i as int));
            assert(t.last() == s@[i as int]);
            assert(is_digit(s@[i as int]));
            assert(digit_val(s@[i as int]) == b - 48);
        }
        i += 1;
        if acc > u32::MAX as u64 {
            proof {
                if all_digits(s@) {
                    lemma_dec_val_prefix(s@, i as int);
                }
            }
            return None;
        }
    }
    proof {
        assert(s@.subrange(0, n as int) =~= s@);
    }
    Some(acc as u32)
}

/// A structured inbound frame: `(event channel id, sequence, payload)`.
#[derive(Debug)]
pub struct Response {
    event: u32,
    sequence: Option<u32>,
    data: JsonVal,
}

/// The mathematical form of a [`Response`].
pub struct RespV {
    pub event: u32,
    pub sequence: Option<u32>,
    pub data: JsonV,
}

impl View for Response {
    type V = RespV;

    closed spec fn view(&self) -> RespV {
        RespV { event: self.event, sequence: self.sequence, data: self.data@ }
    }
}

/// An order-book delta: `[kind, side, rate, amount]`; side `1` is a bid.
#[derive(Debug, Clone)]
pub struct Order {
    pub marker: String,
    pub side: u32,
    pub rate: String,
    pub amount: String,
}

/// The mathematical form of an [`Order`].
pub struct OrderV {
    pub marker: Seq<char>,
    pub side: u32,
    pub rate: Seq<char>,
    pub amount: Seq<char>,
}

impl View for Order {
    type V = OrderV;

    open spec fn view(&self) -> OrderV {
        OrderV { marker: self.marker@, side: self.side, rate: self.rate@, amount: self.amount@ }
    }
}

/// A trade: `[kind, id, side, rate, amount, date]`; side `1` is a buy.
#[derive(Debug, Clone)]
pub struct Trade {
    pub marker: String,
    pub id: String,
    pub side: u32,
    pub rate: String,
    pub amount: String,
    pub date: u32,
}

/// The mathematical form of a [`Trade`].
pub struct TradeV {
    pub marker: Seq<char>,
    pub id: Seq<char>,
    pub side: u32,
    pub rate: Seq<char>,
    pub amount: Seq<char>,
    pub date: u32,
}

impl View for Trade {
    type V = TradeV;

    open spec fn view(&self) -> TradeV {
        TradeV {
            marker: self.marker@,
            id: self.id@,
            side: self.side,
            rate: self.rate@,
            amount: self.amount@,
            date: self.date,
        }
    }
}

/// A ticker record of ten positional fields; all prices and volumes are
/// string-encoded decimals.
#[derive(Debug, Clone)]
pub struct Tick {
    pub pair: u32,
    pub last: String,
    pub lowest_ask: String,
    pub highest_bid: String,
    pub percent_change: String,
    pub base_volume: String,
    pub quote_volume: String,
    pub is_frozen: u32,
    pub high24: String,
    pub low24: String,
}

/// The mathematical form of a [`Tick`].
pub struct TickV {
    pub pair: u32,
    pub last: Seq<char>,
    pub lowest_ask: Seq<char>,
    pub highest_bid: Seq<char>,
    pub percent_change: Seq<char>,
    pub base_volume: Seq<char>,
    pub quote_volume: Seq<char>,
    pub is_frozen: u32,
    pub high24: Seq<char>,
    pub low24: Seq<char>,
}

impl View for Tick {
    type V = TickV;

    open spec fn view(&self) -> TickV {
        TickV {
            pair: self.pair,
            last: self.last@,
            lowest_ask: self.lowest_ask@,
            highest_bid: self.highest_bid@,
            percent_change: self.percent_change@,
            base_volume: self.base_volume@,
            quote_volume: self.quote_volume@,
            is_frozen: self.is_frozen,
            high24: self.high24@,
            low24: self.low24@,
        }
    }
}

/// An error object the exchange may send in place of data.
pub struct ResponseError {
    pub error: String,
}

/// The side of an order-book entry.
#[derive(Debug, Clone, Copy, PartialEq, Eq, Structural)]
pub enum OrderType {
    Ask,
    Bid,
}

/// The side of a trade.
#[derive(Debug, Clone, Copy, PartialEq, Eq, Structural)]
pub enum TradeType {
    Buy,
    Sell,
}

/// Which envelopes are well formed: a three-element array of the event id,
/// a sequence number or null, and the payload.
pub open spec fn spec_envelope(v: JsonV) -> Option<RespV> {
    match v {
        JsonV::Arr(items) => {
            if items.len() == 3 && items[0].is_u32()
                && (items[1] is Null || items[1].is_u32()) {
                Some(RespV {
                    event: items[0].u32_val(),
                    sequence: if items[1] is Null {
                        None
                    } else {
                        Some(items[1].u32_val())
                    },
                    data: items[2],
                })
            } else {
                None
            }
        },
        _ => None,
    }
}

/// Which payload items are trade records.
pub open spec fn spec_trade(v: JsonV) -> Option<TradeV> {
    match v {
        JsonV::Arr(items) => {
            if items.len() == 6 && items[0] is Str && items[1] is Str && items[2].is_u32()
                && items[3] is Str && items[4] is Str && items[5].is_u32() {
                Some(TradeV {
                    marker: items[0].str_val(),
                    id: items[1].str_val(),
                    side: items[2].u32_val(),
                    rate: items[3].str_val(),
                    amount: items[4].str_val(),
                    date: items[5].u32_val(),
                })
            } else {
                None
            }
        },
        _ => None,
    }
}

/// Which payload items are order-book records.
pub open spec fn spec_order(v: JsonV) -> Option<OrderV> {
    match v {
        JsonV::Arr(items) => {
            if items.len() == 4 && items[0] is Str && items[1].is_u32() && items[2] is Str
                && items[3] is Str {
                Some(OrderV {
                    marker: items[0].str_val(),
                    side: items[1].u32_val(),
                    rate: items[2].str_val(),
                    amount: items[3].str_val(),
                })
            } else {
                None
            }
        },
        _ => None,
    }
}

/// Which payloads are ticker records.
pub open spec fn spec_tick(v: JsonV) -> Option<TickV> {
    match v {
        JsonV::Arr(items) => {
            if items.len() == 10 && items[0].is_u32() && items[1] is Str && items[2] is Str
                && items[3] is Str && items[4] is Str && items[5] is Str && items[6] is Str
                && items[7].is_u32() && items[8] is Str && items[9] is Str {
                Some(TickV {
                    pair: items[0].u32_val(),
                    last: items[1].str_val(),
                    lowest_ask: items[2].str_val(),
                    highest_bid: items[3].str_val(),
                    percent_change: items[4].str_val(),
                    base_volume: items[5].str_val(),
                    quote_volume: items[6].str_val(),
                    is_frozen: items[7].u32_val(),
                    high24: items[8].str_val(),
                    low24: items[9].str_val(),
                })
            } else {
                None
            }
        },
        _ => None,
    }
}

/// Which sequences of values are all-integer event lists.
pub open spec fn spec_u32s(items: Seq<JsonV>) -> Option<Seq<u32>>
    decreases items.len(),
{
    if items.len() == 0 {
        Some(Seq::empty())
    } else {
        match spec_u32s(items.drop_last()) {
            Some(pre) => if items.last().is_u32() {
                Some(pre.push(items.last().u32_val()))
            } else {
                None
            },
            None => None,
        }
    }
}

/// Which values are bare acknowledgment frames: arrays of integers.
pub open spec fn spec_event_list(v: JsonV) -> Option<Seq<u32>> {
    match v {
        JsonV::Arr(items) => spec_u32s(items),
        _ => None,
    }
}

/// Recognizes the bare event-list shape: an array of unsigned integers.
pub fn event_list_from_json(v: &JsonVal) -> (r: Option<Vec<u32>>)
    ensures
        r matches Some(ids) ==> spec_event_list(v@) == Some(ids@),
        r is None ==> spec_event_list(v@) is None,
{
    let items = match v {
        JsonVal::Arr(items) => items,
        _ => {
            return None;
        },
    };
    proof {
        lemma_json_views(items@);
    }
    let ghost views = json_views(items@);
    let n = items.len();
    let mut out: Vec<u32> = Vec::new();
    let mut i: usize = 0;
    while i < n
        invariant
            n == items@.len(),
            n == views.len(),
            0 <= i <= n,
            views == json_views(items@),
            v@ == JsonV::Arr(views),
            forall|k: int| 0 <= k < n ==> #[trigger] views[k] == items@[k]@,
            spec_u32s(views.subrange(0, i as int)) == Some(out@),
        decreases n - i,
    {
        let u = match items[i].u32_of() {
            Some(u) => u,
            None => {
                proof {
                    lemma_spec_u32s_bad(views, i as int);
                }
                return None;
            },
        };
        out.push(u);
        proof {
            assert(views.subrange(0, i + 1 as int).drop_last() =~= views.subrange(0, i as int));
            assert(views.subrange(0, i + 1 as int).last() == views[i as int]);
        }
        i += 1;
    }
    proof {
        assert(views.subrange(0, n as int) =~= views);
    }
    Some(out)
}

/// An element that is no integer spoils the whole event list.
proof fn lemma_spec_u32s_bad(items: Seq<JsonV>, i: int)
    requires
        0 <= i < items.len(),
        !items[i].is_u32(),
    ensures
        spec_u32s(items) is None,
    decreases items.len(),
{
    if items.len() > 0 {
        if i == items.len() - 1 {
        } else {
            assert(items.drop_last()[i] == items[i]);
            lemma_spec_u32s_bad(items.drop_last(), i);
        }
    }
}

impl Response {
    /// Recognizes the envelope shape, taking ownership of the payload; a
    /// value of another shape is handed back untouched.
    pub fn from_json(v: JsonVal) -> (r: Result<Response, JsonVal>)
        ensures
            r matches Ok(resp) ==> spec_envelope(v@) == Some(resp@),
            r matches Err(w) ==> w == v && spec_envelope(v@) is None,
    {
        let mut items = match v {
            JsonVal::Arr(items) => items,
            other => {
                return Err(other);
            },
        };
        proof {
            lemma_json_views(items@);
        }
        if items.len() != 3 {
            return Err(JsonVal::Arr(items));
        }
        let event = match items[0].u32_of() {
            Some(e) => e,
            None => {
                return Err(JsonVal::Arr(items));
            },
        };
        let sequence = match &items[1] {
            JsonVal::Null => None,
            _ => match items[1].u32_of() {
                Some(s) => Some(s),
                None => {
                    return Err(JsonVal::Arr(items));
                },
            },
        };
        let data = items.remove(2);
        Ok(Response { event, sequence, data })
    }

    /// The numeric channel id of the frame.
    pub fn get_event(&self) -> (r: u32)
        ensures
            r == self@.event,
    {
        self.event
    }

    /// The sequence number, if the frame carried one.
    pub fn get_sequence(&self) -> (r: &Option<u32>)
        ensures
            *r == self@.sequence,
    {
        &self.sequence
    }

    /// The payload of the frame.
    pub fn get_data(&self) -> (r: &JsonVal)
        ensures
            r@ == self@.data,
    {
        &self.data
    }
}

impl Trade {
    /// Recognizes the trade shape among payload items.
    pub fn from_json(v: &JsonVal) -> (r: Option<Trade>)
        ensures
            r matches Some(t) ==> spec_trade(v@) == Some(t@),
            r is None ==> spec_trade(v@) is None,
    {
        let items = match v {
            JsonVal::Arr(items) => items,
            _ => {
                return None;
            },
        };
        proof {
            lemma_json_views(items@);
        }
        if items.len() != 6 {
            return None;
        }
        let marker = match items[0].str_of() {
            Some(s) => s,
            None => {
                return None;
            },
        };
        let id = match items[1].str_of() {
            Some(s) => s,
            None => {
                return None;
            },
        };
        let side = match items[2].u32_of() {
            Some(u) => u,
            None => {
                return None;
            },
        };
        let rate = match items[3].str_of() {
            Some(s) => s,
            None => {
                return None;
            },
        };
        let amount = match items[4].str_of() {
            Some(s) => s,
            None => {
                return None;
            },
        };
        let date = match items[5].u32_of() {
            Some(u) => u,
            None => {
                return None;
            },
        };
        Some(Trade { marker, id, side, rate, amount, date })
    }

    /// The trade id, parsed from its string field.
    pub fn get_id(&self) -> (r: u32)
        requires
            is_dec_u32(self.id@),
        ensures
            r == dec_val(self.id@),
    {
        match parse_u32(self.id.as_str()) {
            Some(u) => u,
            None => unreached(),
        }
    }

    /// The side of the trade: `1` marks a buy, anything else a sell.
    pub fn get_type(&self) -> (r: TradeType)
        ensures
            r == (if self.side == 1 {
                TradeType::Buy
            } else {
                TradeType::Sell
            }),
    {
        if self.side == 1 {
            TradeType::Buy
        } else {
            TradeType::Sell
        }
    }

    /// The timestamp of the trade.
    pub fn get_date(&self) -> (r: u32)
        ensures
            r == self.date,
    {
        self.date
    }
}

impl Order {
    /// Recognizes the order-book shape among payload items.
    pub fn from_json(v: &JsonVal) -> (r: Option<Order>)
        ensures
            r matches Some(o) ==> spec_order(v@) == Some(o@),
            r is None ==> spec_order(v@) is None,
    {
        let items = match v {
            JsonVal::Arr(items) => items,
            _ => {
                return None;
            },
        };
        proof {
            lemma_json_views(items@);
        }
        if items.len() != 4 {
            return None;
        }
        let marker = match items[0].str_of() {
            Some(s) => s,
            None => {
                return None;
            },
        };
        let side = match items[1].u32_of() {
            Some(u) => u,
            None => {
                return None;
            },
        };
        let rate = match items[2].str_of() {
            Some(s) => s,
            None => {
                return None;
            },
        };
        let amount = match items[3].str_of() {
            Some(s) => s,
            None => {
                return None;
            },
        };
        Some(Order { marker, side, rate, amount })
    }

    /// The side of the entry: `1` marks a bid, anything else an ask.
    pub fn get_type(&self) -> (r: OrderType)
        ensures
            r == (if self.side == 1 {
                OrderType::Bid
            } else {
                OrderType::Ask
            }),
    {
        if self.side == 1 {
            OrderType::Bid
        } else {
            OrderType::Ask
        }
    }
}

impl Tick {
    /// Recognizes the ticker shape of a payload.
    pub fn from_json(v: &JsonVal) -> (r: Option<Tick>)
        ensures
            r matches Some(t) ==> spec_tick(v@) == Some(t@),
            r is None ==> spec_tick(v@) is None,
    {
        let items = match v {
            JsonVal::Arr(items) => items,
            _ => {
                return None;
            },
        };
        proof {
            lemma_json_views(items@);
        }
        if items.len() != 10 {
            return None;
        }
        let pair = match items[0].u32_of() {
            Some(u) => u,
            None => {
                return None;
            },
        };
        let last = match items[1].str_of() {
            Some(s) => s,
            None => {
                return None;
            },
        };
        let lowest_ask = match items[2].str_of() {
            Some(s) => s,
            None => {
                return None;
            },
        };
        let highest_bid = match items[3].str_of() {
            Some(s) => s,
            None => {
                return None;
            },
        };
        let percent_change = match items[4].str_of() {
            Some(s) => s,
            None => {
                return None;
            },
        };
        let base_volume = match items[5].str_of() {
            Some(s) => s,
            None => {
                return None;
            },
        };
        let quote_volume = match items[6].str_of() {
            Some(s) => s,
            None => {
                return None;
            },
        };
        let is_frozen = match items[7].u32_of() {
            Some(u) => u,
            None => {
                return None;
            },
        };
        let high24 = match items[8].str_of() {
            Some(s) => s,
            None => {
                return None;
            },
        };
        let low24 = match items[9].str_of() {
            Some(s) => s,
            None => {
                return None;
            },
        };
        Some(Tick {
            pair,
            last,
            lowest_ask,
            highest_bid,
            percent_change,
            base_volume,
            quote_volume,
            is_frozen,
            high24,
            low24,
        })
    }
}

/// Decodes a text frame as a structured envelope. `NotJson` comes exactly
/// when the text is no JSON document, `BadShape` exactly when the document
/// does not have the envelope shape.
pub fn decode_envelope(text: &str) -> (r: Result<Response, DecodeError>)
    ensures
        r matches Ok(resp) ==> parsed_json(text@) matches Some(v) && spec_envelope(v) == Some(
            resp@,
        ),
        r == Err::<Response, DecodeError>(DecodeError::NotJson) <==> parsed_json(text@) is None,
        r == Err::<Response, DecodeError>(DecodeError::BadShape) <==> (parsed_json(text@)
            matches Some(v) && spec_envelope(v) is None),
{
    match parse_json(text) {
        None => Err(DecodeError::NotJson),
        Some(v) => match Response::from_json(v) {
            Ok(resp) => Ok(resp),
            Err(_) => Err(DecodeError::BadShape),
        },
    }
}

/// Decodes a text frame as a bare all-integer event list, with the same
/// error discipline as `decode_envelope`.
pub fn decode_event_list(text: &str) -> (r: Result<Vec<u32>, DecodeError>)
    ensures
        r matches Ok(ids) ==> parsed_json(text@) matches Some(v) && spec_event_list(v) == Some(
            ids@,
        ),
        r == Err::<Vec<u32>, DecodeError>(DecodeError::NotJson) <==> parsed_json(text@) is None,
        r == Err::<Vec<u32>, DecodeError>(DecodeError::BadShape) <==> (parsed_json(text@)
            matches Some(v) && spec_event_list(v) is None),
{
    match parse_json(text) {
        None => Err(DecodeError::NotJson),
        Some(v) => match event_list_from_json(&v) {
            Some(ids) => Ok(ids),
            None => Err(DecodeError::BadShape),
        },
    }
}

} // verus!
