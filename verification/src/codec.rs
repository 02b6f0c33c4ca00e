use vstd::prelude::*;
use crate::models::{
    WebsocketEvent,
    MarketPing,
    OpStatus,
    SubStatus,
    Ts,
    WSMarketResponse,
    WSAccountResponse,
};
use crate::error::Error;
use crate::text::{contains_sub, has_prefix, str_contains, str_has_prefix, str_eq};

verus! {

// ------------------------------------------------------------------
// Trusted probes over JSON text.
//
// Each probe parses the payload and reads one field of the top-level
// object. serde_json's parse is a function of the text alone, so each
// probe's result carries a name that the classifier's contract speaks of.
// ------------------------------------------------------------------

/// The unsigned integer at `key` of the top-level JSON object of `s`,
/// if `s` is a JSON object holding one there.
pub uninterp spec fn json_u64_of(s: Seq<char>, key: Seq<char>) -> Option<u64>;

/// Relies on serde_json's `from_str::<Value>`, `Value::get` and
/// `Value::as_u64`: reads the unsigned integer at `key` of the top-level
/// JSON object, a function of the two texts alone.
#[verifier::external_body]
fn json_u64_field(s: &str, key: &str) -> (r: Option<u64>)
    ensures
        r == json_u64_of(s@, key@),
{
    match serde_json::from_str::<serde_json::Value>(s) {
        Ok(v) => v.get(key).and_then(|f| f.as_u64()),
        Err(_) => None,
    }
}

/// The string at `key` of the top-level JSON object of `s`, if any.
pub uninterp spec fn json_str_of(s: Seq<char>, key: Seq<char>) -> Option<Seq<char>>;

/// Relies on serde_json's `from_str::<Value>`, `Value::get` and
/// `Value::as_str`: reads the string at `key` of the top-level JSON
/// object, a function of the two texts alone.
#[verifier::external_body]
fn json_str_field(s: &str, key: &str) -> (r: Option<String>)
    ensures
        (match r {
            Some(t) => json_str_of(s@, key@) == Some(t@),
            None => json_str_of(s@, key@) is None,
        }),
{
    match serde_json::from_str::<serde_json::Value>(s) {
        Ok(v) => v.get(key).and_then(|f| f.as_str()).map(|t| t.to_string()),
        Err(_) => None,
    }
}

/// The compact JSON text of the value at `key` of the top-level JSON
/// object of `s`, if any.
pub uninterp spec fn json_raw_of(s: Seq<char>, key: Seq<char>) -> Option<Seq<char>>;

/// Relies on serde_json's `from_str::<Value>`, `Value::get` and
/// `to_string`: renders the value at `key` of the top-level JSON object
/// back to compact JSON text, a function of the two texts alone.
#[verifier::external_body]
fn json_raw_field(s: &str, key: &str) -> (r: Option<String>)
    ensures
        (match r {
            Some(t) => json_raw_of(s@, key@) == Some(t@),
            None => json_raw_of(s@, key@) is None,
        }),
{
    match serde_json::from_str::<serde_json::Value>(s) {
        Ok(v) => v.get(key).and_then(|f| serde_json::to_string(f).ok()),
        Err(_) => None,
    }
}

/// Whether the top-level JSON object of `s` has a `key` member.
pub uninterp spec fn json_has_of(s: Seq<char>, key: Seq<char>) -> bool;

/// Relies on serde_json's `from_str::<Value>` and `Value::get`: whether
/// the top-level JSON object has a `key` member, a function of the two
/// texts alone.
#[verifier::external_body]
fn json_has_field(s: &str, key: &str) -> (r: bool)
    ensures
        r == json_has_of(s@, key@),
{
    match serde_json::from_str::<serde_json::Value>(s) {
        Ok(v) => v.get(key).is_some(),
        Err(_) => false,
    }
}

/// The UTF-8 text that a gzip stream inflates to, or nothing where the
/// stream is not a gzip stream of UTF-8 text.
pub uninterp spec fn gunzip_of(data: Seq<u8>) -> Option<Seq<char>>;

/// Relies on flate2's `read::GzDecoder` with std's `Read::read_to_string`:
/// inflates a gzip stream to UTF-8 text, a function of the bytes alone.
#[verifier::external_body]
fn gunzip_to_string(data: &Vec<u8>) -> (r: Option<String>)
    ensures
        (match r {
            Some(t) => gunzip_of(data@) == Some(t@),
            None => gunzip_of(data@) is None,
        }),
{
    let mut d = flate2::read::GzDecoder::new(data.as_slice());
    let mut s = String::new();
    match std::io::Read::read_to_string(&mut d, &mut s) {
        Ok(_) => Some(s),
        Err(_) => None,
    }
}

// ------------------------------------------------------------------
// Classification of a decoded payload into one event.
// ------------------------------------------------------------------

/// The value of an optional integer field, zero where it is absent.
pub open spec fn u64_or_zero(o: Option<u64>) -> u64 {
    match o {
        Some(v) => v,
        None => 0,
    }
}

/// The view of an optional string.
pub open spec fn opt_view(o: Option<String>) -> Option<Seq<char>> {
    match o {
        Some(s) => Some(s@),
        None => None,
    }
}

/// The kinds of account-channel data payloads, told apart by topic.
#[derive(Debug, Clone, Copy, PartialEq, Eq, Structural)]
pub enum AccountKind {
    Order,
    MatchOrder,
    Account,
    Position,
    Liquidation,
    ContractInfo,
    TriggerOrder,
}

/// Which account payload a notification topic names. The predicates are
/// tried in this order: `orders.` prefix, `matchOrders.` prefix,
/// `accounts` prefix, `positions` prefix, a `liquidation_orders` segment,
/// a `contract_info` segment, `trigger_order` prefix.
pub open spec fn account_kind_of(t: Seq<char>) -> Option<AccountKind> {
    if has_prefix(t, "orders."@) {
        Some(AccountKind::Order)
    } else if has_prefix(t, "matchOrders."@) {
        Some(AccountKind::MatchOrder)
    } else if has_prefix(t, "accounts"@) {
        Some(AccountKind::Account)
    } else if has_prefix(t, "positions"@) {
        Some(AccountKind::Position)
    } else if contains_sub(t, "liquidation_orders"@) {
        Some(AccountKind::Liquidation)
    } else if contains_sub(t, "contract_info"@) {
        Some(AccountKind::ContractInfo)
    } else if has_prefix(t, "trigger_order"@) {
        Some(AccountKind::TriggerOrder)
    } else {
        None
    }
}

fn account_kind(t: &str) -> (r: Option<AccountKind>)
    ensures
        r == account_kind_of(t@),
{
    if str_has_prefix(t, "orders.") {
        Some(AccountKind::Order)
    } else if str_has_prefix(t, "matchOrders.") {
        Some(AccountKind::MatchOrder)
    } else if str_has_prefix(t, "accounts") {
        Some(AccountKind::Account)
    } else if str_has_prefix(t, "positions") {
        Some(AccountKind::Position)
    } else if str_contains(t, "liquidation_orders") {
        Some(AccountKind::Liquidation)
    } else if str_contains(t, "contract_info") {
        Some(AccountKind::ContractInfo)
    } else if str_has_prefix(t, "trigger_order") {
        Some(AccountKind::TriggerOrder)
    } else {
        None
    }
}

/// The kinds of market and index data payloads, told apart by channel name.
#[derive(Debug, Clone, Copy, PartialEq, Eq, Structural)]
pub enum MarketKind {
    Kline,
    IncrementalOrderBook,
    OrderBook,
    Bbo,
    TradeDetail,
    Basis,
    Index,
}

/// Which market payload a channel name carries. The predicates are tried
/// in this order: a `.kline.` segment, a `.depth` segment (incremental
/// where `.high_freq` also occurs), `.bbo`, `.trade.detail`, `.basis`,
/// `.index`.
pub open spec fn market_kind_of(c: Seq<char>) -> Option<MarketKind> {
    if contains_sub(c, ".kline."@) {
        Some(MarketKind::Kline)
    } else if contains_sub(c, ".depth"@) {
        if contains_sub(c, ".high_freq"@) {
            Some(MarketKind::IncrementalOrderBook)
        } else {
            Some(MarketKind::OrderBook)
        }
    } else if contains_sub(c, ".bbo"@) {
        Some(MarketKind::Bbo)
    } else if contains_sub(c, ".trade.detail"@) {
        Some(MarketKind::TradeDetail)
    } else if contains_sub(c, ".basis"@) {
        Some(MarketKind::Basis)
    } else if contains_sub(c, ".index"@) {
        Some(MarketKind::Index)
    } else {
        None
    }
}

fn market_kind(c: &str) -> (r: Option<MarketKind>)
    ensures
        r == market_kind_of(c@),
{
    if str_contains(c, ".kline.") {
        Some(MarketKind::Kline)
    } else if str_contains(c, ".depth") {
        if str_contains(c, ".high_freq") {
            Some(MarketKind::IncrementalOrderBook)
        } else {
            Some(MarketKind::OrderBook)
        }
    } else if str_contains(c, ".bbo") {
        Some(MarketKind::Bbo)
    } else if str_contains(c, ".trade.detail") {
        Some(MarketKind::TradeDetail)
    } else if str_contains(c, ".basis") {
        Some(MarketKind::Basis)
    } else if str_contains(c, ".index") {
        Some(MarketKind::Index)
    } else {
        None
    }
}

/// How a market envelope's fields are read from the payload: the channel
/// name, the integer timestamp (zero where absent), and the tick payload
/// as raw JSON text (the whole payload where it cannot be re-rendered).
pub open spec fn market_env_rel(s: Seq<char>, env: WSMarketResponse<String>) -> bool {
    &&& json_str_of(s, "ch"@) == Some(env.ch@)
    &&& env.ts == u64_or_zero(json_u64_of(s, "ts"@))
    &&& (match json_raw_of(s, "tick"@) {
        Some(d) => env.tick@ == d,
        None => env.tick@ == s,
    })
}

/// How an account envelope's fields are read from the payload. With
/// `whole`, the data payload is the whole frame text (order payloads keep
/// their fields at the top level); otherwise it is the `data` member.
pub open spec fn account_env_rel(s: Seq<char>, env: WSAccountResponse<String>, whole: bool) -> bool {
    &&& json_str_of(s, "op"@) == Some(env.op@)
    &&& json_str_of(s, "topic"@) == Some(env.topic@)
    &&& env.ts == u64_or_zero(json_u64_of(s, "ts"@))
    &&& opt_view(env.uid) == json_str_of(s, "uid"@)
    &&& (match json_str_of(s, "event"@) {
        Some(e) => env.event@ == e,
        None => env.event@ == Seq::<char>::empty(),
    })
    &&& (if whole {
        env.data@ == s
    } else {
        match json_raw_of(s, "data"@) {
            Some(d) => env.data@ == d,
            None => env.data@ == s,
        }
    })
}

/// The error code of a control acknowledgement, where it fits a `u32`.
pub open spec fn err_code_u32_of(s: Seq<char>) -> Option<u32> {
    match json_u64_of(s, "err-code"@) {
        Some(v) => if v <= 0xFFFFFFFF {
            Some(v as u32)
        } else {
            None
        },
        None => None,
    }
}

/// How a control acknowledgement's fields are read from the payload.
pub open spec fn op_status_rel(s: Seq<char>, o: OpStatus) -> bool {
    &&& json_str_of(s, "op"@) == Some(o.op@)
    &&& opt_view(o.otype) == json_str_of(s, "type"@)
    &&& (match o.ts {
        Ts::It(v) => (match json_u64_of(s, "ts"@) {
            Some(u) => v == u,
            None => v == 0 && json_str_of(s, "ts"@) is None,
        }),
        Ts::St(t) => json_u64_of(s, "ts"@) is None && json_str_of(s, "ts"@) == Some(t@),
    })
    &&& o.err_code == err_code_u32_of(s)
    &&& opt_view(o.err_msg) == json_str_of(s, "err-msg"@)
    &&& opt_view(o.cid) == json_str_of(s, "cid"@)
    &&& opt_view(o.topic) == json_str_of(s, "topic"@)
}

/// How a subscribe acknowledgement's fields are read from the payload.
pub open spec fn sub_status_rel(s: Seq<char>, x: SubStatus) -> bool {
    &&& json_str_of(s, "id"@) == Some(x.id@)
    &&& json_str_of(s, "status"@) == Some(x.status@)
    &&& opt_view(x.subbed) == json_str_of(s, "subbed"@)
    &&& x.ts == u64_or_zero(json_u64_of(s, "ts"@))
    &&& opt_view(x.err_code) == json_str_of(s, "err-code"@)
    &&& opt_view(x.err_msg) == json_str_of(s, "err-msg"@)
}

/// What the classifier returns for a payload text. The shapes are tried
/// in a fixed order: a `ping` integer; an `op` member (a `notify` with a
/// recognized topic is a data payload, everything else a control
/// acknowledgement); an `id` with a `status` (a subscribe
/// acknowledgement); a `ch` with a `tick` and a recognized channel name
/// (a market payload); and otherwise the raw-text fallback.
pub open spec fn classify_rel(s: Seq<char>, r: WebsocketEvent) -> bool {
    if json_u64_of(s, "ping"@) is Some {
        r == WebsocketEvent::MarketPing(
            MarketPing { ping: json_u64_of(s, "ping"@)->Some_0 },
        )
    } else if json_str_of(s, "op"@) is Some {
        if json_str_of(s, "op"@)->Some_0 == "notify"@ && json_str_of(s, "topic"@) is Some
            && account_kind_of(json_str_of(s, "topic"@)->Some_0) is Some {
            match account_kind_of(json_str_of(s, "topic"@)->Some_0)->Some_0 {
                AccountKind::Order => r matches WebsocketEvent::Order(env) && account_env_rel(
                    s,
                    env,
                    true,
                ),
                AccountKind::MatchOrder => r matches WebsocketEvent::MatchOrder(env)
                    && account_env_rel(s, env, true),
                AccountKind::Account => r matches WebsocketEvent::Account(env) && account_env_rel(
                    s,
                    env,
                    false,
                ),
                AccountKind::Position => r matches WebsocketEvent::Position(env)
                    && account_env_rel(s, env, false),
                AccountKind::Liquidation => r matches WebsocketEvent::Liquidation(env)
                    && account_env_rel(s, env, false),
                AccountKind::ContractInfo => r matches WebsocketEvent::ContractInfo(env)
                    && account_env_rel(s, env, false),
                AccountKind::TriggerOrder => r matches WebsocketEvent::TriggerOrder(env)
                    && account_env_rel(s, env, false),
            }
        } else {
            r matches WebsocketEvent::OpStatus(o) && op_status_rel(s, o)
        }
    } else if json_str_of(s, "id"@) is Some && json_str_of(s, "status"@) is Some {
        r matches WebsocketEvent::SubStatus(x) && sub_status_rel(s, x)
    } else if json_str_of(s, "ch"@) is Some && json_has_of(s, "tick"@) && market_kind_of(
        json_str_of(s, "ch"@)->Some_0,
    ) is Some {
        match market_kind_of(json_str_of(s, "ch"@)->Some_0)->Some_0 {
            MarketKind::Kline => r matches WebsocketEvent::Kline(env) && market_env_rel(s, env),
            MarketKind::IncrementalOrderBook => r matches WebsocketEvent::IncrementalOrderBook(env)
                && market_env_rel(s, env),
            MarketKind::OrderBook => r matches WebsocketEvent::OrderBook(env) && market_env_rel(
                s,
                env,
            ),
            MarketKind::Bbo => r matches WebsocketEvent::BBO(env) && market_env_rel(s, env),
            MarketKind::TradeDetail => r matches WebsocketEvent::TradeDetail(env)
                && market_env_rel(s, env),
            MarketKind::Basis => r matches WebsocketEvent::Basis(env) && market_env_rel(s, env),
            MarketKind::Index => r matches WebsocketEvent::Index(env) && market_env_rel(s, env),
        }
    } else {
        r matches WebsocketEvent::Text(t) && t@ == s
    }
}

/// Builds a market envelope from the payload.
fn read_market_env(payload: &String, ch: String) -> (env: WSMarketResponse<String>)
    requires
        json_str_of(payload@, "ch"@) == Some(ch@),
    ensures
        market_env_rel(payload@, env),
{
    let ts: u64 = match json_u64_field(payload.as_str(), "ts") {
        Some(v) => v,
        None => 0,
    };
    let tick: String = match json_raw_field(payload.as_str(), "tick") {
        Some(d) => d,
        None => payload.clone(),
    };
    WSMarketResponse { ch, ts, tick }
}

/// Builds an account envelope from the payload.
fn read_account_env(payload: &String, op: String, topic: String, whole: bool) -> (env:
    WSAccountResponse<String>)
    requires
        json_str_of(payload@, "op"@) == Some(op@),
        json_str_of(payload@, "topic"@) == Some(topic@),
    ensures
        account_env_rel(payload@, env, whole),
{
    let ts: u64 = match json_u64_field(payload.as_str(), "ts") {
        Some(v) => v,
        None => 0,
    };
    let uid = json_str_field(payload.as_str(), "uid");
    let event: String = match json_str_field(payload.as_str(), "event") {
        Some(e) => e,
        None => String::new(),
    };
    let data: String = if whole {
        payload.clone()
    } else {
        match json_raw_field(payload.as_str(), "data") {
            Some(d) => d,
            None => payload.clone(),
        }
    };
    WSAccountResponse { op, topic, ts, uid, event, data }
}

/// Builds a control acknowledgement from the payload.
fn read_op_status(payload: &String, op: String) -> (o: OpStatus)
    requires
        json_str_of(payload@, "op"@) == Some(op@),
    ensures
        op_status_rel(payload@, o),
{
    let otype = json_str_field(payload.as_str(), "type");
    let ts: Ts = match json_u64_field(payload.as_str(), "ts") {
        Some(v) => Ts::It(v),
        None => match json_str_field(payload.as_str(), "ts") {
            Some(t) => Ts::St(t),
            None => Ts::It(0),
        },
    };
    let err_code: Option<u32> = match json_u64_field(payload.as_str(), "err-code") {
        Some(v) => if v <= 0xFFFFFFFF {
            Some(v as u32)
        } else {
            None
        },
        None => None,
    };
    let err_msg = json_str_field(payload.as_str(), "err-msg");
    let cid = json_str_field(payload.as_str(), "cid");
    let topic = json_str_field(payload.as_str(), "topic");
    OpStatus { op, otype, ts, err_code, err_msg, cid, topic }
}

/// Classifies one decoded payload text into an event, by the fixed
/// priority order of [`classify_rel`]. Payloads of no recognized shape
/// fall back to the raw-text variant instead of failing.
pub fn classify(payload: String) -> (r: WebsocketEvent)
    ensures
        classify_rel(payload@, r),
{
    if let Some(ts) = json_u64_field(payload.as_str(), "ping") {
        return WebsocketEvent::MarketPing(MarketPing { ping: ts });
    }
    if let Some(op) = json_str_field(payload.as_str(), "op") {
        if str_eq(op.as_str(), "notify") {
            if let Some(topic) = json_str_field(payload.as_str(), "topic") {
                if let Some(kind) = account_kind(topic.as_str()) {
                    return match kind {
                        AccountKind::Order => WebsocketEvent::Order(
                            read_account_env(&payload, op, topic, true),
                        ),
                        AccountKind::MatchOrder => WebsocketEvent::MatchOrder(
                            read_account_env(&payload, op, topic, true),
                        ),
                        AccountKind::Account => WebsocketEvent::Account(
                            read_account_env(&payload, op, topic, false),
                        ),
                        AccountKind::Position => WebsocketEvent::Position(
                            read_account_env(&payload, op, topic, false),
                        ),
                        AccountKind::Liquidation => WebsocketEvent::Liquidation(
                            read_account_env(&payload, op, topic, false),
                        ),
                        AccountKind::ContractInfo => WebsocketEvent::ContractInfo(
                            read_account_env(&payload, op, topic, false),
                        ),
                        AccountKind::TriggerOrder => WebsocketEvent::TriggerOrder(
                            read_account_env(&payload, op, topic, false),
                        ),
                    };
                }
            }
        }
        return WebsocketEvent::OpStatus(read_op_status(&payload, op));
    }
    if json_str_field(payload.as_str(), "id").is_some() {
        if json_str_field(payload.as_str(), "status").is_some() {
            let id = json_str_field(payload.as_str(), "id").unwrap();
            let status = json_str_field(payload.as_str(), "status").unwrap();
            let subbed = json_str_field(payload.as_str(), "subbed");
            let ts: u64 = match json_u64_field(payload.as_str(), "ts") {
                Some(v) => v,
                None => 0,
            };
            let err_code = json_str_field(payload.as_str(), "err-code");
            let err_msg = json_str_field(payload.as_str(), "err-msg");
            return WebsocketEvent::SubStatus(
                SubStatus { id, subbed, ts, status, err_code, err_msg },
            );
        }
    }
    if let Some(ch) = json_str_field(payload.as_str(), "ch") {
        if json_has_field(payload.as_str(), "tick") {
            if let Some(kind) = market_kind(ch.as_str()) {
                return match kind {
                    MarketKind::Kline => WebsocketEvent::Kline(read_market_env(&payload, ch)),
                    MarketKind::IncrementalOrderBook => WebsocketEvent::IncrementalOrderBook(
                        read_market_env(&payload, ch),
                    ),
                    MarketKind::OrderBook => WebsocketEvent::OrderBook(
                        read_market_env(&payload, ch),
                    ),
                    MarketKind::Bbo => WebsocketEvent::BBO(read_market_env(&payload, ch)),
                    MarketKind::TradeDetail => WebsocketEvent::TradeDetail(
                        read_market_env(&payload, ch),
                    ),
                    MarketKind::Basis => WebsocketEvent::Basis(read_market_env(&payload, ch)),
                    MarketKind::Index => WebsocketEvent::Index(read_market_env(&payload, ch)),
                };
            }
        }
    }
    WebsocketEvent::Text(payload)
}

/// One transport-level message unit, as handed in by the socket layer.
#[derive(Debug, Clone, PartialEq)]
pub enum Frame {
    Text(String),
    Binary(Vec<u8>),
    Ping(Vec<u8>),
    Pong(Vec<u8>),
    Close,
}

/// Decodes one frame into one event.
///
/// Text frames classify directly. Binary, ping and pong frames carry a
/// gzip payload: they inflate to text and classify the same way, except
/// that an empty ping or pong payload is surfaced as the bare keepalive
/// variant. A payload that does not inflate to text fails with
/// `DecodeFailed`; a close frame fails with `ConnectionClosed`.
pub fn parse_message(msg: Frame) -> (r: Result<WebsocketEvent, Error>)
    ensures
        (match msg {
            Frame::Text(t) => r matches Ok(e) && classify_rel(t@, e),
            Frame::Binary(b) => (match gunzip_of(b@) {
                Some(t) => r matches Ok(e) && classify_rel(t, e),
                None => r == Err::<WebsocketEvent, Error>(Error::DecodeFailed),
            }),
            Frame::Ping(b) => if b@.len() == 0 {
                r == Ok::<WebsocketEvent, Error>(WebsocketEvent::Ping)
            } else {
                (match gunzip_of(b@) {
                    Some(t) => r matches Ok(e) && classify_rel(t, e),
                    None => r == Err::<WebsocketEvent, Error>(Error::DecodeFailed),
                })
            },
            Frame::Pong(b) => if b@.len() == 0 {
                r == Ok::<WebsocketEvent, Error>(WebsocketEvent::Pong)
            } else {
                (match gunzip_of(b@) {
                    Some(t) => r matches Ok(e) && classify_rel(t, e),
                    None => r == Err::<WebsocketEvent, Error>(Error::DecodeFailed),
                })
            },
            Frame::Close => r == Err::<WebsocketEvent, Error>(Error::ConnectionClosed),
        }),
{
    match msg {
        Frame::Text(t) => Ok(classify(t)),
        Frame::Binary(b) => match gunzip_to_string(&b) {
            Some(t) => Ok(classify(t)),
            None => Err(Error::DecodeFailed),
        },
        Frame::Ping(b) => {
            if b.len() == 0 {
                Ok(WebsocketEvent::Ping)
            } else {
                match gunzip_to_string(&b) {
                    Some(t) => Ok(classify(t)),
                    None => Err(Error::DecodeFailed),
                }
            }
        },
        Frame::Pong(b) => {
            if b.len() == 0 {
                Ok(WebsocketEvent::Pong)
            } else {
                match gunzip_to_string(&b) {
                    Some(t) => Ok(classify(t)),
                    None => Err(Error::DecodeFailed),
                }
            }
        },
        Frame::Close => Err(Error::ConnectionClosed),
    }
}

} // verus!
