use vstd::prelude::*;

verus! {

/// Envelope of every REST reply: either a data/tick payload or an error pair.
#[derive(Debug, Clone, PartialEq)]
pub struct APIResponse<R> {
    pub status: Option<String>,
    pub ts: Option<u64>,
    pub data: Option<R>,
    pub tick: Option<R>,
    pub ch: Option<String>,
    pub err_code: Option<ErrCodeEnum>,
    pub err_msg: Option<String>,
    pub err_code1: Option<ErrCodeEnum>,
    pub err_msg1: Option<String>,
}

/// Envelope of a market-data frame: a channel name, a timestamp and a tick payload.
#[derive(Debug, Clone, PartialEq)]
pub struct WSMarketResponse<T> {
    pub ch: String,
    pub ts: u64,
    pub tick: T,
}

/// Envelope of an account-data frame: an operation, a topic and a data payload.
#[derive(Debug, Clone, PartialEq)]
pub struct WSAccountResponse<T> {
    pub op: String,
    pub topic: String,
    pub ts: u64,
    pub uid: Option<String>,
    pub event: String,
    pub data: T,
}

/// The exchange reports error codes either as a string or as a number.
#[derive(Debug, Clone, PartialEq)]
pub enum ErrCodeEnum {
    S(String),
    U(u32),
}

/// A page of a paginated listing.
#[derive(Debug, Clone, PartialEq)]
pub struct Page<T> {
    pub orders: Option<Vec<T>>,
    pub trades: Option<Vec<T>>,
    pub total_page: u32,
    pub current_page: u32,
    pub total_size: u32,
}

/// Identifiers returned for a newly placed order.
#[derive(Debug, Clone, PartialEq)]
pub struct OrderId {
    pub order_id: u64,
    pub order_id_str: String,
    pub client_order_id: Option<u64>,
}

/// Outcome of a batch order placement.
#[derive(Debug, Clone, PartialEq)]
pub struct BatchOrder {
    pub errors: Vec<BatchOrderErrors>,
    pub success: Vec<BatchOrderSuccess>,
}

/// One failed entry of a batch order placement.
#[derive(Debug, Clone, PartialEq)]
pub struct BatchOrderErrors {
    pub index: u32,
    pub err_code: u32,
    pub err_msg: String,
}

/// One successful entry of a batch order placement.
#[derive(Debug, Clone, PartialEq)]
pub struct BatchOrderSuccess {
    pub index: u32,
    pub order_id: u64,
    pub order_id_str: String,
    pub client_order_id: Option<u64>,
}

/// Outcome of an order cancellation request.
#[derive(Debug, Clone, PartialEq)]
pub struct Cancel {
    pub errors: Vec<CancelError>,
    pub successes: String,
}

/// One failed entry of an order cancellation request.
#[derive(Debug, Clone, PartialEq)]
pub struct CancelError {
    pub order_id: String,
    pub err_code: u32,
    pub err_msg: String,
}

/// Reply to an asset transfer request.
#[derive(Debug, Clone, PartialEq)]
pub struct TransferResponse {
    pub status: String,
    pub data: Option<u64>,
    pub err_code: Option<String>,
    pub err_msg: Option<String>,
}

/// One of the fixed logical streaming channels, each with its own socket.
#[derive(Debug, Clone, Copy, PartialEq, Eq, Hash, Structural)]
pub enum Subscription {
    Market,
    Account,
    Index,
}

/// Subscribe acknowledgement sent on market and index channels.
#[derive(Debug, Clone, PartialEq)]
pub struct SubStatus {
    pub id: String,
    pub subbed: Option<String>,
    pub ts: u64,
    pub status: String,
    pub err_code: Option<String>,
    pub err_msg: Option<String>,
}

/// Keepalive challenge sent on market and index channels.
#[derive(Debug, Clone, Copy, PartialEq, Eq, Structural)]
pub struct MarketPing {
    pub ping: u64,
}

/// The account channel reports timestamps either as a string or as a number.
#[derive(Debug, Clone, PartialEq)]
pub enum Ts {
    St(String),
    It(u64),
}

/// Control acknowledgement sent on the account channel, with an optional
/// error code; also carries the account channel's keepalive challenge.
#[derive(Debug, Clone, PartialEq)]
pub struct OpStatus {
    pub op: String,
    pub otype: Option<String>,
    pub ts: Ts,
    pub err_code: Option<u32>,
    pub err_msg: Option<String>,
    pub cid: Option<String>,
    pub topic: Option<String>,
}

/// Basis tick of an index channel subscription.
#[derive(Debug, Clone, PartialEq)]
pub struct Basis {
    pub id: u64,
    pub contract_price: String,
    pub index_price: String,
    pub basis: String,
    pub basis_rate: String,
}

/// A decoded, typed application-level message produced from one frame.
///
/// Market and index payloads keep their envelope fields (`ch`, `ts`) typed
/// and carry the tick payload as its raw JSON text; account payloads keep
/// `op`, `topic` and `ts` typed and carry the data payload as raw JSON text.
#[derive(Debug, Clone, PartialEq)]
pub enum WebsocketEvent {
    MarketPing(MarketPing),
    SubStatus(SubStatus),
    OrderBook(WSMarketResponse<String>),
    BBO(WSMarketResponse<String>),
    IncrementalOrderBook(WSMarketResponse<String>),
    Kline(WSMarketResponse<String>),
    TradeDetail(WSMarketResponse<String>),
    Account(WSAccountResponse<String>),
    Order(WSAccountResponse<String>),
    MatchOrder(WSAccountResponse<String>),
    Position(WSAccountResponse<String>),
    Liquidation(WSAccountResponse<String>),
    ContractInfo(WSAccountResponse<String>),
    TriggerOrder(WSAccountResponse<String>),
    Basis(WSMarketResponse<String>),
    Index(WSMarketResponse<String>),
    OpStatus(OpStatus),
    Ping,
    Pong,
    Binary(Vec<u8>),
    Text(String),
}

impl WebsocketEvent {
    /// Control events are consumed by the protocol loop; only data events
    /// are forwarded to the caller's handler.
    pub open spec fn spec_is_control(&self) -> bool {
        match self {
            WebsocketEvent::MarketPing(_) => true,
            WebsocketEvent::SubStatus(_) => true,
            WebsocketEvent::OpStatus(_) => true,
            WebsocketEvent::Ping => true,
            WebsocketEvent::Pong => true,
            WebsocketEvent::Binary(_) => true,
            WebsocketEvent::Text(_) => true,
            _ => false,
        }
    }

    #[verifier::when_used_as_spec(spec_is_control)]
    pub fn is_control(&self) -> (r: bool)
        ensures
            r == self.spec_is_control(),
    {
        match self {
            WebsocketEvent::MarketPing(_) => true,
            WebsocketEvent::SubStatus(_) => true,
            WebsocketEvent::OpStatus(_) => true,
            WebsocketEvent::Ping => true,
            WebsocketEvent::Pong => true,
            WebsocketEvent::Binary(_) => true,
            WebsocketEvent::Text(_) => true,
            _ => false,
        }
    }
}

} // verus!
