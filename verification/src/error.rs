use vstd::prelude::*;

verus! {

/// Every failure that the client reports to its caller.
#[derive(Debug, Clone, PartialEq)]
pub enum Error {
    /// The exchange rejected a request with a code and a message.
    HuobiError { code: i64, msg: String },
    AssetsNotFound,
    SymbolNotFound,
    /// A signing operation was attempted without a configured credential.
    NoApiKeySet,
    /// One channel's transport connect or upgrade failed; this aborts the
    /// whole connect call rather than running with a partial channel set.
    ChannelConnectFailed,
    /// The merged event source has no registered channel, or all ended.
    NoStreamSubscribed,
    /// A channel received a close frame.
    ConnectionClosed,
    /// A frame's payload could not be inflated to UTF-8 text.
    DecodeFailed,
}

impl Error {
    /// A short description of the error, in place of a `Display` impl.
    pub fn describe(&self) -> (r: String)
        ensures
            r@.len() > 0,
    {
        let s: &str = match self {
            Error::HuobiError { .. } => "Huobi Future error",
            Error::AssetsNotFound => "Assets not found",
            Error::SymbolNotFound => "Symbol not found",
            Error::NoApiKeySet => "No Api key set for private api",
            Error::ChannelConnectFailed => "Channel connect failed",
            Error::NoStreamSubscribed => "No stream is subscribed",
            Error::ConnectionClosed => "Connection closed",
            Error::DecodeFailed => "Frame decode failed",
        };
        proof {
            reveal_strlit("Huobi Future error");
            reveal_strlit("Assets not found");
            reveal_strlit("Symbol not found");
            reveal_strlit("No Api key set for private api");
            reveal_strlit("Channel connect failed");
            reveal_strlit("No stream is subscribed");
            reveal_strlit("Connection closed");
            reveal_strlit("Frame decode failed");
        }
        String::from_str(s)
    }
}

/// The error payload of a rejected REST call.
#[derive(Debug, Clone, PartialEq)]
pub struct HuobiErrorData {
    pub code: i64,
    pub msg: String,
}

/// A REST reply: either the expected payload or the exchange's error pair.
#[derive(Debug, Clone, PartialEq)]
pub enum HuobiResponse<T> {
    Success(T),
    Error(HuobiErrorData),
}

impl<T> HuobiResponse<T> {
    /// Turns a reply into a result: a success is returned unchanged, and an
    /// error pair becomes `Error::HuobiError` with the same code and message.
    pub fn into_result(self) -> (r: Result<T, Error>)
        ensures
            (self matches HuobiResponse::Success(t) ==> r matches Result::Ok(rt) && rt == t),
            (self matches HuobiResponse::Error(e) ==> r matches Result::Err(re)
                && re == (Error::HuobiError { code: e.code, msg: e.msg })),
    {
        match self {
            HuobiResponse::Success(t) => Result::Ok(t),
            HuobiResponse::Error(HuobiErrorData { code, msg }) => {
                Result::Err(Error::HuobiError { code, msg })
            },
        }
    }
}

} // verus!
