use huobi_future::error::{Error, HuobiErrorData, HuobiResponse};
use huobi_future::models::{MarketPing, OpStatus, Subscription, Ts, WSMarketResponse,
    WebsocketEvent};
use huobi_future::protocol::SubscriptionProtocol;

const TS: &str = "2020-01-01T00:00:00";

fn op_status(op: &str, err_code: Option<u32>) -> OpStatus {
    OpStatus {
        op: op.to_string(),
        otype: None,
        ts: Ts::It(1),
        err_code,
        err_msg: None,
        cid: None,
        topic: None,
    }
}

fn topics(v: &[&str]) -> Vec<String> {
    v.iter().map(|t| t.to_string()).collect()
}

#[test]
fn market_subscribe_frames() {
    let mut p = SubscriptionProtocol::new("abc123", "s3cr3t");
    let frames = p
        .subscribe_channel(Subscription::Market, topics(&["market.BTC_CQ.kline.1min"]), TS)
        .unwrap();
    assert_eq!(frames.len(), 1);
    assert_eq!(frames[0].channel, Subscription::Market);
    assert_eq!(
        frames[0].text,
        "{\"sub\": \"market.BTC_CQ.kline.1min\", \"id\": \"huobifuture_rust_async\"}"
    );
}

#[test]
fn high_freq_topic_selects_snapshot_variant() {
    let mut p = SubscriptionProtocol::new("abc123", "s3cr3t");
    let frames = p
        .subscribe_channel(
            Subscription::Market,
            topics(&["market.BTC_CQ.depth.size_20.high_freq"]),
            TS,
        )
        .unwrap();
    assert_eq!(
        frames[0].text,
        "{\"sub\": \"market.BTC_CQ.depth.size_20.high_freq\", \"data_type\": \"snapshot\", \"id\": \"huobifuture_rust_async\"}"
    );
}

#[test]
fn account_subscribe_sends_only_the_auth_frame() {
    let mut p = SubscriptionProtocol::new("abc123", "s3cr3t");
    let frames = p
        .subscribe_channel(Subscription::Account, topics(&["orders.btc", "accounts.btc"]), TS)
        .unwrap();
    assert_eq!(frames.len(), 1);
    assert_eq!(frames[0].channel, Subscription::Account);
    assert_eq!(
        frames[0].text,
        "{\"AccessKeyId\": \"abc123\", \"SignatureMethod\": \"HmacSHA256\", \"SignatureVersion\": \"2\", \"Timestamp\": \"2020-01-01T00:00:00\", \"Signature\": \"z7JOsSeqM3HfXOqWZ+UwUcuQJkqi4a5u6denhy2ybZ4=\", \"op\": \"auth\", \"type\": \"api\"}"
    );
    assert!(!frames[0].text.contains("\"op\": \"sub\""));
}

#[test]
fn account_subscribe_without_credential_fails() {
    let mut p = SubscriptionProtocol::without_credential();
    let r = p.subscribe_channel(Subscription::Account, topics(&["orders.btc"]), TS);
    assert_eq!(r, Err(Error::NoApiKeySet));
}

#[test]
fn check_key_reports_credential() {
    let p = SubscriptionProtocol::new("k", "s");
    assert_eq!(p.check_key(), Ok(("k".to_string(), "s".to_string())));
    let q = SubscriptionProtocol::without_credential();
    assert_eq!(q.check_key(), Err(Error::NoApiKeySet));
}

#[test]
fn generate_signature_matches_fixed_vector() {
    let p = SubscriptionProtocol::new("abc123", "s3cr3t");
    let mut params: Vec<(String, String)> = Vec::new();
    let sig = p.generate_signature(&mut params, TS).unwrap();
    assert_eq!(sig, "z7JOsSeqM3HfXOqWZ+UwUcuQJkqi4a5u6denhy2ybZ4=");
    let keys: Vec<&str> = params.iter().map(|p| p.0.as_str()).collect();
    assert_eq!(keys, ["AccessKeyId", "SignatureMethod", "SignatureVersion", "Timestamp"]);
}

#[test]
fn ping_fans_out_to_every_non_account_channel() {
    let mut p = SubscriptionProtocol::new("abc123", "s3cr3t");
    p.subscribe_channel(Subscription::Market, topics(&["market.BTC_CQ.kline.1min"]), TS)
        .unwrap();
    p.subscribe_channel(Subscription::Account, topics(&["orders.btc"]), TS).unwrap();
    p.subscribe_channel(Subscription::Index, topics(&["market.BTC-USD.index.1min"]), TS)
        .unwrap();
    let r = p.on_event(WebsocketEvent::MarketPing(MarketPing { ping: 18212558000 }), 7);
    assert_eq!(r.frames.len(), 2);
    assert_eq!(r.frames[0].channel, Subscription::Market);
    assert_eq!(r.frames[1].channel, Subscription::Index);
    assert_eq!(r.frames[0].text, "{\"pong\": 18212558000}");
    assert_eq!(r.frames[1].text, "{\"pong\": 18212558000}");
    assert_eq!(r.deliver, None);
    assert_eq!(r.diagnostic, None);
}

#[test]
fn account_ping_is_answered_on_the_account_channel_alone() {
    let mut p = SubscriptionProtocol::new("abc123", "s3cr3t");
    p.subscribe_channel(Subscription::Market, topics(&["market.BTC_CQ.kline.1min"]), TS)
        .unwrap();
    p.subscribe_channel(Subscription::Account, topics(&["orders.btc"]), TS).unwrap();
    let r = p.on_event(WebsocketEvent::OpStatus(op_status("ping", None)), 456);
    assert_eq!(r.frames.len(), 1);
    assert_eq!(r.frames[0].channel, Subscription::Account);
    assert_eq!(r.frames[0].text, "{\"op\": \"pong\", \"ts\": 456}");
}

#[test]
fn no_account_topic_subscribe_before_auth_ack() {
    let mut p = SubscriptionProtocol::new("abc123", "s3cr3t");
    let start = p
        .subscribe_channel(Subscription::Account, topics(&["orders.btc", "accounts.btc"]), TS)
        .unwrap();
    assert!(start.iter().all(|f| !f.text.contains("\"op\": \"sub\"")));
    // Events before the acknowledgement provoke no account subscribes.
    let r1 = p.on_event(WebsocketEvent::OpStatus(op_status("ping", None)), 1);
    assert!(r1.frames.iter().all(|f| !f.text.contains("\"op\": \"sub\"")));
    let r2 = p.on_event(WebsocketEvent::OpStatus(op_status("auth", Some(2002))), 1);
    assert_eq!(r2.frames.len(), 0);
    // The acknowledgement releases exactly one subscribe per topic, in order.
    let r3 = p.on_event(WebsocketEvent::OpStatus(op_status("auth", Some(0))), 1);
    assert_eq!(r3.frames.len(), 2);
    assert_eq!(r3.frames[0].channel, Subscription::Account);
    assert_eq!(
        r3.frames[0].text,
        "{\"op\": \"sub\", \"cid\": \"huobifuture-rust-async\", \"topic\": \"orders.btc\"}"
    );
    assert_eq!(
        r3.frames[1].text,
        "{\"op\": \"sub\", \"cid\": \"huobifuture-rust-async\", \"topic\": \"accounts.btc\"}"
    );
    assert!(p.auth_acked);
    assert!(p.account_subs_sent);
}

#[test]
fn failed_auth_is_a_diagnostic_not_fatal() {
    let mut p = SubscriptionProtocol::new("abc123", "s3cr3t");
    p.subscribe_channel(Subscription::Account, topics(&["orders.btc"]), TS).unwrap();
    let r = p.on_event(WebsocketEvent::OpStatus(op_status("auth", Some(2002))), 1);
    assert_eq!(r.frames.len(), 0);
    assert!(r.diagnostic.is_some());
    assert_eq!(r.diagnostic.unwrap().err_code, Some(2002));
    assert!(!p.auth_acked);
}

#[test]
fn op_status_error_code_is_reported() {
    let mut p = SubscriptionProtocol::new("abc123", "s3cr3t");
    let r = p.on_event(WebsocketEvent::OpStatus(op_status("sub", Some(17))), 1);
    assert_eq!(r.frames.len(), 0);
    assert_eq!(r.deliver, None);
    assert_eq!(r.diagnostic.unwrap().err_code, Some(17));
}

#[test]
fn data_events_are_delivered_verbatim() {
    let mut p = SubscriptionProtocol::new("abc123", "s3cr3t");
    let ev = WebsocketEvent::Kline(WSMarketResponse {
        ch: "market.BTC_CQ.kline.1min".to_string(),
        ts: 9,
        tick: "{\"id\":5}".to_string(),
    });
    let r = p.on_event(ev.clone(), 1);
    assert_eq!(r.frames.len(), 0);
    assert_eq!(r.deliver, Some(ev));
    assert_eq!(r.diagnostic, None);
}

#[test]
fn control_events_are_not_delivered() {
    let mut p = SubscriptionProtocol::new("abc123", "s3cr3t");
    let r = p.on_event(WebsocketEvent::Text("noise".to_string()), 1);
    assert_eq!(r.deliver, None);
    assert_eq!(r.frames.len(), 0);
}

#[test]
fn resubscribing_a_channel_replaces_its_topics() {
    let mut p = SubscriptionProtocol::new("abc123", "s3cr3t");
    p.subscribe_channel(Subscription::Market, topics(&["market.BTC_CQ.kline.1min"]), TS)
        .unwrap();
    p.subscribe_channel(Subscription::Market, topics(&["market.BTC_CQ.trade.detail"]), TS)
        .unwrap();
    assert_eq!(p.subs.len(), 1);
    assert_eq!(p.subs[0].1, ["market.BTC_CQ.trade.detail"]);
}

#[test]
fn error_descriptions_are_nonempty() {
    for e in [
        Error::HuobiError { code: 1, msg: "m".to_string() },
        Error::AssetsNotFound,
        Error::SymbolNotFound,
        Error::NoApiKeySet,
        Error::ChannelConnectFailed,
        Error::NoStreamSubscribed,
        Error::ConnectionClosed,
        Error::DecodeFailed,
    ] {
        assert!(!e.describe().is_empty());
    }
}

#[test]
fn into_result_splits_success_and_error() {
    let ok: HuobiResponse<u32> = HuobiResponse::Success(5);
    assert_eq!(ok.into_result(), Ok(5));
    let err: HuobiResponse<u32> =
        HuobiResponse::Error(HuobiErrorData { code: 403, msg: "denied".to_string() });
    assert_eq!(
        err.into_result(),
        Err(Error::HuobiError { code: 403, msg: "denied".to_string() })
    );
}
