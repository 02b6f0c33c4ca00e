use huobi_future::codec::{classify, parse_message, Frame};
use huobi_future::error::Error;
use huobi_future::models::{Ts, WebsocketEvent};
use std::io::Write;

fn gzip(data: &[u8]) -> Vec<u8> {
    let mut enc = flate2::write::GzEncoder::new(Vec::new(), flate2::Compression::default());
    enc.write_all(data).unwrap();
    enc.finish().unwrap()
}

#[test]
fn classify_market_ping() {
    match classify("{\"ping\": 18212558000}".to_string()) {
        WebsocketEvent::MarketPing(p) => assert_eq!(p.ping, 18212558000),
        other => panic!("wrong variant: {:?}", other),
    }
}

#[test]
fn classify_op_status_ping_with_string_ts() {
    match classify("{\"op\":\"ping\",\"ts\":\"1492420473027\"}".to_string()) {
        WebsocketEvent::OpStatus(o) => {
            assert_eq!(o.op, "ping");
            assert_eq!(o.ts, Ts::St("1492420473027".to_string()));
            assert_eq!(o.err_code, None);
        }
        other => panic!("wrong variant: {:?}", other),
    }
}

#[test]
fn classify_op_status_auth_ack() {
    match classify(
        "{\"op\":\"auth\",\"type\":\"api\",\"err-code\":0,\"ts\":1489474081631}".to_string(),
    ) {
        WebsocketEvent::OpStatus(o) => {
            assert_eq!(o.op, "auth");
            assert_eq!(o.otype, Some("api".to_string()));
            assert_eq!(o.err_code, Some(0));
            assert_eq!(o.ts, Ts::It(1489474081631));
        }
        other => panic!("wrong variant: {:?}", other),
    }
}

#[test]
fn classify_sub_status() {
    match classify(
        "{\"id\":\"id1\",\"status\":\"ok\",\"subbed\":\"market.BTC_CQ.depth.step0\",\"ts\":1489474081631}"
            .to_string(),
    ) {
        WebsocketEvent::SubStatus(s) => {
            assert_eq!(s.id, "id1");
            assert_eq!(s.status, "ok");
            assert_eq!(s.subbed, Some("market.BTC_CQ.depth.step0".to_string()));
            assert_eq!(s.ts, 1489474081631);
            assert_eq!(s.err_code, None);
        }
        other => panic!("wrong variant: {:?}", other),
    }
}

#[test]
fn classify_order_book() {
    match classify(
        "{\"ch\":\"market.BTC_CQ.depth.step0\",\"ts\":100,\"tick\":{\"id\":5,\"mrid\":7}}"
            .to_string(),
    ) {
        WebsocketEvent::OrderBook(env) => {
            assert_eq!(env.ch, "market.BTC_CQ.depth.step0");
            assert_eq!(env.ts, 100);
            assert_eq!(env.tick, "{\"id\":5,\"mrid\":7}");
        }
        other => panic!("wrong variant: {:?}", other),
    }
}

#[test]
fn classify_incremental_order_book() {
    match classify(
        "{\"ch\":\"market.BTC_CQ.depth.size_20.high_freq\",\"ts\":101,\"tick\":{\"id\":6}}"
            .to_string(),
    ) {
        WebsocketEvent::IncrementalOrderBook(env) => {
            assert_eq!(env.ch, "market.BTC_CQ.depth.size_20.high_freq");
            assert_eq!(env.tick, "{\"id\":6}");
        }
        other => panic!("wrong variant: {:?}", other),
    }
}

#[test]
fn classify_bbo() {
    match classify("{\"ch\":\"market.BTC-USD.bbo\",\"ts\":102,\"tick\":{\"id\":7}}".to_string()) {
        WebsocketEvent::BBO(env) => assert_eq!(env.ch, "market.BTC-USD.bbo"),
        other => panic!("wrong variant: {:?}", other),
    }
}

#[test]
fn classify_kline() {
    match classify(
        "{\"ch\":\"market.BTC_CQ.kline.1min\",\"ts\":103,\"tick\":{\"close\":7,\"id\":5,\"open\":3}}"
            .to_string(),
    ) {
        WebsocketEvent::Kline(env) => {
            assert_eq!(env.ch, "market.BTC_CQ.kline.1min");
            assert_eq!(env.ts, 103);
            assert_eq!(env.tick, "{\"close\":7,\"id\":5,\"open\":3}");
        }
        other => panic!("wrong variant: {:?}", other),
    }
}

#[test]
fn classify_trade_detail() {
    match classify(
        "{\"ch\":\"market.BTC_CQ.trade.detail\",\"ts\":104,\"tick\":{\"id\":9}}".to_string(),
    ) {
        WebsocketEvent::TradeDetail(env) => assert_eq!(env.ch, "market.BTC_CQ.trade.detail"),
        other => panic!("wrong variant: {:?}", other),
    }
}

#[test]
fn classify_basis() {
    match classify(
        "{\"ch\":\"market.BTC-USD.basis.1min.open\",\"ts\":105,\"tick\":{\"id\":1}}".to_string(),
    ) {
        WebsocketEvent::Basis(env) => assert_eq!(env.ch, "market.BTC-USD.basis.1min.open"),
        other => panic!("wrong variant: {:?}", other),
    }
}

#[test]
fn classify_index() {
    match classify(
        "{\"ch\":\"market.BTC-USD.index.1min\",\"ts\":106,\"tick\":{\"id\":2}}".to_string(),
    ) {
        WebsocketEvent::Index(env) => assert_eq!(env.ch, "market.BTC-USD.index.1min"),
        other => panic!("wrong variant: {:?}", other),
    }
}

#[test]
fn classify_account_snapshot() {
    match classify(
        "{\"op\":\"notify\",\"topic\":\"accounts.btc\",\"ts\":1,\"event\":\"snapshot\",\"data\":[{\"a\":1}]}"
            .to_string(),
    ) {
        WebsocketEvent::Account(env) => {
            assert_eq!(env.op, "notify");
            assert_eq!(env.topic, "accounts.btc");
            assert_eq!(env.ts, 1);
            assert_eq!(env.event, "snapshot");
            assert_eq!(env.data, "[{\"a\":1}]");
        }
        other => panic!("wrong variant: {:?}", other),
    }
}

#[test]
fn classify_order_update_keeps_whole_payload() {
    let payload = "{\"op\":\"notify\",\"topic\":\"orders.btc\",\"ts\":2,\"symbol\":\"BTC\"}";
    match classify(payload.to_string()) {
        WebsocketEvent::Order(env) => {
            assert_eq!(env.topic, "orders.btc");
            assert_eq!(env.data, payload);
            assert_eq!(env.event, "");
        }
        other => panic!("wrong variant: {:?}", other),
    }
}

#[test]
fn classify_match_order() {
    match classify(
        "{\"op\":\"notify\",\"topic\":\"matchOrders.btc\",\"ts\":3,\"symbol\":\"BTC\"}"
            .to_string(),
    ) {
        WebsocketEvent::MatchOrder(env) => assert_eq!(env.topic, "matchOrders.btc"),
        other => panic!("wrong variant: {:?}", other),
    }
}

#[test]
fn classify_position() {
    match classify(
        "{\"op\":\"notify\",\"topic\":\"positions.btc\",\"ts\":4,\"data\":[]}".to_string(),
    ) {
        WebsocketEvent::Position(env) => assert_eq!(env.data, "[]"),
        other => panic!("wrong variant: {:?}", other),
    }
}

#[test]
fn classify_liquidation() {
    match classify(
        "{\"op\":\"notify\",\"topic\":\"public.btc.liquidation_orders\",\"ts\":5,\"data\":[]}"
            .to_string(),
    ) {
        WebsocketEvent::Liquidation(env) => {
            assert_eq!(env.topic, "public.btc.liquidation_orders")
        }
        other => panic!("wrong variant: {:?}", other),
    }
}

#[test]
fn classify_contract_info() {
    match classify(
        "{\"op\":\"notify\",\"topic\":\"public.btc.contract_info\",\"ts\":6,\"data\":[]}"
            .to_string(),
    ) {
        WebsocketEvent::ContractInfo(env) => {
            assert_eq!(env.topic, "public.btc.contract_info")
        }
        other => panic!("wrong variant: {:?}", other),
    }
}

#[test]
fn classify_trigger_order() {
    match classify(
        "{\"op\":\"notify\",\"topic\":\"trigger_order.btc\",\"ts\":7,\"data\":[]}".to_string(),
    ) {
        WebsocketEvent::TriggerOrder(env) => assert_eq!(env.topic, "trigger_order.btc"),
        other => panic!("wrong variant: {:?}", other),
    }
}

#[test]
fn classify_unknown_shape_falls_back_to_text() {
    let payload = "{\"foo\": 1}";
    match classify(payload.to_string()) {
        WebsocketEvent::Text(t) => assert_eq!(t, payload),
        other => panic!("wrong variant: {:?}", other),
    }
}

#[test]
fn classify_non_json_falls_back_to_text() {
    match classify("hello".to_string()) {
        WebsocketEvent::Text(t) => assert_eq!(t, "hello"),
        other => panic!("wrong variant: {:?}", other),
    }
}

#[test]
fn parse_text_frame_classifies() {
    match parse_message(Frame::Text("{\"ping\": 5}".to_string())) {
        Ok(WebsocketEvent::MarketPing(p)) => assert_eq!(p.ping, 5),
        other => panic!("wrong result: {:?}", other),
    }
}

#[test]
fn parse_binary_frame_inflates_and_classifies() {
    let bytes = gzip(b"{\"ping\": 42}");
    match parse_message(Frame::Binary(bytes)) {
        Ok(WebsocketEvent::MarketPing(p)) => assert_eq!(p.ping, 42),
        other => panic!("wrong result: {:?}", other),
    }
}

#[test]
fn parse_ping_frame_inflates_and_classifies() {
    let bytes = gzip(b"{\"ping\": 43}");
    match parse_message(Frame::Ping(bytes)) {
        Ok(WebsocketEvent::MarketPing(p)) => assert_eq!(p.ping, 43),
        other => panic!("wrong result: {:?}", other),
    }
}

#[test]
fn parse_empty_ping_and_pong_frames() {
    assert_eq!(parse_message(Frame::Ping(Vec::new())), Ok(WebsocketEvent::Ping));
    assert_eq!(parse_message(Frame::Pong(Vec::new())), Ok(WebsocketEvent::Pong));
}

#[test]
fn parse_garbage_binary_fails_decode() {
    assert_eq!(
        parse_message(Frame::Binary(vec![1, 2, 3, 4])),
        Err(Error::DecodeFailed)
    );
}

#[test]
fn parse_close_frame_is_connection_closed() {
    assert_eq!(parse_message(Frame::Close), Err(Error::ConnectionClosed));
}
