use bitfinex_scraper::json::Json;
use bitfinex_scraper::message::classify;
use bitfinex_scraper::message::Message;
use bitfinex_scraper::message::Platform;
use bitfinex_scraper::subscriber::Update;

fn upd(id: u64, mts: u64, amount: &str, price: &str) -> Update {
    Update { id, mts, amount: amount.to_string(), price: price.to_string() }
}

#[test]
fn decodes_info() {
    let m = Message::try_new(
        r#"{"event":"info","version":2,"serverId":"abc-123","platform":{"status":1}}"#,
    );
    assert_eq!(
        m,
        Some(Message::Info {
            event: "info".to_string(),
            version: 2,
            server_id: "abc-123".to_string(),
            platform: Platform { status: 1 },
        })
    );
}

#[test]
fn decodes_subscribed() {
    let m = Message::try_new(
        r#"{"event":"subscribed","channel":"trades","chanId":5,"symbol":"tBTCUSD","pair":"BTCUSD"}"#,
    );
    assert_eq!(
        m,
        Some(Message::Subscribed {
            event: "subscribed".to_string(),
            channel: "trades".to_string(),
            id: 5,
            symbol: "tBTCUSD".to_string(),
            pair: "BTCUSD".to_string(),
        })
    );
}

#[test]
fn decodes_unsubscribed() {
    let m = Message::try_new(r#"{"event":"unsubscribed","status":"OK","chanId":5}"#);
    assert_eq!(
        m,
        Some(Message::Unsubscribed {
            event: "unsubscribed".to_string(),
            status: "OK".to_string(),
            id: 5,
        })
    );
}

#[test]
fn decodes_error() {
    let m = Message::try_new(r#"{"event":"error","msg":"symbol: invalid","code":10300}"#);
    assert_eq!(
        m,
        Some(Message::Error {
            event: "error".to_string(),
            msg: "symbol: invalid".to_string(),
            code: 10300,
        })
    );
}

#[test]
fn decodes_pong() {
    let m = Message::try_new(r#"{"event":"pong","ts":1511545528111,"cid":1234}"#);
    assert_eq!(
        m,
        Some(Message::Pong { event: "pong".to_string(), ts: 1511545528111, cid: 1234 })
    );
}

#[test]
fn decodes_snapshot() {
    let m = Message::try_new(r#"[5,[[1,1000,0.1,50000.0],[2,2000,-0.5,49000.0]]]"#);
    assert_eq!(
        m,
        Some(Message::Snapshot(
            5,
            vec![upd(1, 1000, "0.1", "50000"), upd(2, 2000, "-0.5", "49000")],
        ))
    );
}

#[test]
fn decodes_empty_snapshot() {
    let m = Message::try_new(r#"[7,[]]"#);
    assert_eq!(m, Some(Message::Snapshot(7, vec![])));
}

#[test]
fn decodes_update() {
    let m = Message::try_new(r#"[5,"tu",[401597395,1574694478808,0.005,7245.3]]"#);
    assert_eq!(
        m,
        Some(Message::Update(
            5,
            "tu".to_string(),
            upd(401597395, 1574694478808, "0.005", "7245.3"),
        ))
    );
}

#[test]
fn decodes_trade_executed_update() {
    let m = Message::try_new(r#"[5,"te",[1,1000,-1.5,42.0]]"#);
    assert_eq!(m, Some(Message::Update(5, "te".to_string(), upd(1, 1000, "-1.5", "42"))));
}

#[test]
fn decodes_heartbeat() {
    let m = Message::try_new(r#"[17,"hb"]"#);
    assert_eq!(m, Some(Message::HeartBeat(17, "hb".to_string())));
    // a two-element array with any string tag is structurally a heartbeat
    let m = Message::try_new(r#"[5,"tu"]"#);
    assert_eq!(m, Some(Message::HeartBeat(5, "tu".to_string())));
}

#[test]
fn extra_object_fields_are_ignored() {
    let m = Message::try_new(
        r#"{"event":"unsubscribed","status":"OK","chanId":5,"extra":null}"#,
    );
    assert_eq!(
        m,
        Some(Message::Unsubscribed {
            event: "unsubscribed".to_string(),
            status: "OK".to_string(),
            id: 5,
        })
    );
}

#[test]
fn decodes_negative_integer_fields() {
    let m = Message::try_new(r#"{"event":"error","msg":"x","code":-3}"#);
    assert_eq!(
        m,
        Some(Message::Error { event: "error".to_string(), msg: "x".to_string(), code: -3 })
    );
}

#[test]
fn out_of_range_numeric_fields_are_rejected() {
    // the connection id field is 32 bits wide
    assert_eq!(Message::try_new(r#"{"event":"pong","ts":1,"cid":4294967296}"#), None);
    // a fractional channel id fits no message shape
    assert_eq!(Message::try_new(r#"[5.5,"hb"]"#), None);
}

#[test]
fn unknown_event_shape_is_rejected() {
    assert_eq!(Message::try_new(r#"{"event":"unknown"}"#), None);
}

#[test]
fn invalid_json_is_rejected() {
    assert_eq!(Message::try_new("{not json"), None);
    assert_eq!(Message::try_new(""), None);
}

#[test]
fn unmatched_shapes_are_rejected() {
    assert_eq!(Message::try_new("42"), None);
    assert_eq!(Message::try_new("null"), None);
    assert_eq!(Message::try_new(r#""hb""#), None);
    assert_eq!(Message::try_new("[5]"), None);
    assert_eq!(Message::try_new(r#"[5,"tu",17]"#), None);
    assert_eq!(Message::try_new(r#"[5,"tu",[1,2,3]]"#), None);
    assert_eq!(Message::try_new(r#"[5,[[1,2,3]]]"#), None);
    assert_eq!(Message::try_new(r#"[-1,"hb"]"#), None);
    assert_eq!(Message::try_new(r#"[5,17]"#), None);
}

#[test]
fn classification_matches_on_built_documents() {
    let doc = Json::Arr(vec![Json::Num("9".to_string()), Json::Str("hb".to_string())]);
    assert_eq!(classify(&doc), Some(Message::HeartBeat(9, "hb".to_string())));
    let bad = Json::Obj(vec![("event".to_string(), Json::Str("unknown".to_string()))]);
    assert_eq!(classify(&bad), None);
}
