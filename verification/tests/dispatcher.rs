use bitfinex_scraper::client::Action;
use bitfinex_scraper::client::Client;
use bitfinex_scraper::client::Frame;
use bitfinex_scraper::client::ping_request;
use bitfinex_scraper::client::resource_name;
use bitfinex_scraper::client::subscribe_request;
use bitfinex_scraper::message::Message;
use bitfinex_scraper::subscriber::Update;

fn upd(id: u64, mts: u64, amount: &str, price: &str) -> Update {
    Update { id, mts, amount: amount.to_string(), price: price.to_string() }
}

fn subscribed(id: usize) -> Message {
    Message::Subscribed {
        event: "subscribed".to_string(),
        channel: "trades".to_string(),
        id,
        symbol: "tBTCUSD".to_string(),
        pair: "BTCUSD".to_string(),
    }
}

#[test]
fn request_texts() {
    assert_eq!(
        subscribe_request(&"tBTCUSD".to_string()),
        r#"{"event":"subscribe","channel":"trades","symbol":"tBTCUSD"}"#.to_string()
    );
    assert_eq!(ping_request(), r#"{"event":"ping","cid":1234}"#.to_string());
    assert_eq!(
        resource_name(&"trades".to_string(), &"BTCUSD".to_string(), 5),
        "trades.BTCUSD.5.csv".to_string()
    );
}

#[test]
fn on_open_subscribes_each_instrument_in_order() {
    let c = Client::new(vec!["tBTCUSD".to_string(), "tETHUSD".to_string()], 0);
    let frames = c.on_open();
    assert_eq!(
        frames,
        vec![
            r#"{"event":"subscribe","channel":"trades","symbol":"tBTCUSD"}"#.to_string(),
            r#"{"event":"subscribe","channel":"trades","symbol":"tETHUSD"}"#.to_string(),
        ]
    );
}

#[test]
fn routes_snapshot_and_update_to_subscribed_writer_in_order() {
    let mut c = Client::new(vec!["tBTCUSD".to_string()], 0);
    let acts = c.dispatch(subscribed(5));
    assert_eq!(acts, vec![Action::SpawnWriter(5, "trades.BTCUSD.5.csv".to_string())]);

    let acts = c.dispatch(Message::Snapshot(
        5,
        vec![upd(1, 1000, "0.1", "50000"), upd(2, 2000, "-0.5", "49000")],
    ));
    assert_eq!(
        acts,
        vec![
            Action::PushUpdate(5, upd(1, 1000, "0.1", "50000")),
            Action::PushUpdate(5, upd(2, 2000, "-0.5", "49000")),
        ]
    );

    let acts = c.dispatch(Message::Update(5, "tu".to_string(), upd(3, 3000, "1", "2")));
    assert_eq!(acts, vec![Action::PushUpdate(5, upd(3, 3000, "1", "2"))]);

    let lines = c.subscriber_output(5).unwrap();
    assert_eq!(
        lines,
        vec![
            "ID,MTS,AMOUNT,PRICE".to_string(),
            "1,1000,0.1,50000".to_string(),
            "2,2000,-0.5,49000".to_string(),
            "3,3000,1,2".to_string(),
        ]
    );
}

#[test]
fn updates_for_unknown_or_unsubscribed_channels_are_no_ops() {
    let mut c = Client::new(vec![], 0);
    let acts = c.dispatch(Message::Update(5, "tu".to_string(), upd(1, 1, "1", "1")));
    assert_eq!(acts, vec![]);

    c.dispatch(subscribed(5));
    c.dispatch(Message::Update(5, "tu".to_string(), upd(1, 1, "1", "1")));
    let acts = c.dispatch(Message::Unsubscribed {
        event: "unsubscribed".to_string(),
        status: "OK".to_string(),
        id: 5,
    });
    assert_eq!(acts, vec![Action::RemoveWriter(5)]);
    assert_eq!(c.subscriber_output(5), None);

    let acts = c.dispatch(Message::Update(5, "tu".to_string(), upd(2, 2, "2", "2")));
    assert_eq!(acts, vec![]);
}

#[test]
fn observational_messages_change_nothing() {
    let mut c = Client::new(vec![], 0);
    assert_eq!(c.dispatch(Message::HeartBeat(5, "hb".to_string())), vec![]);
    assert_eq!(
        c.dispatch(Message::Error {
            event: "error".to_string(),
            msg: "nope".to_string(),
            code: 1,
        }),
        vec![]
    );
    assert_eq!(
        c.dispatch(Message::Pong { event: "pong".to_string(), ts: 1, cid: 1234 }),
        vec![]
    );
    assert!(!c.is_closed());
}

fn count_pings(acts: &[Action]) -> usize {
    acts.iter()
        .filter(|a| matches!(a, Action::SendText(s) if s == &ping_request()))
        .count()
}

#[test]
fn no_ping_before_the_keepalive_threshold() {
    let mut c = Client::new(vec![], 0);
    let hb = Frame::Text(r#"[5,"hb"]"#.to_string());
    let acts = c.on_message(&hb, 10_000, true);
    assert_eq!(count_pings(&acts), 0);
    let acts = c.on_message(&hb, 300_000, true);
    assert_eq!(count_pings(&acts), 0);
}

#[test]
fn exactly_one_ping_once_the_threshold_is_crossed() {
    let mut c = Client::new(vec![], 0);
    let hb = Frame::Text(r#"[5,"hb"]"#.to_string());
    let acts = c.on_message(&hb, 300_001, true);
    assert_eq!(count_pings(&acts), 1);
    // the ping clock was reset: the next frame inside the interval sends none
    let acts = c.on_message(&hb, 600_000, true);
    assert_eq!(count_pings(&acts), 0);
    let acts = c.on_message(&hb, 600_002, true);
    assert_eq!(count_pings(&acts), 1);
}

#[test]
fn binary_frames_are_ignored_outright() {
    let mut c = Client::new(vec![], 0);
    c.dispatch(subscribed(5));
    let acts = c.on_message(&Frame::Binary(vec![5, 91, 93]), 1, true);
    assert_eq!(acts, vec![]);
    assert!(c.subscriber_output(5).is_some());
}

#[test]
fn end_to_end_one_instrument_one_snapshot() {
    let mut c = Client::new(vec!["tBTCUSD".to_string()], 0);
    let frames = c.on_open();
    assert_eq!(
        frames,
        vec![r#"{"event":"subscribe","channel":"trades","symbol":"tBTCUSD"}"#.to_string()]
    );
    let ack = Frame::Text(
        r#"{"event":"subscribed","channel":"trades","chanId":5,"symbol":"tBTCUSD","pair":"BTCUSD"}"#
            .to_string(),
    );
    let acts = c.on_message(&ack, 1, true);
    assert_eq!(acts, vec![Action::SpawnWriter(5, "trades.BTCUSD.5.csv".to_string())]);
    let snap = Frame::Text(r#"[5,[[1,1000,0.1,50000.0]]]"#.to_string());
    let acts = c.on_message(&snap, 2, true);
    assert_eq!(acts, vec![Action::PushUpdate(5, upd(1, 1000, "0.1", "50000"))]);
    let lines = c.subscriber_output(5).unwrap();
    assert_eq!(
        lines,
        vec!["ID,MTS,AMOUNT,PRICE".to_string(), "1,1000,0.1,50000".to_string()]
    );
}

#[test]
fn cleared_liveness_flag_stops_every_writer_and_closes_the_transport() {
    let mut c = Client::new(vec![], 0);
    c.dispatch(subscribed(5));
    c.dispatch(Message::Subscribed {
        event: "subscribed".to_string(),
        channel: "trades".to_string(),
        id: 9,
        symbol: "tETHUSD".to_string(),
        pair: "ETHUSD".to_string(),
    });
    let acts = c.on_message(&Frame::Text(r#"[5,"hb"]"#.to_string()), 1, false);
    assert_eq!(
        acts,
        vec![
            Action::ShutdownWriter(5),
            Action::ShutdownWriter(9),
            Action::CloseTransport,
        ]
    );
    assert!(c.is_closed());
    assert_eq!(c.subscriber_output(5), None);
    assert_eq!(c.subscriber_output(9), None);
    // the close runs at most once: a later cycle asks for nothing further
    let acts = c.on_timeout(false);
    assert_eq!(acts, vec![]);
}

#[test]
fn idle_timer_checks_liveness() {
    let mut c = Client::new(vec![], 0);
    assert_eq!(c.on_timeout(true), vec![]);
    assert!(!c.is_closed());
    assert_eq!(c.on_timeout(false), vec![Action::CloseTransport]);
    assert!(c.is_closed());
}

#[test]
fn resubscribe_replaces_the_writer_for_an_id() {
    let mut c = Client::new(vec![], 0);
    c.dispatch(subscribed(5));
    c.dispatch(Message::Update(5, "tu".to_string(), upd(1, 1, "1", "1")));
    c.dispatch(subscribed(5));
    // the fresh writer starts over: header only
    assert_eq!(c.subscriber_output(5).unwrap().len(), 1);
}
