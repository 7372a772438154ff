use bitfinex_scraper::subscriber::SubscriberHandler;
use bitfinex_scraper::subscriber::Update;
use bitfinex_scraper::subscriber::format_update;
use bitfinex_scraper::subscriber::header;
use bitfinex_scraper::text::parse_u64;
use bitfinex_scraper::text::u64_to_string;

fn upd(id: u64, mts: u64, amount: &str, price: &str) -> Update {
    Update { id, mts, amount: amount.to_string(), price: price.to_string() }
}

#[test]
fn header_is_fixed() {
    assert_eq!(header(), "ID,MTS,AMOUNT,PRICE".to_string());
}

#[test]
fn record_has_fixed_column_order() {
    let u = upd(1, 1000, "0.1", "50000");
    assert_eq!(format_update(&u), "1,1000,0.1,50000".to_string());
}

#[test]
fn three_pushes_then_shutdown_yield_header_and_three_lines() {
    let mut w = SubscriberHandler::create("trades.BTCUSD.5.csv".to_string());
    w.send(upd(1, 1000, "0.1", "50000"));
    w.send(upd(2, 2000, "-0.5", "49000"));
    w.send(upd(3, 3000, "2", "48000.5"));
    w.close();
    let lines = w.output_lines();
    assert_eq!(
        lines,
        vec![
            "ID,MTS,AMOUNT,PRICE".to_string(),
            "1,1000,0.1,50000".to_string(),
            "2,2000,-0.5,49000".to_string(),
            "3,3000,2,48000.5".to_string(),
        ]
    );
}

#[test]
fn double_shutdown_is_tolerated_and_writes_no_second_header() {
    let mut w = SubscriberHandler::create("trades.BTCUSD.5.csv".to_string());
    w.send(upd(1, 1000, "0.1", "50000"));
    w.close();
    let first = w.output_lines();
    w.close();
    let second = w.output_lines();
    assert!(w.is_closed());
    assert_eq!(first, second);
    assert_eq!(second.len(), 2);
    assert_eq!(second[0], "ID,MTS,AMOUNT,PRICE".to_string());
}

#[test]
fn closed_writer_accepts_nothing() {
    let mut w = SubscriberHandler::create("x.csv".to_string());
    w.close();
    w.send(upd(1, 1, "1", "1"));
    assert_eq!(w.output_lines().len(), 1);
}

#[test]
fn decimal_parse_round_trip() {
    assert_eq!(u64_to_string(0), "0".to_string());
    assert_eq!(u64_to_string(1234), "1234".to_string());
    assert_eq!(u64_to_string(u64::MAX), "18446744073709551615".to_string());
    assert_eq!(parse_u64("18446744073709551615"), Some(u64::MAX));
    assert_eq!(parse_u64("18446744073709551616"), None);
    assert_eq!(parse_u64(""), None);
    assert_eq!(parse_u64("12a"), None);
    assert_eq!(parse_u64("-1"), None);
    assert_eq!(parse_u64("007"), Some(7));
}
