use trade_pipeline::okex::{make_subscription_message, to_subscription_message, Instrument};

#[test]
fn test_make_subscription_message() {
    let instruments = r#"[{"instrument_id":"LTC-BTC"},
                              {"instrument_id":"ETH-USDT"}]"#;

    let actual_message = make_subscription_message(instruments).unwrap();
    assert_eq!(
        vec![r#"{"op": "subscribe", "args": ["spot/depth:LTC-BTC", "spot/depth:ETH-USDT"]}"#],
        actual_message
    )
}

#[test]
fn subscription_messages_are_chunked_by_hundred() {
    let instruments: Vec<Instrument> =
        (0..205).map(|i| Instrument { instrument_id: format!("I{}", i) }).collect();
    let messages = to_subscription_message(&instruments);
    assert_eq!(3, messages.len());
    assert!(messages[0].contains("\"spot/depth:I0\""));
    assert!(messages[0].contains("\"spot/depth:I99\"]"));
    assert!(messages[1].starts_with("{\"op\": \"subscribe\", \"args\": [\"spot/depth:I100\""));
    assert_eq!("{\"op\": \"subscribe\", \"args\": [\"spot/depth:I200\", \"spot/depth:I201\", \"spot/depth:I202\", \"spot/depth:I203\", \"spot/depth:I204\"]}", messages[2]);
}

#[test]
fn subscription_message_for_no_instruments_is_empty() {
    assert_eq!(Vec::<String>::new(), to_subscription_message(&vec![]));
    assert_eq!(Some(Vec::<String>::new()), make_subscription_message("[]"));
}

#[test]
fn subscription_message_rejects_malformed_instruments() {
    assert_eq!(None, make_subscription_message("not json"));
    assert_eq!(None, make_subscription_message(r#"[{"id":"LTC-BTC"}]"#));
    assert_eq!(None, make_subscription_message(r#"{"instrument_id":"LTC-BTC"}"#));
}

#[test]
fn subscription_message_escapes_quotes() {
    let instruments = vec![Instrument { instrument_id: "A\"B".to_string() }];
    assert_eq!(
        vec![r#"{"op": "subscribe", "args": ["spot/depth:A\"B"]}"#.to_string()],
        to_subscription_message(&instruments)
    );
}
