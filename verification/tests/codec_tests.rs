use broker_relay::RelayError;
use broker_relay::codec::{
    decode_db, decode_inbound, decode_to_api, decode_ws, encode_db, encode_inbound, encode_to_api,
    encode_ws,
};
use broker_relay::messages::{
    DbMessage, InboundEnvelope, MessageFromApi, MessageToApi, Side, WsMessage,
};

fn create_order(market: &str, price: &str, quantity: &str, side: Side, user_id: &str)
    -> MessageFromApi {
    MessageFromApi::CreateOrder {
        market: market.to_string(),
        price: price.to_string(),
        quantity: quantity.to_string(),
        side,
        user_id: user_id.to_string(),
    }
}

#[test]
fn inbound_round_trip_create_order() {
    let env = InboundEnvelope {
        client_id: "client-17".to_string(),
        message: create_order("BTCUSDT", "100.50", "2", Side::Buy, "u42"),
    };
    let payload = encode_inbound(&env);
    let back = decode_inbound(&payload).unwrap();
    assert_eq!(back, env);
}

#[test]
fn inbound_round_trip_cancel_order() {
    let env = InboundEnvelope {
        client_id: "session-9".to_string(),
        message: MessageFromApi::CancelOrder {
            order_id: "ord-1".to_string(),
            market: "SOLUSDT".to_string(),
        },
    };
    let payload = encode_inbound(&env);
    let back = decode_inbound(&payload).unwrap();
    assert_eq!(back, env);
}

#[test]
fn inbound_round_trip_sell_side() {
    let env = InboundEnvelope {
        client_id: "c".to_string(),
        message: create_order("ETHUSDT", "2999.99", "0.25", Side::Sell, "u7"),
    };
    let back = decode_inbound(&encode_inbound(&env)).unwrap();
    assert_eq!(back, env);
}

#[test]
fn inbound_round_trip_awkward_client_id() {
    // Quotes and backslashes in the originator id must survive the trip.
    let env = InboundEnvelope {
        client_id: "we\"ird\\id\",\"x".to_string(),
        message: MessageFromApi::CancelOrder {
            order_id: "o\\\"".to_string(),
            market: "B\"T\\C".to_string(),
        },
    };
    let back = decode_inbound(&encode_inbound(&env)).unwrap();
    assert_eq!(back, env);
}

#[test]
fn inbound_exact_payload() {
    let env = InboundEnvelope {
        client_id: "c1".to_string(),
        message: create_order("BTCUSDT", "10", "3", Side::Buy, "u1"),
    };
    assert_eq!(
        encode_inbound(&env),
        "[\"c1\",{\"type\":\"CreateOrder\",\"market\":\"BTCUSDT\",\"price\":\"10\",\
         \"quantity\":\"3\",\"side\":\"buy\",\"user_id\":\"u1\"}]"
    );
}

#[test]
fn db_round_trips() {
    let trade = DbMessage::TradeAdded {
        market: "BTCUSDT".to_string(),
        price: "100.5".to_string(),
        quantity: "2".to_string(),
    };
    assert_eq!(decode_db(&encode_db(&trade)).unwrap(), trade);

    let update = DbMessage::OrderUpdate {
        order_id: "ord-77".to_string(),
        status: "filled".to_string(),
    };
    assert_eq!(decode_db(&encode_db(&update)).unwrap(), update);
}

#[test]
fn db_exact_payload() {
    let trade = DbMessage::TradeAdded {
        market: "BTCUSDT".to_string(),
        price: "100.5".to_string(),
        quantity: "2".to_string(),
    };
    assert_eq!(
        encode_db(&trade),
        "{\"type\":\"TradeAdded\",\"market\":\"BTCUSDT\",\"price\":\"100.5\",\"quantity\":\"2\"}"
    );
}

#[test]
fn db_escaping_exact() {
    let update = DbMessage::OrderUpdate {
        order_id: "o\"1".to_string(),
        status: "half\\done".to_string(),
    };
    assert_eq!(
        encode_db(&update),
        "{\"type\":\"OrderUpdate\",\"order_id\":\"o\\\"1\",\"status\":\"half\\\\done\"}"
    );
    assert_eq!(decode_db(&encode_db(&update)).unwrap(), update);
}

#[test]
fn to_api_round_trips() {
    let placed = MessageToApi::OrderPlaced {
        order_id: "ord-1".to_string(),
        market: "BTCUSDT".to_string(),
    };
    assert_eq!(decode_to_api(&encode_to_api(&placed)).unwrap(), placed);

    let cancelled = MessageToApi::OrderCancelled {
        order_id: "ord-2".to_string(),
        market: "ETHUSDT".to_string(),
    };
    assert_eq!(decode_to_api(&encode_to_api(&cancelled)).unwrap(), cancelled);
}

#[test]
fn ws_round_trips() {
    let trade = WsMessage::TradeUpdate {
        market: "BTCUSDT".to_string(),
        price: "100.5".to_string(),
        quantity: "0.1".to_string(),
    };
    assert_eq!(decode_ws(&encode_ws(&trade)).unwrap(), trade);

    let ticker = WsMessage::TickerUpdate {
        market: "BTCUSDT".to_string(),
        last_price: "101".to_string(),
    };
    assert_eq!(decode_ws(&encode_ws(&ticker)).unwrap(), ticker);
}

#[test]
fn empty_fields_round_trip() {
    let env = InboundEnvelope {
        client_id: "".to_string(),
        message: create_order("", "", "", Side::Sell, ""),
    };
    let back = decode_inbound(&encode_inbound(&env)).unwrap();
    assert_eq!(back, env);
}

#[test]
fn unicode_fields_round_trip() {
    let env = InboundEnvelope {
        client_id: "séssion-☃".to_string(),
        message: create_order("BTC–USDT", "ℯ100", "½", Side::Buy, "üser"),
    };
    let payload = encode_inbound(&env);
    let back = decode_inbound(&payload).unwrap();
    assert_eq!(back, env);
    let v: serde_json::Value = serde_json::from_str(&payload).unwrap();
    assert_eq!(v[0].as_str().unwrap(), "séssion-☃");
    assert_eq!(v[1]["market"].as_str().unwrap(), "BTC–USDT");
}

#[test]
fn dangling_escape_is_encoding_error() {
    assert_eq!(decode_db("{\"type\":\"OrderUpdate\",\"order_id\":\"o\\"), Err(RelayError::Encoding));
    assert_eq!(
        decode_db("{\"type\":\"OrderUpdate\",\"order_id\":\"o\\n\",\"status\":\"s\"}"),
        Err(RelayError::Encoding)
    );
}

#[test]
fn malformed_inbound_is_encoding_error() {
    // A non-conforming entry is rejected whole, as an encoding error.
    assert_eq!(decode_inbound("not a payload"), Err(RelayError::Encoding));
    assert_eq!(decode_inbound(""), Err(RelayError::Encoding));
    assert_eq!(decode_inbound("[\"c1\"]"), Err(RelayError::Encoding));
    assert_eq!(
        decode_inbound("[\"c1\",{\"type\":\"Unknown\",\"market\":\"B\"}]"),
        Err(RelayError::Encoding)
    );
    // A bad side is rejected even though the rest conforms.
    assert_eq!(
        decode_inbound(
            "[\"c1\",{\"type\":\"CreateOrder\",\"market\":\"B\",\"price\":\"1\",\
             \"quantity\":\"1\",\"side\":\"hold\",\"user_id\":\"u\"}]"
        ),
        Err(RelayError::Encoding)
    );
    // Trailing text after a complete envelope is rejected.
    let env = InboundEnvelope {
        client_id: "c1".to_string(),
        message: MessageFromApi::CancelOrder {
            order_id: "o".to_string(),
            market: "B".to_string(),
        },
    };
    let mut payload = encode_inbound(&env);
    payload.push(' ');
    assert_eq!(decode_inbound(&payload), Err(RelayError::Encoding));
}

#[test]
fn malformed_db_is_encoding_error() {
    assert_eq!(decode_db("{}"), Err(RelayError::Encoding));
    assert_eq!(
        decode_db("{\"type\":\"TradeAdded\",\"market\":\"B\""),
        Err(RelayError::Encoding)
    );
    assert_eq!(decode_to_api("x"), Err(RelayError::Encoding));
    assert_eq!(decode_ws("x"), Err(RelayError::Encoding));
}

#[test]
fn unescaped_quote_does_not_leak() {
    // A field whose text happens to spell a closing quote and more fields
    // must not be confused with the canonical spelling of that longer form.
    let update = DbMessage::OrderUpdate {
        order_id: "o\",\"status\":\"x".to_string(),
        status: "new".to_string(),
    };
    let payload = encode_db(&update);
    assert_eq!(decode_db(&payload).unwrap(), update);
}

#[test]
fn payloads_are_valid_json() {
    // The canonical encoding must agree with an ordinary JSON reader.
    let env = InboundEnvelope {
        client_id: "cli\"ent\\7".to_string(),
        message: create_order("BTC\"USDT", "100.5", "2", Side::Buy, "u\\42"),
    };
    let payload = encode_inbound(&env);
    let v: serde_json::Value = serde_json::from_str(&payload).unwrap();
    assert_eq!(v[0].as_str().unwrap(), "cli\"ent\\7");
    assert_eq!(v[1]["type"].as_str().unwrap(), "CreateOrder");
    assert_eq!(v[1]["market"].as_str().unwrap(), "BTC\"USDT");
    assert_eq!(v[1]["price"].as_str().unwrap(), "100.5");
    assert_eq!(v[1]["quantity"].as_str().unwrap(), "2");
    assert_eq!(v[1]["side"].as_str().unwrap(), "buy");
    assert_eq!(v[1]["user_id"].as_str().unwrap(), "u\\42");

    let trade = DbMessage::TradeAdded {
        market: "SOLUSDT".to_string(),
        price: "19.25".to_string(),
        quantity: "4".to_string(),
    };
    let v: serde_json::Value = serde_json::from_str(&encode_db(&trade)).unwrap();
    assert_eq!(v["type"].as_str().unwrap(), "TradeAdded");
    assert_eq!(v["market"].as_str().unwrap(), "SOLUSDT");

    let ticker = WsMessage::TickerUpdate {
        market: "ETHUSDT".to_string(),
        last_price: "2999".to_string(),
    };
    let v: serde_json::Value = serde_json::from_str(&encode_ws(&ticker)).unwrap();
    assert_eq!(v["type"].as_str().unwrap(), "TickerUpdate");
    assert_eq!(v["last_price"].as_str().unwrap(), "2999");

    let placed = MessageToApi::OrderPlaced {
        order_id: "ord-3".to_string(),
        market: "BTCUSDT".to_string(),
    };
    let v: serde_json::Value = serde_json::from_str(&encode_to_api(&placed)).unwrap();
    assert_eq!(v["type"].as_str().unwrap(), "OrderPlaced");
    assert_eq!(v["order_id"].as_str().unwrap(), "ord-3");
}
