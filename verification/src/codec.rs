//! The canonical text encoding of every message that crosses the relay.
//!
//! Each message is one tagged object whose pieces are fixed literals around
//! escaped string fields; an inbound payload is a two-element array carrying
//! the originator identifier and the message.  For every shape there is a
//! spec-level encoding (`enc_*`), a spec-level decoding (`dec_*`), exec
//! functions proved to implement them, and two laws: decoding the encoding
//! of any value yields the value back (round trip), and a payload that
//! decodes at all is exactly the canonical encoding of its value
//! (canonicity).  Everything that is not such an encoding is rejected
//! whole, as an encoding error.

use vstd::prelude::*;

use crate::RelayError;
use crate::fields::{
    dec_fields, enc_fields, encode_fields_from, lemma_cat3, lemma_dec_fields_complete,
    lemma_dec_fields_sound, lit_views, parse_fields_from,
};
use crate::messages::{
    DbMessage, DbMessageV, InboundEnvelope, InboundEnvelopeV, MessageFromApi, MessageFromApiV,
    MessageToApi, MessageToApiV, Side, WsMessage, WsMessageV,
};
use crate::text::{
    append_esc, chars_string, expect_lit, fld, lemma_scan_fld, lemma_scan_sound, lemma_split,
    lit_at, push_char, scan, scan_chars, str_chars,
};

verus! {

// ---------------------------------------------------------------------------
// Persistence messages
// ---------------------------------------------------------------------------

/// The literal pieces of a `TradeAdded` payload.
pub open spec fn lits_trade_added() -> Seq<Seq<char>> {
    seq![
        "{\"type\":\"TradeAdded\",\"market\":\""@,
        ",\"price\":\""@,
        ",\"quantity\":\""@,
        "}"@,
    ]
}

/// The literal pieces of an `OrderUpdate` payload.
pub open spec fn lits_order_update() -> Seq<Seq<char>> {
    seq!["{\"type\":\"OrderUpdate\",\"order_id\":\""@, ",\"status\":\""@, "}"@]
}

/// The canonical payload of a persistence message.
pub open spec fn enc_db(m: DbMessageV) -> Seq<char> {
    match m {
        DbMessageV::TradeAdded { market, price, quantity } => enc_fields(
            lits_trade_added(),
            seq![market, price, quantity],
        ),
        DbMessageV::OrderUpdate { order_id, status } => enc_fields(
            lits_order_update(),
            seq![order_id, status],
        ),
    }
}

/// What parsing one persistence message from position `i` yields.
pub open spec fn dec_db_at(s: Seq<char>, i: int) -> Option<(DbMessageV, int)> {
    match dec_fields(s, i, lits_trade_added()) {
        Some(p) => Some(
            (DbMessageV::TradeAdded { market: p.0[0], price: p.0[1], quantity: p.0[2] }, p.1),
        ),
        None => match dec_fields(s, i, lits_order_update()) {
            Some(p) => Some((DbMessageV::OrderUpdate { order_id: p.0[0], status: p.0[1] }, p.1)),
            None => None,
        },
    }
}

/// What decoding a whole persistence payload yields: a message only when
/// the payload is exactly its canonical encoding.
pub open spec fn dec_db(s: Seq<char>) -> Option<DbMessageV> {
    match dec_db_at(s, 0) {
        Some(p) => if p.1 == s.len() {
            Some(p.0)
        } else {
            None
        },
        None => None,
    }
}

proof fn lemma_dec_db_at_sound(s: Seq<char>, i: int)
    requires
        0 <= i <= s.len(),
    ensures
        dec_db_at(s, i) matches Some(r) ==> i <= r.1 <= s.len() && s.subrange(i, r.1) == enc_db(
            r.0,
        ),
{
    lemma_dec_fields_sound(s, i, lits_trade_added());
    lemma_dec_fields_sound(s, i, lits_order_update());
    match dec_fields(s, i, lits_trade_added()) {
        Some(p) => {
            assert(seq![p.0[0], p.0[1], p.0[2]] =~= p.0);
        },
        None => {
            match dec_fields(s, i, lits_order_update()) {
                Some(p) => {
                    assert(seq![p.0[0], p.0[1]] =~= p.0);
                },
                None => {},
            }
        },
    }
}

proof fn lemma_dec_db_at_complete(s: Seq<char>, i: int, m: DbMessageV)
    requires
        0 <= i,
        i + enc_db(m).len() <= s.len(),
        s.subrange(i, i + enc_db(m).len()) == enc_db(m),
    ensures
        dec_db_at(s, i) == Some((m, i + enc_db(m).len())),
{
    match m {
        DbMessageV::TradeAdded { market, price, quantity } => {
            lemma_dec_fields_complete(s, i, lits_trade_added(), seq![market, price, quantity]);
        },
        DbMessageV::OrderUpdate { order_id, status } => {
            lemma_dec_fields_complete(s, i, lits_order_update(), seq![order_id, status]);
            reveal_strlit("{\"type\":\"TradeAdded\",\"market\":\"");
            reveal_strlit("{\"type\":\"OrderUpdate\",\"order_id\":\"");
            let e = enc_db(m);
            assert(e == lits_order_update()[0] + fld(order_id) + enc_fields(
                lits_order_update().drop_first(),
                seq![order_id, status].drop_first(),
            ));
            assert(e[9] == lits_order_update()[0][9]);
            assert(s[i + 9] == s.subrange(i, i + e.len())[9]);
            if lit_at(s, i, lits_trade_added()[0]) {
                assert(s.subrange(i, i + lits_trade_added()[0].len())[9] == s[i + 9]);
                assert(false);
            }
        },
    }
}

/// Round trip: decoding the canonical encoding of any persistence message
/// yields exactly that message.
pub proof fn lemma_db_round_trip(m: DbMessageV)
    ensures
        dec_db(enc_db(m)) == Some(m),
{
    let s = enc_db(m);
    assert(s.subrange(0, s.len() as int) =~= s);
    lemma_dec_db_at_complete(s, 0, m);
}

/// Canonicity: a persistence payload that decodes at all is exactly the
/// canonical encoding of the message it decodes to.
pub proof fn lemma_db_canonical(s: Seq<char>, m: DbMessageV)
    requires
        dec_db(s) == Some(m),
    ensures
        s == enc_db(m),
{
    lemma_dec_db_at_sound(s, 0);
    assert(s.subrange(0, s.len() as int) =~= s);
}

/// Serializes a persistence message to its canonical payload.
pub fn encode_db(m: &DbMessage) -> (r: String)
    ensures
        r@ == enc_db(m@),
{
    match m {
        DbMessage::TradeAdded { market, price, quantity } => {
            let lits = [
                "{\"type\":\"TradeAdded\",\"market\":\"",
                ",\"price\":\"",
                ",\"quantity\":\"",
                "}",
            ];
            let vals = [market.as_str(), price.as_str(), quantity.as_str()];
            let r = encode_fields_from(lits.as_slice(), vals.as_slice(), 0);
            proof {
                assert(lit_views(lits@).skip(0) =~= lits_trade_added());
                assert(lit_views(vals@).skip(0) =~= seq![market@, price@, quantity@]);
            }
            r
        },
        DbMessage::OrderUpdate { order_id, status } => {
            let lits = ["{\"type\":\"OrderUpdate\",\"order_id\":\"", ",\"status\":\"", "}"];
            let vals = [order_id.as_str(), status.as_str()];
            let r = encode_fields_from(lits.as_slice(), vals.as_slice(), 0);
            proof {
                assert(lit_views(lits@).skip(0) =~= lits_order_update());
                assert(lit_views(vals@).skip(0) =~= seq![order_id@, status@]);
            }
            r
        },
    }
}

fn parse_db_at(s: &Vec<char>, i: usize) -> (r: Option<(DbMessage, usize)>)
    requires
        i <= s@.len(),
    ensures
        r matches Some(p) ==> dec_db_at(s@, i as int) == Some((p.0@, p.1 as int)) && p.1
            <= s@.len(),
        r is None ==> dec_db_at(s@, i as int) is None,
{
    let lits_ta = [
        "{\"type\":\"TradeAdded\",\"market\":\"",
        ",\"price\":\"",
        ",\"quantity\":\"",
        "}",
    ];
    proof {
        assert(lit_views(lits_ta@).skip(0) =~= lits_trade_added());
    }
    match parse_fields_from(s, i, lits_ta.as_slice(), 0) {
        Some(p) => {
            let (vs, j) = p;
            proof {
                lemma_dec_fields_sound(s@, i as int, lits_trade_added());
            }
            let market = vs[0].clone();
            let price = vs[1].clone();
            let quantity = vs[2].clone();
            Some((DbMessage::TradeAdded { market, price, quantity }, j))
        },
        None => {
            let lits_ou = ["{\"type\":\"OrderUpdate\",\"order_id\":\"", ",\"status\":\"", "}"];
            proof {
                assert(lit_views(lits_ou@).skip(0) =~= lits_order_update());
            }
            match parse_fields_from(s, i, lits_ou.as_slice(), 0) {
                Some(p) => {
                    let (vs, j) = p;
                    proof {
                        lemma_dec_fields_sound(s@, i as int, lits_order_update());
                    }
                    let order_id = vs[0].clone();
                    let status = vs[1].clone();
                    Some((DbMessage::OrderUpdate { order_id, status }, j))
                },
                None => None,
            }
        },
    }
}

/// Deserializes a persistence payload; anything but a canonical encoding is
/// an encoding error.
pub fn decode_db(s: &str) -> (r: Result<DbMessage, RelayError>)
    ensures
        r matches Ok(m) ==> dec_db(s@) == Some(m@),
        r is Err ==> dec_db(s@) is None && (r matches Err(e) && e == RelayError::Encoding),
{
    let cs = str_chars(s);
    match parse_db_at(&cs, 0) {
        Some(p) => {
            let (m, j) = p;
            if j == cs.len() {
                Ok(m)
            } else {
                Err(RelayError::Encoding)
            }
        },
        None => Err(RelayError::Encoding),
    }
}

// ---------------------------------------------------------------------------
// API-facing outbound messages
// ---------------------------------------------------------------------------

/// The literal pieces of an `OrderPlaced` payload.
pub open spec fn lits_order_placed() -> Seq<Seq<char>> {
    seq!["{\"type\":\"OrderPlaced\",\"order_id\":\""@, ",\"market\":\""@, "}"@]
}

/// The literal pieces of an `OrderCancelled` payload.
pub open spec fn lits_order_cancelled() -> Seq<Seq<char>> {
    seq!["{\"type\":\"OrderCancelled\",\"order_id\":\""@, ",\"market\":\""@, "}"@]
}

/// The canonical payload of an API-facing message.
pub open spec fn enc_to_api(m: MessageToApiV) -> Seq<char> {
    match m {
        MessageToApiV::OrderPlaced { order_id, market } => enc_fields(
            lits_order_placed(),
            seq![order_id, market],
        ),
        MessageToApiV::OrderCancelled { order_id, market } => enc_fields(
            lits_order_cancelled(),
            seq![order_id, market],
        ),
    }
}

/// What parsing one API-facing message from position `i` yields.
pub open spec fn dec_to_api_at(s: Seq<char>, i: int) -> Option<(MessageToApiV, int)> {
    match dec_fields(s, i, lits_order_placed()) {
        Some(p) => Some((MessageToApiV::OrderPlaced { order_id: p.0[0], market: p.0[1] }, p.1)),
        None => match dec_fields(s, i, lits_order_cancelled()) {
            Some(p) => Some(
                (MessageToApiV::OrderCancelled { order_id: p.0[0], market: p.0[1] }, p.1),
            ),
            None => None,
        },
    }
}

/// What decoding a whole API-facing payload yields.
pub open spec fn dec_to_api(s: Seq<char>) -> Option<MessageToApiV> {
    match dec_to_api_at(s, 0) {
        Some(p) => if p.1 == s.len() {
            Some(p.0)
        } else {
            None
        },
        None => None,
    }
}

proof fn lemma_dec_to_api_at_sound(s: Seq<char>, i: int)
    requires
        0 <= i <= s.len(),
    ensures
        dec_to_api_at(s, i) matches Some(r) ==> i <= r.1 <= s.len() && s.subrange(i, r.1)
            == enc_to_api(r.0),
{
    lemma_dec_fields_sound(s, i, lits_order_placed());
    lemma_dec_fields_sound(s, i, lits_order_cancelled());
    match dec_fields(s, i, lits_order_placed()) {
        Some(p) => {
            assert(seq![p.0[0], p.0[1]] =~= p.0);
        },
        None => {
            match dec_fields(s, i, lits_order_cancelled()) {
                Some(p) => {
                    assert(seq![p.0[0], p.0[1]] =~= p.0);
                },
                None => {},
            }
        },
    }
}

proof fn lemma_dec_to_api_at_complete(s: Seq<char>, i: int, m: MessageToApiV)
    requires
        0 <= i,
        i + enc_to_api(m).len() <= s.len(),
        s.subrange(i, i + enc_to_api(m).len()) == enc_to_api(m),
    ensures
        dec_to_api_at(s, i) == Some((m, i + enc_to_api(m).len())),
{
    match m {
        MessageToApiV::OrderPlaced { order_id, market } => {
            lemma_dec_fields_complete(s, i, lits_order_placed(), seq![order_id, market]);
        },
        MessageToApiV::OrderCancelled { order_id, market } => {
            lemma_dec_fields_complete(s, i, lits_order_cancelled(), seq![order_id, market]);
            reveal_strlit("{\"type\":\"OrderPlaced\",\"order_id\":\"");
            reveal_strlit("{\"type\":\"OrderCancelled\",\"order_id\":\"");
            let e = enc_to_api(m);
            assert(e == lits_order_cancelled()[0] + fld(order_id) + enc_fields(
                lits_order_cancelled().drop_first(),
                seq![order_id, market].drop_first(),
            ));
            assert(e[14] == lits_order_cancelled()[0][14]);
            assert(s[i + 14] == s.subrange(i, i + e.len())[14]);
            if lit_at(s, i, lits_order_placed()[0]) {
                assert(s.subrange(i, i + lits_order_placed()[0].len())[14] == s[i + 14]);
                assert(false);
            }
        },
    }
}

/// Round trip: decoding the canonical encoding of any API-facing message
/// yields exactly that message.
pub proof fn lemma_to_api_round_trip(m: MessageToApiV)
    ensures
        dec_to_api(enc_to_api(m)) == Some(m),
{
    let s = enc_to_api(m);
    assert(s.subrange(0, s.len() as int) =~= s);
    lemma_dec_to_api_at_complete(s, 0, m);
}

/// Canonicity: an API-facing payload that decodes at all is exactly the
/// canonical encoding of the message it decodes to.
pub proof fn lemma_to_api_canonical(s: Seq<char>, m: MessageToApiV)
    requires
        dec_to_api(s) == Some(m),
    ensures
        s == enc_to_api(m),
{
    lemma_dec_to_api_at_sound(s, 0);
    assert(s.subrange(0, s.len() as int) =~= s);
}

/// Serializes an API-facing message to its canonical payload.
pub fn encode_to_api(m: &MessageToApi) -> (r: String)
    ensures
        r@ == enc_to_api(m@),
{
    match m {
        MessageToApi::OrderPlaced { order_id, market } => {
            let lits = ["{\"type\":\"OrderPlaced\",\"order_id\":\"", ",\"market\":\"", "}"];
            let vals = [order_id.as_str(), market.as_str()];
            let r = encode_fields_from(lits.as_slice(), vals.as_slice(), 0);
            proof {
                assert(lit_views(lits@).skip(0) =~= lits_order_placed());
                assert(lit_views(vals@).skip(0) =~= seq![order_id@, market@]);
            }
            r
        },
        MessageToApi::OrderCancelled { order_id, market } => {
            let lits = ["{\"type\":\"OrderCancelled\",\"order_id\":\"", ",\"market\":\"", "}"];
            let vals = [order_id.as_str(), market.as_str()];
            let r = encode_fields_from(lits.as_slice(), vals.as_slice(), 0);
            proof {
                assert(lit_views(lits@).skip(0) =~= lits_order_cancelled());
                assert(lit_views(vals@).skip(0) =~= seq![order_id@, market@]);
            }
            r
        },
    }
}

fn parse_to_api_at(s: &Vec<char>, i: usize) -> (r: Option<(MessageToApi, usize)>)
    requires
        i <= s@.len(),
    ensures
        r matches Some(p) ==> dec_to_api_at(s@, i as int) == Some((p.0@, p.1 as int)) && p.1
            <= s@.len(),
        r is None ==> dec_to_api_at(s@, i as int) is None,
{
    let lits_op = ["{\"type\":\"OrderPlaced\",\"order_id\":\"", ",\"market\":\"", "}"];
    proof {
        assert(lit_views(lits_op@).skip(0) =~= lits_order_placed());
    }
    match parse_fields_from(s, i, lits_op.as_slice(), 0) {
        Some(p) => {
            let (vs, j) = p;
            proof {
                lemma_dec_fields_sound(s@, i as int, lits_order_placed());
            }
            let order_id = vs[0].clone();
            let market = vs[1].clone();
            Some((MessageToApi::OrderPlaced { order_id, market }, j))
        },
        None => {
            let lits_oc = ["{\"type\":\"OrderCancelled\",\"order_id\":\"", ",\"market\":\"", "}"];
            proof {
                assert(lit_views(lits_oc@).skip(0) =~= lits_order_cancelled());
            }
            match parse_fields_from(s, i, lits_oc.as_slice(), 0) {
                Some(p) => {
                    let (vs, j) = p;
                    proof {
                        lemma_dec_fields_sound(s@, i as int, lits_order_cancelled());
                    }
                    let order_id = vs[0].clone();
                    let market = vs[1].clone();
                    Some((MessageToApi::OrderCancelled { order_id, market }, j))
                },
                None => None,
            }
        },
    }
}

/// Deserializes an API-facing payload; anything but a canonical encoding is
/// an encoding error.
pub fn decode_to_api(s: &str) -> (r: Result<MessageToApi, RelayError>)
    ensures
        r matches Ok(m) ==> dec_to_api(s@) == Some(m@),
        r is Err ==> dec_to_api(s@) is None && (r matches Err(e) && e == RelayError::Encoding),
{
    let cs = str_chars(s);
    match parse_to_api_at(&cs, 0) {
        Some(p) => {
            let (m, j) = p;
            if j == cs.len() {
                Ok(m)
            } else {
                Err(RelayError::Encoding)
            }
        },
        None => Err(RelayError::Encoding),
    }
}

// ---------------------------------------------------------------------------
// Socket-facing outbound messages
// ---------------------------------------------------------------------------

/// The literal pieces of a `TradeUpdate` payload.
pub open spec fn lits_trade_update() -> Seq<Seq<char>> {
    seq![
        "{\"type\":\"TradeUpdate\",\"market\":\""@,
        ",\"price\":\""@,
        ",\"quantity\":\""@,
        "}"@,
    ]
}

/// The literal pieces of a `TickerUpdate` payload.
pub open spec fn lits_ticker_update() -> Seq<Seq<char>> {
    seq!["{\"type\":\"TickerUpdate\",\"market\":\""@, ",\"last_price\":\""@, "}"@]
}

/// The canonical payload of a socket-facing message.
pub open spec fn enc_ws(m: WsMessageV) -> Seq<char> {
    match m {
        WsMessageV::TradeUpdate { market, price, quantity } => enc_fields(
            lits_trade_update(),
            seq![market, price, quantity],
        ),
        WsMessageV::TickerUpdate { market, last_price } => enc_fields(
            lits_ticker_update(),
            seq![market, last_price],
        ),
    }
}

/// What parsing one socket-facing message from position `i` yields.
pub open spec fn dec_ws_at(s: Seq<char>, i: int) -> Option<(WsMessageV, int)> {
    match dec_fields(s, i, lits_trade_update()) {
        Some(p) => Some(
            (WsMessageV::TradeUpdate { market: p.0[0], price: p.0[1], quantity: p.0[2] }, p.1),
        ),
        None => match dec_fields(s, i, lits_ticker_update()) {
            Some(p) => Some((WsMessageV::TickerUpdate { market: p.0[0], last_price: p.0[1] }, p.1)),
            None => None,
        },
    }
}

/// What decoding a whole socket-facing payload yields.
pub open spec fn dec_ws(s: Seq<char>) -> Option<WsMessageV> {
    match dec_ws_at(s, 0) {
        Some(p) => if p.1 == s.len() {
            Some(p.0)
        } else {
            None
        },
        None => None,
    }
}

proof fn lemma_dec_ws_at_sound(s: Seq<char>, i: int)
    requires
        0 <= i <= s.len(),
    ensures
        dec_ws_at(s, i) matches Some(r) ==> i <= r.1 <= s.len() && s.subrange(i, r.1) == enc_ws(
            r.0,
        ),
{
    lemma_dec_fields_sound(s, i, lits_trade_update());
    lemma_dec_fields_sound(s, i, lits_ticker_update());
    match dec_fields(s, i, lits_trade_update()) {
        Some(p) => {
            assert(seq![p.0[0], p.0[1], p.0[2]] =~= p.0);
        },
        None => {
            match dec_fields(s, i, lits_ticker_update()) {
                Some(p) => {
                    assert(seq![p.0[0], p.0[1]] =~= p.0);
                },
                None => {},
            }
        },
    }
}

proof fn lemma_dec_ws_at_complete(s: Seq<char>, i: int, m: WsMessageV)
    requires
        0 <= i,
        i + enc_ws(m).len() <= s.len(),
        s.subrange(i, i + enc_ws(m).len()) == enc_ws(m),
    ensures
        dec_ws_at(s, i) == Some((m, i + enc_ws(m).len())),
{
    match m {
        WsMessageV::TradeUpdate { market, price, quantity } => {
            lemma_dec_fields_complete(s, i, lits_trade_update(), seq![market, price, quantity]);
        },
        WsMessageV::TickerUpdate { market, last_price } => {
            lemma_dec_fields_complete(s, i, lits_ticker_update(), seq![market, last_price]);
            reveal_strlit("{\"type\":\"TradeUpdate\",\"market\":\"");
            reveal_strlit("{\"type\":\"TickerUpdate\",\"market\":\"");
            let e = enc_ws(m);
            assert(e == lits_ticker_update()[0] + fld(market) + enc_fields(
                lits_ticker_update().drop_first(),
                seq![market, last_price].drop_first(),
            ));
            assert(e[10] == lits_ticker_update()[0][10]);
            assert(s[i + 10] == s.subrange(i, i + e.len())[10]);
            if lit_at(s, i, lits_trade_update()[0]) {
                assert(s.subrange(i, i + lits_trade_update()[0].len())[10] == s[i + 10]);
                assert(false);
            }
        },
    }
}

/// Round trip: decoding the canonical encoding of any socket-facing message
/// yields exactly that message.
pub proof fn lemma_ws_round_trip(m: WsMessageV)
    ensures
        dec_ws(enc_ws(m)) == Some(m),
{
    let s = enc_ws(m);
    assert(s.subrange(0, s.len() as int) =~= s);
    lemma_dec_ws_at_complete(s, 0, m);
}

/// Canonicity: a socket-facing payload that decodes at all is exactly the
/// canonical encoding of the message it decodes to.
pub proof fn lemma_ws_canonical(s: Seq<char>, m: WsMessageV)
    requires
        dec_ws(s) == Some(m),
    ensures
        s == enc_ws(m),
{
    lemma_dec_ws_at_sound(s, 0);
    assert(s.subrange(0, s.len() as int) =~= s);
}

/// Serializes a socket-facing message to its canonical payload.
pub fn encode_ws(m: &WsMessage) -> (r: String)
    ensures
        r@ == enc_ws(m@),
{
    match m {
        WsMessage::TradeUpdate { market, price, quantity } => {
            let lits = [
                "{\"type\":\"TradeUpdate\",\"market\":\"",
                ",\"price\":\"",
                ",\"quantity\":\"",
                "}",
            ];
            let vals = [market.as_str(), price.as_str(), quantity.as_str()];
            let r = encode_fields_from(lits.as_slice(), vals.as_slice(), 0);
            proof {
                assert(lit_views(lits@).skip(0) =~= lits_trade_update());
                assert(lit_views(vals@).skip(0) =~= seq![market@, price@, quantity@]);
            }
            r
        },
        WsMessage::TickerUpdate { market, last_price } => {
            let lits = ["{\"type\":\"TickerUpdate\",\"market\":\"", ",\"last_price\":\"", "}"];
            let vals = [market.as_str(), last_price.as_str()];
            let r = encode_fields_from(lits.as_slice(), vals.as_slice(), 0);
            proof {
                assert(lit_views(lits@).skip(0) =~= lits_ticker_update());
                assert(lit_views(vals@).skip(0) =~= seq![market@, last_price@]);
            }
            r
        },
    }
}

fn parse_ws_at(s: &Vec<char>, i: usize) -> (r: Option<(WsMessage, usize)>)
    requires
        i <= s@.len(),
    ensures
        r matches Some(p) ==> dec_ws_at(s@, i as int) == Some((p.0@, p.1 as int)) && p.1
            <= s@.len(),
        r is None ==> dec_ws_at(s@, i as int) is None,
{
    let lits_tu = [
        "{\"type\":\"TradeUpdate\",\"market\":\"",
        ",\"price\":\"",
        ",\"quantity\":\"",
        "}",
    ];
    proof {
        assert(lit_views(lits_tu@).skip(0) =~= lits_trade_update());
    }
    match parse_fields_from(s, i, lits_tu.as_slice(), 0) {
        Some(p) => {
            let (vs, j) = p;
            proof {
                lemma_dec_fields_sound(s@, i as int, lits_trade_update());
            }
            let market = vs[0].clone();
            let price = vs[1].clone();
            let quantity = vs[2].clone();
            Some((WsMessage::TradeUpdate { market, price, quantity }, j))
        },
        None => {
            let lits_ti = ["{\"type\":\"TickerUpdate\",\"market\":\"", ",\"last_price\":\"", "}"];
            proof {
                assert(lit_views(lits_ti@).skip(0) =~= lits_ticker_update());
            }
            match parse_fields_from(s, i, lits_ti.as_slice(), 0) {
                Some(p) => {
                    let (vs, j) = p;
                    proof {
                        lemma_dec_fields_sound(s@, i as int, lits_ticker_update());
                    }
                    let market = vs[0].clone();
                    let last_price = vs[1].clone();
                    Some((WsMessage::TickerUpdate { market, last_price }, j))
                },
                None => None,
            }
        },
    }
}

/// Deserializes a socket-facing payload; anything but a canonical encoding
/// is an encoding error.
pub fn decode_ws(s: &str) -> (r: Result<WsMessage, RelayError>)
    ensures
        r matches Ok(m) ==> dec_ws(s@) == Some(m@),
        r is Err ==> dec_ws(s@) is None && (r matches Err(e) && e == RelayError::Encoding),
{
    let cs = str_chars(s);
    match parse_ws_at(&cs, 0) {
        Some(p) => {
            let (m, j) = p;
            if j == cs.len() {
                Ok(m)
            } else {
                Err(RelayError::Encoding)
            }
        },
        None => Err(RelayError::Encoding),
    }
}

// ---------------------------------------------------------------------------
// Client-originated messages and the inbound envelope
// ---------------------------------------------------------------------------

/// The canonical spelling of a side of the book.
pub open spec fn side_seq(sd: Side) -> Seq<char> {
    match sd {
        Side::Buy => "buy"@,
        Side::Sell => "sell"@,
    }
}

/// Which side a spelled field value stands for, if any.
pub open spec fn side_of(v: Seq<char>) -> Option<Side> {
    if v == "buy"@ {
        Some(Side::Buy)
    } else if v == "sell"@ {
        Some(Side::Sell)
    } else {
        None
    }
}

/// The literal pieces of a `CreateOrder` payload.
pub open spec fn lits_create_order() -> Seq<Seq<char>> {
    seq![
        "{\"type\":\"CreateOrder\",\"market\":\""@,
        ",\"price\":\""@,
        ",\"quantity\":\""@,
        ",\"side\":\""@,
        ",\"user_id\":\""@,
        "}"@,
    ]
}

/// The literal pieces of a `CancelOrder` payload.
pub open spec fn lits_cancel_order() -> Seq<Seq<char>> {
    seq!["{\"type\":\"CancelOrder\",\"order_id\":\""@, ",\"market\":\""@, "}"@]
}

/// The canonical payload of a client-originated message.
pub open spec fn enc_from_api(m: MessageFromApiV) -> Seq<char> {
    match m {
        MessageFromApiV::CreateOrder { market, price, quantity, side, user_id } => enc_fields(
            lits_create_order(),
            seq![market, price, quantity, side_seq(side), user_id],
        ),
        MessageFromApiV::CancelOrder { order_id, market } => enc_fields(
            lits_cancel_order(),
            seq![order_id, market],
        ),
    }
}

/// What parsing one client-originated message from position `i` yields.
pub open spec fn dec_from_api_at(s: Seq<char>, i: int) -> Option<(MessageFromApiV, int)> {
    match dec_fields(s, i, lits_create_order()) {
        Some(p) => match side_of(p.0[3]) {
            Some(sd) => Some(
                (
                    MessageFromApiV::CreateOrder {
                        market: p.0[0],
                        price: p.0[1],
                        quantity: p.0[2],
                        side: sd,
                        user_id: p.0[4],
                    },
                    p.1,
                ),
            ),
            None => None,
        },
        None => match dec_fields(s, i, lits_cancel_order()) {
            Some(p) => Some((MessageFromApiV::CancelOrder { order_id: p.0[0], market: p.0[1] }, p.1)),
            None => None,
        },
    }
}

proof fn lemma_dec_from_api_at_sound(s: Seq<char>, i: int)
    requires
        0 <= i <= s.len(),
    ensures
        dec_from_api_at(s, i) matches Some(r) ==> i <= r.1 <= s.len() && s.subrange(i, r.1)
            == enc_from_api(r.0),
{
    lemma_dec_fields_sound(s, i, lits_create_order());
    lemma_dec_fields_sound(s, i, lits_cancel_order());
    match dec_fields(s, i, lits_create_order()) {
        Some(p) => {
            match side_of(p.0[3]) {
                Some(sd) => {
                    assert(side_seq(sd) == p.0[3]);
                    assert(seq![p.0[0], p.0[1], p.0[2], p.0[3], p.0[4]] =~= p.0);
                },
                None => {},
            }
        },
        None => {
            match dec_fields(s, i, lits_cancel_order()) {
                Some(p) => {
                    assert(seq![p.0[0], p.0[1]] =~= p.0);
                },
                None => {},
            }
        },
    }
}

proof fn lemma_dec_from_api_at_complete(s: Seq<char>, i: int, m: MessageFromApiV)
    requires
        0 <= i,
        i + enc_from_api(m).len() <= s.len(),
        s.subrange(i, i + enc_from_api(m).len()) == enc_from_api(m),
    ensures
        dec_from_api_at(s, i) == Some((m, i + enc_from_api(m).len())),
{
    match m {
        MessageFromApiV::CreateOrder { market, price, quantity, side, user_id } => {
            lemma_dec_fields_complete(
                s,
                i,
                lits_create_order(),
                seq![market, price, quantity, side_seq(side), user_id],
            );
            reveal_strlit("buy");
            reveal_strlit("sell");
            assert("buy"@.len() == 3);
            assert("sell"@.len() == 4);
            assert(side_of(side_seq(side)) == Some(side));
        },
        MessageFromApiV::CancelOrder { order_id, market } => {
            lemma_dec_fields_complete(s, i, lits_cancel_order(), seq![order_id, market]);
            reveal_strlit("{\"type\":\"CreateOrder\",\"market\":\"");
            reveal_strlit("{\"type\":\"CancelOrder\",\"order_id\":\"");
            let e = enc_from_api(m);
            assert(e == lits_cancel_order()[0] + fld(order_id) + enc_fields(
                lits_cancel_order().drop_first(),
                seq![order_id, market].drop_first(),
            ));
            assert(e[10] == lits_cancel_order()[0][10]);
            assert(s[i + 10] == s.subrange(i, i + e.len())[10]);
            if lit_at(s, i, lits_create_order()[0]) {
                assert(s.subrange(i, i + lits_create_order()[0].len())[10] == s[i + 10]);
                assert(false);
            }
        },
    }
}

/// Which side a parsed field value stands for, if any.
fn side_from(v: &String) -> (r: Option<Side>)
    ensures
        r == side_of(v@),
{
    let buy = String::from_str("buy");
    if v.eq(&buy) {
        Some(Side::Buy)
    } else {
        let sell = String::from_str("sell");
        if v.eq(&sell) {
            Some(Side::Sell)
        } else {
            None
        }
    }
}

/// The canonical spelling of a side of the book.
fn side_str(sd: Side) -> (r: &'static str)
    ensures
        r@ == side_seq(sd),
{
    match sd {
        Side::Buy => "buy",
        Side::Sell => "sell",
    }
}

/// Serializes a client-originated message to its canonical payload.
pub fn encode_from_api(m: &MessageFromApi) -> (r: String)
    ensures
        r@ == enc_from_api(m@),
{
    match m {
        MessageFromApi::CreateOrder { market, price, quantity, side, user_id } => {
            let lits = [
                "{\"type\":\"CreateOrder\",\"market\":\"",
                ",\"price\":\"",
                ",\"quantity\":\"",
                ",\"side\":\"",
                ",\"user_id\":\"",
                "}",
            ];
            let vals = [
                market.as_str(),
                price.as_str(),
                quantity.as_str(),
                side_str(*side),
                user_id.as_str(),
            ];
            let r = encode_fields_from(lits.as_slice(), vals.as_slice(), 0);
            proof {
                assert(lit_views(lits@).skip(0) =~= lits_create_order());
                assert(lit_views(vals@).skip(0) =~= seq![
                    market@,
                    price@,
                    quantity@,
                    side_seq(*side),
                    user_id@,
                ]);
            }
            r
        },
        MessageFromApi::CancelOrder { order_id, market } => {
            let lits = ["{\"type\":\"CancelOrder\",\"order_id\":\"", ",\"market\":\"", "}"];
            let vals = [order_id.as_str(), market.as_str()];
            let r = encode_fields_from(lits.as_slice(), vals.as_slice(), 0);
            proof {
                assert(lit_views(lits@).skip(0) =~= lits_cancel_order());
                assert(lit_views(vals@).skip(0) =~= seq![order_id@, market@]);
            }
            r
        },
    }
}

fn parse_from_api_at(s: &Vec<char>, i: usize) -> (r: Option<(MessageFromApi, usize)>)
    requires
        i <= s@.len(),
    ensures
        r matches Some(p) ==> dec_from_api_at(s@, i as int) == Some((p.0@, p.1 as int)) && p.1
            <= s@.len(),
        r is None ==> dec_from_api_at(s@, i as int) is None,
{
    let lits_cr = [
        "{\"type\":\"CreateOrder\",\"market\":\"",
        ",\"price\":\"",
        ",\"quantity\":\"",
        ",\"side\":\"",
        ",\"user_id\":\"",
        "}",
    ];
    proof {
        assert(lit_views(lits_cr@).skip(0) =~= lits_create_order());
    }
    match parse_fields_from(s, i, lits_cr.as_slice(), 0) {
        Some(p) => {
            let (vs, j) = p;
            proof {
                lemma_dec_fields_sound(s@, i as int, lits_create_order());
            }
            match side_from(&vs[3]) {
                Some(side) => {
                    let market = vs[0].clone();
                    let price = vs[1].clone();
                    let quantity = vs[2].clone();
                    let user_id = vs[4].clone();
                    Some((MessageFromApi::CreateOrder { market, price, quantity, side, user_id }, j))
                },
                None => None,
            }
        },
        None => {
            let lits_cn = ["{\"type\":\"CancelOrder\",\"order_id\":\"", ",\"market\":\"", "}"];
            proof {
                assert(lit_views(lits_cn@).skip(0) =~= lits_cancel_order());
            }
            match parse_fields_from(s, i, lits_cn.as_slice(), 0) {
                Some(p) => {
                    let (vs, j) = p;
                    proof {
                        lemma_dec_fields_sound(s@, i as int, lits_cancel_order());
                    }
                    let order_id = vs[0].clone();
                    let market = vs[1].clone();
                    Some((MessageFromApi::CancelOrder { order_id, market }, j))
                },
                None => None,
            }
        },
    }
}

// ---------------------------------------------------------------------------
// The inbound envelope
// ---------------------------------------------------------------------------

/// The canonical payload of an inbound envelope: a two-element array of the
/// originator identifier and the message it sent.
pub open spec fn enc_inbound(v: InboundEnvelopeV) -> Seq<char> {
    "[\""@ + fld(v.client_id) + ","@ + enc_from_api(v.message) + "]"@
}

/// What decoding a whole inbound payload yields: an envelope only when the
/// payload is exactly its canonical encoding.
pub open spec fn dec_inbound(s: Seq<char>) -> Option<InboundEnvelopeV> {
    if !lit_at(s, 0, "[\""@) {
        None
    } else {
        match scan(s, "[\""@.len() as int) {
            Some(p) => if lit_at(s, p.1, ","@) {
                match dec_from_api_at(s, p.1 + ","@.len()) {
                    Some(q) => if lit_at(s, q.1, "]"@) && q.1 + "]"@.len() == s.len() {
                        Some(InboundEnvelopeV { client_id: p.0, message: q.0 })
                    } else {
                        None
                    },
                    None => None,
                }
            } else {
                None
            },
            None => None,
        }
    }
}

/// Round trip: decoding the canonical encoding of any envelope yields
/// exactly that envelope, originator identifier and message alike.
pub proof fn lemma_inbound_round_trip(v: InboundEnvelopeV)
    ensures
        dec_inbound(enc_inbound(v)) == Some(v),
{
    let InboundEnvelopeV { client_id, message } = v;
    let a = "[\""@;
    let b = fld(client_id);
    let c = ","@;
    let d = enc_from_api(message);
    let e = "]"@;
    let s = enc_inbound(v);
    assert(s.subrange(0, s.len() as int) =~= s);
    assert(s =~= a + (b + (c + (d + e))));
    lemma_split(s, 0, a, b + (c + (d + e)));
    lemma_split(s, a.len() as int, b, c + (d + e));
    lemma_split(s, (a.len() + b.len()) as int, c, d + e);
    lemma_split(s, (a.len() + b.len() + c.len()) as int, d, e);
    assert(lit_at(s, 0, a));
    lemma_scan_fld(s, a.len() as int, client_id);
    assert(lit_at(s, (a.len() + b.len()) as int, c));
    lemma_dec_from_api_at_complete(s, (a.len() + b.len() + c.len()) as int, message);
    assert(lit_at(s, (a.len() + b.len() + c.len() + d.len()) as int, e));
}

/// Canonicity: an inbound payload that decodes at all is exactly the
/// canonical encoding of the envelope it decodes to.
pub proof fn lemma_inbound_canonical(s: Seq<char>, v: InboundEnvelopeV)
    requires
        dec_inbound(s) == Some(v),
    ensures
        s == enc_inbound(v),
{
    let a = "[\""@;
    let c = ","@;
    let e = "]"@;
    lemma_scan_sound(s, a.len() as int);
    match scan(s, a.len() as int) {
        Some(p) => {
            let b = fld(p.0);
            lemma_dec_from_api_at_sound(s, p.1 + c.len());
            match dec_from_api_at(s, p.1 + c.len()) {
                Some(q) => {
                    let d = enc_from_api(q.0);
                    lemma_cat3(s, 0, a, b, c);
                    lemma_cat3(s, 0, (a + b) + c, d, e);
                    assert(s.subrange(0, s.len() as int) =~= s);
                },
                None => {},
            }
        },
        None => {},
    }
}

/// Serializes an envelope to its canonical inbound payload.
pub fn encode_inbound(env: &InboundEnvelope) -> (r: String)
    ensures
        r@ == enc_inbound(env@),
{
    let mut out = String::from_str("[\"");
    append_esc(&mut out, env.client_id.as_str());
    push_char(&mut out, '"');
    out.append(",");
    let msg = encode_from_api(&env.message);
    out.append(msg.as_str());
    out.append("]");
    proof {
        assert(out@ =~= "[\""@ + fld(env.client_id@) + ","@ + enc_from_api(env.message@) + "]"@);
    }
    out
}

/// Deserializes an inbound payload; anything but a canonical encoding is an
/// encoding error.
pub fn decode_inbound(s: &str) -> (r: Result<InboundEnvelope, RelayError>)
    ensures
        r matches Ok(env) ==> dec_inbound(s@) == Some(env@),
        r is Err ==> dec_inbound(s@) is None && (r matches Err(e) && e == RelayError::Encoding),
{
    let cs = str_chars(s);
    match expect_lit(&cs, 0, "[\"") {
        None => Err(RelayError::Encoding),
        Some(i1) => match scan_chars(&cs, i1) {
            None => Err(RelayError::Encoding),
            Some(p) => {
                let (cid_chars, i2) = p;
                match expect_lit(&cs, i2, ",") {
                    None => Err(RelayError::Encoding),
                    Some(i3) => match parse_from_api_at(&cs, i3) {
                        None => Err(RelayError::Encoding),
                        Some(q) => {
                            let (message, i4) = q;
                            match expect_lit(&cs, i4, "]") {
                                None => Err(RelayError::Encoding),
                                Some(i5) => {
                                    if i5 == cs.len() {
                                        let client_id = chars_string(&cid_chars);
                                        Ok(InboundEnvelope { client_id, message })
                                    } else {
                                        Err(RelayError::Encoding)
                                    }
                                },
                            }
                        },
                    },
                }
            },
        },
    }
}

} // verus!
