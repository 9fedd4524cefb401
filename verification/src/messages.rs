//! The closed message vocabulary that crosses the relay.
//!
//! Four tagged variants cross the boundary: client-originated messages popped
//! from the inbound queue (together with the identifier of the session that
//! sent them), facts appended to the persistence queue, and the two outbound
//! shapes published to the API-facing and the socket-facing channels.  Each
//! exec type has a mathematical view with sequence-of-character fields, which
//! the codec contracts are stated over.

use vstd::prelude::*;

verus! {

/// Which side of the book an order stands on.
#[derive(Clone, Copy, Debug, PartialEq, Eq, Structural)]
pub enum Side {
    Buy,
    Sell,
}

/// A client-originated message, as it arrives on the inbound queue.
#[derive(Clone, Debug, PartialEq, Eq)]
pub enum MessageFromApi {
    CreateOrder { market: String, price: String, quantity: String, side: Side, user_id: String },
    CancelOrder { order_id: String, market: String },
}

/// The view of a `MessageFromApi`: the same shape over character sequences.
pub enum MessageFromApiV {
    CreateOrder {
        market: Seq<char>,
        price: Seq<char>,
        quantity: Seq<char>,
        side: Side,
        user_id: Seq<char>,
    },
    CancelOrder { order_id: Seq<char>, market: Seq<char> },
}

impl View for MessageFromApi {
    type V = MessageFromApiV;

    open spec fn view(&self) -> MessageFromApiV {
        match self {
            MessageFromApi::CreateOrder { market, price, quantity, side, user_id } => {
                MessageFromApiV::CreateOrder {
                    market: market@,
                    price: price@,
                    quantity: quantity@,
                    side: *side,
                    user_id: user_id@,
                }
            },
            MessageFromApi::CancelOrder { order_id, market } => {
                MessageFromApiV::CancelOrder { order_id: order_id@, market: market@ }
            },
        }
    }
}

/// What one dequeue from the inbound queue hands back: the originator's
/// session identifier and the message it sent.  The identifier travels next
/// to the message on the wire, not inside it.
#[derive(Clone, Debug, PartialEq, Eq)]
pub struct InboundEnvelope {
    pub client_id: String,
    pub message: MessageFromApi,
}

/// The view of an `InboundEnvelope`.
pub struct InboundEnvelopeV {
    pub client_id: Seq<char>,
    pub message: MessageFromApiV,
}

impl View for InboundEnvelope {
    type V = InboundEnvelopeV;

    open spec fn view(&self) -> InboundEnvelopeV {
        InboundEnvelopeV { client_id: self.client_id@, message: self.message@ }
    }
}

/// A fact bound for the persistence queue, to be durably recorded by the
/// downstream consumer.
#[derive(Clone, Debug, PartialEq, Eq)]
pub enum DbMessage {
    TradeAdded { market: String, price: String, quantity: String },
    OrderUpdate { order_id: String, status: String },
}

/// The view of a `DbMessage`.
pub enum DbMessageV {
    TradeAdded { market: Seq<char>, price: Seq<char>, quantity: Seq<char> },
    OrderUpdate { order_id: Seq<char>, status: Seq<char> },
}

impl View for DbMessage {
    type V = DbMessageV;

    open spec fn view(&self) -> DbMessageV {
        match self {
            DbMessage::TradeAdded { market, price, quantity } => {
                DbMessageV::TradeAdded { market: market@, price: price@, quantity: quantity@ }
            },
            DbMessage::OrderUpdate { order_id, status } => {
                DbMessageV::OrderUpdate { order_id: order_id@, status: status@ }
            },
        }
    }
}

/// A message published on an API-facing channel.
#[derive(Clone, Debug, PartialEq, Eq)]
pub enum MessageToApi {
    OrderPlaced { order_id: String, market: String },
    OrderCancelled { order_id: String, market: String },
}

/// The view of a `MessageToApi`.
pub enum MessageToApiV {
    OrderPlaced { order_id: Seq<char>, market: Seq<char> },
    OrderCancelled { order_id: Seq<char>, market: Seq<char> },
}

impl View for MessageToApi {
    type V = MessageToApiV;

    open spec fn view(&self) -> MessageToApiV {
        match self {
            MessageToApi::OrderPlaced { order_id, market } => {
                MessageToApiV::OrderPlaced { order_id: order_id@, market: market@ }
            },
            MessageToApi::OrderCancelled { order_id, market } => {
                MessageToApiV::OrderCancelled { order_id: order_id@, market: market@ }
            },
        }
    }
}

/// A message published on a real-time, client-facing socket channel.
#[derive(Clone, Debug, PartialEq, Eq)]
pub enum WsMessage {
    TradeUpdate { market: String, price: String, quantity: String },
    TickerUpdate { market: String, last_price: String },
}

/// The view of a `WsMessage`.
pub enum WsMessageV {
    TradeUpdate { market: Seq<char>, price: Seq<char>, quantity: Seq<char> },
    TickerUpdate { market: Seq<char>, last_price: Seq<char> },
}

impl View for WsMessage {
    type V = WsMessageV;

    open spec fn view(&self) -> WsMessageV {
        match self {
            WsMessage::TradeUpdate { market, price, quantity } => {
                WsMessageV::TradeUpdate { market: market@, price: price@, quantity: quantity@ }
            },
            WsMessage::TickerUpdate { market, last_price } => {
                WsMessageV::TickerUpdate { market: market@, last_price: last_price@ }
            },
        }
    }
}

} // verus!
