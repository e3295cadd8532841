//! The packets of the status phase, and what the server answers to each.
//!
//! A handler here only decides what goes out; sending it is the caller's
//! business.
use crate::value::{lemma_shapes_view, lemma_values_view, Shape, SpecShape, SpecValue, Value};
use vstd::prelude::*;

verus! {

/// Sent by a client to measure the round trip; `payload` is whatever the
/// client chose.
#[derive(Debug, Clone, Copy, PartialEq, Eq, Structural)]
pub struct Ping {
    pub payload: u64,
}

/// The answer to a [`Ping`].
#[derive(Debug, Clone, Copy, PartialEq, Eq, Structural)]
pub struct Pong {
    pub payload: u64,
}

/// Sent by a client to ask what the server is.
#[derive(Debug, Clone, Copy, PartialEq, Eq, Structural)]
pub struct Request;

/// The game version that the server speaks.
#[derive(Debug, PartialEq, Eq)]
pub struct JsonResponseVersion {
    pub name: String,
    pub protocol: i32,
}

/// The line that a client shows beside the server's name.
#[derive(Debug, PartialEq, Eq)]
pub struct JsonResponseDescription {
    pub text: String,
}

/// One of the players that a server lists as online.
#[derive(Debug, PartialEq, Eq)]
pub struct JsonResponsePlayer {
    pub name: String,
    pub id: String,
}

/// How many players the server holds and how many are on it.
#[derive(Debug, PartialEq, Eq)]
pub struct JsonResponsePlayers {
    pub max: i32,
    pub online: i32,
    pub sample: Vec<JsonResponsePlayer>,
}

/// What a server says of itself.
#[derive(Debug, PartialEq, Eq)]
pub struct JsonResponse {
    pub version: JsonResponseVersion,
    pub description: JsonResponseDescription,
    pub players: JsonResponsePlayers,
    pub favicon: String,
}

/// The answer to a [`Request`].
#[derive(Debug, PartialEq, Eq)]
pub struct Response {
    pub json_response: JsonResponse,
}

/// A packet from the server to a client in the status phase.
#[derive(Debug, PartialEq, Eq)]
pub enum ClientboundPacket {
    Response(Response),
    Pong(Pong),
}

/// The version name that this server announces.
pub const VERSION_NAME: &'static str = "1.15.2";

/// The protocol number that goes with [`VERSION_NAME`].
pub const PROTOCOL: i32 = 578;

/// The description that this server announces.
pub const DESCRIPTION: &'static str = "Ptdr \u{e7}a marche enfin";

/// The number of players that this server holds.
pub const MAX_PLAYERS: i32 = 5;

impl Ping {
    /// The shape of a ping on the wire: its payload and nothing else.
    pub fn shape() -> (s: Shape)
        ensures
            s@ == SpecShape::Struct(seq![SpecShape::U64]),
    {
        let mut fields: Vec<Shape> = Vec::new();
        fields.push(Shape::U64);
        proof {
            lemma_shapes_view(fields@);
            assert(fields@[0]@ == SpecShape::U64);
        }
        let s = Shape::Struct(fields);
        assert(s@->Struct_0 =~= seq![SpecShape::U64]);
        s
    }

    /// The ping that `value` stands for, if it has the shape of one.
    pub fn from_value(value: &Value) -> (r: Option<Ping>)
        ensures
            match r {
                Some(ping) => value@ == SpecValue::Struct(seq![SpecValue::U64(ping.payload)]),
                None => !(value@ matches SpecValue::Struct(fields) && fields.len() == 1
                    && fields[0] is U64),
            },
    {
        match value {
            Value::Struct(items) => {
                proof {
                    lemma_values_view(items@);
                }
                if items.len() == 1 {
                    match &items[0] {
                        Value::U64(payload) => {
                            proof {
                                assert(items@[0]@ == SpecValue::U64(*payload));
                            }
                            assert(value@->Struct_0 =~= seq![SpecValue::U64(*payload)]);
                            Some(Ping { payload: *payload })
                        },
                        _ => {
                            proof {
                                assert(!(items@[0]@ is U64));
                            }
                            None
                        },
                    }
                } else {
                    None
                }
            },
            _ => None,
        }
    }

    /// Answers a ping: a pong that carries the same payload.
    pub fn handle(&self) -> (out: ClientboundPacket)
        ensures
            out == ClientboundPacket::Pong((Pong { payload: self.payload })),
    {
        let pong = ClientboundPacket::Pong(Pong { payload: self.payload });
        pong
    }
}

impl Pong {
    /// A pong as the serializer takes it: its payload and nothing else.
    pub fn to_value(&self) -> (v: Value)
        ensures
            v@ == SpecValue::Struct(seq![SpecValue::U64(self.payload)]),
    {
        let mut fields: Vec<Value> = Vec::new();
        fields.push(Value::U64(self.payload));
        proof {
            lemma_values_view(fields@);
            assert(fields@[0]@ == SpecValue::U64(self.payload));
        }
        let v = Value::Struct(fields);
        assert(v@->Struct_0 =~= seq![SpecValue::U64(self.payload)]);
        v
    }
}

impl Request {
    /// Answers a status request: this server's version, description and
    /// player counts, with nobody online, no sample of players and no icon.
    pub fn handle(&self) -> (out: ClientboundPacket)
        ensures
            out matches ClientboundPacket::Response(response) && {
                let json = response.json_response;
                &&& json.version.name@ == VERSION_NAME@
                &&& json.version.protocol == PROTOCOL
                &&& json.description.text@ == DESCRIPTION@
                &&& json.players.max == MAX_PLAYERS
                &&& json.players.online == 0
                &&& json.players.sample@.len() == 0
                &&& json.favicon@.len() == 0
            },
    {
        let response = ClientboundPacket::Response(
            Response {
                json_response: JsonResponse {
                    version: JsonResponseVersion {
                        name: VERSION_NAME.to_owned(),
                        protocol: PROTOCOL,
                    },
                    description: JsonResponseDescription { text: DESCRIPTION.to_owned() },
                    players: JsonResponsePlayers {
                        max: MAX_PLAYERS,
                        online: 0,
                        sample: Vec::new(),
                    },
                    favicon: String::new(),
                },
            },
        );
        response
    }
}

} // verus!
