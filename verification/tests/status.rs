use packet_codec::de::deserialize;
use packet_codec::ser::serialize;
use packet_codec::status::{
    ClientboundPacket, JsonResponse, JsonResponseDescription, JsonResponsePlayers,
    JsonResponseVersion, Ping, Pong, Request, Response,
};
use packet_codec::value::{Shape, Value};

#[test]
fn ping_is_answered_with_its_own_payload() {
    let ping = Ping { payload: 42 };
    assert_eq!(ping.handle(), ClientboundPacket::Pong(Pong { payload: 42 }));
    let ping = Ping { payload: u64::MAX };
    assert_eq!(ping.handle(), ClientboundPacket::Pong(Pong { payload: u64::MAX }));
}

#[test]
fn request_is_answered_with_the_server_status() {
    let expected = ClientboundPacket::Response(Response {
        json_response: JsonResponse {
            version: JsonResponseVersion { name: "1.15.2".to_string(), protocol: 578 },
            description: JsonResponseDescription { text: "Ptdr \u{e7}a marche enfin".to_string() },
            players: JsonResponsePlayers { max: 5, online: 0, sample: Vec::new() },
            favicon: String::new(),
        },
    });
    assert_eq!(Request.handle(), expected);
}

#[test]
fn pong_on_the_wire() {
    let pong = Pong { payload: 42 };
    assert_eq!(pong.to_value(), Value::Struct(vec![Value::U64(42)]));
    assert_eq!(serialize(&pong.to_value()), Ok(vec![0, 0, 0, 0, 0, 0, 0, 42]));
}

#[test]
fn ping_off_the_wire() {
    assert_eq!(Ping::shape(), Shape::Struct(vec![Shape::U64]));
    let value = deserialize(&Ping::shape(), &[0, 0, 0, 0, 0, 0, 1, 0]).unwrap();
    assert_eq!(Ping::from_value(&value), Some(Ping { payload: 256 }));
    assert_eq!(Ping::from_value(&Value::U64(1)), None);
    assert_eq!(Ping::from_value(&Value::Struct(Vec::new())), None);
    assert_eq!(Ping::from_value(&Value::Struct(vec![Value::U8(1)])), None);
    assert_eq!(Ping::from_value(&Value::Struct(vec![Value::U64(1), Value::U64(2)])), None);
    assert_eq!(Ping::from_value(&Value::Sequence(vec![Value::U64(1)])), None);
}

#[test]
fn ping_round_trip_through_the_codec() {
    let sent = Pong { payload: 0x0102030405060708 };
    let bytes = serialize(&sent.to_value()).unwrap();
    assert_eq!(bytes, vec![1, 2, 3, 4, 5, 6, 7, 8]);
    let value = deserialize(&Ping::shape(), &bytes).unwrap();
    assert_eq!(Ping::from_value(&value), Some(Ping { payload: sent.payload }));
}
