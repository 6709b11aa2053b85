use std::str;

use coin_server::protocol::{
    decode_client_msg, decode_count, decode_server_msg, encode, encode_client_msg,
    encode_server_msg, is_server_header, ClientMessage, ServerMessage,
};

#[test]
fn encode_insert_msg() {
    let msg = ClientMessage::Insert;

    let encoded_msg = encode_client_msg(msg);
    let encoded_msg = str::from_utf8(&encoded_msg).unwrap();

    assert_eq!(encoded_msg, "t");
}

#[test]
fn encode_consult_msg() {
    let msg = ClientMessage::ConsultPool;

    let encoded_msg = encode_client_msg(msg);
    let encoded_msg = str::from_utf8(&encoded_msg).unwrap();

    assert_eq!(encoded_msg, "y");
}

#[test]
fn encode_quit_msg() {
    let msg = ClientMessage::Quit;

    let encoded_msg = encode_client_msg(msg);
    let encoded_msg = str::from_utf8(&encoded_msg).unwrap();

    assert_eq!(encoded_msg, "q");
}

#[test]
fn decode_counts() {
    let count_0 = "00000".as_bytes();
    let count_1 = "00001".as_bytes();
    let count_max = "99999".as_bytes();

    assert_eq!(decode_count(count_0).unwrap(), 0);
    assert_eq!(decode_count(count_1).unwrap(), 1);
    assert_eq!(decode_count(count_max).unwrap(), 99999);
}

#[test]
fn decode_non_numeric_slice() {
    let s = "abcde".as_bytes();

    assert!(decode_count(s).is_err());
}

#[test]
fn encode_fell_msg() {
    let msg = ServerMessage::FellCoins(0);

    let encoded_msg = encode_server_msg(msg).unwrap();
    let encoded_msg = str::from_utf8(&encoded_msg).unwrap();

    assert_eq!(encoded_msg, "f00000");
}

#[test]
fn encode_pool_msg() {
    let msg = ServerMessage::PoolState(99999);

    let encoded_msg = encode_server_msg(msg).unwrap();
    let encoded_msg = str::from_utf8(&encoded_msg).unwrap();

    assert_eq!(encoded_msg, "p99999");
}

#[test]
fn encode_invalid_fell_msg() {
    let msg = ServerMessage::FellCoins(100000);

    assert!(encode_server_msg(msg).is_err());
}

#[test]
fn encode_invalid_pool_msg() {
    let msg = ServerMessage::PoolState(100000);

    assert!(encode_server_msg(msg).is_err());
}

#[test]
fn protocol_encode_insert_msg() {
    let msg = ClientMessage::Insert;

    let encoded_msg = encode(msg);
    let encoded_msg = str::from_utf8(&encoded_msg).unwrap();

    assert_eq!(encoded_msg, "t");
}

#[test]
fn protocol_encode_consult_msg() {
    let msg = ClientMessage::ConsultPool;

    let encoded_msg = encode(msg);
    let encoded_msg = str::from_utf8(&encoded_msg).unwrap();

    assert_eq!(encoded_msg, "y");
}

#[test]
fn protocol_encode_quit_msg() {
    let msg = ClientMessage::Quit;

    let encoded_msg = encode(msg);
    let encoded_msg = str::from_utf8(&encoded_msg).unwrap();

    assert_eq!(encoded_msg, "q");
}

#[test]
fn protocol_decode_counts() {
    let count_0 = "00000".as_bytes();
    let count_1 = "00001".as_bytes();
    let count_max = "99999".as_bytes();

    assert_eq!(decode_count(count_0).unwrap(), 0);
    assert_eq!(decode_count(count_1).unwrap(), 1);
    assert_eq!(decode_count(count_max).unwrap(), 99999);
}

#[test]
fn protocol_decode_non_numeric_slice() {
    let s = "abcde".as_bytes();

    assert!(decode_count(s).is_err());
}

#[test]
fn decode_count_accepts_leading_plus_as_from_str_does() {
    assert_eq!(decode_count("+1234".as_bytes()).unwrap(), 1234);
    assert!(decode_count("1+234".as_bytes()).is_err());
    assert!(decode_count("+++12".as_bytes()).is_err());
}

#[test]
fn server_frame_round_trips_through_decode_then_encode() {
    for frame in ["f00000", "f00042", "p99999", "p00007"] {
        let bytes = frame.as_bytes();
        let msg = decode_server_msg(bytes[0], &bytes[1..]).unwrap();
        let re_encoded = encode_server_msg(msg).unwrap();
        assert_eq!(re_encoded, bytes);
    }
}

#[test]
fn server_msg_round_trips_through_encode_then_decode() {
    for (msg, expect) in [
        (ServerMessage::FellCoins(3), "f00003"),
        (ServerMessage::PoolState(700), "p00700"),
    ] {
        let bytes = encode_server_msg(msg).unwrap();
        assert_eq!(str::from_utf8(&bytes).unwrap(), expect);
        let back = decode_server_msg(bytes[0], &bytes[1..]).unwrap();
        assert_eq!(back, msg);
    }
}

#[test]
fn decode_client_bytes() {
    assert_eq!(decode_client_msg(b't').unwrap(), ClientMessage::Insert);
    assert_eq!(decode_client_msg(b'y').unwrap(), ClientMessage::ConsultPool);
    assert_eq!(decode_client_msg(b'q').unwrap(), ClientMessage::Quit);
    assert!(decode_client_msg(b'x').is_err());
}

#[test]
fn unknown_server_header_is_rejected() {
    assert!(is_server_header(b'f'));
    assert!(is_server_header(b'p'));
    assert!(!is_server_header(b't'));
    assert!(decode_server_msg(b'z', "00000".as_bytes()).is_err());
    assert!(decode_server_msg(b'f', "12a45".as_bytes()).is_err());
}
