//! The byte-exact wire protocol between client and server.
//!
//! A client sends one control byte: `t` to insert a coin, `y` to consult
//! the pool, `q` to quit (the session then ends with no reply). The server
//! replies with one control byte followed by a five-ASCII-digit,
//! zero-padded decimal count: `f` + digits for the coins released by an
//! insert, `p` + digits for the current pool level. A count over 99999
//! cannot be encoded and is rejected with an explicit error.

use vstd::prelude::*;

verus! {

pub const INSERT_BYTE: u8 = 116;

pub const CONSULT_BYTE: u8 = 121;

pub const QUIT_BYTE: u8 = 113;

pub const FELL_BYTE: u8 = 102;

pub const POOL_BYTE: u8 = 112;

/// The largest count a five-digit payload can carry.
pub const MAX_COUNT: u32 = 99999;

/// The ASCII byte `0`.
pub const DIGIT_ZERO: u8 = 48;

/// The ASCII byte `9`.
pub const DIGIT_NINE: u8 = 57;

/// The ASCII byte `+`, which a numeric payload may carry as a sign.
pub const PLUS_BYTE: u8 = 43;

#[derive(Debug, Clone, Copy, PartialEq, Eq, Structural)]
pub enum ClientMessage {
    Insert,
    ConsultPool,
    Quit,
}

#[derive(Debug, Clone, Copy, PartialEq, Eq, Structural)]
pub enum ServerMessage {
    FellCoins(u32),
    PoolState(u32),
}

#[derive(Debug)]
pub struct ProtocolError {
    msg: String,
}

impl ProtocolError {
    pub closed spec fn spec_msg(&self) -> Seq<char> {
        self.msg@
    }

    pub fn new(msg: String) -> (r: ProtocolError)
        ensures
            r.spec_msg() == msg@,
    {
        ProtocolError { msg }
    }

    /// The human-readable account of the failure.
    pub fn message(&self) -> (r: &String)
        ensures
            r@ == self.spec_msg(),
    {
        &self.msg
    }
}

pub open spec fn is_ascii_digit(b: u8) -> bool {
    DIGIT_ZERO <= b <= DIGIT_NINE
}

pub open spec fn all_ascii_digits(s: Seq<u8>) -> bool {
    forall|i: int| 0 <= i < s.len() ==> is_ascii_digit(#[trigger] s[i])
}

/// The numeric value of a string of ASCII digits.
pub open spec fn count_of_digits(s: Seq<u8>) -> int
    decreases s.len(),
{
    if s.len() == 0 {
        0
    } else {
        count_of_digits(s.drop_last()) * 10 + (s.last() - DIGIT_ZERO)
    }
}

pub open spec fn pow10(n: nat) -> int
    decreases n,
{
    if n == 0 {
        1
    } else {
        10 * pow10((n - 1) as nat)
    }
}

/// What `u32::from_str` makes of a payload: an optional leading `+`, then
/// one or more ASCII digits, whose value must fit.
pub open spec fn spec_parse_count(s: Seq<u8>) -> Option<u32> {
    let digits = if s.len() > 0 && s[0] == PLUS_BYTE {
        s.subrange(1, s.len() as int)
    } else {
        s
    };
    if digits.len() > 0 && all_ascii_digits(digits) && count_of_digits(digits) <= u32::MAX {
        Some(count_of_digits(digits) as u32)
    } else {
        None
    }
}

/// A digit string's value is non-negative and below ten to its length.
pub proof fn lemma_count_of_digits_bound(s: Seq<u8>)
    requires
        all_ascii_digits(s),
    ensures
        0 <= count_of_digits(s) < pow10(s.len()),
    decreases s.len(),
{
    if s.len() > 0 {
        assert(all_ascii_digits(s.drop_last())) by {
            assert(forall|i: int|
                0 <= i < s.len() - 1 ==> #[trigger] s.drop_last()[i] == s[i]);
        }
        lemma_count_of_digits_bound(s.drop_last());
    }
}

pub open spec fn spec_encode_client(msg: ClientMessage) -> Seq<u8> {
    match msg {
        ClientMessage::Insert => seq![INSERT_BYTE],
        ClientMessage::ConsultPool => seq![CONSULT_BYTE],
        ClientMessage::Quit => seq![QUIT_BYTE],
    }
}

/// The five zero-padded decimal digits of `n`.
pub open spec fn spec_digits5(n: int) -> Seq<u8> {
    seq![
        (n / 10000 % 10 + DIGIT_ZERO) as u8,
        (n / 1000 % 10 + DIGIT_ZERO) as u8,
        (n / 100 % 10 + DIGIT_ZERO) as u8,
        (n / 10 % 10 + DIGIT_ZERO) as u8,
        (n % 10 + DIGIT_ZERO) as u8,
    ]
}

pub open spec fn spec_encode_server(msg: ServerMessage) -> Option<Seq<u8>> {
    match msg {
        ServerMessage::FellCoins(n) => if n <= MAX_COUNT {
            Some(seq![FELL_BYTE] + spec_digits5(n as int))
        } else {
            None
        },
        ServerMessage::PoolState(n) => if n <= MAX_COUNT {
            Some(seq![POOL_BYTE] + spec_digits5(n as int))
        } else {
            None
        },
    }
}

pub open spec fn spec_decode_client(b: u8) -> Option<ClientMessage> {
    if b == INSERT_BYTE {
        Some(ClientMessage::Insert)
    } else if b == CONSULT_BYTE {
        Some(ClientMessage::ConsultPool)
    } else if b == QUIT_BYTE {
        Some(ClientMessage::Quit)
    } else {
        None
    }
}

pub open spec fn spec_decode_server(header: u8, payload: Seq<u8>) -> Option<ServerMessage> {
    if header == FELL_BYTE {
        match spec_parse_count(payload) {
            Some(n) => Some(ServerMessage::FellCoins(n)),
            None => None,
        }
    } else if header == POOL_BYTE {
        match spec_parse_count(payload) {
            Some(n) => Some(ServerMessage::PoolState(n)),
            None => None,
        }
    } else {
        None
    }
}

/// Encodes a client action as its single control byte.
pub fn encode_client_msg(msg: ClientMessage) -> (r: Vec<u8>)
    ensures
        r@ == spec_encode_client(msg),
{
    let mut v: Vec<u8> = Vec::new();
    match msg {
        ClientMessage::Insert => v.push(INSERT_BYTE),
        ClientMessage::ConsultPool => v.push(CONSULT_BYTE),
        ClientMessage::Quit => v.push(QUIT_BYTE),
    }
    proof {
        assert(v@ =~= spec_encode_client(msg));
    }
    v
}

/// Encodes a client action as its single control byte.
pub fn encode(msg: ClientMessage) -> (r: Vec<u8>)
    ensures
        r@ == spec_encode_client(msg),
{
    encode_client_msg(msg)
}

/// Encodes a server reply as its control byte followed by five zero-padded
/// decimal digits; fails exactly when the count cannot be written in five
/// digits.
pub fn encode_server_msg(msg: ServerMessage) -> (r: Result<Vec<u8>, ProtocolError>)
    ensures
        match r {
            Ok(bytes) => spec_encode_server(msg) == Some(bytes@),
            Err(_) => spec_encode_server(msg) is None,
        },
{
    let (header, n): (u8, u32) = match msg {
        ServerMessage::FellCoins(n) => (FELL_BYTE, n),
        ServerMessage::PoolState(n) => (POOL_BYTE, n),
    };
    if n > MAX_COUNT {
        return Err(ProtocolError::new("count too big: more than 5 digits".to_owned()));
    }
    let mut v: Vec<u8> = Vec::new();
    v.push(header);
    v.push((n / 10000 % 10) as u8 + DIGIT_ZERO);
    v.push((n / 1000 % 10) as u8 + DIGIT_ZERO);
    v.push((n / 100 % 10) as u8 + DIGIT_ZERO);
    v.push((n / 10 % 10) as u8 + DIGIT_ZERO);
    v.push((n % 10) as u8 + DIGIT_ZERO);
    proof {
        assert(v@ =~= seq![header] + spec_digits5(n as int));
    }
    Ok(v)
}

/// Parses a five-byte count payload the way `u32::from_str` reads it:
/// digits with an optional leading `+`.
pub fn decode_count(buffer: &[u8]) -> (r: Result<u32, ProtocolError>)
    requires
        buffer@.len() == 5,
    ensures
        match r {
            Ok(n) => spec_parse_count(buffer@) == Some(n),
            Err(_) => spec_parse_count(buffer@) is None,
        },
{
    let start: usize = if buffer[0] == PLUS_BYTE {
        1
    } else {
        0
    };
    let ghost digits = if start == 1 {
        buffer@.subrange(1, 5)
    } else {
        buffer@
    };
    let mut i: usize = start;
    let mut acc: u32 = 0;
    while i < 5
        invariant
            start <= i <= 5,
            start == 0 || start == 1,
            (start == 1) == (buffer@[0] == PLUS_BYTE),
            buffer@.len() == 5,
            digits == if start == 1 {
                buffer@.subrange(1, 5)
            } else {
                buffer@
            },
            all_ascii_digits(digits.subrange(0, i - start)),
            acc == count_of_digits(digits.subrange(0, i - start)),
            acc < 100000,
        decreases 5 - i,
    {
        let b = buffer[i];
        if b < DIGIT_ZERO || b > DIGIT_NINE {
            proof {
                assert(digits[i - start] == b);
                assert(!all_ascii_digits(digits));
            }
            return Err(ProtocolError::new("count payload is not a number".to_owned()));
        }
        proof {
            let pre = digits.subrange(0, i - start);
            let ext = digits.subrange(0, i + 1 - start);
            assert(ext.drop_last() =~= pre);
            assert(ext.last() == b);
            lemma_count_of_digits_bound(pre);
            assert(pow10(pre.len()) <= 10000) by {
                reveal_with_fuel(pow10, 5);
                if pre.len() == 0 {
                } else if pre.len() == 1 {
                } else if pre.len() == 2 {
                } else if pre.len() == 3 {
                } else {
                    assert(pre.len() == 4);
                }
            }
        }
        acc = acc * 10 + (b - DIGIT_ZERO) as u32;
        i = i + 1;
    }
    proof {
        assert(digits.subrange(0, 5 - start) =~= digits);
        assert(digits.len() > 0);
    }
    Ok(acc)
}

/// Decodes one client control byte; an unknown byte is a protocol error.
pub fn decode_client_msg(b: u8) -> (r: Result<ClientMessage, ProtocolError>)
    ensures
        match r {
            Ok(msg) => spec_decode_client(b) == Some(msg),
            Err(_) => spec_decode_client(b) is None,
        },
{
    if b == INSERT_BYTE {
        Ok(ClientMessage::Insert)
    } else if b == CONSULT_BYTE {
        Ok(ClientMessage::ConsultPool)
    } else if b == QUIT_BYTE {
        Ok(ClientMessage::Quit)
    } else {
        Err(ProtocolError::new("unknown client message".to_owned()))
    }
}

/// True exactly for the two server reply control bytes, which announce a
/// five-byte count payload.
pub fn is_server_header(b: u8) -> (r: bool)
    ensures
        r == (b == FELL_BYTE || b == POOL_BYTE),
{
    b == FELL_BYTE || b == POOL_BYTE
}

/// Decodes one server reply from its control byte and five-byte payload;
/// an unknown byte or a non-numeric payload is a protocol error.
pub fn decode_server_msg(header: u8, payload: &[u8]) -> (r: Result<ServerMessage, ProtocolError>)
    requires
        payload@.len() == 5,
    ensures
        match r {
            Ok(msg) => spec_decode_server(header, payload@) == Some(msg),
            Err(_) => spec_decode_server(header, payload@) is None,
        },
{
    if header == FELL_BYTE {
        match decode_count(payload) {
            Ok(n) => Ok(ServerMessage::FellCoins(n)),
            Err(e) => Err(e),
        }
    } else if header == POOL_BYTE {
        match decode_count(payload) {
            Ok(n) => Ok(ServerMessage::PoolState(n)),
            Err(e) => Err(e),
        }
    } else {
        Err(ProtocolError::new("unknown server message".to_owned()))
    }
}

/// Encoding then parsing a count gives the count back: the five digits of
/// `n` are digits and their value is `n`.
pub proof fn lemma_digits5_value(n: int)
    requires
        0 <= n <= MAX_COUNT,
    ensures
        all_ascii_digits(spec_digits5(n)),
        spec_digits5(n).len() == 5,
        count_of_digits(spec_digits5(n)) == n,
{
    let s = spec_digits5(n);
    assert(count_of_digits(s) == ((((n / 10000 % 10) * 10 + n / 1000 % 10) * 10 + n / 100 % 10)
        * 10 + n / 10 % 10) * 10 + n % 10) by {
        reveal_with_fuel(count_of_digits, 6);
        assert(s.drop_last().drop_last().drop_last().drop_last().drop_last() =~= Seq::<
            u8,
        >::empty());
        assert(s.drop_last().drop_last().drop_last().drop_last().last() == s[0]);
        assert(s.drop_last().drop_last().drop_last().last() == s[1]);
        assert(s.drop_last().drop_last().last() == s[2]);
        assert(s.drop_last().last() == s[3]);
    }
    assert(n / 10000 % 10 == n / 10000);
    assert(n == n / 10 * 10 + n % 10);
    assert(n / 10 == n / 10 / 10 * 10 + n / 10 % 10);
    assert(n / 10 / 10 == n / 100);
    assert(n / 100 == n / 100 / 10 * 10 + n / 100 % 10);
    assert(n / 100 / 10 == n / 1000);
    assert(n / 1000 == n / 1000 / 10 * 10 + n / 1000 % 10);
    assert(n / 1000 / 10 == n / 10000);
}

/// Parsing then re-encoding five digits gives the digits back, unchanged.
pub proof fn lemma_digits5_of_value(s: Seq<u8>)
    requires
        s.len() == 5,
        all_ascii_digits(s),
    ensures
        0 <= count_of_digits(s) <= MAX_COUNT,
        spec_digits5(count_of_digits(s)) =~= s,
{
    lemma_count_of_digits_bound(s);
    assert(pow10(5) == 100000) by {
        reveal_with_fuel(pow10, 6);
    }
    let d0 = s[0] - DIGIT_ZERO;
    let d1 = s[1] - DIGIT_ZERO;
    let d2 = s[2] - DIGIT_ZERO;
    let d3 = s[3] - DIGIT_ZERO;
    let d4 = s[4] - DIGIT_ZERO;
    let n = count_of_digits(s);
    assert(n == (((d0 * 10 + d1) * 10 + d2) * 10 + d3) * 10 + d4) by {
        reveal_with_fuel(count_of_digits, 6);
        assert(s.drop_last().drop_last().drop_last().drop_last().drop_last() =~= Seq::<
            u8,
        >::empty());
        assert(s.drop_last().drop_last().drop_last().drop_last().last() == s[0]);
        assert(s.drop_last().drop_last().drop_last().last() == s[1]);
        assert(s.drop_last().drop_last().last() == s[2]);
        assert(s.drop_last().last() == s[3]);
    }
    assert(n == d0 * 10000 + d1 * 1000 + d2 * 100 + d3 * 10 + d4);
    assert(0 <= d0 <= 9 && 0 <= d1 <= 9 && 0 <= d2 <= 9 && 0 <= d3 <= 9 && 0 <= d4 <= 9);
    assert(n / 10000 % 10 == d0) by (nonlinear_arith)
        requires
            n == d0 * 10000 + d1 * 1000 + d2 * 100 + d3 * 10 + d4,
            0 <= d0 <= 9 && 0 <= d1 <= 9 && 0 <= d2 <= 9 && 0 <= d3 <= 9 && 0 <= d4 <= 9,
    ;
    assert(n / 1000 % 10 == d1) by (nonlinear_arith)
        requires
            n == d0 * 10000 + d1 * 1000 + d2 * 100 + d3 * 10 + d4,
            0 <= d0 <= 9 && 0 <= d1 <= 9 && 0 <= d2 <= 9 && 0 <= d3 <= 9 && 0 <= d4 <= 9,
    ;
    assert(n / 100 % 10 == d2) by (nonlinear_arith)
        requires
            n == d0 * 10000 + d1 * 1000 + d2 * 100 + d3 * 10 + d4,
            0 <= d0 <= 9 && 0 <= d1 <= 9 && 0 <= d2 <= 9 && 0 <= d3 <= 9 && 0 <= d4 <= 9,
    ;
    assert(n / 10 % 10 == d3) by (nonlinear_arith)
        requires
            n == d0 * 10000 + d1 * 1000 + d2 * 100 + d3 * 10 + d4,
            0 <= d0 <= 9 && 0 <= d1 <= 9 && 0 <= d2 <= 9 && 0 <= d3 <= 9 && 0 <= d4 <= 9,
    ;
    assert(n % 10 == d4) by (nonlinear_arith)
        requires
            n == d0 * 10000 + d1 * 1000 + d2 * 100 + d3 * 10 + d4,
            0 <= d0 <= 9 && 0 <= d1 <= 9 && 0 <= d2 <= 9 && 0 <= d3 <= 9 && 0 <= d4 <= 9,
    ;
}

/// Round trip, decode first: any well-formed server frame — a reply
/// control byte and five ASCII digits — decodes to a message, and encoding
/// that message reproduces the frame byte for byte.
pub proof fn lemma_server_frame_round_trip(bytes: Seq<u8>)
    requires
        bytes.len() == 6,
        bytes[0] == FELL_BYTE || bytes[0] == POOL_BYTE,
        all_ascii_digits(bytes.subrange(1, 6)),
    ensures
        spec_decode_server(bytes[0], bytes.subrange(1, 6)) is Some,
        spec_encode_server(spec_decode_server(bytes[0], bytes.subrange(1, 6))->Some_0) == Some(
            bytes,
        ),
{
    let payload = bytes.subrange(1, 6);
    lemma_digits5_of_value(payload);
    assert(payload[0] != PLUS_BYTE);
    assert(spec_parse_count(payload) == Some(count_of_digits(payload) as u32));
    let msg = spec_decode_server(bytes[0], payload)->Some_0;
    assert(spec_encode_server(msg)->Some_0 =~= bytes);
}

/// Round trip, encode first: every encodable server message decodes from
/// its own frame back to itself.
pub proof fn lemma_server_msg_round_trip(msg: ServerMessage)
    requires
        spec_encode_server(msg) is Some,
    ensures
        ({
            let frame = spec_encode_server(msg)->Some_0;
            spec_decode_server(frame[0], frame.subrange(1, 6)) == Some(msg)
        }),
{
    let frame = spec_encode_server(msg)->Some_0;
    let n: u32 = match msg {
        ServerMessage::FellCoins(n) => n,
        ServerMessage::PoolState(n) => n,
    };
    lemma_digits5_value(n as int);
    assert(frame.subrange(1, 6) =~= spec_digits5(n as int));
    assert(frame.subrange(1, 6)[0] != PLUS_BYTE);
}

/// Round trip for client actions: every encoded action decodes back to
/// itself.
pub proof fn lemma_client_msg_round_trip(msg: ClientMessage)
    ensures
        spec_decode_client(spec_encode_client(msg)[0]) == Some(msg),
        spec_encode_client(msg).len() == 1,
{
}

} // verus!
