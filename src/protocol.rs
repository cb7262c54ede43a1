//! The wire codec: handshake frames, message frames and their encoding.
//!
//! A handshake frame is `SEND;<to>` or `RECEIVE;<alias>`. A message frame is
//! `<sender>-<receiver>\n<body>`. Frames arrive in fixed-size buffers padded
//! with zeros, which are never part of a parsed field.

use vstd::prelude::*;
use vstd::string::StringExecFns;
use vstd::utf8::*;

use crate::error::ProtocolError;
use crate::handler::TransmitService;
use crate::pto::{BaseProto, Proto, RelayMessage};
use crate::text::{
    first_at, lemma_first_index, after_first, before_first, decode_lossy, decode_lossy_utf16, find_byte, has_byte, lossy_utf16,
    push_bytes, strip_nul, strip_nul16, strip_nul_bytes, strip_nul_units, text_of, trim_start, trim_start_ws, trim_ws, trimmed,
};

verus! {

/// The byte that ends the header of a message frame.
pub const NEWLINE: u8 = 0x0A;

/// The byte between the sender and the receiver of a message frame.
pub const DASH: u8 = 0x2D;

/// The byte between the role and the alias of a handshake frame.
pub const SEMICOLON: u8 = 0x3B;

/// The raw content of a frame buffer, in one of two encodings.
#[derive(Clone, Copy)]
pub enum Data {
    Utf8([u8; 1024]),
    Utf16([u16; 1024]),
}

/// The protocol of message frames.
pub struct BaseProtocol {}

/// A decoded message frame, with the buffer it came from.
pub struct ParsedData {
    raw: Data,
    to: String,
    alias: String,
    body: String,
}

impl View for ParsedData {
    type V = RelayMessage;

    closed spec fn view(&self) -> RelayMessage {
        RelayMessage { sender: self.alias@, receiver: self.to@, body: self.body@ }
    }
}

/// Read access to a decoded message frame.
pub trait DataTransferProtocolParsed {
    /// The alias of the client that sent the frame.
    fn get_client_id(&self) -> &String;

    /// The alias the frame is addressed to.
    fn get_to(&self) -> &String;

    /// The body of the frame.
    fn get_body(&self) -> Result<&String, ProtocolError>;
}

/// A protocol that decodes frames and encodes messages.
pub trait DataTransferProtocol<I, S, B> {
    type Parsed: DataTransferProtocolParsed;

    /// Decodes a frame buffer.
    fn parse(&self, data: Data) -> Result<Self::Parsed, ProtocolError>;

    /// Encodes a message as the bytes of a frame.
    fn to_raw<T: Proto<I, S, B>>(&self, pto: T) -> Result<Vec<u8>, ProtocolError>;
}

/// The text bytes of a frame buffer, zeros removed. UTF-16 content is decoded
/// and re-encoded as UTF-8.
pub open spec fn frame_bytes(d: Data) -> Seq<u8> {
    match d {
        Data::Utf8(a) => strip_nul(a@),
        Data::Utf16(u) => encode_utf8(lossy_utf16(strip_nul16(u@))),
    }
}

/// The message that the bytes `b` of a frame hold: the header runs up to the
/// first newline and the body follows it; the header splits at its first `-`
/// into sender and receiver. `None` when either delimiter is missing.
pub open spec fn message_fields(b: Seq<u8>) -> Option<RelayMessage> {
    if !has_byte(b, NEWLINE) {
        None
    } else {
        let head = before_first(b, NEWLINE);
        if !has_byte(head, DASH) {
            None
        } else {
            Some(
                RelayMessage {
                    sender: text_of(before_first(head, DASH)),
                    receiver: text_of(after_first(head, DASH)),
                    body: text_of(after_first(b, NEWLINE)),
                },
            )
        }
    }
}

/// The frame of a message: `<sender>-<receiver>\n<body>` in UTF-8.
pub open spec fn message_frame(m: RelayMessage) -> Seq<u8> {
    encode_utf8(m.sender) + seq![DASH] + encode_utf8(m.receiver) + seq![NEWLINE] + encode_utf8(
        m.body,
    )
}

/// The role keyword of a handshake: the text before the first `;`, without
/// the leading white space of the frame. White space before the `;` stays.
pub open spec fn handshake_token(raw: Seq<u8>) -> Seq<char> {
    trim_start(text_of(before_first(strip_nul(raw), SEMICOLON)))
}

/// The alias of a handshake: the trimmed text after the first `;`.
pub open spec fn handshake_alias(raw: Seq<u8>) -> Seq<char> {
    trimmed(text_of(after_first(strip_nul(raw), SEMICOLON)))
}

/// The handshake in `raw` has the delimiter `;` (zeros aside).
pub open spec fn handshake_delimited(raw: Seq<u8>) -> bool {
    has_byte(strip_nul(raw), SEMICOLON)
}

/// `r` is what decoding the handshake `raw` gives: `Send` or `Receive` with the
/// alias when the keyword is `SEND` or `RECEIVE`, a format error when there is
/// no `;`, a session extraction error for any other keyword.
pub open spec fn handshake_outcome(raw: Seq<u8>, r: Result<TransmitService, ProtocolError>) -> bool {
    match r {
        Ok(TransmitService::Send(a)) => handshake_delimited(raw) && handshake_token(raw) == "SEND"@
            && a@ == handshake_alias(raw),
        Ok(TransmitService::Receive(a)) => handshake_delimited(raw) && handshake_token(raw)
            == "RECEIVE"@ && a@ == handshake_alias(raw),
        Err(ProtocolError::FromatError(_)) => !handshake_delimited(raw),
        Err(ProtocolError::SessionExtractionError(_)) => handshake_delimited(raw)
            && handshake_token(raw) != "SEND"@ && handshake_token(raw) != "RECEIVE"@,
    }
}

/// Splits the bytes of a message frame into sender, receiver and body.
fn split_message(b: &[u8]) -> (r: Option<(String, String, String)>)
    ensures
        match (r, message_fields(b@)) {
            (Some(t), Some(m)) => t.0@ == m.sender && t.1@ == m.receiver && t.2@ == m.body,
            (None, None) => true,
            _ => false,
        },
{
    let n = b.len();
    match find_byte(b, NEWLINE) {
        None => None,
        Some(i) => {
            let head = &b[0..i];
            let body = &b[i + 1..n];
            assert(head@ == before_first(b@, NEWLINE));
            assert(body@ == after_first(b@, NEWLINE));
            match find_byte(head, DASH) {
                None => None,
                Some(j) => {
                    let hn = head.len();
                    let sender = &head[0..j];
                    let receiver = &head[j + 1..hn];
                    assert(sender@ == before_first(head@, DASH));
                    assert(receiver@ == after_first(head@, DASH));
                    Some((decode_lossy(sender), decode_lossy(receiver), decode_lossy(body)))
                },
            }
        },
    }
}

/// The text bytes of a frame buffer, zeros removed.
pub fn frame_text_bytes(data: &Data) -> (r: Vec<u8>)
    ensures
        r@ == frame_bytes(*data),
{
    match data {
        Data::Utf8(a) => strip_nul_bytes(a.as_slice()),
        Data::Utf16(u) => {
            let units = strip_nul_units(u.as_slice());
            let text = decode_lossy_utf16(units.as_slice());
            let mut r: Vec<u8> = Vec::new();
            push_bytes(&mut r, text.as_str().as_bytes());
            r
        },
    }
}

/// Encodes a message as `<sender>-<receiver>\n<body>`.
pub fn serialize_message(m: &BaseProto) -> (r: Vec<u8>)
    ensures
        r@ == message_frame(m@),
{
    let mut r: Vec<u8> = Vec::new();
    push_bytes(&mut r, m.get_sender().as_str().as_bytes());
    r.push(DASH);
    push_bytes(&mut r, m.get_receiver().as_str().as_bytes());
    r.push(NEWLINE);
    push_bytes(&mut r, m.get_body().as_str().as_bytes());
    assert(r@ =~= message_frame(m@));
    r
}

impl BaseProtocol {
    /// Creates the protocol.
    pub fn new() -> (r: BaseProtocol) {
        BaseProtocol {  }
    }
}

impl DataTransferProtocol<String, String, String> for BaseProtocol {
    type Parsed = ParsedData;

    /// Decodes a message frame `<sender>-<receiver>\n<body>`; fails with a
    /// format error when the newline or the `-` is missing.
    fn parse(&self, data: Data) -> (r: Result<ParsedData, ProtocolError>)
        ensures
            match (r, message_fields(frame_bytes(data))) {
                (Ok(p), Some(m)) => p@ == m && p.raw() == data,
                (Err(e), None) => e is FromatError,
                _ => false,
            },
    {
        let bytes = frame_text_bytes(&data);
        match split_message(bytes.as_slice()) {
            None => Err(
                ProtocolError::FromatError(
                    String::from_str("Could not extract the header and the body of the data"),
                ),
            ),
            Some((alias, to, body)) => Ok(ParsedData { raw: data, to, alias, body }),
        }
    }

    /// Encodes a message as `<sender>-<receiver>\n<body>`.
    fn to_raw<T: Proto<String, String, String>>(&self, pto: T) -> (r: Result<
        Vec<u8>,
        ProtocolError,
    >)
        ensures
            r matches Ok(b) && b@ == encode_utf8(pto.spec_sender()@) + seq![DASH] + encode_utf8(
                pto.spec_receiver()@,
            ) + seq![NEWLINE] + encode_utf8(pto.spec_body()@),
    {
        let mut r: Vec<u8> = Vec::new();
        push_bytes(&mut r, pto.get_sender().as_str().as_bytes());
        r.push(DASH);
        push_bytes(&mut r, pto.get_receiver().as_str().as_bytes());
        r.push(NEWLINE);
        push_bytes(&mut r, pto.get_body().as_str().as_bytes());
        assert(r@ =~= encode_utf8(pto.spec_sender()@) + seq![DASH] + encode_utf8(
            pto.spec_receiver()@,
        ) + seq![NEWLINE] + encode_utf8(pto.spec_body()@));
        Ok(r)
    }
}

impl ParsedData {
    /// The buffer the frame was decoded from.
    pub closed spec fn raw(&self) -> Data {
        self.raw
    }

    /// Turns the decoded frame into a relay message.
    pub fn into_message(self) -> (r: BaseProto)
        ensures
            r@ == self@,
    {
        BaseProto::create(self.alias, self.body, self.to)
    }
}

impl DataTransferProtocolParsed for ParsedData {
    /// The body of the frame; always present once the frame is decoded.
    fn get_body(&self) -> (r: Result<&String, ProtocolError>)
        ensures
            r matches Ok(b) && b@ == self@.body,
    {
        Ok(&self.body)
    }

    fn get_client_id(&self) -> (r: &String)
        ensures
            r@ == self@.sender,
    {
        &self.alias
    }

    fn get_to(&self) -> (r: &String)
        ensures
            r@ == self@.receiver,
    {
        &self.to
    }
}

/// Decodes a handshake frame: zeros are dropped, the text splits at its first
/// `;`, the part before it, leading white space aside, must be exactly `SEND`
/// or `RECEIVE` (case counts), and the trimmed part after it is the alias. A missing `;` is a format
/// error; any other keyword is a session extraction error.
pub fn get_type_for_raw_utf8(raw: &[u8]) -> (r: Result<TransmitService, ProtocolError>)
    ensures
        handshake_outcome(raw@, r),
{
    let bytes = strip_nul_bytes(raw);
    let b = bytes.as_slice();
    let n = b.len();
    match find_byte(b, SEMICOLON) {
        None => Err(
            ProtocolError::FromatError(
                String::from_str("Could not find the ';' delimiter in the handshake"),
            ),
        ),
        Some(i) => {
            let head = &b[0..i];
            let rest = &b[i + 1..n];
            assert(head@ == before_first(b@, SEMICOLON));
            assert(rest@ == after_first(b@, SEMICOLON));
            let head_text = decode_lossy(head);
            let token = String::from_str(trim_start_ws(head_text.as_str()));
            let rest_text = decode_lossy(rest);
            let alias = String::from_str(trim_ws(rest_text.as_str()));
            let send_kw = String::from_str("SEND");
            let receive_kw = String::from_str("RECEIVE");
            if token == send_kw {
                Ok(TransmitService::Send(alias))
            } else if token == receive_kw {
                Ok(TransmitService::Receive(alias))
            } else {
                Err(
                    ProtocolError::SessionExtractionError(
                        String::from_str("Could not tell whether the session sends or receives"),
                    ),
                )
            }
        },
    }
}

/// Removing zeros distributes over concatenation.
proof fn lemma_strip_nul_append(a: Seq<u8>, b: Seq<u8>)
    ensures
        strip_nul(a + b) == strip_nul(a) + strip_nul(b),
    decreases b.len(),
{
    if b.len() == 0 {
        assert(a + b =~= a);
        assert(strip_nul(a) + strip_nul(b) =~= strip_nul(a));
    } else {
        assert((a + b).drop_last() =~= a + b.drop_last());
        lemma_strip_nul_append(a, b.drop_last());
        if b.last() != 0u8 {
            assert(strip_nul(a) + strip_nul(b.drop_last()).push(b.last()) =~= (strip_nul(a)
                + strip_nul(b.drop_last())).push(b.last()));
        }
    }
}

/// Bytes without zeros come out of `strip_nul` as they went in.
proof fn lemma_strip_nul_keeps(b: Seq<u8>)
    requires
        forall|k: int| 0 <= k < b.len() ==> b[k] != 0u8,
    ensures
        strip_nul(b) == b,
    decreases b.len(),
{
    if b.len() > 0 {
        lemma_strip_nul_keeps(b.drop_last());
        assert(b.drop_last().push(b.last()) =~= b);
    }
}

/// Zeros alone strip to nothing.
proof fn lemma_strip_nul_zeros(n: nat)
    ensures
        strip_nul(Seq::new(n, |k: int| 0u8)) == Seq::<u8>::empty(),
    decreases n,
{
    if n > 0 {
        assert(Seq::new(n, |k: int| 0u8).drop_last() =~= Seq::new((n - 1) as nat, |k: int| 0u8));
        lemma_strip_nul_zeros((n - 1) as nat);
    }
}

/// The UTF-8 encoding of one scalar holds an ASCII byte only where the
/// scalar is that very character.
proof fn lemma_scalar_avoids_ascii(x: u32, c: u8)
    requires
        is_scalar(x),
        c < 0x80,
        x != c as u32,
    ensures
        forall|k: int| 0 <= k < encode_scalar(x).len() ==> encode_scalar(x)[k] != c,
{
    if has_width_1_encoding(x) {
        assert((x & 0x7F) as u8 != c) by (bit_vector)
            requires
                x <= 0x7F,
                x != c as u32,
                c < 0x80,
        ;
    } else {
        assert((0x80u8 | ((x & 0x3F) as u8)) >= 0x80) by (bit_vector);
        assert((0x80u8 | (((x >> 6) & 0x3F) as u8)) >= 0x80) by (bit_vector);
        assert((0x80u8 | (((x >> 12) & 0x3F) as u8)) >= 0x80) by (bit_vector);
        assert((0xC0u8 | (((x >> 6) & 0x1F) as u8)) >= 0x80) by (bit_vector);
        assert((0xE0u8 | (((x >> 12) & 0x0F) as u8)) >= 0x80) by (bit_vector);
        assert((0xF0u8 | (((x >> 18) & 0x7) as u8)) >= 0x80) by (bit_vector);
    }
}

/// The UTF-8 encoding of a text holds an ASCII byte only where the text holds
/// that character.
proof fn lemma_encode_avoids_ascii(s: Seq<char>, c: u8)
    requires
        c < 0x80,
        forall|i: int| 0 <= i < s.len() ==> s[i] as u32 != c as u32,
    ensures
        forall|k: int| 0 <= k < encode_utf8(s).len() ==> encode_utf8(s)[k] != c,
    decreases s.len(),
{
    if s.len() > 0 {
        let x = s[0] as u32;
        char_is_scalar(s[0]);
        lemma_scalar_avoids_ascii(x, c);
        let rest = s.drop_first();
        assert forall|i: int| 0 <= i < rest.len() implies rest[i] as u32 != c as u32 by {
            assert(rest[i] == s[i + 1]);
        }
        lemma_encode_avoids_ascii(rest, c);
        let e = encode_utf8(s);
        assert(e == encode_scalar(x) + encode_utf8(rest));
        assert forall|k: int| 0 <= k < e.len() implies e[k] != c by {
            if k < encode_scalar(x).len() {
                assert(e[k] == encode_scalar(x)[k]);
            } else {
                assert(e[k] == encode_utf8(rest)[k - encode_scalar(x).len()]);
            }
        }
    }
}

/// A character absent from a text differs, as a code point, from each of its
/// characters.
proof fn lemma_absent_char(s: Seq<char>, c: char)
    requires
        !s.contains(c),
    ensures
        forall|i: int| 0 <= i < s.len() ==> s[i] as u32 != c as u32,
{
    assert forall|i: int| 0 <= i < s.len() implies s[i] as u32 != c as u32 by {
        if s[i] as u32 == c as u32 {
            char_u32_cast(s[i], s[i] as u32);
            char_u32_cast(c, c as u32);
            assert(s.contains(c));
        }
    }
}

/// A frame decodes to the message it was encoded from, whatever zeros pad it,
/// as long as neither alias holds a `-` or a newline and no field holds a NUL
/// character.
pub proof fn lemma_message_round_trip(m: RelayMessage, padding: nat)
    requires
        !m.sender.contains('-'),
        !m.sender.contains('\n'),
        !m.receiver.contains('-'),
        !m.receiver.contains('\n'),
        !m.sender.contains('\0'),
        !m.receiver.contains('\0'),
        !m.body.contains('\0'),
    ensures
        message_fields(strip_nul(message_frame(m) + Seq::new(padding, |k: int| 0u8))) == Some(m),
{
    broadcast use encode_utf8_valid_utf8, encode_utf8_decode_utf8;

    let es = encode_utf8(m.sender);
    let er = encode_utf8(m.receiver);
    let eb = encode_utf8(m.body);
    assert('-' as u32 == DASH as u32 && '\n' as u32 == NEWLINE as u32 && '\0' as u32 == 0u32);
    lemma_absent_char(m.sender, '-');
    lemma_absent_char(m.sender, '\n');
    lemma_absent_char(m.sender, '\0');
    lemma_absent_char(m.receiver, '\n');
    lemma_absent_char(m.receiver, '\0');
    lemma_absent_char(m.body, '\0');
    lemma_encode_avoids_ascii(m.sender, DASH);
    lemma_encode_avoids_ascii(m.sender, NEWLINE);
    lemma_encode_avoids_ascii(m.sender, 0u8);
    lemma_encode_avoids_ascii(m.receiver, NEWLINE);
    lemma_encode_avoids_ascii(m.receiver, 0u8);
    lemma_encode_avoids_ascii(m.body, 0u8);

    let f = message_frame(m);
    let zeros = Seq::new(padding, |k: int| 0u8);
    lemma_strip_nul_append(f, zeros);
    lemma_strip_nul_zeros(padding);
    lemma_strip_nul_keeps(f);
    assert(strip_nul(f + zeros) =~= f);

    let head = es + seq![DASH] + er;
    assert(f =~= head + seq![NEWLINE] + eb);
    let nl = head.len() as int;
    assert(first_at(f, NEWLINE, nl)) by {
        assert forall|j: int| 0 <= j < nl implies f[j] != NEWLINE by {
            if j < es.len() {
                assert(f[j] == es[j]);
            } else if j == es.len() {
                assert(f[j] == DASH);
            } else {
                assert(f[j] == er[j - es.len() - 1]);
            }
        }
    }
    lemma_first_index(f, NEWLINE, nl);
    assert(before_first(f, NEWLINE) =~= head);
    assert(after_first(f, NEWLINE) =~= eb);
    let dash = es.len() as int;
    assert(first_at(head, DASH, dash)) by {
        assert forall|j: int| 0 <= j < dash implies head[j] != DASH by {
            assert(head[j] == es[j]);
        }
    }
    lemma_first_index(head, DASH, dash);
    assert(before_first(head, DASH) =~= es);
    assert(after_first(head, DASH) =~= er);
}

} // verus!
