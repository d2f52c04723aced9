//! Wire format: `tag:u8 | seq:u32 big-endian | payload`, payloads in MessagePack.
use vstd::prelude::*;
use vstd::string::StringExecFns;

verus! {

/// Kind of a protocol packet.
#[derive(Debug, Clone, Copy, PartialEq, Eq, Structural)]
pub enum MsgType {
    /// Client to daemon: a request.
    Request,
    /// Daemon to client: the request was accepted.
    RequestAck,
    /// Daemon to client: the answer.
    Response,
}

impl MsgType {
    /// The tag byte of this kind on the wire.
    pub open spec fn tag(self) -> u8 {
        match self {
            MsgType::Request => 0x01,
            MsgType::RequestAck => 0x02,
            MsgType::Response => 0x03,
        }
    }

    /// The kind that a tag byte names, if any.
    pub open spec fn spec_from_u8(v: u8) -> Option<MsgType> {
        if v == 0x01 {
            Some(MsgType::Request)
        } else if v == 0x02 {
            Some(MsgType::RequestAck)
        } else if v == 0x03 {
            Some(MsgType::Response)
        } else {
            None
        }
    }

    pub fn from_u8(v: u8) -> (r: Option<MsgType>)
        ensures
            r == MsgType::spec_from_u8(v),
    {
        match v {
            0x01 => Some(MsgType::Request),
            0x02 => Some(MsgType::RequestAck),
            0x03 => Some(MsgType::Response),
            _ => None,
        }
    }

    pub fn as_u8(&self) -> (r: u8)
        ensures
            r == self.tag(),
    {
        match self {
            MsgType::Request => 0x01,
            MsgType::RequestAck => 0x02,
            MsgType::Response => 0x03,
        }
    }
}

/// Every kind reads back from its own tag.
pub proof fn lemma_tag_round_trip(t: MsgType)
    ensures
        MsgType::spec_from_u8(t.tag()) == Some(t),
{
}

/// Errors of the datagram transport.
#[derive(Debug, Clone)]
pub enum CommError {
    RecvError(String),
    SendError(String),
    DecodeError(String),
    EncodeError(String),
    PayloadTooLarge(usize),
    ChannelClosed,
}

/// Errors of setting up the transport.
#[derive(Debug, Clone)]
pub enum CommInitError {
    BindFailed(String),
}

/// Payload of a request: the user's text.
#[derive(Debug, Clone)]
pub struct RequestPayload {
    pub content: String,
}

/// Payload of a response: the answer and whether it reports a failure.
#[derive(Debug, Clone)]
pub struct ResponsePayload {
    pub content: String,
    pub is_error: bool,
}

/// The four bytes of `v`, most significant first.
pub open spec fn be_bytes(v: u32) -> Seq<u8> {
    seq![(v >> 24u32) as u8, (v >> 16u32) as u8, (v >> 8u32) as u8, v as u8]
}

/// The value of four bytes read most significant first.
pub open spec fn be_value(b0: u8, b1: u8, b2: u8, b3: u8) -> u32 {
    ((b0 as u32) << 24u32) | ((b1 as u32) << 16u32) | ((b2 as u32) << 8u32) | (b3 as u32)
}

/// A packet as it stands on the wire.
pub open spec fn frame(t: MsgType, seq: u32, payload: Seq<u8>) -> Seq<u8> {
    seq![t.tag()] + be_bytes(seq) + payload
}

/// The kind and sequence that a datagram's header holds, if it is well formed:
/// at least five bytes and a known tag.
pub open spec fn header_of(data: Seq<u8>) -> Option<(MsgType, u32)> {
    if data.len() < 5 {
        None
    } else {
        match MsgType::spec_from_u8(data[0]) {
            Some(t) => Some((t, be_value(data[1], data[2], data[3], data[4]))),
            None => None,
        }
    }
}

/// The kind in a well-formed header.
pub open spec fn header_type(data: Seq<u8>) -> Option<MsgType> {
    match header_of(data) {
        Some((t, _)) => Some(t),
        None => None,
    }
}

/// The sequence in a well-formed header.
pub open spec fn header_seq(data: Seq<u8>) -> u32 {
    match header_of(data) {
        Some((_, s)) => s,
        None => 0,
    }
}

proof fn lemma_be_round_trip(v: u32)
    ensures
        be_value((v >> 24u32) as u8, (v >> 16u32) as u8, (v >> 8u32) as u8, v as u8) == v,
{
    assert((((((v >> 24u32) as u8) as u32) << 24u32) | ((((v >> 16u32) as u8) as u32) << 16u32)
        | ((((v >> 8u32) as u8) as u32) << 8u32) | ((v as u8) as u32)) == v) by (bit_vector);
}

/// Decoding the header of an encoded packet gives back its kind and sequence, and
/// what follows the header is the payload, unchanged.
pub proof fn lemma_codec_round_trip(t: MsgType, seq: u32, payload: Seq<u8>)
    ensures
        header_of(frame(t, seq, payload)) == Some((t, seq)),
        frame(t, seq, payload).subrange(5, frame(t, seq, payload).len() as int) == payload,
        frame(t, seq, payload).len() == payload.len() + 5,
{
    lemma_be_round_trip(seq);
    let f = frame(t, seq, payload);
    assert(f[0] == t.tag());
    assert(f.subrange(5, f.len() as int) =~= payload);
}

/// Header decoding refuses every datagram shorter than five bytes and every unknown tag.
pub proof fn lemma_header_rejects(data: Seq<u8>)
    ensures
        data.len() < 5 ==> header_of(data) is None,
        data.len() >= 5 && !(data[0] == 0x01u8 || data[0] == 0x02u8 || data[0] == 0x03u8)
            ==> header_of(data) is None,
{
}

/// Writes a packet: the tag, the sequence big-endian, then the payload bytes.
pub fn encode_packet(msg_type: MsgType, seq: u32, payload: &[u8]) -> (r: Vec<u8>)
    requires
        payload@.len() + 5 <= usize::MAX,
    ensures
        r@ == frame(msg_type, seq, payload@),
{
    let mut buf: Vec<u8> = Vec::new();
    buf.push(msg_type.as_u8());
    buf.push((seq >> 24u32) as u8);
    buf.push((seq >> 16u32) as u8);
    buf.push((seq >> 8u32) as u8);
    buf.push(seq as u8);
    let mut i: usize = 0;
    while i < payload.len()
        invariant
            i <= payload@.len(),
            buf@ == seq![msg_type.tag()] + be_bytes(seq) + payload@.subrange(0, i as int),
        decreases payload@.len() - i,
    {
        buf.push(payload[i]);
        i = i + 1;
        assert(payload@.subrange(0, i as int) =~= payload@.subrange(0, i - 1 as int).push(payload@[i - 1]));
    }
    assert(payload@.subrange(0, i as int) =~= payload@);
    buf
}

/// Reads the kind and sequence from a datagram.
pub fn decode_header(data: &[u8]) -> (r: Result<(MsgType, u32), CommError>)
    ensures
        r is Ok <==> header_of(data@) is Some,
        r is Ok ==> r->Ok_0 == header_of(data@)->0,
        r is Err ==> r->Err_0 is DecodeError,
{
    if data.len() < 5 {
        return Err(CommError::DecodeError(String::from_str("Packet too short")));
    }
    match MsgType::from_u8(data[0]) {
        Some(t) => {
            let seq = ((data[1] as u32) << 24u32) | ((data[2] as u32) << 16u32)
                | ((data[3] as u32) << 8u32) | (data[4] as u32);
            Ok((t, seq))
        },
        None => {
            let mut msg = String::from_str("Unknown msg type: ");
            let n = crate::text::u64_to_decimal(data[0] as u64);
            msg.append(n.as_str());
            Err(CommError::DecodeError(msg))
        },
    }
}

} // verus!

verus! {

#[verifier::external_type_specification]
#[verifier::external_body]
pub struct ExEncodeError(rmp_serde::encode::Error);

#[verifier::external_type_specification]
#[verifier::external_body]
pub struct ExDecodeError(rmp_serde::decode::Error);

/// The compact MessagePack form of a request payload: an array holding the text.
pub uninterp spec fn msgpack_request(content: Seq<char>) -> Seq<u8>;

/// The compact MessagePack form of a response payload: an array holding the text
/// and the error flag.
pub uninterp spec fn msgpack_response(content: Seq<char>, is_error: bool) -> Seq<u8>;

/// Relies on rmp_serde::to_vec, which writes a one-field record as an array of that field
/// into a `Vec`, where writing does not fail; a `Vec` of bytes never holds more than
/// `isize::MAX` of them.
#[verifier::external_body]
fn write_request_msgpack(content: &str) -> (r: Result<Vec<u8>, rmp_serde::encode::Error>)
    ensures
        r is Ok,
        r->Ok_0@ == msgpack_request(content@),
        r->Ok_0@.len() <= isize::MAX,
{
    rmp_serde::to_vec(&(content,))
}

/// Relies on rmp_serde::to_vec, which writes a two-field record as an array of its fields
/// into a `Vec`, where writing does not fail; a `Vec` of bytes never holds more than
/// `isize::MAX` of them.
#[verifier::external_body]
fn write_response_msgpack(content: &str, is_error: bool) -> (r: Result<Vec<u8>, rmp_serde::encode::Error>)
    ensures
        r is Ok,
        r->Ok_0@ == msgpack_response(content@, is_error),
        r->Ok_0@.len() <= isize::MAX,
{
    rmp_serde::to_vec(&(content, is_error))
}

/// What rmp_serde::from_slice reads from some bytes as a one-field record of text.
pub uninterp spec fn msgpack_read_text(data: Seq<u8>) -> Option<Seq<char>>;

/// What rmp_serde::from_slice reads from some bytes as a record of text and a flag.
pub uninterp spec fn msgpack_read_text_flag(data: Seq<u8>) -> Option<(Seq<char>, bool)>;

/// What rmp_serde::from_slice reads from some bytes as a map from text keys to values,
/// as its entries in key order.
pub uninterp spec fn msgpack_read_map(data: Seq<u8>) -> Option<Seq<(Seq<char>, serde_json::Value)>>;

/// Relies on rmp_serde::from_slice: the result depends on the bytes alone, and what
/// rmp_serde::to_vec wrote reads back unchanged while every length fits the 32-bit
/// length headers of MessagePack.
#[verifier::external_body]
fn read_request_msgpack(data: &[u8]) -> (r: Result<String, rmp_serde::decode::Error>)
    ensures
        r is Ok <==> msgpack_read_text(data@) is Some,
        r is Ok ==> r->Ok_0@ == msgpack_read_text(data@)->0,
        data@.len() <= u32::MAX ==> forall|s: Seq<char>| #[trigger] msgpack_request(s) == data@
            ==> (r is Ok && r->Ok_0@ == s),
{
    rmp_serde::from_slice::<(String,)>(data).map(|t| t.0)
}

/// The text that a response payload reads as.
pub open spec fn read_text_part(data: Seq<u8>) -> Seq<char> {
    match msgpack_read_text_flag(data) {
        Some((s, _)) => s,
        None => Seq::empty(),
    }
}

/// The error flag that a response payload reads as.
pub open spec fn read_flag_part(data: Seq<u8>) -> bool {
    match msgpack_read_text_flag(data) {
        Some((_, b)) => b,
        None => false,
    }
}

/// Relies on rmp_serde::from_slice: the entries of a MessagePack map with text keys,
/// in key order; the result depends on the bytes alone.
#[verifier::external_body]
fn read_value_map(data: &[u8]) -> (r: Result<Vec<(String, serde_json::Value)>, rmp_serde::decode::Error>)
    ensures
        r is Ok <==> msgpack_read_map(data@) is Some,
        r is Ok ==> pairs_view(r->Ok_0@) == msgpack_read_map(data@)->0,
{
    rmp_serde::from_slice::<std::collections::BTreeMap<String, serde_json::Value>>(data)
        .map(|m| m.into_iter().collect())
}

pub open spec fn pairs_view(entries: Seq<(String, serde_json::Value)>) -> Seq<(Seq<char>, serde_json::Value)> {
    entries.map_values(|p: (String, serde_json::Value)| (p.0@, p.1))
}

/// The value stored under `key` in a list of entries, if any.
pub open spec fn lookup(entries: Seq<(Seq<char>, serde_json::Value)>, key: Seq<char>) -> Option<serde_json::Value>
    decreases entries.len(),
{
    if entries.len() == 0 {
        None
    } else if entries[0].0 == key {
        Some(entries[0].1)
    } else {
        lookup(entries.drop_first(), key)
    }
}

fn find_entry(entries: &Vec<(String, serde_json::Value)>, key: &str) -> (r: Option<serde_json::Value>)
    ensures
        r == lookup(pairs_view(entries@), key@),
{
    let ghost es = pairs_view(entries@);
    let mut i: usize = 0;
    assert(es.subrange(0, es.len() as int) =~= es);
    while i < entries.len()
        invariant
            es == pairs_view(entries@),
            i <= entries@.len(),
            lookup(es, key@) == lookup(es.subrange(i as int, es.len() as int), key@),
        decreases entries@.len() - i,
    {
        let ghost rest = es.subrange(i as int, es.len() as int);
        assert(rest.drop_first() =~= es.subrange(i + 1, es.len() as int));
        assert(rest[0] == (entries@[i as int].0@, entries@[i as int].1));
        if crate::executor::str_eq(entries[i].0.as_str(), key) {
            return Some(entries[i].1.clone());
        }
        i = i + 1;
    }
    None
}

/// The text a request payload holds: an array holding the text, or else a map with a
/// text value under `content`.
pub open spec fn request_content(data: Seq<u8>) -> Option<Seq<char>> {
    match msgpack_read_text(data) {
        Some(s) => Some(s),
        None => match msgpack_read_map(data) {
            Some(es) => match lookup(es, "content"@) {
                Some(v) => crate::executor::json_as_text(v),
                None => None,
            },
            None => None,
        },
    }
}

/// Relies on rmp_serde::from_slice: the result depends on the bytes alone, and what
/// rmp_serde::to_vec wrote reads back unchanged while every length fits the 32-bit
/// length headers of MessagePack.
#[verifier::external_body]
fn read_response_msgpack(data: &[u8]) -> (r: Result<(String, bool), rmp_serde::decode::Error>)
    ensures
        r is Ok <==> msgpack_read_text_flag(data@) is Some,
        r is Ok ==> r->Ok_0.0@ == read_text_part(data@) && r->Ok_0.1 == read_flag_part(data@),
        data@.len() <= u32::MAX ==> forall|s: Seq<char>, b: bool| #[trigger] msgpack_response(s, b) == data@
            ==> (r is Ok && r->Ok_0.0@ == s && r->Ok_0.1 == b),
{
    rmp_serde::from_slice::<(String, bool)>(data)
}

/// The packet that answers request `seq` with `content` and the flag.
pub open spec fn response_packet(seq: u32, content: Seq<char>, is_error: bool) -> Seq<u8> {
    frame(MsgType::Response, seq, msgpack_response(content, is_error))
}

/// Serialises a request payload.
pub fn encode_request_payload(payload: &RequestPayload) -> (r: Result<Vec<u8>, CommError>)
    ensures
        r is Ok,
        r->Ok_0@ == msgpack_request(payload.content@),
        r->Ok_0@.len() <= isize::MAX,
{
    match write_request_msgpack(payload.content.as_str()) {
        Ok(b) => Ok(b),
        Err(e) => Err(CommError::EncodeError(e.to_string())),
    }
}

/// Serialises a response payload.
pub fn encode_response_payload(payload: &ResponsePayload) -> (r: Result<Vec<u8>, CommError>)
    ensures
        r is Ok,
        r->Ok_0@ == msgpack_response(payload.content@, payload.is_error),
        r->Ok_0@.len() <= isize::MAX,
{
    match write_response_msgpack(payload.content.as_str(), payload.is_error) {
        Ok(b) => Ok(b),
        Err(e) => Err(CommError::EncodeError(e.to_string())),
    }
}

/// Reads a request payload, written either as an array holding the text or as a map
/// with the text under `content`; the bytes that a request payload was written as read
/// back as that payload.
pub fn decode_request_payload(data: &[u8]) -> (r: Result<RequestPayload, CommError>)
    ensures
        r is Ok <==> request_content(data@) is Some,
        r is Ok ==> r->Ok_0.content@ == request_content(data@)->0,
        data@.len() <= u32::MAX ==> forall|s: Seq<char>| #[trigger] msgpack_request(s) == data@
            ==> (r is Ok && r->Ok_0.content@ == s),
        r is Err ==> r->Err_0 is DecodeError,
{
    match read_request_msgpack(data) {
        Ok(content) => Ok(RequestPayload { content }),
        Err(e) => {
            proof {
                reveal_strlit("content");
            }
            if let Ok(entries) = read_value_map(data) {
                if let Some(v) = find_entry(&entries, "content") {
                    if let Ok(content) = crate::executor::json_string(v) {
                        return Ok(RequestPayload { content });
                    }
                }
            }
            Err(CommError::DecodeError(e.to_string()))
        },
    }
}

/// Reads a response payload; the bytes that a response payload was written as read
/// back as that payload.
pub fn decode_response_payload(data: &[u8]) -> (r: Result<ResponsePayload, CommError>)
    ensures
        r is Ok <==> msgpack_read_text_flag(data@) is Some,
        r is Ok ==> r->Ok_0.content@ == read_text_part(data@)
            && r->Ok_0.is_error == read_flag_part(data@),
        data@.len() <= u32::MAX ==> forall|s: Seq<char>, b: bool| #[trigger] msgpack_response(s, b) == data@
            ==> (r is Ok && r->Ok_0.content@ == s && r->Ok_0.is_error == b),
        r is Err ==> r->Err_0 is DecodeError,
{
    match read_response_msgpack(data) {
        Ok((content, is_error)) => Ok(ResponsePayload { content, is_error }),
        Err(e) => Err(CommError::DecodeError(e.to_string())),
    }
}

/// A bare acknowledgement of request `seq`.
pub fn encode_request_ack(seq: u32) -> (r: Result<Vec<u8>, CommError>)
    ensures
        r is Ok,
        r->Ok_0@ == frame(MsgType::RequestAck, seq, Seq::empty()),
        r->Ok_0@.len() == 5,
{
    let empty: Vec<u8> = Vec::new();
    let b = encode_packet(MsgType::RequestAck, seq, empty.as_slice());
    proof {
        lemma_codec_round_trip(MsgType::RequestAck, seq, Seq::empty());
    }
    Ok(b)
}

/// The response packet for request `seq`.
pub fn encode_response(seq: u32, payload: &ResponsePayload) -> (r: Result<Vec<u8>, CommError>)
    ensures
        r is Ok,
        r->Ok_0@ == response_packet(seq, payload.content@, payload.is_error),
{
    let body = encode_response_payload(payload)?;
    Ok(encode_packet(MsgType::Response, seq, body.as_slice()))
}

/// A request packet for `seq`.
pub fn encode_request(seq: u32, payload: &RequestPayload) -> (r: Result<Vec<u8>, CommError>)
    ensures
        r is Ok,
        r->Ok_0@ == frame(MsgType::Request, seq, msgpack_request(payload.content@)),
{
    let body = encode_request_payload(payload)?;
    Ok(encode_packet(MsgType::Request, seq, body.as_slice()))
}

/// A response packet reads back as the response it was written from: its header
/// gives the kind and sequence, and the bytes after the header are the payload.
pub proof fn lemma_response_round_trip(seq: u32, content: Seq<char>, is_error: bool)
    ensures
        header_of(response_packet(seq, content, is_error)) == Some((MsgType::Response, seq)),
        response_packet(seq, content, is_error).subrange(5, response_packet(seq, content, is_error).len() as int)
            == msgpack_response(content, is_error),
{
    lemma_codec_round_trip(MsgType::Response, seq, msgpack_response(content, is_error));
}

} // verus!
