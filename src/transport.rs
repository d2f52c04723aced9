//! What the transport decides for each datagram and each agent reply. Receiving,
//! sending and waiting are left to the caller, which performs the returned action.
use vstd::prelude::*;
use vstd::string::StringExecFns;
use crate::dedup::{position, peer_insert, DedupOutcome, DedupTable, PeerAddr};
use crate::protocol::{
    decode_header, decode_request_payload, encode_request_ack, encode_response, frame, header_of, header_seq, header_type,
    msgpack_request, request_content, response_packet, CommError, MsgType, ResponsePayload,
};
use crate::text::decimal;

verus! {

/// Settings of the transport.
#[derive(Debug, Clone)]
pub struct CommConfig {
    /// Listen address.
    pub listen_addr: String,
    /// Listen port.
    pub listen_port: u16,
    /// Largest payload accepted, in bytes, not counting the header.
    pub max_payload_bytes: usize,
    /// Size of the receive buffer.
    pub recv_buffer_size: usize,
    /// Most remembered sequences per sender.
    pub dedup_capacity: usize,
    /// How long a sequence is remembered, in seconds.
    pub dedup_ttl_secs: u64,
}

impl Default for CommConfig {
    fn default() -> (r: CommConfig)
        ensures
            r.listen_addr@ == "0.0.0.0"@,
            r.listen_port == 9700,
            r.max_payload_bytes == 65536,
            r.recv_buffer_size == 65536,
            r.dedup_capacity == 256,
            r.dedup_ttl_secs == 300,
    {
        CommConfig {
            listen_addr: String::from_str("0.0.0.0"),
            listen_port: 9700,
            max_payload_bytes: 65536,
            recv_buffer_size: 65536,
            dedup_capacity: 256,
            dedup_ttl_secs: 300,
        }
    }
}

impl CommConfig {
    /// The address to bind, as `host:port`.
    pub fn bind_addr_text(&self) -> (r: String)
        ensures
            r@ == self.listen_addr@ + ":"@ + decimal(self.listen_port as nat),
    {
        let mut r = self.listen_addr.clone();
        r.append(":");
        let port = crate::text::u64_to_decimal(self.listen_port as u64);
        r.append(port.as_str());
        r
    }

    /// A deduplication table with these settings.
    pub fn dedup_table(&self) -> (r: DedupTable)
        ensures
            r.wf(),
            r.capacity() == self.dedup_capacity,
            r.ttl() as int == if self.dedup_ttl_secs <= u64::MAX / 1000 {
                self.dedup_ttl_secs * 1000
            } else {
                u64::MAX as int
            },
            forall|p: PeerAddr| r.of(p) == Seq::<crate::dedup::DedupEntryView>::empty(),
    {
        let ttl_ms = if self.dedup_ttl_secs <= u64::MAX / 1000 {
            self.dedup_ttl_secs * 1000
        } else {
            u64::MAX
        };
        DedupTable::new(self.dedup_capacity, ttl_ms)
    }
}

/// What the agent hands back for a request.
#[derive(Debug, Clone)]
pub struct UserResponse {
    pub content: String,
    pub is_error: bool,
}

impl UserResponse {
    /// A successful answer.
    pub fn new(content: String) -> (r: UserResponse)
        ensures
            r.content@ == content@,
            !r.is_error,
    {
        UserResponse { content, is_error: false }
    }

    /// A failure report.
    pub fn error(content: String) -> (r: UserResponse)
        ensures
            r.content@ == content@,
            r.is_error,
    {
        UserResponse { content, is_error: true }
    }
}

/// What to do with one received datagram.
#[derive(Debug)]
pub enum PacketAction {
    /// Ill-formed: dropped, nothing is sent.
    Drop(CommError),
    /// Well formed but not a request: ignored.
    Ignore(MsgType),
    /// Send these bytes back: a stored response, or a bare acknowledgement.
    Reply(Vec<u8>),
    /// A new request: send `ack`, then hand `content` to the agent.
    Dispatch { ack: Vec<u8>, seq: u32, content: String },
}

/// Decides what to do with a datagram from `peer` received at `now_ms`, remembering
/// each new request sequence in `table`.
pub fn handle_packet(
    table: &mut DedupTable,
    max_payload_bytes: usize,
    packet: &[u8],
    peer: PeerAddr,
    now_ms: u64,
) -> (r: PacketAction)
    requires
        old(table).wf(),
    ensures
        final(table).wf(),
        final(table).capacity() == old(table).capacity(),
        final(table).ttl() == old(table).ttl(),
        packet@.len() < 5 ==> r is Drop && r->Drop_0 is DecodeError,
        packet@.len() >= 5 && packet@.len() - 5 > max_payload_bytes ==> r is Drop
            && r->Drop_0 == CommError::PayloadTooLarge((packet@.len() - 5) as usize),
        ({
            let ok_size = packet@.len() >= 5 && packet@.len() - 5 <= max_payload_bytes;
            &&& (ok_size && header_of(packet@) is None ==> r is Drop && r->Drop_0 is DecodeError)
            &&& (ok_size && header_of(packet@) is Some && header_type(packet@) != Some(MsgType::Request)
                ==> r == PacketAction::Ignore(header_type(packet@)->0))
            &&& (!(ok_size && header_of(packet@) is Some && header_type(packet@) == Some(MsgType::Request))
                ==> *final(table) == *old(table))
        }),
        packet@.len() >= 5 && packet@.len() - 5 <= max_payload_bytes && header_of(packet@) is Some
            && header_type(packet@) == Some(MsgType::Request) ==> {
            let seq = header_seq(packet@);
            let es = old(table).of(peer);
            let pos = position(es, seq);
            let payload = packet@.subrange(5, packet@.len() as int);
            &&& (pos >= 0 && es[pos].cached is Some ==> r is Reply && r->Reply_0@ == es[pos].cached->0)
            &&& (pos >= 0 && es[pos].cached is None ==> r is Reply
                && r->Reply_0@ == frame(MsgType::RequestAck, seq, Seq::empty()))
            &&& (pos >= 0 ==> forall|q: PeerAddr| #[trigger] final(table).of(q) == old(table).of(q))
            &&& (pos < 0 ==> final(table).of(peer) == peer_insert(es, seq, final(table).clock(), old(table).capacity())
                && forall|q: PeerAddr| q != peer ==> #[trigger] final(table).of(q) == old(table).of(q))
            &&& (pos < 0 ==> (r is Dispatch <==> request_content(payload) is Some))
            &&& (pos < 0 && r is Dispatch ==> r->content@ == request_content(payload)->0)
            &&& (pos < 0 ==> (r is Dispatch || (r is Drop && r->Drop_0 is DecodeError)))
            &&& (pos < 0 && r is Dispatch ==> r->ack@ == frame(MsgType::RequestAck, seq, Seq::empty())
                && r->seq == seq)
            &&& (pos < 0 && payload.len() <= u32::MAX ==> forall|s: Seq<char>| #[trigger] msgpack_request(s) == payload
                ==> (r is Dispatch && r->content@ == s))
        },
{
    if packet.len() < 5 {
        return PacketAction::Drop(CommError::DecodeError(String::from_str("Packet too short")));
    }
    let payload_len = packet.len() - 5;
    if payload_len > max_payload_bytes {
        return PacketAction::Drop(CommError::PayloadTooLarge(payload_len));
    }
    let (msg_type, seq) = match decode_header(packet) {
        Ok(h) => h,
        Err(e) => return PacketAction::Drop(e),
    };
    match msg_type {
        MsgType::Request => {},
        _ => return PacketAction::Ignore(msg_type),
    }
    match table.on_request(peer, seq, now_ms) {
        DedupOutcome::Replay(bytes) => PacketAction::Reply(bytes),
        DedupOutcome::InFlight => {
            let ack = match encode_request_ack(seq) {
                Ok(a) => a,
                Err(e) => return PacketAction::Drop(e),
            };
            PacketAction::Reply(ack)
        },
        DedupOutcome::Accepted => {
            let payload = slice_from(packet, 5);
            let request = match decode_request_payload(payload.as_slice()) {
                Ok(p) => p,
                Err(e) => return PacketAction::Drop(e),
            };
            let ack = match encode_request_ack(seq) {
                Ok(a) => a,
                Err(e) => return PacketAction::Drop(e),
            };
            PacketAction::Dispatch { ack, seq, content: request.content }
        },
    }
}

/// The bytes of `data` from `start` on.
fn slice_from(data: &[u8], start: usize) -> (r: Vec<u8>)
    requires
        start <= data@.len(),
    ensures
        r@ == data@.subrange(start as int, data@.len() as int),
{
    let mut r: Vec<u8> = Vec::new();
    let mut i: usize = start;
    while i < data.len()
        invariant
            start <= i <= data@.len(),
            r@ == data@.subrange(start as int, i as int),
        decreases data@.len() - i,
    {
        r.push(data[i]);
        i = i + 1;
        assert(r@ =~= data@.subrange(start as int, i as int));
    }
    r
}

/// How waiting for the agent's reply to a dispatched request ended.
#[derive(Debug)]
pub enum ReplyOutcome {
    /// The agent answered.
    Answered(UserResponse),
    /// The reply channel closed without an answer.
    ChannelClosed,
    /// No answer came in time.
    TimedOut,
    /// The request could not be queued for the agent.
    QueueFull,
}

/// The response payload sent for an outcome.
pub open spec fn reply_content(outcome: ReplyOutcome) -> (Seq<char>, bool) {
    match outcome {
        ReplyOutcome::Answered(resp) => (resp.content@, resp.is_error),
        ReplyOutcome::ChannelClosed => ("No response from handler"@, true),
        ReplyOutcome::TimedOut => ("Response timeout"@, true),
        ReplyOutcome::QueueFull => ("Internal server error"@, true),
    }
}

/// The response to send for a dispatched request, and whether to store it for replay.
#[derive(Debug)]
pub struct ReplyPacket {
    pub bytes: Vec<u8>,
    /// Only an answer from the agent is stored; a failure is sent once.
    pub cache: bool,
}

/// Builds the single response that every dispatched request gets.
pub fn reply_for(seq: u32, outcome: ReplyOutcome) -> (r: Result<ReplyPacket, CommError>)
    ensures
        r is Ok,
        r->Ok_0.bytes@ == response_packet(seq, reply_content(outcome).0, reply_content(outcome).1),
        r->Ok_0.cache <==> outcome is Answered,
{
    let ghost expected = reply_content(outcome);
    let answered = match &outcome {
        ReplyOutcome::Answered(_) => true,
        _ => false,
    };
    let payload = match outcome {
        ReplyOutcome::Answered(resp) => ResponsePayload { content: resp.content, is_error: resp.is_error },
        ReplyOutcome::ChannelClosed => ResponsePayload {
            content: String::from_str("No response from handler"),
            is_error: true,
        },
        ReplyOutcome::TimedOut => ResponsePayload { content: String::from_str("Response timeout"), is_error: true },
        ReplyOutcome::QueueFull => ResponsePayload {
            content: String::from_str("Internal server error"),
            is_error: true,
        },
    };
    assert(payload.content@ == expected.0 && payload.is_error == expected.1);
    let bytes = encode_response(seq, &payload)?;
    Ok(ReplyPacket { bytes, cache: answered })
}

} // verus!
