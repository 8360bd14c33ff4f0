use vstd::prelude::*;
use crate::clientbound::{
    be_bytes, ClientBoundPackets, StatusClientBound, PING_RESPONSE_OPCODE, STATUS_RESPONSE_OPCODE,
};
use crate::datatypes::{string_bytes, string_parse, varint_parse, StringBuffer, VarInt};
use crate::serverbound::{Handler, ServerBoundPackets};

verus! {

/// Why a connection is given up while its packets are handled.
#[derive(Debug, Clone, Copy, PartialEq, Eq, Structural)]
pub enum RuntimeError {
    IncorrectProtocol,
    DecodeError,
    IncorrectIntent,
}

/// Where a connection stands in the protocol.
#[derive(Debug, Clone, Copy, PartialEq, Eq, Structural)]
pub enum States {
    HandShake,
    Status,
    Login,
    Configuration,
    Play,
}

/// The state of one connection that packets act on.
pub struct ProtocolHandler {
    pub status: States,
    pub protocol_version: u64,
}

/// The opcode of the handshake packet.
pub const HANDSHAKE_OPCODE: u8 = 0x00;

/// The handshake intent that asks for the server's status.
pub const INTENT_STATUS: u64 = 1;

/// The handshake intent that asks to log in.
pub const INTENT_LOGIN: u64 = 2;

/// The largest payload that a frame may declare: one MiB.
pub const MAX_FRAME_LENGTH: u64 = 1048576;

/// What a handshake packet with opcode `opcode` and payload `p` (opcode
/// first) yields: the protocol version and the next state, or why it is
/// refused. The payload holds, after the opcode, the protocol version, the
/// server address as a string, the port as two bytes, and the intent.
pub open spec fn handshake_outcome(opcode: u8, p: Seq<u8>) -> Result<(nat, States), RuntimeError> {
    if opcode != HANDSHAKE_OPCODE {
        Err(RuntimeError::IncorrectProtocol)
    } else {
        match varint_parse(p, 1) {
            Err(_) => Err(RuntimeError::DecodeError),
            Ok((version, after_version)) => match string_parse(p, after_version) {
                Err(_) => Err(RuntimeError::DecodeError),
                Ok((_, after_address)) => match varint_parse(p, after_address + 2) {
                    Err(_) => Err(RuntimeError::DecodeError),
                    Ok((intent, _)) => {
                        if intent == INTENT_STATUS {
                            Ok((version, States::Status))
                        } else if intent == INTENT_LOGIN {
                            Ok((version, States::Login))
                        } else {
                            Err(RuntimeError::IncorrectIntent)
                        }
                    },
                },
            },
        }
    }
}

impl ProtocolHandler {
    /// A connection that was just accepted.
    pub fn new() -> (r: ProtocolHandler)
        ensures
            r.status == States::HandShake,
            r.protocol_version == 0,
    {
        ProtocolHandler { status: States::HandShake, protocol_version: 0 }
    }
}

/// Parses the handshake packet `packet`, whose opcode is `protocol`. On
/// success the connection learns the protocol version and moves to the
/// state that the intent asks for; on failure it is left as it was.
pub fn handle_handshake(this: &mut ProtocolHandler, packet: &Vec<u8>, protocol: u8) -> (r: Option<
    RuntimeError,
>)
    requires
        packet@.len() <= u32::MAX,
    ensures
        match handshake_outcome(protocol, packet@) {
            Ok((version, state)) => r == None::<RuntimeError> && final(this).protocol_version
                == version && final(this).status == state,
            Err(e) => r == Some(e) && *final(this) == *old(this),
        },
{
    if protocol != HANDSHAKE_OPCODE {
        return Some(RuntimeError::IncorrectProtocol);
    }
    let protocol_version_raw = match VarInt(packet).decode(1) {
        Ok(value) => value,
        Err(_) => return Some(RuntimeError::DecodeError),
    };
    let offset: u32 = match StringBuffer(packet).decode(protocol_version_raw.offset) {
        Ok(value) => value.offset,
        Err(_) => return Some(RuntimeError::DecodeError),
    };
    if offset as u64 + 2 > packet.len() as u64 {
        return Some(RuntimeError::DecodeError);
    }
    let intent = match VarInt(packet).decode(offset + 2) {
        Ok(value) => value.value,
        Err(_) => return Some(RuntimeError::DecodeError),
    };
    if intent == INTENT_STATUS {
        this.status = States::Status;
    } else if intent == INTENT_LOGIN {
        this.status = States::Login;
    } else {
        return Some(RuntimeError::IncorrectIntent);
    }
    this.protocol_version = protocol_version_raw.value;
    None
}

/// What to do with a frame after its length prefix was read.
#[derive(Debug, Clone, Copy, PartialEq, Eq, Structural)]
pub enum FrameAction {
    /// The peer closed the stream between frames: close the connection
    /// without error.
    Close,
    /// The frame is larger than allowed: drop the connection without
    /// reading it.
    TooLarge,
    /// Read a payload of this many bytes.
    Read(usize),
}

/// Decides on a frame from the length prefix `length` that the stream
/// decoder returned, where zero marks a stream that ended cleanly.
pub fn frame_action(length: u64) -> (r: FrameAction)
    ensures
        length == 0 ==> r == FrameAction::Close,
        length > MAX_FRAME_LENGTH ==> r == FrameAction::TooLarge,
        0 < length <= MAX_FRAME_LENGTH ==> r == FrameAction::Read(length as usize),
{
    if length == 0 {
        FrameAction::Close
    } else if length > MAX_FRAME_LENGTH {
        FrameAction::TooLarge
    } else {
        FrameAction::Read(length as usize)
    }
}

/// The low 64 bits of the bytes `b` read as a big-endian integer.
pub open spec fn be_value(b: Seq<u8>) -> u64
    decreases b.len(),
{
    if b.len() == 0 {
        0
    } else {
        (be_value(b.drop_last()) << 8u64) | (b.last() as u64)
    }
}

/// The reply that `handler` gives to `packet` (opcode first), where
/// `document` is the server's status document.
pub open spec fn handler_outcome(handler: Handler, packet: Seq<u8>, document: Seq<char>) -> Result<
    Seq<u8>,
    RuntimeError,
> {
    match handler {
        Handler::StatusResponse => Ok(seq![STATUS_RESPONSE_OPCODE] + string_bytes(document)),
        Handler::PingResponse => {
            if packet.len() < 9 {
                Err(RuntimeError::DecodeError)
            } else {
                Ok(seq![PING_RESPONSE_OPCODE] + be_bytes(#[verifier::truncate] (be_value(packet.subrange(1, 9)) as i64)))
            }
        },
    }
}

/// What handling a packet asks of the connection.
#[derive(Debug)]
pub enum Action {
    /// Nothing to send.
    Nothing,
    /// Send these bytes to the peer.
    Send(Vec<u8>),
    /// Give the connection up.
    Fail(RuntimeError),
}

/// `a` is the action that `outcome` describes: none, bytes to send, or an
/// error.
pub open spec fn action_is(a: Action, outcome: Option<Result<Seq<u8>, RuntimeError>>) -> bool {
    match outcome {
        None => a is Nothing,
        Some(Ok(bytes)) => a matches Action::Send(v) && v@ == bytes,
        Some(Err(e)) => a == Action::Fail(e),
    }
}

/// What a packet (opcode first) does on a connection at `state`: in the
/// handshake, only a refused handshake has an outcome; later, the
/// registered handler of its opcode replies, and an opcode without one is
/// ignored.
pub open spec fn packet_outcome(
    state: States,
    registry: ServerBoundPackets,
    packet: Seq<u8>,
    document: Seq<char>,
) -> Option<Result<Seq<u8>, RuntimeError>> {
    if state == States::HandShake {
        match handshake_outcome(packet[0], packet) {
            Ok(_) => None,
            Err(e) => Some(Err(e)),
        }
    } else if registry.table(state).contains_key(packet[0]) {
        Some(handler_outcome(registry.table(state)[packet[0]], packet, document))
    } else {
        None
    }
}

/// Reads eight bytes of `packet` from `start` as a big-endian integer.
fn read_i64_be(packet: &Vec<u8>, start: usize) -> (r: i64)
    requires
        start + 8 <= packet@.len(),
    ensures
        r == #[verifier::truncate] (be_value(packet@.subrange(start as int, start + 8)) as i64),
{
    let mut bits: u64 = 0;
    let len: usize = packet.len();
    let end: usize = start + 8;
    let mut k: usize = start;
    while k < end
        invariant
            end == start + 8,
            end <= len,
            start <= k <= end,
            start + 8 <= packet@.len(),
            bits == be_value(packet@.subrange(start as int, k as int)),
        decreases end - k,
    {
        proof {
            let next = packet@.subrange(start as int, k + 1);
            assert(next.drop_last() =~= packet@.subrange(start as int, k as int));
            assert(next.last() == packet@[k as int]);
        }
        bits = (bits << 8u64) | (packet[k] as u64);
        k = k + 1;
    }
    #[verifier::truncate]
    (bits as i64)
}

/// Runs `handler` on `packet` (opcode first).
pub fn run_handler(handler: Handler, packet: &Vec<u8>, clientbound: &ClientBoundPackets) -> (r: Action)
    ensures
        action_is(r, Some(handler_outcome(handler, packet@, clientbound.status.status_document@))),
{
    match handler {
        Handler::StatusResponse => Action::Send(clientbound.status.status_response()),
        Handler::PingResponse => {
            if packet.len() < 9 {
                Action::Fail(RuntimeError::DecodeError)
            } else {
                Action::Send(StatusClientBound::ping_response(read_i64_be(packet, 1)))
            }
        },
    }
}

/// Handles one packet (opcode first) on the connection `this`: parses the
/// handshake in that state, and otherwise runs the handler that `registry`
/// holds for the packet's opcode in the current state, if there is one.
pub fn handle_packet(
    this: &mut ProtocolHandler,
    packet: &Vec<u8>,
    registry: &ServerBoundPackets,
    clientbound: &ClientBoundPackets,
) -> (r: Action)
    requires
        0 < packet@.len() <= u32::MAX,
    ensures
        action_is(
            r,
            packet_outcome(old(this).status, *registry, packet@, clientbound.status.status_document@),
        ),
        old(this).status == States::HandShake ==> match handshake_outcome(packet@[0], packet@) {
            Ok((version, state)) => final(this).protocol_version == version && final(this).status
                == state,
            Err(_) => *final(this) == *old(this),
        },
        old(this).status != States::HandShake ==> *final(this) == *old(this),
{
    let protocol: u8 = packet[0];
    if this.status == States::HandShake {
        return match handle_handshake(this, packet, protocol) {
            Some(e) => Action::Fail(e),
            None => Action::Nothing,
        };
    }
    match registry.lookup(this.status, protocol) {
        Some(handler) => run_handler(handler, packet, clientbound),
        None => Action::Nothing,
    }
}

} // verus!
