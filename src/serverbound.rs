use std::collections::HashMap;
use vstd::prelude::*;
use crate::protocol::States;

verus! {

broadcast use vstd::std_specs::hash::group_hash_axioms;

/// What the server does with a packet that it receives.
#[derive(Debug, Clone, Copy, PartialEq, Eq, Structural)]
pub enum Handler {
    /// Send the status response.
    StatusResponse,
    /// Echo the ping's value in a ping response.
    PingResponse,
}

/// The handlers of one state, keyed by opcode.
pub type Responses = HashMap<u8, Handler>;

/// The opcode of the status request.
pub const STATUS_REQUEST_OPCODE: u8 = 0x00;

/// The opcode of the ping request.
pub const PING_REQUEST_OPCODE: u8 = 0x01;

/// The handlers of the status state.
pub open spec fn status_table() -> Map<u8, Handler> {
    map![STATUS_REQUEST_OPCODE => Handler::StatusResponse, PING_REQUEST_OPCODE => Handler::PingResponse]
}

/// The handlers of every state after the handshake, built once and only
/// read afterwards.
pub struct ServerBoundPackets {
    pub status: Responses,
    pub login: Responses,
    pub configuration: Responses,
    pub play: Responses,
}

fn status_responses() -> (r: Responses)
    ensures
        r@ == status_table(),
{
    let mut responses: Responses = HashMap::new();
    responses.insert(STATUS_REQUEST_OPCODE, Handler::StatusResponse);
    responses.insert(PING_REQUEST_OPCODE, Handler::PingResponse);
    proof {
        assert(responses@ =~= status_table());
    }
    responses
}

impl ServerBoundPackets {
    /// The handlers of `state`, by opcode. The handshake is parsed on its
    /// own and has none.
    pub open spec fn table(&self, state: States) -> Map<u8, Handler> {
        match state {
            States::HandShake => Map::empty(),
            States::Status => self.status@,
            States::Login => self.login@,
            States::Configuration => self.configuration@,
            States::Play => self.play@,
        }
    }

    /// The registry: the status handlers, and none yet in the later states.
    pub fn new() -> (r: ServerBoundPackets)
        ensures
            r.status@ == status_table(),
            r.login@ == Map::<u8, Handler>::empty(),
            r.configuration@ == Map::<u8, Handler>::empty(),
            r.play@ == Map::<u8, Handler>::empty(),
    {
        ServerBoundPackets {
            status: status_responses(),
            login: HashMap::new(),
            configuration: HashMap::new(),
            play: HashMap::new(),
        }
    }

    /// The handler for a packet with opcode `opcode` in `state`, if any.
    pub fn lookup(&self, state: States, opcode: u8) -> (r: Option<Handler>)
        ensures
            r == (if self.table(state).contains_key(opcode) {
                Some(self.table(state)[opcode])
            } else {
                None::<Handler>
            }),
    {
        let table: &Responses = match state {
            States::HandShake => return None,
            States::Status => &self.status,
            States::Login => &self.login,
            States::Configuration => &self.configuration,
            States::Play => &self.play,
        };
        match table.get(&opcode) {
            Some(handler) => Some(*handler),
            None => None,
        }
    }
}

} // verus!
