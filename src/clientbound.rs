use vstd::prelude::*;
use crate::datatypes::{string_bytes, StringBuffer};

verus! {

/// The opcode of the status response.
pub const STATUS_RESPONSE_OPCODE: u8 = 0x00;

/// The opcode of the ping response.
pub const PING_RESPONSE_OPCODE: u8 = 0x01;

/// The eight bytes of `v` in two's complement, most significant first.
pub open spec fn be_bytes(v: i64) -> Seq<u8> {
    Seq::new(8, |k: int| ((v as u64) >> ((56 - 8 * k) as u64)) as u8)
}

/// The packets that the server sends.
pub struct ClientBoundPackets {
    pub status: StatusClientBound,
}

/// The packets that the server sends in the status state.
pub struct StatusClientBound {
    /// The JSON document that describes the server.
    pub status_document: String,
}

impl StatusClientBound {
    /// The status response: its opcode, then the status document as a
    /// length-prefixed string.
    pub fn status_response(&self) -> (r: Vec<u8>)
        ensures
            r@ == seq![STATUS_RESPONSE_OPCODE] + string_bytes(self.status_document@),
    {
        let mut response: Vec<u8> = vec![STATUS_RESPONSE_OPCODE];
        let mut text: Vec<u8> = StringBuffer::encode(self.status_document.as_str()).unwrap();
        response.append(&mut text);
        response
    }

    /// The ping response: its opcode, then `value` as eight big-endian bytes.
    pub fn ping_response(value: i64) -> (r: Vec<u8>)
        ensures
            r@ == seq![PING_RESPONSE_OPCODE] + be_bytes(value),
    {
        let bits: u64 = value as u64;
        let mut response: Vec<u8> = vec![PING_RESPONSE_OPCODE];
        let mut k: u64 = 0;
        while k < 8
            invariant
                k <= 8,
                bits == value as u64,
                response@ == seq![PING_RESPONSE_OPCODE] + be_bytes(value).subrange(0, k as int),
            decreases 8 - k,
        {
            proof {
                assert(be_bytes(value).subrange(0, k + 1) =~= be_bytes(value).subrange(0, k as int).push(
                    (bits >> (56 - 8 * k)) as u8,
                ));
            }
            response.push((bits >> (56 - 8 * k)) as u8);
            k = k + 1;
        }
        proof {
            assert(be_bytes(value).subrange(0, 8) =~= be_bytes(value));
        }
        response
    }
}

} // verus!
