//! The connection-facing layer: the frame/message model and the channel
//! multiplexer state machine.

use vstd::prelude::*;

pub mod channel;
pub mod message;

verus! {

/// Version byte of the authentication exchange.
pub const PROTOCOL_VERSION: u8 = 1;

/// The fixed protocol identifier written on a fresh connection before any
/// framed traffic.
pub fn protocol_sequence() -> (r: Vec<u8>)
    ensures
        r@ == seq![0x43u8, 0x50u8, 0x32u8],
{
    let mut v: Vec<u8> = Vec::new();
    v.push(0x43);
    v.push(0x50);
    v.push(0x32);
    proof {
        assert(v@ =~= seq![0x43u8, 0x50u8, 0x32u8]);
    }
    v
}

} // verus!
