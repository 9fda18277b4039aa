//! The protocol headers that peers exchange after connecting.

use vstd::prelude::*;

verus! {

/// The protocol identifier: `"AMQP"` in ASCII.
pub const AMQP_PROTOCOL_ID: [u8; 4] = [0x41, 0x4D, 0x51, 0x50];

/// The version octets that select AMQP 1.0.
pub const AMQP_VERSION: [u8; 4] = [0x00, 0x01, 0x00, 0x00];

/// The protocol header that selects AMQP 1.0.
pub const AMQP_HEADER: [u8; 8] = [0x41, 0x4D, 0x51, 0x50, 0x00, 0x01, 0x00, 0x00];

/// The protocol identifier of the SASL header: `"AMQP"` in ASCII.
pub const SASL_PROTOCOL_ID: [u8; 4] = [0x41, 0x4D, 0x51, 0x50];

/// The version octets that select SASL negotiation.
pub const SASL_VERSION: [u8; 4] = [0x03, 0x01, 0x00, 0x00];

/// The protocol header that selects SASL negotiation.
pub const SASL_HEADER: [u8; 8] = [0x41, 0x4D, 0x51, 0x50, 0x03, 0x01, 0x00, 0x00];

} // verus!
