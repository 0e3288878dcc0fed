//! Deriving a worker id from the network address of the machine.
//!
//! The derivation looks at the low bits of an IPv4 address only. Two machines
//! whose addresses agree there get the same worker id, and every machine
//! without an IPv4 address gets worker id 0: a deployment that needs worker
//! ids to differ assigns them itself.

use vstd::prelude::*;
use crate::layout::{worker_span, MAX_WORKER_ID};

verus! {

/// A network address, as the bytes it is written with, first byte first.
#[derive(Clone, Copy, Debug, PartialEq, Eq)]
pub enum Address {
    V4([u8; 4]),
    V6([u8; 16]),
}

/// The worker id that an address stands for, where there is one: the low 16
/// bits of an IPv4 address, its third and fourth bytes, cut down to the width
/// of the worker id field; 0 for any other address and where none was found.
pub open spec fn derived_worker_id(resolved: Option<Address>) -> nat {
    match resolved {
        Some(Address::V4(octets)) => (octets[2] as nat * 256 + octets[3] as nat) % worker_span(),
        Some(Address::V6(_)) => 0,
        None => 0,
    }
}

/// The worker id of this machine and the address it was derived from, given
/// the machine's primary address, or `None` where it could not be found.
pub fn get_worker_id(resolved: Option<Address>) -> (identity: (u16, Option<Address>))
    ensures
        identity.0 == derived_worker_id(resolved),
        identity.0 <= MAX_WORKER_ID,
        identity.1 == resolved,
{
    match resolved {
        Some(Address::V4(octets)) => {
            let high: u16 = octets[2] as u16;
            let low: u16 = octets[3] as u16;
            let worker_id: u16 = ((high << 8) | low) & MAX_WORKER_ID;
            assert(worker_id == (high * 256 + low) % 1024 && worker_id <= 1023u16) by (bit_vector)
                requires
                    worker_id == ((high << 8u16) | low) & 1023u16,
                    high <= 255u16,
                    low <= 255u16,
            ;
            (worker_id, resolved)
        },
        Some(Address::V6(_)) => (0, resolved),
        None => (0, None),
    }
}

} // verus!
