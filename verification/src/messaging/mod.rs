//! Typed values exchanged with the peer: the endpoint descriptor and the
//! replica-timestamp record, plus the per-operation request/response
//! modules.

use vstd::prelude::*;
use crate::codec::Uuid;

pub mod authentication;
pub mod error;
pub mod ping;
pub mod pn_counter;

verus! {

/// Mathematical image of an [`Address`].
#[verifier::ext_equal]
pub ghost struct AddressView {
    pub host: Seq<char>,
    pub port: u32,
}

/// A network endpoint of a cluster member: host name and port.
#[derive(PartialEq, Eq, Hash, Debug, Clone)]
pub struct Address {
    pub host: String,
    pub port: u32,
}

impl View for Address {
    type V = AddressView;

    open spec fn view(&self) -> AddressView {
        AddressView { host: self.host@, port: self.port }
    }
}

impl Address {
    pub fn new(host: String, port: u32) -> (r: Address)
        ensures
            r.host == host,
            r.port == port,
    {
        Address { host, port }
    }
}

/// One replica's last-seen logical timestamp, keyed by the replica's UUID.
#[derive(Clone, Copy, PartialEq, Eq, Structural, Debug)]
pub struct ReplicaTimestampEntry {
    pub key: Uuid,
    pub value: i64,
}

impl ReplicaTimestampEntry {
    pub fn new(key: Uuid, value: i64) -> (r: ReplicaTimestampEntry)
        ensures
            r == (ReplicaTimestampEntry { key, value }),
    {
        ReplicaTimestampEntry { key, value }
    }

    pub fn key(&self) -> (r: Uuid)
        ensures
            r == self.key,
    {
        self.key
    }

    pub fn value(&self) -> (r: i64)
        ensures
            r == self.value,
    {
        self.value
    }
}

} // verus!
