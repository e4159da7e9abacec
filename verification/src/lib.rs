//! A verified session layer for a pipelined graph-database wire protocol.
//!
//! The crate models the transaction/session protocol that sits between
//! application code and a binary graph-database transport: it turns
//! high-level operations (`begin`, `run`, `commit`, `rollback`, `reset`)
//! into a correctly ordered sequence of protocol requests, and routes the
//! stream of server responses back to the handler of the request that each
//! response answers.  The byte-level codec and the socket itself are left to
//! an unverified transport layer; this crate owns the queueing, routing and
//! transaction-state rules and proves them correct.

use vstd::prelude::*;
use vstd::string::StringExecFns;

pub mod batch;
pub mod handler;
pub mod protocol;
pub mod session;

verus! {

/// A connector holds the address and the credentials needed to open a
/// session against a server.  Opening the socket itself is transport work
/// and happens outside this crate.
pub struct DirectBoltConnector {
    pub address: String,
    pub user: String,
    pub password: String,
}

impl DirectBoltConnector {
    /// Record the address and credentials for later connection attempts.
    pub fn new(address: &str, user: &str, password: &str) -> (c: DirectBoltConnector)
        ensures
            c.address@ == address@,
            c.user@ == user@,
            c.password@ == password@,
    {
        DirectBoltConnector {
            address: String::from_str(address),
            user: String::from_str(user),
            password: String::from_str(password),
        }
    }
}

/// Entry point mirroring the driver-style API: `Graph::new` yields a
/// connector for the given address and credentials.
pub struct Graph {}

impl Graph {
    pub fn new(address: &str, user: &str, password: &str) -> (c: DirectBoltConnector)
        ensures
            c.address@ == address@,
            c.user@ == user@,
            c.password@ == password@,
    {
        DirectBoltConnector::new(address, user, password)
    }
}

} // verus!
