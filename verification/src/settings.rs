//! Process configuration as plain values: the recognized keys of the
//! environment-sourced settings. Reading the environment is the runtime's
//! concern; the library holds and validates the values.

use vstd::prelude::*;

use crate::types::{MAX_TS, Timestamp};

verus! {

/// The recognized configuration keys: the history store's connection
/// string, the venue credentials, and the heartbeat timers (milliseconds).
#[derive(Clone, Debug)]
pub struct Settings {
    pub pg_host: Vec<u8>,
    pub api_key: Vec<u8>,
    pub secret_key: Vec<u8>,
    pub passphrase: Vec<u8>,
    pub heartbeat_interval: Timestamp,
    pub heartbeat_timeout: Timestamp,
}

impl Settings {
    /// A usable configuration: every credential present, timers positive
    /// and within the clock model.
    pub open spec fn wf(self) -> bool {
        &&& self.pg_host@.len() > 0
    &&& self.api_key@.len() > 0
    &&& self.secret_key@.len() > 0
    &&& self.passphrase@.len() > 0
    &&& 0 < self.heartbeat_interval <= MAX_TS
    &&& 0 < self.heartbeat_timeout <= MAX_TS
    }

    /// Is the configuration complete? Startup must fail when it is not.
    pub fn is_complete(&self) -> (r: bool)
        ensures
            r == self.wf(),
    {
        self.pg_host.len() > 0 && self.api_key.len() > 0 && self.secret_key.len() > 0
            && self.passphrase.len() > 0 && 0 < self.heartbeat_interval
            && self.heartbeat_interval <= MAX_TS && 0 < self.heartbeat_timeout
            && self.heartbeat_timeout <= MAX_TS
    }
}

} // verus!
