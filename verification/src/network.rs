//! The device's network credentials.
//!
//! Joining the wireless network and acquiring a lease are an outside
//! collaborator's work; the verified core only carries the credentials.

use vstd::prelude::*;

verus! {

/// The wireless network to join.
pub struct NetworkConfig {
    /// The network's name.
    pub ssid: &'static str,
    /// The network's passphrase.
    pub password: &'static str,
}

impl NetworkConfig {
    /// Bundles the credentials.
    pub fn new(ssid: &'static str, password: &'static str) -> (r: Self)
        ensures
            r.ssid@ == ssid@,
            r.password@ == password@,
    {
        NetworkConfig { ssid, password }
    }
}

} // verus!
