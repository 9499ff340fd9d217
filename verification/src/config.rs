//! Address configuration for the serving layer around the library.

use vstd::prelude::*;
use vstd::string::StringExecFns;

verus! {

/// Host and port a server should listen on.
pub struct Config {
    pub server_host: String,
    pub server_port: String,
}

impl Config {
    /// The `host:port` form of the configured address.
    pub fn server_address(&self) -> (r: String)
        ensures
            r@ == self.server_host@ + ":"@ + self.server_port@,
    {
        let mut out = self.server_host.clone();
        out.append(":");
        out.append(self.server_port.as_str());
        out
    }
}

} // verus!
