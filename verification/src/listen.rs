//! Where the forwarder listens for the queries of its clients.

use vstd::prelude::*;
use vstd::string::*;

verus! {

/// Where the forwarder gets its UDP socket from.
#[derive(Debug, Clone, PartialEq, Eq)]
pub enum Config {
    /// It binds this address, written as `address:port`.
    Addr(String),
    /// It takes over the socket that the service manager has opened for it.
    Activation,
}

/// The address that the forwarder binds where nothing else is set.
pub open spec fn default_listen_addr() -> Seq<char> {
    "127.0.0.1:53"@
}

/// Chooses where to listen: the socket of the service manager where that
/// is asked for, else the address set, else the default address.
pub fn get_listen_config(listen_activation: bool, listen_addr: Option<&str>) -> (config: Config)
    ensures
        match config {
            Config::Activation => listen_activation,
            Config::Addr(addr) => !listen_activation && addr@ == match listen_addr {
                Some(set) => set@,
                None => default_listen_addr(),
            },
        },
{
    if listen_activation {
        Config::Activation
    } else if let Some(addr) = listen_addr {
        Config::Addr(addr.to_owned())
    } else {
        Config::Addr(String::from_str("127.0.0.1:53"))
    }
}

} // verus!
