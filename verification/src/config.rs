//! What the setup takes from its configuration: the network's name and the
//! RPC endpoint.

use vstd::prelude::*;
use vstd::string::StringExecFns;

verus! {

/// The network assumed where the configuration names none.
pub const DEFAULT_NETWORK: &'static str = "regtest";

/// The address of the first local node, used where neither the command line
/// nor the configuration gives an RPC endpoint.
pub const NODE1_ADDRESS: &'static str = "http://localhost:9002/";

/// The network's name: the configured one, else the default.
pub open spec fn resolved_network(configured: Option<Seq<char>>) -> Seq<char> {
    match configured {
        Some(name) => name,
        None => DEFAULT_NETWORK@,
    }
}

/// The RPC endpoint: the command line's, else the configured leader's, else
/// the default address.
pub open spec fn resolved_rpc_url(
    argument: Option<Seq<char>>,
    leader_endpoint: Option<Seq<char>>,
) -> Seq<char> {
    match argument {
        Some(url) => url,
        None => match leader_endpoint {
            Some(url) => url,
            None => NODE1_ADDRESS@,
        },
    }
}

/// The view of an optional string.
pub open spec fn optional_text(text: Option<String>) -> Option<Seq<char>> {
    match text {
        Some(t) => Some(t@),
        None => None,
    }
}

/// The network's name: the configured one, else `regtest`.
pub fn get_network(configured: Option<String>) -> (network: String)
    ensures
        network@ == resolved_network(optional_text(configured)),
{
    match configured {
        Some(name) => name,
        None => String::from_str(DEFAULT_NETWORK),
    }
}

/// The RPC endpoint to use. The command line's argument comes first, then
/// the leader endpoint of the configuration, then the default address.
pub fn get_rpc_url(argument: Option<String>, leader_endpoint: Option<String>) -> (url: String)
    ensures
        url@ == resolved_rpc_url(optional_text(argument), optional_text(leader_endpoint)),
{
    match argument {
        Some(url) => url,
        None => match leader_endpoint {
            Some(url) => url,
            None => String::from_str(NODE1_ADDRESS),
        },
    }
}

} // verus!
