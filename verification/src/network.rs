//! Reaching another node's Raft service.
use vstd::prelude::*;
use vstd::string::StringExecFns;

verus! {

/// The URL of the Raft service that listens on `rpc_addr`: `http://<rpc_addr>`.
pub fn endpoint_url(rpc_addr: &str) -> (url: String)
    ensures
        url@ == seq!['h', 't', 't', 'p', ':', '/', '/'] + rpc_addr@,
{
    proof {
        reveal_strlit("http://");
    }
    let mut url = String::from_str("http://");
    url.append(rpc_addr);
    url
}

} // verus!
