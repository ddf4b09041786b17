use vstd::prelude::*;

verus! {

/// Credentials and address of the node that serves blocks and transactions.
pub struct Config {
    pub rpc_username: String,
    pub rpc_password: String,
    pub rpc_url: String,
}

} // verus!
