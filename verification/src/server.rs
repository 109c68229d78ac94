//! Server configuration: the listening address and the root directory that
//! file routes are confined to, both fixed at startup and never mutated.
use vstd::prelude::*;

verus! {

/// The immutable configuration of one server instance.
pub struct HttpServer {
    pub address: String,
    pub root_dir: String,
}

impl HttpServer {
    /// Records the listening address and the file-store root directory.
    pub fn new(address: &str, root_dir: &str) -> (s: Self)
        ensures
            s.address@ == address@,
            s.root_dir@ == root_dir@,
    {
        HttpServer { address: address.to_owned(), root_dir: root_dir.to_owned() }
    }
}

} // verus!
