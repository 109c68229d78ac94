use vstd::prelude::*;

pub mod bytes;
pub mod dec;
pub mod gzip;
pub mod laws;
pub mod request;
pub mod response;
pub mod route;
pub mod server;
pub mod text;

verus! {

} // verus!
