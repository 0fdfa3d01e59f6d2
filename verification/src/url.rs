//! What the address of an upload is made of.

use vstd::prelude::*;

verus! {

/// The parts of the address of an upload.
#[derive(Clone, Copy, Debug)]
pub struct GenerateUrlCtx<'a> {
    pub proto: &'a str,
    pub host: &'a str,
    pub path: &'a str,
    pub id: &'a str,
}

/// The part of an address that says where the server is.
#[derive(Clone, Copy, Debug)]
pub struct HostProto<'a> {
    pub proto: &'a str,
    pub host: &'a str,
}

} // verus!
