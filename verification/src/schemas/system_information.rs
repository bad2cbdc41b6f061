use vstd::prelude::*;

verus! {

/// What the server reports about itself.
pub struct SystemInformation {
    pub interface_version: String,
    pub version: String,
    pub author: String,
    pub uptime: i64,
}

} // verus!
