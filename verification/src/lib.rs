use vstd::prelude::*;

pub mod bind;
pub mod cli;
pub mod compose;
pub mod crypto;
pub mod encoding;
pub mod harden;
pub mod layer;
pub mod license;
pub mod oci;
pub mod registry;
pub mod sdk;
pub mod seccomp;
pub mod signing;
pub mod text;
pub mod time;

verus! {

} // verus!
