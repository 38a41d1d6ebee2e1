//! Installs template git repositories into a per-user data directory and keeps them up to
//! date by fetching and fast-forwarding.
use vstd::prelude::*;

pub mod batch;
pub mod cli;
pub mod log;
pub mod sync;
pub mod url;

verus! {

} // verus!
