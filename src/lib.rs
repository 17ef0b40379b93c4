//! The round-timeout subsystem of a BFT consensus protocol: timeout statements and
//! their domain-separated digests, quorum aggregation into timeout certificates,
//! and the pacemaker that advances rounds.
use vstd::prelude::*;

pub mod hashing;
pub mod timeout;
pub mod validator;
pub mod certificate;
pub mod aggregator;
pub mod pacemaker;
pub mod instance;
pub mod controller;

verus! {

} // verus!
