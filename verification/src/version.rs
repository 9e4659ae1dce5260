//! The versions that records and repositories are bound to.

use vstd::prelude::*;

verus! {

/// The contract version of the first repository format.
pub const KNOWLEDGE_CONTRACT_VERSION: &'static str = "0.1.0";

/// The version of the core that writes records of the first format.
pub const CORE_VERSION: &'static str = "0.1.0";

} // verus!
