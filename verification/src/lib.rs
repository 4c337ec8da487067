//! Brute-force search for "vanity" key addresses: keypairs whose base-58
//! public identifier matches a user-chosen textual pattern.
//!
//! The library holds the verified core: the pattern-matching predicate, the
//! base-58 pattern validation, the integer cost model that estimates how
//! long a search will take, and the search loop with its shared state and
//! termination protocol.

use vstd::prelude::*;

pub mod estimate;
pub mod pattern;
pub mod search;
pub mod validate;

verus! {

/// Stateless facade owning the matching, estimating and searching
/// operations.
pub struct VanityGenerator {}

impl VanityGenerator {
    /// A generator carries no state of its own.
    pub fn new() -> VanityGenerator {
        VanityGenerator {  }
    }
}

} // verus!
