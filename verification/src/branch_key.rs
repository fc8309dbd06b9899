//! The `BranchKey` trait for type-safe conditional branching.
use vstd::prelude::*;

verus! {

/// A routing key for conditional branching.
///
/// Implementors are fieldless enums whose variants map 1-to-1 to the named
/// branches in a `route` node. The builder uses all keys to verify
/// exhaustiveness at build time.
pub trait BranchKey {
    /// The string key corresponding to this variant.
    fn as_key(&self) -> &'static str;

    /// All possible keys for this type (one per variant).
    fn all_keys() -> &'static [&'static str];
}

} // verus!
