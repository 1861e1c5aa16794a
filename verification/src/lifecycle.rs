use vstd::prelude::*;

verus! {

/// Releases the library once the feature loop is over. On this platform
/// releasing is left to the loader, and the function does nothing.
pub fn free_library() {
}

} // verus!
