//! Data for the function-key bar of the terminal interface.

use vstd::prelude::*;

verus! {

/// One entry of the function-key bar: the key name and the action
/// label shown beside it.
pub struct FunctionKey {
    pub key: &'static str,
    pub label: &'static str,
}

} // verus!
