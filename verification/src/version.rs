//! Format versions of Rain bytecode.
//!
//! The first byte of every program carries the byte version.  The
//! version map relates each supported byte version to its
//! human-readable semantic-version string; it is consulted only for
//! diagnostics, never for execution decisions.

use vstd::prelude::*;

use std::collections::HashMap;

verus! {

broadcast use vstd::std_specs::hash::group_hash_axioms, vstd::string::group_string_axioms;

/// The current byte version.
pub const BYTE_VERSION: u8 = 1;

/// Returns a map from byte versions to semantic versions: exactly the
/// supported byte version, mapped to its semantic-version string.
pub fn version_map() -> (m: HashMap<u8, String>)
    ensures
        m@.contains_key(BYTE_VERSION),
        m@[BYTE_VERSION]@ == "0.1.0"@,
        forall|b: u8| m@.contains_key(b) ==> b == BYTE_VERSION,
{
    let mut m = HashMap::new();
    m.insert(1, "0.1.0".to_string());
    m
}

} // verus!
