//! Plain views of the data that the library hands around.

use vstd::prelude::*;

verus! {

/// A list of byte strings as plain data.
pub open spec fn byte_strings(list: Vec<Vec<u8>>) -> Seq<Seq<u8>> {
    list@.map_values(|bytes: Vec<u8>| bytes@)
}

} // verus!
