//! Defaults of the server's configuration.

use vstd::prelude::*;

verus! {

/// The server name used when the configuration gives none.
pub fn default_servername() -> (r: String)
    ensures
        r@ == seq!['e', 'x', 'a', 'm', 'p', 'l', 'e', '.', 'c', 'o', 'm'],
{
    let r = String::from_str("example.com");
    proof {
        reveal_strlit("example.com");
    }
    r
}

} // verus!
