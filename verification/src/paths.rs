//! Filesystem locations used by the asset-serving front end.

use vstd::prelude::*;
use vstd::string::StringExecFns;

verus! {

/// The directory the front-end process serves static assets from.
pub fn static_path() -> (r: String)
    ensures
        r@ == "/home/liam/liminal/server/static"@,
{
    String::from_str("/home/liam/liminal/server/static")
}

} // verus!
