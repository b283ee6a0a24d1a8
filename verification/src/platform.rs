//! The platform this library is built for: the filesystem rules it applies follow Linux.

use vstd::prelude::*;

verus! {

/// Whether this build targets Windows: it does not.
pub fn is_windows_build() -> (r: bool)
    ensures
        r == false,
{
    false
}

/// Whether this build targets Linux: it does.
pub fn is_linux_build() -> (r: bool)
    ensures
        r == true,
{
    true
}

} // verus!
