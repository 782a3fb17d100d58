//! The version of nog.
use vstd::prelude::*;

verus! {

/// The version that the build was given, or `DEV` for a build that was given
/// none.
pub fn get_version(build_version: Option<&'static str>) -> (r: &'static str)
    ensures
        match build_version {
            Some(v) => r@ == v@,
            None => r@ == seq!['D', 'E', 'V'],
        },
{
    match build_version {
        Some(v) => v,
        None => {
            let dev = "DEV";
            proof { reveal_strlit("DEV"); }
            dev
        },
    }
}

} // verus!
