//! The version of the tool.
use crate::text::join;
use vstd::prelude::*;

verus! {

/// The version that is shown: the version of the package, the commit and the build profile.
pub fn version(package: &str, head: &str, profile: &str) -> (version: String)
    ensures
        version@ == package@ + "-git"@ + head@ + "."@ + profile@,
{
    let mut version = join(package, "-git");
    version.append(head);
    version.append(".");
    version.append(profile);
    version
}

} // verus!
