//! The script resolver: a logical command name maps to a worker artifact
//! below a fixed, configuration-free subdirectory of the install root.
//!
//! Whether the artifact actually exists on disk is a file-system question
//! the caller answers and hands in; the decision made here — report a
//! missing worker before any process is spawned — is what this module
//! states and proves.

use vstd::prelude::*;
use vstd::string::StringSliceAdditionalSpecFns;

use crate::value::{append_bytes, clone_bytes, str_bytes};
use crate::BridgeError;

verus! {

/// The fixed location of worker artifacts relative to the install root.
pub open spec fn scripts_subdir() -> Seq<u8> {
    "/src-python/scripts/".spec_bytes()
}

/// The full path of a worker artifact.
pub open spec fn script_location(root: Seq<u8>, name: Seq<u8>) -> Seq<u8> {
    root + scripts_subdir() + name
}

/// Resolve a script name to its path under the install root. `exists`
/// reports whether the artifact is present there; when it is not, the
/// resolver fails with `NotFound` carrying the path it tried, and no
/// process is ever spawned for the call.
pub fn get_python_script_path(install_root: &Vec<u8>, script_name: &Vec<u8>, exists: bool) -> (r:
    Result<Vec<u8>, BridgeError>)
    ensures
        exists ==> (r matches Ok(p) && p@ == script_location(install_root@, script_name@)),
        !exists ==> (r matches Err(e) && e matches BridgeError::NotFound(p) && p@
            == script_location(install_root@, script_name@)),
{
    let mut p = clone_bytes(install_root);
    let sub = str_bytes("/src-python/scripts/");
    append_bytes(&mut p, &sub);
    append_bytes(&mut p, script_name);
    if exists {
        Ok(p)
    } else {
        Err(BridgeError::NotFound(p))
    }
}

} // verus!
