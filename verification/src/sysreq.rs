//! What the monitor needs of the system it runs on.

use vstd::prelude::*;

verus! {

/// A requirement that the system does not meet.
#[derive(Clone, Copy, Debug, PartialEq, Eq, Structural)]
pub enum RequirementError {
    /// The system is not Linux.
    UnsupportedOs,
    /// The monitor does not run as root.
    NotRoot,
}

/// What the check says of a system that is Linux or not and a user who is
/// root or not. The operating system is judged first.
pub open spec fn requirements_of(on_linux: bool, is_root: bool) -> Result<(), RequirementError> {
    if !on_linux {
        Err(RequirementError::UnsupportedOs)
    } else if !is_root {
        Err(RequirementError::NotRoot)
    } else {
        Ok(())
    }
}

/// Checks that the monitor runs on Linux and as root.
pub fn check_system_requirements(on_linux: bool, is_root: bool) -> (met: Result<
    (),
    RequirementError,
>)
    ensures
        met == requirements_of(on_linux, is_root),
{
    if !on_linux {
        Err(RequirementError::UnsupportedOs)
    } else if !is_root {
        Err(RequirementError::NotRoot)
    } else {
        Ok(())
    }
}

} // verus!
