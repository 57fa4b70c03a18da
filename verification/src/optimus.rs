use vstd::prelude::*;

verus! {

/// Why a switch through the NVIDIA Optimus control panel did not happen.
#[derive(PartialEq, Eq, Structural, Clone, Copy, Debug)]
pub enum OptimusError {
    /// Switching through the control panel is not implemented.
    NotImplemented,
}

/// Sets the global GPU to the integrated one through the control panel: not implemented,
/// so it always reports `NotImplemented` and changes nothing.
pub fn integrated() -> (r: Result<(), OptimusError>)
    ensures
        r == Err::<(), OptimusError>(OptimusError::NotImplemented),
{
    Err(OptimusError::NotImplemented)
}

/// Sets the global GPU to the dedicated one through the control panel: not implemented,
/// so it always reports `NotImplemented` and changes nothing.
pub fn dedicated() -> (r: Result<(), OptimusError>)
    ensures
        r == Err::<(), OptimusError>(OptimusError::NotImplemented),
{
    Err(OptimusError::NotImplemented)
}

/// Resets the global GPU setting through the control panel: not implemented, so it
/// always reports `NotImplemented` and changes nothing.
pub fn reset() -> (r: Result<(), OptimusError>)
    ensures
        r == Err::<(), OptimusError>(OptimusError::NotImplemented),
{
    Err(OptimusError::NotImplemented)
}

} // verus!
