//! Clipboard sharing, which this version does not offer yet: both commands
//! answer with an error that says so.
use vstd::prelude::*;

use crate::error::PeacockError;

verus! {

/// The error of the clipboard commands.
pub open spec fn not_implemented(r: Result<(), PeacockError>) -> bool {
    r matches Err(PeacockError::General(m)) && m@ == "Clipboard sync not yet implemented"@
}

/// Turn clipboard sync on or off: not offered yet, always an error.
pub fn enable_clipboard_sync(_enabled: bool) -> (res: Result<(), PeacockError>)
    ensures
        not_implemented(res),
{
    Err(PeacockError::General("Clipboard sync not yet implemented".to_string()))
}

/// Push the clipboard to a device: not offered yet, always an error.
pub fn push_clipboard(_device_id: String) -> (res: Result<(), PeacockError>)
    ensures
        not_implemented(res),
{
    Err(PeacockError::General("Clipboard sync not yet implemented".to_string()))
}

} // verus!
