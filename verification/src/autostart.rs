//! Starting at logon: which registry change a request asks for.
use vstd::prelude::*;

verus! {

/// The registry change that starting at logon needs.
pub enum AutostartAction {
    /// Write the program's command under the logon key.
    Enable,
    /// Delete the program's value from the logon key.
    Disable,
}

/// The change that switches starting at logon on (`on`) or off.
pub fn set_enabled(on: bool) -> (a: AutostartAction)
    ensures
        a == if on {
            AutostartAction::Enable
        } else {
            AutostartAction::Disable
        },
{
    if on {
        AutostartAction::Enable
    } else {
        AutostartAction::Disable
    }
}

} // verus!
