//! Variable-Length-Transport (VLT) mode: a boolean run-mode that gates
//! conditional jump events. Jump events carry actions that may flip or set
//! the flag, and a requirement that decides whether the jump is taken.

use vstd::prelude::*;

verus! {

/// An action a jump event applies to the VLT flag.
#[derive(Clone, Copy, Debug, PartialEq, Eq, Structural)]
pub enum VltAction {
    /// Leave the flag as it is.
    Keep,
    /// Invert the flag.
    Toggle,
    /// Set the flag.
    SetOn,
    /// Clear the flag.
    SetOff,
}

/// The condition a jump event places on the VLT flag.
#[derive(Clone, Copy, Debug, PartialEq, Eq, Structural)]
pub enum JumpRequirement {
    /// The jump is always taken.
    Always,
    /// The jump is taken only while VLT is on.
    VltOn,
    /// The jump is taken only while VLT is off.
    VltOff,
}

/// What `apply_vlt` returns: Toggle inverts, SetOn and SetOff force, Keep
/// leaves the flag alone.
pub open spec fn spec_apply_vlt(action: VltAction, vlt: bool) -> bool {
    match action {
        VltAction::Keep => vlt,
        VltAction::Toggle => !vlt,
        VltAction::SetOn => true,
        VltAction::SetOff => false,
    }
}

/// Apply a VLT action to the current flag value.
pub fn apply_vlt(action: VltAction, vlt: bool) -> (r: bool)
    ensures
        r == spec_apply_vlt(action, vlt),
{
    match action {
        VltAction::Keep => vlt,
        VltAction::Toggle => !vlt,
        VltAction::SetOn => true,
        VltAction::SetOff => false,
    }
}

/// Whether a jump requirement is met under the current flag value.
pub open spec fn spec_requirement_met(req: JumpRequirement, vlt: bool) -> bool {
    match req {
        JumpRequirement::Always => true,
        JumpRequirement::VltOn => vlt,
        JumpRequirement::VltOff => !vlt,
    }
}

/// Evaluate a jump requirement against the current flag value.
pub fn requirement_met(req: JumpRequirement, vlt: bool) -> (r: bool)
    ensures
        r == spec_requirement_met(req, vlt),
{
    match req {
        JumpRequirement::Always => true,
        JumpRequirement::VltOn => vlt,
        JumpRequirement::VltOff => !vlt,
    }
}

/// Law: Toggle inverts the flag, Keep leaves it, and two Toggles cancel.
pub proof fn lemma_vlt_toggle(vlt: bool)
    ensures
        spec_apply_vlt(VltAction::Toggle, vlt) == !vlt,
        spec_apply_vlt(VltAction::Keep, vlt) == vlt,
        spec_apply_vlt(VltAction::Toggle, spec_apply_vlt(VltAction::Toggle, vlt)) == vlt,
{
}

} // verus!
