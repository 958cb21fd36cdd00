//! The power-state machine and the guaranteed-restore guard.
//!
//! A box found in a resting state is brought up (`up` or `resume`) before
//! the maintenance action and must afterwards be returned to its original
//! resting state (`halt` or `suspend`). The guard records that obligation:
//! it is created only after a successful bring-up, never for a box that is
//! already running, and it is released exactly once.

use vstd::prelude::*;

use crate::status::BoxStatus;

verus! {

/// Subcommand that brings a box from a resting state to `Running`.
#[derive(Debug, Copy, Clone, PartialEq, Eq, Structural)]
pub enum BringUp {
    Up,
    Resume,
}

/// Subcommand that returns a box to a resting state.
#[derive(Debug, Copy, Clone, PartialEq, Eq, Structural)]
pub enum Restore {
    Halt,
    Suspend,
}

/// The bring-up subcommand for a box resting in `status`: `resume` for a
/// saved box, `up` for a powered-off or aborted one. Meaningless for a
/// running box, for which no bring-up is ever issued.
pub open spec fn spec_bring_up(status: BoxStatus) -> BringUp
    recommends
        !status.spec_powered_on(),
{
    match status {
        BoxStatus::Saved => BringUp::Resume,
        _ => BringUp::Up,
    }
}

/// The restore subcommand matching a box's original resting `status`:
/// `suspend` for a saved box, `halt` for a powered-off or aborted one.
pub open spec fn spec_restore(status: BoxStatus) -> Restore
    recommends
        !status.spec_powered_on(),
{
    match status {
        BoxStatus::Saved => Restore::Suspend,
        _ => Restore::Halt,
    }
}

/// A live restore obligation: the box was brought to `Running` and must be
/// returned to its original resting state exactly once.
pub struct TemporaryPowerOn {
    status: BoxStatus,
    released: bool,
}

impl TemporaryPowerOn {
    /// The resting state the box had before it was brought up.
    pub closed spec fn original_status(self) -> BoxStatus {
        self.status
    }

    /// Whether the single restore has already been issued.
    pub closed spec fn is_released(self) -> bool {
        self.released
    }

    /// Takes on the restore obligation for a box resting in `status` and
    /// names the bring-up subcommand to issue: `up` for a powered-off or
    /// aborted box, `resume` for a saved one. Never called for a running
    /// box.
    pub fn create(status: BoxStatus) -> (r: (TemporaryPowerOn, BringUp))
        requires
            !status.spec_powered_on(),
        ensures
            r.0.original_status() == status,
            !r.0.is_released(),
            r.1 == spec_bring_up(status),
            status == BoxStatus::PowerOff || status == BoxStatus::Aborted ==> r.1 == BringUp::Up,
            status == BoxStatus::Saved ==> r.1 == BringUp::Resume,
    {
        let subcommand = match status {
            BoxStatus::Saved => BringUp::Resume,
            _ => BringUp::Up,
        };
        (TemporaryPowerOn { status, released: false }, subcommand)
    }

    /// Discharges the obligation and names the restore subcommand to issue:
    /// `halt` for a box that was powered off or aborted, `suspend` for one
    /// that was saved. Can fire only once per guard.
    pub fn release(&mut self) -> (r: Restore)
        requires
            !old(self).is_released(),
        ensures
            final(self).is_released(),
            final(self).original_status() == old(self).original_status(),
            r == spec_restore(old(self).original_status()),
            old(self).original_status() == BoxStatus::PowerOff || old(self).original_status()
                == BoxStatus::Aborted ==> r == Restore::Halt,
            old(self).original_status() == BoxStatus::Saved ==> r == Restore::Suspend,
    {
        self.released = true;
        match self.status {
            BoxStatus::Saved => Restore::Suspend,
            _ => Restore::Halt,
        }
    }
}

/// Every bring-up is paired with the matching restore: `up` with `halt`
/// and `resume` with `suspend`, both determined by the box's original
/// resting state.
pub proof fn lemma_bring_up_restore_pairing(status: BoxStatus)
    requires
        !status.spec_powered_on(),
    ensures
        spec_bring_up(status) == BringUp::Up <==> spec_restore(status) == Restore::Halt,
        spec_bring_up(status) == BringUp::Resume <==> spec_restore(status) == Restore::Suspend,
{
}

} // verus!
