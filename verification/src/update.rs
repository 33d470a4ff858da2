//! The steps of writing new charge thresholds with root rights: ask for the
//! password, run the first write, then the last one. Each step is performed
//! by the caller, which reports whether it succeeded.

use vstd::prelude::*;
use crate::battery::{spec_write_order, tee_command, threshold_property, wanted_threshold, Battery};
use crate::decimal::decimal_digits;

verus! {

/// Where an update of the thresholds stands.
#[derive(Debug, Clone, Copy, PartialEq, Eq, Structural)]
pub enum UpdateStep {
    /// The password is to be asked for.
    AskPassword,
    /// The first threshold write is to be run.
    WriteFirst,
    /// The last threshold write is to be run.
    WriteLast,
    /// Both writes were run.
    Done,
    /// Asking for the password failed; nothing was written.
    PasswordFailed,
    /// The first write failed; the last one was not run.
    FirstWriteFailed,
}

/// The step after `step` when performing it succeeded or not. A failed
/// password prompt or first write ends the update; the last write ends it
/// whatever its outcome; an ended update stays ended.
pub open spec fn spec_next_step(step: UpdateStep, succeeded: bool) -> UpdateStep {
    match step {
        UpdateStep::AskPassword => if succeeded {
            UpdateStep::WriteFirst
        } else {
            UpdateStep::PasswordFailed
        },
        UpdateStep::WriteFirst => if succeeded {
            UpdateStep::WriteLast
        } else {
            UpdateStep::FirstWriteFailed
        },
        UpdateStep::WriteLast => UpdateStep::Done,
        _ => step,
    }
}

/// The update has ended.
pub open spec fn is_finished(step: UpdateStep) -> bool {
    step == UpdateStep::Done || step == UpdateStep::PasswordFailed || step
        == UpdateStep::FirstWriteFailed
}

impl UpdateStep {
    /// The step an update starts at.
    pub fn start() -> (r: UpdateStep)
        ensures
            r == UpdateStep::AskPassword,
    {
        UpdateStep::AskPassword
    }

    /// The step after this one, given whether performing it succeeded.
    pub fn next(self, succeeded: bool) -> (r: UpdateStep)
        ensures
            r == spec_next_step(self, succeeded),
    {
        match self {
            UpdateStep::AskPassword => if succeeded {
                UpdateStep::WriteFirst
            } else {
                UpdateStep::PasswordFailed
            },
            UpdateStep::WriteFirst => if succeeded {
                UpdateStep::WriteLast
            } else {
                UpdateStep::FirstWriteFailed
            },
            UpdateStep::WriteLast => UpdateStep::Done,
            other => other,
        }
    }

    /// Whether the update has ended: no further step changes it.
    pub fn finished(&self) -> (r: bool)
        ensures
            r == is_finished(*self),
            r ==> spec_next_step(*self, true) == *self && spec_next_step(*self, false) == *self,
            !r ==> spec_next_step(*self, true) != *self,
    {
        proof {
            law_finished_is_fixed_point(*self);
        }
        match self {
            UpdateStep::Done | UpdateStep::PasswordFailed | UpdateStep::FirstWriteFailed => true,
            _ => false,
        }
    }
}

impl Battery {
    /// The command that a write step runs: the first or the last of the
    /// threshold commands; no command for the other steps.
    pub fn update_command(&self, step: UpdateStep) -> (r: Option<String>)
        ensures
            step == UpdateStep::WriteFirst ==> (r matches Some(c) && c@ == tee_command(
                decimal_digits(wanted_threshold(*self, spec_write_order(*self).0) as nat),
                self.bat_name@,
                threshold_property(spec_write_order(*self).0),
            )),
            step == UpdateStep::WriteLast ==> (r matches Some(c) && c@ == tee_command(
                decimal_digits(wanted_threshold(*self, spec_write_order(*self).1) as nat),
                self.bat_name@,
                threshold_property(spec_write_order(*self).1),
            )),
            step != UpdateStep::WriteFirst && step != UpdateStep::WriteLast ==> r is None,
            r is Some ==> !is_finished(step),
    {
        proof {
            law_finished_is_fixed_point(step);
        }
        match step {
            UpdateStep::WriteFirst => {
                let (first, _) = self.threshold_commands();
                Some(first)
            },
            UpdateStep::WriteLast => {
                let (_, last) = self.threshold_commands();
                Some(last)
            },
            _ => None,
        }
    }
}

/// An update ends within three steps whatever the outcomes, and the last
/// write runs only after the password and the first write succeeded.
pub proof fn law_update_ends(a: bool, b: bool, c: bool)
    ensures
        is_finished(spec_next_step(spec_next_step(spec_next_step(UpdateStep::AskPassword, a), b), c)),
        spec_next_step(spec_next_step(UpdateStep::AskPassword, a), b) == UpdateStep::WriteLast
            <==> a && b,
{
}

/// The update has ended exactly at the steps that no outcome changes; a
/// step that still has something to run is not an end.
pub proof fn law_finished_is_fixed_point(step: UpdateStep)
    ensures
        is_finished(step) <==> (spec_next_step(step, true) == step && spec_next_step(step, false)
            == step),
        !is_finished(step) ==> spec_next_step(step, true) != step,
        step == UpdateStep::AskPassword || step == UpdateStep::WriteFirst || step
            == UpdateStep::WriteLast ==> !is_finished(step),
{
}

/// Where each step of an update comes from: the update starts at the
/// password prompt and never returns there; the first write follows only a
/// given password, the last write only a successful first write; running
/// the last write always ends the update as done; a failed password or first
/// write is reported only when that step failed; an ended update stays where
/// it ended.
pub proof fn law_update_outcomes(step: UpdateStep, succeeded: bool)
    ensures
        spec_next_step(step, succeeded) != UpdateStep::AskPassword,
        spec_next_step(step, succeeded) == UpdateStep::WriteFirst <==> step == UpdateStep::AskPassword
            && succeeded,
        spec_next_step(step, succeeded) == UpdateStep::WriteLast <==> step == UpdateStep::WriteFirst
            && succeeded,
        spec_next_step(UpdateStep::WriteLast, succeeded) == UpdateStep::Done,
        spec_next_step(step, succeeded) == UpdateStep::Done <==> step == UpdateStep::WriteLast || step
            == UpdateStep::Done,
        spec_next_step(step, succeeded) == UpdateStep::PasswordFailed <==> (step
            == UpdateStep::AskPassword && !succeeded) || step == UpdateStep::PasswordFailed,
        spec_next_step(step, succeeded) == UpdateStep::FirstWriteFailed <==> (step
            == UpdateStep::WriteFirst && !succeeded) || step == UpdateStep::FirstWriteFailed,
{
}

} // verus!
