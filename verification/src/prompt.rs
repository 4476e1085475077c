//! The installer wizard's step sequence and the prompt interface.
//!
//! The wizard walks a strictly linear sequence of steps, each of which fills
//! in part of the installation configuration. The step enumeration and its
//! transitions live here; the interactive front end that realizes them is
//! outside the verified core.

use vstd::prelude::*;
use crate::install::InstallInfo;

verus! {

/// One step of the installation wizard, in its fixed linear order.
#[derive(Clone, Copy, PartialEq, Eq, Structural)]
pub enum InstallStep {
    Welcome,
    Localization,
    SystemInfo,
    CreateAdmin,
    Partitions,
    Install,
    Finished,
}

impl InstallStep {
    /// The position of the step in the wizard's sequence, starting at zero.
    pub fn get_number(&self) -> (n: u32)
        ensures
            n == self.spec_number(),
    {
        match self {
            Self::Welcome => 0,
            Self::Localization => 1,
            Self::SystemInfo => 2,
            Self::CreateAdmin => 3,
            Self::Partitions => 4,
            Self::Install => 5,
            Self::Finished => 6,
        }
    }

    /// The position of the step in the wizard's sequence, starting at zero.
    pub open spec fn spec_number(self) -> u32 {
        match self {
            Self::Welcome => 0,
            Self::Localization => 1,
            Self::SystemInfo => 2,
            Self::CreateAdmin => 3,
            Self::Partitions => 4,
            Self::Install => 5,
            Self::Finished => 6,
        }
    }

    /// The step's display name; the welcome step has none.
    pub fn get_name(&self) -> (r: Option<&'static str>)
        ensures
            self is Welcome <==> r is None,
            self is Localization ==> r == Some("Localization"),
            self is SystemInfo ==> r == Some("System informations"),
            self is CreateAdmin ==> r == Some("Creating administrator user"),
            self is Partitions ==> r == Some("Disk partitions"),
            self is Install ==> r == Some("Installation"),
            self is Finished ==> r == Some("Finished"),
    {
        match self {
            Self::Welcome => None,
            Self::Localization => Some("Localization"),
            Self::SystemInfo => Some("System informations"),
            Self::CreateAdmin => Some("Creating administrator user"),
            Self::Partitions => Some("Disk partitions"),
            Self::Install => Some("Installation"),
            Self::Finished => Some("Finished"),
        }
    }

    /// The step after this one, or `None` after the last step.
    pub open spec fn spec_next(self) -> Option<InstallStep> {
        match self {
            Self::Welcome => Some(Self::Localization),
            Self::Localization => Some(Self::SystemInfo),
            Self::SystemInfo => Some(Self::CreateAdmin),
            Self::CreateAdmin => Some(Self::Partitions),
            Self::Partitions => Some(Self::Install),
            Self::Install => Some(Self::Finished),
            Self::Finished => None,
        }
    }

    /// Returns the step after this one; `None` once the wizard is finished.
    pub fn get_next(&self) -> (r: Option<Self>)
        ensures
            r == self.spec_next(),
    {
        match self {
            Self::Welcome => Some(Self::Localization),
            Self::Localization => Some(Self::SystemInfo),
            Self::SystemInfo => Some(Self::CreateAdmin),
            Self::CreateAdmin => Some(Self::Partitions),
            Self::Partitions => Some(Self::Install),
            Self::Install => Some(Self::Finished),
            Self::Finished => None,
        }
    }
}

/// A proof that the wizard's steps are strictly linear: every transition
/// advances the step number by exactly one, and only the final step has no
/// successor.
pub proof fn lemma_steps_linear(step: InstallStep)
    ensures
        step.spec_next() is None <==> step is Finished,
        step.spec_next() is Some ==> step.spec_next()->0.spec_number() == step.spec_number() + 1,
{
}

/// A prompt front end: one way of asking the user for the informations of
/// the installation. The front end walks the steps in order, filling the
/// installation configuration as it goes.
pub trait InstallPrompt {
    /// Returns the current step.
    /// If the function returns None, the installation is finished.
    fn get_current_step(&self) -> Option<InstallStep>;

    /// Prompts the next step.
    fn next_step(&mut self);

    /// Returns the list of prompted informations.
    fn get_infos(&self) -> &InstallInfo;
}

/// Validates a prompted input, accepting exactly the non-empty ones; no
/// message accompanies the rejection.
pub fn non_empty_validator(input: &str) -> (r: Result<(), Option<String>>)
    ensures
        r is Ok <==> input@.len() > 0,
        r is Err ==> r->Err_0 is None,
{
    if !input.is_empty() {
        Ok(())
    } else {
        Err(None)
    }
}

/// The state of the terminal prompt: the current step and the informations
/// collected so far. The interactive front end drives it step by step.
pub struct TermPrompt {
    /// The current step.
    pub curr_step: Option<InstallStep>,
    /// Install informations.
    pub infos: InstallInfo,
}

impl TermPrompt {
    /// Creates a new instance, at the welcome step with nothing collected.
    pub fn new() -> (r: Self)
        ensures
            r.curr_step == Some(InstallStep::Welcome),
            r.infos.lang is None,
            r.infos.hostname@ == Seq::<char>::empty(),
            r.infos.admin_user@ == Seq::<char>::empty(),
            r.infos.admin_pass@ == Seq::<char>::empty(),
            r.infos.selected_disk@ == Seq::<char>::empty(),
            r.infos.partitions@ == Seq::<crate::install::PartitionDesc>::empty(),
    {
        Self { curr_step: Some(InstallStep::Welcome), infos: InstallInfo::default() }
    }

    /// Returns the current step, or `None` once the wizard is finished.
    pub fn get_current_step(&self) -> (r: Option<InstallStep>)
        ensures
            r == self.curr_step,
    {
        self.curr_step
    }

    /// Returns the informations collected so far.
    pub fn get_infos(&self) -> (r: &InstallInfo)
        ensures
            r == self.infos,
    {
        &self.infos
    }

    /// Moves to the step after the current one; at the last step the
    /// wizard becomes finished.
    pub fn advance_step(&mut self)
        ensures
            old(self).curr_step is Some ==> final(self).curr_step == old(
                self,
            ).curr_step->0.spec_next(),
            old(self).curr_step is None ==> final(self).curr_step is None,
            final(self).infos == old(self).infos,
    {
        match self.curr_step {
            Some(step) => {
                self.curr_step = step.get_next();
            },
            None => {
            },
        }
    }
}

} // verus!
