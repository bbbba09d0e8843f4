//! Phases of the kernel-side probes from user space: loading, attachment,
//! and when they let table operations through.
use vstd::prelude::*;

verus! {

/// Phase of the kernel program: `Loaded` and `LoadFailed` are terminal.
#[derive(Clone, Copy, Debug, PartialEq, Eq, Structural)]
pub enum LoadPhase {
    Unloaded,
    Loading,
    Loaded,
    LoadFailed,
}

/// Refusal of a loader operation.
#[derive(Clone, Copy, Debug, PartialEq, Eq, Structural)]
pub enum LoaderError {
    /// A load was already started; no retry is made.
    AlreadyStarted,
    /// No load is in progress.
    NotLoading,
    /// The program is not loaded: the tables are unavailable.
    NotLoaded,
}

/// The loader's phase, held under the loader lock.
pub struct LoaderState {
    phase: LoadPhase,
}

impl LoaderState {
    pub closed spec fn phase_spec(&self) -> LoadPhase {
        self.phase
    }

    /// A loader that has not tried to load.
    pub fn new() -> (r: LoaderState)
        ensures
            r.phase_spec() == LoadPhase::Unloaded,
    {
        LoaderState { phase: LoadPhase::Unloaded }
    }

    pub fn phase(&self) -> (r: LoadPhase)
        ensures
            r == self.phase_spec(),
    {
        self.phase
    }

    /// Starts the one load attempt.
    pub fn begin_load(&mut self) -> (r: Result<(), LoaderError>)
        ensures
            old(self).phase_spec() == LoadPhase::Unloaded ==> r is Ok && final(self).phase_spec()
                == LoadPhase::Loading,
            old(self).phase_spec() != LoadPhase::Unloaded ==> r == Err::<(), LoaderError>(
                LoaderError::AlreadyStarted,
            ) && final(self).phase_spec() == old(self).phase_spec(),
    {
        match self.phase {
            LoadPhase::Unloaded => {
                self.phase = LoadPhase::Loading;
                Ok(())
            },
            _ => Err(LoaderError::AlreadyStarted),
        }
    }

    /// Ends the load attempt: `attached` tells whether the image was parsed
    /// and both probes were found and attached.
    pub fn finish_load(&mut self, attached: bool) -> (r: Result<(), LoaderError>)
        ensures
            old(self).phase_spec() == LoadPhase::Loading ==> r is Ok && final(self).phase_spec() == (
            if attached {
                LoadPhase::Loaded
            } else {
                LoadPhase::LoadFailed
            }),
            old(self).phase_spec() != LoadPhase::Loading ==> r == Err::<(), LoaderError>(
                LoaderError::NotLoading,
            ) && final(self).phase_spec() == old(self).phase_spec(),
    {
        match self.phase {
            LoadPhase::Loading => {
                self.phase = if attached {
                    LoadPhase::Loaded
                } else {
                    LoadPhase::LoadFailed
                };
                Ok(())
            },
            _ => Err(LoaderError::NotLoading),
        }
    }

    /// Whether table operations may go ahead: only once the program is loaded.
    pub fn tables_available(&self) -> (r: Result<(), LoaderError>)
        ensures
            r is Ok <==> self.phase_spec() == LoadPhase::Loaded,
            r matches Err(e) ==> e == LoaderError::NotLoaded,
    {
        match self.phase {
            LoadPhase::Loaded => Ok(()),
            _ => Err(LoaderError::NotLoaded),
        }
    }
}

} // verus!
