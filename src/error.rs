use vstd::prelude::*;

verus! {

/// Every way a replay run can fail. Each failure is terminal.
#[derive(Clone, Copy, Debug, PartialEq, Eq, Structural)]
pub enum ReplayError {
    /// The staging directory for a clone exists and is not empty.
    DestinationNotEmpty,
    /// Cloning the remote source failed.
    CloneFailure,
    /// The resolved source has no version-control metadata directory.
    NotAVersionControlledRepository,
    /// The history query failed or its output is not text.
    HistoryQueryFailure,
    /// Checking out a revision in the source working copy failed.
    CheckoutFailure,
    /// Copying the source tree into the destination failed.
    CopyFailure,
    /// Staging the destination's files failed.
    StageFailure,
    /// Creating the destination commit failed.
    CommitFailure,
    /// Initializing or configuring the destination failed.
    ConfigurationFailure,
}

impl ReplayError {
    /// A short description naming the step that failed.
    pub fn describe(&self) -> (r: &'static str)
        ensures
            *self == ReplayError::DestinationNotEmpty ==> r@ == "staging directory is not empty"@,
            *self == ReplayError::CloneFailure ==> r@ == "failed to clone the source repository"@,
            *self == ReplayError::NotAVersionControlledRepository ==> r@ == "source is not a git repository"@,
            *self == ReplayError::HistoryQueryFailure ==> r@ == "failed to read the source history"@,
            *self == ReplayError::CheckoutFailure ==> r@ == "failed to check out a revision"@,
            *self == ReplayError::CopyFailure ==> r@ == "failed to copy the source tree"@,
            *self == ReplayError::StageFailure ==> r@ == "failed to stage the destination files"@,
            *self == ReplayError::CommitFailure ==> r@ == "failed to commit in the destination"@,
            *self == ReplayError::ConfigurationFailure ==> r@ == "failed to set up the destination"@,
    {
        match self {
            ReplayError::DestinationNotEmpty => "staging directory is not empty",
            ReplayError::CloneFailure => "failed to clone the source repository",
            ReplayError::NotAVersionControlledRepository => "source is not a git repository",
            ReplayError::HistoryQueryFailure => "failed to read the source history",
            ReplayError::CheckoutFailure => "failed to check out a revision",
            ReplayError::CopyFailure => "failed to copy the source tree",
            ReplayError::StageFailure => "failed to stage the destination files",
            ReplayError::CommitFailure => "failed to commit in the destination",
            ReplayError::ConfigurationFailure => "failed to set up the destination",
        }
    }
}

} // verus!
