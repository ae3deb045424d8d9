//! The order of a run: lock, fetch, unpack, vendor.
//!
//! The work itself (locking, the network, the disk) is done outside; this
//! module decides what comes next. A run is driven by calling [`advance`]
//! with the stage it is in and the event that the last command ended with.

use vstd::prelude::*;
use crate::error::ErrorKind;

verus! {

/// Where a run stands: what it is waiting for.
#[derive(Debug, Clone, Copy, PartialEq, Eq, Structural)]
pub enum Stage {
    /// Nothing has been asked for yet.
    Start,
    /// Waiting for the lock on the cache.
    Locking,
    /// Waiting to learn whether the archive is in the cache.
    ProbingArchive,
    /// Waiting for the registry's answer.
    Downloading,
    /// Waiting for the archive to be stored in the cache.
    StoringArchive,
    /// Waiting to learn whether the pristine tree is in the cache.
    ProbingPristine,
    /// Waiting for the archive to be unpacked.
    Unpacking,
    /// Waiting for the manifests to be merged and the trees synchronized.
    Vendoring,
    /// The run is over.
    Finished,
}

/// What the last command ended with.
#[derive(Debug, Clone, Copy, PartialEq, Eq, Structural)]
pub enum Event {
    /// The run begins.
    Begin,
    /// The lock was taken.
    LockAcquired,
    /// Another run holds the lock.
    LockBusy,
    /// What was probed for is in the cache.
    Present,
    /// What was probed for is not in the cache.
    Missing,
    /// The registry answered with this status and a body read in full.
    Response { status: u16 },
    /// The registry could not be reached, or its answer broke off.
    TransportFailed,
    /// The command succeeded.
    Completed,
    /// The command failed in this way.
    Failed { kind: ErrorKind },
}

/// What to do next.
#[derive(Debug, Clone, Copy, PartialEq, Eq, Structural)]
pub enum Command {
    /// Try to take the lock on the cache, without waiting.
    TryLock,
    /// Look for the archive in the cache.
    ProbeArchive,
    /// Ask the registry for the archive, once.
    Download,
    /// Store the body of the registry's answer in the cache.
    StoreArchive,
    /// Look for the pristine tree in the cache.
    ProbePristine,
    /// Unpack the archive into the cache.
    Unpack,
    /// Merge the manifests and synchronize the trees.
    Vendor,
    /// Hand out what the working tree holds, and end the run.
    Emit,
    /// End the run with this failure.
    Abort { kind: ErrorKind },
    /// Go on waiting: the event is none that the stage waits for.
    Wait,
}

/// The status with which a registry delivers an archive.
pub const STATUS_OK: u16 = 200;

/// The stage and the command that follow a stage and an event.
pub open spec fn transition(stage: Stage, event: Event) -> (Stage, Command) {
    match (stage, event) {
        (Stage::Start, Event::Begin) => (Stage::Locking, Command::TryLock),
        (Stage::Locking, Event::LockAcquired) => (Stage::ProbingArchive, Command::ProbeArchive),
        (Stage::Locking, Event::LockBusy) => (Stage::Finished, Command::Emit),
        (Stage::ProbingArchive, Event::Present) => (Stage::ProbingPristine, Command::ProbePristine),
        (Stage::ProbingArchive, Event::Missing) => (Stage::Downloading, Command::Download),
        (Stage::Downloading, Event::Response { status }) => if status == STATUS_OK {
            (Stage::StoringArchive, Command::StoreArchive)
        } else {
            (Stage::Finished, Command::Abort { kind: ErrorKind::NetworkFailure })
        },
        (Stage::Downloading, Event::TransportFailed) => (
            Stage::Finished,
            Command::Abort { kind: ErrorKind::NetworkFailure },
        ),
        (Stage::StoringArchive, Event::Completed) => (
            Stage::ProbingPristine,
            Command::ProbePristine,
        ),
        (Stage::ProbingPristine, Event::Present) => (Stage::Vendoring, Command::Vendor),
        (Stage::ProbingPristine, Event::Missing) => (Stage::Unpacking, Command::Unpack),
        (Stage::Unpacking, Event::Completed) => (Stage::Vendoring, Command::Vendor),
        (Stage::Unpacking, Event::Failed { kind }) => (
            Stage::Finished,
            Command::Abort { kind: ErrorKind::ArchiveCorrupt },
        ),
        (Stage::Vendoring, Event::Completed) => (Stage::Finished, Command::Emit),
        (Stage::Finished, _) => (Stage::Finished, Command::Wait),
        (_, Event::Failed { kind }) => (Stage::Finished, Command::Abort { kind }),
        _ => (stage, Command::Wait),
    }
}

/// Decides what comes next.
pub fn advance(stage: Stage, event: Event) -> (next: (Stage, Command))
    ensures
        next == transition(stage, event),
{
    match (stage, event) {
        (Stage::Start, Event::Begin) => (Stage::Locking, Command::TryLock),
        (Stage::Locking, Event::LockAcquired) => (Stage::ProbingArchive, Command::ProbeArchive),
        (Stage::Locking, Event::LockBusy) => (Stage::Finished, Command::Emit),
        (Stage::ProbingArchive, Event::Present) => (Stage::ProbingPristine, Command::ProbePristine),
        (Stage::ProbingArchive, Event::Missing) => (Stage::Downloading, Command::Download),
        (Stage::Downloading, Event::Response { status }) => {
            if status == STATUS_OK {
                (Stage::StoringArchive, Command::StoreArchive)
            } else {
                (Stage::Finished, Command::Abort { kind: ErrorKind::NetworkFailure })
            }
        },
        (Stage::Downloading, Event::TransportFailed) => (
            Stage::Finished,
            Command::Abort { kind: ErrorKind::NetworkFailure },
        ),
        (Stage::StoringArchive, Event::Completed) => (
            Stage::ProbingPristine,
            Command::ProbePristine,
        ),
        (Stage::ProbingPristine, Event::Present) => (Stage::Vendoring, Command::Vendor),
        (Stage::ProbingPristine, Event::Missing) => (Stage::Unpacking, Command::Unpack),
        (Stage::Unpacking, Event::Completed) => (Stage::Vendoring, Command::Vendor),
        (Stage::Unpacking, Event::Failed { kind }) => (
            Stage::Finished,
            Command::Abort { kind: ErrorKind::ArchiveCorrupt },
        ),
        (Stage::Vendoring, Event::Completed) => (Stage::Finished, Command::Emit),
        (Stage::Finished, _) => (Stage::Finished, Command::Wait),
        (_, Event::Failed { kind }) => (Stage::Finished, Command::Abort { kind }),
        _ => (stage, Command::Wait),
    }
}

} // verus!
