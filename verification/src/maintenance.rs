//! The maintenance loop: once in every interval both tables are compacted.
//! A failure of either compaction is passed over.

use crate::storage::file_contents::{ContentsStatement, FileContentsRepo};
use crate::storage::files::{FilesRepo, FilesStatement};
use vstd::prelude::*;

verus! {

/// The seconds between two rounds of compaction.
pub const MAINTENANCE_INTERVAL_SECS: u64 = 3600;

/// What the loop does next.
#[derive(Debug)]
pub enum MaintenanceAction {
    /// Compact the file catalog, then come back.
    OptimizeFiles(FilesStatement),
    /// Compact the chunk store, then come back.
    OptimizeContents(ContentsStatement),
    /// Sleep, then come back.
    Sleep { secs: u64 },
}

/// The step of the round that comes next.
#[derive(Clone, Copy, Debug, PartialEq, Eq, Structural)]
pub enum MaintenanceState {
    Files,
    Contents,
    Rest,
}

/// The loop: from the step that is due, the step after it and what to do
/// now. Whether the last action succeeded plays no part.
pub open spec fn maintenance_next(state: MaintenanceState) -> (MaintenanceState, MaintenanceAction) {
    match state {
        MaintenanceState::Files => (
            MaintenanceState::Contents,
            MaintenanceAction::OptimizeFiles(FilesStatement::Optimize),
        ),
        MaintenanceState::Contents => (
            MaintenanceState::Rest,
            MaintenanceAction::OptimizeContents(ContentsStatement::Optimize),
        ),
        MaintenanceState::Rest => (
            MaintenanceState::Files,
            MaintenanceAction::Sleep { secs: MAINTENANCE_INTERVAL_SECS },
        ),
    }
}

/// One step of the loop.
pub fn maintenance_step(state: MaintenanceState) -> (step: (MaintenanceState, MaintenanceAction))
    ensures
        step == maintenance_next(state),
{
    match state {
        MaintenanceState::Files => (
            MaintenanceState::Contents,
            MaintenanceAction::OptimizeFiles(FilesStatement::Optimize),
        ),
        MaintenanceState::Contents => (
            MaintenanceState::Rest,
            MaintenanceAction::OptimizeContents(ContentsStatement::Optimize),
        ),
        MaintenanceState::Rest => (
            MaintenanceState::Files,
            MaintenanceAction::Sleep { secs: MAINTENANCE_INTERVAL_SECS },
        ),
    }
}

/// One round of compaction on the stores in memory: no row is lost or
/// changed.
pub fn run_maintenance(files: &mut FilesRepo, contents: &mut FileContentsRepo)
    ensures
        final(files)@ == old(files)@,
        final(contents)@ == old(contents)@,
{
    let mut state = MaintenanceState::Files;
    let mut rounds: u8 = 0;
    while rounds < 2
        invariant
            rounds <= 2,
            rounds == 0 ==> state == MaintenanceState::Files,
            rounds == 1 ==> state == MaintenanceState::Contents,
            files@ == old(files)@,
            contents@ == old(contents)@,
        decreases 2 - rounds,
    {
        let (next, action) = maintenance_step(state);
        match action {
            MaintenanceAction::OptimizeFiles(statement) => {
                let done = files.execute(&statement);
            },
            MaintenanceAction::OptimizeContents(statement) => {
                let no_distances: Vec<u32> = Vec::new();
                let done = contents.execute(&statement, &no_distances);
            },
            MaintenanceAction::Sleep { .. } => {},
        }
        state = next;
        rounds = rounds + 1;
    }
}

} // verus!
