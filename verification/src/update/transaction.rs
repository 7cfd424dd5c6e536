//! Crash-safe update transaction metadata, small enough to be journalled
//! atomically before boot state changes.

use vstd::prelude::*;
use super::{Slot, SlotState, UpdateError, UpdateManager, UpdateManifest};

verus! {

#[derive(Clone, Copy, Debug, PartialEq, Eq, Structural)]
pub struct Transaction {
    pub target: Slot,
    pub previous: Slot,
    pub generation: u64,
    pub committed: bool,
}

impl Transaction {
    /// Opens a transaction towards the inactive slot for a manifest that is
    /// not older than the running generation.
    pub fn begin(manager: &UpdateManager, target: Slot, manifest: UpdateManifest) -> (r: Result<Transaction, UpdateError>)
        ensures
            target == manager.spec_active() ==> r == Err::<Transaction, UpdateError>(UpdateError::InvalidTransition),
            target != manager.spec_active() && manifest.generation < manager.spec_generation() ==> r == Err::<Transaction, UpdateError>(UpdateError::Downgrade),
            target != manager.spec_active() && manifest.generation >= manager.spec_generation() ==> r == Ok::<Transaction, UpdateError>(Transaction {
                target,
                previous: manager.spec_active(),
                generation: manifest.generation,
                committed: false,
            }),
    {
        if target == manager.active() {
            return Err(UpdateError::InvalidTransition);
        }
        if manifest.generation < manager.generation() {
            return Err(UpdateError::Downgrade);
        }
        Ok(Transaction { target, previous: manager.active(), generation: manifest.generation, committed: false })
    }

    pub fn commit(self) -> (t: Transaction)
        ensures
            t == (Transaction { committed: true, ..self }),
    {
        Transaction { committed: true, ..self }
    }

    /// After a crash, an uncommitted transaction whose target is still
    /// booting is failed and rolled back; anything else is left alone.
    pub fn recover(self, manager: &mut UpdateManager) -> (r: Result<(), UpdateError>)
        ensures
            r == Ok::<(), UpdateError>(()),
            self.committed || old(manager).spec_state(self.target) != SlotState::Booting ==> *final(manager) == *old(manager),
            !self.committed && old(manager).spec_state(self.target) == SlotState::Booting ==> {
                &&& final(manager).spec_active() == super::spec_other(self.target)
                &&& final(manager).spec_generation() == old(manager).spec_generation()
                &&& final(manager).spec_state(self.target) == SlotState::Failed
            },
    {
        if self.committed {
            return Ok(());
        }
        if manager.state(self.target) == SlotState::Booting {
            let _ = manager.mark_failed(self.target);
            manager.rollback(self.target)
        } else {
            Ok(())
        }
    }
}

} // verus!
