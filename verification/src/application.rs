//! The shared application state: one table registry for the whole
//! process, behind a reader-writer lock, so that concurrent request
//! handlers serialize every access and never observe a table
//! mid-mutation.

use vstd::prelude::*;
use vstd::rwlock::RwLock;

use crate::model::Table;
use crate::model::TableError;
use crate::model::TableView;
use crate::ChangeTableDTO;
use crate::CreateTableBody;
use crate::TableService;

verus! {

/// Holds the process-wide [`TableService`] behind a reader-writer lock
/// whose invariant is the registry's own; every operation is one
/// critical section, so a failed request leaves the registry exactly as
/// it was and no caller sees a half-applied mutation.
pub struct TableAppState {
    table_service: RwLock<TableService, spec_fn(TableService) -> bool>,
}

impl TableAppState {
    /// The lock stores exactly the registries that satisfy the registry
    /// invariant.
    #[verifier::type_invariant]
    spec fn guarded(self) -> bool {
        forall|s: TableService| #[trigger] self.table_service.inv(s) == s.inv()
    }

    /// A fresh state holding an empty registry.
    pub fn new() -> (st: TableAppState) {
        TableAppState {
            table_service: RwLock::new(TableService::new(), Ghost(|s: TableService| s.inv())),
        }
    }

    /// Registers a fresh all-empty table of the requested dimensions
    /// under `dto.id`, replacing any table already carrying that
    /// identifier, atomically with respect to other handlers, and
    /// returns a snapshot of the fresh table. Never fails.
    pub fn create_table(&self, dto: CreateTableBody) -> (r: Result<Table, TableError>)
        ensures
            r matches Ok(t) && t@ == TableView::init(
                dto.id@,
                dto.size_y as nat,
                dto.size_x as nat,
            ),
    {
        proof {
            use_type_invariant(self);
        }
        let (mut service, handle) = self.table_service.acquire_write();
        let r = service.create_table(dto);
        handle.release_write(service);
        r
    }

    /// Returns a snapshot of the table registered under `table_id` at
    /// some instant between the call and the return, or `NotFound` if at
    /// that instant no table carried the identifier.
    pub fn get_table(&self, table_id: String) -> (r: Result<Table, TableError>)
        ensures
            r matches Ok(t) ==> t@.wf() && t@.id == table_id@,
            r matches Err(e) ==> e == TableError::NotFound,
    {
        proof {
            use_type_invariant(self);
        }
        let handle = self.table_service.acquire_read();
        let r = handle.borrow().get_table(table_id);
        handle.release_read();
        r
    }

    /// Overwrites one cell of the table registered under `dto.id`,
    /// atomically with respect to other handlers; on `NotFound` or
    /// `OutOfBounds` the registry is left exactly as the critical
    /// section found it.
    pub fn change_table(&self, dto: ChangeTableDTO) -> (r: Result<(), TableError>) {
        proof {
            use_type_invariant(self);
        }
        let (mut service, handle) = self.table_service.acquire_write();
        let r = service.change_table(dto);
        handle.release_write(service);
        r
    }
}

} // verus!
