//! Partitions of the entity-id space and the map that allocates from them.

use vstd::prelude::*;
use crate::types::{Entid, USER0, TX0, MAX_ENTID};

verus! {

/// A named, bounded range of entity-id space with a monotone
/// next-allocation cursor.
#[derive(Clone, Copy, Debug, PartialEq, Eq, Structural)]
pub struct Partition {
    /// First id of the allocated range.
    pub start: Entid,
    /// One past the last id this partition may ever hand out.
    pub end: Entid,
    /// The next id to hand out; ids in `start .. index` are allocated.
    pub index: Entid,
}

impl Partition {
    /// The allocation cursor lies inside the partition's range.
    pub open spec fn wf(self) -> bool {
        0 <= self.start <= self.index <= self.end
    }

    /// Whether `e` has already been handed out by this partition.
    pub open spec fn spec_allocated(self, e: Entid) -> bool {
        self.start <= e < self.index
    }

    /// Whether `e` has already been handed out by this partition.
    pub fn allocated(&self, e: Entid) -> (r: bool)
        ensures
            r == self.spec_allocated(e),
    {
        self.start <= e && e < self.index
    }
}

/// The partition map: the three partitions of the store, each allocating
/// its own region of entity-id space.
///
/// The `:db.part/db` partition holds the bootstrapped system entities; the
/// `:db.part/user` partition holds user entities; the `:db.part/tx`
/// partition holds one entity per transaction. The user and transaction
/// partitions share a base id, so entity references are resolved against
/// the database and user partitions alone.
#[derive(Clone, Copy, Debug, PartialEq, Eq, Structural)]
pub struct PartitionMap {
    pub db: Partition,
    pub user: Partition,
    pub tx: Partition,
}

impl PartitionMap {
    /// Ranges are well formed and laid out as the bootstrap fixes them:
    /// system ids below `USER0`, user and transaction ids above.
    pub open spec fn wf(self) -> bool {
        &&& self.db.wf()
        &&& self.user.wf()
        &&& self.tx.wf()
        &&& self.db.start == 0
        &&& self.db.end == USER0
        &&& self.user.start == USER0
        &&& self.user.end == MAX_ENTID
        &&& self.tx.start == TX0
        &&& self.tx.end == MAX_ENTID
    }

    /// Whether a caller may name `e` as an existing entity: `e` lies in
    /// the allocated region of the database or user partition.
    pub open spec fn spec_allocated(self, e: Entid) -> bool {
        self.db.spec_allocated(e) || self.user.spec_allocated(e)
    }

    /// Whether a caller may name `e` as an existing entity.
    pub fn allocated(&self, e: Entid) -> (r: bool)
        ensures
            r == self.spec_allocated(e),
    {
        self.db.allocated(e) || self.user.allocated(e)
    }

    /// Hand out `n` consecutive fresh ids from the user partition,
    /// returning the first.
    pub fn allocate_user(&mut self, n: usize) -> (r: Result<Entid, crate::types::StoreError>)
        requires
            old(self).wf(),
        ensures
            final(self).wf(),
            final(self).db == old(self).db,
            final(self).tx == old(self).tx,
            final(self).user.start == old(self).user.start,
            final(self).user.end == old(self).user.end,
            match r {
                Ok(first) => {
                    &&& first == old(self).user.index
                    &&& final(self).user.index == old(self).user.index + n
                },
                Err(e) => {
                    &&& e == crate::types::StoreError::DbError(
                        crate::types::DbErrorKind::PartitionExhausted,
                    )
                    &&& *final(self) == *old(self)
                },
            },
    {
        let first = self.user.index;
        let room = (self.user.end - self.user.index) as usize;
        if n <= room {
            self.user.index = self.user.index + n as i64;
            Ok(first)
        } else {
            Err(crate::types::StoreError::DbError(crate::types::DbErrorKind::PartitionExhausted))
        }
    }

    /// Hand out one fresh transaction id.
    pub fn allocate_tx(&mut self) -> (r: Result<Entid, crate::types::StoreError>)
        requires
            old(self).wf(),
        ensures
            final(self).wf(),
            final(self).db == old(self).db,
            final(self).user == old(self).user,
            final(self).tx.start == old(self).tx.start,
            final(self).tx.end == old(self).tx.end,
            match r {
                Ok(id) => {
                    &&& id == old(self).tx.index
                    &&& final(self).tx.index == old(self).tx.index + 1
                },
                Err(e) => {
                    &&& e == crate::types::StoreError::DbError(
                        crate::types::DbErrorKind::PartitionExhausted,
                    )
                    &&& *final(self) == *old(self)
                },
            },
    {
        if self.tx.index < self.tx.end {
            let id = self.tx.index;
            self.tx.index = self.tx.index + 1;
            Ok(id)
        } else {
            Err(crate::types::StoreError::DbError(crate::types::DbErrorKind::PartitionExhausted))
        }
    }

    /// Look a partition up under its well-known name.
    pub fn get(&self, name: &str) -> (r: Option<&Partition>)
        ensures
            name@ == ":db.part/db"@ ==> r == Some(&self.db),
            name@ == ":db.part/user"@ ==> r == Some(&self.user),
            name@ == ":db.part/tx"@ ==> r == Some(&self.tx),
    {
        proof {
            reveal_strlit(":db.part/db");
            reveal_strlit(":db.part/user");
            reveal_strlit(":db.part/tx");
            assert(":db.part/db"@.len() == 11);
            assert(":db.part/user"@.len() == 13);
            assert(":db.part/tx"@.len() == 11);
            assert(":db.part/db"@[9] == 'd');
            assert(":db.part/tx"@[9] == 't');
        }
        let owned = name.to_owned();
        if owned == String::from_str(":db.part/db") {
            Some(&self.db)
        } else if owned == String::from_str(":db.part/user") {
            Some(&self.user)
        } else if owned == String::from_str(":db.part/tx") {
            Some(&self.tx)
        } else {
            None
        }
    }
}

/// The partition map of a freshly bootstrapped store: system ids up to
/// `next_db` handed out, no user entities, and the bootstrap transaction
/// itself already allocated.
pub open spec fn spec_bootstrap_partition_map(next_db: Entid) -> PartitionMap {
    PartitionMap {
        db: Partition { start: 0, end: USER0, index: next_db },
        user: Partition { start: USER0, end: MAX_ENTID, index: USER0 },
        tx: Partition { start: TX0, end: MAX_ENTID, index: (TX0 + 1) as i64 },
    }
}

/// The partition map of a freshly bootstrapped store.
pub fn bootstrap_partition_map(next_db: Entid) -> (r: PartitionMap)
    requires
        0 <= next_db <= USER0,
    ensures
        r == spec_bootstrap_partition_map(next_db),
        r.wf(),
{
    PartitionMap {
        db: Partition { start: 0, end: USER0, index: next_db },
        user: Partition { start: USER0, end: MAX_ENTID, index: USER0 },
        tx: Partition { start: TX0, end: MAX_ENTID, index: TX0 + 1 },
    }
}

} // verus!
