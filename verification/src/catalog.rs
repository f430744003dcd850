//! A model of the catalog as seen by the coordinator: the set of live
//! objects, each with a stable id and a name, and a revision counter that is
//! bumped on every committed change. Plan validity snapshots are re-checked
//! against this state before any suspended statement stage is resumed.

use vstd::prelude::*;

use crate::error::AdapterError;

verus! {

/// Stable identifier of a catalog object.
pub type ObjectId = u64;

/// Identifier of an object name (a fully qualified name, interned).
pub type NameId = u64;

/// One live catalog object.
#[derive(Clone, Copy, PartialEq, Eq, Structural, Debug)]
pub struct CatalogObject {
    pub id: ObjectId,
    pub name: NameId,
}

/// The catalog state the coordinator consults: the live objects and the
/// revision at which they were last changed.
#[derive(Clone, Debug)]
pub struct CatalogState {
    pub objects: Vec<CatalogObject>,
    pub revision: u64,
}

impl CatalogState {
    /// Ids are unique and names are unique: the catalog is a function both
    /// from id to object and from name to object.
    pub open spec fn wf(self) -> bool {
        &&& forall|i: int, j: int|
            0 <= i < j < self.objects@.len() ==> self.objects@[i].id != self.objects@[j].id
        &&& forall|i: int, j: int|
            0 <= i < j < self.objects@.len() ==> self.objects@[i].name != self.objects@[j].name
    }

    /// Whether an object with the given id is live.
    pub open spec fn has_object(self, id: ObjectId) -> bool {
        exists|i: int| 0 <= i < self.objects@.len() && self.objects@[i].id == id
    }

    /// Whether some live object bears the given name.
    pub open spec fn has_name(self, name: NameId) -> bool {
        exists|i: int| 0 <= i < self.objects@.len() && self.objects@[i].name == name
    }

    /// The id of the live object with the given name.
    pub open spec fn id_of_name(self, name: NameId) -> ObjectId {
        self.objects@[choose|i: int|
            0 <= i < self.objects@.len() && self.objects@[i].name == name].id
    }

    /// Executable membership test for an object id.
    pub fn object_exists(&self, id: ObjectId) -> (r: bool)
        ensures
            r == self.has_object(id),
    {
        let mut k: usize = 0;
        while k < self.objects.len()
            invariant
                k <= self.objects@.len(),
                forall|i: int| 0 <= i < k ==> self.objects@[i].id != id,
            decreases self.objects@.len() - k,
        {
            if self.objects[k].id == id {
                return true;
            }
            k = k + 1;
        }
        false
    }

    /// Looks the name up among the live objects and returns the id it
    /// resolves to, if any.
    pub fn resolve_name(&self, name: NameId) -> (r: Option<ObjectId>)
        requires
            self.wf(),
        ensures
            r is Some <==> self.has_name(name),
            r is Some ==> r->0 == self.id_of_name(name),
    {
        let mut k: usize = 0;
        while k < self.objects.len()
            invariant
                self.wf(),
                k <= self.objects@.len(),
                forall|i: int| 0 <= i < k ==> self.objects@[i].name != name,
            decreases self.objects@.len() - k,
        {
            if self.objects[k].name == name {
                proof {
                    let j = choose|j: int|
                        0 <= j < self.objects@.len() && self.objects@[j].name == name;
                    assert(j == k);
                }
                return Some(self.objects[k].id);
            }
            k = k + 1;
        }
        None
    }
}

/// A snapshot of the dependency ids of a plan, together with the catalog
/// revision at snapshot time. Before a suspended stage resumes, the snapshot
/// is checked against the live catalog: a vanished dependency is a
/// recoverable staleness, not a hard error.
#[derive(Clone, Debug)]
pub struct PlanValidity {
    pub dependency_ids: Vec<ObjectId>,
    pub revision: u64,
}

impl PlanValidity {
    /// All recorded dependencies are still live in the given catalog.
    pub open spec fn deps_live(self, catalog: CatalogState) -> bool {
        forall|i: int|
            0 <= i < self.dependency_ids@.len() ==> catalog.has_object(self.dependency_ids@[i])
    }

    /// Whether a check against the given catalog succeeds: trivially if the
    /// catalog has not changed since the snapshot, otherwise only if every
    /// recorded dependency is still live.
    pub open spec fn spec_valid(self, catalog: CatalogState) -> bool {
        self.revision == catalog.revision || self.deps_live(catalog)
    }

    /// Re-checks the snapshot against the live catalog. On success the
    /// snapshot's revision advances to the catalog's, so that the next check
    /// against an unchanged catalog is trivial. On failure, reports the first
    /// dependency that is no longer live.
    pub fn check(&mut self, catalog: &CatalogState) -> (r: Result<(), AdapterError>)
        ensures
            r is Ok <==> old(self).spec_valid(*catalog),
            r is Ok ==> *final(self) == (PlanValidity {
                revision: catalog.revision,
                ..*old(self)
            }),
            r is Err ==> *final(self) == *old(self),
            r is Err ==> (r matches Err(AdapterError::StaleDependency(d))
                && !catalog.has_object(d) && final(self).dependency_ids@.contains(d)),
    {
        if self.revision == catalog.revision {
            return Ok(());
        }
        let mut k: usize = 0;
        while k < self.dependency_ids.len()
            invariant
                self.revision != catalog.revision,
                k <= self.dependency_ids@.len(),
                forall|i: int| 0 <= i < k ==> catalog.has_object(self.dependency_ids@[i]),
            decreases self.dependency_ids@.len() - k,
        {
            let d = self.dependency_ids[k];
            if !catalog.object_exists(d) {
                return Err(AdapterError::StaleDependency(d));
            }
            k = k + 1;
        }
        self.revision = catalog.revision;
        Ok(())
    }
}

} // verus!
