//! Statements as the coordinator core sees them. A raw statement still
//! refers to its dependencies by name; purification and planning resolve
//! those names against the catalog into stable object ids. Purification can
//! both add and remove dependencies, so dependency resolution is always
//! recomputed from the purified form, never reused from an earlier snapshot.

use vstd::prelude::*;

use crate::catalog::{CatalogState, NameId, ObjectId};
use crate::error::AdapterError;

verus! {

/// The kind of a planned statement, as far as the dispatch logic tells kinds
/// apart.
#[derive(Clone, Copy, PartialEq, Eq, Structural, Debug)]
pub enum StatementKind {
    /// An ALTER SOURCE statement produced by unifying a purified alteration.
    AlterSource,
    /// A CREATE SINK statement produced by unifying a purified sink creation.
    CreateSink,
    /// Any other statement, identified by an opaque tag.
    Generic(u64),
}

/// A statement whose names have been resolved: it carries the ids of the
/// objects it mentions.
#[derive(Clone, PartialEq, Eq, Debug)]
pub struct Statement {
    pub kind: StatementKind,
    pub resolved_deps: Vec<ObjectId>,
}

/// A statement as the client submitted it, before purification: its
/// dependencies are names, not ids, so re-planning it resolves them against
/// the catalog as it stands now.
#[derive(Clone, PartialEq, Eq, Debug)]
pub struct RawStatement {
    pub tag: u64,
    pub depends_on_names: Vec<NameId>,
}

/// The result of purifying a statement against the external system it
/// touches. Alterations of a source and creations of a sink resolve to one
/// unified planned form downstream, whose dependencies are recomputed from
/// the unified statement: purification can both add and remove dependencies.
#[derive(Clone, Debug)]
pub enum PurifiedStatement {
    /// A CREATE SOURCE with its progress subsource and further subsources.
    PurifiedCreateSource {
        progress_stmt: Statement,
        source_stmt: Statement,
        subsources: Vec<u64>,
    },
    /// An ALTER SOURCE that adds subsources to an existing source.
    PurifiedAlterSourceAddSubsources { source_name: NameId, subsources: Vec<u64> },
    /// An ALTER SOURCE resolving to the unified dependency-visitation step.
    PurifiedAlterSource { alter_source_stmt: Statement },
    /// A CREATE SINK resolving to the unified dependency-visitation step.
    PurifiedCreateSink { create_sink_stmt: Statement },
}

/// A sequence of ids in strictly increasing order (sorted, no duplicates).
pub open spec fn sorted_strict(s: Seq<ObjectId>) -> bool {
    forall|i: int, j: int| 0 <= i < j < s.len() ==> s[i] < s[j]
}

/// Inserts an id into a strictly sorted vector, keeping it strictly sorted;
/// an id already present is left alone.
pub(crate) fn insert_sorted_unique(v: &mut Vec<ObjectId>, x: ObjectId)
    requires
        sorted_strict(old(v)@),
    ensures
        sorted_strict(final(v)@),
        forall|y: ObjectId| final(v)@.contains(y) <==> (old(v)@.contains(y) || y == x),
{
    let mut k: usize = 0;
    while k < v.len() && v[k] < x
        invariant
            sorted_strict(v@),
            v == old(v),
            k <= v@.len(),
            forall|i: int| 0 <= i < k ==> v@[i] < x,
        decreases v@.len() - k,
    {
        k = k + 1;
    }
    if k < v.len() && v[k] == x {
        proof {
            assert(v@.contains(x));
        }
        return;
    }
    v.insert(k, x);
    proof {
        assert forall|y: ObjectId| final(v)@.contains(y) implies (old(v)@.contains(y) || y == x) by {
            let i = choose|i: int| 0 <= i < v@.len() && v@[i] == y;
            if i < k {
                assert(old(v)@[i] == y);
            } else if i > k {
                assert(old(v)@[i - 1] == y);
            }
        }
        assert forall|y: ObjectId| (old(v)@.contains(y) || y == x) implies final(v)@.contains(y) by {
            if y == x {
                assert(v@[k as int] == y);
            } else {
                let i = choose|i: int| 0 <= i < old(v)@.len() && old(v)@[i] == y;
                if i < k {
                    assert(v@[i] == y);
                } else {
                    assert(v@[i + 1] == y);
                }
            }
        }
    }
}

/// Collects every dependency id a planned statement mentions, as an ordered
/// set: the result is strictly sorted and holds exactly the ids the
/// statement's resolved dependencies hold.
pub fn visit_dependencies(stmt: &Statement) -> (r: Vec<ObjectId>)
    ensures
        sorted_strict(r@),
        forall|y: ObjectId| r@.contains(y) <==> stmt.resolved_deps@.contains(y),
{
    let mut out: Vec<ObjectId> = Vec::new();
    let mut k: usize = 0;
    while k < stmt.resolved_deps.len()
        invariant
            k <= stmt.resolved_deps@.len(),
            sorted_strict(out@),
            forall|y: ObjectId|
                out@.contains(y) <==> stmt.resolved_deps@.take(k as int).contains(y),
        decreases stmt.resolved_deps@.len() - k,
    {
        let d = stmt.resolved_deps[k];
        insert_sorted_unique(&mut out, d);
        proof {
            assert forall|y: ObjectId|
                stmt.resolved_deps@.take(k + 1 as int).contains(y)
                implies out@.contains(y) by {
                let i = choose|i: int|
                    0 <= i < k + 1 && #[trigger] stmt.resolved_deps@.take(k + 1 as int)[i] == y;
                if i < k {
                    assert(stmt.resolved_deps@.take(k as int)[i] == y);
                }
            }
            assert forall|y: ObjectId|
                out@.contains(y)
                implies stmt.resolved_deps@.take(k + 1 as int).contains(y) by {
                if y != d {
                    let i = choose|i: int|
                        0 <= i < k && stmt.resolved_deps@.take(k as int)[i] == y;
                    assert(stmt.resolved_deps@.take(k + 1 as int)[i] == y);
                } else {
                    assert(stmt.resolved_deps@.take(k + 1 as int)[k as int] == y);
                }
            }
        }
        k = k + 1;
    }
    proof {
        assert(stmt.resolved_deps@.take(k as int) =~= stmt.resolved_deps@);
    }
    out
}

/// Plans a raw statement against the live catalog: every name it depends on
/// is resolved to the id it bears now. Returns the planned statement, or an
/// unknown-object error naming the first name that resolves to nothing.
pub fn plan_raw(catalog: &CatalogState, raw: &RawStatement) -> (r: Result<
    Statement,
    AdapterError,
>)
    requires
        catalog.wf(),
    ensures
        r is Ok <==> (forall|i: int|
            0 <= i < raw.depends_on_names@.len() ==> catalog.has_name(raw.depends_on_names@[i])),
        r matches Ok(s) ==> {
            &&& s.kind == StatementKind::Generic(raw.tag)
            &&& s.resolved_deps@.len() == raw.depends_on_names@.len()
            &&& forall|i: int|
                0 <= i < raw.depends_on_names@.len()
                    ==> s.resolved_deps@[i] == catalog.id_of_name(raw.depends_on_names@[i])
        },
        r matches Err(e) ==> (e matches AdapterError::UnknownObject(n)
            && raw.depends_on_names@.contains(n) && !catalog.has_name(n)),
{
    let mut ids: Vec<ObjectId> = Vec::new();
    let mut k: usize = 0;
    while k < raw.depends_on_names.len()
        invariant
            catalog.wf(),
            k <= raw.depends_on_names@.len(),
            ids@.len() == k,
            forall|i: int| 0 <= i < k ==> catalog.has_name(raw.depends_on_names@[i]),
            forall|i: int|
                0 <= i < k ==> ids@[i] == catalog.id_of_name(raw.depends_on_names@[i]),
        decreases raw.depends_on_names@.len() - k,
    {
        let name = raw.depends_on_names[k];
        match catalog.resolve_name(name) {
            Some(id) => {
                ids.push(id);
            },
            None => {
                return Err(AdapterError::UnknownObject(name));
            },
        }
        k = k + 1;
    }
    Ok(Statement { kind: StatementKind::Generic(raw.tag), resolved_deps: ids })
}

} // verus!
