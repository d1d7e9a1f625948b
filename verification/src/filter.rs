//! Which diagnostics are tracked: all of them, only the listed ones, or all
//! but the listed ones.

use std::collections::HashSet;
use vstd::prelude::*;
use vstd::std_specs::iter::IteratorSpec;

verus! {

broadcast use vstd::std_specs::hash::group_hash_axioms;

/// Identifier of a diagnostic. The library compares identifiers and never
/// looks inside one.
#[derive(Clone, Copy, Debug, PartialEq, Eq, Structural, Hash)]
pub struct DiagnosticId(pub u128);

impl DiagnosticId {
    /// The identifier with the given value.
    pub fn from_u128(value: u128) -> (id: DiagnosticId)
        ensures
            id.0 == value,
    {
        DiagnosticId(value)
    }

    /// The value of the identifier.
    pub fn as_u128(&self) -> (value: u128)
        ensures
            value == self.0,
    {
        self.0
    }
}

/// The mathematical content of a filter.
pub ghost enum Filter {
    /// Every diagnostic passes.
    All,
    /// Only the listed diagnostics pass.
    Include(Set<u128>),
    /// Every diagnostic but the listed ones passes.
    Exclude(Set<u128>),
}

impl Filter {
    /// Whether the diagnostic `id` passes the filter.
    pub open spec fn admits(self, id: u128) -> bool {
        match self {
            Filter::All => true,
            Filter::Include(ids) => ids.contains(id),
            Filter::Exclude(ids) => !ids.contains(id),
        }
    }

    /// The filter after `id` was asked for: an include list gains `id`, any
    /// other filter becomes the include list of `id` alone.
    pub open spec fn include_id(self, id: u128) -> Filter {
        match self {
            Filter::Include(ids) => Filter::Include(ids.insert(id)),
            _ => Filter::Include(Set::empty().insert(id)),
        }
    }

    /// The filter after `id` was ruled out: an exclude list gains `id`, any
    /// other filter becomes the exclude list of `id` alone.
    pub open spec fn exclude(self, id: u128) -> Filter {
        match self {
            Filter::Exclude(ids) => Filter::Exclude(ids.insert(id)),
            _ => Filter::Exclude(Set::empty().insert(id)),
        }
    }
}

/// An exclude list of one diagnostic passes every diagnostic but that one.
pub proof fn lemma_exclude_one(a: u128, id: u128)
    ensures
        Filter::Exclude(Set::empty().insert(a)).admits(id) <==> id != a,
{
}

/// An include list of one diagnostic passes that diagnostic only.
pub proof fn lemma_include_one(a: u128, id: u128)
    ensures
        Filter::Include(Set::empty().insert(a)).admits(id) <==> id == a,
{
}

/// Asking for a diagnostic on a filter that is no include list drops what the
/// filter held: afterwards exactly that diagnostic passes. Ruling one out on
/// a filter that is no exclude list does the same the other way round.
pub proof fn lemma_switch_discards(filter: Filter, a: u128, id: u128)
    ensures
        !(filter is Include) ==> (filter.include_id(a).admits(id) <==> id == a),
        !(filter is Exclude) ==> (filter.exclude(a).admits(id) <==> id != a),
{
}

/// Adding to a list of the same kind keeps what the list held.
pub proof fn lemma_same_kind_adds(filter: Filter, a: u128, id: u128)
    ensures
        filter is Include ==> (filter.include_id(a).admits(id) <==> id == a || filter.admits(id)),
        filter is Exclude ==> (filter.exclude(a).admits(id) <==> id != a && filter.admits(id)),
{
}

/// The filter of the visualizer.
#[derive(Debug)]
pub enum DiagnosticIds {
    /// Every diagnostic passes.
    All,
    /// Only the listed diagnostics pass.
    Include(HashSet<u128>),
    /// Every diagnostic but the listed ones passes.
    Exclude(HashSet<u128>),
}

impl View for DiagnosticIds {
    type V = Filter;

    open spec fn view(&self) -> Filter {
        match self {
            DiagnosticIds::All => Filter::All,
            DiagnosticIds::Include(ids) => Filter::Include(ids@),
            DiagnosticIds::Exclude(ids) => Filter::Exclude(ids@),
        }
    }
}

/// A set with the same identifiers.
fn copy_of(ids: &HashSet<u128>) -> (copy: HashSet<u128>)
    ensures
        copy@ == ids@,
{
    let ghost keys = ids.iter().remaining();
    let mut copy: HashSet<u128> = HashSet::new();
    for key in it: ids.iter()
        invariant
            it.seq() == keys,
            forall|id: u128|
                copy@.contains(id) <==> exists|j: int|
                    0 <= j < it.index() && *(#[trigger] keys[j]) == id,
    {
        let ghost before = copy@;
        let ghost index = it.index();
        copy.insert(*key);
        proof {
            assert forall|id: u128|
                copy@.contains(id) <==> exists|j: int|
                    0 <= j < index + 1 && *(#[trigger] keys[j]) == id by {
                if before.contains(id) {
                    let j = choose|j: int| 0 <= j < index && *(#[trigger] keys[j]) == id;
                    assert(0 <= j < index + 1 && *keys[j] == id);
                }
                if id == *key {
                    assert(*keys[index] == id);
                }
            }
        }
    }
    proof {
        assert forall|id: u128| copy@.contains(id) <==> ids@.contains(id) by {
            if copy@.contains(id) {
                let j = choose|j: int| 0 <= j < keys.len() && *(#[trigger] keys[j]) == id;
                assert(keys.unref()[j] == id);
                assert(keys.unref().to_set().contains(id));
            }
            if ids@.contains(id) {
                assert(keys.unref().to_set().contains(id));
                let j = choose|j: int| 0 <= j < keys.unref().len() && keys.unref()[j] == id;
                assert(*keys[j] == id);
            }
        }
        assert(copy@ =~= ids@);
    }
    copy
}

impl Clone for DiagnosticIds {
    fn clone(&self) -> (copy: DiagnosticIds)
        ensures
            copy@ == self@,
    {
        match self {
            DiagnosticIds::All => DiagnosticIds::All,
            DiagnosticIds::Include(ids) => DiagnosticIds::Include(copy_of(ids)),
            DiagnosticIds::Exclude(ids) => DiagnosticIds::Exclude(copy_of(ids)),
        }
    }
}

impl DiagnosticIds {
    /// The filter that passes every diagnostic.
    pub fn all() -> (filter: DiagnosticIds)
        ensures
            filter@ == Filter::All,
    {
        DiagnosticIds::All
    }

    /// Whether the diagnostic passes the filter.
    pub fn should_include(&self, diagnostic_id: &DiagnosticId) -> (included: bool)
        ensures
            included == self@.admits(diagnostic_id.0),
    {
        match self {
            DiagnosticIds::All => true,
            DiagnosticIds::Include(ids) => ids.contains(&diagnostic_id.0),
            DiagnosticIds::Exclude(ids) => !ids.contains(&diagnostic_id.0),
        }
    }

    /// Asks for a diagnostic: see [`Filter::include_id`].
    pub fn include_id(self, diagnostic_id: DiagnosticId) -> (filter: DiagnosticIds)
        ensures
            filter@ == self@.include_id(diagnostic_id.0),
    {
        match self {
            DiagnosticIds::Include(ids) => {
                let mut ids = ids;
                ids.insert(diagnostic_id.0);
                DiagnosticIds::Include(ids)
            },
            _ => {
                let mut ids: HashSet<u128> = HashSet::new();
                ids.insert(diagnostic_id.0);
                DiagnosticIds::Include(ids)
            },
        }
    }

    /// Rules a diagnostic out: see [`Filter::exclude`].
    pub fn exclude(self, diagnostic_id: DiagnosticId) -> (filter: DiagnosticIds)
        ensures
            filter@ == self@.exclude(diagnostic_id.0),
    {
        match self {
            DiagnosticIds::Exclude(ids) => {
                let mut ids = ids;
                ids.insert(diagnostic_id.0);
                DiagnosticIds::Exclude(ids)
            },
            _ => {
                let mut ids: HashSet<u128> = HashSet::new();
                ids.insert(diagnostic_id.0);
                DiagnosticIds::Exclude(ids)
            },
        }
    }
}

} // verus!
