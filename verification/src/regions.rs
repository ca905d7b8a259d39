//! The regions that pixel values are aggregated into.
//!
//! A region is a feature of the vector layer that has a non-empty identifier
//! and a geometry. Regions keep the order of the features and are known by
//! their index in that order; each region has a sum of its own, and the
//! output holds one line per region, in that order.

use vstd::prelude::*;

verus! {

/// Why an aggregation cannot go on.
#[derive(Clone, Copy, Debug, PartialEq, Eq, Structural)]
pub enum AggregateError {
    /// No feature of the layer has both an identifier and a geometry.
    NoRegions,
}

/// The identifiers of the regions, in feature order.
pub struct RegionTable {
    ids: Vec<String>,
}

impl View for RegionTable {
    type V = Seq<Seq<char>>;

    closed spec fn view(&self) -> Seq<Seq<char>> {
        self.ids@.map_values(|s: String| s@)
    }
}

impl RegionTable {
    /// An empty table.
    pub fn new() -> (table: RegionTable)
        ensures
            table@ == Seq::<Seq<char>>::empty(),
    {
        let table = RegionTable { ids: Vec::new() };
        assert(table@ =~= Seq::<Seq<char>>::empty());
        table
    }

    /// Number of regions.
    pub fn len(&self) -> (n: usize)
        ensures
            n == self@.len(),
    {
        self.ids.len()
    }

    /// Identifier of region `i`.
    pub fn id(&self, i: usize) -> (id: &String)
        requires
            i < self@.len(),
        ensures
            id@ == self@[i as int],
    {
        &self.ids[i]
    }

    /// Takes a feature with identifier `id` into the table when the identifier
    /// is not empty and the feature has a geometry, and returns the index of
    /// the new region; any other feature is passed over.
    pub fn take_feature(&mut self, id: String, has_geometry: bool) -> (index: Option<usize>)
        ensures
            id@.len() == 0 || !has_geometry ==> index is None && final(self)@ == old(self)@,
            id@.len() != 0 && has_geometry ==> index == Some(old(self)@.len() as usize)
                && final(self)@ == old(self)@.push(id@),
    {
        if id.as_str().is_empty() || !has_geometry {
            return None;
        }
        let index = self.ids.len();
        let ghost before = self.ids@;
        self.ids.push(id);
        assert(self.ids@.map_values(|s: String| s@) =~= before.map_values(|s: String| s@).push(
            self.ids@[index as int]@,
        ));
        Some(index)
    }

    /// Fails when no region was taken in.
    pub fn ensure_regions(&self) -> (r: Result<(), AggregateError>)
        ensures
            r is Err <==> self@.len() == 0,
            r is Err ==> r == Err::<(), AggregateError>(AggregateError::NoRegions),
    {
        if self.ids.len() == 0 {
            Err(AggregateError::NoRegions)
        } else {
            Ok(())
        }
    }
}

} // verus!
