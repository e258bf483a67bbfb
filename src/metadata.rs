//! The registry of derived columns, indexed by position.
use vstd::prelude::*;

use crate::types::DataType;

verus! {

/// A registered column: its display name and type.
#[derive(Clone, Debug)]
pub struct ColumnEntry {
    pub name: String,
    pub data_type: DataType,
}

/// Column index `i` names the `i`-th entry. Entries are only ever appended,
/// so an index once handed out is never handed out again.
#[derive(Debug)]
pub struct Metadata {
    columns: Vec<ColumnEntry>,
}

impl Metadata {
    /// The registered columns, in index order, as (name, type).
    pub closed spec fn entries(&self) -> Seq<(Seq<char>, DataType)> {
        self.columns@.map_values(|c: ColumnEntry| (c.name@, c.data_type))
    }

    pub fn new() -> (r: Metadata)
        ensures
            r.entries() == Seq::<(Seq<char>, DataType)>::empty(),
    {
        let r = Metadata { columns: Vec::new() };
        assert(r.entries() =~= Seq::<(Seq<char>, DataType)>::empty());
        r
    }

    pub fn num_columns(&self) -> (r: usize)
        ensures
            r == self.entries().len(),
    {
        self.columns.len()
    }

    /// Registers a column and returns its index, which is fresh: every index
    /// handed out before is smaller.
    pub fn add_derived_column(&mut self, name: String, data_type: DataType) -> (r: usize)
        ensures
            r == old(self).entries().len(),
            final(self).entries() == old(self).entries().push((name@, data_type)),
    {
        let r = self.columns.len();
        let ghost n = name@;
        self.columns.push(ColumnEntry { name, data_type });
        assert(self.entries() =~= old(self).entries().push((n, data_type)));
        r
    }

    /// The name and type of column `index`, if it is registered.
    pub fn column(&self, index: usize) -> (r: Option<&ColumnEntry>)
        ensures
            index < self.entries().len() <==> r.is_some(),
            r.is_some() ==> (r.unwrap().name@, r.unwrap().data_type) == self.entries()[
                index as int
            ],
    {
        if index < self.columns.len() {
            Some(&self.columns[index])
        } else {
            None
        }
    }
}

} // verus!
