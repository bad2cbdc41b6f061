//! Table schemas.
use vstd::prelude::*;
use crate::schemas::column::{char_count, Column};

verus! {

/// A table: its name and its columns, in order.
#[derive(Debug)]
pub struct TableSchema {
    name: String,
    columns: Vec<Column>,
}

impl View for TableSchema {
    type V = (Seq<char>, Seq<(Seq<char>, crate::db::constants::LogicalColType)>);

    closed spec fn view(&self) -> Self::V {
        (self.name@, self.columns@.map_values(|c: Column| c@))
    }
}

impl TableSchema {
    /// A table without columns.
    pub fn new(name: &str) -> (r: TableSchema)
        ensures
            r@.0 == name@,
            r@.1 == Seq::<(Seq<char>, crate::db::constants::LogicalColType)>::empty(),
    {
        let r = TableSchema { name: name.to_owned(), columns: Vec::new() };
        assert(r@.1 =~= Seq::<(Seq<char>, crate::db::constants::LogicalColType)>::empty());
        r
    }

    /// Appends a column.
    pub fn push_col(&mut self, col: &Column)
        ensures
            final(self)@.0 == old(self)@.0,
            final(self)@.1 == old(self)@.1.push(col@),
    {
        let ghost before = self.columns@;
        self.columns.push(col.duplicate());
        assert(self.columns@.map_values(|c: Column| c@) =~= before.map_values(|c: Column| c@).push(col@));
    }

    pub fn name(&self) -> (r: &str)
        ensures
            r@ == self@.0,
    {
        self.name.as_str()
    }

    pub fn columns(&self) -> (r: &Vec<Column>)
        ensures
            r@.map_values(|c: Column| c@) == self@.1,
    {
        &self.columns
    }

    /// The rule a table schema of a request must meet: a name of at least
    /// one character.
    pub fn validate(&self) -> (r: bool)
        ensures
            r == (self@.0.len() >= 1),
    {
        char_count(self.name.as_str()) >= 1
    }
}

/// A table as listed: its id and name.
#[derive(Debug)]
pub struct ShallowTable {
    table_id: u128,
    name: String,
}

impl View for ShallowTable {
    type V = (u128, Seq<char>);

    closed spec fn view(&self) -> (u128, Seq<char>) {
        (self.table_id, self.name@)
    }
}

impl ShallowTable {
    pub fn new(table_id: &u128, name: &str) -> (r: ShallowTable)
        ensures
            r@ == (*table_id, name@),
    {
        ShallowTable { table_id: *table_id, name: name.to_owned() }
    }

    pub fn table_id(&self) -> (r: u128)
        ensures
            r == self@.0,
    {
        self.table_id
    }

    pub fn name(&self) -> (r: &str)
        ensures
            r@ == self@.1,
    {
        self.name.as_str()
    }
}

} // verus!
