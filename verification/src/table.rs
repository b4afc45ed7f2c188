//! The names of the persistence categories: which stored table a saved
//! identity belongs to.

use vstd::prelude::*;

verus! {

/// A persistence category: the canonical library, the favorites, or the
/// history.
#[derive(Clone, Copy, PartialEq, Eq, Structural, Debug)]
pub enum Table {
    Library,
    Favorite,
    History,
}

/// The stored name of each category.
pub open spec fn table_name(t: Table) -> Seq<char> {
    match t {
        Table::Library => "library"@,
        Table::Favorite => "favorite"@,
        Table::History => "history"@,
    }
}

impl Table {
    /// The category's stored name.
    pub fn as_str(&self) -> (r: &str)
        ensures
            r@ == table_name(*self),
    {
        match self {
            Table::Library => "library",
            Table::Favorite => "favorite",
            Table::History => "history",
        }
    }
}

} // verus!
