//! Usage-ledger query shapes: which column a breakdown groups by, and the
//! month filter a timestamp prefix query uses. The ledger itself is the
//! embedding's database.
use vstd::prelude::*;

verus! {

/// The column a usage breakdown groups by.
#[derive(Clone, Copy, Debug, PartialEq, Eq, Structural)]
pub enum GroupBy {
    Feature,
    Model,
}

impl GroupBy {
    /// The ledger column this grouping reads.
    pub fn column_name(&self) -> (r: &'static str)
        ensures
            *self is Feature ==> r@ == "feature"@,
            *self is Model ==> r@ == "model"@,
    {
        match self {
            GroupBy::Feature => "feature",
            GroupBy::Model => "model",
        }
    }
}

/// The timestamp filter for one month: the month key followed by the
/// match-anything marker of the query language.
pub fn month_filter(month: &str) -> (r: String)
    ensures
        r@ == month@ + "%"@,
{
    let mut s = String::from_str(month);
    s.append("%");
    s
}

} // verus!
