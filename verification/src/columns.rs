use vstd::prelude::*;
use crate::database::DataCategory;

verus! {

/// The column family that stores each key space.
pub open spec fn spec_column_name(category: DataCategory) -> Seq<char> {
    match category {
        DataCategory::State => "col0"@,
        DataCategory::Headers => "col1"@,
        DataCategory::Bodies => "col2"@,
        DataCategory::Extra => "col3"@,
        DataCategory::Trace => "col4"@,
        DataCategory::AccountBloom => "col5"@,
        DataCategory::Other => "col6"@,
    }
}

/// Maps a key space to the name of the column family that stores it.
pub fn map_columns(category: DataCategory) -> (r: &'static str)
    ensures
        r@ == spec_column_name(category),
{
    match category {
        DataCategory::State => "col0",
        DataCategory::Headers => "col1",
        DataCategory::Bodies => "col2",
        DataCategory::Extra => "col3",
        DataCategory::Trace => "col4",
        DataCategory::AccountBloom => "col5",
        DataCategory::Other => "col6",
    }
}

} // verus!
