//! Inspecting a single key without descending: its values, filtered, and the
//! paths of its children, unfiltered.
use vstd::prelude::*;

use crate::filter::FilterSpec;
use crate::value::{value_views, RegValue};
use crate::walk::{child_path, child_path_of, text_views, NodeListing};

verus! {

/// What a single key shows: its surviving values and its children's paths.
#[derive(Debug)]
pub struct KeyListing {
    pub values: Vec<RegValue>,
    pub children: Vec<String>,
}

/// The paths of the children `names` of the key at `path`, in their order.
pub open spec fn child_paths_of(path: Seq<char>, names: Seq<Seq<char>>) -> Seq<Seq<char>> {
    names.map_values(|n: Seq<char>| child_path_of(path, n))
}

/// The single-key view of the key at `path`, from what enumerating it gave.
pub fn list_key(filter: &FilterSpec, path: &str, listing: &NodeListing) -> (r: KeyListing)
    ensures
        value_views(r.values@) == filter.kept(value_views(listing.values@)),
        text_views(r.children@) == child_paths_of(path@, text_views(listing.children@)),
{
    let values = filter.keep_values(&listing.values);
    let ghost names = text_views(listing.children@);
    let mut children: Vec<String> = Vec::new();
    let mut i: usize = 0;
    while i < listing.children.len()
        invariant
            names == text_views(listing.children@),
            i <= listing.children.len(),
            text_views(children@) == child_paths_of(path@, names.take(i as int)),
        decreases listing.children.len() - i,
    {
        let c = child_path(path, listing.children[i].as_str());
        let ghost before = children@;
        children.push(c);
        assert(names.take(i + 1) =~= names.take(i as int).push(names[i as int]));
        assert(text_views(children@) =~= text_views(before).push(c@));
        assert(text_views(children@) =~= child_paths_of(path@, names.take(i + 1)));
        i = i + 1;
    }
    assert(names.take(i as int) =~= names);
    KeyListing { values, children }
}

} // verus!
