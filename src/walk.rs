//! The tree walk: paths of child keys, and a work list that visits a subtree
//! one key at a time while the caller does the enumeration.
use vstd::prelude::*;
use vstd::string::*;

use crate::assemble::{assemble, assembled};
use crate::filter::{match_views, FilterSpec, MatchResult};
use crate::value::{value_views, RegValue};

verus! {

/// The path of the child `name` of the key at `parent`.
pub open spec fn child_path_of(parent: Seq<char>, name: Seq<char>) -> Seq<char> {
    parent + seq!['\\'] + name
}

/// The subkey, relative to the root, of the child `name` of `subkey`.
pub open spec fn child_subkey_of(subkey: Seq<char>, name: Seq<char>) -> Seq<char> {
    if subkey.len() == 0 {
        name
    } else {
        subkey + seq!['\\'] + name
    }
}

/// The views of a sequence of strings.
pub open spec fn text_views(s: Seq<String>) -> Seq<Seq<char>> {
    s.map_values(|t: String| t@)
}

/// The elements of an optional value, as a sequence of at most one.
pub open spec fn option_seq<T>(o: Option<T>) -> Seq<T> {
    match o {
        None => Seq::empty(),
        Some(x) => seq![x],
    }
}

/// The path of the child `name` of the key at `parent`: the parent's path, a
/// separator, and the child's name.
pub fn child_path(parent: &str, name: &str) -> (r: String)
    ensures
        r@ == child_path_of(parent@, name@),
{
    let r = String::from_str(parent);
    let r = r.concat("\\");
    proof {
        reveal_strlit("\\");
    }
    r.concat(name)
}

/// The subkey, relative to the root, of the child `name` of `subkey`.
pub fn child_subkey(subkey: &str, name: &str) -> (r: String)
    ensures
        r@ == child_subkey_of(subkey@, name@),
{
    if subkey.unicode_len() == 0 {
        String::from_str(name)
    } else {
        child_path(subkey, name)
    }
}

/// A key that the walk has yet to visit: its full path, and its subkey
/// relative to the root, by which it is opened.
#[derive(Debug)]
pub struct PendingKey {
    pub path: String,
    pub subkey: String,
}

impl View for PendingKey {
    type V = (Seq<char>, Seq<char>);

    open spec fn view(&self) -> (Seq<char>, Seq<char>) {
        (self.path@, self.subkey@)
    }
}

/// The views of a sequence of pending keys.
pub open spec fn pending_views(s: Seq<PendingKey>) -> Seq<(Seq<char>, Seq<char>)> {
    s.map_values(|k: PendingKey| k@)
}

/// The pending key of the child `name` of `key`.
pub open spec fn child_key_of(key: (Seq<char>, Seq<char>), name: Seq<char>) -> (
    Seq<char>,
    Seq<char>,
) {
    (child_path_of(key.0, name), child_subkey_of(key.1, name))
}

/// The pending keys of the children `names` of `key`, in their order.
pub open spec fn child_keys_of(key: (Seq<char>, Seq<char>), names: Seq<Seq<char>>) -> Seq<
    (Seq<char>, Seq<char>),
> {
    names.map_values(|n: Seq<char>| child_key_of(key, n))
}

/// What enumerating one key gave: the names of its children and its values.
#[derive(Debug)]
pub struct NodeListing {
    pub children: Vec<String>,
    pub values: Vec<RegValue>,
}

/// Why a key could not be opened or enumerated.
#[derive(Debug)]
pub enum EnumError {
    NotFound,
    AccessDenied,
    Other(String),
}

/// A branch of the walk that failed, with the path of its top key.
#[derive(Debug)]
pub struct BranchFailure {
    pub path: String,
    pub error: EnumError,
}

/// The paths of a sequence of failures, with their errors.
pub open spec fn failure_views(s: Seq<BranchFailure>) -> Seq<(Seq<char>, EnumError)> {
    s.map_values(|f: BranchFailure| (f.path@, f.error))
}

/// The outcome of a finished walk: the matches sorted by path, and the
/// branches that failed in the order they were met.
#[derive(Debug)]
pub struct WalkReport {
    pub matches: Vec<MatchResult>,
    pub failures: Vec<BranchFailure>,
}

/// A walk in progress, depth first: the keys still to visit (the last one
/// next), the matches found so far, and the branches that failed.
#[derive(Debug)]
pub struct Walker {
    pub filter: FilterSpec,
    pub pending: Vec<PendingKey>,
    pub matches: Vec<MatchResult>,
    pub failures: Vec<BranchFailure>,
}

impl Walker {
    /// A walk of the subtree whose top key has `path` and `subkey`.
    pub fn new(path: String, subkey: String, filter: FilterSpec) -> (r: Walker)
        ensures
            r.filter == filter,
            pending_views(r.pending@) == seq![(path@, subkey@)],
            r.matches@.len() == 0,
            r.failures@.len() == 0,
    {
        let mut pending: Vec<PendingKey> = Vec::new();
        pending.push(PendingKey { path, subkey });
        assert(pending_views(pending@) =~= seq![(path@, subkey@)]);
        Walker { filter, pending, matches: Vec::new(), failures: Vec::new() }
    }

    /// Whether no key is left to visit.
    pub fn is_done(&self) -> (r: bool)
        ensures
            r == (self.pending@.len() == 0),
    {
        self.pending.len() == 0
    }

    /// Takes the next key to visit, if any is left.
    pub fn next_key(&mut self) -> (r: Option<PendingKey>)
        ensures
            final(self).filter == old(self).filter,
            final(self).matches == old(self).matches,
            final(self).failures == old(self).failures,
            old(self).pending@.len() == 0 ==> r is None && final(self).pending@ == old(self).pending@,
            old(self).pending@.len() > 0 ==> r == Some(old(self).pending@.last())
                && final(self).pending@ == old(self).pending@.drop_last(),
    {
        self.pending.pop()
    }

    /// Records the outcome of visiting `key`. On success its children join
    /// the keys to visit and its selection joins the matches; on failure the
    /// failure is recorded against its path, and every other branch stays
    /// as it was.
    pub fn record(&mut self, key: PendingKey, outcome: Result<NodeListing, EnumError>)
        ensures
            final(self).filter == old(self).filter,
            match outcome {
                Ok(listing) => {
                    &&& pending_views(final(self).pending@) == pending_views(old(self).pending@)
                        + child_keys_of(key@, text_views(listing.children@))
                    &&& match_views(final(self).matches@) == match_views(old(self).matches@)
                        + option_seq(
                        old(self).filter.selection(key.path@, value_views(listing.values@)),
                    )
                    &&& final(self).failures == old(self).failures
                },
                Err(e) => {
                    &&& final(self).pending == old(self).pending
                    &&& final(self).matches == old(self).matches
                    &&& failure_views(final(self).failures@) == failure_views(
                        old(self).failures@,
                    ).push((key.path@, e))
                },
            },
    {
        match outcome {
            Ok(listing) => {
                let ghost old_pending = pending_views(self.pending@);
                let ghost old_matches = match_views(self.matches@);
                let ghost names = text_views(listing.children@);
                let mut i: usize = 0;
                while i < listing.children.len()
                    invariant
                        self.filter == old(self).filter,
                        self.matches == old(self).matches,
                        self.failures == old(self).failures,
                        names == text_views(listing.children@),
                        i <= listing.children.len(),
                        pending_views(self.pending@) == old_pending + child_keys_of(
                            key@,
                            names.take(i as int),
                        ),
                    decreases listing.children.len() - i,
                {
                    let name = listing.children[i].as_str();
                    let child = PendingKey {
                        path: child_path(key.path.as_str(), name),
                        subkey: child_subkey(key.subkey.as_str(), name),
                    };
                    assert(child@ == child_key_of(key@, names[i as int]));
                    let ghost before = self.pending@;
                    self.pending.push(child);
                    assert(pending_views(self.pending@) =~= pending_views(before).push(child@));
                    assert(names.take(i + 1) =~= names.take(i as int).push(names[i as int]));
                    assert(pending_views(self.pending@) =~= old_pending + child_keys_of(
                        key@,
                        names.take(i + 1),
                    ));
                    i = i + 1;
                }
                assert(names.take(i as int) =~= names);
                let selected = self.filter.select(key.path.as_str(), &listing.values);
                match selected {
                    Some(m) => {
                        self.matches.push(m);
                    },
                    None => {},
                }
                assert(match_views(self.matches@) =~= old_matches + option_seq(
                    self.filter.selection(key.path@, value_views(listing.values@)),
                ));
            },
            Err(e) => {
                let ghost before = failure_views(self.failures@);
                self.failures.push(BranchFailure { path: key.path, error: e });
                assert(failure_views(self.failures@) =~= before.push((key.path@, e)));
            },
        }
    }

    /// Ends the walk: its matches sorted by path, and its failures.
    pub fn finish(self) -> (r: WalkReport)
        ensures
            assembled(match_views(self.matches@), match_views(r.matches@)),
            r.failures == self.failures,
    {
        WalkReport { matches: assemble(self.matches), failures: self.failures }
    }
}

} // verus!
