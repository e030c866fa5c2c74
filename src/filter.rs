//! The three filters (key path, value name, value data) and the selection of
//! what a key contributes to the result.
use vstd::prelude::*;

use crate::text::{contains, contains_text, to_upper, upper_of};
use crate::value::{value_views, RegValue, ValueView};

verus! {

/// What the user asked to filter on; `None` leaves that dimension open.
#[derive(Debug)]
pub struct FilterSpec {
    /// Text that a key's path must contain (case-sensitive).
    pub key: Option<String>,
    /// Name that a value must have (compared without regard to case).
    pub value: Option<String>,
    /// Text that a value's displayed data must contain (case-sensitive).
    pub data: Option<String>,
}

/// A key that survived the filters, with the values that survived with it.
#[derive(Debug)]
pub struct MatchResult {
    pub path: String,
    pub values: Vec<RegValue>,
}

/// What a match holds, as mathematical text.
pub struct MatchView {
    pub path: Seq<char>,
    pub values: Seq<ValueView>,
}

impl View for MatchResult {
    type V = MatchView;

    open spec fn view(&self) -> MatchView {
        MatchView { path: self.path@, values: value_views(self.values@) }
    }
}

/// The views of a sequence of matches.
pub open spec fn match_views(s: Seq<MatchResult>) -> Seq<MatchView> {
    s.map_values(|m: MatchResult| m@)
}

impl FilterSpec {
    /// The key filter admits a key at `path`.
    pub open spec fn path_passes(&self, path: Seq<char>) -> bool {
        match self.key {
            None => true,
            Some(k) => contains_text(path, k@),
        }
    }

    /// The name filter admits a value named `name`.
    pub open spec fn name_passes(&self, name: Seq<char>) -> bool {
        match self.value {
            None => true,
            Some(n) => upper_of(name) == upper_of(n@),
        }
    }

    /// The data filter admits a value whose data displays as `data`.
    pub open spec fn data_passes(&self, data: Seq<char>) -> bool {
        match self.data {
            None => true,
            Some(d) => contains_text(data, d@),
        }
    }

    /// A value survives when it passes both value-level filters.
    pub open spec fn keeps(&self, v: ValueView) -> bool {
        self.name_passes(v.name) && self.data_passes(v.data)
    }

    /// A value-level filter (name or data) is set.
    pub open spec fn filters_values(&self) -> bool {
        self.value is Some || self.data is Some
    }

    /// The values of `s` that survive, in their order.
    pub open spec fn kept(&self, s: Seq<ValueView>) -> Seq<ValueView> {
        s.filter(|v: ValueView| self.keeps(v))
    }

    /// What a key at `path` with `values` contributes: nothing when its path
    /// fails, or when a value-level filter is set and no value survives;
    /// otherwise its path with the surviving values.
    pub open spec fn selection(&self, path: Seq<char>, values: Seq<ValueView>) -> Option<
        MatchView,
    > {
        if !self.path_passes(path) {
            None
        } else if self.filters_values() && self.kept(values).len() == 0 {
            None
        } else {
            Some(MatchView { path, values: self.kept(values) })
        }
    }

    /// Whether the key filter admits `path`.
    pub fn path_matches(&self, path: &str) -> (r: bool)
        ensures
            r == self.path_passes(path@),
    {
        match &self.key {
            None => true,
            Some(k) => contains(path, k.as_str()),
        }
    }

    /// Whether a value survives, given the upper-case form of its name and that
    /// of the name filter (`None` when no name filter is set).
    pub fn keeps_folded(
        &self,
        folded_name: &String,
        folded_filter: &Option<String>,
        data: &str,
    ) -> (r: bool)
        ensures
            r == ((match folded_filter {
                None => true,
                Some(f) => f@ == folded_name@,
            }) && self.data_passes(data@)),
    {
        let name_ok = match folded_filter {
            None => true,
            Some(f) => *f == *folded_name,
        };
        if !name_ok {
            return false;
        }
        match &self.data {
            None => true,
            Some(d) => contains(data, d.as_str()),
        }
    }

    /// Whether the value `v` survives the name and data filters.
    pub fn keeps_value(&self, v: &RegValue) -> (r: bool)
        ensures
            r == self.keeps(v@),
    {
        let folded_filter = match &self.value {
            None => None,
            Some(n) => Some(to_upper(n.as_str())),
        };
        let folded_name = to_upper(v.name.as_str());
        self.keeps_folded(&folded_name, &folded_filter, v.data.as_str())
    }

    /// The values that survive, in their order.
    pub fn keep_values(&self, values: &Vec<RegValue>) -> (r: Vec<RegValue>)
        ensures
            value_views(r@) == self.kept(value_views(values@)),
    {
        let mut r: Vec<RegValue> = Vec::new();
        let ghost all = value_views(values@);
        let mut i: usize = 0;
        while i < values.len()
            invariant
                all == value_views(values@),
                i <= values.len(),
                value_views(r@) == self.kept(all.take(i as int)),
            decreases values.len() - i,
        {
            let v = &values[i];
            let keep = self.keeps_value(v);
            proof {
                reveal(Seq::filter);
                assert(all.take(i + 1).drop_last() =~= all.take(i as int));
                assert(all.take(i + 1).last() == v@);
            }
            if keep {
                r.push(v.duplicate());
                assert(value_views(r@) =~= self.kept(all.take(i as int)).push(v@));
            }
            i = i + 1;
        }
        assert(all.take(i as int) =~= all);
        r
    }

    /// What the key at `path` with `values` contributes to the result.
    pub fn select(&self, path: &str, values: &Vec<RegValue>) -> (r: Option<MatchResult>)
        ensures
            r matches Some(m) ==> self.selection(path@, value_views(values@)) == Some(m@),
            r is None ==> self.selection(path@, value_views(values@)) is None,
    {
        if !self.path_matches(path) {
            return None;
        }
        let kept = self.keep_values(values);
        if (self.value.is_some() || self.data.is_some()) && kept.len() == 0 {
            return None;
        }
        Some(MatchResult { path: path.to_string(), values: kept })
    }
}

/// With no value-level filter every value survives.
proof fn lemma_kept_all(f: &FilterSpec, s: Seq<ValueView>)
    requires
        !f.filters_values(),
    ensures
        f.kept(s) == s,
    decreases s.len(),
{
    reveal(Seq::filter);
    if s.len() > 0 {
        lemma_kept_all(f, s.drop_last());
        assert(s.drop_last().push(s.last()) =~= s);
    }
}

/// Every surviving value is one of the values.
proof fn lemma_kept_within(f: &FilterSpec, s: Seq<ValueView>, v: ValueView)
    requires
        f.kept(s).contains(v),
    ensures
        s.contains(v),
    decreases s.len(),
{
    reveal(Seq::filter);
    if s.len() > 0 {
        let rest = s.drop_last();
        if f.kept(rest).contains(v) {
            lemma_kept_within(f, rest, v);
            let i = choose|i: int| 0 <= i < rest.len() && rest[i] == v;
            assert(s[i] == v);
        } else {
            assert(f.kept(s) =~= f.kept(rest).push(s.last()));
            assert(s[s.len() - 1] == v);
        }
    }
}

/// A value survives exactly when it passes the name filter and the data
/// filter both.
pub proof fn lemma_kept_is_conjunction(f: &FilterSpec, values: Seq<ValueView>, v: ValueView)
    ensures
        f.kept(values).contains(v) <==> (values.contains(v) && f.name_passes(v.name)
            && f.data_passes(v.data)),
{
    broadcast use vstd::seq_lib::group_filter_ensures;

    if f.kept(values).contains(v) {
        let i = choose|i: int| 0 <= i < f.kept(values).len() && f.kept(values)[i] == v;
        assert(f.keeps(f.kept(values)[i]));
        lemma_kept_within(f, values, v);
    }
    if values.contains(v) && f.keeps(v) {
        let i = choose|i: int| 0 <= i < values.len() && values[i] == v;
        assert(f.kept(values).contains(values[i]));
    }
}

/// When a name or data filter is set, a key none of whose values survives
/// drops out of the result; when neither is set, every key whose path passes
/// stays in it, with all its values, however many it has.
pub proof fn lemma_empty_selection_suppressed(
    f: &FilterSpec,
    path: Seq<char>,
    values: Seq<ValueView>,
)
    ensures
        f.filters_values() && f.kept(values).len() == 0 ==> f.selection(path, values) is None,
        !f.filters_values() && f.path_passes(path) ==> f.selection(path, values) == Some(
            MatchView { path, values },
        ),
{
    if !f.filters_values() {
        lemma_kept_all(f, values);
    }
}

} // verus!
