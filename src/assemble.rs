//! Assembling the matches of a walk into the order in which they are reported:
//! sorted by path, whatever order the walk found them in.
use vstd::prelude::*;

use crate::filter::{match_views, MatchResult, MatchView};
use crate::text::{
    less_text, lemma_text_less_irreflexive, lemma_text_less_total, lemma_text_less_transitive,
    text_le, text_less,
};

verus! {

broadcast use vstd::seq_lib::group_to_multiset_ensures;

/// Each match's path comes no later than the paths after it.
pub open spec fn sorted_by_path(s: Seq<MatchView>) -> bool {
    forall|i: int, j: int| 0 <= i < j < s.len() ==> text_le(#[trigger] s[i].path, #[trigger] s[j].path)
}

/// No two matches share a path.
pub open spec fn distinct_paths(s: Seq<MatchView>) -> bool {
    forall|i: int, j: int| 0 <= i < j < s.len() ==> #[trigger] s[i].path != #[trigger] s[j].path
}

/// `output` holds the matches of `input`, each as often, sorted by path.
pub open spec fn assembled(input: Seq<MatchView>, output: Seq<MatchView>) -> bool {
    sorted_by_path(output) && output.to_multiset() == input.to_multiset()
}

/// Sorts the matches by path.
pub fn assemble(matches: Vec<MatchResult>) -> (r: Vec<MatchResult>)
    ensures
        assembled(match_views(matches@), match_views(r@)),
{
    let ghost all = match_views(matches@).to_multiset();
    let mut input = matches;
    let mut out: Vec<MatchResult> = Vec::new();
    assert(match_views(out@) =~= Seq::<MatchView>::empty());
    assert(match_views(out@).to_multiset().add(match_views(input@).to_multiset()) =~= all);
    while input.len() > 0
        invariant
            sorted_by_path(match_views(out@)),
            match_views(out@).to_multiset().add(match_views(input@).to_multiset()) == all,
        decreases input.len(),
    {
        let ghost before_in = match_views(input@);
        let ghost before_out = match_views(out@);
        let m = input.pop().unwrap();
        assert(before_in =~= match_views(input@).push(m@));
        let mut j: usize = 0;
        while j < out.len() && !less_text(m.path.as_str(), out[j].path.as_str())
            invariant
                before_out == match_views(out@),
                j <= out.len(),
                forall|k: int| 0 <= k < j ==> text_le(#[trigger] out@[k]@.path, m@.path),
            decreases out.len() - j,
        {
            proof {
                if out@[j as int]@.path != m@.path {
                    lemma_text_less_total(out@[j as int]@.path, m@.path);
                }
            }
            j = j + 1;
        }
        proof {
            assert forall|k: int| j <= k < out@.len() implies text_le(
                m@.path,
                #[trigger] out@[k]@.path,
            ) by {
                assert(before_out[j as int] == out@[j as int]@);
                assert(before_out[k] == out@[k]@);
                if k > j && text_less(out@[j as int]@.path, out@[k]@.path) {
                    lemma_text_less_transitive(m@.path, out@[j as int]@.path, out@[k]@.path);
                }
            }
        }
        out.insert(j, m);
        let ghost now = match_views(out@);
        assert(now =~= before_out.insert(j as int, m@));
        assert forall|a: int, b: int| 0 <= a < b < now.len() implies text_le(
            #[trigger] now[a].path,
            #[trigger] now[b].path,
        ) by {
            if b < j {
                assert(now[a] == before_out[a] && now[b] == before_out[b]);
            } else if b == j {
                assert(now[a] == before_out[a]);
            } else if a < j {
                assert(now[a] == before_out[a] && now[b] == before_out[b - 1]);
            } else if a == j {
                assert(now[b] == before_out[b - 1]);
            } else {
                assert(now[a] == before_out[a - 1] && now[b] == before_out[b - 1]);
            }
        }
        assert(now.to_multiset().add(match_views(input@).to_multiset()) =~= all);
    }
    assert(match_views(input@) =~= Seq::<MatchView>::empty());
    assert(match_views(out@).to_multiset() =~= all);
    out
}

proof fn lemma_text_le_antisymmetric(a: Seq<char>, b: Seq<char>)
    requires
        text_le(a, b),
        text_le(b, a),
    ensures
        a == b,
{
    if a != b {
        lemma_text_less_transitive(a, b, a);
        lemma_text_less_irreflexive(a);
    }
}

proof fn lemma_sorted_unique(x: Seq<MatchView>, y: Seq<MatchView>)
    requires
        sorted_by_path(x),
        sorted_by_path(y),
        x.to_multiset() == y.to_multiset(),
        forall|p: MatchView, q: MatchView|
            x.contains(p) && x.contains(q) && p.path == q.path ==> p == q,
    ensures
        x == y,
    decreases x.len(),
{
    assert(x.len() == x.to_multiset().len());
    assert(y.len() == y.to_multiset().len());
    if x.len() == 0 {
        assert(x =~= y);
    } else {
        assert(x.to_multiset().count(x[0]) > 0);
        assert(y.contains(x[0]));
        let j = choose|j: int| 0 <= j < y.len() && y[j] == x[0];
        assert(y.to_multiset().count(y[0]) > 0);
        assert(x.contains(y[0]));
        let i = choose|i: int| 0 <= i < x.len() && x[i] == y[0];
        if j > 0 {
            assert(text_le(y[0].path, y[j].path));
        }
        if i > 0 {
            assert(text_le(x[0].path, x[i].path));
        }
        lemma_text_le_antisymmetric(x[0].path, y[0].path);
        assert(x.contains(x[0]));
        assert(x[0] == y[0]);
        let x1 = x.drop_first();
        let y1 = y.drop_first();
        assert(x1 =~= x.remove(0));
        assert(y1 =~= y.remove(0));
        assert(x1.to_multiset() == y1.to_multiset());
        assert forall|p: MatchView, q: MatchView|
            x1.contains(p) && x1.contains(q) && p.path == q.path implies p == q by {
            if x1.contains(p) && x1.contains(q) {
                let ip = choose|ip: int| 0 <= ip < x1.len() && x1[ip] == p;
                let iq = choose|iq: int| 0 <= iq < x1.len() && x1[iq] == q;
                assert(x.contains(p) && x.contains(q)) by {
                    assert(x[ip + 1] == p);
                    assert(x[iq + 1] == q);
                }
            }
        }
        assert forall|a: int, b: int| 0 <= a < b < x1.len() implies text_le(
            #[trigger] x1[a].path,
            #[trigger] x1[b].path,
        ) by {
            assert(x1[a] == x[a + 1] && x1[b] == x[b + 1]);
        }
        assert forall|a: int, b: int| 0 <= a < b < y1.len() implies text_le(
            #[trigger] y1[a].path,
            #[trigger] y1[b].path,
        ) by {
            assert(y1[a] == y[a + 1] && y1[b] == y[b + 1]);
        }
        lemma_sorted_unique(x1, y1);
        assert forall|k: int| 0 <= k < x.len() implies x[k] == y[k] by {
            if k > 0 {
                assert(x[k] == x1[k - 1] && y[k] == y1[k - 1]);
            }
        }
        assert(x =~= y);
    }
}

/// Assembly does not depend on the order in which the walk found the
/// matches: two runs that found the same matches, in any two orders and with
/// no path found twice, report the same sequence.
pub proof fn lemma_assembly_order_independent(
    a: Seq<MatchView>,
    b: Seq<MatchView>,
    ra: Seq<MatchView>,
    rb: Seq<MatchView>,
)
    requires
        a.to_multiset() == b.to_multiset(),
        distinct_paths(a),
        assembled(a, ra),
        assembled(b, rb),
    ensures
        ra == rb,
{
    assert forall|p: MatchView, q: MatchView|
        ra.contains(p) && ra.contains(q) && p.path == q.path implies p == q by {
        assert(ra.to_multiset().count(p) > 0);
        assert(ra.to_multiset().count(q) > 0);
        assert(a.contains(p));
        assert(a.contains(q));
        let ip = choose|ip: int| 0 <= ip < a.len() && a[ip] == p;
        let iq = choose|iq: int| 0 <= iq < a.len() && a[iq] == q;
        if ip < iq {
            assert(a[ip].path != a[iq].path);
        } else if iq < ip {
            assert(a[iq].path != a[ip].path);
        }
    }
    lemma_sorted_unique(ra, rb);
}

} // verus!
