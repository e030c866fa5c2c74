//! The text in which results are reported: a header line with the path, one
//! indented line per value, and a blank line after each key.
use vstd::prelude::*;
use vstd::string::*;

use crate::filter::{match_views, MatchResult, MatchView};
use crate::query::KeyListing;
use crate::value::{kind_tag, value_views, RegValue, ValueView};
use crate::walk::{text_views, BranchFailure, EnumError};

verus! {

/// How a value's name is shown: the default value, whose name is empty, is
/// shown as `(Default)`.
pub open spec fn display_name(name: Seq<char>) -> Seq<char> {
    if name.len() == 0 {
        "(Default)"@
    } else {
        name
    }
}

/// The line that shows one value.
pub open spec fn value_line(v: ValueView) -> Seq<char> {
    "    "@ + display_name(v.name) + "    "@ + kind_tag(v.kind) + "    "@ + v.data + "\n"@
}

/// The lines that show the values of `s`, in order.
pub open spec fn value_lines(s: Seq<ValueView>) -> Seq<char>
    decreases s.len(),
{
    if s.len() == 0 {
        Seq::empty()
    } else {
        value_lines(s.drop_last()) + value_line(s.last())
    }
}

/// The block that reports one match.
pub open spec fn match_text(m: MatchView) -> Seq<char> {
    m.path + "\n"@ + value_lines(m.values) + "\n"@
}

/// The blocks that report the matches of `s`, in order.
pub open spec fn matches_text(s: Seq<MatchView>) -> Seq<char>
    decreases s.len(),
{
    if s.len() == 0 {
        Seq::empty()
    } else {
        matches_text(s.drop_last()) + match_text(s.last())
    }
}

/// One line per path of `s`, in order.
pub open spec fn path_lines(s: Seq<Seq<char>>) -> Seq<char>
    decreases s.len(),
{
    if s.len() == 0 {
        Seq::empty()
    } else {
        path_lines(s.drop_last()) + s.last() + "\n"@
    }
}

/// How a single key at `path` is shown: a block with its values, when it has
/// any, then one line per child.
pub open spec fn listing_text(
    path: Seq<char>,
    values: Seq<ValueView>,
    children: Seq<Seq<char>>,
) -> Seq<char> {
    if values.len() == 0 {
        path_lines(children)
    } else {
        path + "\n"@ + value_lines(values) + "\n"@ + path_lines(children)
    }
}

/// The reason shown for an enumeration error.
pub open spec fn error_reason(e: EnumError) -> Seq<char> {
    match e {
        EnumError::NotFound => "not found"@,
        EnumError::AccessDenied => "access denied"@,
        EnumError::Other(msg) => msg@,
    }
}

/// The line that reports a failed branch.
pub open spec fn failure_line(path: Seq<char>, e: EnumError) -> Seq<char> {
    "ERROR: "@ + path + ": "@ + error_reason(e) + "\n"@
}

/// Appends the line that shows `v`.
fn push_value_line(out: &mut String, v: &RegValue)
    ensures
        final(out)@ == old(out)@ + value_line(v@),
{
    let ghost start = out@;
    out.append("    ");
    if v.name.unicode_len() == 0 {
        out.append("(Default)");
    } else {
        out.append(v.name.as_str());
    }
    out.append("    ");
    out.append(v.kind.tag());
    out.append("    ");
    out.append(v.data.as_str());
    out.append("\n");
    assert(out@ =~= start + value_line(v@));
}

/// Appends the lines that show `values`.
fn push_value_lines(out: &mut String, values: &Vec<RegValue>)
    ensures
        final(out)@ == old(out)@ + value_lines(value_views(values@)),
{
    let ghost start = out@;
    let ghost all = value_views(values@);
    let mut i: usize = 0;
    assert(all.take(0) =~= Seq::<ValueView>::empty());
    assert(out@ =~= start + value_lines(all.take(0)));
    while i < values.len()
        invariant
            all == value_views(values@),
            i <= values.len(),
            out@ == start + value_lines(all.take(i as int)),
        decreases values.len() - i,
    {
        push_value_line(out, &values[i]);
        assert(all.take(i + 1).drop_last() =~= all.take(i as int));
        assert(all.take(i + 1).last() == values@[i as int]@);
        assert(out@ =~= start + value_lines(all.take(i + 1)));
        i = i + 1;
    }
    assert(all.take(i as int) =~= all);
}

/// The line that shows one value.
pub fn render_value(v: &RegValue) -> (r: String)
    ensures
        r@ == value_line(v@),
{
    let mut r = String::new();
    push_value_line(&mut r, v);
    r
}

/// Appends the block that reports `m`.
fn push_match(out: &mut String, m: &MatchResult)
    ensures
        final(out)@ == old(out)@ + match_text(m@),
{
    let ghost start = out@;
    out.append(m.path.as_str());
    out.append("\n");
    push_value_lines(out, &m.values);
    out.append("\n");
    assert(out@ =~= start + match_text(m@));
}

/// The block that reports one match.
pub fn render_match(m: &MatchResult) -> (r: String)
    ensures
        r@ == match_text(m@),
{
    let mut r = String::new();
    push_match(&mut r, m);
    r
}

/// The blocks that report `matches`, in order.
pub fn render_matches(matches: &Vec<MatchResult>) -> (r: String)
    ensures
        r@ == matches_text(match_views(matches@)),
{
    let ghost all = match_views(matches@);
    let mut r = String::new();
    let mut i: usize = 0;
    assert(all.take(0) =~= Seq::<MatchView>::empty());
    while i < matches.len()
        invariant
            all == match_views(matches@),
            i <= matches.len(),
            r@ == matches_text(all.take(i as int)),
        decreases matches.len() - i,
    {
        push_match(&mut r, &matches[i]);
        assert(all.take(i + 1).drop_last() =~= all.take(i as int));
        assert(all.take(i + 1).last() == matches@[i as int]@);
        i = i + 1;
    }
    assert(all.take(i as int) =~= all);
    r
}

/// How the single key at `path` is shown.
pub fn render_listing(path: &str, listing: &KeyListing) -> (r: String)
    ensures
        r@ == listing_text(path@, value_views(listing.values@), text_views(listing.children@)),
{
    let mut r = String::new();
    if listing.values.len() > 0 {
        r.append(path);
        r.append("\n");
        push_value_lines(&mut r, &listing.values);
        r.append("\n");
    }
    let ghost start = r@;
    let ghost all = text_views(listing.children@);
    let mut i: usize = 0;
    assert(all.take(0) =~= Seq::<Seq<char>>::empty());
    assert(r@ =~= start + path_lines(all.take(0)));
    while i < listing.children.len()
        invariant
            all == text_views(listing.children@),
            i <= listing.children.len(),
            r@ == start + path_lines(all.take(i as int)),
        decreases listing.children.len() - i,
    {
        r.append(listing.children[i].as_str());
        r.append("\n");
        assert(all.take(i + 1).drop_last() =~= all.take(i as int));
        assert(r@ =~= start + path_lines(all.take(i + 1)));
        i = i + 1;
    }
    assert(all.take(i as int) =~= all);
    assert(r@ =~= listing_text(path@, value_views(listing.values@), all));
    r
}

/// The line that reports a failed branch.
pub fn render_failure(f: &BranchFailure) -> (r: String)
    ensures
        r@ == failure_line(f.path@, f.error),
{
    let mut r = String::from_str("ERROR: ");
    r.append(f.path.as_str());
    r.append(": ");
    match &f.error {
        EnumError::NotFound => r.append("not found"),
        EnumError::AccessDenied => r.append("access denied"),
        EnumError::Other(msg) => r.append(msg.as_str()),
    }
    r.append("\n");
    r
}

} // verus!
