//! The restore manifest: a plain-text sequence of restore points, one per
//! line, in the form `{from},{to},{hash}`. This module parses the manifest
//! and plans which points a restore must apply.

use vstd::prelude::*;

use crate::errors::SyncError;
use crate::strutil::dec_of;
use crate::strutil::find_char;
use crate::strutil::is_digit;
use crate::strutil::lemma_dec_of_digits;
use crate::strutil::lemma_dec_val_round_trip;
use crate::strutil::lemma_find_char;
use crate::strutil::lemma_find_char_at;
use crate::strutil::lemma_find_char_none;
use crate::strutil::parse_u32_spec;
use crate::strutil::parse_u32_str;
use crate::strutil::to_decimal;
use crate::strutil::trim_ascii;
use crate::strutil::trim_spec;

verus! {

/// `s` split on `c`: the separators are dropped, empty pieces are kept, and
/// a string without `c` is one piece (so the empty string is one empty
/// piece).
pub open spec fn split_on(s: Seq<char>, c: char) -> Seq<Seq<char>>
    decreases s.len(),
{
    let i = find_char(s, c);
    if 0 <= i < s.len() {
        seq![s.take(i)] + split_on(s.skip(i + 1), c)
    } else {
        seq![s]
    }
}

/// One published diff: it covers the half-open layer range `[from, to)` and
/// carries the hex prefix of the content hash that identifies it.
#[derive(Clone, Debug, PartialEq, Eq)]
pub struct RestorePoint {
    pub from: u32,
    pub to: u32,
    pub hash: String,
}

/// The mathematical shadow of a `RestorePoint`.
pub ghost struct RestorePointModel {
    pub from: u32,
    pub to: u32,
    pub hash: Seq<char>,
}

impl View for RestorePoint {
    type V = RestorePointModel;

    open spec fn view(&self) -> RestorePointModel {
        RestorePointModel { from: self.from, to: self.to, hash: self.hash@ }
    }
}

/// The views of a sequence of restore points.
pub open spec fn views_of(points: Seq<RestorePoint>) -> Seq<RestorePointModel> {
    points.map_values(|p: RestorePoint| p@)
}

/// A restore point is well formed when its hash carries at least the four
/// characters the chain check compares.
pub open spec fn wf_point(p: RestorePointModel) -> bool {
    p.hash.len() >= 4
}

impl RestorePoint {
    /// Builds a restore point from its parts.
    pub fn new(from: u32, to: u32, hash: String) -> (r: Self)
        ensures
            r@ == (RestorePointModel { from, to, hash: hash@ }),
    {
        RestorePoint { from, to, hash }
    }

    /// Renders the point as its manifest line `{from},{to},{hash}`.
    pub fn to_line(&self) -> (r: String)
        ensures
            r@ == dec_of(self.from as nat) + ","@ + dec_of(self.to as nat) + ","@ + self.hash@,
    {
        let mut r = to_decimal(self.from as u64);
        r.append(",");
        let to_str = to_decimal(self.to as u64);
        r.append(to_str.as_str());
        r.append(",");
        r.append(self.hash.as_str());
        r
    }
}

/// A trimmed manifest line parsed as a restore point: two decimal layer
/// numbers and a hash of at least four characters, separated by commas. The
/// hash is everything after the second comma.
pub open spec fn parse_line_spec(s: Seq<char>) -> Option<RestorePointModel> {
    let i = find_char(s, ',');
    if i < 0 {
        None
    } else {
        let rest = s.skip(i + 1);
        let j = find_char(rest, ',');
        if j < 0 {
            None
        } else {
            let from = parse_u32_spec(s.take(i));
            let to = parse_u32_spec(rest.take(j));
            let hash = rest.skip(j + 1);
            if from is Some && to is Some && hash.len() >= 4 {
                Some(RestorePointModel { from: from->0, to: to->0, hash })
            } else {
                None
            }
        }
    }
}

/// The index of the first comma of `s`, or `None`.
fn find_comma(s: &str) -> (r: Option<usize>)
    ensures
        r is Some ==> find_char(s@, ',') == r->0 as int,
        r is None ==> find_char(s@, ',') == -1,
{
    let n = s.unicode_len();
    let mut i: usize = 0;
    while i < n
        invariant
            i <= n,
            n == s@.len(),
            forall|j: int| 0 <= j < i ==> s@[j] != ',',
        decreases n - i,
    {
        if s.get_char(i) == ',' {
            proof {
                lemma_find_char_at(s@, ',', i as int);
            }
            return Some(i);
        }
        i = i + 1;
    }
    proof {
        lemma_find_char_none(s@, ',');
    }
    None
}

/// Parses one trimmed manifest line.
fn parse_restore_point(line: &str) -> (r: Option<RestorePoint>)
    ensures
        r is Some <==> parse_line_spec(line@) is Some,
        r is Some ==> r->0@ == parse_line_spec(line@)->0,
{
    let n = line.unicode_len();
    let i = match find_comma(line) {
        Some(i) => i,
        None => {
            return None;
        },
    };
    proof {
        lemma_find_char(line@, ',');
    }
    let rest = line.substring_char(i + 1, n);
    proof {
        assert(rest@ =~= line@.skip(i + 1));
    }
    let j = match find_comma(rest) {
        Some(j) => j,
        None => {
            return None;
        },
    };
    proof {
        lemma_find_char(rest@, ',');
    }
    let from_str = line.substring_char(0, i);
    let to_str = rest.substring_char(0, j);
    proof {
        assert(from_str@ =~= line@.take(i as int));
        assert(to_str@ =~= rest@.take(j as int));
    }
    let from = match parse_u32_str(from_str) {
        Some(v) => v,
        None => {
            return None;
        },
    };
    let to = match parse_u32_str(to_str) {
        Some(v) => v,
        None => {
            return None;
        },
    };
    let m = rest.unicode_len();
    let hash_str = rest.substring_char(j + 1, m);
    proof {
        assert(hash_str@ =~= rest@.skip(j + 1));
    }
    if hash_str.unicode_len() < 4 {
        return None;
    }
    let mut hash = String::new();
    hash.append(hash_str);
    Some(RestorePoint { from, to, hash })
}

/// Printing and parsing are inverse: the manifest line a well-formed point
/// renders to (`to_line`) parses back to exactly that point.
pub proof fn lemma_line_round_trip(p: RestorePointModel)
    requires
        wf_point(p),
    ensures
        parse_line_spec(dec_of(p.from as nat) + ","@ + dec_of(p.to as nat) + ","@ + p.hash)
            == Some(p),
{
    reveal_strlit(",");
    let from_s = dec_of(p.from as nat);
    let to_s = dec_of(p.to as nat);
    let line = from_s + ","@ + to_s + ","@ + p.hash;
    lemma_dec_of_digits(p.from as nat);
    lemma_dec_of_digits(p.to as nat);
    lemma_dec_val_round_trip(p.from as nat);
    lemma_dec_val_round_trip(p.to as nat);
    let i = from_s.len() as int;
    assert(line[i] == ',');
    assert forall|j: int| 0 <= j < i implies line[j] != ',' by {
        assert(line[j] == from_s[j]);
        assert(is_digit(from_s[j]));
    }
    lemma_find_char_at(line, ',', i);
    assert(line.take(i) =~= from_s);
    let rest = line.skip(i + 1);
    assert(rest =~= to_s + ","@ + p.hash);
    let j = to_s.len() as int;
    assert(rest[j] == ',');
    assert forall|k: int| 0 <= k < j implies rest[k] != ',' by {
        assert(rest[k] == to_s[k]);
        assert(is_digit(to_s[k]));
    }
    lemma_find_char_at(rest, ',', j);
    assert(rest.take(j) =~= to_s);
    assert(rest.skip(j + 1) =~= p.hash);
}

/// The points a sequence of raw manifest lines denotes: each line is trimmed
/// of ASCII whitespace, blank lines are skipped, and every remaining line
/// must parse.
pub open spec fn parse_lines_spec(lines: Seq<Seq<char>>) -> Option<Seq<RestorePointModel>>
    decreases lines.len(),
{
    if lines.len() == 0 {
        Some(Seq::empty())
    } else {
        let t = trim_spec(lines.first());
        let rest = parse_lines_spec(lines.drop_first());
        if t.len() == 0 {
            rest
        } else {
            match parse_line_spec(t) {
                None => None,
                Some(p) => match rest {
                    None => None,
                    Some(ps) => Some(seq![p] + ps),
                },
            }
        }
    }
}

/// The points a manifest text denotes, or `None` if any non-blank line is
/// malformed.
pub open spec fn parse_manifest_spec(s: Seq<char>) -> Option<Seq<RestorePointModel>> {
    parse_lines_spec(split_on(s, '\n'))
}

/// `acc` prepended to a parse outcome.
pub open spec fn opt_prepend(acc: Seq<RestorePointModel>, rest: Option<Seq<RestorePointModel>>) -> Option<
    Seq<RestorePointModel>,
> {
    match rest {
        None => None,
        Some(ps) => Some(acc + ps),
    }
}

/// Whether `p` covers `layer`: `layer` lies in the half-open range.
pub open spec fn covers(p: RestorePointModel, layer: u32) -> bool {
    p.from <= layer < p.to
}

/// The index of the first point covering `layer`, or `-1`.
pub open spec fn first_covering(points: Seq<RestorePointModel>, layer: u32) -> int
    decreases points.len(),
{
    if points.len() == 0 {
        -1
    } else if covers(points.first(), layer) {
        0
    } else {
        let r = first_covering(points.drop_first(), layer);
        if r == -1 {
            -1
        } else {
            r + 1
        }
    }
}

/// What `first_covering` returns, as bounds and point-wise facts.
pub proof fn lemma_first_covering(points: Seq<RestorePointModel>, layer: u32)
    ensures
        first_covering(points, layer) == -1 ==> (forall|j: int|
            0 <= j < points.len() ==> !covers(points[j], layer)),
        first_covering(points, layer) != -1 ==> {
            let i = first_covering(points, layer);
            &&& 0 <= i < points.len()
            &&& covers(points[i], layer)
            &&& forall|j: int| 0 <= j < i ==> !covers(points[j], layer)
        },
    decreases points.len(),
{
    if points.len() > 0 && !covers(points.first(), layer) {
        lemma_first_covering(points.drop_first(), layer);
        assert(forall|j: int|
            1 <= j < points.len() ==> points[j] == points.drop_first()[j - 1]);
    }
}

/// The converse: a covering point at `i` with none before it pins
/// `first_covering`.
proof fn lemma_first_covering_at(points: Seq<RestorePointModel>, layer: u32, i: int)
    requires
        0 <= i < points.len(),
        covers(points[i], layer),
        forall|j: int| 0 <= j < i ==> !covers(#[trigger] points[j], layer),
    ensures
        first_covering(points, layer) == i,
    decreases points.len(),
{
    if i > 0 {
        assert(forall|j: int|
            0 <= j < points.drop_first().len() ==> points.drop_first()[j] == points[j + 1]);
        lemma_first_covering_at(points.drop_first(), layer, i - 1);
    }
}

/// And its twin: no covering point at all means `first_covering` is `-1`.
proof fn lemma_first_covering_none(points: Seq<RestorePointModel>, layer: u32)
    requires
        forall|j: int| 0 <= j < points.len() ==> !covers(#[trigger] points[j], layer),
    ensures
        first_covering(points, layer) == -1,
    decreases points.len(),
{
    if points.len() > 0 {
        assert(forall|j: int|
            0 <= j < points.drop_first().len() ==> points.drop_first()[j] == points[j + 1]);
        lemma_first_covering_none(points.drop_first(), layer);
    }
}

/// The planned tail of the manifest for a restore starting at `layer_from`:
/// from the first covering point, stepped back `jump_back` extra points; if
/// nothing covers `layer_from`, the last `jump_back` points, which is empty
/// when `jump_back` is zero.
pub open spec fn plan_of(
    points: Seq<RestorePointModel>,
    layer_from: u32,
    jump_back: nat,
) -> Seq<RestorePointModel> {
    let t = first_covering(points, layer_from);
    if t >= 0 {
        points.skip(if t - jump_back >= 0 {
            t - jump_back
        } else {
            0
        })
    } else if jump_back == 0 {
        Seq::empty()
    } else {
        points.skip(if points.len() - jump_back >= 0 {
            points.len() - jump_back
        } else {
            0
        })
    }
}

/// Parses the manifest text into its restore points: one `{from},{to},{hash}`
/// line per point, blank lines skipped, any malformed line an error.
pub fn parse_manifest(metadata: &str) -> (r: Result<Vec<RestorePoint>, SyncError>)
    ensures
        r is Ok <==> parse_manifest_spec(metadata@) is Some,
        r is Ok ==> views_of(r->Ok_0@) == parse_manifest_spec(metadata@)->0,
        r is Err ==> r->Err_0 == SyncError::ManifestParse,
{
    let n = metadata.unicode_len();
    let mut points: Vec<RestorePoint> = Vec::new();
    let ghost full: Seq<char> = metadata@;
    let mut pos: usize = 0;
    proof {
        assert(full.skip(0) == full);
    }
    loop
        invariant_except_break
            pos <= n,
            parse_manifest_spec(full) == opt_prepend(
                views_of(points@),
                parse_lines_spec(split_on(full.skip(pos as int), '\n')),
            ),
        invariant
            n == metadata@.len(),
            full == metadata@,
        ensures
            parse_manifest_spec(full) == Some(views_of(points@)),
        decreases n - pos,
    {
        let ghost rem: Seq<char> = full.skip(pos as int);
        // Find the end of the current line.
        let mut end: usize = pos;
        while end < n && metadata.get_char(end) != '\n'
            invariant
                pos <= end <= n,
                n == metadata@.len(),
                full == metadata@,
                forall|j: int| pos <= j < end ==> full[j] != '\n',
            decreases n - end,
        {
            end = end + 1;
        }
        let ghost rest_lines: Seq<Seq<char>> = if end < n {
            split_on(full.skip(end + 1), '\n')
        } else {
            Seq::empty()
        };
        proof {
            assert(forall|j: int| 0 <= j < rem.len() ==> rem[j] == full[pos + j]);
            if end < n {
                lemma_find_char_at(rem, '\n', end - pos);
                assert(rem.take(end - pos) =~= full.subrange(pos as int, end as int));
                assert(rem.skip(end - pos + 1) =~= full.skip(end + 1));
            } else {
                lemma_find_char_none(rem, '\n');
                assert(rem.take(rem.len() as int) =~= full.subrange(pos as int, end as int));
            }
        }
        let line = metadata.substring_char(pos, end);
        let ghost line_views: Seq<Seq<char>> = split_on(rem, '\n');
        proof {
            if end < n {
                assert(line_views == seq![line@] + rest_lines);
                assert(line_views.first() == line@);
                assert(line_views.drop_first() =~= rest_lines);
            } else {
                assert(line_views == seq![line@]);
                assert(line_views.first() == line@);
                assert(line_views.drop_first() =~= rest_lines);
            }
            assert(parse_lines_spec(rest_lines) == Some(Seq::<RestorePointModel>::empty())
                || end < n);
        }
        let trimmed = trim_ascii(line);
        if trimmed.unicode_len() > 0 {
            let point = match parse_restore_point(trimmed) {
                Some(p) => p,
                None => {
                    return Err(SyncError::ManifestParse);
                },
            };
            let ghost old_points = points@;
            points.push(point);
            proof {
                assert(views_of(points@) =~= views_of(old_points).push(point@));
                // The parsed point moves from the head of the remainder to
                // the accumulator.
                if parse_lines_spec(rest_lines) is Some {
                    let ps = parse_lines_spec(rest_lines)->0;
                    assert(parse_lines_spec(line_views) == Some(seq![point@] + ps));
                    assert(views_of(old_points) + (seq![point@] + ps) =~= views_of(points@) + ps);
                } else {
                    assert(parse_lines_spec(line_views) is None);
                }
            }
        } else {
            proof {
                assert(parse_lines_spec(line_views) == parse_lines_spec(rest_lines));
            }
        }
        if end < n {
            pos = end + 1;
        } else {
            proof {
                assert(views_of(points@) + Seq::<RestorePointModel>::empty() =~= views_of(
                    points@,
                ));
            }
            break;
        }
    }
    Ok(points)
}

/// The index of the first point covering `layer`, or `None`.
fn first_covering_index(points: &Vec<RestorePoint>, layer: u32) -> (r: Option<usize>)
    ensures
        r is Some ==> r->0 < points@.len() && first_covering(views_of(points@), layer)
            == r->0 as int,
        r is None ==> first_covering(views_of(points@), layer) == -1,
{
    let n = points.len();
    let mut i: usize = 0;
    while i < n
        invariant
            i <= n,
            n == points@.len(),
            forall|j: int| 0 <= j < i ==> !covers(#[trigger] views_of(points@)[j], layer),
        decreases n - i,
    {
        let p = &points[i];
        if p.from <= layer && layer < p.to {
            proof {
                assert(covers(views_of(points@)[i as int], layer));
                lemma_first_covering_at(views_of(points@), layer, i as int);
            }
            return Some(i);
        }
        proof {
            assert(!covers(views_of(points@)[i as int], layer));
        }
        i = i + 1;
    }
    proof {
        lemma_first_covering_none(views_of(points@), layer);
    }
    None
}

/// Selects the plan from already-parsed points: everything from the first
/// point covering `layer_from`, stepped back `jump_back`; with no covering
/// point, the last `jump_back` points.
pub fn plan_points(points: Vec<RestorePoint>, layer_from: u32, jump_back: usize) -> (r: Vec<
    RestorePoint,
>)
    ensures
        views_of(r@) == plan_of(views_of(points@), layer_from, jump_back as nat),
{
    let target = first_covering_index(&points, layer_from);
    let ghost all_points: Seq<RestorePoint> = points@;
    let mut points = points;
    // Drop everything before the jump-back window.
    let start: usize = match target {
        Some(t) => {
            if jump_back > t {
                0
            } else {
                t - jump_back
            }
        },
        None => {
            if jump_back == 0 {
                points.len()
            } else if jump_back > points.len() {
                0
            } else {
                points.len() - jump_back
            }
        },
    };
    let plan = points.split_off(start);
    proof {
        assert(views_of(plan@) =~= plan_of(
            views_of(all_points),
            layer_from,
            jump_back as nat,
        ));
    }
    plan
}

/// Whether the manifest holds any point at or after `layer`: one that covers
/// it or lies wholly above it.
pub open spec fn has_point_at_or_after(points: Seq<RestorePointModel>, layer: u32) -> bool {
    exists|i: int| 0 <= i < points.len() && (#[trigger] points[i]).to > layer
}

/// Whether any of the parsed points reaches past `layer`. Where this is
/// false of an empty plan, the local database already holds everything the
/// manifest offers.
pub fn any_point_at_or_after(points: &Vec<RestorePoint>, layer: u32) -> (r: bool)
    ensures
        r == has_point_at_or_after(views_of(points@), layer),
{
    let n = points.len();
    let mut i: usize = 0;
    while i < n
        invariant
            i <= n,
            n == points@.len(),
            forall|j: int| 0 <= j < i ==> (#[trigger] views_of(points@)[j]).to <= layer,
        decreases n - i,
    {
        if points[i].to > layer {
            proof {
                assert(views_of(points@)[i as int].to > layer);
            }
            return true;
        }
        proof {
            assert(views_of(points@)[i as int].to <= layer);
        }
        i = i + 1;
    }
    false
}

/// Finds the restore points to apply for layers at or after `layer_from`, as
/// the manifest text `metadata` describes them, stepping `jump_back` extra
/// points back to re-verify already-covered history. A malformed manifest is
/// an error; an empty plan is not.
pub fn find_restore_points(layer_from: u32, metadata: &str, jump_back: usize) -> (r: Result<
    Vec<RestorePoint>,
    SyncError,
>)
    ensures
        r is Ok <==> parse_manifest_spec(metadata@) is Some,
        r is Ok ==> views_of(r->Ok_0@) == plan_of(
            parse_manifest_spec(metadata@)->0,
            layer_from,
            jump_back as nat,
        ),
        r is Err ==> r->Err_0 == SyncError::ManifestParse,
{
    let points = match parse_manifest(metadata) {
        Ok(points) => points,
        Err(e) => {
            return Err(e);
        },
    };
    Ok(plan_points(points, layer_from, jump_back))
}

/// A well-formed manifest: every range is non-empty and consecutive points
/// are contiguous, so the points stand in ascending order.
pub open spec fn wf_manifest(points: Seq<RestorePointModel>) -> bool {
    &&& forall|i: int| 0 <= i < points.len() ==> points[i].from < (#[trigger] points[i]).to
    &&& forall|i: int|
        0 <= i + 1 < points.len() ==> (#[trigger] points[i]).to == points[i + 1].from
}

/// In a well-formed manifest whose coverage reaches `layer` from below, a
/// point standing before position `t` ends at or below `layer` whenever no
/// point before `t` covers `layer`.
proof fn lemma_prefix_ends_below(points: Seq<RestorePointModel>, layer: u32, t: int, i: int)
    requires
        wf_manifest(points),
        points.len() > 0,
        points[0].from <= layer,
        0 <= i < t <= points.len(),
        forall|j: int| 0 <= j < t ==> !covers(#[trigger] points[j], layer),
    ensures
        points[i].to <= layer,
    decreases i,
{
    if i == 0 {
        assert(!covers(points[0], layer));
    } else {
        lemma_prefix_ends_below(points, layer, t, i - 1);
        assert(points[i - 1].to == points[i].from);
        assert(!covers(points[i], layer));
    }
}

/// Past a covering point, every range of a well-formed manifest ends above
/// `layer`.
proof fn lemma_suffix_ends_above(points: Seq<RestorePointModel>, layer: u32, t: int, i: int)
    requires
        wf_manifest(points),
        0 <= t <= i < points.len(),
        covers(points[t], layer),
    ensures
        points[i].to > layer,
    decreases i - t,
{
    if i > t {
        lemma_suffix_ends_above(points, layer, t, i - 1);
        assert(points[i - 1].to == points[i].from);
    }
}

/// A sequence that fails a predicate up to `k` and satisfies it from `k` on
/// filters to exactly its tail from `k`.
proof fn lemma_filter_is_skip(
    points: Seq<RestorePointModel>,
    pred: spec_fn(RestorePointModel) -> bool,
    k: int,
)
    requires
        0 <= k <= points.len(),
        forall|i: int| 0 <= i < k ==> !pred(#[trigger] points[i]),
        forall|i: int| k <= i < points.len() ==> pred(#[trigger] points[i]),
    ensures
        points.filter(pred) == points.skip(k),
    decreases points.len(),
{
    reveal(Seq::filter);
    if points.len() == 0 {
        assert(points.filter(pred) =~= points.skip(k));
    } else if k == points.len() {
        assert(!pred(points.last()));
        lemma_filter_is_skip(points.drop_last(), pred, k - 1);
        assert(points.drop_last().skip(k - 1) =~= Seq::<RestorePointModel>::empty());
        assert(points.skip(k) =~= Seq::<RestorePointModel>::empty());
    } else {
        assert(pred(points.last()));
        lemma_filter_is_skip(points.drop_last(), pred, k);
        assert(points.drop_last().skip(k).push(points.last()) =~= points.skip(k));
    }
}

/// With no jump-back, the plan for a well-formed manifest that starts at or
/// below `layer_from` is exactly the points whose range contains or follows
/// `layer_from`, in their manifest order, none skipped, none repeated.
/// (A manifest that starts above `layer_from` covers nothing for it; there
/// the plan is empty, see `lemma_plan_empty_when_nothing_covers`.)
pub proof fn lemma_plan_complete(points: Seq<RestorePointModel>, layer_from: u32)
    requires
        wf_manifest(points),
        points.len() == 0 || points[0].from <= layer_from,
    ensures
        plan_of(points, layer_from, 0) == points.filter(
            |p: RestorePointModel| p.to > layer_from,
        ),
{
    let pred = |p: RestorePointModel| p.to > layer_from;
    lemma_first_covering(points, layer_from);
    let t = first_covering(points, layer_from);
    if t == -1 {
        assert forall|i: int| 0 <= i < points.len() implies !pred(#[trigger] points[i]) by {
            lemma_prefix_ends_below(points, layer_from, points.len() as int, i);
        }
        lemma_filter_is_skip(points, pred, points.len() as int);
        assert(points.skip(points.len() as int) =~= Seq::<RestorePointModel>::empty());
    } else {
        assert forall|i: int| 0 <= i < t implies !pred(#[trigger] points[i]) by {
            lemma_prefix_ends_below(points, layer_from, t, i);
        }
        assert forall|i: int| t <= i < points.len() implies pred(#[trigger] points[i]) by {
            lemma_suffix_ends_above(points, layer_from, t, i);
        }
        lemma_filter_is_skip(points, pred, t);
    }
}

/// A positive jump-back keeps the zero-jump-back tail and prefixes it with
/// up to `jump_back` of the points just before it: as many as stand before
/// the tail, and never indexing before the start of the manifest.
pub proof fn lemma_jump_back_window(points: Seq<RestorePointModel>, layer_from: u32, jump_back: nat)
    requires
        jump_back > 0,
    ensures
        ({
            let plan0 = plan_of(points, layer_from, 0);
            let plank = plan_of(points, layer_from, jump_back);
            let tail_start = points.len() - plan0.len();
            let win_start = if tail_start - jump_back >= 0 {
                tail_start - jump_back
            } else {
                0
            };
            &&& plank == points.subrange(win_start, tail_start as int) + plan0
            &&& plank.len() == plan0.len() + if jump_back <= tail_start {
                jump_back as int
            } else {
                tail_start as int
            }
        }),
{
    lemma_first_covering(points, layer_from);
    let t = first_covering(points, layer_from);
    let plan0 = plan_of(points, layer_from, 0);
    let plank = plan_of(points, layer_from, jump_back);
    if t >= 0 {
        assert(plan0 == points.skip(t));
        let win_start = if t - jump_back >= 0 {
            t - jump_back
        } else {
            0
        };
        assert(plank == points.skip(win_start));
        assert(points.subrange(win_start, t) + points.skip(t) =~= points.skip(win_start));
    } else {
        assert(plan0 =~= Seq::<RestorePointModel>::empty());
        let len = points.len() as int;
        let win_start = if len - jump_back >= 0 {
            len - jump_back
        } else {
            0
        };
        assert(plank == points.skip(win_start));
        assert(points.subrange(win_start, len) + plan0 =~= points.skip(win_start));
    }
}

/// Every point a manifest parses to is well formed: its hash carries at
/// least the four characters the chain check needs.
pub proof fn lemma_parsed_points_wf(lines: Seq<Seq<char>>)
    requires
        parse_lines_spec(lines) is Some,
    ensures
        forall|i: int|
            0 <= i < parse_lines_spec(lines)->0.len() ==> wf_point(
                #[trigger] parse_lines_spec(lines)->0[i],
            ),
    decreases lines.len(),
{
    if lines.len() > 0 {
        lemma_parsed_points_wf(lines.drop_first());
        let t = trim_spec(lines.first());
        if t.len() != 0 {
            let p = parse_line_spec(t)->0;
            let ps = parse_lines_spec(lines.drop_first())->0;
            assert(wf_point(p));
            assert(forall|i: int|
                1 <= i < (seq![p] + ps).len() ==> (seq![p] + ps)[i] == ps[i - 1]);
        }
    }
}

/// When no manifest point covers `layer_from` and no jump-back is asked for,
/// the plan is empty.
pub proof fn lemma_plan_empty_when_nothing_covers(points: Seq<RestorePointModel>, layer_from: u32)
    requires
        forall|i: int| 0 <= i < points.len() ==> !covers(#[trigger] points[i], layer_from),
    ensures
        plan_of(points, layer_from, 0) == Seq::<RestorePointModel>::empty(),
{
    lemma_first_covering(points, layer_from);
}

} // verus!
