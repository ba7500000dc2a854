//! Sets of screen cells held as rectangles that do not overlap, in one
//! fixed arrangement for each set of cells.

use vstd::prelude::*;
use crate::rect::{all_valid, covered, TickitRect, COORD_LIMIT};

verus! {

/// Whether the cell at (`line`, `col`) lies in a rectangle of `keep` and
/// in no rectangle of `holes`.
pub open spec fn inside(keep: Seq<TickitRect>, holes: Seq<TickitRect>, line: int, col: int) -> bool {
    covered(keep, line, col) && !covered(holes, line, col)
}

/// Whether `a` comes before `b` in the order of a set: higher up, or on
/// the same line and further left.
pub open spec fn comes_before(a: TickitRect, b: TickitRect) -> bool {
    a.top < b.top || (a.top == b.top && a.left < b.left)
}

/// Whether `a` and `b` share a line.
pub open spec fn share_line(a: TickitRect, b: TickitRect) -> bool {
    a.top < b.bottom_edge() && b.top < a.bottom_edge()
}

/// Whether the columns of `a` and `b` are apart, with at least one
/// column between them.
pub open spec fn columns_apart(a: TickitRect, b: TickitRect) -> bool {
    a.right_edge() < b.left || b.right_edge() < a.left
}

/// Whether `b` lies directly below `a` and has the same columns.
pub open spec fn stacked(a: TickitRect, b: TickitRect) -> bool {
    a.bottom_edge() == b.top && a.left == b.left && a.cols == b.cols
}

/// The one arrangement in which a set of cells is held. Every
/// rectangle is valid and holds a cell; the rectangles are in order,
/// from the top down and on one line from the left; two rectangles that
/// share a line have a column between them that neither holds, so each
/// rectangle spans whole runs of cells on its lines; and no rectangle
/// lies directly below another with the same columns, so each is as
/// tall as it can be.
pub open spec fn canonical(s: Seq<TickitRect>) -> bool {
    &&& forall|i: int| 0 <= i < s.len() ==> (#[trigger] s[i]).valid() && !s[i].is_empty()
    &&& forall|i: int, j: int| 0 <= i < j < s.len() ==> comes_before(#[trigger] s[i], #[trigger] s[j])
    &&& forall|i: int, j: int|
        0 <= i < s.len() && 0 <= j < s.len() && i != j && share_line(#[trigger] s[i], #[trigger] s[j])
            ==> columns_apart(s[i], s[j])
    &&& forall|i: int, j: int|
        0 <= i < s.len() && 0 <= j < s.len() ==> !stacked(#[trigger] s[i], #[trigger] s[j])
}

/// Whether `v` is the top or the bottom edge of `r` (`vertical`), or
/// its left or right edge.
pub open spec fn edge_of(r: TickitRect, vertical: bool, v: int) -> bool {
    if vertical {
        r.top == v || r.bottom_edge() == v
    } else {
        r.left == v || r.right_edge() == v
    }
}

/// Whether `v` is an edge of a rectangle of `rects`.
pub open spec fn is_edge(rects: Seq<TickitRect>, vertical: bool, v: int) -> bool {
    exists|i: int| 0 <= i < rects.len() && #[trigger] edge_of(rects[i], vertical, v)
}

/// Whether no edge of `rects` lies strictly between `lo` and `hi`.
pub open spec fn no_edge_in(rects: Seq<TickitRect>, vertical: bool, lo: int, hi: int) -> bool {
    forall|v: int| lo < v < hi ==> !(#[trigger] is_edge(rects, vertical, v))
}

/// Whether no edge of `keep` or `holes` lies strictly between `lo` and
/// `hi`.
pub open spec fn no_edge_between(
    keep: Seq<TickitRect>,
    holes: Seq<TickitRect>,
    vertical: bool,
    lo: int,
    hi: int,
) -> bool {
    no_edge_in(keep, vertical, lo, hi) && no_edge_in(holes, vertical, lo, hi)
}

/// The smaller of an optional edge and an edge.
fn min_edge(best: Option<i32>, v: i32) -> (r: i32)
    ensures
        r == match best {
            Some(b) => if b <= v {
                b
            } else {
                v
            },
            None => v,
        },
{
    match best {
        Some(b) => if b <= v {
            b
        } else {
            v
        },
        None => v,
    }
}

/// The smallest edge of `rects` after `after`, or `best` if that is
/// smaller or there is none.
fn next_edge_in(rects: &Vec<TickitRect>, vertical: bool, after: i32, start: Option<i32>) -> (r:
    Option<i32>)
    requires
        all_valid(rects@),
        start matches Some(b) ==> after < b <= COORD_LIMIT,
    ensures
        r matches Some(v) ==> after < v <= COORD_LIMIT && (start == Some(v) || is_edge(
            rects@,
            vertical,
            v as int,
        )),
        r matches Some(v) ==> (start matches Some(b) ==> v <= b),
        r matches Some(v) ==> no_edge_in(rects@, vertical, after as int, v as int),
        r is None ==> start is None && no_edge_in(
            rects@,
            vertical,
            after as int,
            COORD_LIMIT + 1,
        ),
{
    let mut best = start;
    let mut i: usize = 0;
    while i < rects.len()
        invariant
            i <= rects.len(),
            all_valid(rects@),
            best matches Some(b) ==> after < b <= COORD_LIMIT && (start == Some(b) || is_edge(
                rects@,
                vertical,
                b as int,
            )),
            best matches Some(b) ==> (start matches Some(b0) ==> b <= b0),
            best is None ==> start is None,
            forall|k: int, e: int|
                0 <= k < i && after < e && (best matches Some(b) ==> e < b) ==> !(
                #[trigger] edge_of(rects@[k], vertical, e)),
        decreases rects.len() - i,
    {
        let r = rects[i];
        assert(r.valid());
        let (lo, hi) = if vertical {
            (r.top, r.bottom())
        } else {
            (r.left, r.right())
        };
        assert(edge_of(rects@[i as int], vertical, lo as int));
        assert(edge_of(rects@[i as int], vertical, hi as int));
        if lo > after {
            best = Some(min_edge(best, lo));
        }
        if hi > after {
            best = Some(min_edge(best, hi));
        }
        i += 1;
    }
    proof {
        match best {
            Some(v) => {
                assert forall|e: int| after < e < v implies !(#[trigger] is_edge(
                    rects@,
                    vertical,
                    e,
                )) by {
                    if is_edge(rects@, vertical, e) {
                        let k = choose|k: int|
                            0 <= k < rects@.len() && #[trigger] edge_of(rects@[k], vertical, e);
                        assert(false);
                    }
                }
            },
            None => {
                assert forall|e: int| after < e < COORD_LIMIT + 1 implies !(#[trigger] is_edge(
                    rects@,
                    vertical,
                    e,
                )) by {
                    if is_edge(rects@, vertical, e) {
                        let k = choose|k: int|
                            0 <= k < rects@.len() && #[trigger] edge_of(rects@[k], vertical, e);
                        assert(false);
                    }
                }
            },
        }
    }
    best
}

/// The smallest edge of `keep` or `holes` after `after`, if any.
fn next_edge(keep: &Vec<TickitRect>, holes: &Vec<TickitRect>, vertical: bool, after: i32) -> (r:
    Option<i32>)
    requires
        all_valid(keep@),
        all_valid(holes@),
    ensures
        r matches Some(v) ==> after < v <= COORD_LIMIT && (is_edge(keep@, vertical, v as int)
            || is_edge(holes@, vertical, v as int)) && no_edge_between(
            keep@,
            holes@,
            vertical,
            after as int,
            v as int,
        ),
        r is None ==> no_edge_between(keep@, holes@, vertical, after as int, COORD_LIMIT + 1),
{
    let a = next_edge_in(keep, vertical, after, None);
    next_edge_in(holes, vertical, after, a)
}

/// Whether a rectangle of `rects` holds the cell.
fn covers(rects: &Vec<TickitRect>, line: i32, col: i32) -> (r: bool)
    requires
        all_valid(rects@),
    ensures
        r == covered(rects@, line as int, col as int),
{
    let mut i: usize = 0;
    while i < rects.len()
        invariant
            i <= rects.len(),
            all_valid(rects@),
            forall|k: int| 0 <= k < i ==> !(#[trigger] rects@[k]).has(line as int, col as int),
        decreases rects.len() - i,
    {
        let r = rects[i];
        assert(r.valid());
        if r.top <= line && line < r.bottom() && r.left <= col && col < r.right() {
            assert(rects@[i as int].has(line as int, col as int));
            return true;
        }
        i += 1;
    }
    false
}

/// Between two edges next to each other, a line or column is like the
/// first: a rectangle holds a cell there exactly if it holds the cell
/// at the first edge.
proof fn lemma_flat(rects: Seq<TickitRect>, vertical: bool, lo: int, hi: int, at: int, other: int)
    requires
        no_edge_in(rects, vertical, lo, hi),
        lo <= at < hi,
    ensures
        vertical ==> (covered(rects, at, other) <==> covered(rects, lo, other)),
        !vertical ==> (covered(rects, other, at) <==> covered(rects, other, lo)),
{
    assert forall|i: int| 0 <= i < rects.len() implies (vertical ==> (#[trigger] rects[i]).has(
        at,
        other,
    ) == rects[i].has(lo, other)) && (!vertical ==> rects[i].has(other, at) == rects[i].has(
        other,
        lo,
    )) by {
        let r = rects[i];
        if vertical {
            if lo < r.top < hi {
                assert(edge_of(rects[i], vertical, r.top as int));
                assert(is_edge(rects, vertical, r.top as int));
            }
            if lo < r.bottom_edge() < hi {
                assert(edge_of(rects[i], vertical, r.bottom_edge()));
                assert(is_edge(rects, vertical, r.bottom_edge()));
            }
        } else {
            if lo < r.left < hi {
                assert(edge_of(rects[i], vertical, r.left as int));
                assert(is_edge(rects, vertical, r.left as int));
            }
            if lo < r.right_edge() < hi {
                assert(edge_of(rects[i], vertical, r.right_edge()));
                assert(is_edge(rects, vertical, r.right_edge()));
            }
        }
    }
    if vertical {
        if covered(rects, at, other) {
            let i = choose|i: int| 0 <= i < rects.len() && #[trigger] rects[i].has(at, other);
            assert(rects[i].has(lo, other));
        }
        if covered(rects, lo, other) {
            let i = choose|i: int| 0 <= i < rects.len() && #[trigger] rects[i].has(lo, other);
            assert(rects[i].has(at, other));
        }
    } else {
        if covered(rects, other, at) {
            let i = choose|i: int| 0 <= i < rects.len() && #[trigger] rects[i].has(other, at);
            assert(rects[i].has(other, lo));
        }
        if covered(rects, other, lo) {
            let i = choose|i: int| 0 <= i < rects.len() && #[trigger] rects[i].has(other, lo);
            assert(rects[i].has(other, at));
        }
    }
}

/// Before the first edge and from the last edge on, no rectangle holds
/// a cell.
proof fn lemma_outside_edges(
    rects: Seq<TickitRect>,
    vertical: bool,
    at: int,
    other: int,
    edge: int,
)
    requires
        all_valid(rects),
        (at >= edge && no_edge_in(rects, vertical, edge, COORD_LIMIT + 1)) || (at < edge
            && no_edge_in(rects, vertical, -COORD_LIMIT - 1, edge)),
    ensures
        vertical ==> !covered(rects, at, other),
        !vertical ==> !covered(rects, other, at),
{
    assert forall|i: int| 0 <= i < rects.len() implies (vertical ==> !(#[trigger] rects[i]).has(
        at,
        other,
    )) && (!vertical ==> !rects[i].has(other, at)) by {
        let r = rects[i];
        assert(r.valid());
        if vertical {
            assert(edge_of(rects[i], vertical, r.top as int));
            assert(is_edge(rects, vertical, r.top as int));
            assert(edge_of(rects[i], vertical, r.bottom_edge()));
            assert(is_edge(rects, vertical, r.bottom_edge()));
        } else {
            assert(edge_of(rects[i], vertical, r.left as int));
            assert(is_edge(rects, vertical, r.left as int));
            assert(edge_of(rects[i], vertical, r.right_edge()));
            assert(is_edge(rects, vertical, r.right_edge()));
        }
    }
}

/// The state of the rectangles while the band of lines from `t` to `b`
/// is filled from the left: every rectangle starts at or above `t`, and
/// ends at or above `t` or, if it is part of the band, at `b` and left
/// of `frontier`.
pub open spec fn band_state(s: Seq<TickitRect>, t: int, b: int, frontier: int) -> bool {
    forall|k: int|
        0 <= k < s.len() ==> (#[trigger] s[k]).top <= t && (s[k].bottom_edge() <= t || (
        s[k].bottom_edge() == b && s[k].right_edge() < frontier))
}

/// Adds the cells of lines `t` to `b`, columns `l` to `r`, to `out`:
/// joined to the rectangle directly above with the same columns, if
/// there is one, else as a rectangle of their own.
#[verifier::rlimit(40)]
fn emit(out: &mut Vec<TickitRect>, t: i32, b: i32, l: i32, r: i32)
    requires
        canonical(old(out)@),
        band_state(old(out)@, t as int, b as int, l as int),
        -COORD_LIMIT <= t < b <= COORD_LIMIT,
        -COORD_LIMIT <= l < r <= COORD_LIMIT,
    ensures
        canonical(final(out)@),
        band_state(final(out)@, t as int, b as int, r + 1),
        forall|line: int, col: int|
            covered(final(out)@, line, col) <==> (covered(old(out)@, line, col) || (t <= line < b
                && l <= col < r)),
{
    let mut j: usize = 0;
    while j < out.len()
        invariant
            j <= out.len(),
            out@ == old(out)@,
            canonical(out@),
            band_state(out@, t as int, b as int, l as int),
            -COORD_LIMIT <= t < b <= COORD_LIMIT,
            -COORD_LIMIT <= l < r <= COORD_LIMIT,
            forall|k: int|
                0 <= k < j ==> !((#[trigger] out@[k]).bottom_edge() == t && out@[k].left == l
                    && out@[k].right_edge() == r),
        decreases out.len() - j,
    {
        let cur = out[j];
        assert(cur.valid());
        if cur.bottom() == t && cur.left == l && cur.right() == r {
            let joined = TickitRect { lines: b - cur.top, ..cur };
            let ghost before = out@;
            out[j] = joined;
            proof {
                let after = out@;
                assert(after == before.update(j as int, joined));
                assert forall|line: int, col: int|
                    covered(after, line, col) <==> (covered(before, line, col) || (t <= line < b
                        && l <= col < r)) by {
                    if covered(after, line, col) {
                        let i = choose|i: int|
                            0 <= i < after.len() && #[trigger] after[i].has(line, col);
                        if i != j {
                            assert(before[i].has(line, col));
                        } else {
                            if !(t <= line < b && l <= col < r) {
                                assert(before[j as int].has(line, col));
                            }
                        }
                    }
                    if covered(before, line, col) {
                        let i = choose|i: int|
                            0 <= i < before.len() && #[trigger] before[i].has(line, col);
                        if i != j {
                            assert(after[i] == before[i]);
                            assert(after[i].has(line, col));
                        } else {
                            assert(after[j as int].has(line, col));
                        }
                    }
                    if t <= line < b && l <= col < r {
                        assert(after[j as int].has(line, col));
                    }
                }
                assert forall|k: int| 0 <= k < after.len() implies (#[trigger] after[k]).valid()
                    && !after[k].is_empty() by {
                    if k != j {
                        assert(after[k] == before[k]);
                    }
                }
                assert forall|i: int, k: int| 0 <= i < k < after.len() implies comes_before(
                    #[trigger] after[i],
                    #[trigger] after[k],
                ) by {
                    assert(comes_before(before[i], before[k]));
                }
                assert forall|i: int, k: int|
                    0 <= i < after.len() && 0 <= k < after.len() && i != k && share_line(
                        #[trigger] after[i],
                        #[trigger] after[k],
                    ) implies columns_apart(after[i], after[k]) by {
                    if share_line(before[i], before[k]) {
                        assert(columns_apart(before[i], before[k]));
                    } else {
                        // the other one reaches into the band, so it is part of it
                        let o = if i == j {
                            k
                        } else {
                            i
                        };
                        assert(before[o].top <= t);
                        assert(before[o].bottom_edge() > t);
                    }
                }
                assert forall|i: int, k: int|
                    0 <= i < after.len() && 0 <= k < after.len() implies !stacked(
                    #[trigger] after[i],
                    #[trigger] after[k],
                ) by {
                    assert(!stacked(before[i], before[k]));
                    assert(before[i].top <= t && before[k].top <= t);
                }
                assert forall|k: int| 0 <= k < after.len() implies (#[trigger] after[k]).top <= t
                    && (after[k].bottom_edge() <= t || (after[k].bottom_edge() == b
                    && after[k].right_edge() < r + 1)) by {
                    if k != j {
                        assert(after[k] == before[k]);
                    }
                }
            }
            return ;
        }
        j += 1;
    }
    let fresh = TickitRect::init_bounded(t, l, b, r);
    let ghost before = out@;
    out.push(fresh);
    proof {
        let after = out@;
        let n = before.len() as int;
        assert forall|line: int, col: int|
            covered(after, line, col) <==> (covered(before, line, col) || (t <= line < b && l
                <= col < r)) by {
            if covered(after, line, col) {
                let i = choose|i: int| 0 <= i < after.len() && #[trigger] after[i].has(line, col);
                if i < n {
                    assert(before[i].has(line, col));
                }
            }
            if covered(before, line, col) {
                let i = choose|i: int|
                    0 <= i < before.len() && #[trigger] before[i].has(line, col);
                assert(after[i].has(line, col));
            }
            if t <= line < b && l <= col < r {
                assert(after[n].has(line, col));
            }
        }
        assert forall|k: int| 0 <= k < after.len() implies (#[trigger] after[k]).valid()
            && !after[k].is_empty() by {
            if k < n {
                assert(after[k] == before[k]);
            }
        }
        assert forall|i: int, k: int| 0 <= i < k < after.len() implies comes_before(
            #[trigger] after[i],
            #[trigger] after[k],
        ) by {
            if k < n {
                assert(comes_before(before[i], before[k]));
            } else {
                assert(before[i].top <= t);
                assert(before[i].valid() && !before[i].is_empty());
            }
        }
        assert forall|i: int, k: int|
            0 <= i < after.len() && 0 <= k < after.len() && i != k && share_line(
                #[trigger] after[i],
                #[trigger] after[k],
            ) implies columns_apart(after[i], after[k]) by {
            if i < n && k < n {
                assert(columns_apart(before[i], before[k]));
            } else {
                let o = if i == n {
                    k
                } else {
                    i
                };
                assert(before[o].top <= t);
            }
        }
        assert forall|i: int, k: int|
            0 <= i < after.len() && 0 <= k < after.len() implies !stacked(
            #[trigger] after[i],
            #[trigger] after[k],
        ) by {
            if i < n && k < n {
                assert(!stacked(before[i], before[k]));
            } else if i < n {
                assert(!(before[i].bottom_edge() == t && before[i].left == l
                    && before[i].right_edge() == r));
            } else if k < n {
                assert(before[k].top <= t);
            }
        }
        assert forall|k: int| 0 <= k < after.len() implies (#[trigger] after[k]).top <= t && (
        after[k].bottom_edge() <= t || (after[k].bottom_edge() == b && after[k].right_edge() < r
            + 1)) by {
            if k < n {
                assert(after[k] == before[k]);
            }
        }
    }
}

} // verus!

verus! {

/// Where no edge of `keep` lies after `edge`, no cell at or after
/// `edge` is inside; where none lies before `edge`, no cell before
/// `edge` is.
proof fn lemma_nothing_beyond(
    keep: Seq<TickitRect>,
    holes: Seq<TickitRect>,
    vertical: bool,
    at: int,
    other: int,
    edge: int,
)
    requires
        all_valid(keep),
        (at >= edge && no_edge_in(keep, vertical, edge, COORD_LIMIT + 1)) || (at < edge
            && no_edge_in(keep, vertical, -COORD_LIMIT - 1, edge)),
    ensures
        vertical ==> !inside(keep, holes, at, other),
        !vertical ==> !inside(keep, holes, other, at),
{
    lemma_outside_edges(keep, vertical, at, other, edge);
}

/// Rectangles without an edge after the lowest possible one hold no
/// cell.
proof fn lemma_empty_without_edges(rects: Seq<TickitRect>, vertical: bool)
    requires
        all_valid(rects),
        no_edge_in(rects, vertical, -COORD_LIMIT - 1, COORD_LIMIT + 1),
    ensures
        forall|line: int, col: int| !covered(rects, line, col),
{
    assert forall|line: int, col: int| !covered(rects, line, col) by {
        if vertical {
            lemma_outside_edges(rects, vertical, line, col, line);
            if covered(rects, line, col) {
                let i = choose|i: int| 0 <= i < rects.len() && #[trigger] rects[i].has(line, col);
                assert(rects[i].valid());
                assert(edge_of(rects[i], vertical, rects[i].top as int));
                assert(is_edge(rects, vertical, rects[i].top as int));
            }
        } else {
            if covered(rects, line, col) {
                let i = choose|i: int| 0 <= i < rects.len() && #[trigger] rects[i].has(line, col);
                assert(rects[i].valid());
                assert(edge_of(rects[i], vertical, rects[i].left as int));
                assert(is_edge(rects, vertical, rects[i].left as int));
            }
        }
    }
}

/// Whether `out` holds the cells of `start` and, of the band of lines
/// from `t` to `b`, the cells left of `frontier` whose column is inside
/// on the line `t`.
pub open spec fn band_cover(
    out: Seq<TickitRect>,
    start: Seq<TickitRect>,
    keep: Seq<TickitRect>,
    holes: Seq<TickitRect>,
    t: int,
    b: int,
    frontier: int,
) -> bool {
    forall|line: int, col: int|
        #![trigger covered(out, line, col)]
        covered(out, line, col) <==> (covered(start, line, col) || (t <= line < b && col
            < frontier && inside(keep, holes, t, col)))
}

/// Fills the band of lines from `t` to `b` into `out`, one run of cells
/// after another from the left.
#[verifier::rlimit(40)]
fn process_band(
    keep: &Vec<TickitRect>,
    holes: &Vec<TickitRect>,
    t: i32,
    b: i32,
    out: &mut Vec<TickitRect>,
)
    requires
        all_valid(keep@),
        all_valid(holes@),
        canonical(old(out)@),
        forall|k: int| 0 <= k < old(out)@.len() ==> (#[trigger] old(out)@[k]).bottom_edge() <= t,
        -COORD_LIMIT <= t < b <= COORD_LIMIT,
        no_edge_between(keep@, holes@, true, t as int, b as int),
    ensures
        canonical(final(out)@),
        forall|k: int| 0 <= k < final(out)@.len() ==> (#[trigger] final(out)@[k]).bottom_edge() <= b,
        forall|line: int, col: int|
            covered(final(out)@, line, col) <==> (covered(old(out)@, line, col) || (t <= line < b
                && inside(keep@, holes@, line, col))),
{
    let ghost start = out@;
    proof {
        // within the band every line is like the first
        assert forall|line: int, col: int| t <= line < b implies (inside(
            keep@,
            holes@,
            line,
            col,
        ) <==> inside(keep@, holes@, t as int, col)) by {
            lemma_flat(keep@, true, t as int, b as int, line, col);
            lemma_flat(holes@, true, t as int, b as int, line, col);
        }
    }
    let first = next_edge(keep, holes, false, -COORD_LIMIT - 1);
    let mut x: i32 = match first {
        Some(v) => v,
        None => {
            proof {
                assert forall|line: int, col: int| !inside(keep@, holes@, line, col) by {
                    lemma_empty_without_edges(keep@, false);
                }
            }
            return ;
        },
    };
    let mut open = false;
    let mut s: i32 = x;
    let mut nx = next_edge(keep, holes, false, x);
    proof {
        assert forall|col: int| col < x implies !inside(keep@, holes@, t as int, col) by {
            lemma_nothing_beyond(keep@, holes@, false, col, t as int, x as int);
        }
        assert(band_state(out@, t as int, b as int, x as int));
    }
    while nx.is_some()
        invariant
            all_valid(keep@),
            all_valid(holes@),
            -COORD_LIMIT <= t < b <= COORD_LIMIT,
            -COORD_LIMIT <= x <= COORD_LIMIT,
            open ==> -COORD_LIMIT <= s < x,
            canonical(out@),
            band_state(out@, t as int, b as int, if open {
                s as int
            } else {
                x as int
            }),
            open ==> forall|col: int| s <= col < x ==> inside(keep@, holes@, t as int, col),
            band_cover(out@, start, keep@, holes@, t as int, b as int, if open {
                s as int
            } else {
                x as int
            }),
            nx matches Some(v) ==> x < v <= COORD_LIMIT && no_edge_between(
                keep@,
                holes@,
                false,
                x as int,
                v as int,
            ),
            nx is None ==> no_edge_between(keep@, holes@, false, x as int, COORD_LIMIT + 1),
        decreases COORD_LIMIT - x,
    {
        let v = nx.unwrap();
        let m = covers(keep, t, x) && !covers(holes, t, x);
        proof {
            assert forall|col: int| x <= col < v implies (inside(keep@, holes@, t as int, col)
                <==> m) by {
                lemma_flat(keep@, false, x as int, v as int, col, t as int);
                lemma_flat(holes@, false, x as int, v as int, col, t as int);
            }
        }
        let ghost pre = out@;
        let ghost was_open = open;
        let ghost run = s;
        if m {
            if !open {
                open = true;
                s = x;
            }
        } else if open {
            emit(out, t, b, s, x);
            open = false;
        }
        proof {
            let frontier = if open {
                s as int
            } else {
                v as int
            };
            assert(band_cover(pre, start, keep@, holes@, t as int, b as int, if was_open {
                run as int
            } else {
                x as int
            }));
            assert forall|line: int, col: int|
                covered(out@, line, col) <==> (covered(start, line, col) || (t <= line < b && col
                    < frontier && inside(keep@, holes@, t as int, col))) by {
                assert(covered(pre, line, col) <==> (covered(start, line, col) || (t <= line < b
                    && col < (if was_open {
                    run as int
                } else {
                    x as int
                }) && inside(keep@, holes@, t as int, col))));
                if x <= col < v {
                    assert(inside(keep@, holes@, t as int, col) <==> m);
                }
                if was_open && run <= col < x {
                    assert(inside(keep@, holes@, t as int, col));
                }
                if !m && was_open {
                    assert(covered(out@, line, col) <==> (covered(pre, line, col) || (t <= line
                        < b && run <= col < x)));
                }
            }
            if open {
                assert forall|col: int| s <= col < v implies inside(
                    keep@,
                    holes@,
                    t as int,
                    col,
                ) by {
                    if x <= col < v {
                        assert(inside(keep@, holes@, t as int, col) <==> m);
                    }
                }
            }
        }
        x = v;
        nx = next_edge(keep, holes, false, x);
    }
    proof {
        assert forall|col: int| col >= x implies !inside(keep@, holes@, t as int, col) by {
            lemma_nothing_beyond(keep@, holes@, false, col, t as int, x as int);
        }
    }
    if open {
        emit(out, t, b, s, x);
    }
    proof {
        assert forall|k: int| 0 <= k < out@.len() implies (#[trigger] out@[k]).bottom_edge()
            <= b by {}
    }
}

/// The one arrangement of the cells that lie in a rectangle of `keep`
/// and in no rectangle of `holes`.
#[verifier::rlimit(40)]
pub fn rebuild(keep: &Vec<TickitRect>, holes: &Vec<TickitRect>) -> (out: Vec<TickitRect>)
    requires
        all_valid(keep@),
        all_valid(holes@),
    ensures
        canonical(out@),
        forall|line: int, col: int|
            #![trigger covered(out@, line, col)]
            covered(out@, line, col) <==> inside(keep@, holes@, line, col),
{
    let mut out: Vec<TickitRect> = Vec::new();
    let first = next_edge(keep, holes, true, -COORD_LIMIT - 1);
    let mut t: i32 = match first {
        Some(v) => v,
        None => {
            proof {
                assert forall|line: int, col: int| !inside(keep@, holes@, line, col) by {
                    lemma_empty_without_edges(keep@, true);
                }
            }
            return out;
        },
    };
    let mut nb = next_edge(keep, holes, true, t);
    proof {
        assert forall|line: int, col: int| line < t implies !inside(keep@, holes@, line, col) by {
            lemma_nothing_beyond(keep@, holes@, true, line, col, t as int);
        }
    }
    while nb.is_some()
        invariant
            all_valid(keep@),
            all_valid(holes@),
            -COORD_LIMIT <= t <= COORD_LIMIT,
            canonical(out@),
            forall|k: int| 0 <= k < out@.len() ==> (#[trigger] out@[k]).bottom_edge() <= t,
            forall|line: int, col: int|
                covered(out@, line, col) <==> (line < t && inside(keep@, holes@, line, col)),
            nb matches Some(v) ==> t < v <= COORD_LIMIT && no_edge_between(
                keep@,
                holes@,
                true,
                t as int,
                v as int,
            ),
            nb is None ==> no_edge_between(keep@, holes@, true, t as int, COORD_LIMIT + 1),
        decreases COORD_LIMIT - t,
    {
        let b = nb.unwrap();
        process_band(keep, holes, t, b, &mut out);
        t = b;
        nb = next_edge(keep, holes, true, t);
    }
    proof {
        assert forall|line: int, col: int| line >= t implies !inside(keep@, holes@, line, col) by {
            lemma_nothing_beyond(keep@, holes@, true, line, col, t as int);
        }
    }
    out
}

} // verus!

verus! {

/// A set of screen cells.
pub struct TickitRectSet {
    rects: Vec<TickitRect>,
}

fn copy_rects(v: &Vec<TickitRect>) -> (r: Vec<TickitRect>)
    ensures
        r@ == v@,
{
    let mut r: Vec<TickitRect> = Vec::new();
    let mut i: usize = 0;
    while i < v.len()
        invariant
            i <= v.len(),
            r@ == v@.subrange(0, i as int),
        decreases v.len() - i,
    {
        r.push(v[i]);
        i += 1;
        assert(r@ =~= v@.subrange(0, i as int));
    }
    assert(v@.subrange(0, v@.len() as int) =~= v@);
    r
}

impl View for TickitRectSet {
    type V = Seq<TickitRect>;

    closed spec fn view(&self) -> Seq<TickitRect> {
        self.rects@
    }
}

impl TickitRectSet {
    /// The rectangles are in the one arrangement of their cells.
    pub open spec fn wf(&self) -> bool {
        canonical(self@)
    }

    /// Whether the set holds the cell at (`line`, `col`).
    pub open spec fn has(&self, line: int, col: int) -> bool {
        covered(self@, line, col)
    }

    pub fn new() -> (s: TickitRectSet)
        ensures
            s.wf(),
            s@ == Seq::<TickitRect>::empty(),
    {
        TickitRectSet { rects: Vec::new() }
    }

    /// Takes every cell out of the set.
    pub fn clear(&mut self)
        ensures
            final(self).wf(),
            final(self)@ == Seq::<TickitRect>::empty(),
    {
        self.rects = Vec::new();
    }

    /// The rectangles of the set, from the top down and on one line
    /// from the left.
    pub fn get_rects(&self) -> (rects: Vec<TickitRect>)
        ensures
            rects@ == self@,
    {
        copy_rects(&self.rects)
    }

    /// The number of rectangles of the set.
    pub fn rects(&self) -> (n: usize)
        ensures
            n == self@.len(),
    {
        self.rects.len()
    }

    /// Puts the cells of `rect` into the set.
    pub fn add(&mut self, rect: &TickitRect)
        requires
            old(self).wf(),
            rect.valid(),
        ensures
            final(self).wf(),
            forall|line: int, col: int|
                #![trigger final(self).has(line, col)]
                final(self).has(line, col) <==> (old(self).has(line, col) || rect.has(line, col)),
    {
        let mut keep = copy_rects(&self.rects);
        keep.push(*rect);
        let holes: Vec<TickitRect> = Vec::new();
        proof {
            assert forall|i: int| 0 <= i < keep@.len() implies (#[trigger] keep@[i]).valid() by {
                if i < self.rects@.len() {
                    assert(self.rects@[i].valid());
                }
            }
        }
        let ghost before = self.rects@;
        self.rects = rebuild(&keep, &holes);
        proof {
            assert forall|line: int, col: int|
                #![trigger inside(keep@, holes@, line, col)]
                inside(keep@, holes@, line, col) <==> (covered(before, line, col) || rect.has(
                    line,
                    col,
                )) by {
                if covered(keep@, line, col) {
                    let i = choose|i: int| 0 <= i < keep@.len() && #[trigger] keep@[i].has(line, col);
                    if i < before.len() {
                        assert(before[i].has(line, col));
                    }
                }
                if covered(before, line, col) {
                    let i = choose|i: int|
                        0 <= i < before.len() && #[trigger] before[i].has(line, col);
                    assert(keep@[i].has(line, col));
                }
                if rect.has(line, col) {
                    assert(keep@[keep@.len() - 1].has(line, col));
                }
            }
            assert forall|line: int, col: int|
                covered(self.rects@, line, col) <==> (covered(before, line, col) || rect.has(
                    line,
                    col,
                )) by {
                assert(covered(self.rects@, line, col) <==> inside(keep@, holes@, line, col));
            }
        }
    }

    /// Takes the cells of `rect` out of the set.
    pub fn subtract(&mut self, rect: &TickitRect)
        requires
            old(self).wf(),
            rect.valid(),
        ensures
            final(self).wf(),
            forall|line: int, col: int|
                #![trigger final(self).has(line, col)]
                final(self).has(line, col) <==> (old(self).has(line, col) && !rect.has(line, col)),
    {
        let mut holes: Vec<TickitRect> = Vec::new();
        holes.push(*rect);
        proof {
            assert forall|i: int| 0 <= i < self.rects@.len() implies (
            #[trigger] self.rects@[i]).valid() by {}
            assert forall|line: int, col: int| covered(holes@, line, col) <==> rect.has(
                line,
                col,
            ) by {
                if rect.has(line, col) {
                    assert(holes@[0].has(line, col));
                }
            }
        }
        let kept = rebuild(&self.rects, &holes);
        self.rects = kept;
    }

    /// Whether a rectangle of the set overlaps `rect`, by the test on
    /// the four edges.
    pub fn intersects(&self, rect: &TickitRect) -> (r: bool)
        requires
            self.wf(),
            rect.valid(),
        ensures
            r == exists|i: int| 0 <= i < self@.len() && (#[trigger] self@[i]).overlaps(*rect),
            !rect.is_empty() ==> (r <==> exists|line: int, col: int|
                self.has(line, col) && rect.has(line, col)),
    {
        let mut i: usize = 0;
        while i < self.rects.len()
            invariant
                i <= self.rects.len(),
                self.wf(),
                rect.valid(),
                forall|k: int| 0 <= k < i ==> !(#[trigger] self@[k]).overlaps(*rect),
            decreases self.rects.len() - i,
        {
            let cur = self.rects[i];
            assert(self@[i as int].valid() && !self@[i as int].is_empty());
            if cur.intersects(rect) {
                proof {
                    if !rect.is_empty() {
                        let line = crate::rect::max_int(cur.top as int, rect.top as int);
                        let col = crate::rect::max_int(cur.left as int, rect.left as int);
                        assert(self@[i as int].has(line, col));
                        assert(self.has(line, col) && rect.has(line, col));
                    }
                }
                return true;
            }
            i += 1;
        }
        proof {
            assert forall|line: int, col: int| !(self.has(line, col) && rect.has(line, col)) by {
                if self.has(line, col) && rect.has(line, col) {
                    let k = choose|k: int| 0 <= k < self@.len() && #[trigger] self@[k].has(line, col);
                    assert(self@[k].overlaps(*rect));
                }
            }
        }
        false
    }

    /// Whether the set holds every cell of `rect`.
    pub fn contains(&self, rect: &TickitRect) -> (r: bool)
        requires
            self.wf(),
            rect.valid(),
        ensures
            r == forall|line: int, col: int| rect.has(line, col) ==> self.has(line, col),
    {
        let mut keep: Vec<TickitRect> = Vec::new();
        keep.push(*rect);
        proof {
            assert forall|i: int| 0 <= i < self.rects@.len() implies (
            #[trigger] self.rects@[i]).valid() by {}
            assert forall|line: int, col: int| covered(keep@, line, col) <==> rect.has(
                line,
                col,
            ) by {
                if rect.has(line, col) {
                    assert(keep@[0].has(line, col));
                }
            }
        }
        let rest = rebuild(&keep, &self.rects);
        proof {
            if rest@.len() > 0 {
                let p = rest@[0];
                assert(p.valid() && !p.is_empty());
                assert(rest@[0].has(p.top as int, p.left as int));
                assert(covered(rest@, p.top as int, p.left as int));
                assert(rect.has(p.top as int, p.left as int) && !self.has(
                    p.top as int,
                    p.left as int,
                ));
            } else {
                assert forall|line: int, col: int| rect.has(line, col) implies self.has(
                    line,
                    col,
                ) by {
                    assert(!covered(rest@, line, col));
                }
            }
        }
        rest.len() == 0
    }
}

/// On a line of a rectangle of the set, the cells just left and just
/// right of the rectangle are not in the set.
proof fn lemma_run_ends(s: Seq<TickitRect>, i: int, line: int)
    requires
        canonical(s),
        0 <= i < s.len(),
        s[i].top <= line < s[i].bottom_edge(),
    ensures
        !covered(s, line, s[i].left - 1),
        !covered(s, line, s[i].right_edge()),
{
    if covered(s, line, s[i].left - 1) {
        let k = choose|k: int| 0 <= k < s.len() && #[trigger] s[k].has(line, s[i].left - 1);
        assert(share_line(s[i], s[k]));
        assert(columns_apart(s[i], s[k]));
    }
    if covered(s, line, s[i].right_edge()) {
        let k = choose|k: int| 0 <= k < s.len() && #[trigger] s[k].has(line, s[i].right_edge());
        assert(share_line(s[i], s[k]));
        assert(columns_apart(s[i], s[k]));
    }
}

/// Two rectangles, of two sets with the same cells, that hold one cell
/// have the same columns.
proof fn lemma_same_run(a: Seq<TickitRect>, b: Seq<TickitRect>, i: int, j: int, line: int, col: int)
    requires
        canonical(a),
        canonical(b),
        forall|l: int, c: int| covered(a, l, c) <==> covered(b, l, c),
        0 <= i < a.len(),
        0 <= j < b.len(),
        a[i].has(line, col),
        b[j].has(line, col),
    ensures
        a[i].left == b[j].left,
        a[i].cols == b[j].cols,
{
    let p = a[i];
    let q = b[j];
    lemma_run_ends(a, i, line);
    lemma_run_ends(b, j, line);
    if q.left < p.left {
        assert(b[j].has(line, p.left - 1));
        assert(covered(b, line, p.left - 1));
    }
    if p.left < q.left {
        assert(a[i].has(line, q.left - 1));
        assert(covered(a, line, q.left - 1));
    }
    if q.right_edge() > p.right_edge() {
        assert(b[j].has(line, p.right_edge()));
        assert(covered(b, line, p.right_edge()));
    }
    if p.right_edge() > q.right_edge() {
        assert(a[i].has(line, q.right_edge()));
        assert(covered(a, line, q.right_edge()));
    }
}

/// A rectangle of one set is a rectangle of any set with the same
/// cells.
proof fn lemma_member_of_both(a: Seq<TickitRect>, b: Seq<TickitRect>, i: int) -> (j: int)
    requires
        canonical(a),
        canonical(b),
        forall|l: int, c: int| covered(a, l, c) <==> covered(b, l, c),
        0 <= i < a.len(),
    ensures
        0 <= j < b.len(),
        b[j] == a[i],
{
    let r = a[i];
    assert(a[i].has(r.top as int, r.left as int));
    assert(covered(a, r.top as int, r.left as int));
    let j = choose|j: int| 0 <= j < b.len() && #[trigger] b[j].has(r.top as int, r.left as int);
    let q = b[j];
    lemma_same_run(a, b, i, j, r.top as int, r.left as int);
    if q.top < r.top {
        assert(b[j].has(r.top - 1, r.left as int));
        assert(covered(b, r.top - 1, r.left as int));
        let k = choose|k: int| 0 <= k < a.len() && #[trigger] a[k].has(r.top - 1, r.left as int);
        lemma_same_run(a, b, k, j, r.top - 1, r.left as int);
        if a[k].bottom_edge() > r.top {
            assert(share_line(a[k], a[i]));
            assert(columns_apart(a[k], a[i]));
        } else {
            assert(stacked(a[k], a[i]));
        }
        assert(false);
    }
    if q.bottom_edge() > r.bottom_edge() {
        assert(b[j].has(r.bottom_edge(), r.left as int));
        assert(covered(b, r.bottom_edge(), r.left as int));
        let k = choose|k: int|
            0 <= k < a.len() && #[trigger] a[k].has(r.bottom_edge(), r.left as int);
        lemma_same_run(a, b, k, j, r.bottom_edge(), r.left as int);
        if a[k].top < r.bottom_edge() {
            assert(share_line(a[k], a[i]));
            assert(columns_apart(a[k], a[i]));
        } else {
            assert(stacked(a[i], a[k]));
        }
        assert(false);
    }
    if q.bottom_edge() < r.bottom_edge() {
        assert(a[i].has(q.bottom_edge(), r.left as int));
        assert(covered(a, q.bottom_edge(), r.left as int));
        let k = choose|k: int|
            0 <= k < b.len() && #[trigger] b[k].has(q.bottom_edge(), r.left as int);
        lemma_same_run(a, b, i, k, q.bottom_edge(), r.left as int);
        if b[k].top < q.bottom_edge() {
            assert(share_line(b[k], b[j]));
            assert(columns_apart(b[k], b[j]));
        } else {
            assert(stacked(b[j], b[k]));
        }
        assert(false);
    }
    j
}

proof fn lemma_prefix_equal(a: Seq<TickitRect>, b: Seq<TickitRect>, k: int)
    requires
        canonical(a),
        canonical(b),
        forall|l: int, c: int| covered(a, l, c) <==> covered(b, l, c),
        0 <= k <= a.len(),
    ensures
        k <= b.len(),
        forall|i: int| 0 <= i < k ==> a[i] == b[i],
    decreases k,
{
    if k > 0 {
        lemma_prefix_equal(a, b, k - 1);
        let n = k - 1;
        let j = lemma_member_of_both(a, b, n);
        if j < n {
            assert(a[j] == b[j]);
            assert(comes_before(a[j], a[n]));
        }
        if j > n {
            let i2 = lemma_member_of_both(b, a, n);
            if i2 < n {
                assert(a[i2] == b[i2]);
                assert(comes_before(b[i2], b[n]));
            }
            assert(comes_before(b[n], b[j]));
            if i2 > n {
                assert(comes_before(a[n], a[i2]));
            }
            assert(false);
        }
    }
}

/// A set of cells has one arrangement: two sets that hold the same
/// cells hold the same rectangles in the same order.
pub proof fn lemma_canonical_unique(a: Seq<TickitRect>, b: Seq<TickitRect>)
    requires
        canonical(a),
        canonical(b),
        forall|line: int, col: int| covered(a, line, col) <==> covered(b, line, col),
    ensures
        a == b,
{
    lemma_prefix_equal(a, b, a.len() as int);
    lemma_prefix_equal(b, a, b.len() as int);
    assert(a =~= b);
}

/// The order in which rectangles are put into a set does not matter:
/// two sets of which each holds exactly the cells of a list of
/// rectangles are the same set if the two lists hold the same
/// rectangles, in whatever order.
pub proof fn lemma_add_any_order(
    s1: Seq<TickitRect>,
    s2: Seq<TickitRect>,
    xs: Seq<TickitRect>,
    ys: Seq<TickitRect>,
)
    requires
        canonical(s1),
        canonical(s2),
        forall|line: int, col: int| covered(s1, line, col) <==> covered(xs, line, col),
        forall|line: int, col: int| covered(s2, line, col) <==> covered(ys, line, col),
        forall|r: TickitRect| xs.contains(r) <==> ys.contains(r),
    ensures
        s1 == s2,
{
    assert forall|line: int, col: int| covered(xs, line, col) <==> covered(ys, line, col) by {
        if covered(xs, line, col) {
            let i = choose|i: int| 0 <= i < xs.len() && #[trigger] xs[i].has(line, col);
            assert(xs.contains(xs[i]));
            let j = choose|j: int| 0 <= j < ys.len() && ys[j] == xs[i];
            assert(ys[j].has(line, col));
        }
        if covered(ys, line, col) {
            let i = choose|i: int| 0 <= i < ys.len() && #[trigger] ys[i].has(line, col);
            assert(ys.contains(ys[i]));
            let j = choose|j: int| 0 <= j < xs.len() && xs[j] == ys[i];
            assert(xs[j].has(line, col));
        }
    }
    lemma_canonical_unique(s1, s2);
}

} // verus!
