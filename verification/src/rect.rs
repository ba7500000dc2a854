//! Rectangles on the screen grid and the algebra over them.

use vstd::prelude::*;

verus! {

/// Largest magnitude of any edge of a valid rectangle. With every edge
/// inside this bound, the difference of any two edges fits in `i32`.
pub const COORD_LIMIT: i32 = 0x3fff_ffff;

/// A rectangle of screen cells: `lines` rows starting at `top`, `cols`
/// columns starting at `left`.
#[derive(Clone, Copy, Debug, PartialEq, Eq, Structural)]
pub struct TickitRect {
    pub top: i32,
    pub left: i32,
    pub lines: i32,
    pub cols: i32,
}

pub open spec fn min_int(a: int, b: int) -> int {
    if a <= b { a } else { b }
}

pub open spec fn max_int(a: int, b: int) -> int {
    if a >= b { a } else { b }
}

/// The rectangle with the given edges.
pub open spec fn bounded(top: int, left: int, bottom: int, right: int) -> TickitRect {
    TickitRect {
        top: top as i32,
        left: left as i32,
        lines: (bottom - top) as i32,
        cols: (right - left) as i32,
    }
}

/// Appends a band to the pieces above it: an empty band is dropped, a
/// band with the columns of the last piece extends that piece
/// downwards, any other band becomes a piece of its own.
pub open spec fn push_band(acc: Seq<TickitRect>, r: TickitRect) -> Seq<TickitRect> {
    if r.lines == 0 {
        acc
    } else if acc.len() > 0 && acc.last().left == r.left && acc.last().cols == r.cols {
        acc.drop_last().push(
            TickitRect { lines: (r.bottom_edge() - acc.last().top) as i32, ..acc.last() },
        )
    } else {
        acc.push(r)
    }
}

/// `acc` with `r` appended when `cond` holds, else `acc`.
pub open spec fn push_if(acc: Seq<TickitRect>, cond: bool, r: TickitRect) -> Seq<TickitRect> {
    if cond {
        acc.push(r)
    } else {
        acc
    }
}

/// Whether some rectangle of `rects` holds the cell at (`line`, `col`).
pub open spec fn covered(rects: Seq<TickitRect>, line: int, col: int) -> bool {
    exists|i: int| 0 <= i < rects.len() && #[trigger] rects[i].has(line, col)
}

/// Whether no cell lies in two rectangles of `rects`.
pub open spec fn pairwise_disjoint(rects: Seq<TickitRect>) -> bool {
    forall|i: int, j: int, line: int, col: int|
        0 <= i < j < rects.len() ==> !(#[trigger] rects[i].has(line, col) && #[trigger] rects[j].has(
            line,
            col,
        ))
}

/// Whether every rectangle of `rects` is valid.
pub open spec fn all_valid(rects: Seq<TickitRect>) -> bool {
    forall|i: int| 0 <= i < rects.len() ==> (#[trigger] rects[i]).valid()
}

/// Sum of the areas of the rectangles of `rects`.
pub open spec fn total_area(rects: Seq<TickitRect>) -> int
    decreases rects.len(),
{
    if rects.len() == 0 {
        0
    } else {
        total_area(rects.drop_last()) + rects.last().area()
    }
}

/// Area of the common part of two rectangles, 0 when there is none.
pub open spec fn common_area(a: TickitRect, b: TickitRect) -> int {
    match a.intersection(b) {
        Some(r) => r.area(),
        None => 0,
    }
}

impl TickitRect {
    /// Extents are non-negative and all four edges lie within the
    /// coordinate limit.
    pub open spec fn valid(self) -> bool {
        &&& self.lines >= 0
        &&& self.cols >= 0
        &&& self.top >= -COORD_LIMIT
        &&& self.left >= -COORD_LIMIT
        &&& self.top + self.lines <= COORD_LIMIT
        &&& self.left + self.cols <= COORD_LIMIT
    }

    /// The line just below the last line of the rectangle.
    pub open spec fn bottom_edge(self) -> int {
        self.top + self.lines
    }

    /// The column just right of the last column of the rectangle.
    pub open spec fn right_edge(self) -> int {
        self.left + self.cols
    }

    /// Whether the cell at (`line`, `col`) lies inside the rectangle.
    pub open spec fn has(self, line: int, col: int) -> bool {
        &&& self.top <= line < self.bottom_edge()
        &&& self.left <= col < self.right_edge()
    }

    /// Number of cells inside the rectangle.
    pub open spec fn area(self) -> int {
        self.lines * self.cols
    }

    /// Whether the rectangle holds no cell.
    pub open spec fn is_empty(self) -> bool {
        self.lines == 0 || self.cols == 0
    }

    /// The edge test for overlap: each rectangle starts before the
    /// other ends, on both axes.
    pub open spec fn overlaps(self, b: TickitRect) -> bool {
        &&& self.top < b.bottom_edge()
        &&& b.top < self.bottom_edge()
        &&& self.left < b.right_edge()
        &&& b.left < self.right_edge()
    }

    /// The edge test for containment: all four edges of `small` lie
    /// within those of `self`.
    pub open spec fn encloses(self, small: TickitRect) -> bool {
        &&& small.top >= self.top
        &&& small.bottom_edge() <= self.bottom_edge()
        &&& small.left >= self.left
        &&& small.right_edge() <= self.right_edge()
    }

    /// The common part of two rectangles, if they share a cell.
    pub open spec fn intersection(self, b: TickitRect) -> Option<TickitRect> {
        let top = max_int(self.top as int, b.top as int);
        let bottom = min_int(self.bottom_edge(), b.bottom_edge());
        let left = max_int(self.left as int, b.left as int);
        let right = min_int(self.right_edge(), b.right_edge());
        if top >= bottom || left >= right {
            None
        } else {
            Some(bounded(top, left, bottom, right))
        }
    }

    /// Whether the two rectangles overlap or abut, corners included.
    pub open spec fn touches(self, b: TickitRect) -> bool {
        &&& self.left <= b.right_edge()
        &&& b.left <= self.right_edge()
        &&& self.top <= b.bottom_edge()
        &&& b.top <= self.bottom_edge()
    }

    /// The part of the union of `self` and `b` between lines `t` and
    /// `bt`, where neither rectangle starts or ends strictly between
    /// those lines.
    pub open spec fn band(self, b: TickitRect, t: int, bt: int) -> TickitRect {
        let has_a = t >= self.top && bt <= self.bottom_edge();
        let has_b = t >= b.top && bt <= b.bottom_edge();
        let left = if has_a && has_b {
            min_int(self.left as int, b.left as int)
        } else if has_a {
            self.left as int
        } else {
            b.left as int
        };
        let right = if has_a && has_b {
            max_int(self.right_edge(), b.right_edge())
        } else if has_a {
            self.right_edge()
        } else {
            b.right_edge()
        };
        bounded(t, left, bt, right)
    }

    /// The pieces of the union of two rectangles. Rectangles that do
    /// not touch are kept as they are. Otherwise the union is cut into
    /// horizontal bands at the four top and bottom edges, from the top
    /// down, and a band with the same columns as the one above it is
    /// joined to it.
    pub open spec fn sum(self, b: TickitRect) -> Seq<TickitRect> {
        if !self.touches(b) {
            seq![self, b]
        } else {
            let r0 = min_int(self.top as int, b.top as int);
            let r1 = max_int(self.top as int, b.top as int);
            let r2 = min_int(self.bottom_edge(), b.bottom_edge());
            let r3 = max_int(self.bottom_edge(), b.bottom_edge());
            push_band(
                push_band(push_band(Seq::empty(), self.band(b, r0, r1)), self.band(b, r1, r2)),
                self.band(b, r2, r3),
            )
        }
    }

    /// The pieces of `self` that remain when the cells of `hole` are
    /// taken away: the part above the hole, the parts left and right of
    /// it, and the part below it, in that order, each only if it
    /// exists.
    pub open spec fn difference(self, hole: TickitRect) -> Seq<TickitRect> {
        if hole.encloses(self) {
            Seq::empty()
        } else if !hole.overlaps(self) {
            seq![self]
        } else {
            let mid_top = max_int(self.top as int, hole.top as int);
            let mid_bottom = min_int(self.bottom_edge(), hole.bottom_edge());
            let above = bounded(
                self.top as int,
                self.left as int,
                hole.top as int,
                self.right_edge(),
            );
            let left = bounded(mid_top, self.left as int, mid_bottom, hole.left as int);
            let right = bounded(mid_top, hole.right_edge(), mid_bottom, self.right_edge());
            let below = bounded(
                hole.bottom_edge(),
                self.left as int,
                self.bottom_edge(),
                self.right_edge(),
            );
            push_if(
                push_if(
                    push_if(
                        push_if(Seq::empty(), self.top < hole.top, above),
                        self.left < hole.left,
                        left,
                    ),
                    self.right_edge() > hole.right_edge(),
                    right,
                ),
                self.bottom_edge() > hole.bottom_edge(),
                below,
            )
        }
    }

    /// Whether the rectangle is valid.
    pub fn is_valid(&self) -> (r: bool)
        ensures
            r == self.valid(),
    {
        self.lines >= 0 && self.cols >= 0 && self.top >= -COORD_LIMIT && self.left >= -COORD_LIMIT
            && self.top <= COORD_LIMIT - self.lines && self.left <= COORD_LIMIT - self.cols
    }

    pub fn init_sized(top: i32, left: i32, lines: i32, cols: i32) -> (r: TickitRect)
        ensures
            r == (TickitRect { top, left, lines, cols }),
    {
        TickitRect { top, left, lines, cols }
    }

    pub fn init_bounded(top: i32, left: i32, bottom: i32, right: i32) -> (r: TickitRect)
        requires
            i32::MIN <= bottom - top <= i32::MAX,
            i32::MIN <= right - left <= i32::MAX,
        ensures
            r == bounded(top as int, left as int, bottom as int, right as int),
            r.top == top,
            r.left == left,
            r.lines == bottom - top,
            r.cols == right - left,
    {
        TickitRect { top, left, lines: bottom - top, cols: right - left }
    }

    #[inline]
    pub fn bottom(&self) -> (b: i32)
        requires
            i32::MIN <= self.top + self.lines <= i32::MAX,
        ensures
            b == self.bottom_edge(),
    {
        self.top + self.lines
    }

    #[inline]
    pub fn right(&self) -> (r: i32)
        requires
            i32::MIN <= self.left + self.cols <= i32::MAX,
        ensures
            r == self.right_edge(),
    {
        self.left + self.cols
    }

    /// The tightest rectangle inside both, or `None` when they share no
    /// cell.
    pub fn intersect(&self, b: &TickitRect) -> (res: Option<TickitRect>)
        requires
            self.valid(),
            b.valid(),
        ensures
            res == self.intersection(*b),
            res matches Some(r) ==> r.valid() && !r.is_empty(),
    {
        let top = if self.top >= b.top { self.top } else { b.top };
        let bottom = if self.bottom() <= b.bottom() { self.bottom() } else { b.bottom() };
        if top >= bottom {
            return None;
        }
        let left = if self.left >= b.left { self.left } else { b.left };
        let right = if self.right() <= b.right() { self.right() } else { b.right() };
        if left >= right {
            return None;
        }
        Some(TickitRect::init_bounded(top, left, bottom, right))
    }

    pub fn intersects(&self, b: &TickitRect) -> (res: bool)
        requires
            self.valid(),
            b.valid(),
        ensures
            res == self.overlaps(*b),
    {
        self.top < b.bottom() && b.top < self.bottom() && self.left < b.right() && b.left
            < self.right()
    }

    pub fn contains(&self, small: &TickitRect) -> (res: bool)
        requires
            self.valid(),
            small.valid(),
        ensures
            res == self.encloses(*small),
    {
        small.top >= self.top && small.bottom() <= self.bottom() && small.left >= self.left
            && small.right() <= self.right()
    }
}

} // verus!

verus! {

fn band_of(a: &TickitRect, b: &TickitRect, t: i32, bt: i32) -> (r: TickitRect)
    requires
        a.valid(),
        b.valid(),
        -COORD_LIMIT <= t <= bt <= COORD_LIMIT,
    ensures
        r == a.band(*b, t as int, bt as int),
{
    let has_a = t >= a.top && bt <= a.bottom();
    let has_b = t >= b.top && bt <= b.bottom();
    let left = if has_a && has_b {
        if a.left <= b.left { a.left } else { b.left }
    } else if has_a {
        a.left
    } else {
        b.left
    };
    let right = if has_a && has_b {
        if a.right() >= b.right() { a.right() } else { b.right() }
    } else if has_a {
        a.right()
    } else {
        b.right()
    };
    TickitRect::init_bounded(t, left, bt, right)
}

fn append_band(acc: &mut Vec<TickitRect>, r: TickitRect)
    requires
        r.valid(),
        all_valid(old(acc)@),
    ensures
        final(acc)@ == push_band(old(acc)@, r),
{
    if r.lines == 0 {
        return ;
    }
    let n = acc.len();
    if n > 0 && acc[n - 1].left == r.left && acc[n - 1].cols == r.cols {
        let last = acc[n - 1];
        assert(last.valid());
        let joined = TickitRect { lines: r.bottom() - last.top, ..last };
        acc.pop();
        acc.push(joined);
        assert(acc@ =~= push_band(old(acc)@, r));
    } else {
        acc.push(r);
    }
}

impl TickitRect {
    /// The union of two rectangles as at most three pieces.
    pub fn add(&self, b: &TickitRect) -> (res: Vec<TickitRect>)
        requires
            self.valid(),
            b.valid(),
        ensures
            res@ == self.sum(*b),
            res.len() <= 3,
            self.lines > 0 || b.lines > 0 ==> res.len() >= 1,
            all_valid(res@),
            pairwise_disjoint(res@),
            forall|line: int, col: int|
                #![trigger covered(res@, line, col)]
                covered(res@, line, col) <==> (self.has(line, col) || b.has(line, col)),
            total_area(res@) == self.area() + b.area() - common_area(*self, *b),
    {
        proof {
            lemma_sum_tiles(*self, *b);
        }
        let mut res: Vec<TickitRect> = Vec::new();
        if self.left > b.right() || b.left > self.right() || self.top > b.bottom() || b.top
            > self.bottom() {
            res.push(*self);
            res.push(*b);
            assert(res@ =~= self.sum(*b));
            return res;
        }
        let r0 = if self.top <= b.top { self.top } else { b.top };
        let r1 = if self.top >= b.top { self.top } else { b.top };
        let r2 = if self.bottom() <= b.bottom() { self.bottom() } else { b.bottom() };
        let r3 = if self.bottom() >= b.bottom() { self.bottom() } else { b.bottom() };
        let b0 = band_of(self, b, r0, r1);
        let b1 = band_of(self, b, r1, r2);
        let b2 = band_of(self, b, r2, r3);
        assert(res@ =~= Seq::empty());
        append_band(&mut res, b0);
        append_band(&mut res, b1);
        append_band(&mut res, b2);
        res
    }

    /// What is left of `self` outside `hole`, as at most four pieces.
    pub fn subtract(&self, hole: &TickitRect) -> (res: Vec<TickitRect>)
        requires
            self.valid(),
            hole.valid(),
        ensures
            res@ == self.difference(*hole),
            res.len() <= 4,
            all_valid(res@),
            pairwise_disjoint(res@),
            forall|line: int, col: int|
                #![trigger covered(res@, line, col)]
                covered(res@, line, col) <==> (self.has(line, col) && !hole.has(line, col)),
            total_area(res@) == self.area() - common_area(*self, *hole),
    {
        proof {
            lemma_difference_tiles(*self, *hole);
        }
        let mut res: Vec<TickitRect> = Vec::new();
        if hole.contains(self) {
            assert(res@ =~= self.difference(*hole));
            return res;
        }
        if !hole.intersects(self) {
            res.push(*self);
            assert(res@ =~= self.difference(*hole));
            return res;
        }
        let orig_right = self.right();
        let hole_right = hole.right();
        let orig_bottom = self.bottom();
        let hole_bottom = hole.bottom();
        let mid_top = if self.top >= hole.top { self.top } else { hole.top };
        let mid_bottom = if orig_bottom <= hole_bottom { orig_bottom } else { hole_bottom };
        if self.top < hole.top {
            res.push(TickitRect::init_bounded(self.top, self.left, hole.top, orig_right));
        }
        if self.left < hole.left {
            res.push(TickitRect::init_bounded(mid_top, self.left, mid_bottom, hole.left));
        }
        if orig_right > hole_right {
            res.push(TickitRect::init_bounded(mid_top, hole_right, mid_bottom, orig_right));
        }
        if orig_bottom > hole_bottom {
            res.push(TickitRect::init_bounded(hole_bottom, self.left, orig_bottom, orig_right));
        }
        assert(res@ =~= self.difference(*hole));
        res
    }
}

/// Appending a rectangle adds its cells and its area.
proof fn lemma_push(acc: Seq<TickitRect>, r: TickitRect)
    requires
        r.valid(),
        all_valid(acc),
        pairwise_disjoint(acc),
        forall|line: int, col: int| covered(acc, line, col) ==> !r.has(line, col),
    ensures
        all_valid(acc.push(r)),
        pairwise_disjoint(acc.push(r)),
        forall|line: int, col: int|
            covered(acc.push(r), line, col) <==> (covered(acc, line, col) || r.has(line, col)),
        total_area(acc.push(r)) == total_area(acc) + r.area(),
{
    let s = acc.push(r);
    assert(s.drop_last() =~= acc);
    assert forall|line: int, col: int|
        covered(s, line, col) <==> (covered(acc, line, col) || r.has(line, col)) by {
        if covered(s, line, col) {
            let i = choose|i: int| 0 <= i < s.len() && #[trigger] s[i].has(line, col);
            if i < acc.len() {
                assert(acc[i].has(line, col));
            }
        }
        if covered(acc, line, col) {
            let i = choose|i: int| 0 <= i < acc.len() && #[trigger] acc[i].has(line, col);
            assert(s[i].has(line, col));
        }
        if r.has(line, col) {
            assert(s[acc.len() as int].has(line, col));
        }
    }
    assert forall|i: int, j: int, line: int, col: int| 0 <= i < j < s.len() implies !(
    #[trigger] s[i].has(line, col) && #[trigger] s[j].has(line, col)) by {
        if j == acc.len() && s[i].has(line, col) {
            assert(acc[i].has(line, col));
            assert(covered(acc, line, col));
        }
    }
}

/// Appending a band to the pieces above it adds its cells and its area.
#[verifier::rlimit(40)]
proof fn lemma_push_band(acc: Seq<TickitRect>, r: TickitRect)
    requires
        r.valid(),
        all_valid(acc),
        pairwise_disjoint(acc),
        acc.len() <= 2,
        forall|i: int| 0 <= i < acc.len() ==> (#[trigger] acc[i]).bottom_edge() <= r.top,
        acc.len() > 0 ==> acc.last().bottom_edge() == r.top,
    ensures
        all_valid(push_band(acc, r)),
        pairwise_disjoint(push_band(acc, r)),
        forall|line: int, col: int|
            covered(push_band(acc, r), line, col) <==> (covered(acc, line, col) || r.has(
                line,
                col,
            )),
        total_area(push_band(acc, r)) == total_area(acc) + r.area(),
        forall|i: int|
            0 <= i < push_band(acc, r).len() ==> (#[trigger] push_band(acc, r)[i]).bottom_edge()
                <= r.bottom_edge(),
        push_band(acc, r).len() > 0 ==> push_band(acc, r).last().bottom_edge()
            == r.bottom_edge(),
        acc.len() <= push_band(acc, r).len() <= acc.len() + 1,
        r.lines > 0 ==> push_band(acc, r).len() >= 1,
{
    let s = push_band(acc, r);
    if r.lines == 0 {
        assert(r.area() == 0) by (nonlinear_arith)
            requires
                r.lines == 0,
        ;
        assert forall|line: int, col: int| !r.has(line, col) by {}
    } else if acc.len() > 0 && acc.last().left == r.left && acc.last().cols == r.cols {
        let last = acc.last();
        let joined = TickitRect { lines: (r.bottom_edge() - last.top) as i32, ..last };
        let front = acc.drop_last();
        assert(last.valid());
        assert(joined.valid());
        assert(joined.lines == last.lines + r.lines);
        assert(joined.area() == last.area() + r.area()) by (nonlinear_arith)
            requires
                joined.lines == last.lines + r.lines,
                joined.cols == last.cols,
                r.cols == last.cols,
        ;
        assert forall|line: int, col: int| covered(front, line, col) implies !joined.has(
            line,
            col,
        ) by {
            let i = choose|i: int| 0 <= i < front.len() && #[trigger] front[i].has(line, col);
            assert(acc[i].has(line, col));
            assert(acc[acc.len() - 1].has(line, col) || r.has(line, col) || !joined.has(
                line,
                col,
            ));
        }
        assert(all_valid(front)) by {
            assert forall|i: int| 0 <= i < front.len() implies (#[trigger] front[i]).valid() by {
                assert(acc[i].valid());
            }
        }
        assert(pairwise_disjoint(front)) by {
            assert forall|i: int, j: int, line: int, col: int|
                0 <= i < j < front.len() implies !(#[trigger] front[i].has(line, col)
                && #[trigger] front[j].has(line, col)) by {
                assert(acc[i] == front[i] && acc[j] == front[j]);
            }
        }
        lemma_push(front, joined);
        assert(total_area(acc) == total_area(front) + last.area());
        assert forall|line: int, col: int|
            covered(s, line, col) <==> (covered(acc, line, col) || r.has(line, col)) by {
            if covered(acc, line, col) {
                let i = choose|i: int| 0 <= i < acc.len() && #[trigger] acc[i].has(line, col);
                if i < front.len() {
                    assert(front[i].has(line, col));
                } else {
                    assert(joined.has(line, col));
                }
            }
            if covered(front, line, col) {
                let i = choose|i: int| 0 <= i < front.len() && #[trigger] front[i].has(line, col);
                assert(acc[i].has(line, col));
            }
            if joined.has(line, col) && !r.has(line, col) {
                assert(acc[acc.len() - 1].has(line, col));
            }
        }
        assert forall|i: int| 0 <= i < s.len() implies (#[trigger] s[i]).bottom_edge()
            <= r.bottom_edge() by {
            if i < front.len() {
                assert(acc[i].bottom_edge() <= r.top);
            }
        }
    } else {
        assert forall|line: int, col: int| covered(acc, line, col) implies !r.has(line, col) by {
            let i = choose|i: int| 0 <= i < acc.len() && #[trigger] acc[i].has(line, col);
            assert(acc[i].bottom_edge() <= r.top);
        }
        lemma_push(acc, r);
        assert forall|i: int| 0 <= i < s.len() implies (#[trigger] s[i]).bottom_edge()
            <= r.bottom_edge() by {
            if i < acc.len() {
                assert(acc[i].bottom_edge() <= r.top);
            }
        }
    }
}

/// The edges at which the union of two touching rectangles is cut into
/// bands, from the top down.
pub open spec fn band_edges(a: TickitRect, b: TickitRect) -> (int, int, int, int) {
    (
        min_int(a.top as int, b.top as int),
        max_int(a.top as int, b.top as int),
        min_int(a.bottom_edge(), b.bottom_edge()),
        max_int(a.bottom_edge(), b.bottom_edge()),
    )
}

/// The three bands of two touching rectangles hold the cells of the two
/// rectangles, each band those between its edges.
proof fn lemma_band_cells(a: TickitRect, b: TickitRect)
    requires
        a.valid(),
        b.valid(),
        a.touches(b),
    ensures
        ({
            let (r0, r1, r2, r3) = band_edges(a, b);
            let b0 = a.band(b, r0, r1);
            let b1 = a.band(b, r1, r2);
            let b2 = a.band(b, r2, r3);
            &&& r0 <= r1 <= r2 <= r3
            &&& b0.valid() && b1.valid() && b2.valid()
            &&& b0.top == r0 && b0.bottom_edge() == r1
            &&& b1.top == r1 && b1.bottom_edge() == r2
            &&& b2.top == r2 && b2.bottom_edge() == r3
            &&& forall|line: int, col: int|
                (b0.has(line, col) || b1.has(line, col) || b2.has(line, col)) <==> (a.has(
                    line,
                    col,
                ) || b.has(line, col))
        }),
{
}

/// The area of a band that lies in one rectangle only: `ha` lines of
/// width `wa` or `hb` lines of width `wb`, where one of `ha` and `hb`
/// is 0.
proof fn lemma_area_of_band(x: int, lines: int, cols: int, ha: int, hb: int, wa: int, wb: int)
    requires
        x == lines * cols,
        lines == ha + hb,
        ha == 0 || hb == 0,
        ha > 0 ==> cols == wa,
        hb > 0 ==> cols == wb,
        ha >= 0,
        hb >= 0,
    ensures
        x == ha * wa + hb * wb,
{
    if ha > 0 {
        assert(x == ha * wa + hb * wb) by (nonlinear_arith)
            requires
                x == lines * cols,
                lines == ha,
                cols == wa,
                hb == 0,
        ;
    } else if hb > 0 {
        assert(x == ha * wa + hb * wb) by (nonlinear_arith)
            requires
                x == lines * cols,
                lines == hb,
                cols == wb,
                ha == 0,
        ;
    } else {
        assert(x == ha * wa + hb * wb) by (nonlinear_arith)
            requires
                x == lines * cols,
                lines == 0,
                ha == 0,
                hb == 0,
        ;
    }
}

/// The areas of the three bands of two touching rectangles add up to
/// the two areas less the area of the common part.
proof fn lemma_band_areas(a: TickitRect, b: TickitRect)
    requires
        a.valid(),
        b.valid(),
        a.touches(b),
    ensures
        ({
            let (r0, r1, r2, r3) = band_edges(a, b);
            a.band(b, r0, r1).area() + a.band(b, r1, r2).area() + a.band(b, r2, r3).area()
                == a.area() + b.area() - common_area(a, b)
        }),
{
    let (r0, r1, r2, r3) = band_edges(a, b);
    let b0 = a.band(b, r0, r1);
    let b1 = a.band(b, r1, r2);
    let b2 = a.band(b, r2, r3);
    let at = a.top as int;
    let bt = b.top as int;
    let ab = a.bottom_edge();
    let bb = b.bottom_edge();
    let wa = a.cols as int;
    let wb = b.cols as int;
    let h0 = r1 - r0;
    let h1 = r2 - r1;
    let h2 = r3 - r2;
    let cw = min_int(a.right_edge(), b.right_edge()) - max_int(a.left as int, b.left as int);
    let ha0 = if at < bt { h0 } else { 0 };
    let hb0 = if bt < at { h0 } else { 0 };
    let ha2 = if ab > bb { h2 } else { 0 };
    let hb2 = if bb > ab { h2 } else { 0 };
    let x0 = b0.area();
    let x1 = b1.area();
    let x2 = b2.area();
    let xa = a.area();
    let xb = b.area();
    let xc = common_area(a, b);
    lemma_area_of_band(x0, b0.lines as int, b0.cols as int, ha0, hb0, wa, wb);
    lemma_area_of_band(x2, b2.lines as int, b2.cols as int, ha2, hb2, wa, wb);
    if h1 > 0 {
        assert(x1 == h1 * wa + h1 * wb - h1 * cw) by (nonlinear_arith)
            requires
                x1 == b1.lines * b1.cols,
                b1.lines == h1,
                b1.cols == wa + wb - cw,
        ;
    } else {
        assert(x1 == h1 * wa + h1 * wb - h1 * cw) by (nonlinear_arith)
            requires
                x1 == b1.lines * b1.cols,
                b1.lines == h1,
                h1 == 0,
        ;
    }
    assert(xc == h1 * cw) by (nonlinear_arith)
        requires
            h1 >= 0,
            cw >= 0,
            (h1 > 0 && cw > 0) ==> xc == h1 * cw,
            (h1 == 0 || cw == 0) ==> xc == 0,
    ;
    assert(xa == (ha0 + h1 + ha2) * wa) by (nonlinear_arith)
        requires
            a.lines == ha0 + h1 + ha2,
            a.cols == wa,
            xa == a.lines * a.cols,
    ;
    assert(xb == (hb0 + h1 + hb2) * wb) by (nonlinear_arith)
        requires
            b.lines == hb0 + h1 + hb2,
            b.cols == wb,
            xb == b.lines * b.cols,
    ;
    assert(x0 + x1 + x2 == xa + xb - xc) by (nonlinear_arith)
        requires
            x0 == ha0 * wa + hb0 * wb,
            x2 == ha2 * wa + hb2 * wb,
            x1 == h1 * wa + h1 * wb - h1 * cw,
            xc == h1 * cw,
            xa == (ha0 + h1 + ha2) * wa,
            xb == (hb0 + h1 + hb2) * wb,
    ;
}

/// The pieces of a union are valid, share no cell, hold exactly the
/// cells of the two rectangles, and their areas add up to the two areas
/// less the area of the common part.
#[verifier::rlimit(40)]
pub proof fn lemma_sum_tiles(a: TickitRect, b: TickitRect)
    requires
        a.valid(),
        b.valid(),
    ensures
        a.sum(b).len() <= 3,
        a.lines > 0 || b.lines > 0 ==> a.sum(b).len() >= 1,
        all_valid(a.sum(b)),
        pairwise_disjoint(a.sum(b)),
        forall|line: int, col: int|
            covered(a.sum(b), line, col) <==> (a.has(line, col) || b.has(line, col)),
        total_area(a.sum(b)) == a.area() + b.area() - common_area(a, b),
{
    let e = Seq::<TickitRect>::empty();
    assert(total_area(e) == 0);
    assert forall|line: int, col: int| !covered(e, line, col) by {}
    if !a.touches(b) {
        lemma_push(e, a);
        let s1 = e.push(a);
        assert forall|line: int, col: int| covered(s1, line, col) implies !b.has(line, col) by {}
        lemma_push(s1, b);
        assert(s1.push(b) =~= seq![a, b]);
        assert(a.intersection(b) is None);
    } else {
        let (r0, r1, r2, r3) = band_edges(a, b);
        let b0 = a.band(b, r0, r1);
        let b1 = a.band(b, r1, r2);
        let b2 = a.band(b, r2, r3);
        lemma_band_cells(a, b);
        lemma_band_areas(a, b);
        lemma_push_band(e, b0);
        let s1 = push_band(e, b0);
        lemma_push_band(s1, b1);
        let s2 = push_band(s1, b1);
        lemma_push_band(s2, b2);
        let s3 = push_band(s2, b2);
        assert(s3 == a.sum(b));
        assert forall|line: int, col: int|
            covered(s3, line, col) <==> (a.has(line, col) || b.has(line, col)) by {
            assert(covered(s3, line, col) <==> (covered(s2, line, col) || b2.has(line, col)));
            assert(covered(s2, line, col) <==> (covered(s1, line, col) || b1.has(line, col)));
            assert(covered(s1, line, col) <==> (covered(e, line, col) || b0.has(line, col)));
        }
    }
}

/// Appending a rectangle under a condition adds its cells and its area
/// when the condition holds.
proof fn lemma_push_if(acc: Seq<TickitRect>, cond: bool, r: TickitRect)
    requires
        cond ==> r.valid(),
        all_valid(acc),
        pairwise_disjoint(acc),
        forall|line: int, col: int| cond && covered(acc, line, col) ==> !r.has(line, col),
    ensures
        all_valid(push_if(acc, cond, r)),
        pairwise_disjoint(push_if(acc, cond, r)),
        forall|line: int, col: int|
            covered(push_if(acc, cond, r), line, col) <==> (covered(acc, line, col) || (cond
                && r.has(line, col))),
        total_area(push_if(acc, cond, r)) == total_area(acc) + (if cond {
            r.area()
        } else {
            0
        }),
        acc.len() <= push_if(acc, cond, r).len() <= acc.len() + 1,
{
    if cond {
        lemma_push(acc, r);
    }
}

/// The pieces of a difference are valid, share no cell, hold exactly the
/// cells of the first rectangle that are not in the second, and their
/// areas add up to the first area less the area of the common part.
#[verifier::rlimit(40)]
pub proof fn lemma_difference_tiles(orig: TickitRect, hole: TickitRect)
    requires
        orig.valid(),
        hole.valid(),
    ensures
        orig.difference(hole).len() <= 4,
        all_valid(orig.difference(hole)),
        pairwise_disjoint(orig.difference(hole)),
        forall|line: int, col: int|
            covered(orig.difference(hole), line, col) <==> (orig.has(line, col) && !hole.has(
                line,
                col,
            )),
        total_area(orig.difference(hole)) == orig.area() - common_area(orig, hole),
{
    let e = Seq::<TickitRect>::empty();
    assert(total_area(e) == 0);
    assert forall|line: int, col: int| !covered(e, line, col) by {}
    let h = orig.lines as int;
    let w = orig.cols as int;
    if hole.encloses(orig) {
        if orig.is_empty() {
            assert(orig.area() == 0) by (nonlinear_arith)
                requires
                    orig.lines == 0 || orig.cols == 0,
            ;
            assert(common_area(orig, hole) == 0);
        } else {
            assert(orig.intersection(hole) == Some(orig));
        }
    } else if !hole.overlaps(orig) {
        lemma_push(e, orig);
        assert(e.push(orig) =~= seq![orig]);
        assert forall|line: int, col: int|
            covered(seq![orig], line, col) <==> (orig.has(line, col) && !hole.has(line, col)) by {
            assert(covered(e.push(orig), line, col) <==> (covered(e, line, col) || orig.has(
                line,
                col,
            )));
        }
        assert(orig.intersection(hole) is None || orig.is_empty());
        if orig.is_empty() {
            assert(orig.intersection(hole) is None);
        }
    } else {
        let mid_top = max_int(orig.top as int, hole.top as int);
        let mid_bottom = min_int(orig.bottom_edge(), hole.bottom_edge());
        let above = bounded(
            orig.top as int,
            orig.left as int,
            hole.top as int,
            orig.right_edge(),
        );
        let left = bounded(mid_top, orig.left as int, mid_bottom, hole.left as int);
        let right = bounded(mid_top, hole.right_edge(), mid_bottom, orig.right_edge());
        let below = bounded(
            hole.bottom_edge(),
            orig.left as int,
            orig.bottom_edge(),
            orig.right_edge(),
        );
        let c0 = orig.top < hole.top;
        let c1 = orig.left < hole.left;
        let c2 = orig.right_edge() > hole.right_edge();
        let c3 = orig.bottom_edge() > hole.bottom_edge();
        lemma_push_if(e, c0, above);
        let s1 = push_if(e, c0, above);
        lemma_push_if(s1, c1, left);
        let s2 = push_if(s1, c1, left);
        lemma_push_if(s2, c2, right);
        let s3 = push_if(s2, c2, right);
        lemma_push_if(s3, c3, below);
        let s4 = push_if(s3, c3, below);
        assert(s4 == orig.difference(hole));
        assert forall|line: int, col: int|
            covered(s4, line, col) <==> (orig.has(line, col) && !hole.has(line, col)) by {
            assert(covered(s4, line, col) <==> (covered(s3, line, col) || (c3 && below.has(
                line,
                col,
            ))));
            assert(covered(s3, line, col) <==> (covered(s2, line, col) || (c2 && right.has(
                line,
                col,
            ))));
            assert(covered(s2, line, col) <==> (covered(s1, line, col) || (c1 && left.has(
                line,
                col,
            ))));
            assert(covered(s1, line, col) <==> (covered(e, line, col) || (c0 && above.has(
                line,
                col,
            ))));
        }
        let a = if c0 { hole.top - orig.top } else { 0 };
        let b = if c3 { orig.bottom_edge() - hole.bottom_edge() } else { 0 };
        let m = mid_bottom - mid_top;
        let l = if c1 { hole.left - orig.left } else { 0 };
        let r = if c2 { orig.right_edge() - hole.right_edge() } else { 0 };
        let cw = w - l - r;
        assert(common_area(orig, hole) == m * cw) by (nonlinear_arith)
            requires
                m >= 0,
                cw >= 0,
                (m > 0 && cw > 0) ==> common_area(orig, hole) == m * cw,
                (m == 0 || cw == 0) ==> common_area(orig, hole) == 0,
        ;
        let t0 = if c0 { above.area() } else { 0 };
        let t1 = if c1 { left.area() } else { 0 };
        let t2 = if c2 { right.area() } else { 0 };
        let t3 = if c3 { below.area() } else { 0 };
        assert(t0 == a * w) by (nonlinear_arith)
            requires
                c0 ==> t0 == above.lines * above.cols && above.lines == a && above.cols == w,
                !c0 ==> t0 == 0 && a == 0,
        ;
        assert(t3 == b * w) by (nonlinear_arith)
            requires
                c3 ==> t3 == below.lines * below.cols && below.lines == b && below.cols == w,
                !c3 ==> t3 == 0 && b == 0,
        ;
        assert(t1 == m * l) by (nonlinear_arith)
            requires
                c1 ==> t1 == left.lines * left.cols && left.lines == m && left.cols == l,
                !c1 ==> t1 == 0 && l == 0,
        ;
        assert(t2 == m * r) by (nonlinear_arith)
            requires
                c2 ==> t2 == right.lines * right.cols && right.lines == m && right.cols == r,
                !c2 ==> t2 == 0 && r == 0,
        ;
        assert(t0 + t1 + t2 + t3 == h * w - m * cw) by (nonlinear_arith)
            requires
                t0 == a * w,
                t1 == m * l,
                t2 == m * r,
                t3 == b * w,
                m == h - a - b,
                cw == w - l - r,
        ;
    }
}

} // verus!

verus! {

/// For rectangles that hold a cell, the edge test for overlap says
/// whether they share a cell.
pub proof fn lemma_overlaps_shares_cell(a: TickitRect, b: TickitRect)
    requires
        a.valid(),
        b.valid(),
        !a.is_empty(),
        !b.is_empty(),
    ensures
        a.overlaps(b) <==> exists|line: int, col: int| a.has(line, col) && b.has(line, col),
        a.overlaps(b) <==> a.intersection(b) is Some,
{
    if a.overlaps(b) {
        let line = max_int(a.top as int, b.top as int);
        let col = max_int(a.left as int, b.left as int);
        assert(a.has(line, col) && b.has(line, col));
    }
}

/// For a rectangle that holds a cell, the edge test for containment
/// says whether every cell of it lies in the other rectangle.
pub proof fn lemma_encloses_every_cell(big: TickitRect, small: TickitRect)
    requires
        big.valid(),
        small.valid(),
        !small.is_empty(),
    ensures
        big.encloses(small) <==> forall|line: int, col: int|
            small.has(line, col) ==> big.has(line, col),
{
    if forall|line: int, col: int| small.has(line, col) ==> big.has(line, col) {
        assert(small.has(small.top as int, small.left as int));
        assert(small.has(small.bottom_edge() - 1, small.right_edge() - 1));
    }
}

/// The common part of two rectangles holds exactly the cells that lie
/// in both.
pub proof fn lemma_intersection_cells(a: TickitRect, b: TickitRect, line: int, col: int)
    requires
        a.valid(),
        b.valid(),
    ensures
        (a.has(line, col) && b.has(line, col)) <==> (a.intersection(b) matches Some(r) && r.has(
            line,
            col,
        )),
{
}

} // verus!
