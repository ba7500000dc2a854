//! The render buffer: a grid of cells that is drawn into, within a
//! clipping rectangle and around masked cells, and then flushed to a
//! terminal with no more requests than the drawing needs.

use vstd::prelude::*;
use vstd::string::StringSliceAdditionalSpecFns;
use crate::bytes::{copy_bytes, slice_bytes, string_of};
use crate::c::{TickitLineCaps, TickitLineStyle};
use crate::drv::TickitTermDriverImpl;
use crate::linechars::{line_char, line_glyph, LineBits};
use crate::pen::{PenAttrs, TickitPen};
use crate::rect::{max_int, min_int, TickitRect, COORD_LIMIT};
use crate::strpos::{scan, StringPos, UNLIMITED};
use crate::term::{term_run, term_step, TermCall, TermView, TickitTerm};

verus! {

/// What a cell of the buffer holds.
#[derive(Clone, Copy, Debug, PartialEq, Eq, Structural)]
pub enum CellState {
    /// Nothing: the terminal keeps what it shows there.
    Skip,
    /// A column of a text.
    Text,
    /// An erased cell.
    Erase,
    /// A piece of line drawing.
    Line,
    /// One character.
    Char,
}

/// One cell of the buffer. Cells that were drawn by one request, side
/// by side, make a span; `start` marks the first cell of each span.
#[derive(Clone, Copy, Debug, PartialEq, Eq)]
pub struct RBCell {
    pub state: CellState,
    pub start: bool,
    /// The depth of the save stack at which the cell was masked, -1 if
    /// it is not masked.
    pub maskdepth: i32,
    pub pen: PenAttrs,
    /// For text: which of the stored texts.
    pub text_idx: usize,
    /// For text: the column of the text that the cell shows.
    pub offs: i64,
    pub line: LineBits,
    pub codepoint: u32,
}

/// What `save` and `savepen` keep for `restore`.
#[derive(Clone, Copy, Debug, PartialEq, Eq)]
pub struct RBStack {
    pub vc_pos_set: bool,
    pub vc_line: i32,
    pub vc_col: i32,
    pub xlate_line: i32,
    pub xlate_col: i32,
    pub clip: TickitRect,
    pub pen: PenAttrs,
    /// Whether only the pen was saved.
    pub pen_only: bool,
}

/// The mathematical value of a render buffer.
pub struct RBView {
    pub lines: i32,
    pub cols: i32,
    pub cells: Seq<Seq<RBCell>>,
    pub texts: Seq<Seq<u8>>,
    pub vc_pos_set: bool,
    pub vc_line: i32,
    pub vc_col: i32,
    pub xlate_line: i32,
    pub xlate_col: i32,
    pub clip: TickitRect,
    pub pen: PenAttrs,
    pub stack: Seq<RBStack>,
}

/// No line in any direction.
pub open spec fn no_lines() -> LineBits {
    LineBits { north: 0, east: 0, south: 0, west: 0 }
}

/// The cell that holds nothing; `start` says whether it starts a span.
pub open spec fn skip_cell(start: bool) -> RBCell {
    RBCell {
        state: CellState::Skip,
        start,
        maskdepth: -1i32,
        pen: PenAttrs::unset(),
        text_idx: 0,
        offs: 0,
        line: no_lines(),
        codepoint: 0,
    }
}

/// The grid of `lines` lines and `cols` columns that holds nothing.
pub open spec fn blank_grid(lines: int, cols: int) -> Seq<Seq<RBCell>> {
    Seq::new(lines as nat, |l: int| Seq::new(cols as nat, |c: int| skip_cell(c == 0)))
}

/// A coordinate moved by `by`, kept within the coordinate limit.
pub open spec fn bounded_sum(at: int, by: int) -> i32 {
    if at + by < -COORD_LIMIT {
        (-COORD_LIMIT) as i32
    } else if at + by > COORD_LIMIT {
        COORD_LIMIT
    } else {
        (at + by) as i32
    }
}

/// The rectangle `rect` moved by `down` lines and `right` columns, cut
/// to the rectangle of `lines` lines and `cols` columns at the origin;
/// of no lines if nothing is left.
pub open spec fn moved_into(rect: TickitRect, down: int, right: int, lines: int, cols: int) -> TickitRect {
    let top = max_int(rect.top + down, 0);
    let left = max_int(rect.left + right, 0);
    let bottom = min_int(rect.bottom_edge() + down, lines);
    let right_ = min_int(rect.right_edge() + right, cols);
    if top < bottom && left < right_ {
        crate::rect::bounded(top, left, bottom, right_)
    } else {
        TickitRect { top: 0, left: 0, lines: 0, cols: 0 }
    }
}

impl RBView {
    /// The grid has the buffer's size, the clipping rectangle lies
    /// inside it, and the size is within the coordinate limit.
    pub open spec fn wf(self) -> bool {
        &&& 0 <= self.lines <= COORD_LIMIT
        &&& 0 <= self.cols <= COORD_LIMIT
        &&& self.cells.len() == self.lines
        &&& forall|l: int| 0 <= l < self.lines ==> (#[trigger] self.cells[l]).len() == self.cols
        &&& self.clip.valid()
        &&& 0 <= self.clip.top && self.clip.bottom_edge() <= self.lines
        &&& 0 <= self.clip.left && self.clip.right_edge() <= self.cols
        &&& self.stack.len() < i32::MAX
        &&& -COORD_LIMIT <= self.xlate_line <= COORD_LIMIT
        &&& -COORD_LIMIT <= self.xlate_col <= COORD_LIMIT
        &&& forall|i: int| 0 <= i < self.stack.len() ==> self.frame_fits(#[trigger] self.stack[i])
    }

    /// The depth of the save stack.
    pub open spec fn depth(self) -> int {
        self.stack.len() as int
    }

    /// The whole buffer as a rectangle.
    pub open spec fn whole(self) -> TickitRect {
        TickitRect { top: 0, left: 0, lines: self.lines, cols: self.cols }
    }

    /// The buffer as new: nothing drawn, nothing masked, nothing saved,
    /// no translation, the whole buffer to draw in, no pen, no cursor.
    pub open spec fn fresh(lines: i32, cols: i32) -> RBView {
        RBView {
            lines,
            cols,
            cells: blank_grid(lines as int, cols as int),
            texts: Seq::empty(),
            vc_pos_set: false,
            vc_line: 0,
            vc_col: 0,
            xlate_line: 0,
            xlate_col: 0,
            clip: TickitRect { top: 0, left: 0, lines, cols },
            pen: PenAttrs::unset(),
            stack: Seq::empty(),
        }
    }

    /// What `save` keeps.
    pub open spec fn frame(self, pen_only: bool) -> RBStack {
        RBStack {
            vc_pos_set: self.vc_pos_set,
            vc_line: self.vc_line,
            vc_col: self.vc_col,
            xlate_line: self.xlate_line,
            xlate_col: self.xlate_col,
            clip: self.clip,
            pen: self.pen,
            pen_only,
        }
    }

    /// The buffer after `save` (`pen_only` false) or `savepen`.
    pub open spec fn saved(self, pen_only: bool) -> RBView {
        RBView { stack: self.stack.push(self.frame(pen_only)), ..self }
    }

    /// The grid with the masks of a depth above `depth` taken off.
    pub open spec fn unmasked_above(self, depth: int) -> Seq<Seq<RBCell>> {
        Seq::new(
            self.cells.len(),
            |l: int|
                Seq::new(
                    self.cells[l].len(),
                    |c: int|
                        if self.cells[l][c].maskdepth > depth {
                            RBCell { maskdepth: -1i32, ..self.cells[l][c] }
                        } else {
                            self.cells[l][c]
                        },
                ),
        )
    }

    /// The buffer after `restore`: what the last save kept is put
    /// back, all of it or, if only the pen was saved, the pen; and the
    /// masks made since that save are taken off. With nothing saved
    /// the buffer stays as it is.
    pub open spec fn restored(self) -> RBView {
        if self.stack.len() == 0 {
            self
        } else {
            let f = self.stack.last();
            let base = RBView {
                stack: self.stack.drop_last(),
                pen: f.pen,
                cells: self.unmasked_above(self.stack.len() - 1),
                ..self
            };
            if f.pen_only {
                base
            } else {
                RBView {
                    vc_pos_set: f.vc_pos_set,
                    vc_line: f.vc_line,
                    vc_col: f.vc_col,
                    xlate_line: f.xlate_line,
                    xlate_col: f.xlate_col,
                    clip: f.clip,
                    ..base
                }
            }
        }
    }

    /// The clipping rectangle after it was cut down to `rect`, which is
    /// given in translated coordinates.
    pub open spec fn clip_cut(self, rect: TickitRect) -> TickitRect {
        let moved = moved_into(
            rect,
            self.xlate_line as int,
            self.xlate_col as int,
            self.lines as int,
            self.cols as int,
        );
        match self.clip.intersection(moved) {
            Some(r) => r,
            None => TickitRect { lines: 0, ..self.clip },
        }
    }

    /// The buffer after `clip(rect)`.
    pub open spec fn clipped_to(self, rect: TickitRect) -> RBView {
        RBView { clip: self.clip_cut(rect), ..self }
    }

    /// The buffer after `translate`.
    pub open spec fn translated(self, downward: i32, rightward: i32) -> RBView {
        RBView {
            xlate_line: bounded_sum(self.xlate_line as int, downward as int),
            xlate_col: bounded_sum(self.xlate_col as int, rightward as int),
            ..self
        }
    }

    /// The pen that `setpen(pen)` makes the buffer's pen: `pen`, with
    /// the attributes it leaves unset taken from the pen last saved.
    pub open spec fn pen_set(self, pen: PenAttrs) -> PenAttrs {
        if self.stack.len() > 0 {
            pen.overlaid(self.stack.last().pen, false)
        } else {
            pen
        }
    }

    /// The pen that a drawing request draws with: the buffer's pen, or
    /// the pen given with the request with the attributes it leaves
    /// unset taken from the buffer's pen.
    pub open spec fn pen_for(self, direct: Option<PenAttrs>) -> PenAttrs {
        match direct {
            Some(p) => p.overlaid(self.pen, false),
            None => self.pen,
        }
    }

    /// The grid after the cells of `rect`, given in translated
    /// coordinates, were masked: those not masked yet are masked at the
    /// depth of the save stack.
    pub open spec fn masked(self, rect: TickitRect) -> Seq<Seq<RBCell>> {
        let hole = moved_into(
            rect,
            self.xlate_line as int,
            self.xlate_col as int,
            self.lines as int,
            self.cols as int,
        );
        Seq::new(
            self.cells.len(),
            |l: int|
                Seq::new(
                    self.cells[l].len(),
                    |c: int|
                        if hole.has(l, c) && self.cells[l][c].maskdepth == -1 {
                            RBCell { maskdepth: self.stack.len() as i32, ..self.cells[l][c] }
                        } else {
                            self.cells[l][c]
                        },
                ),
        )
    }
}

/// A render buffer.
pub struct TickitRenderBuffer {
    lines: i32,
    cols: i32,
    cells: Vec<Vec<RBCell>>,
    texts: Vec<Vec<u8>>,
    vc_pos_set: bool,
    vc_line: i32,
    vc_col: i32,
    xlate_line: i32,
    xlate_col: i32,
    clip: TickitRect,
    pen: PenAttrs,
    stack: Vec<RBStack>,
}

/// The rows of a grid as values.
pub open spec fn rows_of(cells: Seq<Vec<RBCell>>) -> Seq<Seq<RBCell>> {
    Seq::new(cells.len(), |l: int| cells[l]@)
}

/// The stored texts as values.
pub open spec fn texts_of(texts: Seq<Vec<u8>>) -> Seq<Seq<u8>> {
    Seq::new(texts.len(), |i: int| texts[i]@)
}

impl View for TickitRenderBuffer {
    type V = RBView;

    closed spec fn view(&self) -> RBView {
        RBView {
            lines: self.lines,
            cols: self.cols,
            cells: rows_of(self.cells@),
            texts: texts_of(self.texts@),
            vc_pos_set: self.vc_pos_set,
            vc_line: self.vc_line,
            vc_col: self.vc_col,
            xlate_line: self.xlate_line,
            xlate_col: self.xlate_col,
            clip: self.clip,
            pen: self.pen,
            stack: self.stack@,
        }
    }
}

fn new_skip(start: bool) -> (c: RBCell)
    ensures
        c == skip_cell(start),
{
    RBCell {
        state: CellState::Skip,
        start,
        maskdepth: -1i32,
        pen: PenAttrs::new(),
        text_idx: 0,
        offs: 0,
        line: LineBits { north: 0, east: 0, south: 0, west: 0 },
        codepoint: 0,
    }
}

fn new_grid(lines: i32, cols: i32) -> (g: Vec<Vec<RBCell>>)
    requires
        0 <= lines,
        0 <= cols,
    ensures
        rows_of(g@) == blank_grid(lines as int, cols as int),
{
    let mut g: Vec<Vec<RBCell>> = Vec::new();
    let mut l: i32 = 0;
    while l < lines
        invariant
            0 <= l <= lines,
            0 <= cols,
            g@.len() == l,
            forall|a: int|
                0 <= a < l ==> (#[trigger] g@[a])@ == Seq::new(cols as nat, |c: int| skip_cell(c == 0)),
        decreases lines - l,
    {
        let mut row: Vec<RBCell> = Vec::new();
        let mut c: i32 = 0;
        while c < cols
            invariant
                0 <= c <= cols,
                row@.len() == c,
                forall|b: int| 0 <= b < c ==> #[trigger] row@[b] == skip_cell(b == 0),
            decreases cols - c,
        {
            row.push(new_skip(c == 0));
            c += 1;
        }
        assert(row@ =~= Seq::new(cols as nat, |c: int| skip_cell(c == 0)));
        g.push(row);
        l += 1;
    }
    assert(rows_of(g@) =~= blank_grid(lines as int, cols as int));
    g
}

fn kept_sum(at: i32, by: i32) -> (r: i32)
    ensures
        r == bounded_sum(at as int, by as int),
{
    let sum = at as i64 + by as i64;
    if sum < -(COORD_LIMIT as i64) {
        -COORD_LIMIT
    } else if sum > COORD_LIMIT as i64 {
        COORD_LIMIT
    } else {
        sum as i32
    }
}

/// The rectangle `rect` moved and cut to the buffer.
fn move_into(rect: &TickitRect, down: i32, right: i32, lines: i32, cols: i32) -> (r: TickitRect)
    requires
        0 <= lines <= COORD_LIMIT,
        0 <= cols <= COORD_LIMIT,
        -COORD_LIMIT <= down <= COORD_LIMIT,
        -COORD_LIMIT <= right <= COORD_LIMIT,
    ensures
        r == moved_into(*rect, down as int, right as int, lines as int, cols as int),
        r.valid(),
        0 <= r.top && r.bottom_edge() <= lines,
        0 <= r.left && r.right_edge() <= cols,
{
    let t = rect.top as i64 + down as i64;
    let l = rect.left as i64 + right as i64;
    let b = rect.top as i64 + rect.lines as i64 + down as i64;
    let r = rect.left as i64 + rect.cols as i64 + right as i64;
    let top = if t > 0 {
        t
    } else {
        0
    };
    let left = if l > 0 {
        l
    } else {
        0
    };
    let bottom = if b < lines as i64 {
        b
    } else {
        lines as i64
    };
    let right_ = if r < cols as i64 {
        r
    } else {
        cols as i64
    };
    if top < bottom && left < right_ {
        TickitRect {
            top: top as i32,
            left: left as i32,
            lines: (bottom - top) as i32,
            cols: (right_ - left) as i32,
        }
    } else {
        TickitRect { top: 0, left: 0, lines: 0, cols: 0 }
    }
}

impl TickitRenderBuffer {
    /// A buffer of `lines` lines and `cols` columns; a negative size or
    /// one above the coordinate limit is taken as the nearest size that
    /// can be.
    pub fn new(lines: i32, cols: i32) -> (rb: TickitRenderBuffer)
        ensures
            rb@.wf(),
            rb@ == RBView::fresh(
                bounded_sum(max_int(lines as int, 0), 0),
                bounded_sum(max_int(cols as int, 0), 0),
            ),
    {
        let lines = if lines < 0 {
            0
        } else if lines > COORD_LIMIT {
            COORD_LIMIT
        } else {
            lines
        };
        let cols = if cols < 0 {
            0
        } else if cols > COORD_LIMIT {
            COORD_LIMIT
        } else {
            cols
        };
        let rb = TickitRenderBuffer {
            lines,
            cols,
            cells: new_grid(lines, cols),
            texts: Vec::new(),
            vc_pos_set: false,
            vc_line: 0,
            vc_col: 0,
            xlate_line: 0,
            xlate_col: 0,
            clip: TickitRect { top: 0, left: 0, lines, cols },
            pen: PenAttrs::new(),
            stack: Vec::new(),
        };
        assert(rb@.texts =~= Seq::empty());
        rb
    }

    pub fn get_size(&self) -> (size: (i32, i32))
        ensures
            size == (self@.lines, self@.cols),
    {
        (self.lines, self.cols)
    }

    /// Moves the origin of the coordinates of all later requests down
    /// and right, on top of what it was moved before.
    pub fn translate(&mut self, downward: i32, rightward: i32)
        requires
            old(self)@.wf(),
        ensures
            final(self)@.wf(),
            final(self)@ == old(self)@.translated(downward, rightward),
    {
        self.xlate_line = kept_sum(self.xlate_line, downward);
        self.xlate_col = kept_sum(self.xlate_col, rightward);
    }

    /// Cuts the clipping rectangle down to `rect`.
    pub fn clip(&mut self, rect: &TickitRect)
        requires
            old(self)@.wf(),
        ensures
            final(self)@.wf(),
            final(self)@ == old(self)@.clipped_to(*rect),
            old(self)@.clip.encloses(final(self)@.clip),
    {
        let other = move_into(rect, self.xlate_line, self.xlate_col, self.lines, self.cols);
        match self.clip.intersect(&other) {
            Some(r) => {
                self.clip = r;
            },
            None => {
                self.clip.lines = 0;
            },
        }
    }

    /// Masks the cells of `mask`: nothing is drawn into them until the
    /// mask is taken off by a `restore`.
    #[verifier::rlimit(40)]
    pub fn mask(&mut self, mask: &TickitRect)
        requires
            old(self)@.wf(),
        ensures
            final(self)@.wf(),
            final(self)@ == (RBView { cells: old(self)@.masked(*mask), ..old(self)@ }),
    {
        let hole = move_into(mask, self.xlate_line, self.xlate_col, self.lines, self.cols);
        let depth = self.stack.len() as i32;
        let ghost v = self@;
        let mut line: i32 = hole.top;
        while line < hole.top + hole.lines
            invariant
                hole.valid(),
                0 <= hole.top && hole.bottom_edge() <= self.lines,
                0 <= hole.left && hole.right_edge() <= self.cols,
                hole.top <= line <= hole.bottom_edge(),
                v.wf(),
                depth == v.stack.len(),
                self@ == (RBView { cells: self@.cells, ..v }),
                self@.cells.len() == v.cells.len(),
                forall|l: int|
                    0 <= l < v.cells.len() ==> #[trigger] self@.cells[l] == if hole.top <= l < line {
                        v.masked(*mask)[l]
                    } else {
                        v.cells[l]
                    },
                hole == moved_into(
                    *mask,
                    v.xlate_line as int,
                    v.xlate_col as int,
                    v.lines as int,
                    v.cols as int,
                ),
            decreases hole.bottom_edge() - line,
        {
            let mut row = copy_row(&self.cells[line as usize]);
            assert(self@.cells[line as int] == v.cells[line as int]);
            assert(row@ == self@.cells[line as int]);
            let mut col: i32 = hole.left;
            while col < hole.left + hole.cols
                invariant
                    hole.valid(),
                    0 <= hole.left && hole.right_edge() <= self.cols,
                    hole.left <= col <= hole.right_edge(),
                    hole.top <= line < hole.bottom_edge(),
                    v.wf(),
                    0 <= line < v.lines,
                    row@.len() == v.cols,
                    self.cols == v.cols,
                    depth == v.stack.len(),
                    forall|c: int|
                        0 <= c < v.cols ==> #[trigger] row@[c] == if hole.left <= c < col
                            && v.cells[line as int][c].maskdepth == -1 {
                            RBCell { maskdepth: depth, ..v.cells[line as int][c] }
                        } else {
                            v.cells[line as int][c]
                        },
                decreases hole.right_edge() - col,
            {
                let mut cell = row[col as usize];
                if cell.maskdepth == -1 {
                    cell.maskdepth = depth;
                    row[col as usize] = cell;
                }
                col += 1;
            }
            assert(row@ =~= v.masked(*mask)[line as int]);
            let ghost before = self@.cells;
            self.cells[line as usize] = row;
            assert forall|l: int| 0 <= l < v.cells.len() implies #[trigger] self@.cells[l] == if hole.top
                <= l < line + 1 {
                v.masked(*mask)[l]
            } else {
                v.cells[l]
            } by {
                if l != line {
                    assert(self@.cells[l] == before[l]);
                }
            }
            line += 1;
        }
        assert(self@.cells =~= v.masked(*mask)) by {
            assert forall|l: int| 0 <= l < v.cells.len() implies self@.cells[l] =~= v.masked(
                *mask,
            )[l] by {}
        }
    }

    /// Where the virtual cursor is, if it is anywhere.
    pub fn get_cursorpos(&self) -> (pos: Option<(i32, i32)>)
        ensures
            pos == if self@.vc_pos_set {
                Some((self@.vc_line, self@.vc_col))
            } else {
                None
            },
    {
        if self.vc_pos_set {
            Some((self.vc_line, self.vc_col))
        } else {
            None
        }
    }

    /// Puts the virtual cursor at a line and a column.
    pub fn goto(&mut self, line: i32, col: i32)
        ensures
            final(self)@ == (RBView {
                vc_pos_set: true,
                vc_line: line,
                vc_col: col,
                ..old(self)@
            }),
    {
        self.vc_pos_set = true;
        self.vc_line = line;
        self.vc_col = col;
    }

    /// Takes the virtual cursor away.
    pub fn ungoto(&mut self)
        ensures
            final(self)@ == (RBView { vc_pos_set: false, ..old(self)@ }),
    {
        self.vc_pos_set = false;
    }

    /// Sets the pen that drawing requests draw with. The attributes
    /// that `pen` leaves unset are taken from the pen last saved.
    pub fn setpen(&mut self, pen: &TickitPen)
        ensures
            final(self)@ == (RBView { pen: old(self)@.pen_set(pen@), ..old(self)@ }),
    {
        let mut newpen = pen.attrs();
        let n = self.stack.len();
        if n > 0 {
            let prev = self.stack[n - 1].pen;
            newpen.copy(&prev, false);
        }
        self.pen = newpen;
    }

    /// Makes the buffer as new: nothing drawn, masked or saved.
    pub fn reset(&mut self)
        requires
            old(self)@.wf(),
        ensures
            final(self)@.wf(),
            final(self)@ == RBView::fresh(old(self)@.lines, old(self)@.cols),
    {
        self.cells = new_grid(self.lines, self.cols);
        self.texts = Vec::new();
        self.vc_pos_set = false;
        self.vc_line = 0;
        self.vc_col = 0;
        self.xlate_line = 0;
        self.xlate_col = 0;
        self.clip = TickitRect { top: 0, left: 0, lines: self.lines, cols: self.cols };
        self.pen = PenAttrs::new();
        self.stack = Vec::new();
        assert(self@.texts =~= Seq::empty());
    }

    /// Saves cursor, translation, clipping rectangle and pen for
    /// `restore`. Nothing is saved once the stack is as deep as it can
    /// be.
    pub fn save(&mut self)
        ensures
            final(self)@ == if old(self)@.stack.len() + 1 < i32::MAX {
                old(self)@.saved(false)
            } else {
                old(self)@
            },
            old(self)@.wf() ==> final(self)@.wf(),
    {
        self.push_frame(false);
    }

    /// Saves the pen for `restore`.
    pub fn savepen(&mut self)
        ensures
            final(self)@ == if old(self)@.stack.len() + 1 < i32::MAX {
                old(self)@.saved(true)
            } else {
                old(self)@
            },
            old(self)@.wf() ==> final(self)@.wf(),
    {
        self.push_frame(true);
    }

    fn push_frame(&mut self, pen_only: bool)
        ensures
            final(self)@ == if old(self)@.stack.len() + 1 < i32::MAX {
                old(self)@.saved(pen_only)
            } else {
                old(self)@
            },
            old(self)@.wf() ==> final(self)@.wf(),
    {
        if self.stack.len() < (i32::MAX - 1) as usize {
            self.stack.push(
                RBStack {
                    vc_pos_set: self.vc_pos_set,
                    vc_line: self.vc_line,
                    vc_col: self.vc_col,
                    xlate_line: self.xlate_line,
                    xlate_col: self.xlate_col,
                    clip: self.clip,
                    pen: self.pen,
                    pen_only,
                },
            );
        }
    }

    /// Puts back what the last `save` or `savepen` saved and takes off
    /// the masks made since.
    #[verifier::rlimit(40)]
    pub fn restore(&mut self)
        requires
            old(self)@.wf(),
        ensures
            final(self)@.wf(),
            final(self)@ == old(self)@.restored(),
    {
        let ghost v = self@;
        let f = match self.stack.pop() {
            Some(f) => f,
            None => {
                return ;
            },
        };
        assert(v.frame_fits(v.stack[v.stack.len() - 1]));
        assert(self.stack@ =~= v.stack.drop_last());
        self.pen = f.pen;
        if !f.pen_only {
            self.vc_pos_set = f.vc_pos_set;
            self.vc_line = f.vc_line;
            self.vc_col = f.vc_col;
            self.xlate_line = f.xlate_line;
            self.xlate_col = f.xlate_col;
            self.clip = f.clip;
        }
        let depth = self.stack.len();
        let ghost mid = self@;
        let mut line: usize = 0;
        while line < self.cells.len()
            invariant
                line <= self.cells.len(),
                self.cells@.len() == v.cells.len(),
                depth == v.stack.len() - 1,
                v.wf(),
                self@ == (RBView { cells: self@.cells, ..mid }),
                forall|l: int|
                    0 <= l < v.cells.len() ==> #[trigger] self.cells@[l]@ == if l < line {
                        v.unmasked_above(depth as int)[l]
                    } else {
                        v.cells[l]
                    },
            decreases self.cells.len() - line,
        {
            let mut row = copy_row(&self.cells[line]);
            assert(self.cells@[line as int]@ == v.cells[line as int]);
            let mut col: usize = 0;
            while col < row.len()
                invariant
                    col <= row.len(),
                    line < v.cells.len(),
                    row@.len() == v.cells[line as int].len(),
                    forall|c: int|
                        0 <= c < row@.len() ==> #[trigger] row@[c] == if c < col
                            && v.cells[line as int][c].maskdepth > depth {
                            RBCell { maskdepth: -1i32, ..v.cells[line as int][c] }
                        } else {
                            v.cells[line as int][c]
                        },
                decreases row.len() - col,
            {
                let mut cell = row[col];
                if cell.maskdepth >= 0 && cell.maskdepth as usize > depth {
                    cell.maskdepth = -1;
                    row[col] = cell;
                }
                col += 1;
            }
            assert(row@ =~= v.unmasked_above(depth as int)[line as int]);
            self.cells[line] = row;
            line += 1;
        }
        assert(self@.cells =~= v.unmasked_above(depth as int)) by {
            assert forall|l: int| 0 <= l < v.cells.len() implies self@.cells[l]
                =~= v.unmasked_above(depth as int)[l] by {}
        }
    }
}

impl RBView {
    /// Whether what the frame `f` kept can be put back into this
    /// buffer: its clipping rectangle lies inside the buffer and its
    /// translation within the coordinate limit.
    pub open spec fn frame_fits(self, f: RBStack) -> bool {
        &&& f.clip.valid()
        &&& 0 <= f.clip.top && f.clip.bottom_edge() <= self.lines
        &&& 0 <= f.clip.left && f.clip.right_edge() <= self.cols
        &&& -COORD_LIMIT <= f.xlate_line <= COORD_LIMIT
        &&& -COORD_LIMIT <= f.xlate_col <= COORD_LIMIT
    }
}

fn copy_row(row: &Vec<RBCell>) -> (r: Vec<RBCell>)
    ensures
        r@ == row@,
{
    let mut r: Vec<RBCell> = Vec::new();
    let mut i: usize = 0;
    while i < row.len()
        invariant
            i <= row.len(),
            r@ == row@.subrange(0, i as int),
        decreases row.len() - i,
    {
        r.push(row[i]);
        i += 1;
        assert(r@ =~= row@.subrange(0, i as int));
    }
    assert(row@.subrange(0, row@.len() as int) =~= row@);
    r
}

} // verus!

verus! {

/// The cell that a drawing request puts into a cell it draws into:
/// the state, pen, text, line bits and character of `t`.
pub open spec fn drawn_cell(t: RBCell, start: bool, offs: int) -> RBCell {
    RBCell {
        state: t.state,
        start,
        maskdepth: -1i32,
        pen: t.pen,
        text_idx: t.text_idx,
        offs: offs as i64,
        line: t.line,
        codepoint: t.codepoint,
    }
}

/// Whether a request that draws into the columns from `c0` up to `c1`
/// of `row` draws into the cell at `c`: the cell is one of those
/// columns and not masked.
pub open spec fn written(row: Seq<RBCell>, c0: int, c1: int, c: int) -> bool {
    0 <= c < row.len() && c0 <= c < c1 && row[c].maskdepth == -1
}

/// The cell at `c` of `row` after a request drew `t` into the columns
/// from `c0` up to `c1`, where the cell at `c0` shows the column
/// `offs0` of the request's text. A cell that is drawn into starts a
/// span if it is the first of the columns or the cell left of it is not
/// drawn into. A cell that is not drawn into stays as it is, but
/// starts a span if the cell left of it is drawn into.
pub open spec fn put_cell(row: Seq<RBCell>, c0: int, c1: int, t: RBCell, offs0: int, c: int) -> RBCell {
    if written(row, c0, c1, c) {
        drawn_cell(t, c == c0 || !written(row, c0, c1, c - 1), offs0 + (c - c0))
    } else {
        RBCell { start: row[c].start || written(row, c0, c1, c - 1), ..row[c] }
    }
}

/// The row `row` after a request drew `t` into the columns from `c0`
/// up to `c1`.
pub open spec fn put_row(row: Seq<RBCell>, c0: int, c1: int, t: RBCell, offs0: int) -> Seq<RBCell> {
    Seq::new(row.len(), |c: int| put_cell(row, c0, c1, t, offs0, c))
}

/// Where a request for `cols` columns from (`line`, `col`) draws.
pub struct Target {
    pub line: int,
    /// The first column drawn into.
    pub c0: int,
    /// The column behind the last one drawn into.
    pub c1: int,
    /// How many of the request's columns lie left of `c0`.
    pub skipped: int,
}

impl RBView {
    /// Where a request for `cols` columns from (`line`, `col`) draws:
    /// the coordinates are translated and what lies outside the
    /// clipping rectangle is cut off. `None` if nothing is left.
    pub open spec fn target(self, line: int, col: int, cols: int) -> Option<Target> {
        let l = line + self.xlate_line;
        let c = col + self.xlate_col;
        let c0 = max_int(c, self.clip.left as int);
        let c1 = min_int(c + cols, self.clip.right_edge());
        if l < self.clip.top || l >= self.clip.bottom_edge() || c0 >= c1 {
            None
        } else {
            Some(Target { line: l, c0, c1, skipped: c0 - c })
        }
    }

    /// The buffer after a request drew `t` into `cols` columns from
    /// (`line`, `col`).
    pub open spec fn drawn(self, line: int, col: int, cols: int, t: RBCell) -> RBView {
        match self.target(line, col, cols) {
            Some(g) => RBView {
                cells: self.cells.update(
                    g.line,
                    put_row(self.cells[g.line], g.c0, g.c1, t, g.skipped),
                ),
                ..self
            },
            None => self,
        }
    }

    /// The buffer with the virtual cursor moved right by `cols`
    /// columns.
    pub open spec fn advanced(self, cols: int) -> RBView {
        RBView { vc_col: bounded_sum(self.vc_col as int, cols), ..self }
    }
}

/// What a request that skips cells draws.
pub open spec fn skip_template() -> RBCell {
    skip_cell(false)
}

/// What a request that erases cells with the pen `pen` draws.
pub open spec fn erase_template(pen: PenAttrs) -> RBCell {
    RBCell { state: CellState::Erase, pen, ..skip_cell(false) }
}

/// What a request that draws the stored text `idx` with the pen `pen`
/// draws.
pub open spec fn text_template(pen: PenAttrs, idx: usize) -> RBCell {
    RBCell { state: CellState::Text, pen, text_idx: idx, ..skip_cell(false) }
}

/// What a request that draws the character `codepoint` with the pen
/// `pen` draws.
pub open spec fn char_template(pen: PenAttrs, codepoint: u32) -> RBCell {
    RBCell { state: CellState::Char, pen, codepoint, ..skip_cell(false) }
}

/// The width of a text in columns as the requests give it back: the
/// columns it takes, no more than the largest number that can be given
/// back; -1 for a text that cannot be measured.
pub open spec fn text_cols(text: Seq<u8>) -> i32 {
    let r = scan(text, StringPos::origin(), StringPos::origin(), StringPos::no_limit());
    if !r.1 {
        -1i32
    } else if r.0.columns > i32::MAX {
        i32::MAX
    } else {
        r.0.columns as i32
    }
}

/// A write into cells that are all masked changes nothing: the row
/// stays as it was.
pub proof fn lemma_masked_write_is_dropped(row: Seq<RBCell>, c0: int, c1: int, t: RBCell, offs0: int)
    requires
        forall|c: int| 0 <= c < row.len() && c0 <= c < c1 ==> (#[trigger] row[c]).maskdepth != -1,
    ensures
        put_row(row, c0, c1, t, offs0) == row,
{
    assert(put_row(row, c0, c1, t, offs0) =~= row);
}

/// A write changes no masked cell but for the mark that a span starts
/// there, and draws into every cell of its columns that is not masked.
pub proof fn lemma_write_goes_around_masks(
    row: Seq<RBCell>,
    c0: int,
    c1: int,
    t: RBCell,
    offs0: int,
    c: int,
)
    requires
        0 <= c < row.len(),
    ensures
        row[c].maskdepth != -1 ==> put_row(row, c0, c1, t, offs0)[c] == (RBCell {
            start: put_row(row, c0, c1, t, offs0)[c].start,
            ..row[c]
        }),
        row[c].maskdepth == -1 && c0 <= c < c1 ==> put_row(row, c0, c1, t, offs0)[c].state
            == t.state && put_row(row, c0, c1, t, offs0)[c].pen == t.pen,
        !(c0 <= c < c1) ==> put_row(row, c0, c1, t, offs0)[c] == (RBCell {
            start: put_row(row, c0, c1, t, offs0)[c].start,
            ..row[c]
        }),
{
}

/// Saving, then any drawing and any change of cursor, translation,
/// clipping rectangle and pen that leaves the save stack as it is, then
/// restoring gives back the cursor, translation, clipping rectangle and
/// pen that were saved, and the save stack as it was.
pub proof fn lemma_restore_undoes_save(v: RBView, w: RBView)
    requires
        w.stack == v.saved(false).stack,
    ensures
        w.restored().clip == v.clip,
        w.restored().xlate_line == v.xlate_line,
        w.restored().xlate_col == v.xlate_col,
        w.restored().vc_pos_set == v.vc_pos_set,
        w.restored().vc_line == v.vc_line,
        w.restored().vc_col == v.vc_col,
        w.restored().pen == v.pen,
        w.restored().stack == v.stack,
{
    assert(v.stack.push(v.frame(false)).drop_last() =~= v.stack);
}

/// Saving the pen, then any change that leaves the save stack as it
/// is, then restoring gives back the pen that was saved and leaves
/// cursor, translation and clipping rectangle as the changes made them.
pub proof fn lemma_restore_undoes_savepen(v: RBView, w: RBView)
    requires
        w.stack == v.saved(true).stack,
    ensures
        w.restored().pen == v.pen,
        w.restored().clip == w.clip,
        w.restored().xlate_line == w.xlate_line,
        w.restored().xlate_col == w.xlate_col,
        w.restored().vc_pos_set == w.vc_pos_set,
        w.restored().vc_line == w.vc_line,
        w.restored().vc_col == w.vc_col,
        w.restored().stack == v.stack,
{
    assert(v.stack.push(v.frame(true)).drop_last() =~= v.stack);
}

/// Clipping only ever cuts the clipping rectangle down.
pub proof fn lemma_clip_shrinks(v: RBView, rect: TickitRect)
    requires
        v.wf(),
    ensures
        v.clip.encloses(v.clipped_to(rect).clip),
{
}

impl TickitRenderBuffer {
    /// The pen to draw with.
    fn merge_pen(&self, pen: Option<&TickitPen>) -> (p: PenAttrs)
        ensures
            p == self@.pen_for(
                match pen {
                    Some(d) => Some(d@),
                    None => None,
                },
            ),
    {
        match pen {
            Some(d) => {
                let mut p = d.attrs();
                p.copy(&self.pen, false);
                p
            },
            None => self.pen,
        }
    }

    /// Draws `t` into `cols` columns from (`line`, `col`).
    #[verifier::rlimit(40)]
    fn put(&mut self, line: i64, col: i64, cols: i64, t: RBCell)
        requires
            old(self)@.wf(),
            -0x1_0000_0000 <= line <= 0x1_0000_0000,
            -0x1_0000_0000 <= col <= 0x1_0000_0000,
            -0x2_0000_0000 <= cols <= 0x2_0000_0000,
        ensures
            final(self)@.wf(),
            final(self)@ == old(self)@.drawn(line as int, col as int, cols as int, t),
    {
        let ghost v = self@;
        let l = line + self.xlate_line as i64;
        let c = col + self.xlate_col as i64;
        let left = self.clip.left as i64;
        let right = self.clip.right() as i64;
        let c0 = if c > left {
            c
        } else {
            left
        };
        let c1 = if c + cols < right {
            c + cols
        } else {
            right
        };
        if l < self.clip.top as i64 || l >= self.clip.bottom() as i64 || c0 >= c1 {
            return ;
        }
        let skipped = c0 - c;
        let li = l as usize;
        let mut row = copy_row(&self.cells[li]);
        let ghost old_row = row@;
        assert(old_row == v.cells[l as int]);
        let width = row.len();
        let mut i: usize = c0 as usize;
        let mut prev = false;
        // every cell of the columns, and the one right of them
        while i < width && (i as i64) <= c1
            invariant
                v.wf(),
                0 <= c0 < c1 <= width,
                width == v.cols,
                row@.len() == width,
                old_row.len() == width,
                c0 <= i <= c1 + 1,
                i <= width || i == c1 + 1,
                skipped == c0 - c,
                -0x2_0000_0000 <= c <= 0x2_0000_0000,
                prev == written(old_row, c0 as int, c1 as int, i - 1),
                forall|k: int|
                    0 <= k < width ==> #[trigger] row@[k] == if k < i {
                        put_cell(old_row, c0 as int, c1 as int, t, skipped as int, k)
                    } else {
                        old_row[k]
                    },
            decreases width + 1 - i,
        {
            let mut cell = row[i];
            let here = (i as i64) < c1 && cell.maskdepth == -1;
            if here {
                cell = RBCell {
                    state: t.state,
                    start: (i as i64) == c0 || !prev,
                    maskdepth: -1,
                    pen: t.pen,
                    text_idx: t.text_idx,
                    offs: skipped + (i as i64 - c0),
                    line: t.line,
                    codepoint: t.codepoint,
                };
            } else {
                cell.start = cell.start || prev;
            }
            row[i] = cell;
            prev = here;
            i += 1;
        }
        assert(row@ =~= put_row(old_row, c0 as int, c1 as int, t, skipped as int));
        self.cells[li] = row;
        assert(self@.cells =~= v.cells.update(
            l as int,
            put_row(old_row, c0 as int, c1 as int, t, skipped as int),
        )) by {
            assert forall|k: int| 0 <= k < v.cells.len() implies self@.cells[k] == v.cells.update(
                l as int,
                put_row(old_row, c0 as int, c1 as int, t, skipped as int),
            )[k] by {}
        }
    }

    /// Moves the virtual cursor right by `cols` columns.
    fn advance(&mut self, cols: i32)
        requires
            old(self)@.wf(),
        ensures
            final(self)@.wf(),
            final(self)@ == old(self)@.advanced(cols as int),
    {
        self.vc_col = kept_sum(self.vc_col, cols);
    }

    /// Makes the `len` cells from (`line`, `col`) hold nothing.
    pub fn skip_at(&mut self, line: i32, col: i32, len: i32)
        requires
            old(self)@.wf(),
        ensures
            final(self)@.wf(),
            final(self)@ == old(self)@.drawn(line as int, col as int, len as int, skip_template()),
    {
        self.put(line as i64, col as i64, len as i64, new_skip(false));
    }

    /// Makes the `len` cells from the virtual cursor hold nothing and
    /// moves the cursor behind them. Without a cursor nothing is done.
    pub fn skip(&mut self, len: i32)
        requires
            old(self)@.wf(),
        ensures
            final(self)@.wf(),
            final(self)@ == if old(self)@.vc_pos_set {
                old(self)@.drawn(
                    old(self)@.vc_line as int,
                    old(self)@.vc_col as int,
                    len as int,
                    skip_template(),
                ).advanced(len as int)
            } else {
                old(self)@
            },
    {
        if self.vc_pos_set {
            self.put(self.vc_line as i64, self.vc_col as i64, len as i64, new_skip(false));
            self.advance(len);
        }
    }

    /// Makes the cells from the virtual cursor up to the column `col`
    /// hold nothing and puts the cursor at `col`. Without a cursor
    /// nothing is done.
    pub fn skip_to(&mut self, col: i32)
        requires
            old(self)@.wf(),
        ensures
            final(self)@.wf(),
            final(self)@ == if old(self)@.vc_pos_set {
                RBView {
                    vc_col: col,
                    ..old(self)@.drawn(
                        old(self)@.vc_line as int,
                        old(self)@.vc_col as int,
                        col - old(self)@.vc_col,
                        skip_template(),
                    )
                }
            } else {
                old(self)@
            },
    {
        if self.vc_pos_set {
            self.put(
                self.vc_line as i64,
                self.vc_col as i64,
                col as i64 - self.vc_col as i64,
                new_skip(false),
            );
            self.vc_col = col;
        }
    }

    /// Erases the `len` cells from (`line`, `col`) with the pen for
    /// `pen`.
    pub fn erase_at(&mut self, line: i32, col: i32, len: i32, pen: Option<&TickitPen>)
        requires
            old(self)@.wf(),
        ensures
            final(self)@.wf(),
            final(self)@ == old(self)@.drawn(
                line as int,
                col as int,
                len as int,
                erase_template(
                    old(self)@.pen_for(
                        match pen {
                            Some(d) => Some(d@),
                            None => None,
                        },
                    ),
                ),
            ),
    {
        let p = self.merge_pen(pen);
        self.put(
            line as i64,
            col as i64,
            len as i64,
            RBCell { state: CellState::Erase, pen: p, ..new_skip(false) },
        );
    }

    /// Erases the `len` cells from the virtual cursor and moves the
    /// cursor behind them. Without a cursor nothing is done.
    pub fn erase(&mut self, len: i32, pen: Option<&TickitPen>)
        requires
            old(self)@.wf(),
        ensures
            final(self)@.wf(),
            final(self)@ == if old(self)@.vc_pos_set {
                old(self)@.drawn(
                    old(self)@.vc_line as int,
                    old(self)@.vc_col as int,
                    len as int,
                    erase_template(
                        old(self)@.pen_for(
                            match pen {
                                Some(d) => Some(d@),
                                None => None,
                            },
                        ),
                    ),
                ).advanced(len as int)
            } else {
                old(self)@
            },
    {
        if self.vc_pos_set {
            self.erase_at(self.vc_line, self.vc_col, len, pen);
            self.advance(len);
        }
    }

    /// Erases the cells from the virtual cursor up to the column `col`
    /// and puts the cursor at `col`. Without a cursor nothing is done.
    pub fn erase_to(&mut self, col: i32, pen: Option<&TickitPen>)
        requires
            old(self)@.wf(),
        ensures
            final(self)@.wf(),
            final(self)@ == if old(self)@.vc_pos_set {
                RBView {
                    vc_col: col,
                    ..old(self)@.drawn(
                        old(self)@.vc_line as int,
                        old(self)@.vc_col as int,
                        col - old(self)@.vc_col,
                        erase_template(
                            old(self)@.pen_for(
                                match pen {
                                    Some(d) => Some(d@),
                                    None => None,
                                },
                            ),
                        ),
                    )
                }
            } else {
                old(self)@
            },
    {
        if self.vc_pos_set {
            let p = self.merge_pen(pen);
            self.put(
                self.vc_line as i64,
                self.vc_col as i64,
                col as i64 - self.vc_col as i64,
                RBCell { state: CellState::Erase, pen: p, ..new_skip(false) },
            );
            self.vc_col = col;
        }
    }

    /// Draws the character `codepoint` into the cell at (`line`,
    /// `col`).
    pub fn char_at(&mut self, line: i32, col: i32, codepoint: char, pen: Option<&TickitPen>)
        requires
            old(self)@.wf(),
        ensures
            final(self)@.wf(),
            final(self)@ == old(self)@.drawn(
                line as int,
                col as int,
                1,
                char_template(
                    old(self)@.pen_for(
                        match pen {
                            Some(d) => Some(d@),
                            None => None,
                        },
                    ),
                    codepoint as u32,
                ),
            ),
    {
        let p = self.merge_pen(pen);
        self.put(
            line as i64,
            col as i64,
            1,
            RBCell { state: CellState::Char, pen: p, codepoint: codepoint as u32, ..new_skip(false) },
        );
    }

    /// Draws the character `codepoint` at the virtual cursor and moves
    /// the cursor one column right. Without a cursor nothing is done.
    pub fn char(&mut self, codepoint: char, pen: Option<&TickitPen>)
        requires
            old(self)@.wf(),
        ensures
            final(self)@.wf(),
            final(self)@ == if old(self)@.vc_pos_set {
                old(self)@.drawn(
                    old(self)@.vc_line as int,
                    old(self)@.vc_col as int,
                    1,
                    char_template(
                        old(self)@.pen_for(
                            match pen {
                                Some(d) => Some(d@),
                                None => None,
                            },
                        ),
                        codepoint as u32,
                    ),
                ).advanced(1)
            } else {
                old(self)@
            },
    {
        if self.vc_pos_set {
            self.char_at(self.vc_line, self.vc_col, codepoint, pen);
            self.advance(1);
        }
    }

    /// Draws the text `text` from (`line`, `col`) on. Returns the
    /// number of columns the text takes, whether or not all of them
    /// were drawn; or -1, with nothing drawn, for a text that holds a
    /// control character.
    pub fn text_at(&mut self, line: i32, col: i32, text: &str, pen: Option<&TickitPen>) -> (cols:
        i32)
        requires
            old(self)@.wf(),
        ensures
            final(self)@.wf(),
            cols == text_cols(text.spec_bytes()),
            final(self)@ == old(self)@.with_text(
                line as int,
                col as int,
                text.spec_bytes(),
                old(self)@.pen_for(
                    match pen {
                        Some(d) => Some(d@),
                        None => None,
                    },
                ),
            ),
    {
        self.text_bytes_at(line, col, text.as_bytes(), pen)
    }

    /// Draws the text `text` from (`line`, `col`) on.
    pub fn text_bytes_at(&mut self, line: i32, col: i32, text: &[u8], pen: Option<&TickitPen>) -> (cols:
        i32)
        requires
            old(self)@.wf(),
        ensures
            final(self)@.wf(),
            cols == text_cols(text@),
            final(self)@ == old(self)@.with_text(
                line as int,
                col as int,
                text@,
                old(self)@.pen_for(
                    match pen {
                        Some(d) => Some(d@),
                        None => None,
                    },
                ),
            ),
    {
        let mut pos = StringPos::zero();
        if !StringPos::scan_on(text, &mut pos, None) {
            return -1;
        }
        let cols: i32 = if pos.columns > i32::MAX as usize {
            i32::MAX
        } else {
            pos.columns as i32
        };
        let p = self.merge_pen(pen);
        let idx = self.texts.len();
        let ghost v = self@;
        self.texts.push(copy_bytes(text));
        assert(self@.texts =~= v.texts.push(text@));
        self.put(
            line as i64,
            col as i64,
            cols as i64,
            RBCell { state: CellState::Text, pen: p, text_idx: idx, ..new_skip(false) },
        );
        cols
    }

    /// Draws the text `text` from the virtual cursor on and moves the
    /// cursor behind it. Returns the number of columns the text takes;
    /// or -1, with nothing done, without a cursor or for a text that
    /// holds a control character.
    pub fn text(&mut self, text: &str, pen: Option<&TickitPen>) -> (cols: i32)
        requires
            old(self)@.wf(),
        ensures
            final(self)@.wf(),
            cols == if old(self)@.vc_pos_set {
                text_cols(text.spec_bytes())
            } else {
                -1i32
            },
            final(self)@ == if old(self)@.vc_pos_set && cols >= 0 {
                old(self)@.with_text(
                    old(self)@.vc_line as int,
                    old(self)@.vc_col as int,
                    text.spec_bytes(),
                    old(self)@.pen_for(
                        match pen {
                            Some(d) => Some(d@),
                            None => None,
                        },
                    ),
                ).advanced(cols as int)
            } else {
                old(self)@
            },
    {
        if !self.vc_pos_set {
            return -1;
        }
        let cols = self.text_at(self.vc_line, self.vc_col, text, pen);
        if cols >= 0 {
            self.advance(cols);
        }
        cols
    }

    /// Erases the cells of `rect` with the pen for `pen`.
    pub fn eraserect(&mut self, rect: &TickitRect, pen: Option<&TickitPen>)
        requires
            old(self)@.wf(),
        ensures
            final(self)@.wf(),
            final(self)@ == old(self)@.erased_lines(
                rect.top as int,
                rect.lines as int,
                rect.left as int,
                rect.cols as int,
                old(self)@.pen_for(
                    match pen {
                        Some(d) => Some(d@),
                        None => None,
                    },
                ),
            ),
    {
        let p = self.merge_pen(pen);
        let t = RBCell { state: CellState::Erase, pen: p, ..new_skip(false) };
        let ghost v = self@;
        let mut i: i32 = 0;
        while i < rect.lines
            invariant
                0 <= i,
                i <= rect.lines || (rect.lines < 0 && i == 0),
                self@.wf(),
                t == erase_template(p),
                self@ == v.erased_lines(rect.top as int, i as int, rect.left as int, rect.cols as int, p),
            decreases rect.lines - i,
        {
            let line = rect.top as i64 + i as i64;
            self.put(line, rect.left as i64, rect.cols as i64, t);
            i += 1;
            assert(v.erased_lines(
                rect.top as int,
                i as int,
                rect.left as int,
                rect.cols as int,
                p,
            ) == v.erased_lines(rect.top as int, i - 1, rect.left as int, rect.cols as int, p).drawn(
                rect.top + i - 1,
                rect.left as int,
                rect.cols as int,
                erase_template(p),
            ));
        }
    }

    /// Erases every cell with the pen for `pen`.
    pub fn clear(&mut self, pen: Option<&TickitPen>)
        requires
            old(self)@.wf(),
        ensures
            final(self)@.wf(),
            final(self)@ == old(self)@.erased_lines(
                0,
                old(self)@.lines as int,
                0,
                old(self)@.cols as int,
                old(self)@.pen_for(
                    match pen {
                        Some(d) => Some(d@),
                        None => None,
                    },
                ),
            ),
    {
        let whole = TickitRect { top: 0, left: 0, lines: self.lines, cols: self.cols };
        self.eraserect(&whole, pen);
    }
}

impl RBView {
    /// The buffer after the text `text` was drawn from (`line`, `col`)
    /// on with the pen `pen`: the text is stored and its columns are
    /// drawn. A text that cannot be measured changes nothing.
    pub open spec fn with_text(self, line: int, col: int, text: Seq<u8>, pen: PenAttrs) -> RBView {
        if text_cols(text) < 0 {
            self
        } else {
            (RBView { texts: self.texts.push(text), ..self }).drawn(
                line,
                col,
                text_cols(text) as int,
                text_template(pen, self.texts.len() as usize),
            )
        }
    }

    /// The buffer after `count` lines from `top` on were erased, each
    /// in the `cols` columns from `left` on, with the pen `pen`.
    pub open spec fn erased_lines(self, top: int, count: int, left: int, cols: int, pen: PenAttrs) -> RBView
        decreases count,
    {
        if count <= 0 {
            self
        } else {
            self.erased_lines(top, count - 1, left, cols, pen).drawn(
                top + count - 1,
                left,
                cols,
                erase_template(pen),
            )
        }
    }
}

} // verus!

verus! {

/// What a request that draws the line bits `bits` with the pen `pen`
/// draws.
pub open spec fn line_template(pen: PenAttrs, bits: LineBits) -> RBCell {
    RBCell { state: CellState::Line, pen, line: bits, ..skip_cell(false) }
}

/// The line bits of `a` and `b` together: in each direction the bits
/// of both.
pub open spec fn joined_bits(a: LineBits, b: LineBits) -> LineBits {
    LineBits {
        north: a.north | b.north,
        east: a.east | b.east,
        south: a.south | b.south,
        west: a.west | b.west,
    }
}

/// The line bits of a piece of line of the style `style` towards the
/// directions for which the flags hold.
pub open spec fn bits_towards(style: TickitLineStyle, n: bool, e: bool, s: bool, w: bool) -> LineBits {
    LineBits {
        north: if n {
            style.code() as u8
        } else {
            0
        },
        east: if e {
            style.code() as u8
        } else {
            0
        },
        south: if s {
            style.code() as u8
        } else {
            0
        },
        west: if w {
            style.code() as u8
        } else {
            0
        },
    }
}

impl RBView {
    /// The buffer after a piece of line with the bits `bits` was drawn
    /// into the cell at (`line`, `col`) with the pen `pen`. Where the
    /// cell holds a piece of line drawn with the same pen the bits are
    /// joined to its bits; any other content is replaced.
    pub open spec fn lined(self, line: int, col: int, bits: LineBits, pen: PenAttrs) -> RBView {
        match self.target(line, col, 1) {
            Some(g) => {
                let cell = self.cells[g.line][g.c0];
                let merged = if cell.state == CellState::Line && cell.pen == pen {
                    joined_bits(cell.line, bits)
                } else {
                    bits
                };
                self.drawn(line, col, 1, line_template(pen, merged))
            },
            None => self,
        }
    }

    /// The buffer after pieces of line with the bits `bits` were drawn
    /// into `count` cells from (`line`, `col`) on, going right
    /// (`across`) or down.
    pub open spec fn lined_run(
        self,
        line: int,
        col: int,
        count: int,
        across: bool,
        bits: LineBits,
        pen: PenAttrs,
    ) -> RBView
        decreases count,
    {
        if count <= 0 {
            self
        } else {
            let before = self.lined_run(line, col, count - 1, across, bits, pen);
            if across {
                before.lined(line, col + count - 1, bits, pen)
            } else {
                before.lined(line + count - 1, col, bits, pen)
            }
        }
    }

    /// The buffer after a line was drawn from (`line`, `col`) over
    /// `last - first` further cells, going right (`across`) or down:
    /// the first cell gets a piece towards the line, and away from it
    /// if the start is capped; the cells between get pieces both ways;
    /// the last cell gets a piece towards the line, and away from it if
    /// the end is capped.
    pub open spec fn with_line(
        self,
        fixed: int,
        first: int,
        last: int,
        across: bool,
        style: TickitLineStyle,
        pen: PenAttrs,
        caps: TickitLineCaps,
    ) -> RBView {
        let head = if across {
            bits_towards(style, false, true, false, caps.start)
        } else {
            bits_towards(style, caps.start, false, true, false)
        };
        let body = if across {
            bits_towards(style, false, true, false, true)
        } else {
            bits_towards(style, true, false, true, false)
        };
        let tail = if across {
            bits_towards(style, false, caps.end, false, true)
        } else {
            bits_towards(style, true, false, caps.end, false)
        };
        let a = if across {
            self.lined(fixed, first, head, pen)
        } else {
            self.lined(first, fixed, head, pen)
        };
        let b = if across {
            a.lined_run(fixed, first + 1, last - first - 1, true, body, pen)
        } else {
            a.lined_run(first + 1, fixed, last - first - 1, false, body, pen)
        };
        if across {
            b.lined(fixed, last, tail, pen)
        } else {
            b.lined(last, fixed, tail, pen)
        }
    }
}

fn make_bits(style: TickitLineStyle, n: bool, e: bool, s: bool, w: bool) -> (b: LineBits)
    ensures
        b == bits_towards(style, n, e, s, w),
{
    let v = style.value();
    LineBits {
        north: if n {
            v
        } else {
            0
        },
        east: if e {
            v
        } else {
            0
        },
        south: if s {
            v
        } else {
            0
        },
        west: if w {
            v
        } else {
            0
        },
    }
}

impl TickitRenderBuffer {
    /// Draws a piece of line into one cell.
    fn linecell(&mut self, line: i64, col: i64, bits: LineBits, pen: PenAttrs)
        requires
            old(self)@.wf(),
            -0x1_0000_0000 <= line <= 0x1_0000_0000,
            -0x1_0000_0000 <= col <= 0x1_0000_0000,
        ensures
            final(self)@.wf(),
            final(self)@ == old(self)@.lined(line as int, col as int, bits, pen),
    {
        let l = line + self.xlate_line as i64;
        let c = col + self.xlate_col as i64;
        if l < self.clip.top as i64 || l >= self.clip.bottom() as i64 || c < self.clip.left as i64
            || c >= self.clip.right() as i64 {
            return ;
        }
        let cell = self.cells[l as usize][c as usize];
        let same = match cell.state {
            CellState::Line => cell.pen.equiv(&pen),
            _ => false,
        };
        let merged = if same {
            LineBits {
                north: cell.line.north | bits.north,
                east: cell.line.east | bits.east,
                south: cell.line.south | bits.south,
                west: cell.line.west | bits.west,
            }
        } else {
            bits
        };
        self.put(
            line,
            col,
            1,
            RBCell { state: CellState::Line, pen, line: merged, ..new_skip(false) },
        );
    }

    /// Draws pieces of line into a run of cells.
    fn linecells(&mut self, line: i64, col: i64, count: i64, across: bool, bits: LineBits, pen: PenAttrs)
        requires
            old(self)@.wf(),
            -0x8000_0001 <= line <= 0x8000_0001,
            -0x8000_0001 <= col <= 0x8000_0001,
            count <= 0x1_0000_0000,
        ensures
            final(self)@.wf(),
            final(self)@ == old(self)@.lined_run(
                line as int,
                col as int,
                count as int,
                across,
                bits,
                pen,
            ),
    {
        let ghost v = self@;
        let mut i: i64 = 0;
        while i < count
            invariant
                0 <= i,
                i <= count || (count < 0 && i == 0),
                count <= 0x1_0000_0000,
                -0x8000_0001 <= line <= 0x8000_0001,
                -0x8000_0001 <= col <= 0x8000_0001,
                self@.wf(),
                self@ == v.lined_run(line as int, col as int, i as int, across, bits, pen),
            decreases count - i,
        {
            let ghost before = self@;
            let (l, c) = if across {
                (line, col + i)
            } else {
                (line + i, col)
            };
            if -0x1_0000_0000 <= l && l <= 0x1_0000_0000 && -0x1_0000_0000 <= c && c
                <= 0x1_0000_0000 {
                self.linecell(l, c, bits, pen);
            } else {
                assert(before.target(l as int, c as int, 1) is None);
            }
            i += 1;
            assert(v.lined_run(line as int, col as int, i as int, across, bits, pen) == (if across {
                v.lined_run(line as int, col as int, i - 1, across, bits, pen).lined(
                    line as int,
                    col + i - 1,
                    bits,
                    pen,
                )
            } else {
                v.lined_run(line as int, col as int, i - 1, across, bits, pen).lined(
                    line + i - 1,
                    col as int,
                    bits,
                    pen,
                )
            }));
        }
    }

    /// Draws a horizontal line on the line `line` from the column
    /// `startcol` to the column `endcol`.
    pub fn hline_at(
        &mut self,
        line: i32,
        startcol: i32,
        endcol: i32,
        style: TickitLineStyle,
        pen: Option<&TickitPen>,
        caps: TickitLineCaps,
    )
        requires
            old(self)@.wf(),
        ensures
            final(self)@.wf(),
            final(self)@ == old(self)@.with_line(
                line as int,
                startcol as int,
                endcol as int,
                true,
                style,
                old(self)@.pen_for(
                    match pen {
                        Some(d) => Some(d@),
                        None => None,
                    },
                ),
                caps,
            ),
    {
        let p = self.merge_pen(pen);
        self.linecell(line as i64, startcol as i64, make_bits(style, false, true, false, caps.start), p);
        self.linecells(
            line as i64,
            startcol as i64 + 1,
            endcol as i64 - startcol as i64 - 1,
            true,
            make_bits(style, false, true, false, true),
            p,
        );
        self.linecell(line as i64, endcol as i64, make_bits(style, false, caps.end, false, true), p);
    }

    /// Draws a vertical line in the column `col` from the line
    /// `startline` to the line `endline`.
    pub fn vline_at(
        &mut self,
        startline: i32,
        endline: i32,
        col: i32,
        style: TickitLineStyle,
        pen: Option<&TickitPen>,
        caps: TickitLineCaps,
    )
        requires
            old(self)@.wf(),
        ensures
            final(self)@.wf(),
            final(self)@ == old(self)@.with_line(
                col as int,
                startline as int,
                endline as int,
                false,
                style,
                old(self)@.pen_for(
                    match pen {
                        Some(d) => Some(d@),
                        None => None,
                    },
                ),
                caps,
            ),
    {
        let p = self.merge_pen(pen);
        self.linecell(startline as i64, col as i64, make_bits(style, caps.start, false, true, false), p);
        self.linecells(
            startline as i64 + 1,
            col as i64,
            endline as i64 - startline as i64 - 1,
            false,
            make_bits(style, true, false, true, false),
            p,
        );
        self.linecell(endline as i64, col as i64, make_bits(style, true, false, caps.end, false), p);
    }
}

} // verus!

verus! {

/// The column where the span that starts at `col` of `row` ends, looked
/// for from `c` on: the first column that starts a span or holds
/// something of another kind, or the end of the row.
pub open spec fn span_stop(row: Seq<RBCell>, col: int, c: int) -> int
    decreases row.len() - c,
{
    if c >= row.len() || col < 0 || col >= row.len() {
        row.len() as int
    } else if c > col && (row[c].start || row[c].state != row[col].state) {
        c
    } else {
        span_stop(row, col, c + 1)
    }
}

/// The column where the run of line drawing with one pen that starts
/// at `col` of `row` ends, looked for from `c` on.
pub open spec fn line_stop(row: Seq<RBCell>, col: int, c: int) -> int
    decreases row.len() - c,
{
    if c >= row.len() || col < 0 || col >= row.len() {
        row.len() as int
    } else if c > col && (row[c].state != CellState::Line || row[c].pen != row[col].pen) {
        c
    } else {
        line_stop(row, col, c + 1)
    }
}

/// The limit of `k` columns; of none for a negative `k`.
pub open spec fn column_limit(k: int) -> StringPos {
    StringPos {
        columns: if k < 0 {
            0usize
        } else if k >= UNLIMITED {
            UNLIMITED
        } else {
            k as usize
        },
        ..StringPos::no_limit()
    }
}

/// The bytes of `text` that show in the `n` columns from the column
/// `offs` of the text on.
pub open spec fn text_piece(text: Seq<u8>, offs: int, n: int) -> Seq<u8> {
    if text.len() > usize::MAX {
        Seq::empty()
    } else {
        let start = scan(text, StringPos::origin(), StringPos::origin(), column_limit(offs)).0;
        let end = scan(text, start, start, column_limit(max_int(offs, 0) + n)).0;
        if start.fits(text) && start.bytes <= end.bytes <= text.len() {
            text.subrange(start.bytes as int, end.bytes as int)
        } else {
            Seq::empty()
        }
    }
}

/// The bytes of the stored text of the cell `cell` that show in `n`
/// columns from the cell on.
pub open spec fn cell_piece(texts: Seq<Seq<u8>>, cell: RBCell, n: int) -> Seq<u8> {
    if cell.text_idx < texts.len() {
        text_piece(texts[cell.text_idx as int], cell.offs as int, n)
    } else {
        Seq::empty()
    }
}

/// The characters of the line drawing of the cells of `row` from `col`
/// up to `stop`, encoded.
pub open spec fn line_bytes(row: Seq<RBCell>, col: int, stop: int) -> Seq<u8>
    decreases stop - col,
{
    if stop <= col || stop > row.len() || col < 0 {
        Seq::empty()
    } else {
        line_bytes(row, col, stop - 1) + crate::strpos::utf8_of(line_glyph(row[stop - 1].line))
    }
}

/// The column where the span that starts at `col` of `row` ends: a run
/// of line drawing with one pen, one character, or the cells up to the
/// next start of a span.
pub open spec fn stop_of(row: Seq<RBCell>, col: int) -> int {
    if row[col].state == CellState::Line {
        line_stop(row, col, col + 1)
    } else if row[col].state == CellState::Char {
        col + 1
    } else {
        span_stop(row, col, col + 1)
    }
}

/// Whether something is drawn right behind the span that ends at
/// `stop`.
pub open spec fn more_behind(row: Seq<RBCell>, stop: int) -> bool {
    0 <= stop < row.len() && row[stop].state != CellState::Skip
}

/// The requests that flushing makes for the span that starts at
/// (`line`, `col`), when the terminal's cursor is in the column
/// `phycol` of that line, or nowhere known if `phycol` is negative:
/// the cursor is moved there unless it is there already, the pen is
/// set, and the span is printed or erased. After erasing, the cursor
/// is asked to be behind the erased cells only if the next cell holds
/// something.
pub open spec fn span_calls(v: RBView, line: int, col: int, phycol: int) -> Seq<TermCall> {
    let move_to = if phycol < col {
        seq![TermCall::Goto(line as i32, col as i32)]
    } else {
        Seq::empty()
    };
    move_to + seq![TermCall::SetPen(v.cells[line][col].pen), span_body(v, line, col)]
}

/// The request that prints or erases the span that starts at (`line`,
/// `col`).
pub open spec fn span_body(v: RBView, line: int, col: int) -> TermCall {
    let row = v.cells[line];
    let cell = row[col];
    let stop = stop_of(row, col);
    match cell.state {
        CellState::Text => TermCall::Print(cell_piece(v.texts, cell, stop - col)),
        CellState::Erase => TermCall::EraseCh(
            (stop - col) as i32,
            if more_behind(row, stop) {
                Some(true)
            } else {
                None
            },
        ),
        CellState::Line => TermCall::Print(line_bytes(row, col, stop)),
        _ => TermCall::Print(crate::strpos::utf8_of(cell.codepoint)),
    }
}

/// The column the terminal's cursor is in after the requests for the
/// span that starts at `col` of `row`: behind the span, or nowhere
/// known after erasing without asking for that.
pub open spec fn cursor_behind(row: Seq<RBCell>, col: int) -> int {
    let stop = stop_of(row, col);
    if row[col].state == CellState::Erase && !more_behind(row, stop) {
        -1
    } else {
        stop
    }
}

/// The requests that flushing makes for the line `line` from the
/// column `col` on, when the terminal's cursor is in the column
/// `phycol` of that line, or nowhere known if `phycol` is negative.
/// Cells that hold nothing are passed over; each span gets its
/// requests.
pub open spec fn line_calls(v: RBView, line: int, col: int, phycol: int) -> Seq<TermCall>
    decreases v.cols - col,
{
    if line < 0 || line >= v.cells.len() || col < 0 || col >= v.cells[line].len() || col >= v.cols {
        Seq::empty()
    } else {
        let row = v.cells[line];
        if row[col].state == CellState::Skip {
            line_calls(v, line, col + 1, phycol)
        } else {
            let stop = stop_of(row, col);
            if col < stop <= v.cols {
                span_calls(v, line, col, phycol) + line_calls(
                    v,
                    line,
                    stop,
                    cursor_behind(row, col),
                )
            } else {
                Seq::empty()
            }
        }
    }
}

/// The requests that flushing makes for the lines from `line` on.
pub open spec fn flush_calls(v: RBView, line: int) -> Seq<TermCall>
    decreases v.cells.len() - line,
{
    if line < 0 || line >= v.cells.len() {
        Seq::empty()
    } else {
        line_calls(v, line, 0, -1) + flush_calls(v, line + 1)
    }
}

proof fn lemma_blank_line_calls(v: RBView, line: int, col: int, phycol: int)
    requires
        v.cells == blank_grid(v.lines as int, v.cols as int),
        0 <= col,
    ensures
        line_calls(v, line, col, phycol) == Seq::<TermCall>::empty(),
    decreases v.cols - col,
{
    if 0 <= line < v.cells.len() && col < v.cells[line].len() && col < v.cols {
        lemma_blank_line_calls(v, line, col + 1, phycol);
    }
}

proof fn lemma_blank_flush_calls(v: RBView, line: int)
    requires
        v.cells == blank_grid(v.lines as int, v.cols as int),
        0 <= line,
    ensures
        flush_calls(v, line) == Seq::<TermCall>::empty(),
    decreases v.cells.len() - line,
{
    if line < v.cells.len() {
        lemma_blank_line_calls(v, line, 0, -1);
        lemma_blank_flush_calls(v, line + 1);
        assert(flush_calls(v, line) =~= Seq::<TermCall>::empty());
    }
}

/// Flushing a buffer into which nothing was drawn makes no request: so
/// a second flush with nothing drawn since the first leaves the
/// terminal as it is.
pub proof fn lemma_flush_twice<D: TickitTermDriverImpl>(lines: i32, cols: i32, t: TermView<D::Model>)
    ensures
        flush_calls(RBView::fresh(lines, cols), 0) == Seq::<TermCall>::empty(),
        term_run::<D>(t, flush_calls(RBView::fresh(lines, cols), 0)) == t,
{
    lemma_blank_flush_calls(RBView::fresh(lines, cols), 0);
}

/// Running requests and then one more is running them all.
proof fn lemma_run_push<D: TickitTermDriverImpl>(
    t: TermView<D::Model>,
    calls: Seq<TermCall>,
    c: TermCall,
)
    ensures
        term_run::<D>(t, calls.push(c)) == term_step::<D>(term_run::<D>(t, calls), c),
{
    assert(calls.push(c).drop_last() =~= calls);
}

/// Running requests and then more is running them all.
proof fn lemma_run_concat<D: TickitTermDriverImpl>(
    t: TermView<D::Model>,
    a: Seq<TermCall>,
    b: Seq<TermCall>,
)
    ensures
        term_run::<D>(t, a + b) == term_run::<D>(term_run::<D>(t, a), b),
    decreases b.len(),
{
    if b.len() == 0 {
        assert(a + b =~= a);
    } else {
        lemma_run_concat::<D>(t, a, b.drop_last());
        assert((a + b).drop_last() =~= a + b.drop_last());
        assert((a + b).last() == b.last());
    }
}

proof fn lemma_calls_assoc(a: Seq<TermCall>, b: Seq<TermCall>, c: Seq<TermCall>)
    ensures
        (a + b) + c == a + (b + c),
        a + Seq::<TermCall>::empty() == a,
{
    assert((a + b) + c =~= a + (b + c));
    assert(a + Seq::<TermCall>::empty() =~= a);
}

impl TickitRenderBuffer {
    /// The column where the span that starts at `col` ends.
    fn find_stop(row: &Vec<RBCell>, col: usize, lines_only: bool) -> (stop: usize)
        requires
            col < row@.len(),
        ensures
            col < stop <= row@.len(),
            stop == if lines_only {
                line_stop(row@, col as int, col + 1)
            } else {
                span_stop(row@, col as int, col + 1)
            },
    {
        let width = row.len();
        let first = row[col];
        let mut c: usize = col + 1;
        while c < width
            invariant
                width == row@.len(),
                col < c <= row@.len(),
                first == row@[col as int],
                lines_only ==> line_stop(row@, col as int, c as int) == line_stop(
                    row@,
                    col as int,
                    col + 1,
                ),
                !lines_only ==> span_stop(row@, col as int, c as int) == span_stop(
                    row@,
                    col as int,
                    col + 1,
                ),
            decreases row.len() - c,
        {
            let cell = row[c];
            let same_state = match (cell.state, first.state) {
                (CellState::Skip, CellState::Skip) => true,
                (CellState::Text, CellState::Text) => true,
                (CellState::Erase, CellState::Erase) => true,
                (CellState::Line, CellState::Line) => true,
                (CellState::Char, CellState::Char) => true,
                _ => false,
            };
            if lines_only {
                let is_line = match cell.state {
                    CellState::Line => true,
                    _ => false,
                };
                if !is_line || !cell.pen.equiv(&first.pen) {
                    return c;
                }
            } else if cell.start || !same_state {
                return c;
            }
            c += 1;
        }
        c
    }

    /// The bytes of `text` that show in the `n` columns from the column
    /// `offs` on.
    fn piece_of(text: &Vec<u8>, offs: i64, n: usize) -> (bytes: Vec<u8>)
        ensures
            bytes@ == text_piece(text@, offs as int, n as int),
    {
        let first: usize = if offs < 0 {
            0
        } else if offs as u64 >= UNLIMITED as u64 {
            UNLIMITED
        } else {
            offs as usize
        };
        let base: usize = if offs < 0 {
            0
        } else {
            first
        };
        let upto: usize = if base >= UNLIMITED - n {
            UNLIMITED
        } else {
            base + n
        };
        if text.len() == 0 {
            assert(text_piece(text@, offs as int, n as int) =~= Seq::<u8>::empty());
            return Vec::new();
        }
        let mut start = StringPos::zero();
        let l1 = StringPos::limit_columns(first);
        assert(l1 == column_limit(offs as int));
        StringPos::scan_on(text.as_slice(), &mut start, Some(l1));
        let mut end = start;
        let l2 = StringPos::limit_columns(upto);
        assert(l2 == column_limit(max_int(offs as int, 0) + n));
        StringPos::scan_on(text.as_slice(), &mut end, Some(l2));
        slice_bytes(text.as_slice(), start.bytes, end.bytes)
    }

    /// The characters of the line drawing of the cells from `col` up to
    /// `stop`, encoded.
    fn lines_of(row: &Vec<RBCell>, col: usize, stop: usize) -> (bytes: Vec<u8>)
        requires
            col <= stop <= row@.len(),
        ensures
            bytes@ == line_bytes(row@, col as int, stop as int),
    {
        let mut bytes: Vec<u8> = Vec::new();
        let mut c: usize = col;
        while c < stop
            invariant
                col <= c <= stop <= row@.len(),
                bytes@ == line_bytes(row@, col as int, c as int),
            decreases stop - c,
        {
            crate::strpos::push_utf8(&mut bytes, line_char(&row[c].line));
            c += 1;
        }
        bytes
    }

    /// Where the span that starts at (`line`, `col`) ends, and the bytes
    /// that it shows.
    #[verifier::rlimit(40)]
    fn span_content(&self, line: usize, col: usize) -> (r: (usize, Vec<u8>))
        requires
            self@.wf(),
            line < self@.cells.len(),
            col < self@.cols,
        ensures
            r.0 == stop_of(self@.cells[line as int], col as int),
            col < r.0 <= self@.cols,
            self@.cells[line as int][col as int].state == CellState::Line ==> r.1@ == line_bytes(
                self@.cells[line as int],
                col as int,
                r.0 as int,
            ),
            self@.cells[line as int][col as int].state != CellState::Line ==> r.1@
                == self@.shown_from(line as int, col as int, r.0 - col),
    {
        let row = &self.cells[line];
        assert(row@ == self@.cells[line as int]);
        let cell = row[col];
        match cell.state {
            CellState::Line => {
                let stop = TickitRenderBuffer::find_stop(row, col, true);
                (stop, TickitRenderBuffer::lines_of(row, col, stop))
            },
            CellState::Char => (col + 1, self.bytes_from(&cell, 1)),
            _ => {
                let stop = TickitRenderBuffer::find_stop(row, col, false);
                (stop, self.bytes_from(&cell, stop - col))
            },
        }
    }

    /// Makes the requests for the span that starts at (`line`, `col`).
    /// Returns the column where the span ends and the column the
    /// terminal's cursor is in afterwards.
    #[verifier::rlimit(40)]
    fn flush_span<D: TickitTermDriverImpl>(
        &self,
        tt: &mut TickitTerm<D>,
        line: usize,
        col: usize,
        phycol: i64,
    ) -> (r: (usize, i64))
        requires
            self@.wf(),
            line < self@.cells.len(),
            col < self@.cols,
            self@.cells[line as int][col as int].state != CellState::Skip,
            -1 <= phycol <= self@.cols,
        ensures
            final(tt)@ == term_run::<D>(
                old(tt)@,
                span_calls(self@, line as int, col as int, phycol as int),
            ),
            final(tt).wf() == old(tt).wf(),
            r.0 == stop_of(self@.cells[line as int], col as int),
            r.1 == cursor_behind(self@.cells[line as int], col as int),
            col < r.0 <= self@.cols,
    {
        let ghost v = self@;
        let ghost t0 = tt@;
        let cell = self.cells[line][col];
        let (stop, bytes) = self.span_content(line, col);
        let is_erase = match cell.state {
            CellState::Erase => true,
            _ => false,
        };
        let more = stop < self.cells[line].len() && match self.cells[line][stop].state {
            CellState::Skip => false,
            _ => true,
        };
        let ghost mut done: Seq<TermCall> = Seq::empty();
        if phycol < col as i64 {
            proof {
                lemma_run_push::<D>(t0, done, TermCall::Goto(line as i32, col as i32));
                done = done.push(TermCall::Goto(line as i32, col as i32));
            }
            tt.goto(line as i32, col as i32);
        }
        proof {
            lemma_run_push::<D>(t0, done, TermCall::SetPen(cell.pen));
            done = done.push(TermCall::SetPen(cell.pen));
            lemma_run_push::<D>(t0, done, span_body(v, line as int, col as int));
            done = done.push(span_body(v, line as int, col as int));
        }
        tt.setpen_attrs(&cell.pen);
        if is_erase {
            tt.erasech(
                (stop - col) as i32,
                if more {
                    Some(true)
                } else {
                    None
                },
            );
        } else {
            tt.print_bytes(bytes.as_slice());
        }
        assert(done =~= span_calls(v, line as int, col as int, phycol as int));
        let after: i64 = if is_erase && !more {
            -1
        } else {
            stop as i64
        };
        (stop, after)
    }

    /// Makes the requests for the line `line`.
    #[verifier::rlimit(40)]
    fn flush_line<D: TickitTermDriverImpl>(&self, tt: &mut TickitTerm<D>, line: usize)
        requires
            self@.wf(),
            line < self@.cells.len(),
        ensures
            final(tt)@ == term_run::<D>(old(tt)@, line_calls(self@, line as int, 0, -1)),
            final(tt).wf() == old(tt).wf(),
    {
        let ghost v = self@;
        let ghost t0 = tt@;
        let ghost mut done: Seq<TermCall> = Seq::empty();
        let width = self.cells[line].len();
        let mut col: usize = 0;
        let mut phycol: i64 = -1;
        proof {
            assert(done + line_calls(v, line as int, 0, -1) =~= line_calls(v, line as int, 0, -1));
        }
        while col < width
            invariant
                line < self@.cells.len(),
                width == v.cols,
                col <= width,
                -1 <= phycol <= width,
                self@ == v,
                v.wf(),
                tt.wf() == old(tt).wf(),
                tt@ == term_run::<D>(t0, done),
                done + line_calls(v, line as int, col as int, phycol as int) == line_calls(
                    v,
                    line as int,
                    0,
                    -1,
                ),
            decreases width - col,
        {
            let cell = self.cells[line][col];
            assert(cell == v.cells[line as int][col as int]);
            match cell.state {
                CellState::Skip => {
                    col += 1;
                },
                _ => {
                    let ghost calls = span_calls(v, line as int, col as int, phycol as int);
                    let ghost tail = line_calls(
                        v,
                        line as int,
                        stop_of(v.cells[line as int], col as int),
                        cursor_behind(v.cells[line as int], col as int),
                    );
                    let (stop, after) = self.flush_span(tt, line, col, phycol);
                    proof {
                        lemma_run_concat::<D>(t0, done, calls);
                        assert(line_calls(v, line as int, col as int, phycol as int) == calls + tail);
                        lemma_calls_assoc(done, calls, tail);
                        done = done + calls;
                    }
                    col = stop;
                    phycol = after;
                },
            }
        }
        proof {
            assert(line_calls(v, line as int, col as int, phycol as int) =~= Seq::<TermCall>::empty());
            lemma_calls_assoc(done, Seq::empty(), Seq::empty());
        }
    }

    /// Makes the terminal `tt` show what was drawn, with no more
    /// requests than that takes, and makes the buffer as new.
    #[verifier::rlimit(40)]
    pub fn flush_to_term<D: TickitTermDriverImpl>(&mut self, tt: &mut TickitTerm<D>)
        requires
            old(self)@.wf(),
        ensures
            final(self)@.wf(),
            final(self)@ == RBView::fresh(old(self)@.lines, old(self)@.cols),
            final(tt)@ == term_run::<D>(old(tt)@, flush_calls(old(self)@, 0)),
            final(tt).wf() == old(tt).wf(),
    {
        let ghost v = self@;
        let ghost t0 = tt@;
        let ghost mut done: Seq<TermCall> = Seq::empty();
        let mut line: usize = 0;
        proof {
            assert(done + flush_calls(v, 0) =~= flush_calls(v, 0));
        }
        while line < self.cells.len()
            invariant
                line <= self.cells.len(),
                self@ == v,
                v.wf(),
                tt.wf() == old(tt).wf(),
                tt@ == term_run::<D>(t0, done),
                done + flush_calls(v, line as int) == flush_calls(v, 0),
            decreases self.cells.len() - line,
        {
            let ghost calls = line_calls(v, line as int, 0, -1);
            self.flush_line(tt, line);
            proof {
                lemma_run_concat::<D>(t0, done, calls);
                lemma_calls_assoc(done, calls, flush_calls(v, line + 1));
                done = done + calls;
            }
            line += 1;
        }
        proof {
            assert(flush_calls(v, line as int) =~= Seq::<TermCall>::empty());
            lemma_calls_assoc(done, Seq::empty(), Seq::empty());
        }
        self.reset();
    }
}

} // verus!

verus! {

/// The line styles of a cell towards its four neighbours.
#[derive(Clone, Copy, Debug, PartialEq, Eq, Structural)]
pub struct TickitRenderBufferLineMask {
    pub north: TickitLineStyle,
    pub south: TickitLineStyle,
    pub east: TickitLineStyle,
    pub west: TickitLineStyle,
}

impl TickitRenderBufferLineMask {
    /// The line styles of the line bits `lo`.
    pub fn from_c(lo: LineBits) -> (mask: TickitRenderBufferLineMask)
        ensures
            mask == (TickitRenderBufferLineMask {
                north: style_from(lo.north),
                south: style_from(lo.south),
                east: style_from(lo.east),
                west: style_from(lo.west),
            }),
    {
        TickitRenderBufferLineMask {
            north: TickitLineStyle::from_value(lo.north % 4),
            south: TickitLineStyle::from_value(lo.south % 4),
            east: TickitLineStyle::from_value(lo.east % 4),
            west: TickitLineStyle::from_value(lo.west % 4),
        }
    }

    /// The line bits of the line styles.
    pub fn to_c(self) -> (lo: LineBits)
        ensures
            lo == (LineBits {
                north: self.north.code() as u8,
                east: self.east.code() as u8,
                south: self.south.code() as u8,
                west: self.west.code() as u8,
            }),
            self == (TickitRenderBufferLineMask {
                north: style_from(lo.north),
                south: style_from(lo.south),
                east: style_from(lo.east),
                west: style_from(lo.west),
            }),
    {
        LineBits {
            north: self.north.value(),
            east: self.east.value(),
            south: self.south.value(),
            west: self.west.value(),
        }
    }
}

/// What a span holds.
pub enum TickitRenderBufferSpanInfo {
    /// Nothing, over this many columns.
    SkipSpan { n_columns: i32 },
    /// Something drawn with `pen`; `text` is what is shown, empty for
    /// erased cells.
    TextSpan { pen: TickitPen, text: String },
}

impl RBView {
    /// Whether the buffer has a cell at (`line`, `col`).
    pub open spec fn has_cell(self, line: int, col: int) -> bool {
        0 <= line < self.cells.len() && 0 <= col < self.cells[line].len()
    }

    /// The bytes that the `n` columns from (`line`, `col`) on show, as
    /// far as the content of that cell goes: columns of its text, its
    /// character or its piece of line; nothing for an erased cell or
    /// one that holds nothing.
    pub open spec fn shown_from(self, line: int, col: int, n: int) -> Seq<u8> {
        let cell = self.cells[line][col];
        match cell.state {
            CellState::Text => cell_piece(self.texts, cell, n),
            CellState::Line => crate::strpos::utf8_of(line_glyph(cell.line)),
            CellState::Char => crate::strpos::utf8_of(cell.codepoint),
            _ => Seq::empty(),
        }
    }

    /// The number of columns from `col` of the line `line` up to the
    /// next start of a span.
    pub open spec fn span_cols(self, line: int, col: int) -> int {
        span_stop(self.cells[line], col, col + 1) - col
    }
}

/// The style of a style number.
pub open spec fn style_from(v: u8) -> TickitLineStyle {
    TickitLineStyle::of_code((v % 4) as int)
}

impl TickitRenderBuffer {
    fn cell_at(&self, line: i32, col: i32) -> (c: Option<RBCell>)
        ensures
            c == if self@.has_cell(line as int, col as int) {
                Some(self@.cells[line as int][col as int])
            } else {
                None
            },
    {
        if line < 0 || col < 0 {
            return None;
        }
        if (line as usize) < self.cells.len() {
            let row = &self.cells[line as usize];
            if (col as usize) < row.len() {
                return Some(row[col as usize]);
            }
        }
        None
    }

    /// The bytes that the `n` columns from `col` on show.
    fn bytes_from(&self, cell: &RBCell, n: usize) -> (bytes: Vec<u8>)
        ensures
            bytes@ == match cell.state {
                CellState::Text => cell_piece(self@.texts, *cell, n as int),
                CellState::Line => crate::strpos::utf8_of(line_glyph(cell.line)),
                CellState::Char => crate::strpos::utf8_of(cell.codepoint),
                _ => Seq::empty(),
            },
    {
        let mut bytes: Vec<u8> = Vec::new();
        match cell.state {
            CellState::Text => {
                if cell.text_idx < self.texts.len() {
                    bytes = TickitRenderBuffer::piece_of(&self.texts[cell.text_idx], cell.offs, n);
                }
            },
            CellState::Line => {
                crate::strpos::push_utf8(&mut bytes, line_char(&cell.line));
            },
            CellState::Char => {
                crate::strpos::push_utf8(&mut bytes, cell.codepoint);
            },
            _ => {},
        }
        bytes
    }

    /// Whether something is drawn in the cell at (`line`, `col`).
    pub fn get_cell_active(&self, line: i32, col: i32) -> (active: bool)
        ensures
            active == (self@.has_cell(line as int, col as int)
                && self@.cells[line as int][col as int].state != CellState::Skip),
    {
        match self.cell_at(line, col) {
            Some(c) => match c.state {
                CellState::Skip => false,
                _ => true,
            },
            None => false,
        }
    }

    /// The bytes that the cell at (`line`, `col`) shows; none where
    /// there is no such cell.
    pub fn get_cell_bytes(&self, line: i32, col: i32) -> (bytes: Vec<u8>)
        ensures
            bytes@ == if self@.has_cell(line as int, col as int) {
                self@.shown_from(line as int, col as int, 1)
            } else {
                Seq::empty()
            },
    {
        match self.cell_at(line, col) {
            Some(c) => self.bytes_from(&c, 1),
            None => Vec::new(),
        }
    }

    /// The text that the cell at (`line`, `col`) shows.
    pub fn get_cell_text(&self, line: i32, col: i32) -> (text: String)
        ensures
            ({
                let bytes = if self@.has_cell(line as int, col as int) {
                    self@.shown_from(line as int, col as int, 1)
                } else {
                    Seq::empty()
                };
                vstd::utf8::valid_utf8(bytes) ==> text@ == vstd::utf8::decode_utf8(bytes)
            }),
    {
        let bytes = self.get_cell_bytes(line, col);
        string_of(bytes.as_slice())
    }

    /// The line styles of the cell at (`line`, `col`); no line in any
    /// direction where the cell holds no line drawing.
    pub fn get_cell_linemask(&self, line: i32, col: i32) -> (mask: TickitRenderBufferLineMask)
        ensures
            ({
                let bits = if self@.has_cell(line as int, col as int)
                    && self@.cells[line as int][col as int].state == CellState::Line {
                    self@.cells[line as int][col as int].line
                } else {
                    no_lines()
                };
                mask == (TickitRenderBufferLineMask {
                    north: style_from(bits.north),
                    south: style_from(bits.south),
                    east: style_from(bits.east),
                    west: style_from(bits.west),
                })
            }),
    {
        let bits = match self.cell_at(line, col) {
            Some(c) => match c.state {
                CellState::Line => c.line,
                _ => LineBits { north: 0, east: 0, south: 0, west: 0 },
            },
            None => LineBits { north: 0, east: 0, south: 0, west: 0 },
        };
        TickitRenderBufferLineMask::from_c(bits)
    }

    /// The pen that the cell at (`line`, `col`) was drawn with; the pen
    /// that sets nothing where there is no such cell.
    pub fn get_cell_pen(&self, line: i32, col: i32) -> (pen: TickitPen)
        ensures
            pen@ == if self@.has_cell(line as int, col as int) {
                self@.cells[line as int][col as int].pen
            } else {
                PenAttrs::unset()
            },
            pen.wf(),
    {
        match self.cell_at(line, col) {
            Some(c) => TickitPen::from_attrs(c.pen),
            None => TickitPen::new(),
        }
    }

    /// What the cells from (`line`, `startcol`) up to the next start of
    /// a span hold.
    pub fn get_span(&self, line: i32, startcol: i32) -> (info: TickitRenderBufferSpanInfo)
        requires
            self@.wf(),
            self@.has_cell(line as int, startcol as int),
        ensures
            match info {
                TickitRenderBufferSpanInfo::SkipSpan { n_columns } => self@.cells[line as int][startcol as int].state
                    == CellState::Skip && n_columns == self@.span_cols(
                    line as int,
                    startcol as int,
                ),
                TickitRenderBufferSpanInfo::TextSpan { pen, text } => {
                    let cell = self@.cells[line as int][startcol as int];
                    let bytes = self@.shown_from(
                        line as int,
                        startcol as int,
                        self@.span_cols(line as int, startcol as int),
                    );
                    cell.state != CellState::Skip && pen@ == cell.pen && (vstd::utf8::valid_utf8(
                        bytes,
                    ) ==> text@ == vstd::utf8::decode_utf8(bytes))
                },
            },
    {
        let row = &self.cells[line as usize];
        let col = startcol as usize;
        let cell = row[col];
        let stop = TickitRenderBuffer::find_stop(row, col, false);
        match cell.state {
            CellState::Skip => TickitRenderBufferSpanInfo::SkipSpan {
                n_columns: (stop - col) as i32,
            },
            _ => {
                let bytes = self.bytes_from(&cell, stop - col);
                TickitRenderBufferSpanInfo::TextSpan {
                    pen: TickitPen::from_attrs(cell.pen),
                    text: string_of(bytes.as_slice()),
                }
            },
        }
    }
}

} // verus!

verus! {

/// Nothing is drawn into a mask: after the cells of `mask` were
/// masked, a request all of whose cells lie in the mask leaves the
/// buffer as it is, so that flushing makes no request for it.
pub proof fn lemma_mask_holds(v: RBView, mask: TickitRect, line: int, col: int, cols: int, t: RBCell)
    requires
        v.wf(),
        mask.valid(),
        mask.top <= line < mask.bottom_edge(),
        mask.left <= col,
        col + cols <= mask.right_edge(),
    ensures
        (RBView { cells: v.masked(mask), ..v }).drawn(line, col, cols, t) == (RBView {
            cells: v.masked(mask),
            ..v
        }),
{
    let w = RBView { cells: v.masked(mask), ..v };
    match w.target(line, col, cols) {
        Some(g) => {
            let row = w.cells[g.line];
            let hole = moved_into(
                mask,
                v.xlate_line as int,
                v.xlate_col as int,
                v.lines as int,
                v.cols as int,
            );
            assert forall|c: int| 0 <= c < row.len() && g.c0 <= c < g.c1 implies (
            #[trigger] row[c]).maskdepth != -1 by {
                assert(hole.has(g.line, c));
            }
            lemma_masked_write_is_dropped(row, g.c0, g.c1, t, g.skipped);
            assert(w.cells.update(g.line, row) =~= w.cells);
        },
        None => {},
    }
}

} // verus!
