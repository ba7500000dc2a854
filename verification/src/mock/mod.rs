//! A terminal that is no terminal: its driver keeps a record of what
//! it was asked to do and a picture of the screen that this would
//! give, both of which can be looked at.

use vstd::prelude::*;
use crate::bytes::{copy_bytes, slice_bytes, string_of};
use crate::c::TickitTermCtl;
use crate::drv::{
    CDriverRef, DriverAnswer, DriverCtx, DriverOp, TermKeyEvent, TickitTermDriverImpl,
};
use crate::event::EventView;
use crate::pen::{PenAttrs, TickitPen};
use crate::rect::TickitRect;
use crate::strpos::{scan, StringPos, UNLIMITED};
use crate::term::{TermView, TickitTerm};

verus! {

/// One request that the mock terminal was asked to do.
pub enum LogEntry {
    Goto { line: i32, col: i32 },
    Print { str_: String },
    EraseCh { count: i32, moveend: Option<bool> },
    Clear,
    ScrollRect { downward: i32, rightward: i32, rect: TickitRect },
    SetPen { pen: TickitPen },
}

/// The kinds of recorded requests.
#[allow(non_camel_case_types)]
#[derive(Clone, Copy, Debug, PartialEq, Eq, Structural)]
pub enum X_TickitMockTermLogType {
    LOG_GOTO,
    LOG_PRINT,
    LOG_ERASECH,
    LOG_CLEAR,
    LOG_SCROLLRECT,
    LOG_SETPEN,
}

/// One recorded request, as the driver keeps it.
pub enum LogRecord {
    Goto { line: i32, col: i32 },
    Print { text: Vec<u8> },
    EraseCh { count: i32, moveend: Option<bool> },
    Clear,
    ScrollRect { downward: i32, rightward: i32, rect: TickitRect },
    SetPen { pen: PenAttrs },
}

/// The mathematical value of a recorded request.
pub enum LogView {
    Goto(i32, i32),
    Print(Seq<u8>),
    EraseCh(i32, Option<bool>),
    Clear,
    ScrollRect(i32, i32, TickitRect),
    SetPen(PenAttrs),
}

impl View for LogRecord {
    type V = LogView;

    open spec fn view(&self) -> LogView {
        match *self {
            LogRecord::Goto { line, col } => LogView::Goto(line, col),
            LogRecord::Print { text } => LogView::Print(text@),
            LogRecord::EraseCh { count, moveend } => LogView::EraseCh(count, moveend),
            LogRecord::Clear => LogView::Clear,
            LogRecord::ScrollRect { downward, rightward, rect } => LogView::ScrollRect(
                downward,
                rightward,
                rect,
            ),
            LogRecord::SetPen { pen } => LogView::SetPen(pen),
        }
    }
}

impl LogView {
    /// The kind of the request.
    pub open spec fn kind(self) -> X_TickitMockTermLogType {
        match self {
            LogView::Goto(line, col) => X_TickitMockTermLogType::LOG_GOTO,
            LogView::Print(text) => X_TickitMockTermLogType::LOG_PRINT,
            LogView::EraseCh(count, moveend) => X_TickitMockTermLogType::LOG_ERASECH,
            LogView::Clear => X_TickitMockTermLogType::LOG_CLEAR,
            LogView::ScrollRect(downward, rightward, rect) => X_TickitMockTermLogType::LOG_SCROLLRECT,
            LogView::SetPen(pen) => X_TickitMockTermLogType::LOG_SETPEN,
        }
    }
}

impl LogRecord {
    /// The kind of the request.
    pub fn log_type(&self) -> (t: X_TickitMockTermLogType)
        ensures
            t == self@.kind(),
    {
        match self {
            LogRecord::Goto { line, col } => X_TickitMockTermLogType::LOG_GOTO,
            LogRecord::Print { text } => X_TickitMockTermLogType::LOG_PRINT,
            LogRecord::EraseCh { count, moveend } => X_TickitMockTermLogType::LOG_ERASECH,
            LogRecord::Clear => X_TickitMockTermLogType::LOG_CLEAR,
            LogRecord::ScrollRect { downward, rightward, rect } => {
                X_TickitMockTermLogType::LOG_SCROLLRECT
            },
            LogRecord::SetPen { pen } => X_TickitMockTermLogType::LOG_SETPEN,
        }
    }
}

impl LogEntry {
    /// Whether the entry tells the recorded request `r`: it is of the
    /// same kind with the same values. The text of a print is told as
    /// far as the printed bytes are well-formed UTF-8.
    pub open spec fn tells(self, r: LogView) -> bool {
        match self {
            LogEntry::Goto { line, col } => r == LogView::Goto(line, col),
            LogEntry::Print { str_ } => r matches LogView::Print(t) && (vstd::utf8::valid_utf8(t)
                ==> str_@ == vstd::utf8::decode_utf8(t)),
            LogEntry::EraseCh { count, moveend } => r == LogView::EraseCh(count, moveend),
            LogEntry::Clear => r == LogView::Clear,
            LogEntry::ScrollRect { downward, rightward, rect } => r == LogView::ScrollRect(
                downward,
                rightward,
                rect,
            ),
            LogEntry::SetPen { pen } => r == LogView::SetPen(pen@),
        }
    }

    /// The entry that tells the recorded request `e`.
    pub fn from_c(e: &LogRecord) -> (entry: LogEntry)
        ensures
            entry.tells(e@),
    {
        match e {
            LogRecord::Goto { line, col } => LogEntry::Goto { line: *line, col: *col },
            LogRecord::Print { text } => LogEntry::Print { str_: string_of(text.as_slice()) },
            LogRecord::EraseCh { count, moveend } => LogEntry::EraseCh {
                count: *count,
                moveend: *moveend,
            },
            LogRecord::Clear => LogEntry::Clear,
            LogRecord::ScrollRect { downward, rightward, rect } => LogEntry::ScrollRect {
                downward: *downward,
                rightward: *rightward,
                rect: *rect,
            },
            LogRecord::SetPen { pen } => LogEntry::SetPen { pen: TickitPen::from_attrs(*pen) },
        }
    }
}

/// One cell of the pictured screen.
pub struct MockCell {
    pub text: Vec<u8>,
    pub pen: PenAttrs,
    /// Whether the cell is the right half of a wide character.
    pub cont: bool,
}

/// The mathematical value of a cell: the bytes of the grapheme shown
/// in it, none for an empty cell; the pen it was written with; and
/// whether it is the right half of a wide character.
pub struct CellView {
    pub text: Seq<u8>,
    pub pen: PenAttrs,
    pub cont: bool,
}

impl View for MockCell {
    type V = CellView;

    open spec fn view(&self) -> CellView {
        CellView { text: self.text@, pen: self.pen, cont: self.cont }
    }
}

/// The empty cell.
pub open spec fn blank_cell() -> CellView {
    CellView { text: Seq::empty(), pen: PenAttrs::unset(), cont: false }
}

/// An erased cell: empty, with the pen it was erased with.
pub open spec fn erased_cell(pen: PenAttrs) -> CellView {
    CellView { text: Seq::empty(), pen, cont: false }
}

/// Whether the grid `cells` has a cell at (`line`, `col`).
pub open spec fn in_grid(cells: Seq<Seq<CellView>>, line: int, col: int) -> bool {
    0 <= line < cells.len() && 0 <= col < cells[line].len()
}

/// The cell at (`line`, `col`), the empty cell where there is none.
pub open spec fn cell_or_blank(cells: Seq<Seq<CellView>>, line: int, col: int) -> CellView {
    if in_grid(cells, line, col) {
        cells[line][col]
    } else {
        blank_cell()
    }
}

/// The cells of a row as values.
pub open spec fn row_view(row: Seq<MockCell>) -> Seq<CellView> {
    Seq::new(row.len(), |c: int| row[c]@)
}

/// The cells of a grid as values.
pub open spec fn grid_view(cells: Seq<Vec<MockCell>>) -> Seq<Seq<CellView>> {
    Seq::new(cells.len(), |l: int| row_view(cells[l]@))
}

/// The model of the mock driver: the pictured screen, the record, the
/// cursor and the pen.
pub struct MockView {
    pub cells: Seq<Seq<CellView>>,
    pub cols: i32,
    pub log: Seq<LogView>,
    pub line: i32,
    pub col: i32,
    pub pen: PenAttrs,
}

/// A coordinate moved by `by`, kept within the range of coordinates.
pub open spec fn clamped(at: i32, by: int) -> i32 {
    if at + by < 0 {
        0
    } else if at + by > i32::MAX {
        i32::MAX
    } else {
        (at + by) as i32
    }
}

/// The limit that ends a scan from `pos` after one grapheme.
pub open spec fn one_more(pos: StringPos) -> StringPos {
    StringPos { graphemes: (pos.graphemes + 1) as usize, ..StringPos::no_limit() }
}

/// The row `row` with `head` in the cell at `col` and `tail` in the
/// cells right of it that a width of `w` takes in.
pub open spec fn put(row: Seq<CellView>, col: int, w: int, head: CellView, tail: CellView) -> Seq<
    CellView,
> {
    Seq::new(
        row.len(),
        |c: int|
            if c == col {
                head
            } else if col < c < col + w {
                tail
            } else {
                row[c]
            },
    )
}

/// The row after the graphemes of `text` from `pos` on were put into
/// it from the column `col` on, and the column behind the last one
/// put. Each grapheme takes the cell at the cursor, and a wide one the
/// cell right of it as its right half. Putting ends with the text, at
/// the first grapheme that does not fit into the row, and where the
/// text cannot be measured.
pub open spec fn placed(
    row: Seq<CellView>,
    col: int,
    text: Seq<u8>,
    pos: StringPos,
    pen: PenAttrs,
) -> (Seq<CellView>, int)
    decreases text.len() - pos.bytes,
{
    if text.len() > usize::MAX || !pos.fits(text) || pos.graphemes == UNLIMITED {
        (row, col)
    } else {
        let r = scan(text, pos, pos, one_more(pos));
        let end = r.0;
        if !r.1 || end.bytes <= pos.bytes || end.columns <= pos.columns || end.bytes > text.len()
            {
            (row, col)
        } else {
            let w = end.columns - pos.columns;
            if col < 0 || col + w > row.len() {
                (row, col)
            } else {
                let head = CellView {
                    text: text.subrange(pos.bytes as int, end.bytes as int),
                    pen,
                    cont: false,
                };
                let tail = CellView { text: Seq::empty(), pen, cont: true };
                placed(put(row, col, w, head, tail), col + w, text, end, pen)
            }
        }
    }
}

/// Whether the mock terminal can scroll `rect` as asked: up or down
/// only if the rectangle spans the whole width, sideways only if it
/// reaches the right edge.
pub open spec fn mock_can_scroll(cols: i32, rect: TickitRect, downward: int, rightward: int) -> bool {
    &&& rect.valid()
    &&& downward != 0 ==> rect.left == 0 && rect.right_edge() == cols
    &&& rightward != 0 ==> rect.right_edge() == cols
}

impl MockView {
    /// The model with `entry` added to the record.
    pub open spec fn logged(self, entry: LogView) -> MockView {
        MockView { log: self.log.push(entry), ..self }
    }

    /// The model after the cursor was put at a line and a column, of
    /// which a negative one stays as it is.
    pub open spec fn at(self, line: i32, col: i32) -> MockView {
        MockView {
            line: if line >= 0 {
                line
            } else {
                self.line
            },
            col: if col >= 0 {
                col
            } else {
                self.col
            },
            ..self
        }
    }

    /// The grid with every cell of `self` replaced by what `f` gives
    /// for its place.
    pub open spec fn remade(self, f: spec_fn(int, int) -> CellView) -> Seq<Seq<CellView>> {
        Seq::new(self.cells.len(), |l: int| Seq::new(self.cells[l].len(), |c: int| f(l, c)))
    }

    /// The screen after `count` cells from the cursor on were erased.
    pub open spec fn erased(self, count: int) -> Seq<Seq<CellView>> {
        self.remade(
            |l: int, c: int|
                if l == self.line && self.col <= c < self.col + count {
                    erased_cell(self.pen)
                } else {
                    self.cells[l][c]
                },
        )
    }

    /// The screen after the content of `rect` moved up by `downward`
    /// lines and left by `rightward` columns: a cell of the rectangle
    /// shows what the cell that far down and right of it showed, or
    /// nothing if that cell is outside the rectangle.
    pub open spec fn scrolled(self, rect: TickitRect, downward: int, rightward: int) -> Seq<
        Seq<CellView>,
    > {
        self.remade(
            |l: int, c: int|
                if rect.has(l, c) {
                    if rect.has(l + downward, c + rightward) {
                        cell_or_blank(self.cells, l + downward, c + rightward)
                    } else {
                        blank_cell()
                    }
                } else {
                    self.cells[l][c]
                },
        )
    }

    /// The screen of `lines` lines and `cols` columns that shows what
    /// this one shows where the two overlap.
    pub open spec fn resized(self, lines: int, cols: int) -> Seq<Seq<CellView>> {
        Seq::new(
            lines as nat,
            |l: int| Seq::new(cols as nat, |c: int| cell_or_blank(self.cells, l, c)),
        )
    }

    /// The model after text was printed at the cursor.
    pub open spec fn printed(self, text: Seq<u8>) -> MockView {
        let m = self.logged(LogView::Print(text));
        if 0 <= self.line < self.cells.len() {
            let p = placed(
                self.cells[self.line as int],
                self.col as int,
                text,
                StringPos::origin(),
                self.pen,
            );
            MockView {
                cells: self.cells.update(self.line as int, p.0),
                col: if 0 <= p.1 <= i32::MAX {
                    p.1 as i32
                } else {
                    self.col
                },
                ..m
            }
        } else {
            m
        }
    }
}

/// The mock driver after a request.
pub open spec fn mock_after(m: MockView, ctx: DriverCtx, op: DriverOp) -> MockView {
    match op {
        DriverOp::Print(text) => m.printed(text),
        DriverOp::GotoAbs(line, col) => m.logged(LogView::Goto(line as i32, col as i32)).at(
            line as i32,
            col as i32,
        ),
        DriverOp::MoveRel(downward, rightward) => {
            let line = clamped(m.line, downward);
            let col = clamped(m.col, rightward);
            m.logged(LogView::Goto(line, col)).at(line, col)
        },
        DriverOp::ScrollRect(rect, downward, rightward) => if (downward != 0 || rightward != 0)
            && mock_can_scroll(m.cols, rect, downward, rightward) {
            MockView {
                cells: m.scrolled(rect, downward, rightward),
                ..m.logged(LogView::ScrollRect(downward as i32, rightward as i32, rect))
            }
        } else {
            m
        },
        DriverOp::EraseCh(count, moveend) => MockView {
            cells: m.erased(count),
            col: if moveend == Some(true) && count > 0 {
                clamped(m.col, count)
            } else {
                m.col
            },
            ..m.logged(LogView::EraseCh(count as i32, moveend))
        },
        DriverOp::Clear => MockView {
            cells: m.remade(|l: int, c: int| blank_cell()),
            ..m.logged(LogView::Clear)
        },
        DriverOp::ChPen(delta, final_) => MockView { pen: final_, ..m.logged(LogView::SetPen(final_)) },
        _ => m,
    }
}

/// What the mock driver answers to a request. It writes nothing for
/// any.
pub open spec fn mock_answers(m: MockView, ctx: DriverCtx, op: DriverOp) -> DriverAnswer {
    match op {
        DriverOp::GotoAbs(line, col) => DriverAnswer::Able(true),
        DriverOp::ScrollRect(rect, downward, rightward) => DriverAnswer::Able(
            (downward == 0 && rightward == 0) || mock_can_scroll(m.cols, rect, downward, rightward),
        ),
        DriverOp::GetCtlInt(ctl) => DriverAnswer::Value(
            if ctl == TickitTermCtl::TICKIT_TERMCTL_COLORS {
                Some(256int)
            } else {
                None
            },
        ),
        DriverOp::SetCtlInt(ctl, value) => DriverAnswer::Able(false),
        DriverOp::SetCtlStr(ctl, value) => DriverAnswer::Able(false),
        DriverOp::GotKey(key) => DriverAnswer::Able(false),
        _ => DriverAnswer::Done,
    }
}

/// The driver of the mock terminal.
pub struct MockDriver {
    cells: Vec<Vec<MockCell>>,
    cols: i32,
    log: Vec<LogRecord>,
    line: i32,
    col: i32,
    pen: PenAttrs,
}

/// The recorded requests as values.
pub open spec fn log_view(log: Seq<LogRecord>) -> Seq<LogView> {
    Seq::new(log.len(), |i: int| log[i]@)
}

fn saturated(at: i32, by: i32) -> (r: i32)
    ensures
        r == clamped(at, by as int),
{
    let sum = at as i64 + by as i64;
    if sum < 0 {
        0
    } else if sum > i32::MAX as i64 {
        i32::MAX
    } else {
        sum as i32
    }
}

fn blank() -> (c: MockCell)
    ensures
        c@ == blank_cell(),
{
    MockCell { text: Vec::new(), pen: PenAttrs::new(), cont: false }
}

fn copy_cell(c: &MockCell) -> (r: MockCell)
    ensures
        r@ == c@,
{
    MockCell { text: copy_bytes(c.text.as_slice()), pen: c.pen, cont: c.cont }
}

fn copy_row(row: &Vec<MockCell>) -> (r: Vec<MockCell>)
    ensures
        row_view(r@) == row_view(row@),
        r@.len() == row@.len(),
{
    let mut r: Vec<MockCell> = Vec::new();
    let mut i: usize = 0;
    while i < row.len()
        invariant
            i <= row.len(),
            r@.len() == i,
            forall|k: int| 0 <= k < i ==> (#[trigger] r@[k])@ == row@[k]@,
        decreases row.len() - i,
    {
        r.push(copy_cell(&row[i]));
        i += 1;
    }
    assert(row_view(r@) =~= row_view(row@));
    r
}

impl MockDriver {
    /// The cell at (`line`, `col`) or the empty cell.
    fn get(&self, line: usize, col: usize) -> (c: MockCell)
        ensures
            c@ == cell_or_blank(grid_view(self.cells@), line as int, col as int),
    {
        if line < self.cells.len() {
            let row = &self.cells[line];
            if col < row.len() {
                return copy_cell(&row[col]);
            }
        }
        blank()
    }

    /// The cell at (`line`, `col`) or the empty cell.
    fn get_at(&self, line: i64, col: i64) -> (c: MockCell)
        requires
            line <= u32::MAX,
            col <= u32::MAX,
        ensures
            c@ == cell_or_blank(grid_view(self.cells@), line as int, col as int),
    {
        if 0 <= line && 0 <= col {
            self.get(line as usize, col as usize)
        } else {
            blank()
        }
    }

    /// A driver that pictures a screen of `lines` lines and `cols`
    /// columns, all empty, with the cursor at the top left.
    pub fn new(lines: i32, cols: i32) -> (d: MockDriver)
        ensures
            d.model() == (MockView {
                cells: Seq::new(
                    (if lines > 0 {
                        lines as int
                    } else {
                        0
                    }) as nat,
                    |l: int|
                        Seq::new(
                            (if cols > 0 {
                                cols as int
                            } else {
                                0
                            }) as nat,
                            |c: int| blank_cell(),
                        ),
                ),
                cols,
                log: Seq::empty(),
                line: 0,
                col: 0,
                pen: PenAttrs::unset(),
            }),
    {
        let mut d = MockDriver {
            cells: Vec::new(),
            cols,
            log: Vec::new(),
            line: 0,
            col: 0,
            pen: PenAttrs::new(),
        };
        d.remake_sized(lines, cols);
        d.cols = cols;
        assert(d.model().cells =~= Seq::new(
            (if lines > 0 {
                lines as int
            } else {
                0
            }) as nat,
            |l: int|
                Seq::new(
                    (if cols > 0 {
                        cols as int
                    } else {
                        0
                    }) as nat,
                    |c: int| blank_cell(),
                ),
        )) by {
            assert forall|l: int| 0 <= l < d.model().cells.len() implies d.model().cells[l]
                =~= Seq::new(
                (if cols > 0 {
                    cols as int
                } else {
                    0
                }) as nat,
                |c: int| blank_cell(),
            ) by {}
        }
        assert(d.model().log =~= Seq::empty());
        d
    }

    /// Makes the screen one of `lines` lines and `cols` columns that
    /// shows what it showed where the two overlap.
    #[verifier::rlimit(40)]
    fn remake_sized(&mut self, lines: i32, cols: i32)
        ensures
            final(self).model() == (MockView {
                cells: old(self).model().resized(
                    if lines > 0 {
                        lines as int
                    } else {
                        0
                    },
                    if cols > 0 {
                        cols as int
                    } else {
                        0
                    },
                ),
                ..old(self).model()
            }),
    {
        let nl: usize = if lines > 0 {
            lines as usize
        } else {
            0
        };
        let nc: usize = if cols > 0 {
            cols as usize
        } else {
            0
        };
        let mut grid: Vec<Vec<MockCell>> = Vec::new();
        let mut l: usize = 0;
        while l < nl
            invariant
                l <= nl,
                nl <= i32::MAX,
                nc <= i32::MAX,
                grid@.len() == l,
                forall|a: int|
                    0 <= a < l ==> row_view((#[trigger] grid@[a])@) == Seq::new(
                        nc as nat,
                        |c: int| cell_or_blank(grid_view(self.cells@), a, c),
                    ),
            decreases nl - l,
        {
            let mut row: Vec<MockCell> = Vec::new();
            let mut c: usize = 0;
            while c < nc
                invariant
                    c <= nc,
                    l < nl,
                    nl <= i32::MAX,
                    nc <= i32::MAX,
                    row@.len() == c,
                    forall|b: int|
                        0 <= b < c ==> (#[trigger] row@[b])@ == cell_or_blank(
                            grid_view(self.cells@),
                            l as int,
                            b,
                        ),
                decreases nc - c,
            {
                row.push(self.get(l, c));
                c += 1;
            }
            assert(row_view(row@) =~= Seq::new(
                nc as nat,
                |c: int| cell_or_blank(grid_view(self.cells@), l as int, c),
            ));
            grid.push(row);
            l += 1;
        }
        let ghost before = self.model();
        self.cells = grid;
        assert(self.model().cells =~= before.resized(nl as int, nc as int));
    }

    /// Moves the content of `rect` up by `downward` lines and left by
    /// `rightward` columns.
    #[verifier::rlimit(40)]
    fn remake_scrolled(&mut self, rect: TickitRect, downward: i32, rightward: i32)
        requires
            rect.valid(),
        ensures
            final(self).model() == (MockView {
                cells: old(self).model().scrolled(rect, downward as int, rightward as int),
                ..old(self).model()
            }),
    {
        let ghost m = self.model();
        let mut grid: Vec<Vec<MockCell>> = Vec::new();
        let mut l: usize = 0;
        while l < self.cells.len()
            invariant
                l <= self.cells.len(),
                rect.valid(),
                m == self.model(),
                grid@.len() == l,
                forall|a: int|
                    0 <= a < l ==> row_view((#[trigger] grid@[a])@) == m.scrolled(
                        rect,
                        downward as int,
                        rightward as int,
                    )[a],
            decreases self.cells.len() - l,
        {
            let mut row: Vec<MockCell> = Vec::new();
            let width = self.cells[l].len();
            let mut c: usize = 0;
            while c < width
                invariant
                    c <= width,
                    l < self.cells.len(),
                    width == self.cells@[l as int]@.len(),
                    rect.valid(),
                    m == self.model(),
                    row@.len() == c,
                    forall|b: int|
                        0 <= b < c ==> (#[trigger] row@[b])@ == m.scrolled(
                            rect,
                            downward as int,
                            rightward as int,
                        )[l as int][b],
                decreases width - c,
            {
                let cell = if rect_has(&rect, l, c) {
                    let sl = l as i64 + downward as i64;
                    let sc = c as i64 + rightward as i64;
                    if rect.top as i64 <= sl && sl < rect.bottom() as i64 && rect.left as i64
                        <= sc && sc < rect.right() as i64 {
                        self.get_at(sl, sc)
                    } else {
                        blank()
                    }
                } else {
                    copy_cell(&self.cells[l][c])
                };
                row.push(cell);
                c += 1;
            }
            assert(row_view(row@) =~= m.scrolled(rect, downward as int, rightward as int)[l as int]);
            grid.push(row);
            l += 1;
        }
        self.cells = grid;
        assert(self.model().cells =~= m.scrolled(rect, downward as int, rightward as int));
    }

    /// Empties every cell.
    fn clear_all(&mut self)
        ensures
            final(self).model() == (MockView {
                cells: old(self).model().remade(|l: int, c: int| blank_cell()),
                ..old(self).model()
            }),
    {
        let ghost m = self.model();
        let mut grid: Vec<Vec<MockCell>> = Vec::new();
        let mut l: usize = 0;
        while l < self.cells.len()
            invariant
                l <= self.cells.len(),
                m == self.model(),
                grid@.len() == l,
                forall|a: int|
                    0 <= a < l ==> row_view((#[trigger] grid@[a])@) == m.remade(
                        |l: int, c: int| blank_cell(),
                    )[a],
            decreases self.cells.len() - l,
        {
            let mut row: Vec<MockCell> = Vec::new();
            let width = self.cells[l].len();
            let mut c: usize = 0;
            while c < width
                invariant
                    c <= width,
                    row@.len() == c,
                    forall|b: int| 0 <= b < c ==> (#[trigger] row@[b])@ == blank_cell(),
                decreases width - c,
            {
                row.push(blank());
                c += 1;
            }
            assert(row_view(row@) =~= m.remade(|l: int, c: int| blank_cell())[l as int]);
            grid.push(row);
            l += 1;
        }
        self.cells = grid;
        assert(self.model().cells =~= m.remade(|l: int, c: int| blank_cell()));
    }

    /// Erases `count` cells from the cursor on.
    #[verifier::rlimit(40)]
    fn erase_cells(&mut self, count: i32)
        ensures
            final(self).model() == (MockView {
                cells: old(self).model().erased(count as int),
                ..old(self).model()
            }),
    {
        let ghost m = self.model();
        if self.line >= 0 && (self.line as usize) < self.cells.len() {
            let line = self.line as usize;
            let mut row: Vec<MockCell> = Vec::new();
            let width = self.cells[line].len();
            let mut c: usize = 0;
            while c < width
                invariant
                    c <= width,
                    line < self.cells.len(),
                    line == self.line,
                    width == self.cells@[line as int]@.len(),
                    m == self.model(),
                    row@.len() == c,
                    forall|b: int|
                        0 <= b < c ==> (#[trigger] row@[b])@ == m.erased(count as int)[line as int][b],
                decreases width - c,
            {
                let hit = c <= 0xffff_ffff && self.col as i64 <= c as i64 && (c as i64)
                    < self.col as i64 + count as i64;
                let cell = if hit {
                    MockCell { text: Vec::new(), pen: self.pen, cont: false }
                } else {
                    copy_cell(&self.cells[line][c])
                };
                row.push(cell);
                c += 1;
            }
            assert(row_view(row@) =~= m.erased(count as int)[line as int]);
            self.cells[line] = row;
            assert(self.model().cells =~= m.erased(count as int)) by {
                assert forall|l: int| 0 <= l < m.cells.len() implies self.model().cells[l]
                    =~= m.erased(count as int)[l] by {}
            }
        } else {
            assert(self.model().cells =~= m.erased(count as int)) by {
                assert forall|l: int| 0 <= l < m.cells.len() implies self.model().cells[l]
                    =~= m.erased(count as int)[l] by {}
            }
        }
    }

    fn record(&mut self, entry: LogRecord)
        ensures
            final(self).model() == old(self).model().logged(entry@),
    {
        self.log.push(entry);
        assert(log_view(self.log@) =~= log_view(old(self).log@).push(entry@));
    }
}

} // verus!

verus! {

impl MockDriver {
    /// Puts the graphemes of `text` into the row `row` from the column
    /// `col` on.
    #[verifier::rlimit(40)]
    fn place(row: &mut Vec<MockCell>, col: usize, text: &[u8], pen: PenAttrs) -> (end_col: usize)
        ensures
            ({
                let p = placed(
                    row_view(old(row)@),
                    col as int,
                    text@,
                    StringPos::origin(),
                    pen,
                );
                row_view(final(row)@) == p.0 && end_col == p.1
            }),
            final(row)@.len() == old(row)@.len(),
    {
        let mut pos = StringPos::zero();
        let mut at: usize = col;
        loop
            invariant
                pos.fits(text@),
                row@.len() == old(row)@.len(),
                placed(row_view(row@), at as int, text@, pos, pen) == placed(
                    row_view(old(row)@),
                    col as int,
                    text@,
                    StringPos::origin(),
                    pen,
                ),
            ensures
                row@.len() == old(row)@.len(),
                (row_view(row@), at as int) == placed(
                    row_view(old(row)@),
                    col as int,
                    text@,
                    StringPos::origin(),
                    pen,
                ),
            decreases text@.len() - pos.bytes,
        {
            if pos.graphemes == UNLIMITED {
                break ;
            }
            let mut end = pos;
            let ok = StringPos::scan_on(
                text,
                &mut end,
                Some(
                    StringPos {
                        bytes: UNLIMITED,
                        codepoints: UNLIMITED,
                        graphemes: pos.graphemes + 1,
                        columns: UNLIMITED,
                    },
                ),
            );
            if !ok || end.bytes <= pos.bytes || end.columns <= pos.columns || end.bytes
                > text.len() {
                break ;
            }
            let w = end.columns - pos.columns;
            if w > row.len() || at > row.len() - w {
                break ;
            }
            let ghost before = row_view(row@);
            let head = MockCell { text: slice_bytes(text, pos.bytes, end.bytes), pen, cont: false };
            let ghost head_view = head@;
            row[at] = head;
            let mut i: usize = 1;
            while i < w
                invariant
                    1 <= i <= w,
                    at + w <= row@.len(),
                    row@.len() <= usize::MAX,
                    row@.len() == old(row)@.len(),
                    before.len() == row@.len(),
                    forall|c: int|
                        0 <= c < row@.len() ==> (#[trigger] row@[c])@ == if c == at {
                            head_view
                        } else if at < c < at + i {
                            CellView { text: Seq::empty(), pen, cont: true }
                        } else {
                            before[c]
                        },
                decreases w - i,
            {
                row[at + i] = MockCell { text: Vec::new(), pen, cont: true };
                i += 1;
            }
            proof {
                let tail = CellView { text: Seq::empty(), pen, cont: true };
                let row2 = put(before, at as int, w as int, head_view, tail);
                assert(row_view(row@) =~= row2);
                assert(one_more(pos) == (StringPos {
                    bytes: UNLIMITED,
                    codepoints: UNLIMITED,
                    graphemes: (pos.graphemes + 1) as usize,
                    columns: UNLIMITED,
                }));
                assert(placed(before, at as int, text@, pos, pen) == placed(
                    row2,
                    at + w,
                    text@,
                    end,
                    pen,
                ));
            }
            at = at + w;
            pos = end;
        }
        at
    }

    fn do_print(&mut self, text: &[u8])
        ensures
            final(self).model() == old(self).model().printed(text@),
    {
        let ghost m = self.model();
        self.record(LogRecord::Print { text: copy_bytes(text) });
        if self.line >= 0 && (self.line as usize) < self.cells.len() {
            let line = self.line as usize;
            if self.col >= 0 {
                let mut row = copy_row(&self.cells[line]);
                let end = MockDriver::place(&mut row, self.col as usize, text, self.pen);
                let ghost placed_row = row_view(row@);
                self.cells[line] = row;
                if end <= i32::MAX as usize {
                    self.col = end as i32;
                }
                assert(self.model().cells =~= m.cells.update(line as int, placed_row)) by {
                    assert forall|l: int| 0 <= l < self.cells@.len() implies self.model().cells[l]
                        == m.cells.update(line as int, placed_row)[l] by {}
                }
            } else {
                assert(self.model().cells =~= m.cells.update(line as int, m.cells[line as int]));
            }
        }
    }

    /// The number of recorded requests.
    pub fn loglen(&self) -> (n: usize)
        ensures
            n == self.model().log.len(),
    {
        self.log.len()
    }

    /// Forgets the recorded requests.
    pub fn clearlog(&mut self)
        ensures
            final(self).model() == (MockView { log: Seq::empty(), ..old(self).model() }),
    {
        self.log = Vec::new();
        assert(log_view(self.log@) =~= Seq::empty());
    }

    /// The recorded request at position `i`, oldest first.
    pub fn peeklog(&self, i: usize) -> (e: LogEntry)
        requires
            i < self.model().log.len(),
        ensures
            e.tells(self.model().log[i as int]),
    {
        LogEntry::from_c(&self.log[i])
    }

    /// Where the cursor is, line and column.
    pub fn get_position(&self) -> (p: (i32, i32))
        ensures
            p == (self.model().line, self.model().col),
    {
        (self.line, self.col)
    }

    /// The pen that the cell at (`line`, `col`) was written with; the
    /// pen that sets nothing where there is no such cell.
    pub fn get_display_pen(&self, line: i32, col: i32) -> (pen: TickitPen)
        ensures
            pen@ == cell_or_blank(self.model().cells, line as int, col as int).pen,
            pen.wf(),
    {
        let c = self.get_at(line as i64, col as i64);
        TickitPen::from_attrs(c.pen)
    }

    /// The bytes shown on the line `line` in the `width` columns from
    /// `col` on.
    pub fn get_display_bytes(&self, line: usize, col: usize, width: usize) -> (bytes: Vec<u8>)
        ensures
            bytes@ == shown(self.model().cells, line as int, col as int, width as int),
    {
        let mut bytes: Vec<u8> = Vec::new();
        let mut i: usize = 0;
        proof {
            assert(shown(self.model().cells, line as int, col as int, 0) =~= Seq::<u8>::empty());
        }
        while i < width
            invariant
                i <= width,
                bytes@ == shown(self.model().cells, line as int, col as int, i as int),
            decreases width - i,
        {
            let ghost before = bytes@;
            if line < self.cells.len() {
                let n = self.cells[line].len();
                if col <= usize::MAX - i && col + i < n {
                    let c = &self.cells[line][col + i];
                    if c.text.len() > 0 {
                        bytes.extend_from_slice(c.text.as_slice());
                    } else if !c.cont {
                        bytes.push(0x20);
                    }
                    assert(bytes@ =~= before + cell_shows(self.model().cells[line as int][col + i]));
                } else {
                    assert(!in_grid(self.model().cells, line as int, col + i));
                    assert(bytes@ =~= before + Seq::<u8>::empty());
                }
            } else {
                assert(bytes@ =~= before + Seq::<u8>::empty());
            }
            i += 1;
        }
        bytes
    }

    /// The text shown on the line `line` in the `width` columns from
    /// `col` on.
    pub fn get_display_text(&self, line: usize, col: usize, width: usize) -> (text: String)
        ensures
            vstd::utf8::valid_utf8(shown(self.model().cells, line as int, col as int, width as int))
                ==> text@ == vstd::utf8::decode_utf8(
                shown(self.model().cells, line as int, col as int, width as int),
            ),
    {
        let bytes = self.get_display_bytes(line, col, width);
        string_of(bytes.as_slice())
    }

    /// Makes the pictured screen one of `lines` lines and `cols`
    /// columns that shows what it showed where the two overlap.
    pub fn resize(&mut self, lines: i32, cols: i32)
        ensures
            final(self).model() == (MockView {
                cells: old(self).model().resized(
                    if lines > 0 {
                        lines as int
                    } else {
                        0
                    },
                    if cols > 0 {
                        cols as int
                    } else {
                        0
                    },
                ),
                cols,
                ..old(self).model()
            }),
    {
        self.remake_sized(lines, cols);
        self.cols = cols;
    }
}

/// What a cell shows: its grapheme, a space if it is empty, nothing if
/// it is the right half of a wide character.
pub open spec fn cell_shows(c: CellView) -> Seq<u8> {
    if c.text.len() > 0 {
        c.text
    } else if c.cont {
        Seq::empty()
    } else {
        seq![0x20u8]
    }
}

/// What the `width` cells from (`line`, `col`) on show; a cell that is
/// not there shows nothing.
pub open spec fn shown(cells: Seq<Seq<CellView>>, line: int, col: int, width: int) -> Seq<u8>
    decreases width,
{
    if width <= 0 {
        Seq::empty()
    } else {
        shown(cells, line, col, width - 1) + (if in_grid(cells, line, col + width - 1) {
            cell_shows(cells[line][col + width - 1])
        } else {
            Seq::empty()
        })
    }
}

impl TickitTermDriverImpl for MockDriver {
    type Model = MockView;

    closed spec fn model(&self) -> MockView {
        MockView {
            cells: grid_view(self.cells@),
            cols: self.cols,
            log: log_view(self.log@),
            line: self.line,
            col: self.col,
            pen: self.pen,
        }
    }

    open spec fn emits(m: MockView, ctx: DriverCtx, op: DriverOp) -> Seq<u8> {
        Seq::empty()
    }

    open spec fn after(m: MockView, ctx: DriverCtx, op: DriverOp) -> MockView {
        mock_after(m, ctx, op)
    }

    open spec fn answers(m: MockView, ctx: DriverCtx, op: DriverOp) -> DriverAnswer {
        mock_answers(m, ctx, op)
    }

    fn start(&mut self, cdr: &mut CDriverRef) {
        assert(cdr.out@ =~= cdr.out@ + Seq::<u8>::empty());
    }

    fn stop(&mut self, cdr: &mut CDriverRef) {
        assert(cdr.out@ =~= cdr.out@ + Seq::<u8>::empty());
    }

    fn print(&mut self, cdr: &mut CDriverRef, str_: &[u8]) {
        assert(cdr.out@ =~= cdr.out@ + Seq::<u8>::empty());
        self.do_print(str_);
    }

    fn goto_abs(&mut self, cdr: &mut CDriverRef, line: i32, col: i32) -> (ok: bool) {
        assert(cdr.out@ =~= cdr.out@ + Seq::<u8>::empty());
        self.record(LogRecord::Goto { line, col });
        if line >= 0 {
            self.line = line;
        }
        if col >= 0 {
            self.col = col;
        }
        true
    }

    fn move_rel(&mut self, cdr: &mut CDriverRef, downward: i32, rightward: i32) {
        assert(cdr.out@ =~= cdr.out@ + Seq::<u8>::empty());
        let line = saturated(self.line, downward);
        let col = saturated(self.col, rightward);
        self.record(LogRecord::Goto { line, col });
        self.line = line;
        self.col = col;
    }

    fn scrollrect(&mut self, cdr: &mut CDriverRef, rect: &TickitRect, downward: i32, rightward: i32) -> (ok:
        bool) {
        assert(cdr.out@ =~= cdr.out@ + Seq::<u8>::empty());
        if downward == 0 && rightward == 0 {
            return true;
        }
        let right = rect.right();
        if (downward != 0 && !(rect.left == 0 && right == self.cols)) || (rightward != 0 && right
            != self.cols) {
            return false;
        }
        self.record(LogRecord::ScrollRect { downward, rightward, rect: *rect });
        self.remake_scrolled(*rect, downward, rightward);
        true
    }

    fn erasech(&mut self, cdr: &mut CDriverRef, count: i32, moveend: Option<bool>) {
        assert(cdr.out@ =~= cdr.out@ + Seq::<u8>::empty());
        self.record(LogRecord::EraseCh { count, moveend });
        self.erase_cells(count);
        match moveend {
            Some(true) => {
                if count > 0 {
                    self.col = saturated(self.col, count);
                }
            },
            _ => {},
        }
    }

    fn clear(&mut self, cdr: &mut CDriverRef) {
        assert(cdr.out@ =~= cdr.out@ + Seq::<u8>::empty());
        self.record(LogRecord::Clear);
        self.clear_all();
    }

    fn chpen(&mut self, cdr: &mut CDriverRef, delta: &PenAttrs, final_: &PenAttrs) {
        assert(cdr.out@ =~= cdr.out@ + Seq::<u8>::empty());
        self.record(LogRecord::SetPen { pen: *final_ });
        self.pen = *final_;
    }

    fn getctl_int(&mut self, cdr: &mut CDriverRef, ctl: TickitTermCtl) -> (v: Option<i32>) {
        assert(cdr.out@ =~= cdr.out@ + Seq::<u8>::empty());
        match ctl {
            TickitTermCtl::TICKIT_TERMCTL_COLORS => Some(256),
            _ => None,
        }
    }

    fn setctl_int(&mut self, cdr: &mut CDriverRef, ctl: TickitTermCtl, value: i32) -> (ok: bool) {
        assert(cdr.out@ =~= cdr.out@ + Seq::<u8>::empty());
        false
    }

    fn setctl_str(&mut self, cdr: &mut CDriverRef, ctl: TickitTermCtl, value: &[u8]) -> (ok: bool) {
        assert(cdr.out@ =~= cdr.out@ + Seq::<u8>::empty());
        false
    }

    fn gotkey(&mut self, cdr: &mut CDriverRef, key: &TermKeyEvent) -> (taken: bool) {
        assert(cdr.out@ =~= cdr.out@ + Seq::<u8>::empty());
        false
    }
}

/// Whether `rect` holds the cell at (`line`, `col`).
fn rect_has(rect: &TickitRect, line: usize, col: usize) -> (r: bool)
    requires
        rect.valid(),
    ensures
        r == rect.has(line as int, col as int),
        r ==> line <= crate::rect::COORD_LIMIT && col <= crate::rect::COORD_LIMIT,
{
    if line > 0x3fff_ffff || col > 0x3fff_ffff {
        return false;
    }
    let l = line as i32;
    let c = col as i32;
    rect.top <= l && l < rect.bottom() && rect.left <= c && c < rect.right()
}

/// A new mock terminal of `lines` lines and `cols` columns.
pub open spec fn mock_fresh(lines: i32, cols: i32) -> TermView<MockView> {
    TermView {
        driver: MockView {
            cells: Seq::new(
                (if lines > 0 {
                    lines as int
                } else {
                    0
                }) as nat,
                |l: int|
                    Seq::new(
                        (if cols > 0 {
                            cols as int
                        } else {
                            0
                        }) as nat,
                        |c: int| blank_cell(),
                    ),
            ),
            cols,
            log: Seq::empty(),
            line: 0,
            col: 0,
            pen: PenAttrs::unset(),
        },
        pen: PenAttrs::unset(),
        pending: Seq::empty(),
        sent: Seq::empty(),
        buffer_len: 0,
        lines,
        cols,
        started: false,
        cursor_line: None,
        cursor_col: None,
        outfd: -1i32,
        infd: -1i32,
        utf8: false,
        termtype: Seq::empty(),
        hooks: Seq::empty(),
        next_id: 0,
        calls: Seq::empty(),
        input: Seq::empty(),
        timeout_at: None,
        waittime: crate::term::DEFAULT_WAITTIME,
    }
}

/// A terminal whose driver is the mock driver.
pub struct MockTerm {
    pub tt: TickitTerm<MockDriver>,
}

impl MockTerm {
    /// A mock terminal of `lines` lines and `cols` columns: nothing
    /// shown, nothing recorded, the cursor at the top left.
    pub fn new(lines: i32, cols: i32) -> (mt: MockTerm)
        ensures
            mt.tt.wf(),
            mt.tt@ == mock_fresh(lines, cols),
    {
        let mut tt = TickitTerm::new_for_driver(MockDriver::new(lines, cols));
        proof {
            crate::term::lemma_owing_nobody(
                TermView { lines, cols, ..tt@ },
                EventView::Resize { lines: lines as int, cols: cols as int },
            );
        }
        tt.set_size(lines, cols);
        MockTerm { tt }
    }

    /// Makes the terminal and its pictured screen `newlines` lines by
    /// `newcols` columns. The handlers bound for resizing are owed the
    /// new size if it is not the old one.
    pub fn resize(&mut self, newlines: i32, newcols: i32)
        requires
            old(self).tt.wf(),
        ensures
            final(self).tt.wf(),
            final(self).tt@ == ({
                let v = TermView {
                    driver: MockView {
                        cells: old(self).tt@.driver.resized(
                            if newlines > 0 {
                                newlines as int
                            } else {
                                0
                            },
                            if newcols > 0 {
                                newcols as int
                            } else {
                                0
                            },
                        ),
                        cols: newcols,
                        ..old(self).tt@.driver
                    },
                    ..old(self).tt@
                };
                if newlines == v.lines && newcols == v.cols {
                    v
                } else {
                    (TermView { lines: newlines, cols: newcols, ..v }).owing(
                        EventView::Resize { lines: newlines as int, cols: newcols as int },
                    )
                }
            }),
    {
        let mut d = MockDriver::new(0, 0);
        self.tt.swap_driver(&mut d);
        d.resize(newlines, newcols);
        self.tt.swap_driver(&mut d);
        self.tt.set_size(newlines, newcols);
    }

    /// The text shown on the line `line` in the `width` columns from
    /// `col` on.
    pub fn get_display_text(&self, line: usize, col: usize, width: usize) -> (text: String)
        ensures
            vstd::utf8::valid_utf8(shown(self.tt@.driver.cells, line as int, col as int, width as int))
                ==> text@ == vstd::utf8::decode_utf8(
                shown(self.tt@.driver.cells, line as int, col as int, width as int),
            ),
    {
        self.tt.driver().get_display_text(line, col, width)
    }

    /// The pen that the cell at (`line`, `col`) was written with.
    pub fn get_display_pen(&self, line: i32, col: i32) -> (pen: TickitPen)
        ensures
            pen@ == cell_or_blank(self.tt@.driver.cells, line as int, col as int).pen,
    {
        self.tt.driver().get_display_pen(line, col)
    }

    /// The number of recorded requests.
    pub fn loglen(&self) -> (n: usize)
        ensures
            n == self.tt@.driver.log.len(),
    {
        self.tt.driver().loglen()
    }

    /// The recorded request at position `i`, oldest first.
    pub fn peeklog(&self, i: usize) -> (e: LogEntry)
        requires
            i < self.tt@.driver.log.len(),
        ensures
            e.tells(self.tt@.driver.log[i as int]),
    {
        self.tt.driver().peeklog(i)
    }

    /// Forgets the recorded requests.
    pub fn clearlog(&mut self)
        ensures
            final(self).tt.wf() == old(self).tt.wf(),
            final(self).tt@ == (TermView {
                driver: MockView { log: Seq::empty(), ..old(self).tt@.driver },
                ..old(self).tt@
            }),
    {
        let mut d = MockDriver::new(0, 0);
        self.tt.swap_driver(&mut d);
        d.clearlog();
        self.tt.swap_driver(&mut d);
    }

    /// Where the cursor is, line and column.
    pub fn get_position(&self) -> (p: (i32, i32))
        ensures
            p == (self.tt@.driver.line, self.tt@.driver.col),
    {
        self.tt.driver().get_position()
    }
}

} // verus!
