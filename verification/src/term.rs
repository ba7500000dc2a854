//! The terminal: what the application paints on. It keeps track of
//! the pen and the cursor that the real terminal is believed to have,
//! hands each request to its driver with no more said than needed,
//! holds the output until it is released, and turns decoded input
//! into events for the handlers bound to it.

use vstd::prelude::*;
use vstd::string::StringSliceAdditionalSpecFns;
use crate::bytes::starts_with;
use crate::c;
use crate::c::{TickitEventType, TickitTermCtl};
use crate::drv::ti::{TermCaps, TiDriver, TiView};
use crate::drv::xterm::XtermDriver;
use crate::drv::{
    CDriverRef, DriverAnswer, DriverCtx, DriverOp, KeyView, TermKeyEvent, TermKeyMouseEvent,
    TickitTermDriverImpl,
};
use crate::event::{
    ids_for, wants_unbind, without_id, Dispatch, EventView, Hook, HookList, KeyEventView,
    TickitEvent, TickitKeyEvent, TickitMouseEvent,
};
use crate::pen::{calls_of, calls_to, PenAttrs, TickitPen};
use crate::rect::TickitRect;
use crate::strpos::{width_of, StringPos, UNLIMITED};

verus! {

/// The number of lines of a terminal of which no size is known.
pub const DEFAULT_LINES: i32 = 25;

/// The number of columns of a terminal of which no size is known.
pub const DEFAULT_COLS: i32 = 80;

/// How long, in milliseconds, an unfinished key sequence is waited on
/// before it is taken as it stands.
pub const DEFAULT_WAITTIME: u32 = 50;

/// The error of a terminal type that no driver knows.
pub const ENOENT: i32 = 2;

/// The mathematical value of a terminal, over the model `M` of its
/// driver.
pub struct TermView<M> {
    pub driver: M,
    /// The pen that the real terminal is believed to have; an unset
    /// attribute is one of which nothing is known.
    pub pen: PenAttrs,
    /// Output written and held back.
    pub pending: Seq<u8>,
    /// Output released to the outside and not yet taken.
    pub sent: Seq<u8>,
    /// How much output may be held back; 0 for none.
    pub buffer_len: usize,
    pub lines: i32,
    pub cols: i32,
    pub started: bool,
    /// The line the real cursor is believed to be on, if known.
    pub cursor_line: Option<i32>,
    /// The column the real cursor is believed to be on, if known.
    pub cursor_col: Option<i32>,
    pub outfd: i32,
    pub infd: i32,
    pub utf8: bool,
    pub termtype: Seq<char>,
    pub hooks: Seq<Hook>,
    pub next_id: int,
    /// The calls owed to handlers and not yet taken.
    pub calls: Seq<(i32, EventView)>,
    /// Input bytes not yet decoded.
    pub input: Seq<u8>,
    /// When, in milliseconds, waiting on an unfinished key sequence
    /// ends, if one is waited on.
    pub timeout_at: Option<u64>,
    pub waittime: u32,
}

/// One painting request to a terminal, as a value.
pub enum TermCall {
    Print(Seq<u8>),
    Goto(i32, i32),
    Move(i32, i32),
    ScrollRect(TickitRect, i32, i32),
    /// Change the attributes that the pen sets.
    ChPen(PenAttrs),
    /// Make the pen this one, with defaults for what it leaves unset.
    SetPen(PenAttrs),
    Clear,
    EraseCh(i32, Option<bool>),
}

/// What changing one attribute takes: the value to send, if any, and
/// the value believed afterwards. `target` is what is asked for,
/// `default` what stands for an attribute that is not asked for when
/// `ignoremissing` is false. Nothing is sent for a value the terminal
/// is already believed to have.
pub open spec fn attr_change<T>(
    cur: Option<T>,
    target: Option<T>,
    default: T,
    ignoremissing: bool,
) -> (Option<T>, Option<T>) {
    let want = match target {
        Some(v) => Some(v),
        None => if ignoremissing {
            None
        } else {
            Some(default)
        },
    };
    match want {
        None => (None, cur),
        Some(v) => if cur == Some(v) {
            (None, cur)
        } else {
            (Some(v), Some(v))
        },
    }
}

/// The attributes to send to get from the pen `cur` to the pen
/// `target`.
pub open spec fn pen_delta(cur: PenAttrs, target: PenAttrs, ignoremissing: bool) -> PenAttrs {
    PenAttrs {
        fg: attr_change(cur.fg, target.fg, -1i32, ignoremissing).0,
        bg: attr_change(cur.bg, target.bg, -1i32, ignoremissing).0,
        bold: attr_change(cur.bold, target.bold, false, ignoremissing).0,
        under: attr_change(cur.under, target.under, false, ignoremissing).0,
        italic: attr_change(cur.italic, target.italic, false, ignoremissing).0,
        reverse: attr_change(cur.reverse, target.reverse, false, ignoremissing).0,
        strike: attr_change(cur.strike, target.strike, false, ignoremissing).0,
        altfont: attr_change(cur.altfont, target.altfont, -1i32, ignoremissing).0,
    }
}

/// The pen believed after getting from the pen `cur` to the pen
/// `target`.
pub open spec fn pen_after(cur: PenAttrs, target: PenAttrs, ignoremissing: bool) -> PenAttrs {
    PenAttrs {
        fg: attr_change(cur.fg, target.fg, -1i32, ignoremissing).1,
        bg: attr_change(cur.bg, target.bg, -1i32, ignoremissing).1,
        bold: attr_change(cur.bold, target.bold, false, ignoremissing).1,
        under: attr_change(cur.under, target.under, false, ignoremissing).1,
        italic: attr_change(cur.italic, target.italic, false, ignoremissing).1,
        reverse: attr_change(cur.reverse, target.reverse, false, ignoremissing).1,
        strike: attr_change(cur.strike, target.strike, false, ignoremissing).1,
        altfont: attr_change(cur.altfont, target.altfont, -1i32, ignoremissing).1,
    }
}

/// A cursor coordinate moved by `by`, unknown if it was unknown or
/// leaves the range of coordinates.
pub open spec fn moved(at: Option<i32>, by: int) -> Option<i32> {
    match at {
        Some(v) => if 0 <= v + by <= i32::MAX {
            Some((v + by) as i32)
        } else {
            None
        },
        None => None,
    }
}

impl<M> TermView<M> {
    /// What the driver may read of the terminal.
    pub open spec fn ctx(self) -> DriverCtx {
        DriverCtx { pen: self.pen, lines: self.lines as int, cols: self.cols as int }
    }

    /// The terminal with its held output released, if any is held: all
    /// of it.
    pub open spec fn flushed(self) -> TermView<M> {
        TermView { sent: self.sent + self.pending, pending: Seq::empty(), ..self }
    }

    /// The terminal after a request: output is released at once if
    /// none may be held back, or if more is held than may be.
    pub open spec fn released(self) -> TermView<M> {
        if self.buffer_len == 0 || self.pending.len() > self.buffer_len {
            self.flushed()
        } else {
            self
        }
    }

    /// The terminal with the cursor where printing text of the width
    /// `width` leaves it: further right by the width; unknown, line and
    /// column, if the width is not known or the text reaches the right
    /// edge, where terminals differ in what they do.
    pub open spec fn cursor_after_print(self, width: usize) -> TermView<M> {
        match self.cursor_col {
            Some(c) => if 0 <= c && width < i32::MAX && c + width < self.cols {
                TermView { cursor_col: Some((c + width) as i32), ..self }
            } else {
                TermView { cursor_line: None, cursor_col: None, ..self }
            },
            None => self,
        }
    }

    /// The terminal with the cursor where erasing leaves it.
    pub open spec fn cursor_after_erase(self, count: i32, moveend: Option<bool>) -> TermView<M> {
        if count < 1 {
            self
        } else {
            match moveend {
                Some(true) => TermView { cursor_col: moved(self.cursor_col, count as int), ..self },
                Some(false) => self,
                None => TermView { cursor_col: None, ..self },
            }
        }
    }
}

/// The terminal after its driver was handed the request `op`.
pub open spec fn driven<D: TickitTermDriverImpl>(v: TermView<D::Model>, op: DriverOp) -> TermView<
    D::Model,
> {
    TermView {
        driver: D::after(v.driver, v.ctx(), op),
        pending: v.pending + D::emits(v.driver, v.ctx(), op),
        ..v
    }
}

/// Whether the driver can do what `op` asks.
pub open spec fn able<D: TickitTermDriverImpl>(v: TermView<D::Model>, op: DriverOp) -> bool {
    D::answers(v.driver, v.ctx(), op) == DriverAnswer::Able(true)
}

/// The terminal after a change of pen towards `target`: the driver is
/// handed the attributes that change and the pen that results, which
/// is the pen believed from then on.
pub open spec fn pen_changed<D: TickitTermDriverImpl>(
    v: TermView<D::Model>,
    target: PenAttrs,
    ignoremissing: bool,
) -> TermView<D::Model> {
    let delta = pen_delta(v.pen, target, ignoremissing);
    let pen = pen_after(v.pen, target, ignoremissing);
    driven::<D>(TermView { pen, ..v }, DriverOp::ChPen(delta, pen))
}

/// The terminal after a painting request.
pub open spec fn term_step<D: TickitTermDriverImpl>(v: TermView<D::Model>, call: TermCall) -> TermView<
    D::Model,
> {
    match call {
        TermCall::Print(text) => driven::<D>(v, DriverOp::Print(text)).cursor_after_print(
            width_of(text),
        ).released(),
        TermCall::Goto(line, col) => {
            let op = DriverOp::GotoAbs(line as int, col as int);
            let w = driven::<D>(v, op);
            (if able::<D>(v, op) {
                TermView {
                    cursor_line: if line >= 0 {
                        Some(line)
                    } else {
                        v.cursor_line
                    },
                    cursor_col: if col >= 0 {
                        Some(col)
                    } else {
                        v.cursor_col
                    },
                    ..w
                }
            } else {
                w
            }).released()
        },
        TermCall::Move(downward, rightward) => {
            let w = driven::<D>(v, DriverOp::MoveRel(downward as int, rightward as int));
            TermView {
                cursor_line: moved(v.cursor_line, downward as int),
                cursor_col: moved(v.cursor_col, rightward as int),
                ..w
            }.released()
        },
        TermCall::ScrollRect(rect, downward, rightward) => {
            let op = DriverOp::ScrollRect(rect, downward as int, rightward as int);
            let w = driven::<D>(v, op);
            (if able::<D>(v, op) && (downward != 0 || rightward != 0) {
                TermView { cursor_line: None, cursor_col: None, ..w }
            } else {
                w
            }).released()
        },
        TermCall::ChPen(pen) => pen_changed::<D>(v, pen, true).released(),
        TermCall::SetPen(pen) => pen_changed::<D>(v, pen, false).released(),
        TermCall::Clear => driven::<D>(v, DriverOp::Clear).released(),
        TermCall::EraseCh(count, moveend) => driven::<D>(
            v,
            DriverOp::EraseCh(count as int, moveend),
        ).cursor_after_erase(count, moveend).released(),
    }
}

/// What a painting request answers: whether it could be done. Requests
/// other than moving the cursor and scrolling can always be done.
pub open spec fn term_able<D: TickitTermDriverImpl>(v: TermView<D::Model>, call: TermCall) -> bool {
    match call {
        TermCall::Goto(line, col) => able::<D>(v, DriverOp::GotoAbs(line as int, col as int)),
        TermCall::ScrollRect(rect, downward, rightward) => able::<D>(
            v,
            DriverOp::ScrollRect(rect, downward as int, rightward as int),
        ),
        _ => true,
    }
}

/// The terminal after the painting requests `calls`, first to last.
pub open spec fn term_run<D: TickitTermDriverImpl>(
    v: TermView<D::Model>,
    calls: Seq<TermCall>,
) -> TermView<D::Model>
    decreases calls.len(),
{
    if calls.len() == 0 {
        v
    } else {
        term_step::<D>(term_run::<D>(v, calls.drop_last()), calls.last())
    }
}

/// A terminal with the driver `D`.
pub struct TickitTerm<D: TickitTermDriverImpl> {
    driver: D,
    cdr: CDriverRef,
    sent: Vec<u8>,
    outbuffer_len: usize,
    started: bool,
    cursor_line: Option<i32>,
    cursor_col: Option<i32>,
    outfd: i32,
    infd: i32,
    is_utf8: bool,
    termtype: String,
    hooks: HookList,
    events: Vec<Dispatch>,
    input: Vec<u8>,
    timeout_at: Option<u64>,
    waittime: u32,
}

impl<D: TickitTermDriverImpl> View for TickitTerm<D> {
    type V = TermView<D::Model>;

    closed spec fn view(&self) -> TermView<D::Model> {
        TermView {
            driver: self.driver.model(),
            pen: self.cdr.pen,
            pending: self.cdr.out@,
            sent: self.sent@,
            buffer_len: self.outbuffer_len,
            lines: self.cdr.lines,
            cols: self.cdr.cols,
            started: self.started,
            cursor_line: self.cursor_line,
            cursor_col: self.cursor_col,
            outfd: self.outfd,
            infd: self.infd,
            utf8: self.is_utf8,
            termtype: self.termtype@,
            hooks: self.hooks@,
            next_id: self.hooks.next(),
            calls: calls_of(self.events@),
            input: self.input@,
            timeout_at: self.timeout_at,
            waittime: self.waittime,
        }
    }
}

impl<D: TickitTermDriverImpl> TickitTerm<D> {
    /// The handler list is in order.
    pub closed spec fn wf(&self) -> bool {
        self.hooks.wf()
    }

    /// The driver itself.
    pub closed spec fn driver_of(&self) -> D {
        self.driver
    }

    /// A terminal of the default size with the driver `driver_impl`,
    /// not started, with nothing known of pen and cursor.
    pub fn new_for_driver(driver_impl: D) -> (tt: TickitTerm<D>)
        ensures
            tt.wf(),
            tt.driver_of() == driver_impl,
            tt@ == (TermView {
                driver: driver_impl.model(),
                pen: PenAttrs::unset(),
                pending: Seq::empty(),
                sent: Seq::empty(),
                buffer_len: 0,
                lines: DEFAULT_LINES,
                cols: DEFAULT_COLS,
                started: false,
                cursor_line: None,
                cursor_col: None,
                outfd: -1i32,
                infd: -1i32,
                utf8: false,
                termtype: Seq::empty(),
                hooks: Seq::empty(),
                next_id: 0,
                calls: Seq::empty(),
                input: Seq::empty(),
                timeout_at: None,
                waittime: DEFAULT_WAITTIME,
            }),
    {
        let tt = TickitTerm {
            driver: driver_impl,
            cdr: CDriverRef {
                out: Vec::new(),
                pen: PenAttrs::new(),
                lines: DEFAULT_LINES,
                cols: DEFAULT_COLS,
            },
            sent: Vec::new(),
            outbuffer_len: 0,
            started: false,
            cursor_line: None,
            cursor_col: None,
            outfd: -1i32,
            infd: -1i32,
            is_utf8: false,
            termtype: String::new(),
            hooks: HookList::new(),
            events: Vec::new(),
            input: Vec::new(),
            timeout_at: None,
            waittime: DEFAULT_WAITTIME,
        };
        assert(tt@.calls =~= Seq::empty());
        tt
    }

    /// The driver.
    pub fn driver(&self) -> (d: &D)
        ensures
            *d == self.driver_of(),
            d.model() == self@.driver,
    {
        &self.driver
    }

    /// Puts the driver `d` in the place of the terminal's driver, and
    /// the terminal's driver in `d`.
    pub fn swap_driver(&mut self, d: &mut D)
        ensures
            final(self)@ == (TermView { driver: old(d).model(), ..old(self)@ }),
            final(self).driver_of() == *old(d),
            *final(d) == old(self).driver_of(),
            final(d).model() == old(self)@.driver,
            final(self).wf() == old(self).wf(),
    {
        core::mem::swap(&mut self.driver, d);
    }

    /// Releases the held output.
    fn do_flush(&mut self)
        ensures
            final(self)@ == old(self)@.flushed(),
            final(self).wf() == old(self).wf(),
            final(self).driver_of() == old(self).driver_of(),
    {
        self.sent.append(&mut self.cdr.out);
    }

    /// Releases the held output if none may be held back, or if more is
    /// held than may be.
    fn release(&mut self)
        ensures
            final(self)@ == old(self)@.released(),
            final(self).wf() == old(self).wf(),
            final(self).driver_of() == old(self).driver_of(),
    {
        if self.outbuffer_len == 0 || self.cdr.out.len() > self.outbuffer_len {
            self.do_flush();
        }
    }

    /// Releases the held output.
    pub fn flush(&mut self)
        ensures
            final(self)@ == old(self)@.flushed(),
            final(self).wf() == old(self).wf(),
    {
        self.do_flush();
    }

    /// Hands over the output released since the last call and forgets
    /// it.
    pub fn take_output(&mut self) -> (bytes: Vec<u8>)
        ensures
            bytes@ == old(self)@.sent,
            final(self)@ == (TermView { sent: Seq::empty(), ..old(self)@ }),
            final(self).wf() == old(self).wf(),
    {
        let mut bytes: Vec<u8> = Vec::new();
        core::mem::swap(&mut self.sent, &mut bytes);
        bytes
    }

    /// Sets how much output may be held back; 0 for none, which
    /// releases what is held.
    pub fn set_output_buffer(&mut self, len: usize)
        ensures
            final(self)@ == (TermView { buffer_len: len, ..old(self)@ }).released(),
            final(self).wf() == old(self).wf(),
    {
        self.outbuffer_len = len;
        self.release();
    }

    /// Starts the driver if it is not started yet.
    fn ensure_started(&mut self)
        ensures
            final(self)@ == if old(self)@.started {
                old(self)@
            } else {
                driven::<D>(TermView { started: true, ..old(self)@ }, DriverOp::Start).released()
            },
            final(self).wf() == old(self).wf(),
    {
        if !self.started {
            self.started = true;
            self.driver.start(&mut self.cdr);
            self.release();
        }
    }

    /// Makes the file descriptor `fd` the place the output is for, and
    /// starts the driver if it is not started yet.
    pub fn set_output_fd(&mut self, fd: i32)
        ensures
            final(self)@ == if old(self)@.started {
                TermView { outfd: fd, ..old(self)@ }
            } else {
                driven::<D>(
                    TermView { started: true, outfd: fd, ..old(self)@ },
                    DriverOp::Start,
                ).released()
            },
            final(self).wf() == old(self).wf(),
    {
        self.outfd = fd;
        self.ensure_started();
    }

    pub fn get_output_fd(&self) -> (fd: i32)
        ensures
            fd == self@.outfd,
    {
        self.outfd
    }

    /// Makes a function of the caller the place the output is for, in
    /// place of a file descriptor, and starts the driver if it is not
    /// started yet. The caller hands the function what `take_output`
    /// gives.
    pub fn set_output_func(&mut self)
        ensures
            final(self)@ == if old(self)@.started {
                TermView { outfd: -1i32, ..old(self)@ }
            } else {
                driven::<D>(
                    TermView { started: true, outfd: -1i32, ..old(self)@ },
                    DriverOp::Start,
                ).released()
            },
            final(self).wf() == old(self).wf(),
    {
        self.outfd = -1;
        self.ensure_started();
    }

    pub fn set_input_fd(&mut self, fd: i32)
        ensures
            final(self)@ == (TermView { infd: fd, ..old(self)@ }),
            final(self).wf() == old(self).wf(),
    {
        self.infd = fd;
    }

    pub fn get_input_fd(&self) -> (fd: i32)
        ensures
            fd == self@.infd,
    {
        self.infd
    }

    pub fn get_utf8(&self) -> (utf8: bool)
        ensures
            utf8 == self@.utf8,
    {
        self.is_utf8
    }

    pub fn set_utf8(&mut self, utf8: bool)
        ensures
            final(self)@ == (TermView { utf8, ..old(self)@ }),
            final(self).wf() == old(self).wf(),
    {
        self.is_utf8 = utf8;
    }

    pub fn get_termtype(&self) -> (name: &str)
        ensures
            name@ == self@.termtype,
    {
        self.termtype.as_str()
    }

    /// Where the real cursor is believed to be, line and column, each
    /// as far as known.
    pub fn get_cursor(&self) -> (at: (Option<i32>, Option<i32>))
        ensures
            at == (self@.cursor_line, self@.cursor_col),
    {
        (self.cursor_line, self.cursor_col)
    }

    pub fn get_size(&self) -> (size: (i32, i32))
        ensures
            size == (self@.lines, self@.cols),
    {
        (self.cdr.lines, self.cdr.cols)
    }

    /// Writes `str_` at the cursor.
    pub fn print(&mut self, str_: &str)
        ensures
            final(self)@ == term_step::<D>(old(self)@, TermCall::Print(str_.spec_bytes())),
            final(self).wf() == old(self).wf(),
    {
        self.print_bytes(str_.as_bytes());
    }

    /// Writes the text `str_` at the cursor.
    pub fn print_bytes(&mut self, str_: &[u8])
        ensures
            final(self)@ == term_step::<D>(old(self)@, TermCall::Print(str_@)),
            final(self).wf() == old(self).wf(),
    {
        self.driver.print(&mut self.cdr, str_);
        match self.cursor_col {
            Some(c) => {
                let mut pos = StringPos::zero();
                let known = StringPos::scan_on(str_, &mut pos, None);
                let width: usize = if known {
                    pos.columns
                } else {
                    UNLIMITED
                };
                if c >= 0 && width < (i32::MAX as usize) && (c as i64) + (width as i64) < (
                self.cdr.cols as i64) {
                    self.cursor_col = Some(c + (width as i32));
                } else {
                    self.cursor_line = None;
                    self.cursor_col = None;
                }
            },
            None => {},
        }
        self.release();
    }

    /// Moves the cursor to a line and a column; a negative one of the
    /// two leaves that one as it is. Returns whether the terminal can
    /// do that.
    pub fn goto(&mut self, line: i32, col: i32) -> (ok: bool)
        ensures
            final(self)@ == term_step::<D>(old(self)@, TermCall::Goto(line, col)),
            ok == term_able::<D>(old(self)@, TermCall::Goto(line, col)),
            final(self).wf() == old(self).wf(),
    {
        let ok = self.driver.goto_abs(&mut self.cdr, line, col);
        if ok {
            if line >= 0 {
                self.cursor_line = Some(line);
            }
            if col >= 0 {
                self.cursor_col = Some(col);
            }
        }
        self.release();
        ok
    }

    /// Moves the cursor by a number of lines and columns.
    pub fn move_(&mut self, downward: i32, rightward: i32)
        ensures
            final(self)@ == term_step::<D>(old(self)@, TermCall::Move(downward, rightward)),
            final(self).wf() == old(self).wf(),
    {
        self.driver.move_rel(&mut self.cdr, downward, rightward);
        self.cursor_line = shifted(self.cursor_line, downward);
        self.cursor_col = shifted(self.cursor_col, rightward);
        self.release();
    }

    /// Scrolls the cells of `rect`: its content moves up by `downward`
    /// lines and left by `rightward` columns. Returns whether the
    /// terminal can do that; if not, nothing is written.
    pub fn scrollrect(&mut self, rect: TickitRect, downward: i32, rightward: i32) -> (ok: bool)
        requires
            rect.valid(),
        ensures
            final(self)@ == term_step::<D>(
                old(self)@,
                TermCall::ScrollRect(rect, downward, rightward),
            ),
            ok == term_able::<D>(old(self)@, TermCall::ScrollRect(rect, downward, rightward)),
            final(self).wf() == old(self).wf(),
    {
        let ok = self.driver.scrollrect(&mut self.cdr, &rect, downward, rightward);
        if ok && (downward != 0 || rightward != 0) {
            self.cursor_line = None;
            self.cursor_col = None;
        }
        self.release();
        ok
    }

    /// Changes the pen towards `target`.
    fn do_pen(&mut self, target: &PenAttrs, ignoremissing: bool)
        ensures
            final(self)@ == pen_changed::<D>(old(self)@, *target, ignoremissing),
            final(self).wf() == old(self).wf(),
            final(self).driver_of().model() == D::after(
                old(self).driver_of().model(),
                (TermView { pen: pen_after(old(self)@.pen, *target, ignoremissing), ..old(self)@ }).ctx(),
                DriverOp::ChPen(
                    pen_delta(old(self)@.pen, *target, ignoremissing),
                    pen_after(old(self)@.pen, *target, ignoremissing),
                ),
            ),
    {
        let cur = self.cdr.pen;
        let (dfg, fg) = change_of(cur.fg, target.fg, -1, ignoremissing);
        let (dbg, bg) = change_of(cur.bg, target.bg, -1, ignoremissing);
        let (dbold, bold) = flag_change_of(cur.bold, target.bold, ignoremissing);
        let (dunder, under) = flag_change_of(cur.under, target.under, ignoremissing);
        let (ditalic, italic) = flag_change_of(cur.italic, target.italic, ignoremissing);
        let (dreverse, reverse) = flag_change_of(cur.reverse, target.reverse, ignoremissing);
        let (dstrike, strike) = flag_change_of(cur.strike, target.strike, ignoremissing);
        let (daltfont, altfont) = change_of(cur.altfont, target.altfont, -1, ignoremissing);
        let delta = PenAttrs {
            fg: dfg,
            bg: dbg,
            bold: dbold,
            under: dunder,
            italic: ditalic,
            reverse: dreverse,
            strike: dstrike,
            altfont: daltfont,
        };
        let pen = PenAttrs { fg, bg, bold, under, italic, reverse, strike, altfont };
        self.cdr.pen = pen;
        self.driver.chpen(&mut self.cdr, &delta, &pen);
    }

    /// Changes the attributes that `pen` sets to what it sets them to.
    /// Nothing is written for an attribute that the terminal is
    /// believed to have as asked.
    pub fn chpen(&mut self, pen: &TickitPen)
        ensures
            final(self)@ == term_step::<D>(old(self)@, TermCall::ChPen(pen@)),
            final(self).wf() == old(self).wf(),
    {
        let attrs = pen.attrs();
        self.do_pen(&attrs, true);
        self.release();
    }

    /// Makes the pen what `pen` says, with every attribute that it
    /// leaves unset at its default.
    pub fn setpen(&mut self, pen: &TickitPen)
        ensures
            final(self)@ == term_step::<D>(old(self)@, TermCall::SetPen(pen@)),
            final(self).wf() == old(self).wf(),
    {
        let attrs = pen.attrs();
        self.do_pen(&attrs, false);
        self.release();
    }

    /// As `setpen`, from plain attributes.
    pub fn setpen_attrs(&mut self, attrs: &PenAttrs)
        ensures
            final(self)@ == term_step::<D>(old(self)@, TermCall::SetPen(*attrs)),
            final(self).wf() == old(self).wf(),
    {
        self.do_pen(attrs, false);
        self.release();
    }

    /// Clears the screen.
    pub fn clear(&mut self)
        ensures
            final(self)@ == term_step::<D>(old(self)@, TermCall::Clear),
            final(self).wf() == old(self).wf(),
    {
        self.driver.clear(&mut self.cdr);
        self.release();
    }

    /// Erases `count` cells from the cursor on. `moveend` says whether
    /// the cursor must end behind them (`Some(true)`), must stay
    /// (`Some(false)`), or may do either.
    pub fn erasech(&mut self, count: i32, moveend: Option<bool>)
        ensures
            final(self)@ == term_step::<D>(old(self)@, TermCall::EraseCh(count, moveend)),
            final(self).wf() == old(self).wf(),
    {
        self.driver.erasech(&mut self.cdr, count, moveend);
        if count >= 1 {
            match moveend {
                Some(true) => {
                    self.cursor_col = shifted(self.cursor_col, count);
                },
                Some(false) => {},
                None => {
                    self.cursor_col = None;
                },
            }
        }
        self.release();
    }

    /// The value of the numeric control `ctl`, if it has one.
    pub fn getctl_int(&mut self, ctl: TickitTermCtl) -> (v: Option<i32>)
        ensures
            final(self)@ == driven::<D>(old(self)@, DriverOp::GetCtlInt(ctl)).released(),
            D::answers(old(self)@.driver, old(self)@.ctx(), DriverOp::GetCtlInt(ctl))
                == DriverAnswer::Value(
                match v {
                    Some(x) => Some(x as int),
                    None => None,
                },
            ),
            final(self).wf() == old(self).wf(),
    {
        let v = self.driver.getctl_int(&mut self.cdr, ctl);
        self.release();
        v
    }

    /// Sets the numeric control `ctl`. Returns whether the terminal has
    /// that control and takes the value.
    pub fn setctl_int(&mut self, ctl: TickitTermCtl, value: i32) -> (ok: bool)
        ensures
            final(self)@ == driven::<D>(old(self)@, DriverOp::SetCtlInt(ctl, value as int)).released(),
            ok == able::<D>(old(self)@, DriverOp::SetCtlInt(ctl, value as int)),
            final(self).wf() == old(self).wf(),
    {
        let ok = self.driver.setctl_int(&mut self.cdr, ctl, value);
        self.release();
        ok
    }

    /// Sets the text control `ctl`. Returns whether the terminal has
    /// that control.
    pub fn setctl_str(&mut self, ctl: TickitTermCtl, value: &str) -> (ok: bool)
        ensures
            final(self)@ == driven::<D>(
                old(self)@,
                DriverOp::SetCtlStr(ctl, value.spec_bytes()),
            ).released(),
            ok == able::<D>(old(self)@, DriverOp::SetCtlStr(ctl, value.spec_bytes())),
            final(self).wf() == old(self).wf(),
    {
        let ok = self.driver.setctl_str(&mut self.cdr, ctl, value.as_bytes());
        self.release();
        ok
    }
}

/// A cursor coordinate moved by `by`.
fn shifted(at: Option<i32>, by: i32) -> (r: Option<i32>)
    ensures
        r == moved(at, by as int),
{
    match at {
        Some(v) => {
            let sum = v as i64 + by as i64;
            if 0 <= sum && sum <= i32::MAX as i64 {
                Some(sum as i32)
            } else {
                None
            }
        },
        None => None,
    }
}

fn change_of(cur: Option<i32>, target: Option<i32>, default: i32, ignoremissing: bool) -> (r: (
    Option<i32>,
    Option<i32>,
))
    ensures
        r == attr_change(cur, target, default, ignoremissing),
{
    let want = match target {
        Some(v) => Some(v),
        None => if ignoremissing {
            None
        } else {
            Some(default)
        },
    };
    match want {
        None => (None, cur),
        Some(v) => {
            let same = match cur {
                Some(c) => c == v,
                None => false,
            };
            if same {
                (None, cur)
            } else {
                (Some(v), Some(v))
            }
        },
    }
}

fn flag_change_of(cur: Option<bool>, target: Option<bool>, ignoremissing: bool) -> (r: (
    Option<bool>,
    Option<bool>,
))
    ensures
        r == attr_change(cur, target, false, ignoremissing),
{
    let want = match target {
        Some(v) => Some(v),
        None => if ignoremissing {
            None
        } else {
            Some(false)
        },
    };
    match want {
        None => (None, cur),
        Some(v) => {
            let same = match cur {
                Some(c) => c == v,
                None => false,
            };
            if same {
                (None, cur)
            } else {
                (Some(v), Some(v))
            }
        },
    }
}

} // verus!

verus! {

/// What binding a handler gives back: the means to unbind it.
pub struct CancellableTermEvent {
    id: i32,
}

impl CancellableTermEvent {
    /// The id of the handler; -1 if none was bound.
    pub closed spec fn id_of(&self) -> i32 {
        self.id
    }

    pub fn id(&self) -> (id: i32)
        ensures
            id == self.id_of(),
    {
        self.id
    }
}

/// What the key decoder made of the undecoded input.
pub enum TermKeyResult {
    /// A key, decoded from the first `consumed` bytes.
    Key { consumed: usize, key: TermKeyEvent },
    /// The bytes may be the start of a key; more are needed to tell.
    Again,
    /// No bytes to decode.
    None_,
    /// The input has ended.
    Eof,
}

/// What a check of the input timeout found.
#[derive(Clone, Copy, Debug, PartialEq, Eq)]
pub enum TimeoutCheck {
    /// Nothing is waited on.
    Idle,
    /// An unfinished key sequence is waited on for this many more
    /// milliseconds.
    Wait(u64),
    /// The wait is over: the undecoded bytes are to be decoded as they
    /// stand and the result handed in.
    Expired,
}

/// A coordinate that counts from 1, counted from 0.
pub open spec fn from_one(n: i32) -> i32 {
    if n > i32::MIN {
        (n - 1) as i32
    } else {
        n
    }
}

/// The event that a decoded key stands for, if any. A mouse press of
/// the buttons 4 and 5 is the wheel, up and down. A character without
/// modifiers is text; any other key goes by its name. Lines and
/// columns of a mouse event count from 0.
pub open spec fn event_of_key(key: KeyView) -> Option<EventView> {
    match key {
        KeyView::Unicode { mods, codepoint, utf8, name } => if mods == 0 {
            Some(EventView::Key(KeyEventView::Text { text: utf8, mod_: c::X_Tickit_Mod { bits: 0 } }))
        } else {
            Some(EventView::Key(KeyEventView::Key { key: name, mod_: c::X_Tickit_Mod { bits: mods } }))
        },
        KeyView::Key { mods, name } => Some(
            EventView::Key(KeyEventView::Key { key: name, mod_: c::X_Tickit_Mod { bits: mods } }),
        ),
        KeyView::Mouse { mods, ev, button, line, col } => {
            let mod_ = c::X_Tickit_Mod { bits: mods };
            let line = from_one(line);
            let col = from_one(col);
            match ev {
                TermKeyMouseEvent::Press => if button == 4 {
                    Some(
                        EventView::Mouse(
                            TickitMouseEvent::MouseWheelEvent {
                                dir: c::X_Tickit_MouseWheel::TICKIT_MOUSEWHEEL_UP,
                                line,
                                col,
                                mod_,
                            },
                        ),
                    )
                } else if button == 5 {
                    Some(
                        EventView::Mouse(
                            TickitMouseEvent::MouseWheelEvent {
                                dir: c::X_Tickit_MouseWheel::TICKIT_MOUSEWHEEL_DOWN,
                                line,
                                col,
                                mod_,
                            },
                        ),
                    )
                } else {
                    Some(
                        EventView::Mouse(
                            TickitMouseEvent::MousePressEvent { button, line, col, mod_ },
                        ),
                    )
                },
                TermKeyMouseEvent::Drag => Some(
                    EventView::Mouse(TickitMouseEvent::MouseDragEvent { button, line, col, mod_ }),
                ),
                TermKeyMouseEvent::Release => Some(
                    EventView::Mouse(
                        TickitMouseEvent::MouseReleaseEvent { button, line, col, mod_ },
                    ),
                ),
                TermKeyMouseEvent::Unknown => None,
            }
        },
        _ => None,
    }
}

/// The class of an event.
pub open spec fn class_of(ev: EventView) -> TickitEventType {
    match ev {
        EventView::Resize { lines, cols } => TickitEventType { bits: c::TICKIT_EV_RESIZE },
        EventView::Key(k) => TickitEventType { bits: c::TICKIT_EV_KEY },
        EventView::Mouse(m) => TickitEventType { bits: c::TICKIT_EV_MOUSE },
        EventView::Change => TickitEventType { bits: c::TICKIT_EV_CHANGE },
        EventView::Unbind => TickitEventType { bits: c::TICKIT_EV_UNBIND },
        EventView::Unknown => TickitEventType { bits: 0 },
    }
}

fn less_one(n: i32) -> (r: i32)
    ensures
        r == from_one(n),
{
    if n > i32::MIN {
        n - 1
    } else {
        n
    }
}

/// Turns a decoded key into the event it stands for, if any.
pub fn key_event(key: &TermKeyEvent) -> (ev: Option<TickitEvent>)
    ensures
        match ev {
            Some(e) => event_of_key(key@) == Some(e@),
            None => event_of_key(key@) is None,
        },
{
    match key {
        TermKeyEvent::UnicodeEvent { mods, codepoint, utf8, name } => {
            if *mods == 0 {
                Some(
                    TickitEvent::KeyEvent(
                        TickitKeyEvent::KeyTextEvent {
                            text: utf8.clone(),
                            mod_: c::X_Tickit_Mod::empty(),
                        },
                    ),
                )
            } else {
                Some(
                    TickitEvent::KeyEvent(
                        TickitKeyEvent::KeyKeyEvent {
                            key: name.clone(),
                            mod_: c::X_Tickit_Mod::from_bits(*mods),
                        },
                    ),
                )
            }
        },
        TermKeyEvent::KeyEvent { mods, name } => Some(
            TickitEvent::KeyEvent(
                TickitKeyEvent::KeyKeyEvent {
                    key: name.clone(),
                    mod_: c::X_Tickit_Mod::from_bits(*mods),
                },
            ),
        ),
        TermKeyEvent::MouseEvent { mods, ev, button, line, col } => {
            let mod_ = c::X_Tickit_Mod::from_bits(*mods);
            let line = less_one(*line);
            let col = less_one(*col);
            let button = *button;
            match ev {
                TermKeyMouseEvent::Press => {
                    if button == 4 {
                        Some(
                            TickitEvent::MouseEvent(
                                TickitMouseEvent::MouseWheelEvent {
                                    dir: c::X_Tickit_MouseWheel::TICKIT_MOUSEWHEEL_UP,
                                    line,
                                    col,
                                    mod_,
                                },
                            ),
                        )
                    } else if button == 5 {
                        Some(
                            TickitEvent::MouseEvent(
                                TickitMouseEvent::MouseWheelEvent {
                                    dir: c::X_Tickit_MouseWheel::TICKIT_MOUSEWHEEL_DOWN,
                                    line,
                                    col,
                                    mod_,
                                },
                            ),
                        )
                    } else {
                        Some(
                            TickitEvent::MouseEvent(
                                TickitMouseEvent::MousePressEvent { button, line, col, mod_ },
                            ),
                        )
                    }
                },
                TermKeyMouseEvent::Drag => Some(
                    TickitEvent::MouseEvent(
                        TickitMouseEvent::MouseDragEvent { button, line, col, mod_ },
                    ),
                ),
                TermKeyMouseEvent::Release => Some(
                    TickitEvent::MouseEvent(
                        TickitMouseEvent::MouseReleaseEvent { button, line, col, mod_ },
                    ),
                ),
                TermKeyMouseEvent::Unknown => None,
            }
        },
        _ => None,
    }
}

/// A copy of an event.
pub fn copy_event(ev: &TickitEvent) -> (r: TickitEvent)
    ensures
        r@ == ev@,
{
    match ev {
        TickitEvent::ResizeEvent { lines, cols } => TickitEvent::ResizeEvent {
            lines: *lines,
            cols: *cols,
        },
        TickitEvent::KeyEvent(k) => TickitEvent::KeyEvent(
            match k {
                TickitKeyEvent::KeyKeyEvent { key, mod_ } => TickitKeyEvent::KeyKeyEvent {
                    key: key.clone(),
                    mod_: *mod_,
                },
                TickitKeyEvent::KeyTextEvent { text, mod_ } => TickitKeyEvent::KeyTextEvent {
                    text: text.clone(),
                    mod_: *mod_,
                },
            },
        ),
        TickitEvent::MouseEvent(m) => TickitEvent::MouseEvent(*m),
        TickitEvent::ChangeEvent => TickitEvent::ChangeEvent,
        TickitEvent::UnbindEvent => TickitEvent::UnbindEvent,
        TickitEvent::UnknownEvent => TickitEvent::UnknownEvent,
    }
}

/// The class of an event.
pub fn event_class(ev: &TickitEvent) -> (class: TickitEventType)
    ensures
        class == class_of(ev@),
{
    match ev {
        TickitEvent::ResizeEvent { lines, cols } => TickitEventType::from_bits(c::TICKIT_EV_RESIZE),
        TickitEvent::KeyEvent(k) => TickitEventType::from_bits(c::TICKIT_EV_KEY),
        TickitEvent::MouseEvent(m) => TickitEventType::from_bits(c::TICKIT_EV_MOUSE),
        TickitEvent::ChangeEvent => TickitEventType::from_bits(c::TICKIT_EV_CHANGE),
        TickitEvent::UnbindEvent => TickitEventType::from_bits(c::TICKIT_EV_UNBIND),
        TickitEvent::UnknownEvent => TickitEventType::from_bits(0),
    }
}

/// The calls owed for unbinding every hook of `hooks`: one to each that
/// asked to be told, oldest first.
pub open spec fn unbind_calls(hooks: Seq<Hook>) -> Seq<(i32, EventView)> {
    calls_to(ids_for(hooks, TickitEventType { bits: c::TICKIT_EV_UNBIND }), EventView::Unbind)
}

fn tail_of(v: &Vec<u8>, k: usize) -> (r: Vec<u8>)
    requires
        k <= v@.len(),
    ensures
        r@ == v@.skip(k as int),
{
    let mut r: Vec<u8> = Vec::new();
    let mut i: usize = k;
    while i < v.len()
        invariant
            k <= i <= v.len(),
            r@ == v@.subrange(k as int, i as int),
        decreases v.len() - i,
    {
        r.push(v[i]);
        i += 1;
        assert(r@ =~= v@.subrange(k as int, i as int));
    }
    assert(v@.subrange(k as int, v@.len() as int) =~= v@.skip(k as int));
    r
}

impl<M> TermView<M> {
    /// The terminal owing the event `ev` to the handlers bound for its
    /// class.
    pub open spec fn owing(self, ev: EventView) -> TermView<M> {
        TermView { calls: self.calls + calls_to(ids_for(self.hooks, class_of(ev)), ev), ..self }
    }

    /// When waiting on an unfinished key sequence that was seen at
    /// `now` ends.
    pub open spec fn deadline(self, now: u64) -> u64 {
        if now + self.waittime <= u64::MAX {
            (now + self.waittime) as u64
        } else {
            u64::MAX
        }
    }
}

/// The terminal after the key decoder's result was handed in. A key
/// takes its bytes off the input and is offered to the driver; one
/// that the driver does not take for itself becomes an event, if it
/// stands for one, owed to the handlers bound for its class. An
/// unfinished sequence starts the wait on it; anything else ends a
/// wait.
pub open spec fn input_step<D: TickitTermDriverImpl>(
    v: TermView<D::Model>,
    consumed: Option<usize>,
    key: Option<KeyView>,
    again: bool,
    now: u64,
) -> TermView<D::Model> {
    match key {
        Some(k) => {
            let used = if consumed->0 <= v.input.len() {
                consumed->0 as int
            } else {
                v.input.len() as int
            };
            let op = DriverOp::GotKey(k);
            let w = driven::<D>(
                TermView { input: v.input.skip(used), timeout_at: None, ..v },
                op,
            );
            (if able::<D>(v, op) {
                w
            } else {
                match event_of_key(k) {
                    Some(ev) => w.owing(ev),
                    None => w,
                }
            }).released()
        },
        None => if again {
            TermView { timeout_at: Some(v.deadline(now)), ..v }
        } else {
            TermView { timeout_at: None, ..v }
        },
    }
}

impl<D: TickitTermDriverImpl> TickitTerm<D> {
    /// Owes `ev` to the handlers bound for its class.
    #[verifier::rlimit(40)]
    fn notify(&mut self, ev: &TickitEvent)
        requires
            old(self).wf(),
        ensures
            final(self).wf(),
            final(self)@ == old(self)@.owing(ev@),
    {
        let ids = self.hooks.matching(event_class(ev));
        let mut i: usize = 0;
        while i < ids.len()
            invariant
                i <= ids.len(),
                self.wf(),
                self@ == (TermView {
                    calls: old(self)@.calls + calls_to(ids@.subrange(0, i as int), ev@),
                    ..old(self)@
                }),
            decreases ids.len() - i,
        {
            let ghost prev = self.events@;
            let d = Dispatch { id: ids[i], event: copy_event(ev) };
            self.events.push(d);
            i += 1;
            assert(self.events@ == prev.push(d));
            assert(calls_of(prev.push(d)) =~= calls_of(prev).push((d.id, d.event@)));
            assert(calls_to(ids@.subrange(0, i as int), ev@) =~= calls_to(
                ids@.subrange(0, i as int - 1),
                ev@,
            ).push((d.id, ev@)));
            assert(self@.calls =~= old(self)@.calls + calls_to(ids@.subrange(0, i as int), ev@));
        }
        assert(ids@.subrange(0, ids@.len() as int) =~= ids@);
    }

    /// Sets the size of the terminal. If it is not the size it had, the
    /// handlers bound for resizing are owed the new size.
    pub fn set_size(&mut self, lines: i32, cols: i32)
        requires
            old(self).wf(),
        ensures
            final(self).wf(),
            final(self)@ == if lines == old(self)@.lines && cols == old(self)@.cols {
                old(self)@
            } else {
                (TermView { lines, cols, ..old(self)@ }).owing(
                    EventView::Resize { lines: lines as int, cols: cols as int },
                )
            },
    {
        if self.cdr.lines != lines || self.cdr.cols != cols {
            self.cdr.lines = lines;
            self.cdr.cols = cols;
            self.notify(&TickitEvent::ResizeEvent { lines, cols });
        }
    }

    /// Binds a handler for the classes of `ev`. The handler has the id
    /// of what is returned; the id is -1, and nothing is bound, when
    /// all ids have been given out.
    pub fn bind_event(&mut self, ev: TickitEventType) -> (can: CancellableTermEvent)
        requires
            old(self).wf(),
        ensures
            final(self).wf(),
            old(self)@.next_id < i32::MAX ==> can.id_of() == old(self)@.next_id && final(self)@ == (
            TermView {
                hooks: old(self)@.hooks.push(Hook { id: can.id_of(), ev }),
                next_id: old(self)@.next_id + 1,
                ..old(self)@
            }),
            old(self)@.next_id == i32::MAX ==> can.id_of() == -1 && final(self)@ == old(self)@,
    {
        let id = self.hooks.bind(ev);
        CancellableTermEvent { id }
    }

    /// Unbinds the handler that `can` stands for. If it had asked to be
    /// told of its unbinding it is owed one last call, with the unbind
    /// event.
    pub fn unbind_event_id(&mut self, can: CancellableTermEvent)
        requires
            old(self).wf(),
        ensures
            final(self).wf(),
            final(self)@ == (TermView {
                hooks: without_id(old(self)@.hooks, can.id_of()),
                calls: if wants_unbind(old(self)@.hooks, can.id_of()) {
                    old(self)@.calls.push((can.id_of(), EventView::Unbind))
                } else {
                    old(self)@.calls
                },
                ..old(self)@
            }),
    {
        let notify = self.hooks.unbind(can.id);
        if notify {
            self.events.push(Dispatch { id: can.id, event: TickitEvent::UnbindEvent });
            assert(calls_of(self.events@) =~= calls_of(old(self).events@).push(
                (can.id, EventView::Unbind),
            ));
        }
    }

    /// Whether a handler with the id `id` is bound.
    pub fn is_bound(&self, id: i32) -> (r: bool)
        ensures
            r == crate::event::has_id(self@.hooks, id),
    {
        self.hooks.is_bound(id)
    }

    /// Hands over the calls owed to handlers, oldest first, and forgets
    /// them.
    pub fn take_events(&mut self) -> (calls: Vec<Dispatch>)
        ensures
            final(self).wf() == old(self).wf(),
            calls_of(calls@) == old(self)@.calls,
            final(self)@ == (TermView { calls: Seq::empty(), ..old(self)@ }),
    {
        let mut calls: Vec<Dispatch> = Vec::new();
        core::mem::swap(&mut self.events, &mut calls);
        assert(calls_of(self.events@) =~= Seq::empty());
        calls
    }

    /// Gives the terminal up: the driver undoes what has to be undone,
    /// the held output is released, and every handler is unbound, those
    /// that asked to be told of it being owed the unbind event.
    #[verifier::rlimit(40)]
    pub fn stop(&mut self)
        requires
            old(self).wf(),
        ensures
            final(self).wf(),
            final(self)@ == (TermView {
                hooks: Seq::empty(),
                calls: old(self)@.calls + unbind_calls(old(self)@.hooks),
                ..driven::<D>(old(self)@, DriverOp::Stop).flushed()
            }),
    {
        self.driver.stop(&mut self.cdr);
        self.do_flush();
        let ids = self.hooks.matching(TickitEventType::from_bits(c::TICKIT_EV_UNBIND));
        let ghost mid = self@;
        let mut i: usize = 0;
        while i < ids.len()
            invariant
                i <= ids.len(),
                self.wf(),
                self@ == (TermView {
                    calls: mid.calls + calls_to(ids@.subrange(0, i as int), EventView::Unbind),
                    ..mid
                }),
            decreases ids.len() - i,
        {
            let ghost prev = self.events@;
            let d = Dispatch { id: ids[i], event: TickitEvent::UnbindEvent };
            self.events.push(d);
            i += 1;
            assert(self.events@ == prev.push(d));
            assert(calls_of(prev.push(d)) =~= calls_of(prev).push((d.id, d.event@)));
            assert(calls_to(ids@.subrange(0, i as int), EventView::Unbind) =~= calls_to(
                ids@.subrange(0, i as int - 1),
                EventView::Unbind,
            ).push((d.id, EventView::Unbind)));
            assert(self@.calls =~= mid.calls + calls_to(
                ids@.subrange(0, i as int),
                EventView::Unbind,
            ));
        }
        assert(ids@.subrange(0, ids@.len() as int) =~= ids@);
        self.hooks.clear();
    }

    /// Sets how long, in milliseconds, an unfinished key sequence is
    /// waited on.
    pub fn set_waittime(&mut self, msec: u32)
        ensures
            final(self).wf() == old(self).wf(),
            final(self)@ == (TermView { waittime: msec, ..old(self)@ }),
    {
        self.waittime = msec;
    }

    /// Takes in bytes of input, to be decoded.
    pub fn input_push_bytes(&mut self, bytes: &[u8])
        ensures
            final(self).wf() == old(self).wf(),
            final(self)@ == (TermView { input: old(self)@.input + bytes@, ..old(self)@ }),
    {
        crate::bytes::push_bytes(&mut self.input, bytes);
    }

    /// The input not yet decoded.
    pub fn input_bytes(&self) -> (bytes: &[u8])
        ensures
            bytes@ == self@.input,
    {
        self.input.as_slice()
    }

    /// Takes in what the key decoder made of the undecoded input, at
    /// the time `now` in milliseconds.
    #[verifier::rlimit(40)]
    pub fn input_decoded(&mut self, res: &TermKeyResult, now: u64)
        requires
            old(self).wf(),
        ensures
            final(self).wf(),
            final(self)@ == match *res {
                TermKeyResult::Key { consumed, key } => input_step::<D>(
                    old(self)@,
                    Some(consumed),
                    Some(key@),
                    false,
                    now,
                ),
                TermKeyResult::Again => input_step::<D>(old(self)@, None, None, true, now),
                _ => input_step::<D>(old(self)@, None, None, false, now),
            },
    {
        match res {
            TermKeyResult::Key { consumed, key } => {
                let used = if *consumed <= self.input.len() {
                    *consumed
                } else {
                    self.input.len()
                };
                self.input = tail_of(&self.input, used);
                self.timeout_at = None;
                let taken = self.driver.gotkey(&mut self.cdr, key);
                if !taken {
                    match key_event(key) {
                        Some(ev) => {
                            self.notify(&ev);
                        },
                        None => {},
                    }
                }
                self.release();
            },
            TermKeyResult::Again => {
                let wait = self.waittime as u64;
                self.timeout_at = Some(
                    if now <= u64::MAX - wait {
                        now + wait
                    } else {
                        u64::MAX
                    },
                );
            },
            _ => {
                self.timeout_at = None;
            },
        }
    }

    /// Checks, at the time `now` in milliseconds, the wait on an
    /// unfinished key sequence. A wait that is over is forgotten.
    pub fn input_check_timeout(&mut self, now: u64) -> (r: TimeoutCheck)
        ensures
            final(self).wf() == old(self).wf(),
            r == match old(self)@.timeout_at {
                None => TimeoutCheck::Idle,
                Some(t) => if now < t {
                    TimeoutCheck::Wait((t - now) as u64)
                } else {
                    TimeoutCheck::Expired
                },
            },
            final(self)@ == if r == TimeoutCheck::Expired {
                TermView { timeout_at: None, ..old(self)@ }
            } else {
                old(self)@
            },
    {
        match self.timeout_at {
            None => TimeoutCheck::Idle,
            Some(t) => {
                if now < t {
                    TimeoutCheck::Wait(t - now)
                } else {
                    self.timeout_at = None;
                    TimeoutCheck::Expired
                }
            },
        }
    }
}

impl TickitTerm<XtermDriver> {
    /// A terminal of the type `name`, if a driver knows the type: the
    /// types whose names begin with `xterm`. Any other type is the
    /// error `ENOENT`.
    pub fn new_for_termtype(name: &str) -> (r: Result<TickitTerm<XtermDriver>, i32>)
        ensures
            match r {
                Ok(tt) => crate::bytes::has_prefix(name.spec_bytes(), "xterm".spec_bytes())
                    && tt.wf() && tt@ == (TermView { termtype: name@, ..initial_view() }),
                Err(e) => !crate::bytes::has_prefix(name.spec_bytes(), "xterm".spec_bytes()) && e
                    == ENOENT,
            },
    {
        if !starts_with(name.as_bytes(), "xterm".as_bytes()) {
            return Err(ENOENT);
        }
        let mut tt = TickitTerm::new_for_driver(XtermDriver::new());
        tt.termtype = name.to_owned();
        Ok(tt)
    }
}

impl TickitTerm<TiDriver> {
    /// A terminal of the type `name` that is driven by the capability
    /// strings `caps`, which were looked up for that type. Where the
    /// lookup found none, the error is `ENOENT`.
    pub fn new_for_terminfo(name: &str, caps: Option<TermCaps>) -> (r: Result<
        TickitTerm<TiDriver>,
        i32,
    >)
        ensures
            match r {
                Ok(tt) => caps is Some && tt.wf() && tt@.termtype == name@ && tt@.driver == (TiView {
                    caps: caps->0.strings(),
                    bce: caps->0.erases_with_bg(),
                    colours: caps->0.colour_count(),
                    altscreen: false,
                    cursorvis: true,
                }) && !tt@.started && tt@.pen == PenAttrs::unset() && tt@.lines == DEFAULT_LINES
                    && tt@.cols == DEFAULT_COLS && tt@.pending == Seq::<u8>::empty() && tt@.sent
                    == Seq::<u8>::empty() && tt@.buffer_len == 0 && tt@.hooks == Seq::<Hook>::empty()
                    && tt@.calls == Seq::<(i32, EventView)>::empty(),
                Err(e) => caps is None && e == ENOENT,
            },
    {
        match caps {
            Some(c) => {
                let mut tt = TickitTerm::new_for_driver(TiDriver::new(c));
                tt.termtype = name.to_owned();
                Ok(tt)
            },
            None => Err(ENOENT),
        }
    }
}

/// A new xterm terminal: of the default size, not started, with
/// nothing known of pen and cursor.
pub open spec fn initial_view() -> TermView<XtermDriver> {
    TermView {
        driver: XtermDriver::initial(),
        pen: PenAttrs::unset(),
        pending: Seq::empty(),
        sent: Seq::empty(),
        buffer_len: 0,
        lines: DEFAULT_LINES,
        cols: DEFAULT_COLS,
        started: false,
        cursor_line: None,
        cursor_col: None,
        outfd: -1i32,
        infd: -1i32,
        utf8: false,
        termtype: Seq::empty(),
        hooks: Seq::empty(),
        next_id: 0,
        calls: Seq::empty(),
        input: Seq::empty(),
        timeout_at: None,
        waittime: DEFAULT_WAITTIME,
    }
}

} // verus!

verus! {

/// With no handler bound, an event is owed to nobody.
pub proof fn lemma_owing_nobody<M>(v: TermView<M>, ev: EventView)
    requires
        v.hooks.len() == 0,
    ensures
        v.owing(ev) == v,
{
    assert(ids_for(v.hooks, class_of(ev)) =~= Seq::<i32>::empty());
    assert(v.calls + calls_to(Seq::<i32>::empty(), ev) =~= v.calls);
}

} // verus!

verus! {

/// Whether the pen `cur` has every attribute that `target` sets as
/// `target` sets it.
pub open spec fn pen_has_all(cur: PenAttrs, target: PenAttrs) -> bool {
    &&& target.fg is Some ==> cur.fg == target.fg
    &&& target.bg is Some ==> cur.bg == target.bg
    &&& target.bold is Some ==> cur.bold == target.bold
    &&& target.under is Some ==> cur.under == target.under
    &&& target.italic is Some ==> cur.italic == target.italic
    &&& target.reverse is Some ==> cur.reverse == target.reverse
    &&& target.strike is Some ==> cur.strike == target.strike
    &&& target.altfont is Some ==> cur.altfont == target.altfont
}

/// Changing the pen to what it is believed to be already changes no
/// attribute, and afterwards it is what was asked for: changing it
/// again as asked changes no attribute.
pub proof fn lemma_pen_change_settles(cur: PenAttrs, target: PenAttrs, ignoremissing: bool)
    ensures
        pen_has_all(cur, target) ==> pen_delta(cur, target, true) == PenAttrs::unset() && pen_after(
            cur,
            target,
            true,
        ) == cur,
        pen_delta(pen_after(cur, target, ignoremissing), target, ignoremissing) == PenAttrs::unset(),
        pen_after(pen_after(cur, target, ignoremissing), target, ignoremissing) == pen_after(
            cur,
            target,
            ignoremissing,
        ),
        pen_has_all(pen_after(cur, target, ignoremissing), target),
{
}

} // verus!
