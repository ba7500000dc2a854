//! The driver for xterm and the terminals that speak like it.

use vstd::prelude::*;
use vstd::string::StringSliceAdditionalSpecFns;
use crate::bytes::decimal;
use crate::c::TickitTermCtl;
use crate::drv::{
    CDriverRef, DriverAnswer, DriverCtx, DriverOp, KeyView, TermKeyEvent, TickitTermDriverImpl,
};
use crate::pen::PenAttrs;
use crate::rect::TickitRect;

verus! {

/// What is known of something a terminal may or may not be able to do,
/// where only the terminal's answer to a query tells.
#[derive(Clone, Copy, Debug, PartialEq, Eq)]
pub enum Capability {
    /// Not asked yet.
    Unknown,
    /// Asked, no answer yet.
    Probing,
    /// The terminal has answered.
    Confirmed(bool),
}

/// The state of an xterm driver: what it knows of the terminal and the
/// modes it has set.
#[derive(Clone, Copy, Debug, PartialEq, Eq)]
pub struct XtermDriver {
    /// Whether the terminal can set left and right margins.
    pub slrm: Capability,
    pub altscreen: bool,
    pub cursorvis: bool,
    /// The mouse mode as its control value, 0 for off.
    pub mouse: i32,
    pub keypad: bool,
    /// The cursor blink that was asked for, if any was.
    pub cursorblink_forced: Option<bool>,
    /// The cursor blink that the terminal reported at the start, if it
    /// did.
    pub cursorblink_initial: Option<bool>,
    /// The cursor shape that was asked for, if any was.
    pub cursorshape: Option<i32>,
}

/// `n` in decimal, 0 for a negative `n`.
pub open spec fn num(n: int) -> Seq<u8> {
    if n < 0 {
        decimal(0)
    } else {
        decimal(n as nat)
    }
}

/// The control sequence with one number: `ESC [`, the number, and the
/// closing bytes.
pub open spec fn csi1(n: int, fin: Seq<u8>) -> Seq<u8> {
    "\x1b[".spec_bytes() + num(n) + fin
}

/// The control sequence with two numbers.
pub open spec fn csi2(a: int, b: int, fin: Seq<u8>) -> Seq<u8> {
    "\x1b[".spec_bytes() + num(a) + ";".spec_bytes() + num(b) + fin
}

/// The control sequence that repeats something `n` times: without a
/// number for once, with the number for more, nothing for less.
pub open spec fn csi_times(n: int, fin: Seq<u8>) -> Seq<u8> {
    if n > 1 {
        csi1(n, fin)
    } else if n == 1 {
        "\x1b[".spec_bytes() + fin
    } else {
        Seq::empty()
    }
}

/// What moves the cursor to a line and a column, of which a negative
/// one stays as it is.
pub open spec fn goto_seq(line: int, col: int) -> Seq<u8> {
    if line >= 0 && col > 0 {
        csi2(line + 1, col + 1, "H".spec_bytes())
    } else if line >= 0 && col == 0 {
        csi1(line + 1, "H".spec_bytes())
    } else if line >= 0 {
        csi1(line + 1, "d".spec_bytes())
    } else if col > 0 {
        csi1(col + 1, "G".spec_bytes())
    } else if col == 0 {
        "\x1b[G".spec_bytes()
    } else {
        Seq::empty()
    }
}

/// What moves the cursor by a number of lines and columns.
pub open spec fn move_seq(downward: int, rightward: int) -> Seq<u8> {
    (if downward > 0 {
        csi_times(downward, "B".spec_bytes())
    } else {
        csi_times(-downward, "A".spec_bytes())
    }) + (if rightward > 0 {
        csi_times(rightward, "C".spec_bytes())
    } else {
        csi_times(-rightward, "D".spec_bytes())
    })
}

/// What deletes (`rightward` above 0) or inserts cells at the cursor.
pub open spec fn shift_cells_seq(rightward: int) -> Seq<u8> {
    if rightward > 0 {
        csi_times(rightward, "P".spec_bytes())
    } else {
        csi_times(-rightward, "@".spec_bytes())
    }
}

/// What deletes (`downward` above 0) or inserts lines at the cursor.
pub open spec fn shift_lines_seq(downward: int) -> Seq<u8> {
    if downward > 0 {
        csi_times(downward, "M".spec_bytes())
    } else {
        csi_times(-downward, "L".spec_bytes())
    }
}

/// What deletes (`rightward` above 0) or inserts columns at the cursor.
pub open spec fn shift_columns_seq(rightward: int) -> Seq<u8> {
    if rightward > 0 {
        csi_times(rightward, "'~".spec_bytes())
    } else {
        csi_times(-rightward, "'}".spec_bytes())
    }
}

/// What shifts the cells of `count` lines from `line` down, each from
/// the column `left` on.
pub open spec fn shift_rows_seq(line: int, count: int, left: int, rightward: int) -> Seq<u8>
    decreases count,
{
    if count <= 0 {
        Seq::empty()
    } else {
        goto_seq(line, left) + shift_cells_seq(rightward) + shift_rows_seq(
            line + 1,
            count - 1,
            left,
            rightward,
        )
    }
}

/// Whether the margins have to be set to scroll `rect`: it does not
/// span the whole width.
pub open spec fn needs_margins(rect: TickitRect, cols: int) -> bool {
    rect.left > 0 || rect.right_edge() < cols
}

/// Whether `rect` can be scrolled by shifting cells line by line: the
/// scroll is sideways only, and the rectangle reaches the right edge
/// or is one line with the right margin set.
pub open spec fn scrolls_by_cells(slrm: bool, rect: TickitRect, cols: int, downward: int) -> bool {
    downward == 0 && ((slrm && rect.lines == 1) || rect.right_edge() == cols)
}

/// Whether `rect` can be scrolled inside margins: left and right
/// margins can be set, or the rectangle spans the whole width and
/// scrolls up or down only.
pub open spec fn scrolls_in_margins(slrm: bool, rect: TickitRect, cols: int, rightward: int) -> bool {
    slrm || (rect.left == 0 && rect.cols == cols && rightward == 0)
}

/// `s` if `cond` holds, else nothing.
pub open spec fn only_if(cond: bool, s: Seq<u8>) -> Seq<u8> {
    if cond {
        s
    } else {
        Seq::empty()
    }
}

/// What scrolls `rect` sideways by shifting the cells of each of its
/// lines: the right margin is set if the rectangle ends before the
/// right edge, and reset afterwards.
pub open spec fn scroll_cells_seq(rect: TickitRect, cols: int, rightward: int) -> Seq<u8> {
    only_if(
        rect.right_edge() < cols,
        "\x1b[;".spec_bytes() + num(rect.right_edge()) + "s".spec_bytes(),
    ) + shift_rows_seq(rect.top as int, rect.lines as int, rect.left as int, rightward) + only_if(
        rect.right_edge() < cols,
        "\x1b[s".spec_bytes(),
    )
}

/// What scrolls `rect` inside margins: the margins are set, top and
/// bottom always, left and right if the rectangle does not span the
/// whole width; lines and columns are shifted at the rectangle's top
/// left cell; and the margins are reset.
pub open spec fn scroll_margins_seq(
    rect: TickitRect,
    cols: int,
    downward: int,
    rightward: int,
) -> Seq<u8> {
    csi2(rect.top + 1, rect.bottom_edge(), "r".spec_bytes()) + only_if(
        needs_margins(rect, cols),
        csi2(rect.left + 1, rect.right_edge(), "s".spec_bytes()),
    ) + goto_seq(rect.top as int, rect.left as int) + shift_lines_seq(downward)
        + shift_columns_seq(rightward) + "\x1b[r".spec_bytes() + only_if(
        needs_margins(rect, cols),
        "\x1b[s".spec_bytes(),
    )
}

/// What scrolls the cells of `rect`.
pub open spec fn scroll_seq(
    slrm: bool,
    rect: TickitRect,
    cols: int,
    downward: int,
    rightward: int,
) -> Seq<u8> {
    if downward == 0 && rightward == 0 {
        Seq::empty()
    } else if scrolls_by_cells(slrm, rect, cols, downward) {
        scroll_cells_seq(rect, cols, rightward)
    } else if scrolls_in_margins(slrm, rect, cols, rightward) {
        scroll_margins_seq(rect, cols, downward, rightward)
    } else {
        Seq::empty()
    }
}

/// Whether the cells of `rect` can be scrolled at all.
pub open spec fn can_scroll(
    slrm: bool,
    rect: TickitRect,
    cols: int,
    downward: int,
    rightward: int,
) -> bool {
    (downward == 0 && rightward == 0) || scrolls_by_cells(slrm, rect, cols, downward)
        || scrolls_in_margins(slrm, rect, cols, rightward)
}

/// What erases `count` cells. With the pen in reverse video the cells
/// are written over with spaces, else they are erased in place.
pub open spec fn erase_seq(reverse: bool, count: int, moveend: Option<bool>) -> Seq<u8> {
    if count < 1 {
        Seq::empty()
    } else if !reverse {
        csi_times(count, "X".spec_bytes()) + (if moveend == Some(true) {
            move_seq(0, count)
        } else {
            Seq::empty()
        })
    } else {
        Seq::new(count as nat, |i: int| 0x20u8) + (if moveend == Some(false) {
            move_seq(0, -count)
        } else {
            Seq::empty()
        })
    }
}

/// The numbers that select a colour: `base` is 30 for the foreground
/// and 40 for the background.
pub open spec fn colour_params(base: i32, val: i32) -> Seq<i32> {
    if val < 0 {
        seq![(base + 9) as i32]
    } else if val < 8 {
        seq![(base + val) as i32]
    } else if val < 16 {
        seq![(base + 60 + val - 8) as i32]
    } else {
        seq![(base + 8) as i32, 5i32, val]
    }
}

/// The number that switches a truth-valued attribute on or off.
pub open spec fn flag_param(on: i32, off: i32, val: bool) -> Seq<i32> {
    if val {
        seq![on]
    } else {
        seq![off]
    }
}

/// The numbers of the rendition sequence that makes the changes of
/// `delta`, attribute by attribute in their fixed order.
pub open spec fn sgr_params(delta: PenAttrs) -> Seq<i32> {
    (match delta.fg {
        Some(v) => colour_params(30, v),
        None => Seq::empty(),
    }) + (match delta.bg {
        Some(v) => colour_params(40, v),
        None => Seq::empty(),
    }) + (match delta.bold {
        Some(v) => flag_param(1, 22, v),
        None => Seq::empty(),
    }) + (match delta.under {
        Some(v) => flag_param(4, 24, v),
        None => Seq::empty(),
    }) + (match delta.italic {
        Some(v) => flag_param(3, 23, v),
        None => Seq::empty(),
    }) + (match delta.reverse {
        Some(v) => flag_param(7, 27, v),
        None => Seq::empty(),
    }) + (match delta.strike {
        Some(v) => flag_param(9, 29, v),
        None => Seq::empty(),
    }) + (match delta.altfont {
        Some(v) => if v < 0 || v >= 10 {
            seq![10i32]
        } else {
            seq![(10 + v) as i32]
        },
        None => Seq::empty(),
    })
}

/// The numbers of `params` in decimal with `;` between them.
pub open spec fn joined(params: Seq<i32>) -> Seq<u8>
    decreases params.len(),
{
    if params.len() == 0 {
        Seq::empty()
    } else if params.len() == 1 {
        num(params[0] as int)
    } else {
        joined(params.drop_last()) + ";".spec_bytes() + num(params.last() as int)
    }
}

/// What changes the pen by `delta` to `final_`: nothing if nothing
/// changes, the plain reset if the pen ends with every attribute at its
/// default, else one rendition sequence with all the changes.
pub open spec fn chpen_seq(delta: PenAttrs, final_: PenAttrs) -> Seq<u8> {
    if sgr_params(delta).len() == 0 {
        Seq::empty()
    } else if !final_.any_nondefault() {
        "\x1b[m".spec_bytes()
    } else {
        "\x1b[".spec_bytes() + joined(sgr_params(delta)) + "m".spec_bytes()
    }
}

/// Whether a reported mode state says that the mode is set.
pub open spec fn mode_is_set(value: int) -> bool {
    value == 1 || value == 3
}

impl XtermDriver {
    /// The driver of a terminal of which nothing is known yet, with
    /// every mode at the terminal's default.
    pub open spec fn initial() -> XtermDriver {
        XtermDriver {
            slrm: Capability::Unknown,
            altscreen: false,
            cursorvis: true,
            mouse: 0,
            keypad: false,
            cursorblink_forced: None,
            cursorblink_initial: None,
            cursorshape: None,
        }
    }

    /// Whether left and right margins are known to be available.
    pub open spec fn has_slrm(self) -> bool {
        self.slrm == Capability::Confirmed(true)
    }

    /// Whether the cursor blinks, as far as known: as asked for, else
    /// as the terminal reported, else yes.
    pub open spec fn blinks(self) -> bool {
        match self.cursorblink_forced {
            Some(v) => v,
            None => match self.cursorblink_initial {
                Some(v) => v,
                None => true,
            },
        }
    }

    /// The cursor blink to go back to when the terminal is given up.
    pub open spec fn blink_default(self) -> bool {
        match self.cursorblink_initial {
            Some(v) => v,
            None => true,
        }
    }

    /// What undoes the modes that were set away from their defaults:
    /// mouse reporting off, cursor visible, alternate screen off,
    /// keypad back to numbers, cursor blink as it was, in this order.
    pub open spec fn stop_seq(self) -> Seq<u8> {
        only_if(self.mouse != 0, "\x1b[?1002l\x1b[?1006l".spec_bytes()) + only_if(
            !self.cursorvis,
            "\x1b[?25h".spec_bytes(),
        ) + only_if(self.altscreen, "\x1b[?1049l".spec_bytes()) + only_if(
            self.keypad,
            "\x1b>".spec_bytes(),
        ) + only_if(
            self.cursorblink_forced is Some && self.cursorblink_forced != Some(self.blink_default()),
            if self.blink_default() {
                "\x1b[?12h".spec_bytes()
            } else {
                "\x1b[?12l".spec_bytes()
            },
        )
    }

    /// The driver after its modes were undone.
    pub open spec fn stopped(self) -> XtermDriver {
        XtermDriver {
            altscreen: false,
            cursorvis: true,
            mouse: 0,
            keypad: false,
            cursorblink_forced: None,
            ..self
        }
    }

    /// What sets a numeric control, and the driver after it. A control
    /// that already has the value takes nothing.
    pub open spec fn setctl_seq(self, ctl: TickitTermCtl, value: int) -> Seq<u8> {
        match ctl {
            TickitTermCtl::TICKIT_TERMCTL_ALTSCREEN => if self.altscreen == (value != 0) {
                Seq::empty()
            } else if value != 0 {
                "\x1b[?1049h".spec_bytes()
            } else {
                "\x1b[?1049l".spec_bytes()
            },
            TickitTermCtl::TICKIT_TERMCTL_CURSORVIS => if self.cursorvis == (value != 0) {
                Seq::empty()
            } else if value != 0 {
                "\x1b[?25h".spec_bytes()
            } else {
                "\x1b[?25l".spec_bytes()
            },
            TickitTermCtl::TICKIT_TERMCTL_CURSORBLINK => if self.cursorblink_forced == Some(
                value != 0,
            ) {
                Seq::empty()
            } else if value != 0 {
                "\x1b[?12h".spec_bytes()
            } else {
                "\x1b[?12l".spec_bytes()
            },
            TickitTermCtl::TICKIT_TERMCTL_MOUSE => if self.mouse == value || !(0 <= value <= 3) {
                Seq::empty()
            } else if value == 0 {
                "\x1b[?1002l\x1b[?1006l".spec_bytes()
            } else if value == 1 {
                "\x1b[?1000h\x1b[?1006h".spec_bytes()
            } else if value == 2 {
                "\x1b[?1002h\x1b[?1006h".spec_bytes()
            } else {
                "\x1b[?1003h\x1b[?1006h".spec_bytes()
            },
            TickitTermCtl::TICKIT_TERMCTL_CURSORSHAPE => if self.cursorshape == Some(value as i32)
                || !(1 <= value <= 3) {
                Seq::empty()
            } else {
                csi1(value * 2 - (if self.blinks() {
                    1int
                } else {
                    0int
                }), " q".spec_bytes())
            },
            TickitTermCtl::TICKIT_TERMCTL_KEYPAD_APP => if self.keypad == (value != 0) {
                Seq::empty()
            } else if value != 0 {
                "\x1b=".spec_bytes()
            } else {
                "\x1b>".spec_bytes()
            },
            _ => Seq::empty(),
        }
    }

    /// Whether a numeric control can be set to `value`.
    pub open spec fn setctl_able(ctl: TickitTermCtl, value: int) -> bool {
        match ctl {
            TickitTermCtl::TICKIT_TERMCTL_ALTSCREEN => true,
            TickitTermCtl::TICKIT_TERMCTL_CURSORVIS => true,
            TickitTermCtl::TICKIT_TERMCTL_CURSORBLINK => true,
            TickitTermCtl::TICKIT_TERMCTL_MOUSE => 0 <= value <= 3,
            TickitTermCtl::TICKIT_TERMCTL_CURSORSHAPE => 1 <= value <= 3,
            TickitTermCtl::TICKIT_TERMCTL_KEYPAD_APP => true,
            _ => false,
        }
    }

    /// The driver after a numeric control was set.
    pub open spec fn with_ctl(self, ctl: TickitTermCtl, value: int) -> XtermDriver {
        if !Self::setctl_able(ctl, value) {
            self
        } else {
            match ctl {
                TickitTermCtl::TICKIT_TERMCTL_ALTSCREEN => XtermDriver {
                    altscreen: value != 0,
                    ..self
                },
                TickitTermCtl::TICKIT_TERMCTL_CURSORVIS => XtermDriver {
                    cursorvis: value != 0,
                    ..self
                },
                TickitTermCtl::TICKIT_TERMCTL_CURSORBLINK => XtermDriver {
                    cursorblink_forced: Some(value != 0),
                    ..self
                },
                TickitTermCtl::TICKIT_TERMCTL_MOUSE => XtermDriver { mouse: value as i32, ..self },
                TickitTermCtl::TICKIT_TERMCTL_CURSORSHAPE => XtermDriver {
                    cursorshape: Some(value as i32),
                    ..self
                },
                TickitTermCtl::TICKIT_TERMCTL_KEYPAD_APP => XtermDriver {
                    keypad: value != 0,
                    ..self
                },
                _ => self,
            }
        }
    }

    /// The value of a numeric control, if it has one.
    pub open spec fn ctl_value(self, ctl: TickitTermCtl) -> Option<int> {
        match ctl {
            TickitTermCtl::TICKIT_TERMCTL_ALTSCREEN => Some(crate::pen::bool_number(self.altscreen)),
            TickitTermCtl::TICKIT_TERMCTL_CURSORVIS => Some(crate::pen::bool_number(self.cursorvis)),
            TickitTermCtl::TICKIT_TERMCTL_CURSORBLINK => Some(
                crate::pen::bool_number(self.blinks()),
            ),
            TickitTermCtl::TICKIT_TERMCTL_MOUSE => Some(self.mouse as int),
            TickitTermCtl::TICKIT_TERMCTL_CURSORSHAPE => match self.cursorshape {
                Some(v) => Some(v as int),
                None => None,
            },
            TickitTermCtl::TICKIT_TERMCTL_KEYPAD_APP => Some(crate::pen::bool_number(self.keypad)),
            TickitTermCtl::TICKIT_TERMCTL_COLORS => Some(256),
            _ => None,
        }
    }

    /// What sets a text control.
    pub open spec fn setctl_str_seq(ctl: TickitTermCtl, value: Seq<u8>) -> Seq<u8> {
        match ctl {
            TickitTermCtl::TICKIT_TERMCTL_ICON_TEXT => "\x1b]1;".spec_bytes() + value
                + "\x1b\\".spec_bytes(),
            TickitTermCtl::TICKIT_TERMCTL_TITLE_TEXT => "\x1b]2;".spec_bytes() + value
                + "\x1b\\".spec_bytes(),
            TickitTermCtl::TICKIT_TERMCTL_ICONTITLE_TEXT => "\x1b]0;".spec_bytes() + value
                + "\x1b\\".spec_bytes(),
            _ => Seq::empty(),
        }
    }

    /// Whether a control takes text.
    pub open spec fn takes_text(ctl: TickitTermCtl) -> bool {
        ctl == TickitTermCtl::TICKIT_TERMCTL_ICON_TEXT || ctl
            == TickitTermCtl::TICKIT_TERMCTL_TITLE_TEXT || ctl
            == TickitTermCtl::TICKIT_TERMCTL_ICONTITLE_TEXT
    }

    /// Whether a decoded key is the terminal's answer to a query about
    /// a private mode.
    pub open spec fn is_mode_answer(key: KeyView) -> bool {
        key matches KeyView::ModeReport { initial, mode, value } && initial == 0x3f
    }

    /// The driver after the terminal's answer that the private mode
    /// `mode` has the state `value`: mode 69 tells whether margins can
    /// be set, mode 12 how the cursor blinks, mode 25 whether it shows.
    pub open spec fn with_mode_report(self, mode: int, value: int) -> XtermDriver {
        if mode == 69 {
            XtermDriver { slrm: Capability::Confirmed(mode_is_set(value)), ..self }
        } else if mode == 12 {
            XtermDriver { cursorblink_initial: Some(mode_is_set(value)), ..self }
        } else if mode == 25 {
            XtermDriver { cursorvis: mode_is_set(value), ..self }
        } else {
            self
        }
    }

    pub fn new() -> (d: XtermDriver)
        ensures
            d == XtermDriver::initial(),
    {
        XtermDriver {
            slrm: Capability::Unknown,
            altscreen: false,
            cursorvis: true,
            mouse: 0,
            keypad: false,
            cursorblink_forced: None,
            cursorblink_initial: None,
            cursorshape: None,
        }
    }
}

/// What the driver writes when output becomes possible: it switches on
/// the mode that allows left and right margins and asks whether that
/// mode is set, asks whether the cursor shows and blinks and what shape
/// it has, and clears the line the answers may have been echoed on.
pub open spec fn start_seq() -> Seq<u8> {
    "\x1b[?69h\x1b[?69$p\x1b[?25$p\x1b[?12$p\x1bP$q q\x1b\\\x1b[G\x1b[K".spec_bytes()
}

/// What an xterm driver writes for a request.
pub open spec fn xterm_emits(m: XtermDriver, ctx: DriverCtx, op: DriverOp) -> Seq<u8> {
    match op {
        DriverOp::Start => start_seq(),
        DriverOp::Stop => m.stop_seq(),
        DriverOp::Print(text) => text,
        DriverOp::GotoAbs(line, col) => goto_seq(line, col),
        DriverOp::MoveRel(downward, rightward) => move_seq(downward, rightward),
        DriverOp::ScrollRect(rect, downward, rightward) => scroll_seq(
            m.has_slrm(),
            rect,
            ctx.cols,
            downward,
            rightward,
        ),
        DriverOp::EraseCh(count, moveend) => erase_seq(
            ctx.pen.reverse == Some(true),
            count,
            moveend,
        ),
        DriverOp::Clear => "\x1b[2J".spec_bytes(),
        DriverOp::ChPen(delta, final_) => chpen_seq(delta, final_),
        DriverOp::GetCtlInt(ctl) => Seq::empty(),
        DriverOp::SetCtlInt(ctl, value) => m.setctl_seq(ctl, value),
        DriverOp::SetCtlStr(ctl, value) => XtermDriver::setctl_str_seq(ctl, value),
        DriverOp::GotKey(key) => Seq::empty(),
    }
}

/// An xterm driver after a request.
pub open spec fn xterm_after(m: XtermDriver, ctx: DriverCtx, op: DriverOp) -> XtermDriver {
    match op {
        DriverOp::Start => XtermDriver { slrm: Capability::Probing, ..m },
        DriverOp::Stop => m.stopped(),
        DriverOp::SetCtlInt(ctl, value) => m.with_ctl(ctl, value),
        DriverOp::GotKey(key) => match key {
            KeyView::ModeReport { initial, mode, value } => if initial == 0x3f {
                m.with_mode_report(mode as int, value as int)
            } else {
                m
            },
            _ => m,
        },
        _ => m,
    }
}

/// What an xterm driver answers to a request.
pub open spec fn xterm_answers(m: XtermDriver, ctx: DriverCtx, op: DriverOp) -> DriverAnswer {
    match op {
        DriverOp::GotoAbs(line, col) => DriverAnswer::Able(true),
        DriverOp::ScrollRect(rect, downward, rightward) => DriverAnswer::Able(
            can_scroll(m.has_slrm(), rect, ctx.cols, downward, rightward),
        ),
        DriverOp::GetCtlInt(ctl) => DriverAnswer::Value(m.ctl_value(ctl)),
        DriverOp::SetCtlInt(ctl, value) => DriverAnswer::Able(XtermDriver::setctl_able(ctl, value)),
        DriverOp::SetCtlStr(ctl, value) => DriverAnswer::Able(XtermDriver::takes_text(ctl)),
        DriverOp::GotKey(key) => DriverAnswer::Able(XtermDriver::is_mode_answer(key)),
        _ => DriverAnswer::Done,
    }
}

} // verus!

verus! {

fn write_num(cdr: &mut CDriverRef, n: i64)
    requires
        n <= u32::MAX,
    ensures
        final(cdr).out@ == old(cdr).out@ + num(n as int),
        final(cdr).ctx() == old(cdr).ctx(),
{
    if n < 0 {
        cdr.write_decimal(0);
    } else {
        cdr.write_decimal(n as u32);
    }
}

fn write_csi1(cdr: &mut CDriverRef, n: i64, fin: &str)
    requires
        n <= u32::MAX,
    ensures
        final(cdr).out@ == old(cdr).out@ + csi1(n as int, fin.spec_bytes()),
        final(cdr).ctx() == old(cdr).ctx(),
{
    cdr.write_str("\x1b[");
    write_num(cdr, n);
    cdr.write_str(fin);
    assert(cdr.out@ =~= old(cdr).out@ + csi1(n as int, fin.spec_bytes()));
}

fn write_csi2(cdr: &mut CDriverRef, a: i64, b: i64, fin: &str)
    requires
        a <= u32::MAX,
        b <= u32::MAX,
    ensures
        final(cdr).out@ == old(cdr).out@ + csi2(a as int, b as int, fin.spec_bytes()),
        final(cdr).ctx() == old(cdr).ctx(),
{
    cdr.write_str("\x1b[");
    write_num(cdr, a);
    cdr.write_str(";");
    write_num(cdr, b);
    cdr.write_str(fin);
    assert(cdr.out@ =~= old(cdr).out@ + csi2(a as int, b as int, fin.spec_bytes()));
}

fn write_csi_times(cdr: &mut CDriverRef, n: i64, fin: &str)
    requires
        n <= u32::MAX,
    ensures
        final(cdr).out@ == old(cdr).out@ + csi_times(n as int, fin.spec_bytes()),
        final(cdr).ctx() == old(cdr).ctx(),
{
    if n > 1 {
        write_csi1(cdr, n, fin);
    } else if n == 1 {
        cdr.write_str("\x1b[");
        cdr.write_str(fin);
        assert(cdr.out@ =~= old(cdr).out@ + csi_times(n as int, fin.spec_bytes()));
    } else {
        assert(cdr.out@ =~= old(cdr).out@ + csi_times(n as int, fin.spec_bytes()));
    }
}

/// Writes what does something `n` times for a positive `n` and its
/// opposite `-n` times for a negative one.
fn write_either(cdr: &mut CDriverRef, n: i32, forth: &str, back: &str)
    ensures
        final(cdr).out@ == old(cdr).out@ + (if n > 0 {
            csi_times(n as int, forth.spec_bytes())
        } else {
            csi_times(-n, back.spec_bytes())
        }),
        final(cdr).ctx() == old(cdr).ctx(),
{
    if n > 0 {
        write_csi_times(cdr, n as i64, forth);
    } else {
        write_csi_times(cdr, -(n as i64), back);
    }
}

fn write_goto(cdr: &mut CDriverRef, line: i32, col: i32)
    ensures
        final(cdr).out@ == old(cdr).out@ + goto_seq(line as int, col as int),
        final(cdr).ctx() == old(cdr).ctx(),
{
    if line >= 0 && col > 0 {
        write_csi2(cdr, line as i64 + 1, col as i64 + 1, "H");
    } else if line >= 0 && col == 0 {
        write_csi1(cdr, line as i64 + 1, "H");
    } else if line >= 0 {
        write_csi1(cdr, line as i64 + 1, "d");
    } else if col > 0 {
        write_csi1(cdr, col as i64 + 1, "G");
    } else if col == 0 {
        cdr.write_str("\x1b[G");
    } else {
        assert(cdr.out@ =~= old(cdr).out@ + goto_seq(line as int, col as int));
    }
}

fn write_move(cdr: &mut CDriverRef, downward: i32, rightward: i32)
    ensures
        final(cdr).out@ == old(cdr).out@ + move_seq(downward as int, rightward as int),
        final(cdr).ctx() == old(cdr).ctx(),
{
    write_either(cdr, downward, "B", "A");
    write_either(cdr, rightward, "C", "D");
    assert(cdr.out@ =~= old(cdr).out@ + move_seq(downward as int, rightward as int));
}

proof fn lemma_shift_rows_snoc(line: int, count: int, left: int, rightward: int)
    requires
        count >= 0,
    ensures
        shift_rows_seq(line, count + 1, left, rightward) == shift_rows_seq(
            line,
            count,
            left,
            rightward,
        ) + (goto_seq(line + count, left) + shift_cells_seq(rightward)),
    decreases count,
{
    if count > 0 {
        lemma_shift_rows_snoc(line + 1, count - 1, left, rightward);
        assert(shift_rows_seq(line, count + 1, left, rightward) =~= shift_rows_seq(
            line,
            count,
            left,
            rightward,
        ) + (goto_seq(line + count, left) + shift_cells_seq(rightward)));
    } else {
        assert(shift_rows_seq(line + 1, 0, left, rightward) =~= Seq::<u8>::empty());
        assert(shift_rows_seq(line, count + 1, left, rightward) =~= shift_rows_seq(
            line,
            count,
            left,
            rightward,
        ) + (goto_seq(line + count, left) + shift_cells_seq(rightward)));
    }
}

/// Writes the bytes of `s` if `cond` holds.
fn write_if(cdr: &mut CDriverRef, cond: bool, s: &str)
    ensures
        final(cdr).out@ == old(cdr).out@ + only_if(cond, s.spec_bytes()),
        final(cdr).ctx() == old(cdr).ctx(),
{
    if cond {
        cdr.write_str(s);
    } else {
        assert(cdr.out@ =~= old(cdr).out@ + Seq::<u8>::empty());
    }
}

fn write_rows(cdr: &mut CDriverRef, rect: &TickitRect, rightward: i32)
    requires
        rect.valid(),
    ensures
        final(cdr).out@ == old(cdr).out@ + shift_rows_seq(
            rect.top as int,
            rect.lines as int,
            rect.left as int,
            rightward as int,
        ),
        final(cdr).ctx() == old(cdr).ctx(),
{
    let ghost out1 = cdr.out@;
    let mut i: i32 = 0;
    assert(cdr.out@ =~= out1 + shift_rows_seq(
        rect.top as int,
        0,
        rect.left as int,
        rightward as int,
    ));
    while i < rect.lines
        invariant
            rect.valid(),
            0 <= i <= rect.lines,
            cdr.ctx() == old(cdr).ctx(),
            cdr.out@ == out1 + shift_rows_seq(
                rect.top as int,
                i as int,
                rect.left as int,
                rightward as int,
            ),
        decreases rect.lines - i,
    {
        proof {
            lemma_shift_rows_snoc(rect.top as int, i as int, rect.left as int, rightward as int);
        }
        write_goto(cdr, rect.top + i, rect.left);
        write_either(cdr, rightward, "P", "@");
        i += 1;
        assert(cdr.out@ =~= out1 + shift_rows_seq(
            rect.top as int,
            i as int,
            rect.left as int,
            rightward as int,
        ));
    }
}

fn write_scroll_cells(cdr: &mut CDriverRef, rect: &TickitRect, rightward: i32)
    requires
        rect.valid(),
    ensures
        final(cdr).out@ == old(cdr).out@ + scroll_cells_seq(
            *rect,
            old(cdr).cols as int,
            rightward as int,
        ),
        final(cdr).ctx() == old(cdr).ctx(),
{
    let ghost out0 = cdr.out@;
    let right = rect.right();
    let narrow = right < cdr.cols;
    if narrow {
        cdr.write_str("\x1b[;");
        write_num(cdr, right as i64);
        cdr.write_str("s");
    }
    let ghost out1 = cdr.out@;
    assert(out1 =~= out0 + only_if(
        narrow,
        "\x1b[;".spec_bytes() + num(right as int) + "s".spec_bytes(),
    ));
    write_rows(cdr, rect, rightward);
    write_if(cdr, narrow, "\x1b[s");
    assert(cdr.out@ =~= out0 + scroll_cells_seq(*rect, old(cdr).cols as int, rightward as int));
}

#[verifier::rlimit(40)]
fn write_scroll_margins(cdr: &mut CDriverRef, rect: &TickitRect, downward: i32, rightward: i32)
    requires
        rect.valid(),
    ensures
        final(cdr).out@ == old(cdr).out@ + scroll_margins_seq(
            *rect,
            old(cdr).cols as int,
            downward as int,
            rightward as int,
        ),
        final(cdr).ctx() == old(cdr).ctx(),
{
    let ghost out0 = cdr.out@;
    let right = rect.right();
    let margins = rect.left > 0 || right < cdr.cols;
    let ghost piece1 = csi2(rect.top + 1, rect.bottom_edge(), "r".spec_bytes());
    let ghost piece2 = only_if(margins, csi2(rect.left + 1, right as int, "s".spec_bytes()));
    let ghost piece3 = goto_seq(rect.top as int, rect.left as int);
    let ghost piece4 = shift_lines_seq(downward as int);
    let ghost piece5 = shift_columns_seq(rightward as int);
    let ghost piece6 = "\x1b[r".spec_bytes();
    let ghost piece7 = only_if(margins, "\x1b[s".spec_bytes());
    write_csi2(cdr, rect.top as i64 + 1, rect.bottom() as i64, "r");
    let ghost out1 = cdr.out@;
    if margins {
        write_csi2(cdr, rect.left as i64 + 1, right as i64, "s");
    } else {
        assert(cdr.out@ =~= out1 + Seq::<u8>::empty());
    }
    proof {
        crate::drv::lemma_bytes_assoc(out0, piece1, piece2);
    }
    write_goto(cdr, rect.top, rect.left);
    proof {
        crate::drv::lemma_bytes_assoc(out0, piece1 + piece2, piece3);
    }
    write_either(cdr, downward, "M", "L");
    proof {
        crate::drv::lemma_bytes_assoc(out0, piece1 + piece2 + piece3, piece4);
    }
    write_either(cdr, rightward, "'~", "'}");
    proof {
        crate::drv::lemma_bytes_assoc(out0, piece1 + piece2 + piece3 + piece4, piece5);
    }
    cdr.write_str("\x1b[r");
    proof {
        crate::drv::lemma_bytes_assoc(out0, piece1 + piece2 + piece3 + piece4 + piece5, piece6);
    }
    write_if(cdr, margins, "\x1b[s");
    proof {
        crate::drv::lemma_bytes_assoc(out0, piece1 + piece2 + piece3 + piece4 + piece5 + piece6, piece7);
    }
}

fn write_scroll(
    cdr: &mut CDriverRef,
    slrm: bool,
    rect: &TickitRect,
    downward: i32,
    rightward: i32,
) -> (ok: bool)
    requires
        rect.valid(),
    ensures
        final(cdr).out@ == old(cdr).out@ + scroll_seq(
            slrm,
            *rect,
            old(cdr).cols as int,
            downward as int,
            rightward as int,
        ),
        final(cdr).ctx() == old(cdr).ctx(),
        ok == can_scroll(slrm, *rect, old(cdr).cols as int, downward as int, rightward as int),
{
    let cols = cdr.cols;
    if downward == 0 && rightward == 0 {
        assert(cdr.out@ =~= old(cdr).out@ + Seq::<u8>::empty());
        return true;
    }
    let right = rect.right();
    if downward == 0 && ((slrm && rect.lines == 1) || right == cols) {
        write_scroll_cells(cdr, rect, rightward);
        return true;
    }
    if slrm || (rect.left == 0 && rect.cols == cols && rightward == 0) {
        write_scroll_margins(cdr, rect, downward, rightward);
        return true;
    }
    assert(cdr.out@ =~= old(cdr).out@ + Seq::<u8>::empty());
    false
}

fn write_erase(cdr: &mut CDriverRef, count: i32, moveend: Option<bool>)
    ensures
        final(cdr).out@ == old(cdr).out@ + erase_seq(
            old(cdr).pen.reverse == Some(true),
            count as int,
            moveend,
        ),
        final(cdr).ctx() == old(cdr).ctx(),
{
    let ghost out0 = cdr.out@;
    if count < 1 {
        assert(cdr.out@ =~= out0 + Seq::<u8>::empty());
        return ;
    }
    let reverse = match cdr.pen.reverse {
        Some(true) => true,
        _ => false,
    };
    if !reverse {
        write_csi_times(cdr, count as i64, "X");
        match moveend {
            Some(true) => {
                write_move(cdr, 0, count);
            },
            _ => {},
        }
        assert(cdr.out@ =~= out0 + erase_seq(false, count as int, moveend));
    } else {
        crate::bytes::push_repeat(&mut cdr.out, 0x20, count as usize);
        match moveend {
            Some(false) => {
                write_move(cdr, 0, -count);
            },
            _ => {},
        }
        assert(cdr.out@ =~= out0 + erase_seq(true, count as int, moveend));
    }
}

fn push_colour_params(params: &mut Vec<i32>, base: i32, val: i32)
    requires
        base == 30 || base == 40,
    ensures
        final(params)@ == old(params)@ + colour_params(base, val),
{
    if val < 0 {
        params.push(base + 9);
    } else if val < 8 {
        params.push(base + val);
    } else if val < 16 {
        params.push(base + 60 + val - 8);
    } else {
        params.push(base + 8);
        params.push(5);
        params.push(val);
    }
    assert(params@ =~= old(params)@ + colour_params(base, val));
}

fn push_flag_param(params: &mut Vec<i32>, on: i32, off: i32, val: Option<bool>)
    ensures
        final(params)@ == old(params)@ + (match val {
            Some(v) => flag_param(on, off, v),
            None => Seq::empty(),
        }),
{
    match val {
        Some(true) => params.push(on),
        Some(false) => params.push(off),
        None => {},
    }
    assert(params@ =~= old(params)@ + (match val {
        Some(v) => flag_param(on, off, v),
        None => Seq::empty(),
    }));
}

#[verifier::rlimit(40)]
fn write_chpen(cdr: &mut CDriverRef, delta: &PenAttrs, final_: &PenAttrs)
    ensures
        final(cdr).out@ == old(cdr).out@ + chpen_seq(*delta, *final_),
        final(cdr).ctx() == old(cdr).ctx(),
{
    let ghost out0 = cdr.out@;
    let mut params: Vec<i32> = Vec::new();
    match delta.fg {
        Some(v) => push_colour_params(&mut params, 30, v),
        None => {},
    }
    match delta.bg {
        Some(v) => push_colour_params(&mut params, 40, v),
        None => {},
    }
    push_flag_param(&mut params, 1, 22, delta.bold);
    push_flag_param(&mut params, 4, 24, delta.under);
    push_flag_param(&mut params, 3, 23, delta.italic);
    push_flag_param(&mut params, 7, 27, delta.reverse);
    push_flag_param(&mut params, 9, 29, delta.strike);
    match delta.altfont {
        Some(v) => if v < 0 || v >= 10 {
            params.push(10);
        } else {
            params.push(10 + v);
        },
        None => {},
    }
    assert(params@ =~= sgr_params(*delta));
    if params.len() == 0 {
        assert(cdr.out@ =~= out0 + Seq::<u8>::empty());
        return ;
    }
    if !final_.is_nondefault() {
        cdr.write_str("\x1b[m");
        return ;
    }
    cdr.write_str("\x1b[");
    let ghost out1 = cdr.out@;
    let mut i: usize = 0;
    while i < params.len()
        invariant
            i <= params.len(),
            cdr.ctx() == old(cdr).ctx(),
            cdr.out@ == out1 + joined(params@.subrange(0, i as int)),
        decreases params.len() - i,
    {
        proof {
            let pre = params@.subrange(0, i as int);
            let cur = params@.subrange(0, i as int + 1);
            assert(cur.drop_last() =~= pre);
            assert(cur.last() == params@[i as int]);
            assert(joined(pre) =~= Seq::<u8>::empty() || i > 0);
        }
        if i > 0 {
            cdr.write_str(";");
        }
        write_num(cdr, params[i] as i64);
        i += 1;
        assert(cdr.out@ =~= out1 + joined(params@.subrange(0, i as int)));
    }
    assert(params@.subrange(0, params@.len() as int) =~= params@);
    cdr.write_str("m");
    assert(cdr.out@ =~= out0 + chpen_seq(*delta, *final_));
}

fn flag_number(b: bool) -> (n: i32)
    ensures
        n == crate::pen::bool_number(b),
{
    if b {
        1
    } else {
        0
    }
}

impl XtermDriver {
    fn blinks_now(&self) -> (b: bool)
        ensures
            b == self.blinks(),
    {
        match self.cursorblink_forced {
            Some(v) => v,
            None => match self.cursorblink_initial {
                Some(v) => v,
                None => true,
            },
        }
    }

    fn write_setctl(&mut self, cdr: &mut CDriverRef, ctl: TickitTermCtl, value: i32) -> (ok: bool)
        ensures
            final(cdr).out@ == old(cdr).out@ + old(self).setctl_seq(ctl, value as int),
            final(cdr).ctx() == old(cdr).ctx(),
            *final(self) == old(self).with_ctl(ctl, value as int),
            ok == XtermDriver::setctl_able(ctl, value as int),
    {
        let ghost out0 = cdr.out@;
        let on = value != 0;
        match ctl {
            TickitTermCtl::TICKIT_TERMCTL_ALTSCREEN => {
                if self.altscreen != on {
                    cdr.write_str(if on { "\x1b[?1049h" } else { "\x1b[?1049l" });
                    self.altscreen = on;
                } else {
                    assert(cdr.out@ =~= out0 + Seq::<u8>::empty());
                }
                true
            },
            TickitTermCtl::TICKIT_TERMCTL_CURSORVIS => {
                if self.cursorvis != on {
                    cdr.write_str(if on { "\x1b[?25h" } else { "\x1b[?25l" });
                    self.cursorvis = on;
                } else {
                    assert(cdr.out@ =~= out0 + Seq::<u8>::empty());
                }
                true
            },
            TickitTermCtl::TICKIT_TERMCTL_CURSORBLINK => {
                let same = match self.cursorblink_forced {
                    Some(v) => v == on,
                    None => false,
                };
                if !same {
                    cdr.write_str(if on { "\x1b[?12h" } else { "\x1b[?12l" });
                    self.cursorblink_forced = Some(on);
                } else {
                    assert(cdr.out@ =~= out0 + Seq::<u8>::empty());
                }
                true
            },
            TickitTermCtl::TICKIT_TERMCTL_MOUSE => {
                if value < 0 || value > 3 {
                    assert(cdr.out@ =~= out0 + Seq::<u8>::empty());
                    return false;
                }
                if self.mouse != value {
                    if value == 0 {
                        cdr.write_str("\x1b[?1002l\x1b[?1006l");
                    } else if value == 1 {
                        cdr.write_str("\x1b[?1000h\x1b[?1006h");
                    } else if value == 2 {
                        cdr.write_str("\x1b[?1002h\x1b[?1006h");
                    } else {
                        cdr.write_str("\x1b[?1003h\x1b[?1006h");
                    }
                    self.mouse = value;
                } else {
                    assert(cdr.out@ =~= out0 + Seq::<u8>::empty());
                }
                true
            },
            TickitTermCtl::TICKIT_TERMCTL_CURSORSHAPE => {
                if value < 1 || value > 3 {
                    assert(cdr.out@ =~= out0 + Seq::<u8>::empty());
                    return false;
                }
                let same = match self.cursorshape {
                    Some(v) => v == value,
                    None => false,
                };
                if !same {
                    let n = value * 2 - (if self.blinks_now() { 1 } else { 0 });
                    write_csi1(cdr, n as i64, " q");
                    self.cursorshape = Some(value);
                } else {
                    assert(cdr.out@ =~= out0 + Seq::<u8>::empty());
                }
                true
            },
            TickitTermCtl::TICKIT_TERMCTL_KEYPAD_APP => {
                if self.keypad != on {
                    cdr.write_str(if on { "\x1b=" } else { "\x1b>" });
                    self.keypad = on;
                } else {
                    assert(cdr.out@ =~= out0 + Seq::<u8>::empty());
                }
                true
            },
            _ => {
                assert(cdr.out@ =~= out0 + Seq::<u8>::empty());
                false
            },
        }
    }

    #[verifier::rlimit(40)]
    fn write_stop(&mut self, cdr: &mut CDriverRef)
        ensures
            final(cdr).out@ == old(cdr).out@ + old(self).stop_seq(),
            final(cdr).ctx() == old(cdr).ctx(),
            *final(self) == old(self).stopped(),
    {
        let ghost out0 = cdr.out@;
        let back = match self.cursorblink_initial {
            Some(v) => v,
            None => true,
        };
        let undo = match self.cursorblink_forced {
            Some(v) => v != back,
            None => false,
        };
        let ghost piece1 = only_if(self.mouse != 0, "\x1b[?1002l\x1b[?1006l".spec_bytes());
        let ghost piece2 = only_if(!self.cursorvis, "\x1b[?25h".spec_bytes());
        let ghost piece3 = only_if(self.altscreen, "\x1b[?1049l".spec_bytes());
        let ghost piece4 = only_if(self.keypad, "\x1b>".spec_bytes());
        let ghost piece5 = only_if(undo, if back {
            "\x1b[?12h".spec_bytes()
        } else {
            "\x1b[?12l".spec_bytes()
        });
        write_if(cdr, self.mouse != 0, "\x1b[?1002l\x1b[?1006l");
        write_if(cdr, !self.cursorvis, "\x1b[?25h");
        proof {
            crate::drv::lemma_bytes_assoc(out0, piece1, piece2);
        }
        write_if(cdr, self.altscreen, "\x1b[?1049l");
        proof {
            crate::drv::lemma_bytes_assoc(out0, piece1 + piece2, piece3);
        }
        write_if(cdr, self.keypad, "\x1b>");
        proof {
            crate::drv::lemma_bytes_assoc(out0, piece1 + piece2 + piece3, piece4);
        }
        if back {
            write_if(cdr, undo, "\x1b[?12h");
        } else {
            write_if(cdr, undo, "\x1b[?12l");
        }
        proof {
            crate::drv::lemma_bytes_assoc(out0, piece1 + piece2 + piece3 + piece4, piece5);
            assert(old(self).stop_seq() == piece1 + piece2 + piece3 + piece4 + piece5);
        }
        self.mouse = 0;
        self.cursorvis = true;
        self.altscreen = false;
        self.keypad = false;
        self.cursorblink_forced = None;
    }
}

impl TickitTermDriverImpl for XtermDriver {
    type Model = XtermDriver;

    open spec fn model(&self) -> XtermDriver {
        *self
    }

    open spec fn emits(m: XtermDriver, ctx: DriverCtx, op: DriverOp) -> Seq<u8> {
        xterm_emits(m, ctx, op)
    }

    open spec fn after(m: XtermDriver, ctx: DriverCtx, op: DriverOp) -> XtermDriver {
        xterm_after(m, ctx, op)
    }

    open spec fn answers(m: XtermDriver, ctx: DriverCtx, op: DriverOp) -> DriverAnswer {
        xterm_answers(m, ctx, op)
    }

    fn start(&mut self, cdr: &mut CDriverRef) {
        cdr.write_str("\x1b[?69h\x1b[?69$p\x1b[?25$p\x1b[?12$p\x1bP$q q\x1b\\\x1b[G\x1b[K");
        self.slrm = Capability::Probing;
    }

    fn stop(&mut self, cdr: &mut CDriverRef) {
        self.write_stop(cdr);
    }

    fn print(&mut self, cdr: &mut CDriverRef, str_: &[u8]) {
        cdr.write_bytes(str_);
    }

    fn goto_abs(&mut self, cdr: &mut CDriverRef, line: i32, col: i32) -> (ok: bool) {
        write_goto(cdr, line, col);
        true
    }

    fn move_rel(&mut self, cdr: &mut CDriverRef, downward: i32, rightward: i32) {
        write_move(cdr, downward, rightward);
    }

    fn scrollrect(&mut self, cdr: &mut CDriverRef, rect: &TickitRect, downward: i32, rightward: i32) -> (ok:
        bool) {
        let slrm = match self.slrm {
            Capability::Confirmed(true) => true,
            _ => false,
        };
        write_scroll(cdr, slrm, rect, downward, rightward)
    }

    fn erasech(&mut self, cdr: &mut CDriverRef, count: i32, moveend: Option<bool>) {
        write_erase(cdr, count, moveend);
    }

    fn clear(&mut self, cdr: &mut CDriverRef) {
        cdr.write_str("\x1b[2J");
    }

    fn chpen(&mut self, cdr: &mut CDriverRef, delta: &PenAttrs, final_: &PenAttrs) {
        write_chpen(cdr, delta, final_);
    }

    fn getctl_int(&mut self, cdr: &mut CDriverRef, ctl: TickitTermCtl) -> (v: Option<i32>) {
        assert(cdr.out@ =~= cdr.out@ + Seq::<u8>::empty());
        match ctl {
            TickitTermCtl::TICKIT_TERMCTL_ALTSCREEN => Some(flag_number(self.altscreen)),
            TickitTermCtl::TICKIT_TERMCTL_CURSORVIS => Some(flag_number(self.cursorvis)),
            TickitTermCtl::TICKIT_TERMCTL_CURSORBLINK => Some(flag_number(self.blinks_now())),
            TickitTermCtl::TICKIT_TERMCTL_MOUSE => Some(self.mouse),
            TickitTermCtl::TICKIT_TERMCTL_CURSORSHAPE => self.cursorshape,
            TickitTermCtl::TICKIT_TERMCTL_KEYPAD_APP => Some(flag_number(self.keypad)),
            TickitTermCtl::TICKIT_TERMCTL_COLORS => Some(256),
            _ => None,
        }
    }

    fn setctl_int(&mut self, cdr: &mut CDriverRef, ctl: TickitTermCtl, value: i32) -> (ok: bool) {
        self.write_setctl(cdr, ctl, value)
    }

    fn setctl_str(&mut self, cdr: &mut CDriverRef, ctl: TickitTermCtl, value: &[u8]) -> (ok: bool) {
        let ghost out0 = cdr.out@;
        let open = match ctl {
            TickitTermCtl::TICKIT_TERMCTL_ICON_TEXT => "\x1b]1;",
            TickitTermCtl::TICKIT_TERMCTL_TITLE_TEXT => "\x1b]2;",
            TickitTermCtl::TICKIT_TERMCTL_ICONTITLE_TEXT => "\x1b]0;",
            _ => {
                assert(cdr.out@ =~= out0 + Seq::<u8>::empty());
                return false;
            },
        };
        cdr.write_str(open);
        cdr.write_bytes(value);
        cdr.write_str("\x1b\\");
        assert(cdr.out@ =~= out0 + XtermDriver::setctl_str_seq(ctl, value@));
        true
    }

    fn gotkey(&mut self, cdr: &mut CDriverRef, key: &TermKeyEvent) -> (taken: bool) {
        assert(cdr.out@ =~= cdr.out@ + Seq::<u8>::empty());
        match key {
            TermKeyEvent::ModeReportEvent { initial, mode, value } => {
                if *initial != 0x3f {
                    return false;
                }
                let set = *value == 1 || *value == 3;
                if *mode == 69 {
                    self.slrm = Capability::Confirmed(set);
                } else if *mode == 12 {
                    self.cursorblink_initial = Some(set);
                } else if *mode == 25 {
                    self.cursorvis = set;
                }
                true
            },
            _ => false,
        }
    }
}

} // verus!

verus! {

/// Setting a control to the value it was just set to writes nothing.
pub proof fn lemma_setctl_twice_is_silent(m: XtermDriver, ctl: TickitTermCtl, value: int)
    requires
        XtermDriver::setctl_able(ctl, value),
        i32::MIN <= value <= i32::MAX,
    ensures
        m.with_ctl(ctl, value).setctl_seq(ctl, value) == Seq::<u8>::empty(),
        m.with_ctl(ctl, value).with_ctl(ctl, value) == m.with_ctl(ctl, value),
{
}

/// A change of pen that changes no attribute writes nothing.
pub proof fn lemma_no_change_is_silent(final_: PenAttrs)
    ensures
        chpen_seq(PenAttrs::unset(), final_) == Seq::<u8>::empty(),
{
    assert(sgr_params(PenAttrs::unset()) =~= Seq::<i32>::empty());
}

/// Once the modes were undone nothing is left to undo.
pub proof fn lemma_stop_twice_is_silent(m: XtermDriver)
    ensures
        m.stopped().stop_seq() == Seq::<u8>::empty(),
        m.stopped().stopped() == m.stopped(),
{
    assert(m.stopped().stop_seq() =~= Seq::<u8>::empty());
}

} // verus!
