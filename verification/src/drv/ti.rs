//! The driver for terminals that are described by a set of capability
//! strings in the manner of terminfo.

use vstd::prelude::*;
use vstd::string::StringSliceAdditionalSpecFns;
use crate::bytes::{copy_bytes, decimal};
use crate::c::TickitTermCtl;
use crate::drv::{
    CDriverRef, DriverAnswer, DriverCtx, DriverOp, TermKeyEvent, TickitTermDriverImpl,
};
use crate::pen::{bool_number, PenAttrs};
use crate::rect::TickitRect;

verus! {

/// The capabilities that the driver uses, by their terminfo names.
#[derive(Clone, Copy, Debug, PartialEq, Eq, Structural)]
pub enum TiCap {
    /// cup: cursor to line and column.
    Cup,
    /// vpa: cursor to line.
    Vpa,
    /// hpa: cursor to column.
    Hpa,
    Cuu,
    Cuu1,
    Cud,
    Cud1,
    Cuf,
    Cuf1,
    Cub,
    Cub1,
    Ich,
    Ich1,
    Dch,
    Dch1,
    Il,
    Il1,
    Dl,
    Dl1,
    Ech,
    /// clear: clear the screen.
    Clear,
    /// csr: set the scrolling region.
    Csr,
    Sgr0,
    /// setaf: set the foreground colour.
    Setaf,
    /// setab: set the background colour.
    Setab,
    Bold,
    /// smul: underline on.
    Smul,
    /// sitm: italic on.
    Sitm,
    Rev,
    /// smxx: strike on.
    Smxx,
    /// smcup: to the alternate screen.
    Smcup,
    /// rmcup: back from the alternate screen.
    Rmcup,
    /// civis: cursor invisible.
    Civis,
    /// cnorm: cursor normal.
    Cnorm,
}

/// The number of capabilities.
pub const N_TI_CAPS: usize = 34;

impl TiCap {
    /// The place of the capability in a set.
    pub open spec fn place(self) -> int {
        match self {
            TiCap::Cup => 0,
            TiCap::Vpa => 1,
            TiCap::Hpa => 2,
            TiCap::Cuu => 3,
            TiCap::Cuu1 => 4,
            TiCap::Cud => 5,
            TiCap::Cud1 => 6,
            TiCap::Cuf => 7,
            TiCap::Cuf1 => 8,
            TiCap::Cub => 9,
            TiCap::Cub1 => 10,
            TiCap::Ich => 11,
            TiCap::Ich1 => 12,
            TiCap::Dch => 13,
            TiCap::Dch1 => 14,
            TiCap::Il => 15,
            TiCap::Il1 => 16,
            TiCap::Dl => 17,
            TiCap::Dl1 => 18,
            TiCap::Ech => 19,
            TiCap::Clear => 20,
            TiCap::Csr => 21,
            TiCap::Sgr0 => 22,
            TiCap::Setaf => 23,
            TiCap::Setab => 24,
            TiCap::Bold => 25,
            TiCap::Smul => 26,
            TiCap::Sitm => 27,
            TiCap::Rev => 28,
            TiCap::Smxx => 29,
            TiCap::Smcup => 30,
            TiCap::Rmcup => 31,
            TiCap::Civis => 32,
            TiCap::Cnorm => 33,
        }
    }

    pub fn index(self) -> (i: usize)
        ensures
            i == self.place(),
            i < N_TI_CAPS,
    {
        match self {
            TiCap::Cup => 0,
            TiCap::Vpa => 1,
            TiCap::Hpa => 2,
            TiCap::Cuu => 3,
            TiCap::Cuu1 => 4,
            TiCap::Cud => 5,
            TiCap::Cud1 => 6,
            TiCap::Cuf => 7,
            TiCap::Cuf1 => 8,
            TiCap::Cub => 9,
            TiCap::Cub1 => 10,
            TiCap::Ich => 11,
            TiCap::Ich1 => 12,
            TiCap::Dch => 13,
            TiCap::Dch1 => 14,
            TiCap::Il => 15,
            TiCap::Il1 => 16,
            TiCap::Dl => 17,
            TiCap::Dl1 => 18,
            TiCap::Ech => 19,
            TiCap::Clear => 20,
            TiCap::Csr => 21,
            TiCap::Sgr0 => 22,
            TiCap::Setaf => 23,
            TiCap::Setab => 24,
            TiCap::Bold => 25,
            TiCap::Smul => 26,
            TiCap::Sitm => 27,
            TiCap::Rev => 28,
            TiCap::Smxx => 29,
            TiCap::Smcup => 30,
            TiCap::Rmcup => 31,
            TiCap::Civis => 32,
            TiCap::Cnorm => 33,
        }
    }
}

/// The state of expanding a capability string: whether the first two
/// parameters count from 1, and the values pushed and not yet used.
pub struct Expansion {
    pub from_one: bool,
    pub stack: Seq<int>,
}

/// The value of the parameter with the digit `digit` for its number:
/// the first two are `arg1` and `arg2`, one more each if they count from
/// 1; any other is 0.
pub open spec fn param_value(digit: u8, arg1: int, arg2: int, from_one: bool) -> int {
    let add = if from_one {
        1int
    } else {
        0int
    };
    if digit == 0x31 {
        arg1 + add
    } else if digit == 0x32 {
        arg2 + add
    } else {
        0
    }
}

/// `n` in decimal, 0 for a negative `n`.
pub open spec fn shown_number(n: int) -> Seq<u8> {
    if n < 0 {
        decimal(0)
    } else {
        decimal(n as nat)
    }
}

/// What the capability string `s` expands to from the offset `i` on,
/// behind the bytes `out` that it has expanded to so far. Bytes stand
/// for themselves, but for `%`, which starts a directive: `%%` is a
/// `%`; `%i` makes the first two parameters count from 1; `%p` and a
/// digit from 1 to 9 pushes the parameter of that number; `%d` takes
/// the value pushed last and stands for it in decimal. Any other
/// directive, and a `%d` with nothing pushed, makes the string one that
/// cannot be expanded: `None`.
pub open spec fn expanded(s: Seq<u8>, i: int, arg1: int, arg2: int, e: Expansion, out: Seq<u8>) -> Option<
    Seq<u8>,
>
    decreases s.len() - i,
{
    if i < 0 || i >= s.len() {
        Some(out)
    } else if s[i] != 0x25 {
        expanded(s, i + 1, arg1, arg2, e, out.push(s[i]))
    } else if i + 1 >= s.len() {
        None
    } else if s[i + 1] == 0x25 {
        expanded(s, i + 2, arg1, arg2, e, out.push(0x25u8))
    } else if s[i + 1] == 0x69 {
        expanded(s, i + 2, arg1, arg2, Expansion { from_one: true, ..e }, out)
    } else if s[i + 1] == 0x64 {
        if e.stack.len() == 0 {
            None
        } else {
            expanded(
                s,
                i + 2,
                arg1,
                arg2,
                Expansion { stack: e.stack.drop_last(), ..e },
                out + shown_number(e.stack.last()),
            )
        }
    } else if s[i + 1] == 0x70 {
        if i + 2 < s.len() && 0x31 <= s[i + 2] <= 0x39 {
            expanded(
                s,
                i + 3,
                arg1,
                arg2,
                Expansion { stack: e.stack.push(param_value(s[i + 2], arg1, arg2, e.from_one)), ..e },
                out,
            )
        } else {
            None
        }
    } else {
        None
    }
}

/// What the capability string `s` expands to with the parameters `arg1`
/// and `arg2`, if it can be expanded.
pub open spec fn expansion(s: Seq<u8>, arg1: int, arg2: int) -> Option<Seq<u8>> {
    expanded(s, 0, arg1, arg2, Expansion { from_one: false, stack: Seq::empty() }, Seq::empty())
}

/// Expands the capability string `s` with the parameters `arg1` and
/// `arg2`.
#[verifier::rlimit(40)]
pub fn expand(s: &[u8], arg1: i64, arg2: i64) -> (r: Option<Vec<u8>>)
    requires
        -0x1_0000_0000 <= arg1 <= 0xffff_fffe,
        -0x1_0000_0000 <= arg2 <= 0xffff_fffe,
    ensures
        match r {
            Some(v) => expansion(s@, arg1 as int, arg2 as int) == Some(v@),
            None => expansion(s@, arg1 as int, arg2 as int) is None,
        },
{
    let mut out: Vec<u8> = Vec::new();
    let mut stack: Vec<i64> = Vec::new();
    let mut from_one = false;
    let mut i: usize = 0;
    let n = s.len();
    assert(stack@.map_values(|v: i64| v as int) =~= Seq::<int>::empty());
    assert(out@ =~= Seq::<u8>::empty());
    while i < n
        invariant
            n == s@.len(),
            i <= n,
            -0x1_0000_0000 <= arg1 <= 0xffff_fffe,
            -0x1_0000_0000 <= arg2 <= 0xffff_fffe,
            forall|k: int| 0 <= k < stack@.len() ==> -0x1_0000_0000 <= #[trigger] stack@[k] <= u32::MAX,
            expanded(
                s@,
                i as int,
                arg1 as int,
                arg2 as int,
                Expansion { from_one, stack: stack@.map_values(|v: i64| v as int) },
                out@,
            ) == expansion(s@, arg1 as int, arg2 as int),
        decreases n - i,
    {
        let ghost st = stack@.map_values(|v: i64| v as int);
        let b = s[i];
        if b != 0x25 {
            out.push(b);
            i += 1;
        } else if n - i < 2 {
            return None;
        } else {
            let d = s[i + 1];
            if d == 0x25 {
                out.push(0x25);
                i += 2;
            } else if d == 0x69 {
                from_one = true;
                i += 2;
            } else if d == 0x64 {
                match stack.pop() {
                    Some(v) => {
                        assert(stack@.map_values(|v: i64| v as int) =~= st.drop_last());
                        assert(st.last() == v);
                        if v < 0 {
                            crate::bytes::push_decimal(&mut out, 0);
                        } else {
                            crate::bytes::push_decimal(&mut out, v as u32);
                        }
                        i += 2;
                    },
                    None => {
                        return None;
                    },
                }
            } else if d == 0x70 {
                if n - i >= 3 && 0x31 <= s[i + 2] && s[i + 2] <= 0x39 {
                    let add: i64 = if from_one {
                        1
                    } else {
                        0
                    };
                    let v: i64 = if s[i + 2] == 0x31 {
                        arg1 + add
                    } else if s[i + 2] == 0x32 {
                        arg2 + add
                    } else {
                        0
                    };
                    stack.push(v);
                    assert(stack@.map_values(|v: i64| v as int) =~= st.push(v as int));
                    i += 3;
                } else {
                    return None;
                }
            } else {
                return None;
            }
        }
    }
    Some(out)
}

/// The mathematical value of a terminfo driver: the capability
/// strings by their places, whether erasing fills with the background
/// colour, the number of colours, and the modes set.
pub struct TiView {
    pub caps: Seq<Option<Seq<u8>>>,
    pub bce: bool,
    pub colours: i32,
    pub altscreen: bool,
    pub cursorvis: bool,
}

impl TiView {
    /// The capability string `cap`, if the terminal has it.
    pub open spec fn cap(self, cap: TiCap) -> Option<Seq<u8>> {
        if cap.place() < self.caps.len() {
            self.caps[cap.place()]
        } else {
            None
        }
    }

    /// Whether the terminal has the capability `cap` in a form that
    /// can be expanded with the parameters `arg1` and `arg2`.
    pub open spec fn can(self, cap: TiCap, arg1: int, arg2: int) -> bool {
        self.cap(cap) matches Some(s) && expansion(s, arg1, arg2) is Some
    }

    /// What the capability `cap` expands to with the parameters `arg1`
    /// and `arg2`; nothing if the terminal lacks it or it cannot be
    /// expanded.
    pub open spec fn run(self, cap: TiCap, arg1: int, arg2: int) -> Seq<u8> {
        match self.cap(cap) {
            Some(s) => match expansion(s, arg1, arg2) {
                Some(b) => b,
                None => Seq::empty(),
            },
            None => Seq::empty(),
        }
    }

    /// What does something `count` times: the capability `one` for
    /// once, if the terminal has it, else the capability `many` with
    /// the count.
    pub open spec fn times(self, one: TiCap, many: TiCap, count: int) -> Seq<u8> {
        if count == 1 && self.can(one, 0, 0) {
            self.run(one, 0, 0)
        } else {
            self.run(many, count, 0)
        }
    }

    /// What moves the cursor to a line and a column, of which a
    /// negative one stays as it is.
    pub open spec fn goto_seq(self, line: int, col: int) -> Seq<u8> {
        if line >= 0 && col >= 0 {
            self.run(TiCap::Cup, line, col)
        } else if line >= 0 {
            self.run(TiCap::Vpa, line, 0)
        } else if col == 0 {
            seq![0x0du8]
        } else if col > 0 {
            self.run(TiCap::Hpa, col, 0)
        } else {
            Seq::empty()
        }
    }

    /// Whether the cursor can be moved to a line and a column.
    pub open spec fn can_goto(self, line: int, col: int) -> bool {
        if line >= 0 && col >= 0 {
            self.can(TiCap::Cup, line, col)
        } else if line >= 0 {
            self.can(TiCap::Vpa, line, 0)
        } else if col > 0 {
            self.can(TiCap::Hpa, col, 0)
        } else {
            true
        }
    }

    /// What moves the cursor by a number of lines and columns.
    pub open spec fn move_seq(self, downward: int, rightward: int) -> Seq<u8> {
        (if downward > 0 {
            self.times(TiCap::Cud1, TiCap::Cud, downward)
        } else if downward < 0 {
            self.times(TiCap::Cuu1, TiCap::Cuu, -downward)
        } else {
            Seq::empty()
        }) + (if rightward > 0 {
            self.times(TiCap::Cuf1, TiCap::Cuf, rightward)
        } else if rightward < 0 {
            self.times(TiCap::Cub1, TiCap::Cub, -rightward)
        } else {
            Seq::empty()
        })
    }

    /// What deletes (`rightward` above 0) or inserts cells at the
    /// cursor.
    pub open spec fn shift_cells(self, rightward: int) -> Seq<u8> {
        if rightward > 0 {
            self.times(TiCap::Dch1, TiCap::Dch, rightward)
        } else {
            self.times(TiCap::Ich1, TiCap::Ich, -rightward)
        }
    }

    /// What shifts the cells of `count` lines from `line` down, each
    /// from the column `left` on.
    pub open spec fn shift_rows(self, line: int, count: int, left: int, rightward: int) -> Seq<u8>
        decreases count,
    {
        if count <= 0 {
            Seq::empty()
        } else {
            self.shift_rows(line, count - 1, left, rightward) + (self.goto_seq(
                line + count - 1,
                left,
            ) + self.shift_cells(rightward))
        }
    }

    /// Whether `rect` can be scrolled: sideways if it reaches the right
    /// edge, up or down if it spans the whole width.
    pub open spec fn can_scroll(rect: TickitRect, cols: int, downward: int, rightward: int) -> bool {
        ||| (downward == 0 && rightward == 0)
        ||| (downward == 0 && rect.right_edge() == cols)
        ||| (rightward == 0 && rect.left == 0 && rect.cols == cols)
    }

    /// What scrolls the cells of `rect`. Sideways, the cells of each
    /// line are shifted. Up or down, the scrolling region is set to the
    /// lines of the rectangle, lines are deleted or inserted at its
    /// top, and the scrolling region is set back to the whole screen.
    pub open spec fn scroll_seq(
        self,
        rect: TickitRect,
        lines: int,
        cols: int,
        downward: int,
        rightward: int,
    ) -> Seq<u8> {
        if downward == 0 && rightward == 0 {
            Seq::empty()
        } else if downward == 0 && rect.right_edge() == cols {
            self.shift_rows(rect.top as int, rect.lines as int, rect.left as int, rightward)
        } else if rightward == 0 && rect.left == 0 && rect.cols == cols {
            self.run(TiCap::Csr, rect.top as int, rect.bottom_edge() - 1) + self.goto_seq(
                rect.top as int,
                0,
            ) + (if downward > 0 {
                self.times(TiCap::Dl1, TiCap::Dl, downward)
            } else {
                self.times(TiCap::Il1, TiCap::Il, -downward)
            }) + self.run(TiCap::Csr, 0, lines - 1)
        } else {
            Seq::empty()
        }
    }

    /// What erases `count` cells: the erase capability if erasing fills
    /// with the background colour and the pen is not in reverse video,
    /// else that many spaces.
    pub open spec fn erase_seq(self, reverse: bool, count: int, moveend: Option<bool>) -> Seq<u8> {
        if count < 1 {
            Seq::empty()
        } else if self.bce && !reverse {
            self.run(TiCap::Ech, count, 0) + (if moveend == Some(true) {
                self.move_seq(0, count)
            } else {
                Seq::empty()
            })
        } else {
            Seq::new(count as nat, |i: int| 0x20u8) + (if moveend == Some(false) {
                self.move_seq(0, -count)
            } else {
                Seq::empty()
            })
        }
    }

    /// The capability `cap` if `on` holds, else nothing.
    pub open spec fn when(self, on: bool, cap: TiCap, arg1: int) -> Seq<u8> {
        if on {
            self.run(cap, arg1, 0)
        } else {
            Seq::empty()
        }
    }

    /// What changes the pen to `final_`, where `delta` holds the
    /// attributes that change: nothing if none changes; else every
    /// attribute is switched off and those that `final_` has on are
    /// switched on again, colours first.
    pub open spec fn chpen_seq(self, delta: PenAttrs, final_: PenAttrs) -> Seq<u8> {
        if !delta.nonempty() {
            Seq::empty()
        } else {
            self.run(TiCap::Sgr0, 0, 0) + self.when(
                crate::pen::number_or_unset(final_.fg) >= 0,
                TiCap::Setaf,
                crate::pen::number_or_unset(final_.fg),
            ) + self.when(
                crate::pen::number_or_unset(final_.bg) >= 0,
                TiCap::Setab,
                crate::pen::number_or_unset(final_.bg),
            ) + self.when(final_.bold == Some(true), TiCap::Bold, 0) + self.when(
                final_.under == Some(true),
                TiCap::Smul,
                0,
            ) + self.when(final_.italic == Some(true), TiCap::Sitm, 0) + self.when(
                final_.reverse == Some(true),
                TiCap::Rev,
                0,
            ) + self.when(final_.strike == Some(true), TiCap::Smxx, 0)
        }
    }

    /// The capability that sets the control `ctl` to `value`, if the
    /// control is one of those the driver has.
    pub open spec fn ctl_cap(ctl: TickitTermCtl, value: int) -> Option<TiCap> {
        match ctl {
            TickitTermCtl::TICKIT_TERMCTL_ALTSCREEN => Some(
                if value != 0 {
                    TiCap::Smcup
                } else {
                    TiCap::Rmcup
                },
            ),
            TickitTermCtl::TICKIT_TERMCTL_CURSORVIS => Some(
                if value != 0 {
                    TiCap::Cnorm
                } else {
                    TiCap::Civis
                },
            ),
            _ => None,
        }
    }

    /// The value of the control `ctl`, if it has one.
    pub open spec fn ctl_value(self, ctl: TickitTermCtl) -> Option<int> {
        match ctl {
            TickitTermCtl::TICKIT_TERMCTL_ALTSCREEN => Some(bool_number(self.altscreen)),
            TickitTermCtl::TICKIT_TERMCTL_CURSORVIS => Some(bool_number(self.cursorvis)),
            TickitTermCtl::TICKIT_TERMCTL_COLORS => Some(self.colours as int),
            _ => None,
        }
    }

    /// Whether the control `ctl` can be set to `value`: the driver has
    /// the control and the terminal the capability for it.
    pub open spec fn can_set(self, ctl: TickitTermCtl, value: int) -> bool {
        match Self::ctl_cap(ctl, value) {
            Some(cap) => self.can(cap, 0, 0),
            None => false,
        }
    }

    /// Whether the control `ctl` has the value `value` already.
    pub open spec fn is_set(self, ctl: TickitTermCtl, value: int) -> bool {
        match ctl {
            TickitTermCtl::TICKIT_TERMCTL_ALTSCREEN => self.altscreen == (value != 0),
            TickitTermCtl::TICKIT_TERMCTL_CURSORVIS => self.cursorvis == (value != 0),
            _ => false,
        }
    }

    /// The driver after the control `ctl` was set to `value`.
    pub open spec fn with_ctl(self, ctl: TickitTermCtl, value: int) -> TiView {
        if !self.can_set(ctl, value) {
            self
        } else {
            match ctl {
                TickitTermCtl::TICKIT_TERMCTL_ALTSCREEN => TiView { altscreen: value != 0, ..self },
                TickitTermCtl::TICKIT_TERMCTL_CURSORVIS => TiView { cursorvis: value != 0, ..self },
                _ => self,
            }
        }
    }

    /// What sets the control `ctl` to `value`: nothing if it has the
    /// value already.
    pub open spec fn setctl_seq(self, ctl: TickitTermCtl, value: int) -> Seq<u8> {
        if !self.can_set(ctl, value) || self.is_set(ctl, value) {
            Seq::empty()
        } else {
            self.run(Self::ctl_cap(ctl, value)->0, 0, 0)
        }
    }

    /// What undoes the modes that were set away from their defaults:
    /// the cursor is made visible and the alternate screen is left.
    pub open spec fn stop_seq(self) -> Seq<u8> {
        self.when(!self.cursorvis, TiCap::Cnorm, 0) + self.when(self.altscreen, TiCap::Rmcup, 0)
    }
}

/// What a terminfo driver writes for a request.
pub open spec fn ti_emits(m: TiView, ctx: DriverCtx, op: DriverOp) -> Seq<u8> {
    match op {
        DriverOp::Stop => m.stop_seq(),
        DriverOp::Print(text) => text,
        DriverOp::GotoAbs(line, col) => if m.can_goto(line, col) {
            m.goto_seq(line, col)
        } else {
            Seq::empty()
        },
        DriverOp::MoveRel(downward, rightward) => m.move_seq(downward, rightward),
        DriverOp::ScrollRect(rect, downward, rightward) => m.scroll_seq(
            rect,
            ctx.lines,
            ctx.cols,
            downward,
            rightward,
        ),
        DriverOp::EraseCh(count, moveend) => m.erase_seq(
            ctx.pen.reverse == Some(true),
            count,
            moveend,
        ),
        DriverOp::Clear => m.run(TiCap::Clear, 0, 0),
        DriverOp::ChPen(delta, final_) => m.chpen_seq(delta, final_),
        DriverOp::SetCtlInt(ctl, value) => m.setctl_seq(ctl, value),
        _ => Seq::empty(),
    }
}

/// A terminfo driver after a request.
pub open spec fn ti_after(m: TiView, ctx: DriverCtx, op: DriverOp) -> TiView {
    match op {
        DriverOp::Stop => TiView { cursorvis: true, altscreen: false, ..m },
        DriverOp::SetCtlInt(ctl, value) => m.with_ctl(ctl, value),
        _ => m,
    }
}

/// What a terminfo driver answers to a request.
pub open spec fn ti_answers(m: TiView, ctx: DriverCtx, op: DriverOp) -> DriverAnswer {
    match op {
        DriverOp::GotoAbs(line, col) => DriverAnswer::Able(m.can_goto(line, col)),
        DriverOp::ScrollRect(rect, downward, rightward) => DriverAnswer::Able(
            TiView::can_scroll(rect, ctx.cols, downward, rightward),
        ),
        DriverOp::GetCtlInt(ctl) => DriverAnswer::Value(m.ctl_value(ctl)),
        DriverOp::SetCtlInt(ctl, value) => DriverAnswer::Able(m.can_set(ctl, value)),
        DriverOp::SetCtlStr(ctl, value) => DriverAnswer::Able(false),
        DriverOp::GotKey(key) => DriverAnswer::Able(false),
        _ => DriverAnswer::Done,
    }
}

/// The capability strings as values.
pub open spec fn caps_view(caps: Seq<Option<Vec<u8>>>) -> Seq<Option<Seq<u8>>> {
    Seq::new(
        caps.len(),
        |i: int|
            match caps[i] {
                Some(v) => Some(v@),
                None => None,
            },
    )
}

/// What is known of a terminal: its capability strings, whether
/// erasing fills with the background colour, and how many colours it
/// has.
pub struct TermCaps {
    strs: Vec<Option<Vec<u8>>>,
    bce: bool,
    colours: i32,
}

impl TermCaps {
    /// The capability strings by their places.
    pub closed spec fn strings(&self) -> Seq<Option<Seq<u8>>> {
        caps_view(self.strs@)
    }

    /// Whether erasing fills with the background colour.
    pub closed spec fn erases_with_bg(&self) -> bool {
        self.bce
    }

    /// The number of colours.
    pub closed spec fn colour_count(&self) -> i32 {
        self.colours
    }

    /// The same with erasing that fills with the background colour, or
    /// not.
    pub fn with_bce(self, bce: bool) -> (c: TermCaps)
        ensures
            c.strings() == self.strings(),
            c.erases_with_bg() == bce,
            c.colour_count() == self.colour_count(),
    {
        let mut c = self;
        c.bce = bce;
        c
    }

    /// The same with `colours` colours.
    pub fn with_colours(self, colours: i32) -> (c: TermCaps)
        ensures
            c.strings() == self.strings(),
            c.erases_with_bg() == self.erases_with_bg(),
            c.colour_count() == colours,
    {
        let mut c = self;
        c.colours = colours;
        c
    }

    /// A terminal of which nothing is known: no capability, eight
    /// colours.
    pub fn new() -> (c: TermCaps)
        ensures
            c.strings().len() == N_TI_CAPS,
            forall|i: int| 0 <= i < N_TI_CAPS ==> (#[trigger] c.strings()[i]) is None,
            !c.erases_with_bg(),
            c.colour_count() == 8,
    {
        let mut strs: Vec<Option<Vec<u8>>> = Vec::new();
        let mut i: usize = 0;
        while i < N_TI_CAPS
            invariant
                i <= N_TI_CAPS,
                strs@.len() == i,
                forall|k: int| 0 <= k < i ==> (#[trigger] strs@[k]) is None,
            decreases N_TI_CAPS - i,
        {
            strs.push(None);
            i += 1;
        }
        TermCaps { strs, bce: false, colours: 8 }
    }

    /// The same with the capability `cap` being `value`.
    pub fn with(self, cap: TiCap, value: &str) -> (c: TermCaps)
        requires
            self.strings().len() == N_TI_CAPS,
        ensures
            c.strings() == self.strings().update(cap.place(), Some(value.spec_bytes())),
            c.strings().len() == N_TI_CAPS,
            c.erases_with_bg() == self.erases_with_bg(),
            c.colour_count() == self.colour_count(),
    {
        let mut c = self;
        let v = copy_bytes(value.as_bytes());
        c.strs[cap.index()] = Some(v);
        assert(c.strings() =~= self.strings().update(cap.place(), Some(value.spec_bytes())));
        c
    }
}

/// The driver for a terminal described by capability strings.
pub struct TiDriver {
    caps: TermCaps,
    altscreen: bool,
    cursorvis: bool,
}

impl TiDriver {
    /// The driver for a terminal with the capabilities `caps`, with
    /// every mode at its default.
    pub fn new(caps: TermCaps) -> (d: TiDriver)
        ensures
            d.model() == (TiView {
                caps: caps.strings(),
                bce: caps.erases_with_bg(),
                colours: caps.colour_count(),
                altscreen: false,
                cursorvis: true,
            }),
    {
        TiDriver { caps, altscreen: false, cursorvis: true }
    }

    /// The bytes that the capability `cap` expands to, if the terminal
    /// has it and it can be expanded.
    fn get(&self, cap: TiCap, arg1: i64, arg2: i64) -> (r: Option<Vec<u8>>)
        requires
            -0x1_0000_0000 <= arg1 <= 0xffff_fffe,
            -0x1_0000_0000 <= arg2 <= 0xffff_fffe,
        ensures
            r is Some <==> self.model().can(cap, arg1 as int, arg2 as int),
            r matches Some(v) ==> v@ == self.model().run(cap, arg1 as int, arg2 as int),
            r is None ==> self.model().run(cap, arg1 as int, arg2 as int) == Seq::<u8>::empty(),
    {
        let i = cap.index();
        if i < self.caps.strs.len() {
            match &self.caps.strs[i] {
                Some(s) => expand(s.as_slice(), arg1, arg2),
                None => None,
            }
        } else {
            None
        }
    }

    /// Writes what the capability `cap` expands to.
    fn run(&self, cdr: &mut CDriverRef, cap: TiCap, arg1: i64, arg2: i64)
        requires
            -0x1_0000_0000 <= arg1 <= 0xffff_fffe,
            -0x1_0000_0000 <= arg2 <= 0xffff_fffe,
        ensures
            final(cdr).out@ == old(cdr).out@ + self.model().run(cap, arg1 as int, arg2 as int),
            final(cdr).ctx() == old(cdr).ctx(),
    {
        match self.get(cap, arg1, arg2) {
            Some(v) => {
                cdr.write_bytes(v.as_slice());
            },
            None => {
                assert(cdr.out@ =~= cdr.out@ + Seq::<u8>::empty());
            },
        }
    }

    fn run_when(&self, cdr: &mut CDriverRef, on: bool, cap: TiCap, arg1: i64)
        requires
            -0x1_0000_0000 <= arg1 <= 0xffff_fffe,
        ensures
            final(cdr).out@ == old(cdr).out@ + self.model().when(on, cap, arg1 as int),
            final(cdr).ctx() == old(cdr).ctx(),
    {
        if on {
            self.run(cdr, cap, arg1, 0);
        } else {
            assert(cdr.out@ =~= cdr.out@ + Seq::<u8>::empty());
        }
    }

    fn run_times(&self, cdr: &mut CDriverRef, one: TiCap, many: TiCap, count: i64)
        requires
            -0x1_0000_0000 <= count <= 0xffff_fffe,
        ensures
            final(cdr).out@ == old(cdr).out@ + self.model().times(one, many, count as int),
            final(cdr).ctx() == old(cdr).ctx(),
    {
        if count == 1 {
            match self.get(one, 0, 0) {
                Some(v) => {
                    cdr.write_bytes(v.as_slice());
                    return ;
                },
                None => {},
            }
        }
        self.run(cdr, many, count, 0);
    }

    fn write_goto(&self, cdr: &mut CDriverRef, line: i32, col: i32)
        ensures
            final(cdr).out@ == old(cdr).out@ + self.model().goto_seq(line as int, col as int),
            final(cdr).ctx() == old(cdr).ctx(),
    {
        if line >= 0 && col >= 0 {
            self.run(cdr, TiCap::Cup, line as i64, col as i64);
        } else if line >= 0 {
            self.run(cdr, TiCap::Vpa, line as i64, 0);
        } else if col == 0 {
            cdr.out.push(0x0d);
            assert(cdr.out@ =~= old(cdr).out@ + seq![0x0du8]);
        } else if col > 0 {
            self.run(cdr, TiCap::Hpa, col as i64, 0);
        } else {
            assert(cdr.out@ =~= cdr.out@ + Seq::<u8>::empty());
        }
    }

    fn can_goto_now(&self, line: i32, col: i32) -> (r: bool)
        ensures
            r == self.model().can_goto(line as int, col as int),
    {
        if line >= 0 && col >= 0 {
            self.get(TiCap::Cup, line as i64, col as i64).is_some()
        } else if line >= 0 {
            self.get(TiCap::Vpa, line as i64, 0).is_some()
        } else if col > 0 {
            self.get(TiCap::Hpa, col as i64, 0).is_some()
        } else {
            true
        }
    }

    fn write_move(&self, cdr: &mut CDriverRef, downward: i32, rightward: i32)
        ensures
            final(cdr).out@ == old(cdr).out@ + self.model().move_seq(downward as int, rightward as int),
            final(cdr).ctx() == old(cdr).ctx(),
    {
        let ghost out0 = cdr.out@;
        if downward > 0 {
            self.run_times(cdr, TiCap::Cud1, TiCap::Cud, downward as i64);
        } else if downward < 0 {
            self.run_times(cdr, TiCap::Cuu1, TiCap::Cuu, -(downward as i64));
        } else {
            assert(cdr.out@ =~= cdr.out@ + Seq::<u8>::empty());
        }
        let ghost out1 = cdr.out@;
        if rightward > 0 {
            self.run_times(cdr, TiCap::Cuf1, TiCap::Cuf, rightward as i64);
        } else if rightward < 0 {
            self.run_times(cdr, TiCap::Cub1, TiCap::Cub, -(rightward as i64));
        } else {
            assert(cdr.out@ =~= cdr.out@ + Seq::<u8>::empty());
        }
        proof {
            crate::drv::lemma_bytes_assoc(
                out0,
                out1.subrange(out0.len() as int, out1.len() as int),
                cdr.out@.subrange(out1.len() as int, cdr.out@.len() as int),
            );
            assert(out1 =~= out0 + out1.subrange(out0.len() as int, out1.len() as int));
            assert(cdr.out@ =~= out1 + cdr.out@.subrange(out1.len() as int, cdr.out@.len() as int));
            assert(cdr.out@ =~= out0 + self.model().move_seq(downward as int, rightward as int));
        }
    }

    fn write_shift_cells(&self, cdr: &mut CDriverRef, rightward: i32)
        ensures
            final(cdr).out@ == old(cdr).out@ + self.model().shift_cells(rightward as int),
            final(cdr).ctx() == old(cdr).ctx(),
    {
        if rightward > 0 {
            self.run_times(cdr, TiCap::Dch1, TiCap::Dch, rightward as i64);
        } else {
            self.run_times(cdr, TiCap::Ich1, TiCap::Ich, -(rightward as i64));
        }
    }

    fn write_rows(&self, cdr: &mut CDriverRef, rect: &TickitRect, rightward: i32)
        requires
            rect.valid(),
        ensures
            final(cdr).out@ == old(cdr).out@ + self.model().shift_rows(
                rect.top as int,
                rect.lines as int,
                rect.left as int,
                rightward as int,
            ),
            final(cdr).ctx() == old(cdr).ctx(),
    {
        let ghost out0 = cdr.out@;
        let ghost m = self.model();
        let mut i: i32 = 0;
        assert(cdr.out@ =~= out0 + m.shift_rows(rect.top as int, 0, rect.left as int, rightward as int));
        while i < rect.lines
            invariant
                rect.valid(),
                0 <= i <= rect.lines,
                m == self.model(),
                cdr.ctx() == old(cdr).ctx(),
                cdr.out@ == out0 + m.shift_rows(
                    rect.top as int,
                    i as int,
                    rect.left as int,
                    rightward as int,
                ),
            decreases rect.lines - i,
        {
            let ghost before = m.shift_rows(rect.top as int, i as int, rect.left as int, rightward as int);
            let ghost g = m.goto_seq(rect.top + i, rect.left as int);
            let ghost c = m.shift_cells(rightward as int);
            self.write_goto(cdr, rect.top + i, rect.left);
            self.write_shift_cells(cdr, rightward);
            proof {
                crate::drv::lemma_bytes_assoc(out0 + before, g, c);
                crate::drv::lemma_bytes_assoc(out0, before, g + c);
            }
            i += 1;
        }
    }

    #[verifier::rlimit(40)]
    fn write_scroll(&self, cdr: &mut CDriverRef, rect: &TickitRect, downward: i32, rightward: i32) -> (ok:
        bool)
        requires
            rect.valid(),
        ensures
            final(cdr).out@ == old(cdr).out@ + self.model().scroll_seq(
                *rect,
                old(cdr).lines as int,
                old(cdr).cols as int,
                downward as int,
                rightward as int,
            ),
            final(cdr).ctx() == old(cdr).ctx(),
            ok == TiView::can_scroll(*rect, old(cdr).cols as int, downward as int, rightward as int),
    {
        let ghost out0 = cdr.out@;
        let ghost m = self.model();
        if downward == 0 && rightward == 0 {
            assert(cdr.out@ =~= cdr.out@ + Seq::<u8>::empty());
            return true;
        }
        if downward == 0 && rect.right() == cdr.cols {
            self.write_rows(cdr, rect, rightward);
            return true;
        }
        if rightward == 0 && rect.left == 0 && rect.cols == cdr.cols {
            let ghost piece1 = m.run(TiCap::Csr, rect.top as int, rect.bottom_edge() - 1);
            let ghost piece2 = m.goto_seq(rect.top as int, 0);
            let ghost piece3 = if downward > 0 {
                m.times(TiCap::Dl1, TiCap::Dl, downward as int)
            } else {
                m.times(TiCap::Il1, TiCap::Il, -downward)
            };
            let ghost piece4 = m.run(TiCap::Csr, 0, cdr.lines - 1);
            self.run(cdr, TiCap::Csr, rect.top as i64, rect.bottom() as i64 - 1);
            self.write_goto(cdr, rect.top, 0);
            proof {
                crate::drv::lemma_bytes_assoc(out0, piece1, piece2);
            }
            if downward > 0 {
                self.run_times(cdr, TiCap::Dl1, TiCap::Dl, downward as i64);
            } else {
                self.run_times(cdr, TiCap::Il1, TiCap::Il, -(downward as i64));
            }
            proof {
                crate::drv::lemma_bytes_assoc(out0, piece1 + piece2, piece3);
            }
            self.run(cdr, TiCap::Csr, 0, cdr.lines as i64 - 1);
            proof {
                crate::drv::lemma_bytes_assoc(out0, piece1 + piece2 + piece3, piece4);
            }
            return true;
        }
        assert(cdr.out@ =~= cdr.out@ + Seq::<u8>::empty());
        false
    }

    fn write_erase(&self, cdr: &mut CDriverRef, count: i32, moveend: Option<bool>)
        ensures
            final(cdr).out@ == old(cdr).out@ + self.model().erase_seq(
                old(cdr).pen.reverse == Some(true),
                count as int,
                moveend,
            ),
            final(cdr).ctx() == old(cdr).ctx(),
    {
        let ghost out0 = cdr.out@;
        let ghost m = self.model();
        if count < 1 {
            assert(cdr.out@ =~= cdr.out@ + Seq::<u8>::empty());
            return ;
        }
        let reverse = match cdr.pen.reverse {
            Some(true) => true,
            _ => false,
        };
        if self.caps.bce && !reverse {
            let ghost piece1 = m.run(TiCap::Ech, count as int, 0);
            self.run(cdr, TiCap::Ech, count as i64, 0);
            match moveend {
                Some(true) => {
                    self.write_move(cdr, 0, count);
                    proof {
                        crate::drv::lemma_bytes_assoc(out0, piece1, m.move_seq(0, count as int));
                    }
                },
                _ => {
                    assert(cdr.out@ =~= out0 + (piece1 + Seq::<u8>::empty()));
                },
            }
        } else {
            let ghost piece1 = Seq::new(count as nat, |i: int| 0x20u8);
            crate::bytes::push_repeat(&mut cdr.out, 0x20, count as usize);
            match moveend {
                Some(false) => {
                    self.write_move(cdr, 0, -count);
                    proof {
                        crate::drv::lemma_bytes_assoc(out0, piece1, m.move_seq(0, -count));
                    }
                },
                _ => {
                    assert(cdr.out@ =~= out0 + (piece1 + Seq::<u8>::empty()));
                },
            }
        }
    }

    #[verifier::rlimit(40)]
    fn write_chpen(&self, cdr: &mut CDriverRef, delta: &PenAttrs, final_: &PenAttrs)
        ensures
            final(cdr).out@ == old(cdr).out@ + self.model().chpen_seq(*delta, *final_),
            final(cdr).ctx() == old(cdr).ctx(),
    {
        let ghost out0 = cdr.out@;
        let ghost m = self.model();
        if !delta.is_nonempty() {
            assert(cdr.out@ =~= cdr.out@ + Seq::<u8>::empty());
            return ;
        }
        let fg: i32 = match final_.fg {
            Some(v) => v,
            None => -1,
        };
        let bg: i32 = match final_.bg {
            Some(v) => v,
            None => -1,
        };
        let bold = match final_.bold {
            Some(true) => true,
            _ => false,
        };
        let under = match final_.under {
            Some(true) => true,
            _ => false,
        };
        let italic = match final_.italic {
            Some(true) => true,
            _ => false,
        };
        let reverse = match final_.reverse {
            Some(true) => true,
            _ => false,
        };
        let strike = match final_.strike {
            Some(true) => true,
            _ => false,
        };
        let ghost piece0 = m.run(TiCap::Sgr0, 0, 0);
        let ghost piece1 = m.when(fg >= 0, TiCap::Setaf, fg as int);
        let ghost piece2 = m.when(bg >= 0, TiCap::Setab, bg as int);
        let ghost piece3 = m.when(bold, TiCap::Bold, 0);
        let ghost piece4 = m.when(under, TiCap::Smul, 0);
        let ghost piece5 = m.when(italic, TiCap::Sitm, 0);
        let ghost piece6 = m.when(reverse, TiCap::Rev, 0);
        let ghost piece7 = m.when(strike, TiCap::Smxx, 0);
        self.run(cdr, TiCap::Sgr0, 0, 0);
        self.run_when(cdr, fg >= 0, TiCap::Setaf, fg as i64);
        proof {
            crate::drv::lemma_bytes_assoc(out0, piece0, piece1);
        }
        self.run_when(cdr, bg >= 0, TiCap::Setab, bg as i64);
        proof {
            crate::drv::lemma_bytes_assoc(out0, piece0 + piece1, piece2);
        }
        self.run_when(cdr, bold, TiCap::Bold, 0);
        proof {
            crate::drv::lemma_bytes_assoc(out0, piece0 + piece1 + piece2, piece3);
        }
        self.run_when(cdr, under, TiCap::Smul, 0);
        proof {
            crate::drv::lemma_bytes_assoc(out0, piece0 + piece1 + piece2 + piece3, piece4);
        }
        self.run_when(cdr, italic, TiCap::Sitm, 0);
        proof {
            crate::drv::lemma_bytes_assoc(out0, piece0 + piece1 + piece2 + piece3 + piece4, piece5);
        }
        self.run_when(cdr, reverse, TiCap::Rev, 0);
        proof {
            crate::drv::lemma_bytes_assoc(out0, piece0 + piece1 + piece2 + piece3 + piece4 + piece5, piece6);
        }
        self.run_when(cdr, strike, TiCap::Smxx, 0);
        proof {
            crate::drv::lemma_bytes_assoc(out0, piece0 + piece1 + piece2 + piece3 + piece4 + piece5 + piece6, piece7);
        }
    }
}

impl TickitTermDriverImpl for TiDriver {
    type Model = TiView;

    closed spec fn model(&self) -> TiView {
        TiView {
            caps: self.caps.strings(),
            bce: self.caps.bce,
            colours: self.caps.colours,
            altscreen: self.altscreen,
            cursorvis: self.cursorvis,
        }
    }

    open spec fn emits(m: TiView, ctx: DriverCtx, op: DriverOp) -> Seq<u8> {
        ti_emits(m, ctx, op)
    }

    open spec fn after(m: TiView, ctx: DriverCtx, op: DriverOp) -> TiView {
        ti_after(m, ctx, op)
    }

    open spec fn answers(m: TiView, ctx: DriverCtx, op: DriverOp) -> DriverAnswer {
        ti_answers(m, ctx, op)
    }

    fn start(&mut self, cdr: &mut CDriverRef) {
        assert(cdr.out@ =~= cdr.out@ + Seq::<u8>::empty());
    }

    fn stop(&mut self, cdr: &mut CDriverRef) {
        let ghost out0 = cdr.out@;
        let ghost m = self.model();
        let ghost piece1 = m.when(!self.cursorvis, TiCap::Cnorm, 0);
        let ghost piece2 = m.when(self.altscreen, TiCap::Rmcup, 0);
        self.run_when(cdr, !self.cursorvis, TiCap::Cnorm, 0);
        self.run_when(cdr, self.altscreen, TiCap::Rmcup, 0);
        proof {
            crate::drv::lemma_bytes_assoc(out0, piece1, piece2);
        }
        self.cursorvis = true;
        self.altscreen = false;
    }

    fn print(&mut self, cdr: &mut CDriverRef, str_: &[u8]) {
        cdr.write_bytes(str_);
    }

    fn goto_abs(&mut self, cdr: &mut CDriverRef, line: i32, col: i32) -> (ok: bool) {
        if self.can_goto_now(line, col) {
            self.write_goto(cdr, line, col);
            true
        } else {
            assert(cdr.out@ =~= cdr.out@ + Seq::<u8>::empty());
            false
        }
    }

    fn move_rel(&mut self, cdr: &mut CDriverRef, downward: i32, rightward: i32) {
        self.write_move(cdr, downward, rightward);
    }

    fn scrollrect(&mut self, cdr: &mut CDriverRef, rect: &TickitRect, downward: i32, rightward: i32) -> (ok:
        bool) {
        self.write_scroll(cdr, rect, downward, rightward)
    }

    fn erasech(&mut self, cdr: &mut CDriverRef, count: i32, moveend: Option<bool>) {
        self.write_erase(cdr, count, moveend);
    }

    fn clear(&mut self, cdr: &mut CDriverRef) {
        self.run(cdr, TiCap::Clear, 0, 0);
    }

    fn chpen(&mut self, cdr: &mut CDriverRef, delta: &PenAttrs, final_: &PenAttrs) {
        self.write_chpen(cdr, delta, final_);
    }

    fn getctl_int(&mut self, cdr: &mut CDriverRef, ctl: TickitTermCtl) -> (v: Option<i32>) {
        assert(cdr.out@ =~= cdr.out@ + Seq::<u8>::empty());
        match ctl {
            TickitTermCtl::TICKIT_TERMCTL_ALTSCREEN => Some(
                if self.altscreen {
                    1
                } else {
                    0
                },
            ),
            TickitTermCtl::TICKIT_TERMCTL_CURSORVIS => Some(
                if self.cursorvis {
                    1
                } else {
                    0
                },
            ),
            TickitTermCtl::TICKIT_TERMCTL_COLORS => Some(self.caps.colours),
            _ => None,
        }
    }

    fn setctl_int(&mut self, cdr: &mut CDriverRef, ctl: TickitTermCtl, value: i32) -> (ok: bool) {
        let on = value != 0;
        let (cap, same) = match ctl {
            TickitTermCtl::TICKIT_TERMCTL_ALTSCREEN => (
                if on {
                    TiCap::Smcup
                } else {
                    TiCap::Rmcup
                },
                self.altscreen == on,
            ),
            TickitTermCtl::TICKIT_TERMCTL_CURSORVIS => (
                if on {
                    TiCap::Cnorm
                } else {
                    TiCap::Civis
                },
                self.cursorvis == on,
            ),
            _ => {
                assert(cdr.out@ =~= cdr.out@ + Seq::<u8>::empty());
                return false;
            },
        };
        match self.get(cap, 0, 0) {
            Some(v) => {
                if same {
                    assert(cdr.out@ =~= cdr.out@ + Seq::<u8>::empty());
                } else {
                    cdr.write_bytes(v.as_slice());
                }
                match ctl {
                    TickitTermCtl::TICKIT_TERMCTL_ALTSCREEN => {
                        self.altscreen = on;
                    },
                    _ => {
                        self.cursorvis = on;
                    },
                }
                true
            },
            None => {
                assert(cdr.out@ =~= cdr.out@ + Seq::<u8>::empty());
                false
            },
        }
    }

    fn setctl_str(&mut self, cdr: &mut CDriverRef, ctl: TickitTermCtl, value: &[u8]) -> (ok: bool) {
        assert(cdr.out@ =~= cdr.out@ + Seq::<u8>::empty());
        false
    }

    fn gotkey(&mut self, cdr: &mut CDriverRef, key: &TermKeyEvent) -> (taken: bool) {
        assert(cdr.out@ =~= cdr.out@ + Seq::<u8>::empty());
        false
    }
}

} // verus!
