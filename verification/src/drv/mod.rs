//! The interface between a terminal and the driver that knows how one
//! kind of terminal is spoken to.

use vstd::prelude::*;
use vstd::string::StringSliceAdditionalSpecFns;
use crate::bytes::{decimal, push_bytes, push_decimal, push_str};
use crate::c::TickitTermCtl;
use crate::pen::{PenAttrs, TickitPen};
use crate::rect::TickitRect;

pub mod ti;
pub mod xterm;

verus! {

/// How the key decoder saw a mouse event.
#[derive(Clone, Copy, Debug, PartialEq, Eq, Structural)]
pub enum TermKeyMouseEvent {
    Unknown,
    Press,
    Drag,
    Release,
}

/// What the key decoder made of some input bytes. Lines and columns of
/// a mouse event count from 1.
pub enum TermKeyEvent {
    /// A character, with its name as the decoder formats keys.
    UnicodeEvent { mods: i32, codepoint: u32, utf8: String, name: String },
    /// A function or other named key.
    KeyEvent { mods: i32, name: String },
    MouseEvent { mods: i32, ev: TermKeyMouseEvent, button: i32, line: i32, col: i32 },
    /// The terminal's answer to a mode query: the byte that opened the
    /// parameters (`?` for a private mode, else 0), the mode and its
    /// reported state.
    ModeReportEvent { initial: u8, mode: i32, value: i32 },
    PositionEvent { line: i32, col: i32 },
    UnknownCsiEvent,
}

/// The mathematical value of a decoded key.
pub enum KeyView {
    Unicode { mods: i32, codepoint: u32, utf8: Seq<char>, name: Seq<char> },
    Key { mods: i32, name: Seq<char> },
    Mouse { mods: i32, ev: TermKeyMouseEvent, button: i32, line: i32, col: i32 },
    ModeReport { initial: u8, mode: i32, value: i32 },
    Position { line: i32, col: i32 },
    UnknownCsi,
}

impl View for TermKeyEvent {
    type V = KeyView;

    open spec fn view(&self) -> KeyView {
        match *self {
            TermKeyEvent::UnicodeEvent { mods, codepoint, utf8, name } => KeyView::Unicode {
                mods,
                codepoint,
                utf8: utf8@,
                name: name@,
            },
            TermKeyEvent::KeyEvent { mods, name } => KeyView::Key { mods, name: name@ },
            TermKeyEvent::MouseEvent { mods, ev, button, line, col } => KeyView::Mouse {
                mods,
                ev,
                button,
                line,
                col,
            },
            TermKeyEvent::ModeReportEvent { initial, mode, value } => KeyView::ModeReport {
                initial,
                mode,
                value,
            },
            TermKeyEvent::PositionEvent { line, col } => KeyView::Position { line, col },
            TermKeyEvent::UnknownCsiEvent => KeyView::UnknownCsi,
        }
    }
}

/// What a driver is given of its terminal: where to write, the pen the
/// terminal is believed to have, and the terminal's size.
pub struct CDriverRef {
    pub out: Vec<u8>,
    pub pen: PenAttrs,
    pub lines: i32,
    pub cols: i32,
}

/// What a driver may read of its terminal.
pub struct DriverCtx {
    pub pen: PenAttrs,
    pub lines: int,
    pub cols: int,
}

impl CDriverRef {
    /// What the driver may read.
    pub open spec fn ctx(&self) -> DriverCtx {
        DriverCtx { pen: self.pen, lines: self.lines as int, cols: self.cols as int }
    }

    /// Writes the bytes of `str_` to the terminal.
    pub fn write_str(&mut self, str_: &str)
        ensures
            final(self).out@ == old(self).out@ + str_.spec_bytes(),
            final(self).ctx() == old(self).ctx(),
    {
        push_str(&mut self.out, str_);
    }

    /// Writes `bytes` to the terminal.
    pub fn write_bytes(&mut self, bytes: &[u8])
        ensures
            final(self).out@ == old(self).out@ + bytes@,
            final(self).ctx() == old(self).ctx(),
    {
        push_bytes(&mut self.out, bytes);
    }

    /// Writes `n` in decimal to the terminal.
    pub fn write_decimal(&mut self, n: u32)
        ensures
            final(self).out@ == old(self).out@ + decimal(n as nat),
            final(self).ctx() == old(self).ctx(),
    {
        push_decimal(&mut self.out, n);
    }

    /// The pen that the terminal is believed to have.
    pub fn current_pen(&self) -> (p: TickitPen)
        ensures
            p@ == self.pen,
            p.wf(),
    {
        TickitPen::from_attrs(self.pen)
    }
}

/// Appending bytes is associative.
pub proof fn lemma_bytes_assoc(a: Seq<u8>, b: Seq<u8>, c: Seq<u8>)
    ensures
        (a + b) + c == a + (b + c),
{
    assert((a + b) + c =~= a + (b + c));
}

/// One request to a driver, as a value.
pub enum DriverOp {
    Start,
    Stop,
    Print(Seq<u8>),
    GotoAbs(int, int),
    MoveRel(int, int),
    ScrollRect(TickitRect, int, int),
    EraseCh(int, Option<bool>),
    Clear,
    /// The attributes that change, and the whole pen after the change.
    ChPen(PenAttrs, PenAttrs),
    GetCtlInt(TickitTermCtl),
    SetCtlInt(TickitTermCtl, int),
    SetCtlStr(TickitTermCtl, Seq<u8>),
    GotKey(KeyView),
}

/// What a driver answers to a request.
pub enum DriverAnswer {
    /// The request has no answer.
    Done,
    /// Whether the driver could do what was asked.
    Able(bool),
    /// The value asked for, if the driver has one.
    Value(Option<int>),
}

/// A terminal driver: how one kind of terminal is told to do things.
/// A driver has a mathematical model, and three functions over the
/// model say what the driver does to each request: what it writes,
/// what it becomes and what it answers. Each method does to its
/// request what the three say: it writes that and nothing else,
/// becomes that, and leaves the terminal's pen and size alone.
pub trait TickitTermDriverImpl: Sized {
    /// The model of a driver: all that its behaviour depends on.
    type Model;

    /// The model of this driver. A driver that says nothing of itself
    /// has a model of which nothing is known.
    open spec fn model(&self) -> Self::Model {
        arbitrary()
    }

    /// The bytes a driver writes for `op`.
    open spec fn emits(m: Self::Model, ctx: DriverCtx, op: DriverOp) -> Seq<u8> {
        Seq::empty()
    }

    /// The driver after `op`.
    open spec fn after(m: Self::Model, ctx: DriverCtx, op: DriverOp) -> Self::Model {
        m
    }

    /// The driver's answer to `op`.
    open spec fn answers(m: Self::Model, ctx: DriverCtx, op: DriverOp) -> DriverAnswer {
        DriverAnswer::Done
    }

    /// Called once when output becomes possible.
    fn start(&mut self, cdr: &mut CDriverRef)
        ensures
            final(self).model() == Self::after(old(self).model(), old(cdr).ctx(), DriverOp::Start),
            final(cdr).out@ == old(cdr).out@ + Self::emits(old(self).model(), old(cdr).ctx(), DriverOp::Start),
            final(cdr).ctx() == old(cdr).ctx(),
    ;

    /// Called once when the terminal is given up: undoes what has to be
    /// undone.
    fn stop(&mut self, cdr: &mut CDriverRef)
        ensures
            final(self).model() == Self::after(old(self).model(), old(cdr).ctx(), DriverOp::Stop),
            final(cdr).out@ == old(cdr).out@ + Self::emits(old(self).model(), old(cdr).ctx(), DriverOp::Stop),
            final(cdr).ctx() == old(cdr).ctx(),
    ;

    fn print(&mut self, cdr: &mut CDriverRef, str_: &[u8])
        ensures
            final(self).model() == Self::after(old(self).model(), old(cdr).ctx(), DriverOp::Print(str_@)),
            final(cdr).out@ == old(cdr).out@ + Self::emits(old(self).model(), old(cdr).ctx(), DriverOp::Print(str_@)),
            final(cdr).ctx() == old(cdr).ctx(),
    ;

    /// Moves the cursor to a line and a column; a negative one of the
    /// two leaves that one as it is.
    fn goto_abs(&mut self, cdr: &mut CDriverRef, line: i32, col: i32) -> (ok: bool)
        ensures
            final(self).model() == Self::after(old(self).model(), old(cdr).ctx(), DriverOp::GotoAbs(line as int, col as int)),
            final(cdr).out@ == old(cdr).out@ + Self::emits(old(self).model(), old(cdr).ctx(), DriverOp::GotoAbs(line as int, col as int)),
            final(cdr).ctx() == old(cdr).ctx(),
            Self::answers(old(self).model(), old(cdr).ctx(), DriverOp::GotoAbs(line as int, col as int))
                == DriverAnswer::Able(ok),
    ;

    fn move_rel(&mut self, cdr: &mut CDriverRef, downward: i32, rightward: i32)
        ensures
            final(self).model() == Self::after(old(self).model(), old(cdr).ctx(), DriverOp::MoveRel(downward as int, rightward as int)),
            final(cdr).out@ == old(cdr).out@ + Self::emits(old(self).model(), old(cdr).ctx(), DriverOp::MoveRel(downward as int, rightward as int)),
            final(cdr).ctx() == old(cdr).ctx(),
    ;

    fn scrollrect(&mut self, cdr: &mut CDriverRef, rect: &TickitRect, downward: i32, rightward: i32) -> (ok:
        bool)
        requires
            rect.valid(),
        ensures
            final(self).model() == Self::after(old(self).model(), old(cdr).ctx(), DriverOp::ScrollRect(*rect, downward as int, rightward as int)),
            final(cdr).out@ == old(cdr).out@ + Self::emits(old(self).model(), old(cdr).ctx(), DriverOp::ScrollRect(*rect, downward as int, rightward as int)),
            final(cdr).ctx() == old(cdr).ctx(),
            Self::answers(old(self).model(), old(cdr).ctx(),
                DriverOp::ScrollRect(*rect, downward as int, rightward as int),
            ) == DriverAnswer::Able(ok),
    ;

    /// Erases `count` cells from the cursor on. `moveend` says whether
    /// the cursor must end behind them (`Some(true)`), must stay
    /// (`Some(false)`), or may do either.
    fn erasech(&mut self, cdr: &mut CDriverRef, count: i32, moveend: Option<bool>)
        ensures
            final(self).model() == Self::after(old(self).model(), old(cdr).ctx(), DriverOp::EraseCh(count as int, moveend)),
            final(cdr).out@ == old(cdr).out@ + Self::emits(old(self).model(), old(cdr).ctx(), DriverOp::EraseCh(count as int, moveend)),
            final(cdr).ctx() == old(cdr).ctx(),
    ;

    fn clear(&mut self, cdr: &mut CDriverRef)
        ensures
            final(self).model() == Self::after(old(self).model(), old(cdr).ctx(), DriverOp::Clear),
            final(cdr).out@ == old(cdr).out@ + Self::emits(old(self).model(), old(cdr).ctx(), DriverOp::Clear),
            final(cdr).ctx() == old(cdr).ctx(),
    ;

    /// Changes the pen: `delta` holds the attributes that change,
    /// `final_` the whole pen after the change.
    fn chpen(&mut self, cdr: &mut CDriverRef, delta: &PenAttrs, final_: &PenAttrs)
        ensures
            final(self).model() == Self::after(old(self).model(), old(cdr).ctx(), DriverOp::ChPen(*delta, *final_)),
            final(cdr).out@ == old(cdr).out@ + Self::emits(old(self).model(), old(cdr).ctx(), DriverOp::ChPen(*delta, *final_)),
            final(cdr).ctx() == old(cdr).ctx(),
    ;

    fn getctl_int(&mut self, cdr: &mut CDriverRef, ctl: TickitTermCtl) -> (v: Option<i32>)
        ensures
            final(self).model() == Self::after(old(self).model(), old(cdr).ctx(), DriverOp::GetCtlInt(ctl)),
            final(cdr).out@ == old(cdr).out@ + Self::emits(old(self).model(), old(cdr).ctx(), DriverOp::GetCtlInt(ctl)),
            final(cdr).ctx() == old(cdr).ctx(),
            Self::answers(old(self).model(), old(cdr).ctx(), DriverOp::GetCtlInt(ctl)) == DriverAnswer::Value(
                match v {
                    Some(x) => Some(x as int),
                    None => None,
                },
            ),
    ;

    fn setctl_int(&mut self, cdr: &mut CDriverRef, ctl: TickitTermCtl, value: i32) -> (ok: bool)
        ensures
            final(self).model() == Self::after(old(self).model(), old(cdr).ctx(), DriverOp::SetCtlInt(ctl, value as int)),
            final(cdr).out@ == old(cdr).out@ + Self::emits(old(self).model(), old(cdr).ctx(), DriverOp::SetCtlInt(ctl, value as int)),
            final(cdr).ctx() == old(cdr).ctx(),
            Self::answers(old(self).model(), old(cdr).ctx(), DriverOp::SetCtlInt(ctl, value as int))
                == DriverAnswer::Able(ok),
    ;

    fn setctl_str(&mut self, cdr: &mut CDriverRef, ctl: TickitTermCtl, value: &[u8]) -> (ok: bool)
        ensures
            final(self).model() == Self::after(old(self).model(), old(cdr).ctx(), DriverOp::SetCtlStr(ctl, value@)),
            final(cdr).out@ == old(cdr).out@ + Self::emits(old(self).model(), old(cdr).ctx(), DriverOp::SetCtlStr(ctl, value@)),
            final(cdr).ctx() == old(cdr).ctx(),
            Self::answers(old(self).model(), old(cdr).ctx(), DriverOp::SetCtlStr(ctl, value@))
                == DriverAnswer::Able(ok),
    ;

    /// Offers a decoded key to the driver before it becomes an event.
    /// Returns whether the driver took it for itself.
    fn gotkey(&mut self, cdr: &mut CDriverRef, key: &TermKeyEvent) -> (taken: bool)
        ensures
            final(self).model() == Self::after(old(self).model(), old(cdr).ctx(), DriverOp::GotKey(key@)),
            final(cdr).out@ == old(cdr).out@ + Self::emits(old(self).model(), old(cdr).ctx(), DriverOp::GotKey(key@)),
            final(cdr).ctx() == old(cdr).ctx(),
            Self::answers(old(self).model(), old(cdr).ctx(), DriverOp::GotKey(key@)) == DriverAnswer::Able(taken),
    ;
}

} // verus!
