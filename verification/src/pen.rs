//! Pens: bags of display attributes, each either unset or set to a
//! value, with change notification.

use vstd::prelude::*;
use vstd::string::StringSliceAdditionalSpecFns;
use crate::bytes::{bytes_eq, digits_value, has_prefix, is_number, parse_number, starts_with};
use crate::c;
use crate::c::{TickitEventType, TickitPenAttr, TickitPenAttrType};
use crate::event::{ids_for, without_id, Dispatch, EventView, Hook, HookList, TickitEvent};

verus! {

/// The attributes of a pen as plain values: `None` is unset, `Some` is
/// set, also where the value is the default.
#[derive(Clone, Copy, Debug, PartialEq, Eq)]
pub struct PenAttrs {
    pub fg: Option<i32>,
    pub bg: Option<i32>,
    pub bold: Option<bool>,
    pub under: Option<bool>,
    pub italic: Option<bool>,
    pub reverse: Option<bool>,
    pub strike: Option<bool>,
    pub altfont: Option<i32>,
}

/// A truth value as a number.
pub open spec fn bool_number(b: bool) -> int {
    if b {
        1
    } else {
        0
    }
}

/// The value of an optional number, -1 when there is none.
pub open spec fn number_or_unset(v: Option<i32>) -> int {
    match v {
        Some(n) => n as int,
        None => -1,
    }
}

/// The value of an optional truth value as a number, 0 when there is
/// none.
pub open spec fn flag_or_unset(v: Option<bool>) -> int {
    match v {
        Some(b) => bool_number(b),
        None => 0,
    }
}

impl PenAttrs {
    /// The pen with no attribute set.
    pub open spec fn unset() -> PenAttrs {
        PenAttrs {
            fg: None,
            bg: None,
            bold: None,
            under: None,
            italic: None,
            reverse: None,
            strike: None,
            altfont: None,
        }
    }

    /// Whether `attr` is set.
    pub open spec fn has(self, attr: TickitPenAttr) -> bool {
        match attr {
            TickitPenAttr::TICKIT_PEN_FG => self.fg is Some,
            TickitPenAttr::TICKIT_PEN_BG => self.bg is Some,
            TickitPenAttr::TICKIT_PEN_BOLD => self.bold is Some,
            TickitPenAttr::TICKIT_PEN_UNDER => self.under is Some,
            TickitPenAttr::TICKIT_PEN_ITALIC => self.italic is Some,
            TickitPenAttr::TICKIT_PEN_REVERSE => self.reverse is Some,
            TickitPenAttr::TICKIT_PEN_STRIKE => self.strike is Some,
            TickitPenAttr::TICKIT_PEN_ALTFONT => self.altfont is Some,
            TickitPenAttr::TICKIT_N_PEN_ATTRS => false,
        }
    }

    /// The value of `attr` as a number: a truth value as 0 or 1, an
    /// unset truth value as 0, an unset number or colour as -1.
    pub open spec fn number(self, attr: TickitPenAttr) -> int {
        match attr {
            TickitPenAttr::TICKIT_PEN_FG => number_or_unset(self.fg),
            TickitPenAttr::TICKIT_PEN_BG => number_or_unset(self.bg),
            TickitPenAttr::TICKIT_PEN_BOLD => flag_or_unset(self.bold),
            TickitPenAttr::TICKIT_PEN_UNDER => flag_or_unset(self.under),
            TickitPenAttr::TICKIT_PEN_ITALIC => flag_or_unset(self.italic),
            TickitPenAttr::TICKIT_PEN_REVERSE => flag_or_unset(self.reverse),
            TickitPenAttr::TICKIT_PEN_STRIKE => flag_or_unset(self.strike),
            TickitPenAttr::TICKIT_PEN_ALTFONT => number_or_unset(self.altfont),
            TickitPenAttr::TICKIT_N_PEN_ATTRS => -1,
        }
    }

    /// Whether `attr` is set to something other than its default: a
    /// truth value to true, a number to 0 or more, a colour to anything
    /// but -1.
    pub open spec fn nondefault(self, attr: TickitPenAttr) -> bool {
        self.has(attr) && match attr.kind() {
            TickitPenAttrType::TICKIT_PENTYPE_BOOL => self.number(attr) != 0,
            TickitPenAttrType::TICKIT_PENTYPE_INT => self.number(attr) > -1,
            TickitPenAttrType::TICKIT_PENTYPE_COLOUR => self.number(attr) != -1,
        }
    }

    /// Whether any attribute is set.
    pub open spec fn nonempty(self) -> bool {
        exists|i: int| 0 <= i < 8 && self.has(#[trigger] TickitPenAttr::at(i))
    }

    /// Whether any attribute is set to something other than its
    /// default.
    pub open spec fn any_nondefault(self) -> bool {
        exists|i: int| 0 <= i < 8 && self.nondefault(#[trigger] TickitPenAttr::at(i))
    }

    /// The pen with the truth-valued `attr` set to `val`; unchanged if
    /// `attr` holds no truth value.
    pub open spec fn with_flag(self, attr: TickitPenAttr, val: bool) -> PenAttrs {
        match attr {
            TickitPenAttr::TICKIT_PEN_BOLD => PenAttrs { bold: Some(val), ..self },
            TickitPenAttr::TICKIT_PEN_UNDER => PenAttrs { under: Some(val), ..self },
            TickitPenAttr::TICKIT_PEN_ITALIC => PenAttrs { italic: Some(val), ..self },
            TickitPenAttr::TICKIT_PEN_REVERSE => PenAttrs { reverse: Some(val), ..self },
            TickitPenAttr::TICKIT_PEN_STRIKE => PenAttrs { strike: Some(val), ..self },
            _ => self,
        }
    }

    /// The pen with the number-valued `attr` set to `val`; unchanged if
    /// `attr` holds no plain number.
    pub open spec fn with_number(self, attr: TickitPenAttr, val: i32) -> PenAttrs {
        match attr {
            TickitPenAttr::TICKIT_PEN_ALTFONT => PenAttrs { altfont: Some(val), ..self },
            _ => self,
        }
    }

    /// The pen with the colour-valued `attr` set to `val`; unchanged if
    /// `attr` holds no colour.
    pub open spec fn with_colour(self, attr: TickitPenAttr, val: i32) -> PenAttrs {
        match attr {
            TickitPenAttr::TICKIT_PEN_FG => PenAttrs { fg: Some(val), ..self },
            TickitPenAttr::TICKIT_PEN_BG => PenAttrs { bg: Some(val), ..self },
            _ => self,
        }
    }

    /// The pen with `attr` unset.
    pub open spec fn without(self, attr: TickitPenAttr) -> PenAttrs {
        match attr {
            TickitPenAttr::TICKIT_PEN_FG => PenAttrs { fg: None, ..self },
            TickitPenAttr::TICKIT_PEN_BG => PenAttrs { bg: None, ..self },
            TickitPenAttr::TICKIT_PEN_BOLD => PenAttrs { bold: None, ..self },
            TickitPenAttr::TICKIT_PEN_UNDER => PenAttrs { under: None, ..self },
            TickitPenAttr::TICKIT_PEN_ITALIC => PenAttrs { italic: None, ..self },
            TickitPenAttr::TICKIT_PEN_REVERSE => PenAttrs { reverse: None, ..self },
            TickitPenAttr::TICKIT_PEN_STRIKE => PenAttrs { strike: None, ..self },
            TickitPenAttr::TICKIT_PEN_ALTFONT => PenAttrs { altfont: None, ..self },
            TickitPenAttr::TICKIT_N_PEN_ATTRS => self,
        }
    }

    /// The pen with `attr` as it is in `src`, set or unset.
    pub open spec fn with_attr_of(self, src: PenAttrs, attr: TickitPenAttr) -> PenAttrs {
        match attr {
            TickitPenAttr::TICKIT_PEN_FG => PenAttrs { fg: src.fg, ..self },
            TickitPenAttr::TICKIT_PEN_BG => PenAttrs { bg: src.bg, ..self },
            TickitPenAttr::TICKIT_PEN_BOLD => PenAttrs { bold: src.bold, ..self },
            TickitPenAttr::TICKIT_PEN_UNDER => PenAttrs { under: src.under, ..self },
            TickitPenAttr::TICKIT_PEN_ITALIC => PenAttrs { italic: src.italic, ..self },
            TickitPenAttr::TICKIT_PEN_REVERSE => PenAttrs { reverse: src.reverse, ..self },
            TickitPenAttr::TICKIT_PEN_STRIKE => PenAttrs { strike: src.strike, ..self },
            TickitPenAttr::TICKIT_PEN_ALTFONT => PenAttrs { altfont: src.altfont, ..self },
            TickitPenAttr::TICKIT_N_PEN_ATTRS => self,
        }
    }

    /// Whether the two pens agree on `attr`: both leave it unset, or
    /// both set it to the same value.
    pub open spec fn agrees(self, b: PenAttrs, attr: TickitPenAttr) -> bool {
        self.has(attr) == b.has(attr) && (self.has(attr) ==> self.number(attr) == b.number(attr))
    }

    /// The value that copying takes for one attribute: that of `src`
    /// where `src` sets it and either `overwrite` holds or `dst` leaves
    /// it unset, else that of `dst`.
    pub open spec fn pick<T>(dst: Option<T>, src: Option<T>, overwrite: bool) -> Option<T> {
        if src is Some && (overwrite || dst is None) {
            src
        } else {
            dst
        }
    }

    /// The pen after copying the set attributes of `src` over it.
    pub open spec fn overlaid(self, src: PenAttrs, overwrite: bool) -> PenAttrs {
        PenAttrs {
            fg: Self::pick(self.fg, src.fg, overwrite),
            bg: Self::pick(self.bg, src.bg, overwrite),
            bold: Self::pick(self.bold, src.bold, overwrite),
            under: Self::pick(self.under, src.under, overwrite),
            italic: Self::pick(self.italic, src.italic, overwrite),
            reverse: Self::pick(self.reverse, src.reverse, overwrite),
            strike: Self::pick(self.strike, src.strike, overwrite),
            altfont: Self::pick(self.altfont, src.altfont, overwrite),
        }
    }

    pub fn new() -> (p: PenAttrs)
        ensures
            p == PenAttrs::unset(),
    {
        PenAttrs {
            fg: None,
            bg: None,
            bold: None,
            under: None,
            italic: None,
            reverse: None,
            strike: None,
            altfont: None,
        }
    }

    pub fn has_attr(&self, attr: TickitPenAttr) -> (r: bool)
        ensures
            r == self.has(attr),
    {
        match attr {
            TickitPenAttr::TICKIT_PEN_FG => self.fg.is_some(),
            TickitPenAttr::TICKIT_PEN_BG => self.bg.is_some(),
            TickitPenAttr::TICKIT_PEN_BOLD => self.bold.is_some(),
            TickitPenAttr::TICKIT_PEN_UNDER => self.under.is_some(),
            TickitPenAttr::TICKIT_PEN_ITALIC => self.italic.is_some(),
            TickitPenAttr::TICKIT_PEN_REVERSE => self.reverse.is_some(),
            TickitPenAttr::TICKIT_PEN_STRIKE => self.strike.is_some(),
            TickitPenAttr::TICKIT_PEN_ALTFONT => self.altfont.is_some(),
            TickitPenAttr::TICKIT_N_PEN_ATTRS => false,
        }
    }

    /// The value of `attr` as a number.
    pub fn get_number(&self, attr: TickitPenAttr) -> (v: i32)
        ensures
            v == self.number(attr),
    {
        match attr {
            TickitPenAttr::TICKIT_PEN_FG => number_of(self.fg),
            TickitPenAttr::TICKIT_PEN_BG => number_of(self.bg),
            TickitPenAttr::TICKIT_PEN_BOLD => flag_of(self.bold),
            TickitPenAttr::TICKIT_PEN_UNDER => flag_of(self.under),
            TickitPenAttr::TICKIT_PEN_ITALIC => flag_of(self.italic),
            TickitPenAttr::TICKIT_PEN_REVERSE => flag_of(self.reverse),
            TickitPenAttr::TICKIT_PEN_STRIKE => flag_of(self.strike),
            TickitPenAttr::TICKIT_PEN_ALTFONT => number_of(self.altfont),
            TickitPenAttr::TICKIT_N_PEN_ATTRS => -1,
        }
    }

    pub fn nondefault_attr(&self, attr: TickitPenAttr) -> (r: bool)
        ensures
            r == self.nondefault(attr),
    {
        if !self.has_attr(attr) {
            return false;
        }
        match attr.attrtype() {
            TickitPenAttrType::TICKIT_PENTYPE_BOOL => self.get_number(attr) != 0,
            TickitPenAttrType::TICKIT_PENTYPE_INT => self.get_number(attr) > -1,
            TickitPenAttrType::TICKIT_PENTYPE_COLOUR => self.get_number(attr) != -1,
        }
    }

    pub fn is_nonempty(&self) -> (r: bool)
        ensures
            r == self.nonempty(),
    {
        let mut i: usize = 0;
        while i < 8
            invariant
                i <= 8,
                forall|k: int| 0 <= k < i ==> !self.has(#[trigger] TickitPenAttr::at(k)),
            decreases 8 - i,
        {
            if self.has_attr(TickitPenAttr::from_index(i)) {
                return true;
            }
            i += 1;
        }
        false
    }

    pub fn is_nondefault(&self) -> (r: bool)
        ensures
            r == self.any_nondefault(),
    {
        let mut i: usize = 0;
        while i < 8
            invariant
                i <= 8,
                forall|k: int| 0 <= k < i ==> !self.nondefault(#[trigger] TickitPenAttr::at(k)),
            decreases 8 - i,
        {
            if self.nondefault_attr(TickitPenAttr::from_index(i)) {
                return true;
            }
            i += 1;
        }
        false
    }

    pub fn set_flag(&mut self, attr: TickitPenAttr, val: bool)
        ensures
            *final(self) == old(self).with_flag(attr, val),
    {
        match attr {
            TickitPenAttr::TICKIT_PEN_BOLD => self.bold = Some(val),
            TickitPenAttr::TICKIT_PEN_UNDER => self.under = Some(val),
            TickitPenAttr::TICKIT_PEN_ITALIC => self.italic = Some(val),
            TickitPenAttr::TICKIT_PEN_REVERSE => self.reverse = Some(val),
            TickitPenAttr::TICKIT_PEN_STRIKE => self.strike = Some(val),
            _ => {},
        }
    }

    pub fn set_number(&mut self, attr: TickitPenAttr, val: i32)
        ensures
            *final(self) == old(self).with_number(attr, val),
    {
        match attr {
            TickitPenAttr::TICKIT_PEN_ALTFONT => self.altfont = Some(val),
            _ => {},
        }
    }

    pub fn set_colour(&mut self, attr: TickitPenAttr, val: i32)
        ensures
            *final(self) == old(self).with_colour(attr, val),
    {
        match attr {
            TickitPenAttr::TICKIT_PEN_FG => self.fg = Some(val),
            TickitPenAttr::TICKIT_PEN_BG => self.bg = Some(val),
            _ => {},
        }
    }

    pub fn clear_attr(&mut self, attr: TickitPenAttr)
        ensures
            *final(self) == old(self).without(attr),
    {
        match attr {
            TickitPenAttr::TICKIT_PEN_FG => self.fg = None,
            TickitPenAttr::TICKIT_PEN_BG => self.bg = None,
            TickitPenAttr::TICKIT_PEN_BOLD => self.bold = None,
            TickitPenAttr::TICKIT_PEN_UNDER => self.under = None,
            TickitPenAttr::TICKIT_PEN_ITALIC => self.italic = None,
            TickitPenAttr::TICKIT_PEN_REVERSE => self.reverse = None,
            TickitPenAttr::TICKIT_PEN_STRIKE => self.strike = None,
            TickitPenAttr::TICKIT_PEN_ALTFONT => self.altfont = None,
            TickitPenAttr::TICKIT_N_PEN_ATTRS => {},
        }
    }

    pub fn copy_attr(&mut self, src: &PenAttrs, attr: TickitPenAttr)
        ensures
            *final(self) == old(self).with_attr_of(*src, attr),
    {
        match attr {
            TickitPenAttr::TICKIT_PEN_FG => self.fg = src.fg,
            TickitPenAttr::TICKIT_PEN_BG => self.bg = src.bg,
            TickitPenAttr::TICKIT_PEN_BOLD => self.bold = src.bold,
            TickitPenAttr::TICKIT_PEN_UNDER => self.under = src.under,
            TickitPenAttr::TICKIT_PEN_ITALIC => self.italic = src.italic,
            TickitPenAttr::TICKIT_PEN_REVERSE => self.reverse = src.reverse,
            TickitPenAttr::TICKIT_PEN_STRIKE => self.strike = src.strike,
            TickitPenAttr::TICKIT_PEN_ALTFONT => self.altfont = src.altfont,
            TickitPenAttr::TICKIT_N_PEN_ATTRS => {},
        }
    }

    pub fn equiv_attr(&self, b: &PenAttrs, attr: TickitPenAttr) -> (r: bool)
        ensures
            r == self.agrees(*b, attr),
    {
        let ha = self.has_attr(attr);
        let hb = b.has_attr(attr);
        if ha != hb {
            return false;
        }
        !ha || self.get_number(attr) == b.get_number(attr)
    }

    pub fn equiv(&self, b: &PenAttrs) -> (r: bool)
        ensures
            r == (*self == *b),
            r == (forall|i: int| 0 <= i < 8 ==> self.agrees(*b, #[trigger] TickitPenAttr::at(i))),
    {
        let mut i: usize = 0;
        while i < 8
            invariant
                i <= 8,
                forall|k: int| 0 <= k < i ==> self.agrees(*b, #[trigger] TickitPenAttr::at(k)),
            decreases 8 - i,
        {
            if !self.equiv_attr(b, TickitPenAttr::from_index(i)) {
                proof {
                    lemma_agree_all(*self, *b);
                }
                return false;
            }
            i += 1;
        }
        proof {
            lemma_agree_all(*self, *b);
        }
        true
    }

    /// Copies the attributes that `src` sets; with `overwrite` false,
    /// only those that `self` leaves unset.
    pub fn copy(&mut self, src: &PenAttrs, overwrite: bool)
        ensures
            *final(self) == old(self).overlaid(*src, overwrite),
    {
        if src.fg.is_some() && (overwrite || self.fg.is_none()) {
            self.fg = src.fg;
        }
        if src.bg.is_some() && (overwrite || self.bg.is_none()) {
            self.bg = src.bg;
        }
        if src.bold.is_some() && (overwrite || self.bold.is_none()) {
            self.bold = src.bold;
        }
        if src.under.is_some() && (overwrite || self.under.is_none()) {
            self.under = src.under;
        }
        if src.italic.is_some() && (overwrite || self.italic.is_none()) {
            self.italic = src.italic;
        }
        if src.reverse.is_some() && (overwrite || self.reverse.is_none()) {
            self.reverse = src.reverse;
        }
        if src.strike.is_some() && (overwrite || self.strike.is_none()) {
            self.strike = src.strike;
        }
        if src.altfont.is_some() && (overwrite || self.altfont.is_none()) {
            self.altfont = src.altfont;
        }
    }
}

fn number_of(v: Option<i32>) -> (n: i32)
    ensures
        n == number_or_unset(v),
{
    match v {
        Some(n) => n,
        None => -1,
    }
}

fn flag_of(v: Option<bool>) -> (n: i32)
    ensures
        n == flag_or_unset(v),
{
    match v {
        Some(true) => 1,
        _ => 0,
    }
}

/// Two pens are the same exactly when they agree on every attribute.
pub proof fn lemma_agree_all(a: PenAttrs, b: PenAttrs)
    ensures
        (a == b) <==> (forall|i: int| 0 <= i < 8 ==> a.agrees(b, #[trigger] TickitPenAttr::at(i))),
{
    if forall|i: int| 0 <= i < 8 ==> a.agrees(b, #[trigger] TickitPenAttr::at(i)) {
        assert(a.agrees(b, TickitPenAttr::at(0)));
        assert(a.agrees(b, TickitPenAttr::at(1)));
        assert(a.agrees(b, TickitPenAttr::at(2)));
        assert(a.agrees(b, TickitPenAttr::at(3)));
        assert(a.agrees(b, TickitPenAttr::at(4)));
        assert(a.agrees(b, TickitPenAttr::at(5)));
        assert(a.agrees(b, TickitPenAttr::at(6)));
        assert(a.agrees(b, TickitPenAttr::at(7)));
    }
}

/// After the set attributes of `src` were copied over `dst` with
/// overwriting, the two pens agree on every attribute that `src` sets,
/// and `dst` keeps every attribute that `src` leaves unset.
pub proof fn lemma_copy_then_equiv(dst: PenAttrs, src: PenAttrs, attr: TickitPenAttr)
    ensures
        src.has(attr) ==> dst.overlaid(src, true).agrees(src, attr),
        !src.has(attr) ==> dst.overlaid(src, true).has(attr) == dst.has(attr) && dst.overlaid(
            src,
            true,
        ).number(attr) == dst.number(attr),
{
}

/// After the set attributes of `src` were copied over a pen that sets
/// no attribute but those that `src` sets, the two pens are the same.
pub proof fn lemma_copy_round_trip(dst: PenAttrs, src: PenAttrs)
    requires
        forall|i: int| 0 <= i < 8 && dst.has(#[trigger] TickitPenAttr::at(i)) ==> src.has(
            TickitPenAttr::at(i),
        ),
    ensures
        dst.overlaid(src, true) == src,
        forall|attr: TickitPenAttr| dst.overlaid(src, true).agrees(src, attr),
{
    assert(dst.has(TickitPenAttr::at(0)) ==> src.has(TickitPenAttr::at(0)));
    assert(dst.has(TickitPenAttr::at(1)) ==> src.has(TickitPenAttr::at(1)));
    assert(dst.has(TickitPenAttr::at(2)) ==> src.has(TickitPenAttr::at(2)));
    assert(dst.has(TickitPenAttr::at(3)) ==> src.has(TickitPenAttr::at(3)));
    assert(dst.has(TickitPenAttr::at(4)) ==> src.has(TickitPenAttr::at(4)));
    assert(dst.has(TickitPenAttr::at(5)) ==> src.has(TickitPenAttr::at(5)));
    assert(dst.has(TickitPenAttr::at(6)) ==> src.has(TickitPenAttr::at(6)));
    assert(dst.has(TickitPenAttr::at(7)) ==> src.has(TickitPenAttr::at(7)));
}

} // verus!

verus! {

/// The colour that the name `name` stands for: the eight basic colours
/// by their English names.
pub open spec fn named_colour(name: Seq<u8>) -> Option<int> {
    if name == "black".spec_bytes() {
        Some(0)
    } else if name == "red".spec_bytes() {
        Some(1)
    } else if name == "green".spec_bytes() {
        Some(2)
    } else if name == "yellow".spec_bytes() {
        Some(3)
    } else if name == "blue".spec_bytes() {
        Some(4)
    } else if name == "magenta".spec_bytes() {
        Some(5)
    } else if name == "cyan".spec_bytes() {
        Some(6)
    } else if name == "white".spec_bytes() {
        Some(7)
    } else {
        None
    }
}

/// The colour that a description stands for, if any. A description is
/// a number of one to nine digits or the name of a basic colour,
/// either of them optionally behind `hi-`, which adds 8 and takes only
/// the colours 0 to 7.
pub open spec fn colour_of_desc(desc: Seq<u8>) -> Option<int> {
    let hi = has_prefix(desc, "hi-".spec_bytes());
    let rest = if hi {
        desc.subrange("hi-".spec_bytes().len() as int, desc.len() as int)
    } else {
        desc
    };
    let base = if is_number(rest) {
        Some(digits_value(rest) as int)
    } else {
        named_colour(rest)
    };
    match base {
        Some(v) => if hi {
            if v > 7 {
                None
            } else {
                Some(v + 8)
            }
        } else {
            Some(v)
        },
        None => None,
    }
}

fn colour_by_name(name: &[u8]) -> (r: Option<i32>)
    ensures
        r is Some <==> named_colour(name@) is Some,
        r matches Some(v) ==> named_colour(name@) == Some(v as int),
{
    if bytes_eq(name, "black".as_bytes()) {
        Some(0)
    } else if bytes_eq(name, "red".as_bytes()) {
        Some(1)
    } else if bytes_eq(name, "green".as_bytes()) {
        Some(2)
    } else if bytes_eq(name, "yellow".as_bytes()) {
        Some(3)
    } else if bytes_eq(name, "blue".as_bytes()) {
        Some(4)
    } else if bytes_eq(name, "magenta".as_bytes()) {
        Some(5)
    } else if bytes_eq(name, "cyan".as_bytes()) {
        Some(6)
    } else if bytes_eq(name, "white".as_bytes()) {
        Some(7)
    } else {
        None
    }
}

/// Reads a colour description.
pub fn parse_colour_desc(desc: &[u8]) -> (r: Option<i32>)
    ensures
        r is Some <==> colour_of_desc(desc@) is Some,
        r matches Some(v) ==> colour_of_desc(desc@) == Some(v as int),
{
    let prefix = "hi-".as_bytes();
    let hi = starts_with(desc, prefix);
    let rest = if hi {
        vstd::slice::slice_subrange(desc, prefix.len(), desc.len())
    } else {
        desc
    };
    let base = match parse_number(rest) {
        Some(n) => {
            proof {
                crate::bytes::lemma_number_bound(rest@);
            }
            Some(n as i32)
        },
        None => colour_by_name(rest),
    };
    match base {
        Some(v) => if hi {
            if v > 7 {
                None
            } else {
                Some(v + 8)
            }
        } else {
            Some(v)
        },
        None => None,
    }
}

/// The calls owed for one event: one to each of `ids`, in order.
pub open spec fn calls_to(ids: Seq<i32>, event: EventView) -> Seq<(i32, EventView)> {
    Seq::new(ids.len(), |i: int| (ids[i], event))
}

/// The calls that `pending` holds, as plain values.
pub open spec fn calls_of(pending: Seq<Dispatch>) -> Seq<(i32, EventView)> {
    Seq::new(pending.len(), |i: int| (pending[i].id, pending[i].event@))
}

/// A pen: a bag of attributes with the handlers bound to it and the
/// calls that it owes them.
pub struct TickitPen {
    attrs: PenAttrs,
    hooks: HookList,
    events: Vec<Dispatch>,
}

impl View for TickitPen {
    type V = PenAttrs;

    closed spec fn view(&self) -> PenAttrs {
        self.attrs
    }
}

impl TickitPen {
    /// The handlers bound to the pen, oldest first.
    pub closed spec fn hooks(&self) -> Seq<Hook> {
        self.hooks@
    }

    /// The calls owed to handlers and not yet taken, oldest first.
    pub closed spec fn pending(&self) -> Seq<(i32, EventView)> {
        calls_of(self.events@)
    }

    /// The id that the next binding gets.
    pub closed spec fn next_id(&self) -> int {
        self.hooks.next()
    }

    /// The handler list is in order.
    pub closed spec fn wf(&self) -> bool {
        self.hooks.wf()
    }

    /// The calls that a change of the pen adds: one change event to each
    /// handler bound for changes, oldest first.
    pub open spec fn change_calls(&self) -> Seq<(i32, EventView)> {
        calls_to(
            ids_for(self.hooks(), TickitEventType { bits: c::TICKIT_EV_CHANGE }),
            EventView::Change,
        )
    }

    pub fn new() -> (p: TickitPen)
        ensures
            p.wf(),
            p@ == PenAttrs::unset(),
            p.hooks() == Seq::<Hook>::empty(),
            p.pending() == Seq::<(i32, EventView)>::empty(),
            p.next_id() == 0,
    {
        let p = TickitPen { attrs: PenAttrs::new(), hooks: HookList::new(), events: Vec::new() };
        assert(p.pending() =~= Seq::empty());
        p
    }

    /// A pen with the given attributes and no handlers.
    pub fn from_attrs(attrs: PenAttrs) -> (p: TickitPen)
        ensures
            p.wf(),
            p@ == attrs,
            p.hooks() == Seq::<Hook>::empty(),
            p.pending() == Seq::<(i32, EventView)>::empty(),
            p.next_id() == 0,
    {
        let p = TickitPen { attrs, hooks: HookList::new(), events: Vec::new() };
        assert(p.pending() =~= Seq::empty());
        p
    }

    /// The attributes as plain values.
    pub fn attrs(&self) -> (a: PenAttrs)
        ensures
            a == self@,
    {
        self.attrs
    }

    /// Owes a change event to each handler bound for changes.
    fn notify_change(&mut self)
        ensures
            final(self).wf() == old(self).wf(),
            final(self)@ == old(self)@,
            final(self).hooks() == old(self).hooks(),
            final(self).next_id() == old(self).next_id(),
            final(self).pending() == old(self).pending() + old(self).change_calls(),
    {
        let ids = self.hooks.matching(TickitEventType::from_bits(c::TICKIT_EV_CHANGE));
        let mut i: usize = 0;
        while i < ids.len()
            invariant
                i <= ids.len(),
                self.attrs == old(self).attrs,
                self.hooks == old(self).hooks,
                calls_of(self.events@) == calls_of(old(self).events@) + calls_to(
                    ids@.subrange(0, i as int),
                    EventView::Change,
                ),
            decreases ids.len() - i,
        {
            let ghost prev = self.events@;
            let d = Dispatch { id: ids[i], event: TickitEvent::ChangeEvent };
            assert(d.event@ == EventView::Change);
            self.events.push(d);
            i += 1;
            assert(self.events@ == prev.push(d));
            assert(calls_of(prev.push(d)) =~= calls_of(prev).push((d.id, d.event@)));
            assert(calls_to(ids@.subrange(0, i as int), EventView::Change) =~= calls_to(
                ids@.subrange(0, i as int - 1),
                EventView::Change,
            ).push((d.id, EventView::Change)));
            assert(calls_of(self.events@) =~= calls_of(old(self).events@) + calls_to(
                ids@.subrange(0, i as int),
                EventView::Change,
            ));
        }
        assert(ids@.subrange(0, ids@.len() as int) =~= ids@);
    }

    /// Binds a handler for the classes of `ev` and returns its id; when
    /// all ids have been given out, binds nothing and returns -1.
    pub fn bind_event(&mut self, ev: TickitEventType) -> (id: i32)
        requires
            old(self).wf(),
        ensures
            final(self).wf(),
            final(self)@ == old(self)@,
            final(self).pending() == old(self).pending(),
            old(self).next_id() < i32::MAX ==> id == old(self).next_id() && final(self).hooks()
                == old(self).hooks().push(Hook { id, ev }) && final(self).next_id() == id + 1,
            old(self).next_id() == i32::MAX ==> id == -1 && final(self).hooks() == old(
                self,
            ).hooks() && final(self).next_id() == old(self).next_id(),
    {
        self.hooks.bind(ev)
    }

    /// Unbinds the handler with the id `id`. A handler that asked to be
    /// told of its unbinding is owed one last call, with the unbind
    /// event.
    pub fn unbind_event_id(&mut self, id: i32)
        requires
            old(self).wf(),
        ensures
            final(self).wf(),
            final(self)@ == old(self)@,
            final(self).hooks() == without_id(old(self).hooks(), id),
            final(self).next_id() == old(self).next_id(),
            final(self).pending() == if crate::event::wants_unbind(old(self).hooks(), id) {
                old(self).pending().push((id, EventView::Unbind))
            } else {
                old(self).pending()
            },
    {
        let notify = self.hooks.unbind(id);
        if notify {
            self.events.push(Dispatch { id, event: TickitEvent::UnbindEvent });
            assert(calls_of(self.events@) =~= calls_of(old(self).events@).push(
                (id, EventView::Unbind),
            ));
        }
    }

    /// Hands over the calls owed to handlers, oldest first, and forgets
    /// them.
    pub fn take_events(&mut self) -> (calls: Vec<Dispatch>)
        requires
            old(self).wf(),
        ensures
            final(self).wf(),
            final(self)@ == old(self)@,
            final(self).hooks() == old(self).hooks(),
            final(self).next_id() == old(self).next_id(),
            calls_of(calls@) == old(self).pending(),
            final(self).pending() == Seq::<(i32, EventView)>::empty(),
    {
        let mut calls: Vec<Dispatch> = Vec::new();
        core::mem::swap(&mut self.events, &mut calls);
        assert(self.pending() =~= Seq::empty());
        calls
    }

    pub fn has_attr(&self, attr: TickitPenAttr) -> (r: bool)
        ensures
            r == self@.has(attr),
    {
        self.attrs.has_attr(attr)
    }

    pub fn is_nonempty(&self) -> (r: bool)
        ensures
            r == self@.nonempty(),
    {
        self.attrs.is_nonempty()
    }

    pub fn nondefault_attr(&self, attr: TickitPenAttr) -> (r: bool)
        ensures
            r == self@.nondefault(attr),
    {
        self.attrs.nondefault_attr(attr)
    }

    pub fn is_nondefault(&self) -> (r: bool)
        ensures
            r == self@.any_nondefault(),
    {
        self.attrs.is_nondefault()
    }

    /// The truth value of `attr`; false where it is unset or holds no
    /// truth value.
    pub fn get_bool_attr(&self, attr: TickitPenAttr) -> (r: bool)
        ensures
            r == (attr.is_attr() && attr.kind() == TickitPenAttrType::TICKIT_PENTYPE_BOOL
                && self@.number(attr) == 1),
    {
        if !attr.is_attribute() {
            return false;
        }
        match attr.attrtype() {
            TickitPenAttrType::TICKIT_PENTYPE_BOOL => self.attrs.get_number(attr) == 1,
            _ => false,
        }
    }

    /// Sets the truth-valued `attr`; an `attr` of another kind is left
    /// alone and nobody is told.
    pub fn set_bool_attr(&mut self, attr: TickitPenAttr, val: bool)
        requires
            old(self).wf(),
        ensures
            final(self).wf(),
            final(self)@ == old(self)@.with_flag(attr, val),
            final(self).hooks() == old(self).hooks(),
            final(self).next_id() == old(self).next_id(),
            final(self).pending() == if attr.is_attr() && attr.kind()
                == TickitPenAttrType::TICKIT_PENTYPE_BOOL {
                old(self).pending() + old(self).change_calls()
            } else {
                old(self).pending()
            },
    {
        if !attr.is_attribute() {
            return ;
        }
        match attr.attrtype() {
            TickitPenAttrType::TICKIT_PENTYPE_BOOL => {
                self.attrs.set_flag(attr, val);
                self.notify_change();
            },
            _ => {},
        }
    }

    pub fn maybe_get_bool_attr(&self, attr: TickitPenAttr) -> (r: Option<bool>)
        ensures
            r is Some <==> self@.has(attr),
            r matches Some(b) ==> b == (attr.kind() == TickitPenAttrType::TICKIT_PENTYPE_BOOL
                && self@.number(attr) == 1),
    {
        if self.has_attr(attr) {
            Some(self.get_bool_attr(attr))
        } else {
            None
        }
    }

    pub fn with_bool_attr(self, attr: TickitPenAttr, val: bool) -> (p: TickitPen)
        requires
            self.wf(),
        ensures
            p.wf(),
            p@ == self@.with_flag(attr, val),
            p.hooks() == self.hooks(),
            p.next_id() == self.next_id(),
            p.pending() == if attr.is_attr() && attr.kind()
                == TickitPenAttrType::TICKIT_PENTYPE_BOOL {
                self.pending() + self.change_calls()
            } else {
                self.pending()
            },
    {
        let mut p = self;
        p.set_bool_attr(attr, val);
        p
    }

    /// The number of `attr`; -1 where it is unset or holds no plain
    /// number.
    pub fn get_int_attr(&self, attr: TickitPenAttr) -> (r: i32)
        ensures
            r == if attr.is_attr() && attr.kind() == TickitPenAttrType::TICKIT_PENTYPE_INT {
                self@.number(attr)
            } else {
                -1
            },
    {
        if !attr.is_attribute() {
            return -1;
        }
        match attr.attrtype() {
            TickitPenAttrType::TICKIT_PENTYPE_INT => self.attrs.get_number(attr),
            _ => -1,
        }
    }

    /// Sets the number-valued `attr`; an `attr` of another kind is left
    /// alone and nobody is told.
    pub fn set_int_attr(&mut self, attr: TickitPenAttr, val: i32)
        requires
            old(self).wf(),
        ensures
            final(self).wf(),
            final(self)@ == old(self)@.with_number(attr, val),
            final(self).hooks() == old(self).hooks(),
            final(self).next_id() == old(self).next_id(),
            final(self).pending() == if attr.is_attr() && attr.kind()
                == TickitPenAttrType::TICKIT_PENTYPE_INT {
                old(self).pending() + old(self).change_calls()
            } else {
                old(self).pending()
            },
    {
        if !attr.is_attribute() {
            return ;
        }
        match attr.attrtype() {
            TickitPenAttrType::TICKIT_PENTYPE_INT => {
                self.attrs.set_number(attr, val);
                self.notify_change();
            },
            _ => {},
        }
    }

    pub fn maybe_get_int_attr(&self, attr: TickitPenAttr) -> (r: Option<i32>)
        ensures
            r is Some <==> self@.has(attr),
            r matches Some(v) ==> v == if attr.kind() == TickitPenAttrType::TICKIT_PENTYPE_INT {
                self@.number(attr)
            } else {
                -1
            },
    {
        if self.has_attr(attr) {
            Some(self.get_int_attr(attr))
        } else {
            None
        }
    }

    pub fn with_int_attr(self, attr: TickitPenAttr, val: i32) -> (p: TickitPen)
        requires
            self.wf(),
        ensures
            p.wf(),
            p@ == self@.with_number(attr, val),
            p.hooks() == self.hooks(),
            p.next_id() == self.next_id(),
            p.pending() == if attr.is_attr() && attr.kind()
                == TickitPenAttrType::TICKIT_PENTYPE_INT {
                self.pending() + self.change_calls()
            } else {
                self.pending()
            },
    {
        let mut p = self;
        p.set_int_attr(attr, val);
        p
    }

    /// The colour of `attr`; -1 where it is unset or holds no colour.
    pub fn get_colour_attr(&self, attr: TickitPenAttr) -> (r: i32)
        ensures
            r == if attr.is_attr() && attr.kind() == TickitPenAttrType::TICKIT_PENTYPE_COLOUR {
                self@.number(attr)
            } else {
                -1
            },
    {
        if !attr.is_attribute() {
            return -1;
        }
        match attr.attrtype() {
            TickitPenAttrType::TICKIT_PENTYPE_COLOUR => self.attrs.get_number(attr),
            _ => -1,
        }
    }

    pub fn maybe_get_colour_attr(&self, attr: TickitPenAttr) -> (r: Option<i32>)
        ensures
            r is Some <==> self@.has(attr),
            r matches Some(v) ==> v == if attr.kind()
                == TickitPenAttrType::TICKIT_PENTYPE_COLOUR {
                self@.number(attr)
            } else {
                -1
            },
    {
        if self.has_attr(attr) {
            Some(self.get_colour_attr(attr))
        } else {
            None
        }
    }

    /// Sets the colour-valued `attr`; an `attr` of another kind is left
    /// alone and nobody is told.
    pub fn set_colour_attr(&mut self, attr: TickitPenAttr, value: i32)
        requires
            old(self).wf(),
        ensures
            final(self).wf(),
            final(self)@ == old(self)@.with_colour(attr, value),
            final(self).hooks() == old(self).hooks(),
            final(self).next_id() == old(self).next_id(),
            final(self).pending() == if attr.is_attr() && attr.kind()
                == TickitPenAttrType::TICKIT_PENTYPE_COLOUR {
                old(self).pending() + old(self).change_calls()
            } else {
                old(self).pending()
            },
    {
        if !attr.is_attribute() {
            return ;
        }
        match attr.attrtype() {
            TickitPenAttrType::TICKIT_PENTYPE_COLOUR => {
                self.attrs.set_colour(attr, value);
                self.notify_change();
            },
            _ => {},
        }
    }

    pub fn with_colour_attr(self, attr: TickitPenAttr, val: i32) -> (p: TickitPen)
        requires
            self.wf(),
        ensures
            p.wf(),
            p@ == self@.with_colour(attr, val),
            p.hooks() == self.hooks(),
            p.next_id() == self.next_id(),
            p.pending() == if attr.is_attr() && attr.kind()
                == TickitPenAttrType::TICKIT_PENTYPE_COLOUR {
                self.pending() + self.change_calls()
            } else {
                self.pending()
            },
    {
        let mut p = self;
        p.set_colour_attr(attr, val);
        p
    }

    /// Sets the colour-valued `attr` from a description. Returns false,
    /// with the pen as it was and nobody told, where the description
    /// stands for no colour or `attr` holds no colour.
    pub fn set_colour_attr_desc(&mut self, attr: TickitPenAttr, value: &str) -> (ok: bool)
        requires
            old(self).wf(),
        ensures
            final(self).wf(),
            final(self).hooks() == old(self).hooks(),
            final(self).next_id() == old(self).next_id(),
            ok == (colour_of_desc(value.spec_bytes()) is Some && attr.is_attr() && attr.kind()
                == TickitPenAttrType::TICKIT_PENTYPE_COLOUR),
            ok ==> final(self)@ == old(self)@.with_colour(
                attr,
                colour_of_desc(value.spec_bytes())->0 as i32,
            ) && final(self).pending() == old(self).pending() + old(self).change_calls(),
            !ok ==> final(self)@ == old(self)@ && final(self).pending() == old(self).pending(),
    {
        if !attr.is_attribute() {
            return false;
        }
        match attr.attrtype() {
            TickitPenAttrType::TICKIT_PENTYPE_COLOUR => {},
            _ => {
                return false;
            },
        }
        match parse_colour_desc(value.as_bytes()) {
            Some(v) => {
                self.set_colour_attr(attr, v);
                true
            },
            None => false,
        }
    }

    /// Unsets `attr`.
    pub fn clear_attr(&mut self, attr: TickitPenAttr)
        requires
            old(self).wf(),
        ensures
            final(self).wf(),
            final(self)@ == old(self)@.without(attr),
            final(self).hooks() == old(self).hooks(),
            final(self).next_id() == old(self).next_id(),
            final(self).pending() == if attr.is_attr() {
                old(self).pending() + old(self).change_calls()
            } else {
                old(self).pending()
            },
    {
        if !attr.is_attribute() {
            return ;
        }
        self.attrs.clear_attr(attr);
        self.notify_change();
    }

    /// Unsets every attribute.
    pub fn clear(&mut self)
        requires
            old(self).wf(),
        ensures
            final(self).wf(),
            final(self)@ == PenAttrs::unset(),
            final(self).hooks() == old(self).hooks(),
            final(self).next_id() == old(self).next_id(),
            final(self).pending() == old(self).pending() + old(self).change_calls(),
    {
        self.attrs = PenAttrs::new();
        self.notify_change();
    }

    pub fn equiv_attr(&self, b: &TickitPen, attr: TickitPenAttr) -> (r: bool)
        ensures
            r == self@.agrees(b@, attr),
    {
        self.attrs.equiv_attr(&b.attrs, attr)
    }

    pub fn equiv(&self, b: &TickitPen) -> (r: bool)
        ensures
            r == (self@ == b@),
            r == (forall|i: int| 0 <= i < 8 ==> self@.agrees(b@, #[trigger] TickitPenAttr::at(i))),
    {
        self.attrs.equiv(&b.attrs)
    }

    /// Makes `attr` what it is in `src`, set or unset.
    pub fn copy_attr(&mut self, src: &TickitPen, attr: TickitPenAttr)
        requires
            old(self).wf(),
        ensures
            final(self).wf(),
            final(self)@ == old(self)@.with_attr_of(src@, attr),
            final(self).hooks() == old(self).hooks(),
            final(self).next_id() == old(self).next_id(),
            final(self).pending() == if attr.is_attr() {
                old(self).pending() + old(self).change_calls()
            } else {
                old(self).pending()
            },
    {
        if !attr.is_attribute() {
            return ;
        }
        self.attrs.copy_attr(&src.attrs, attr);
        self.notify_change();
    }

    /// Copies the attributes that `src` sets; with `overwrite` false,
    /// only those that `self` leaves unset. Handlers are told once if
    /// the pen is not as it was.
    pub fn copy(&mut self, src: &TickitPen, overwrite: bool)
        requires
            old(self).wf(),
        ensures
            final(self).wf(),
            final(self)@ == old(self)@.overlaid(src@, overwrite),
            final(self).hooks() == old(self).hooks(),
            final(self).next_id() == old(self).next_id(),
            final(self).pending() == if final(self)@ != old(self)@ {
                old(self).pending() + old(self).change_calls()
            } else {
                old(self).pending()
            },
    {
        let before = self.attrs;
        self.attrs.copy(&src.attrs, overwrite);
        if !before.equiv(&self.attrs) {
            self.notify_change();
        }
    }
}

impl Clone for TickitPen {
    /// A new pen with the same attributes, no handlers and nothing
    /// owed.
    fn clone(&self) -> (p: TickitPen)
        ensures
            p.wf(),
            p@ == self@,
            p.hooks() == Seq::<Hook>::empty(),
            p.pending() == Seq::<(i32, EventView)>::empty(),
            p.next_id() == 0,
    {
        TickitPen::from_attrs(self.attrs)
    }

    /// Copies the attributes that `other` sets over those of the pen.
    /// Handlers are told once if the pen is not as it was.
    fn clone_from(&mut self, other: &TickitPen)
        ensures
            final(self).wf() == old(self).wf(),
            final(self)@ == old(self)@.overlaid(other@, true),
            final(self).hooks() == old(self).hooks(),
            final(self).next_id() == old(self).next_id(),
            final(self).pending() == if final(self)@ != old(self)@ {
                old(self).pending() + old(self).change_calls()
            } else {
                old(self).pending()
            },
    {
        let before = self.attrs;
        self.attrs.copy(&other.attrs, true);
        if !before.equiv(&self.attrs) {
            self.notify_change();
        }
    }
}

} // verus!
