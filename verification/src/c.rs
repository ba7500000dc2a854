//! The plain enumerations, flag sets and records that the rest of the
//! library talks in.

use vstd::prelude::*;
use vstd::string::StringSliceAdditionalSpecFns;
use crate::bytes::bytes_eq;

pub use self::TickitPenAttr::{
    TICKIT_N_PEN_ATTRS, TICKIT_PEN_ALTFONT, TICKIT_PEN_BG, TICKIT_PEN_BOLD, TICKIT_PEN_FG,
    TICKIT_PEN_ITALIC, TICKIT_PEN_REVERSE, TICKIT_PEN_STRIKE, TICKIT_PEN_UNDER,
};
pub use self::TickitPenAttrType::{
    TICKIT_PENTYPE_BOOL, TICKIT_PENTYPE_COLOUR, TICKIT_PENTYPE_INT,
};
pub use self::TickitKeyEventType::{TICKIT_KEYEV_KEY, TICKIT_KEYEV_TEXT};
pub use self::TickitMouseEventType::{
    TICKIT_MOUSEEV_DRAG, TICKIT_MOUSEEV_PRESS, TICKIT_MOUSEEV_RELEASE, TICKIT_MOUSEEV_WHEEL,
};
pub use self::X_Tickit_MouseWheel::{TICKIT_MOUSEWHEEL_DOWN, TICKIT_MOUSEWHEEL_UP};
pub use self::TickitTermCtl::{
    TICKIT_TERMCTL_ALTSCREEN, TICKIT_TERMCTL_COLORS, TICKIT_TERMCTL_CURSORBLINK,
    TICKIT_TERMCTL_CURSORSHAPE, TICKIT_TERMCTL_CURSORVIS, TICKIT_TERMCTL_ICONTITLE_TEXT,
    TICKIT_TERMCTL_ICON_TEXT, TICKIT_TERMCTL_KEYPAD_APP, TICKIT_TERMCTL_MOUSE,
    TICKIT_TERMCTL_TITLE_TEXT,
};
pub use self::TickitTermMouseMode::{
    TICKIT_TERM_MOUSEMODE_CLICK, TICKIT_TERM_MOUSEMODE_DRAG, TICKIT_TERM_MOUSEMODE_MOVE,
    TICKIT_TERM_MOUSEMODE_OFF,
};
pub use self::TickitTermCursorShape::{
    TICKIT_TERM_CURSORSHAPE_BLOCK, TICKIT_TERM_CURSORSHAPE_LEFT_BAR,
    TICKIT_TERM_CURSORSHAPE_UNDER,
};
pub use self::TickitLineStyle::{
    TICKIT_LINE_DOUBLE, TICKIT_LINE_SINGLE, TICKIT_LINE_THICK, X_TICKIT_LINE_NONE,
};

verus! {

/// Event class: the terminal was resized.
pub const TICKIT_EV_RESIZE: u32 = 0x01;

/// Event class: a key was pressed.
pub const TICKIT_EV_KEY: u32 = 0x02;

/// Event class: a mouse button or wheel was used.
pub const TICKIT_EV_MOUSE: u32 = 0x04;

/// Event class: a pen was changed.
pub const TICKIT_EV_CHANGE: u32 = 0x08;

/// Event class: the handler is being unbound.
pub const TICKIT_EV_UNBIND: u32 = 0x80000000;

/// A set of event classes, one bit each.
#[derive(Clone, Copy, Debug, PartialEq, Eq, Structural)]
pub struct TickitEventType {
    pub bits: u32,
}

impl TickitEventType {
    pub fn from_bits(bits: u32) -> (r: TickitEventType)
        ensures
            r.bits == bits,
    {
        TickitEventType { bits }
    }

    /// Whether the two sets share an event class.
    pub open spec fn meets(self, other: TickitEventType) -> bool {
        self.bits & other.bits != 0
    }

    pub fn intersects(&self, other: TickitEventType) -> (r: bool)
        ensures
            r == self.meets(other),
    {
        self.bits & other.bits != 0
    }

    /// The set with the classes of both.
    pub fn union(&self, other: TickitEventType) -> (r: TickitEventType)
        ensures
            r.bits == self.bits | other.bits,
    {
        TickitEventType { bits: self.bits | other.bits }
    }
}

#[allow(non_camel_case_types)]
#[derive(Clone, Copy, Debug, PartialEq, Eq, Structural)]
pub enum TickitKeyEventType {
    TICKIT_KEYEV_KEY,
    TICKIT_KEYEV_TEXT,
}

impl TickitKeyEventType {
    /// The number that stands for the kind in a raw event record.
    pub open spec fn code(self) -> int {
        match self {
            TickitKeyEventType::TICKIT_KEYEV_KEY => 1,
            TickitKeyEventType::TICKIT_KEYEV_TEXT => 2,
        }
    }

    pub fn value(self) -> (v: i32)
        ensures
            v == self.code(),
    {
        match self {
            TickitKeyEventType::TICKIT_KEYEV_KEY => 1,
            TickitKeyEventType::TICKIT_KEYEV_TEXT => 2,
        }
    }

    pub fn from_value(v: i32) -> (r: Option<TickitKeyEventType>)
        ensures
            r matches Some(k) ==> k.code() == v,
            r is None <==> !(1 <= v <= 2),
    {
        if v == 1 {
            Some(TickitKeyEventType::TICKIT_KEYEV_KEY)
        } else if v == 2 {
            Some(TickitKeyEventType::TICKIT_KEYEV_TEXT)
        } else {
            None
        }
    }
}

#[allow(non_camel_case_types)]
#[derive(Clone, Copy, Debug, PartialEq, Eq, Structural)]
pub enum TickitMouseEventType {
    TICKIT_MOUSEEV_PRESS,
    TICKIT_MOUSEEV_DRAG,
    TICKIT_MOUSEEV_RELEASE,
    TICKIT_MOUSEEV_WHEEL,
}

impl TickitMouseEventType {
    /// The number that stands for the kind in a raw event record.
    pub open spec fn code(self) -> int {
        match self {
            TickitMouseEventType::TICKIT_MOUSEEV_PRESS => 1,
            TickitMouseEventType::TICKIT_MOUSEEV_DRAG => 2,
            TickitMouseEventType::TICKIT_MOUSEEV_RELEASE => 3,
            TickitMouseEventType::TICKIT_MOUSEEV_WHEEL => 4,
        }
    }

    pub fn value(self) -> (v: i32)
        ensures
            v == self.code(),
    {
        match self {
            TickitMouseEventType::TICKIT_MOUSEEV_PRESS => 1,
            TickitMouseEventType::TICKIT_MOUSEEV_DRAG => 2,
            TickitMouseEventType::TICKIT_MOUSEEV_RELEASE => 3,
            TickitMouseEventType::TICKIT_MOUSEEV_WHEEL => 4,
        }
    }

    pub fn from_value(v: i32) -> (r: Option<TickitMouseEventType>)
        ensures
            r matches Some(k) ==> k.code() == v,
            r is None <==> !(1 <= v <= 4),
    {
        if v == 1 {
            Some(TickitMouseEventType::TICKIT_MOUSEEV_PRESS)
        } else if v == 2 {
            Some(TickitMouseEventType::TICKIT_MOUSEEV_DRAG)
        } else if v == 3 {
            Some(TickitMouseEventType::TICKIT_MOUSEEV_RELEASE)
        } else if v == 4 {
            Some(TickitMouseEventType::TICKIT_MOUSEEV_WHEEL)
        } else {
            None
        }
    }
}

#[allow(non_camel_case_types)]
#[derive(Clone, Copy, Debug, PartialEq, Eq, Structural)]
pub enum X_Tickit_MouseWheel {
    TICKIT_MOUSEWHEEL_UP,
    TICKIT_MOUSEWHEEL_DOWN,
}

impl X_Tickit_MouseWheel {
    /// The number that stands for the direction in a raw event record.
    pub open spec fn code(self) -> int {
        match self {
            X_Tickit_MouseWheel::TICKIT_MOUSEWHEEL_UP => 1,
            X_Tickit_MouseWheel::TICKIT_MOUSEWHEEL_DOWN => 2,
        }
    }

    pub fn value(self) -> (v: i32)
        ensures
            v == self.code(),
    {
        match self {
            X_Tickit_MouseWheel::TICKIT_MOUSEWHEEL_UP => 1,
            X_Tickit_MouseWheel::TICKIT_MOUSEWHEEL_DOWN => 2,
        }
    }

    pub fn from_value(v: i32) -> (r: Option<X_Tickit_MouseWheel>)
        ensures
            r matches Some(k) ==> k.code() == v,
            r is None <==> !(1 <= v <= 2),
    {
        if v == 1 {
            Some(X_Tickit_MouseWheel::TICKIT_MOUSEWHEEL_UP)
        } else if v == 2 {
            Some(X_Tickit_MouseWheel::TICKIT_MOUSEWHEEL_DOWN)
        } else {
            None
        }
    }
}

/// Modifier key: shift.
pub const TICKIT_MOD_SHIFT: i32 = 0x01;

/// Modifier key: alt.
pub const TICKIT_MOD_ALT: i32 = 0x02;

/// Modifier key: control.
pub const TICKIT_MOD_CTRL: i32 = 0x04;

/// A set of modifier keys, one bit each.
#[allow(non_camel_case_types)]
#[derive(Clone, Copy, Debug, PartialEq, Eq, Structural)]
pub struct X_Tickit_Mod {
    pub bits: i32,
}

impl X_Tickit_Mod {
    pub fn from_bits(bits: i32) -> (r: X_Tickit_Mod)
        ensures
            r.bits == bits,
    {
        X_Tickit_Mod { bits }
    }

    pub fn empty() -> (r: X_Tickit_Mod)
        ensures
            r.bits == 0,
    {
        X_Tickit_Mod { bits: 0 }
    }

    pub fn is_empty(&self) -> (r: bool)
        ensures
            r == (self.bits == 0),
    {
        self.bits == 0
    }
}

/// A raw event record: one flat set of fields, of which each event
/// class uses a few. `type_` holds the key or mouse event kind as a
/// number; for a wheel event `button` holds the direction.
pub struct TickitEvent {
    pub lines: i32,
    pub cols: i32,
    pub type_: i32,
    pub str_: String,
    pub button: i32,
    pub line: i32,
    pub col: i32,
    pub mod_: X_Tickit_Mod,
}

#[allow(non_camel_case_types)]
#[derive(Clone, Copy, Debug, PartialEq, Eq, Structural)]
pub enum TickitPenAttr {
    TICKIT_PEN_FG,
    TICKIT_PEN_BG,
    TICKIT_PEN_BOLD,
    TICKIT_PEN_UNDER,
    TICKIT_PEN_ITALIC,
    TICKIT_PEN_REVERSE,
    TICKIT_PEN_STRIKE,
    TICKIT_PEN_ALTFONT,
    /// Not an attribute: the number of attributes.
    TICKIT_N_PEN_ATTRS,
}

#[allow(non_camel_case_types)]
#[derive(Clone, Copy, Debug, PartialEq, Eq, Structural)]
pub enum TickitPenAttrType {
    TICKIT_PENTYPE_BOOL,
    TICKIT_PENTYPE_INT,
    TICKIT_PENTYPE_COLOUR,
}

impl TickitPenAttr {
    /// Whether this names an attribute, not the count of them.
    pub open spec fn is_attr(self) -> bool {
        self != TickitPenAttr::TICKIT_N_PEN_ATTRS
    }

    /// The kind of value the attribute holds.
    pub open spec fn kind(self) -> TickitPenAttrType {
        match self {
            TickitPenAttr::TICKIT_PEN_FG | TickitPenAttr::TICKIT_PEN_BG => {
                TickitPenAttrType::TICKIT_PENTYPE_COLOUR
            },
            TickitPenAttr::TICKIT_PEN_ALTFONT => TickitPenAttrType::TICKIT_PENTYPE_INT,
            _ => TickitPenAttrType::TICKIT_PENTYPE_BOOL,
        }
    }

    /// The short name of the attribute.
    pub open spec fn name(self) -> Seq<char> {
        match self {
            TickitPenAttr::TICKIT_PEN_FG => "fg"@,
            TickitPenAttr::TICKIT_PEN_BG => "bg"@,
            TickitPenAttr::TICKIT_PEN_BOLD => "b"@,
            TickitPenAttr::TICKIT_PEN_UNDER => "u"@,
            TickitPenAttr::TICKIT_PEN_ITALIC => "i"@,
            TickitPenAttr::TICKIT_PEN_REVERSE => "rv"@,
            TickitPenAttr::TICKIT_PEN_STRIKE => "strike"@,
            TickitPenAttr::TICKIT_PEN_ALTFONT => "af"@,
            TickitPenAttr::TICKIT_N_PEN_ATTRS => Seq::empty(),
        }
    }

    /// The attribute whose short name has the bytes `name`, or the
    /// count of attributes when there is none.
    pub open spec fn named(name: Seq<u8>) -> TickitPenAttr {
        if name == "fg".spec_bytes() {
            TickitPenAttr::TICKIT_PEN_FG
        } else if name == "bg".spec_bytes() {
            TickitPenAttr::TICKIT_PEN_BG
        } else if name == "b".spec_bytes() {
            TickitPenAttr::TICKIT_PEN_BOLD
        } else if name == "u".spec_bytes() {
            TickitPenAttr::TICKIT_PEN_UNDER
        } else if name == "i".spec_bytes() {
            TickitPenAttr::TICKIT_PEN_ITALIC
        } else if name == "rv".spec_bytes() {
            TickitPenAttr::TICKIT_PEN_REVERSE
        } else if name == "strike".spec_bytes() {
            TickitPenAttr::TICKIT_PEN_STRIKE
        } else if name == "af".spec_bytes() {
            TickitPenAttr::TICKIT_PEN_ALTFONT
        } else {
            TickitPenAttr::TICKIT_N_PEN_ATTRS
        }
    }

    pub fn is_attribute(self) -> (r: bool)
        ensures
            r == self.is_attr(),
    {
        match self {
            TickitPenAttr::TICKIT_N_PEN_ATTRS => false,
            _ => true,
        }
    }

    pub fn attrtype(self) -> (t: TickitPenAttrType)
        requires
            self.is_attr(),
        ensures
            t == self.kind(),
    {
        match self {
            TickitPenAttr::TICKIT_PEN_FG | TickitPenAttr::TICKIT_PEN_BG => {
                TickitPenAttrType::TICKIT_PENTYPE_COLOUR
            },
            TickitPenAttr::TICKIT_PEN_ALTFONT => TickitPenAttrType::TICKIT_PENTYPE_INT,
            _ => TickitPenAttrType::TICKIT_PENTYPE_BOOL,
        }
    }

    pub fn attrname_opt(self) -> (n: Option<&'static str>)
        ensures
            n is Some <==> self.is_attr(),
            n matches Some(s) ==> s@ == self.name(),
    {
        match self {
            TickitPenAttr::TICKIT_PEN_FG => Some("fg"),
            TickitPenAttr::TICKIT_PEN_BG => Some("bg"),
            TickitPenAttr::TICKIT_PEN_BOLD => Some("b"),
            TickitPenAttr::TICKIT_PEN_UNDER => Some("u"),
            TickitPenAttr::TICKIT_PEN_ITALIC => Some("i"),
            TickitPenAttr::TICKIT_PEN_REVERSE => Some("rv"),
            TickitPenAttr::TICKIT_PEN_STRIKE => Some("strike"),
            TickitPenAttr::TICKIT_PEN_ALTFONT => Some("af"),
            TickitPenAttr::TICKIT_N_PEN_ATTRS => None,
        }
    }

    pub fn attrname(self) -> (n: &'static str)
        requires
            self.is_attr(),
        ensures
            n@ == self.name(),
    {
        match self.attrname_opt() {
            Some(s) => s,
            None => "",
        }
    }

    pub fn lookup_attr(name: &str) -> (a: TickitPenAttr)
        ensures
            a == TickitPenAttr::named(name.spec_bytes()),
    {
        let n = name.as_bytes();
        if bytes_eq(n, "fg".as_bytes()) {
            TickitPenAttr::TICKIT_PEN_FG
        } else if bytes_eq(n, "bg".as_bytes()) {
            TickitPenAttr::TICKIT_PEN_BG
        } else if bytes_eq(n, "b".as_bytes()) {
            TickitPenAttr::TICKIT_PEN_BOLD
        } else if bytes_eq(n, "u".as_bytes()) {
            TickitPenAttr::TICKIT_PEN_UNDER
        } else if bytes_eq(n, "i".as_bytes()) {
            TickitPenAttr::TICKIT_PEN_ITALIC
        } else if bytes_eq(n, "rv".as_bytes()) {
            TickitPenAttr::TICKIT_PEN_REVERSE
        } else if bytes_eq(n, "strike".as_bytes()) {
            TickitPenAttr::TICKIT_PEN_STRIKE
        } else if bytes_eq(n, "af".as_bytes()) {
            TickitPenAttr::TICKIT_PEN_ALTFONT
        } else {
            TickitPenAttr::TICKIT_N_PEN_ATTRS
        }
    }

    /// The attribute at position `i` of the fixed order, the count of
    /// attributes for any other `i`.
    pub open spec fn at(i: int) -> TickitPenAttr {
        if i == 0 {
            TickitPenAttr::TICKIT_PEN_FG
        } else if i == 1 {
            TickitPenAttr::TICKIT_PEN_BG
        } else if i == 2 {
            TickitPenAttr::TICKIT_PEN_BOLD
        } else if i == 3 {
            TickitPenAttr::TICKIT_PEN_UNDER
        } else if i == 4 {
            TickitPenAttr::TICKIT_PEN_ITALIC
        } else if i == 5 {
            TickitPenAttr::TICKIT_PEN_REVERSE
        } else if i == 6 {
            TickitPenAttr::TICKIT_PEN_STRIKE
        } else if i == 7 {
            TickitPenAttr::TICKIT_PEN_ALTFONT
        } else {
            TickitPenAttr::TICKIT_N_PEN_ATTRS
        }
    }

    pub fn from_index(i: usize) -> (a: TickitPenAttr)
        ensures
            a == TickitPenAttr::at(i as int),
    {
        if i == 0 {
            TickitPenAttr::TICKIT_PEN_FG
        } else if i == 1 {
            TickitPenAttr::TICKIT_PEN_BG
        } else if i == 2 {
            TickitPenAttr::TICKIT_PEN_BOLD
        } else if i == 3 {
            TickitPenAttr::TICKIT_PEN_UNDER
        } else if i == 4 {
            TickitPenAttr::TICKIT_PEN_ITALIC
        } else if i == 5 {
            TickitPenAttr::TICKIT_PEN_REVERSE
        } else if i == 6 {
            TickitPenAttr::TICKIT_PEN_STRIKE
        } else if i == 7 {
            TickitPenAttr::TICKIT_PEN_ALTFONT
        } else {
            TickitPenAttr::TICKIT_N_PEN_ATTRS
        }
    }
}

#[allow(non_camel_case_types)]
#[derive(Clone, Copy, Debug, PartialEq, Eq, Structural)]
pub enum TickitTermCtl {
    TICKIT_TERMCTL_ALTSCREEN,
    TICKIT_TERMCTL_CURSORVIS,
    TICKIT_TERMCTL_MOUSE,
    TICKIT_TERMCTL_CURSORBLINK,
    TICKIT_TERMCTL_CURSORSHAPE,
    TICKIT_TERMCTL_ICON_TEXT,
    TICKIT_TERMCTL_TITLE_TEXT,
    TICKIT_TERMCTL_ICONTITLE_TEXT,
    TICKIT_TERMCTL_KEYPAD_APP,
    /// Read-only.
    TICKIT_TERMCTL_COLORS,
}

#[allow(non_camel_case_types)]
#[derive(Clone, Copy, Debug, PartialEq, Eq, Structural)]
pub enum TickitTermMouseMode {
    TICKIT_TERM_MOUSEMODE_OFF,
    TICKIT_TERM_MOUSEMODE_CLICK,
    TICKIT_TERM_MOUSEMODE_DRAG,
    TICKIT_TERM_MOUSEMODE_MOVE,
}

impl TickitTermMouseMode {
    /// The number that stands for the mode as a control value.
    pub open spec fn code(self) -> int {
        match self {
            TickitTermMouseMode::TICKIT_TERM_MOUSEMODE_OFF => 0,
            TickitTermMouseMode::TICKIT_TERM_MOUSEMODE_CLICK => 1,
            TickitTermMouseMode::TICKIT_TERM_MOUSEMODE_DRAG => 2,
            TickitTermMouseMode::TICKIT_TERM_MOUSEMODE_MOVE => 3,
        }
    }

    pub fn value(self) -> (v: i32)
        ensures
            v == self.code(),
    {
        match self {
            TickitTermMouseMode::TICKIT_TERM_MOUSEMODE_OFF => 0,
            TickitTermMouseMode::TICKIT_TERM_MOUSEMODE_CLICK => 1,
            TickitTermMouseMode::TICKIT_TERM_MOUSEMODE_DRAG => 2,
            TickitTermMouseMode::TICKIT_TERM_MOUSEMODE_MOVE => 3,
        }
    }
}

#[allow(non_camel_case_types)]
#[derive(Clone, Copy, Debug, PartialEq, Eq, Structural)]
pub enum TickitTermCursorShape {
    TICKIT_TERM_CURSORSHAPE_BLOCK,
    TICKIT_TERM_CURSORSHAPE_UNDER,
    TICKIT_TERM_CURSORSHAPE_LEFT_BAR,
}

impl TickitTermCursorShape {
    /// The number that stands for the shape as a control value.
    pub open spec fn code(self) -> int {
        match self {
            TickitTermCursorShape::TICKIT_TERM_CURSORSHAPE_BLOCK => 1,
            TickitTermCursorShape::TICKIT_TERM_CURSORSHAPE_UNDER => 2,
            TickitTermCursorShape::TICKIT_TERM_CURSORSHAPE_LEFT_BAR => 3,
        }
    }

    pub fn value(self) -> (v: i32)
        ensures
            v == self.code(),
    {
        match self {
            TickitTermCursorShape::TICKIT_TERM_CURSORSHAPE_BLOCK => 1,
            TickitTermCursorShape::TICKIT_TERM_CURSORSHAPE_UNDER => 2,
            TickitTermCursorShape::TICKIT_TERM_CURSORSHAPE_LEFT_BAR => 3,
        }
    }
}

#[allow(non_camel_case_types)]
#[derive(Clone, Copy, Debug, PartialEq, Eq, Structural)]
pub enum TickitLineStyle {
    X_TICKIT_LINE_NONE,
    TICKIT_LINE_SINGLE,
    TICKIT_LINE_DOUBLE,
    TICKIT_LINE_THICK,
}

impl TickitLineStyle {
    /// The two-bit number of the style.
    pub open spec fn code(self) -> int {
        match self {
            TickitLineStyle::X_TICKIT_LINE_NONE => 0,
            TickitLineStyle::TICKIT_LINE_SINGLE => 1,
            TickitLineStyle::TICKIT_LINE_DOUBLE => 2,
            TickitLineStyle::TICKIT_LINE_THICK => 3,
        }
    }

    /// The style with the two-bit number `v`.
    pub open spec fn of_code(v: int) -> TickitLineStyle {
        if v == 1 {
            TickitLineStyle::TICKIT_LINE_SINGLE
        } else if v == 2 {
            TickitLineStyle::TICKIT_LINE_DOUBLE
        } else if v == 3 {
            TickitLineStyle::TICKIT_LINE_THICK
        } else {
            TickitLineStyle::X_TICKIT_LINE_NONE
        }
    }

    pub fn value(self) -> (v: u8)
        ensures
            v == self.code(),
    {
        match self {
            TickitLineStyle::X_TICKIT_LINE_NONE => 0,
            TickitLineStyle::TICKIT_LINE_SINGLE => 1,
            TickitLineStyle::TICKIT_LINE_DOUBLE => 2,
            TickitLineStyle::TICKIT_LINE_THICK => 3,
        }
    }

    pub fn from_value(v: u8) -> (r: TickitLineStyle)
        ensures
            r == TickitLineStyle::of_code(v as int),
    {
        if v == 1 {
            TickitLineStyle::TICKIT_LINE_SINGLE
        } else if v == 2 {
            TickitLineStyle::TICKIT_LINE_DOUBLE
        } else if v == 3 {
            TickitLineStyle::TICKIT_LINE_THICK
        } else {
            TickitLineStyle::X_TICKIT_LINE_NONE
        }
    }
}

/// A position in a string, or a limit, with the counts of codepoints,
/// graphemes and columns as signed numbers: -1 stands for no limit.
#[derive(Clone, Copy, Debug, PartialEq, Eq)]
pub struct TickitStringPos {
    pub bytes: usize,
    pub codepoints: i32,
    pub graphemes: i32,
    pub columns: i32,
}

/// Line end: neither end is capped.
pub const X_TICKIT_LINECAP_NEITHER: i32 = 0x00;

/// Line end: the start is capped.
pub const TICKIT_LINECAP_START: i32 = 0x01;

/// Line end: the end is capped.
pub const TICKIT_LINECAP_END: i32 = 0x02;

/// Line end: both ends are capped.
pub const TICKIT_LINECAP_BOTH: i32 = 0x03;

/// Which ends of a drawn line are capped: a capped end runs on into
/// the far half of its end cell.
#[derive(Clone, Copy, Debug, PartialEq, Eq, Structural)]
pub struct TickitLineCaps {
    pub start: bool,
    pub end: bool,
}

impl TickitLineCaps {
    pub fn from_bits(bits: i32) -> (r: TickitLineCaps)
        ensures
            r.start == (bits == TICKIT_LINECAP_START || bits == TICKIT_LINECAP_BOTH),
            r.end == (bits == TICKIT_LINECAP_END || bits == TICKIT_LINECAP_BOTH),
    {
        TickitLineCaps {
            start: bits == TICKIT_LINECAP_START || bits == TICKIT_LINECAP_BOTH,
            end: bits == TICKIT_LINECAP_END || bits == TICKIT_LINECAP_BOTH,
        }
    }
}

} // verus!
