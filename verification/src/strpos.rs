//! Measuring text: how many bytes, codepoints, graphemes and screen
//! columns a UTF-8 string takes, up to a limit on any of the four.

use vstd::prelude::*;
use vstd::string::StringSliceAdditionalSpecFns;

verus! {

/// The value that stands for "no limit" in a field of a limit, and for
/// failure as the result of a count.
pub const UNLIMITED: usize = usize::MAX;

/// A position in a string, counted four ways; also a limit on each of
/// the four counts.
#[derive(Clone, Copy, Debug, PartialEq, Eq, Structural)]
pub struct StringPos {
    pub bytes: usize,
    pub codepoints: usize,
    pub graphemes: usize,
    pub columns: usize,
}

/// Whether `b` is a UTF-8 continuation byte.
pub open spec fn is_cont(b: u8) -> bool {
    0x80 <= b <= 0xbf
}

/// The codepoint encoded at offset `i` of `text` and the number of
/// bytes it takes, or `None` where no well-formed encoding of a
/// codepoint starts there: a stray continuation byte, a sequence cut
/// short, an encoding longer than needed, a surrogate, or a value
/// above 0x10FFFF.
pub open spec fn decode_at(text: Seq<u8>, i: int) -> Option<(int, int)> {
    if i < 0 || i >= text.len() {
        None
    } else {
        let b0 = text[i] as int;
        if b0 < 0x80 {
            Some((b0, 1))
        } else if 0xc2 <= b0 <= 0xdf {
            if i + 1 < text.len() && is_cont(text[i + 1]) {
                Some(((b0 - 0xc0) * 64 + (text[i + 1] - 0x80), 2))
            } else {
                None
            }
        } else if 0xe0 <= b0 <= 0xef {
            if i + 2 < text.len() && is_cont(text[i + 1]) && is_cont(text[i + 2]) {
                let cp = (b0 - 0xe0) * 4096 + (text[i + 1] - 0x80) * 64 + (text[i + 2] - 0x80);
                if cp >= 0x800 && !(0xd800 <= cp <= 0xdfff) {
                    Some((cp, 3))
                } else {
                    None
                }
            } else {
                None
            }
        } else if 0xf0 <= b0 <= 0xf4 {
            if i + 3 < text.len() && is_cont(text[i + 1]) && is_cont(text[i + 2]) && is_cont(
                text[i + 3],
            ) {
                let cp = (b0 - 0xf0) * 262144 + (text[i + 1] - 0x80) * 4096 + (text[i + 2] - 0x80)
                    * 64 + (text[i + 3] - 0x80);
                if 0x10000 <= cp <= 0x10ffff {
                    Some((cp, 4))
                } else {
                    None
                }
            } else {
                None
            }
        } else {
            None
        }
    }
}

/// Whether `cp` is a control character: C0, DEL or C1.
pub open spec fn is_control(cp: int) -> bool {
    cp < 0x20 || (0x7f <= cp < 0xa0)
}

/// Whether `cp` is a combining mark or another character without
/// width of its own.
pub open spec fn is_zero_width(cp: int) -> bool {
    ||| 0x0300 <= cp <= 0x036f
    ||| 0x0483 <= cp <= 0x0489
    ||| 0x0591 <= cp <= 0x05bd
    ||| 0x0610 <= cp <= 0x061a
    ||| 0x064b <= cp <= 0x065f
    ||| 0x0e31 == cp
    ||| 0x0e34 <= cp <= 0x0e3a
    ||| 0x0e47 <= cp <= 0x0e4e
    ||| 0x1ab0 <= cp <= 0x1aff
    ||| 0x1dc0 <= cp <= 0x1dff
    ||| 0x200b <= cp <= 0x200f
    ||| 0x20d0 <= cp <= 0x20ff
    ||| 0xfe00 <= cp <= 0xfe0f
    ||| 0xfe20 <= cp <= 0xfe2f
}

/// Whether `cp` is an East Asian wide or fullwidth character.
pub open spec fn is_wide(cp: int) -> bool {
    ||| 0x1100 <= cp <= 0x115f
    ||| 0x2e80 <= cp <= 0x303e
    ||| 0x3041 <= cp <= 0x33ff
    ||| 0x3400 <= cp <= 0x4dbf
    ||| 0x4e00 <= cp <= 0x9fff
    ||| 0xa000 <= cp <= 0xa4cf
    ||| 0xac00 <= cp <= 0xd7a3
    ||| 0xf900 <= cp <= 0xfaff
    ||| 0xfe30 <= cp <= 0xfe6f
    ||| 0xff00 <= cp <= 0xff60
    ||| 0xffe0 <= cp <= 0xffe6
    ||| 0x1f300 <= cp <= 0x1f64f
    ||| 0x1f900 <= cp <= 0x1f9ff
    ||| 0x20000 <= cp <= 0x3fffd
}

/// The number of screen columns that `cp` takes: 0 for a combining
/// mark, 2 for a wide character, 1 for any other.
pub open spec fn columns_of(cp: int) -> int {
    if is_zero_width(cp) {
        0
    } else if is_wide(cp) {
        2
    } else {
        1
    }
}

/// The position `here` moved over one codepoint of `n` bytes and `w`
/// columns. A codepoint with columns starts a grapheme.
pub open spec fn advance(here: StringPos, n: int, w: int) -> StringPos {
    StringPos {
        bytes: (here.bytes + n) as usize,
        codepoints: (here.codepoints + 1) as usize,
        graphemes: (here.graphemes + if w > 0 {
            1int
        } else {
            0int
        }) as usize,
        columns: (here.columns + w) as usize,
    }
}

/// Whether `count` more on top of `have` goes over the limit `limit`.
pub open spec fn over(have: usize, count: int, limit: usize) -> bool {
    limit != UNLIMITED && have + count > limit
}

/// Whether moving `here` over one codepoint of `n` bytes and `w`
/// columns would go over a field of `limit`.
pub open spec fn exceeds(here: StringPos, n: int, w: int, limit: StringPos) -> bool {
    ||| over(here.bytes, n, limit.bytes)
    ||| over(here.codepoints, 1, limit.codepoints)
    ||| over(here.graphemes, if w > 0 {
        1
    } else {
        0
    }, limit.graphemes)
    ||| over(here.columns, w, limit.columns)
}

/// The scan of `text` from the position `here`, where `committed` is
/// the last grapheme boundary passed. The scan moves over one
/// codepoint at a time. In front of a codepoint with columns it moves
/// the boundary up to where it stands. It ends at the end of the text,
/// which is a boundary too; or in front of the first codepoint that
/// would take it over the limit; or, failing, in front of a control
/// character or of bytes that encode no codepoint. The result is the
/// last boundary and whether the scan did not fail.
pub open spec fn scan(text: Seq<u8>, here: StringPos, committed: StringPos, limit: StringPos) -> (
    StringPos,
    bool,
)
    decreases text.len() - here.bytes,
    when text.len() <= usize::MAX
{
    if here.bytes >= text.len() {
        (here, true)
    } else {
        match decode_at(text, here.bytes as int) {
            None => (committed, false),
            Some((cp, n)) => {
                if is_control(cp) {
                    (committed, false)
                } else {
                    let w = columns_of(cp);
                    let boundary = if w > 0 {
                        here
                    } else {
                        committed
                    };
                    if exceeds(here, n, w, limit) {
                        (boundary, true)
                    } else {
                        scan(text, advance(here, n, w), boundary, limit)
                    }
                }
            },
        }
    }
}

impl StringPos {
    /// The start of any string.
    pub open spec fn origin() -> StringPos {
        StringPos { bytes: 0, codepoints: 0, graphemes: 0, columns: 0 }
    }

    /// The limit that limits nothing.
    pub open spec fn no_limit() -> StringPos {
        StringPos {
            bytes: UNLIMITED,
            codepoints: UNLIMITED,
            graphemes: UNLIMITED,
            columns: UNLIMITED,
        }
    }

    /// The limit that an optional limit stands for.
    pub open spec fn limit_of(limit: Option<StringPos>) -> StringPos {
        match limit {
            Some(l) => l,
            None => StringPos::no_limit(),
        }
    }

    /// Whether the position can be one inside `text`: no count is
    /// larger than the byte count, which is no larger than the text.
    pub open spec fn fits(self, text: Seq<u8>) -> bool {
        &&& self.bytes <= text.len()
        &&& self.codepoints <= self.bytes
        &&& self.graphemes <= self.bytes
        &&& self.columns <= self.bytes
    }

    /// Whether the position is within every field of `limit`.
    pub open spec fn within(self, limit: StringPos) -> bool {
        &&& !over(self.bytes, 0, limit.bytes)
        &&& !over(self.codepoints, 0, limit.codepoints)
        &&& !over(self.graphemes, 0, limit.graphemes)
        &&& !over(self.columns, 0, limit.columns)
    }

    /// A count as a signed number: -1 for no limit and for a count
    /// that no signed number holds.
    pub open spec fn signed(v: usize) -> i32 {
        if v > i32::MAX {
            -1i32
        } else {
            v as i32
        }
    }

    /// A signed number as a count: no limit for a negative one.
    pub open spec fn unsigned(v: i32) -> usize {
        if v < 0 {
            UNLIMITED
        } else {
            v as usize
        }
    }

    /// The position with signed counts.
    pub fn to_c(self) -> (lo: crate::c::TickitStringPos)
        ensures
            lo.bytes == self.bytes,
            lo.codepoints == Self::signed(self.codepoints),
            lo.graphemes == Self::signed(self.graphemes),
            lo.columns == Self::signed(self.columns),
    {
        crate::c::TickitStringPos {
            bytes: self.bytes,
            codepoints: to_signed(self.codepoints),
            graphemes: to_signed(self.graphemes),
            columns: to_signed(self.columns),
        }
    }

    /// The position of signed counts.
    pub fn from_c(lo: crate::c::TickitStringPos) -> (p: StringPos)
        ensures
            p.bytes == lo.bytes,
            p.codepoints == Self::unsigned(lo.codepoints),
            p.graphemes == Self::unsigned(lo.graphemes),
            p.columns == Self::unsigned(lo.columns),
    {
        StringPos {
            bytes: lo.bytes,
            codepoints: to_unsigned(lo.codepoints),
            graphemes: to_unsigned(lo.graphemes),
            columns: to_unsigned(lo.columns),
        }
    }

    pub fn zero() -> (p: StringPos)
        ensures
            p == StringPos::origin(),
    {
        StringPos { bytes: 0, codepoints: 0, graphemes: 0, columns: 0 }
    }

    pub fn limit_none() -> (p: StringPos)
        ensures
            p == StringPos::no_limit(),
    {
        StringPos {
            bytes: UNLIMITED,
            codepoints: UNLIMITED,
            graphemes: UNLIMITED,
            columns: UNLIMITED,
        }
    }

    pub fn limit_bytes(v: usize) -> (p: StringPos)
        ensures
            p == (StringPos { bytes: v, ..StringPos::no_limit() }),
    {
        StringPos { bytes: v, codepoints: UNLIMITED, graphemes: UNLIMITED, columns: UNLIMITED }
    }

    pub fn limit_codepoints(v: usize) -> (p: StringPos)
        ensures
            p == (StringPos { codepoints: v, ..StringPos::no_limit() }),
    {
        StringPos { bytes: UNLIMITED, codepoints: v, graphemes: UNLIMITED, columns: UNLIMITED }
    }

    pub fn limit_graphemes(v: usize) -> (p: StringPos)
        ensures
            p == (StringPos { graphemes: v, ..StringPos::no_limit() }),
    {
        StringPos { bytes: UNLIMITED, codepoints: UNLIMITED, graphemes: v, columns: UNLIMITED }
    }

    pub fn limit_columns(v: usize) -> (p: StringPos)
        ensures
            p == (StringPos { columns: v, ..StringPos::no_limit() }),
    {
        StringPos { bytes: UNLIMITED, codepoints: UNLIMITED, graphemes: UNLIMITED, columns: v }
    }

    /// Counts `str_` from its start up to `limit`. Leaves in `pos` the
    /// last grapheme boundary reached and returns its byte offset, or
    /// `UNLIMITED` if the scan failed.
    pub fn x_bcount(str_: &[u8], pos: &mut StringPos, limit: Option<StringPos>) -> (n: usize)
        ensures
            *final(pos) == scan(
                str_@,
                StringPos::origin(),
                StringPos::origin(),
                StringPos::limit_of(limit),
            ).0,
            n == if scan(
                str_@,
                StringPos::origin(),
                StringPos::origin(),
                StringPos::limit_of(limit),
            ).1 {
                final(pos).bytes
            } else {
                UNLIMITED
            },
            final(pos).fits(str_@),
    {
        *pos = StringPos::zero();
        StringPos::x_bcountmore(str_, pos, limit)
    }

    /// Counts on from `pos`, which is a position in `str_`, up to
    /// `limit`. Leaves in `pos` the last grapheme boundary reached and
    /// returns the number of bytes between the two, or `UNLIMITED` if
    /// the scan failed.
    pub fn x_bcountmore(str_: &[u8], pos: &mut StringPos, limit: Option<StringPos>) -> (n: usize)
        requires
            old(pos).fits(str_@),
        ensures
            *final(pos) == scan(str_@, *old(pos), *old(pos), StringPos::limit_of(limit)).0,
            n == if scan(str_@, *old(pos), *old(pos), StringPos::limit_of(limit)).1 {
                (final(pos).bytes - old(pos).bytes) as usize
            } else {
                UNLIMITED
            },
            final(pos).fits(str_@),
            final(pos).bytes >= old(pos).bytes,
    {
        let start = pos.bytes;
        if StringPos::scan_on(str_, pos, limit) {
            pos.bytes - start
        } else {
            UNLIMITED
        }
    }

    /// Counts on from `pos`, which is a position in `str_`, up to
    /// `limit`. Leaves in `pos` the last grapheme boundary reached and
    /// returns whether the scan did not fail.
    pub fn scan_on(str_: &[u8], pos: &mut StringPos, limit: Option<StringPos>) -> (ok: bool)
        requires
            old(pos).fits(str_@),
        ensures
            *final(pos) == scan(str_@, *old(pos), *old(pos), StringPos::limit_of(limit)).0,
            ok == scan(str_@, *old(pos), *old(pos), StringPos::limit_of(limit)).1,
            final(pos).fits(str_@),
            final(pos).bytes >= old(pos).bytes,
    {
        let lim = match limit {
            Some(l) => l,
            None => StringPos::limit_none(),
        };
        let start = pos.bytes;
        let mut here = *pos;
        let mut committed = *pos;
        let len = str_.len();
        while here.bytes < len
            invariant
                len == str_@.len(),
                lim == StringPos::limit_of(limit),
                here.fits(str_@),
                committed.fits(str_@),
                start <= committed.bytes <= here.bytes,
                start == old(pos).bytes,
                scan(str_@, here, committed, lim) == scan(str_@, *old(pos), *old(pos), lim),
            decreases len - here.bytes,
        {
            let (cp, n) = match decode(str_, here.bytes) {
                Some(d) => d,
                None => {
                    *pos = committed;
                    return false;
                },
            };
            if cp < 0x20 || (0x7f <= cp && cp < 0xa0) {
                *pos = committed;
                return false;
            }
            let w = char_columns(cp);
            if w > 0 {
                committed = here;
            }
            let g: usize = if w > 0 { 1 } else { 0 };
            if (lim.bytes != UNLIMITED && here.bytes + n > lim.bytes) || (lim.codepoints
                != UNLIMITED && here.codepoints + 1 > lim.codepoints) || (lim.graphemes
                != UNLIMITED && here.graphemes + g > lim.graphemes) || (lim.columns != UNLIMITED
                && here.columns + w > lim.columns) {
                *pos = committed;
                return true;
            }
            here = StringPos {
                bytes: here.bytes + n,
                codepoints: here.codepoints + 1,
                graphemes: here.graphemes + g,
                columns: here.columns + w,
            };
        }
        *pos = here;
        true
    }

    /// Counts the text `str_` from its start up to `limit`.
    pub fn count(str_: &str, pos: &mut StringPos, limit: Option<StringPos>) -> (n: usize)
        ensures
            *final(pos) == scan(
                str_.spec_bytes(),
                StringPos::origin(),
                StringPos::origin(),
                StringPos::limit_of(limit),
            ).0,
            n == if scan(
                str_.spec_bytes(),
                StringPos::origin(),
                StringPos::origin(),
                StringPos::limit_of(limit),
            ).1 {
                final(pos).bytes
            } else {
                UNLIMITED
            },
            final(pos).fits(str_.spec_bytes()),
    {
        StringPos::x_bcount(str_.as_bytes(), pos, limit)
    }

    /// Counts the text `str_` on from `pos` up to `limit`.
    pub fn countmore(str_: &str, pos: &mut StringPos, limit: Option<StringPos>) -> (n: usize)
        requires
            old(pos).fits(str_.spec_bytes()),
        ensures
            *final(pos) == scan(
                str_.spec_bytes(),
                *old(pos),
                *old(pos),
                StringPos::limit_of(limit),
            ).0,
            n == if scan(str_.spec_bytes(), *old(pos), *old(pos), StringPos::limit_of(limit)).1 {
                (final(pos).bytes - old(pos).bytes) as usize
            } else {
                UNLIMITED
            },
            final(pos).fits(str_.spec_bytes()),
    {
        StringPos::x_bcountmore(str_.as_bytes(), pos, limit)
    }
}

fn to_signed(v: usize) -> (r: i32)
    ensures
        r == StringPos::signed(v),
{
    if v > i32::MAX as usize {
        -1
    } else {
        v as i32
    }
}

fn to_unsigned(v: i32) -> (r: usize)
    ensures
        r == StringPos::unsigned(v),
{
    if v < 0 {
        UNLIMITED
    } else {
        v as usize
    }
}

/// Decodes the codepoint at offset `i` of `text`.
pub fn decode(text: &[u8], i: usize) -> (r: Option<(u32, usize)>)
    ensures
        r is Some <==> decode_at(text@, i as int) is Some,
        r matches Some((cp, n)) ==> decode_at(text@, i as int) == Some((cp as int, n as int)) && 1
            <= n <= 4 && i + n <= text@.len() && cp <= 0x10ffff && (n < 3 ==> cp < 0x800),
{
    let len = text.len();
    if i >= len {
        return None;
    }
    let b0 = text[i] as u32;
    if b0 < 0x80 {
        Some((b0, 1))
    } else if 0xc2 <= b0 && b0 <= 0xdf {
        if len - i > 1 && cont(text[i + 1]) {
            Some(((b0 - 0xc0) * 64 + (text[i + 1] as u32 - 0x80), 2))
        } else {
            None
        }
    } else if 0xe0 <= b0 && b0 <= 0xef {
        if len - i > 2 && cont(text[i + 1]) && cont(text[i + 2]) {
            let cp = (b0 - 0xe0) * 4096 + (text[i + 1] as u32 - 0x80) * 64 + (text[i + 2] as u32
                - 0x80);
            if cp >= 0x800 && !(0xd800 <= cp && cp <= 0xdfff) {
                Some((cp, 3))
            } else {
                None
            }
        } else {
            None
        }
    } else if 0xf0 <= b0 && b0 <= 0xf4 {
        if len - i > 3 && cont(text[i + 1]) && cont(text[i + 2]) && cont(text[i + 3]) {
            let cp = (b0 - 0xf0) * 262144 + (text[i + 1] as u32 - 0x80) * 4096 + (text[i
                + 2] as u32 - 0x80) * 64 + (text[i + 3] as u32 - 0x80);
            if 0x10000 <= cp && cp <= 0x10ffff {
                Some((cp, 4))
            } else {
                None
            }
        } else {
            None
        }
    } else {
        None
    }
}

fn cont(b: u8) -> (r: bool)
    ensures
        r == is_cont(b),
{
    0x80 <= b && b <= 0xbf
}

/// The number of screen columns that the codepoint `cp` takes.
pub fn char_columns(cp: u32) -> (w: usize)
    ensures
        w == columns_of(cp as int),
        w <= 2,
        w == 2 ==> cp >= 0x800,
{
    let zero = (0x0300 <= cp && cp <= 0x036f) || (0x0483 <= cp && cp <= 0x0489) || (0x0591 <= cp
        && cp <= 0x05bd) || (0x0610 <= cp && cp <= 0x061a) || (0x064b <= cp && cp <= 0x065f)
        || 0x0e31 == cp || (0x0e34 <= cp && cp <= 0x0e3a) || (0x0e47 <= cp && cp <= 0x0e4e) || (
    0x1ab0 <= cp && cp <= 0x1aff) || (0x1dc0 <= cp && cp <= 0x1dff) || (0x200b <= cp && cp
        <= 0x200f) || (0x20d0 <= cp && cp <= 0x20ff) || (0xfe00 <= cp && cp <= 0xfe0f) || (0xfe20
        <= cp && cp <= 0xfe2f);
    if zero {
        return 0;
    }
    let wide = (0x1100 <= cp && cp <= 0x115f) || (0x2e80 <= cp && cp <= 0x303e) || (0x3041 <= cp
        && cp <= 0x33ff) || (0x3400 <= cp && cp <= 0x4dbf) || (0x4e00 <= cp && cp <= 0x9fff) || (
    0xa000 <= cp && cp <= 0xa4cf) || (0xac00 <= cp && cp <= 0xd7a3) || (0xf900 <= cp && cp
        <= 0xfaff) || (0xfe30 <= cp && cp <= 0xfe6f) || (0xff00 <= cp && cp <= 0xff60) || (0xffe0
        <= cp && cp <= 0xffe6) || (0x1f300 <= cp && cp <= 0x1f64f) || (0x1f900 <= cp && cp
        <= 0x1f9ff) || (0x20000 <= cp && cp <= 0x3fffd);
    if wide {
        2
    } else {
        1
    }
}

/// The number of columns that `text` takes, or `UNLIMITED` if it holds
/// a control character or bytes that encode no codepoint.
pub open spec fn width_of(text: Seq<u8>) -> usize {
    let r = scan(text, StringPos::origin(), StringPos::origin(), StringPos::no_limit());
    if r.1 {
        r.0.columns
    } else {
        UNLIMITED
    }
}

/// The number of columns that `str_` takes, or `UNLIMITED` if it holds
/// a control character.
pub fn mbswidth(str_: &str) -> (w: usize)
    ensures
        w == width_of(str_.spec_bytes()),
{
    let mut pos = StringPos::zero();
    if StringPos::scan_on(str_.as_bytes(), &mut pos, None) {
        pos.columns
    } else {
        UNLIMITED
    }
}

/// The column at which the byte offset `byte` of `text` lies, or
/// `UNLIMITED` if a control character or bytes that encode no
/// codepoint come before it.
pub open spec fn column_of_byte(text: Seq<u8>, byte: usize) -> usize {
    let r = scan(
        text,
        StringPos::origin(),
        StringPos::origin(),
        StringPos { bytes: byte, ..StringPos::no_limit() },
    );
    if r.1 {
        r.0.columns
    } else {
        UNLIMITED
    }
}

/// The byte offset at which the column `col` of `text` lies, or
/// `UNLIMITED` if a control character or bytes that encode no
/// codepoint come before it.
pub open spec fn byte_of_column(text: Seq<u8>, col: usize) -> usize {
    let r = scan(
        text,
        StringPos::origin(),
        StringPos::origin(),
        StringPos { columns: col, ..StringPos::no_limit() },
    );
    if r.1 {
        r.0.bytes
    } else {
        UNLIMITED
    }
}

/// The column at which the byte offset `byte` of `str_` lies, or
/// `UNLIMITED` if a control character comes before it.
pub fn byte2col(str_: &str, byte: usize) -> (col: usize)
    ensures
        col == column_of_byte(str_.spec_bytes(), byte),
{
    let mut pos = StringPos::zero();
    if StringPos::scan_on(str_.as_bytes(), &mut pos, Some(StringPos::limit_bytes(byte))) {
        pos.columns
    } else {
        UNLIMITED
    }
}

/// The byte offset at which the column `col` of `str_` lies, or
/// `UNLIMITED` if a control character comes before it.
pub fn col2byte(str_: &str, col: usize) -> (byte: usize)
    ensures
        byte == byte_of_column(str_.spec_bytes(), col),
{
    let mut pos = StringPos::zero();
    if StringPos::scan_on(str_.as_bytes(), &mut pos, Some(StringPos::limit_columns(col))) {
        pos.bytes
    } else {
        UNLIMITED
    }
}

/// The width of a codepoint is no more than the bytes of its encoding.
pub proof fn lemma_width_le_bytes(text: Seq<u8>, i: int)
    requires
        decode_at(text, i) is Some,
    ensures
        ({
            let (cp, n) = decode_at(text, i)->0;
            &&& 1 <= n <= 4
            &&& i + n <= text.len()
            &&& 0 <= columns_of(cp) <= n
            &&& 0 <= cp <= 0x10ffff
        }),
{
}

/// The result of a scan that starts inside the text lies inside the
/// text, at or after the boundary the scan started with.
pub proof fn lemma_scan_fits(text: Seq<u8>, here: StringPos, committed: StringPos, limit: StringPos)
    requires
        text.len() <= usize::MAX,
        here.fits(text),
        committed.fits(text),
        committed.bytes <= here.bytes,
    ensures
        scan(text, here, committed, limit).0.fits(text),
        scan(text, here, committed, limit).0.bytes >= committed.bytes,
    decreases text.len() - here.bytes,
{
    if here.bytes < text.len() {
        match decode_at(text, here.bytes as int) {
            None => {},
            Some((cp, n)) => {
                lemma_width_le_bytes(text, here.bytes as int);
                if !is_control(cp) {
                    let w = columns_of(cp);
                    let boundary = if w > 0 {
                        here
                    } else {
                        committed
                    };
                    if !exceeds(here, n, w, limit) {
                        lemma_scan_fits(text, advance(here, n, w), boundary, limit);
                    }
                }
            },
        }
    }
}

} // verus!

verus! {

/// Whether the offset `n` of `text` is reached from the offset `from`
/// by decoding whole codepoints one after another.
pub open spec fn codepoint_boundary(text: Seq<u8>, from: int, n: int) -> bool
    decreases n - from,
{
    if from == n {
        true
    } else if from < n {
        match decode_at(text, from) {
            Some((cp, k)) => if k >= 1 && from + k <= n {
                codepoint_boundary(text, from + k, n)
            } else {
                false
            },
            None => false,
        }
    } else {
        false
    }
}

/// Whether the offset `n` of `text` lies between whole codepoints and
/// between graphemes: it is the start or the end of the text, or a
/// codepoint with columns starts there.
pub open spec fn grapheme_boundary(text: Seq<u8>, n: int) -> bool {
    &&& codepoint_boundary(text, 0, n)
    &&& (n == 0 || n == text.len() || match decode_at(text, n) {
        Some((cp, k)) => columns_of(cp) > 0,
        None => false,
    })
}

/// Whether the limit `a` is at most as wide as the limit `b` in every
/// field.
pub open spec fn limit_le(a: StringPos, b: StringPos) -> bool {
    &&& b.bytes == UNLIMITED || (a.bytes != UNLIMITED && a.bytes <= b.bytes)
    &&& b.codepoints == UNLIMITED || (a.codepoints != UNLIMITED && a.codepoints <= b.codepoints)
    &&& b.graphemes == UNLIMITED || (a.graphemes != UNLIMITED && a.graphemes <= b.graphemes)
    &&& b.columns == UNLIMITED || (a.columns != UNLIMITED && a.columns <= b.columns)
}

proof fn lemma_boundary_extend(text: Seq<u8>, from: int, a: int)
    requires
        codepoint_boundary(text, from, a),
        decode_at(text, a) is Some,
    ensures
        codepoint_boundary(text, from, a + (decode_at(text, a)->0).1),
    decreases a - from,
{
    lemma_width_le_bytes(text, a);
    let ka = (decode_at(text, a)->0).1;
    if from < a {
        let k = (decode_at(text, from)->0).1;
        lemma_boundary_extend(text, from + k, a);
    } else {
        assert(codepoint_boundary(text, a + ka, a + ka));
    }
}

proof fn lemma_scan_boundary(text: Seq<u8>, here: StringPos, committed: StringPos, limit: StringPos)
    requires
        text.len() <= usize::MAX,
        here.fits(text),
        committed.fits(text),
        codepoint_boundary(text, 0, here.bytes as int),
        grapheme_boundary(text, committed.bytes as int),
        here.within(limit),
        committed.within(limit),
    ensures
        grapheme_boundary(text, scan(text, here, committed, limit).0.bytes as int),
        scan(text, here, committed, limit).0.within(limit),
    decreases text.len() - here.bytes,
{
    if here.bytes < text.len() {
        match decode_at(text, here.bytes as int) {
            None => {},
            Some((cp, n)) => {
                lemma_width_le_bytes(text, here.bytes as int);
                if !is_control(cp) {
                    let w = columns_of(cp);
                    let boundary = if w > 0 {
                        here
                    } else {
                        committed
                    };
                    if !exceeds(here, n, w, limit) {
                        lemma_boundary_extend(text, 0, here.bytes as int);
                        lemma_scan_boundary(text, advance(here, n, w), boundary, limit);
                    }
                }
            },
        }
    }
}

/// A count never stops inside a codepoint or inside a grapheme, and
/// never goes over a field of its limit: the position it leaves is a
/// grapheme boundary of the text within the limit, whether the scan
/// failed or not.
pub proof fn lemma_count_keeps_graphemes_whole(text: Seq<u8>, limit: StringPos)
    requires
        text.len() <= usize::MAX,
    ensures
        grapheme_boundary(
            text,
            scan(text, StringPos::origin(), StringPos::origin(), limit).0.bytes as int,
        ),
        scan(text, StringPos::origin(), StringPos::origin(), limit).0.within(limit),
        scan(text, StringPos::origin(), StringPos::origin(), limit).0.fits(text),
{
    lemma_scan_boundary(text, StringPos::origin(), StringPos::origin(), limit);
    lemma_scan_fits(text, StringPos::origin(), StringPos::origin(), limit);
}

proof fn lemma_scan_resume(
    text: Seq<u8>,
    here: StringPos,
    committed: StringPos,
    l1: StringPos,
    l2: StringPos,
)
    requires
        text.len() <= usize::MAX,
        here.fits(text),
        committed.fits(text),
        committed.bytes <= here.bytes,
        limit_le(l1, l2),
        scan(text, here, committed, l1).1,
        scan(text, committed, committed, l2) == scan(text, here, committed, l2),
    ensures
        ({
            let first = scan(text, here, committed, l1).0;
            scan(text, first, first, l2) == scan(text, here, committed, l2)
        }),
    decreases text.len() - here.bytes,
{
    if here.bytes < text.len() {
        match decode_at(text, here.bytes as int) {
            None => {},
            Some((cp, n)) => {
                lemma_width_le_bytes(text, here.bytes as int);
                if !is_control(cp) {
                    let w = columns_of(cp);
                    let boundary = if w > 0 {
                        here
                    } else {
                        committed
                    };
                    if !exceeds(here, n, w, l1) {
                        assert(!exceeds(here, n, w, l2));
                        let next = advance(here, n, w);
                        assert(scan(text, here, committed, l2) == scan(text, next, boundary, l2));
                        if w > 0 {
                            assert(scan(text, here, here, l2) == scan(text, next, here, l2));
                        }
                        lemma_scan_resume(text, next, boundary, l1, l2);
                    } else {
                        if w > 0 {
                            assert(scan(text, here, here, l2) == scan(text, here, committed, l2));
                        }
                    }
                }
            },
        }
    }
}

/// Counting on picks up where a count left off: a count up to a limit,
/// then counting on from the position it left up to a limit at least
/// as wide, leaves the same position and the same outcome as one count
/// from the start up to the wider limit.
pub proof fn lemma_countmore_continues(text: Seq<u8>, l1: StringPos, l2: StringPos)
    requires
        text.len() <= usize::MAX,
        limit_le(l1, l2),
        scan(text, StringPos::origin(), StringPos::origin(), l1).1,
    ensures
        ({
            let first = scan(text, StringPos::origin(), StringPos::origin(), l1).0;
            scan(text, first, first, l2) == scan(text, StringPos::origin(), StringPos::origin(), l2)
        }),
{
    lemma_scan_resume(text, StringPos::origin(), StringPos::origin(), l1, l2);
}

} // verus!

verus! {

/// The UTF-8 encoding of the codepoint `cp`; nothing for a number
/// above the last codepoint.
pub open spec fn utf8_of(cp: u32) -> Seq<u8> {
    if cp < 0x80 {
        seq![cp as u8]
    } else if cp < 0x800 {
        seq![(0xc0 + cp / 64) as u8, (0x80 + cp % 64) as u8]
    } else if cp < 0x10000 {
        seq![(0xe0 + cp / 4096) as u8, (0x80 + (cp / 64) % 64) as u8, (0x80 + cp % 64) as u8]
    } else if cp < 0x110000 {
        seq![
            (0xf0 + cp / 262144) as u8,
            (0x80 + (cp / 4096) % 64) as u8,
            (0x80 + (cp / 64) % 64) as u8,
            (0x80 + cp % 64) as u8,
        ]
    } else {
        Seq::empty()
    }
}

/// Appends the UTF-8 encoding of the codepoint `cp` to `out`.
pub fn push_utf8(out: &mut Vec<u8>, cp: u32)
    ensures
        final(out)@ == old(out)@ + utf8_of(cp),
{
    if cp < 0x80 {
        out.push(cp as u8);
    } else if cp < 0x800 {
        out.push((0xc0 + cp / 64) as u8);
        out.push((0x80 + cp % 64) as u8);
    } else if cp < 0x10000 {
        out.push((0xe0 + cp / 4096) as u8);
        out.push((0x80 + (cp / 64) % 64) as u8);
        out.push((0x80 + cp % 64) as u8);
    } else if cp < 0x110000 {
        out.push((0xf0 + cp / 262144) as u8);
        out.push((0x80 + (cp / 4096) % 64) as u8);
        out.push((0x80 + (cp / 64) % 64) as u8);
        out.push((0x80 + cp % 64) as u8);
    }
    assert(out@ =~= old(out)@ + utf8_of(cp));
}

/// Encoding a codepoint and decoding the bytes gives the codepoint
/// back, for every codepoint that is no surrogate.
pub proof fn lemma_utf8_round_trip(cp: u32)
    requires
        cp < 0x110000,
        !(0xd800 <= cp <= 0xdfff),
    ensures
        decode_at(utf8_of(cp), 0) == Some((cp as int, utf8_of(cp).len() as int)),
{
}

} // verus!
