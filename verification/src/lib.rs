//! Terminal control and screen rendering: rectangle geometry, pens,
//! string measurement, a terminal that tracks what it has sent and
//! speaks through a driver, and a render buffer that flushes minimal
//! updates to a terminal.

pub mod bytes;
pub mod c;
pub mod drv;
pub mod event;
pub mod linechars;
pub mod mock;
pub mod pen;
pub mod rect;
pub mod rectset;
pub mod renderbuffer;
pub mod strpos;
pub mod term;

pub use crate::c::TickitPenAttrType;
pub use crate::event::{TickitEvent, TickitKeyEvent, TickitMouseEvent};
pub use crate::pen::TickitPen;
pub use crate::rect::TickitRect;
pub use crate::rectset::TickitRectSet;
pub use crate::renderbuffer::{
    TickitRenderBuffer, TickitRenderBufferLineMask, TickitRenderBufferSpanInfo,
};
pub use crate::strpos::{byte2col, col2byte, mbswidth, StringPos};
pub use crate::term::{CancellableTermEvent, TickitTerm};
