//! Events, and the list of handlers bound to an object that raises
//! them. The library decides which handlers an event goes to and in
//! what order; calling them is left to the caller, who holds the
//! handlers by the ids given out here.

use vstd::prelude::*;
use crate::c;
use crate::c::{
    TickitEventType, TickitKeyEventType, TickitMouseEventType, X_Tickit_Mod, X_Tickit_MouseWheel,
};

verus! {

pub enum TickitKeyEvent {
    KeyKeyEvent { key: String, mod_: X_Tickit_Mod },
    KeyTextEvent { text: String, mod_: X_Tickit_Mod },
}

#[derive(Clone, Copy, Debug, PartialEq, Eq, Structural)]
pub enum TickitMouseEvent {
    MousePressEvent { button: i32, line: i32, col: i32, mod_: X_Tickit_Mod },
    MouseDragEvent { button: i32, line: i32, col: i32, mod_: X_Tickit_Mod },
    MouseReleaseEvent { button: i32, line: i32, col: i32, mod_: X_Tickit_Mod },
    MouseWheelEvent { dir: X_Tickit_MouseWheel, line: i32, col: i32, mod_: X_Tickit_Mod },
}

pub enum TickitEvent {
    ResizeEvent { lines: i32, cols: i32 },
    KeyEvent(TickitKeyEvent),
    MouseEvent(TickitMouseEvent),
    ChangeEvent,
    UnbindEvent,
    UnknownEvent,
}

/// The mathematical value of a key event: its strings as sequences.
pub enum KeyEventView {
    Key { key: Seq<char>, mod_: X_Tickit_Mod },
    Text { text: Seq<char>, mod_: X_Tickit_Mod },
}

/// The mathematical value of an event.
pub enum EventView {
    Resize { lines: int, cols: int },
    Key(KeyEventView),
    Mouse(TickitMouseEvent),
    Change,
    Unbind,
    Unknown,
}

impl View for TickitKeyEvent {
    type V = KeyEventView;

    open spec fn view(&self) -> KeyEventView {
        match *self {
            TickitKeyEvent::KeyKeyEvent { key, mod_ } => KeyEventView::Key { key: key@, mod_ },
            TickitKeyEvent::KeyTextEvent { text, mod_ } => KeyEventView::Text { text: text@, mod_ },
        }
    }
}

impl View for TickitEvent {
    type V = EventView;

    open spec fn view(&self) -> EventView {
        match *self {
            TickitEvent::ResizeEvent { lines, cols } => EventView::Resize {
                lines: lines as int,
                cols: cols as int,
            },
            TickitEvent::KeyEvent(k) => EventView::Key(k@),
            TickitEvent::MouseEvent(m) => EventView::Mouse(m),
            TickitEvent::ChangeEvent => EventView::Change,
            TickitEvent::UnbindEvent => EventView::Unbind,
            TickitEvent::UnknownEvent => EventView::Unknown,
        }
    }
}

/// What a raw mouse record says, or `None` where its kind or wheel
/// direction is no known number.
pub open spec fn mouse_of_raw(
    type_: int,
    button: i32,
    line: i32,
    col: i32,
    mod_: X_Tickit_Mod,
) -> Option<TickitMouseEvent> {
    if type_ == TickitMouseEventType::TICKIT_MOUSEEV_PRESS.code() {
        Some(TickitMouseEvent::MousePressEvent { button, line, col, mod_ })
    } else if type_ == TickitMouseEventType::TICKIT_MOUSEEV_DRAG.code() {
        Some(TickitMouseEvent::MouseDragEvent { button, line, col, mod_ })
    } else if type_ == TickitMouseEventType::TICKIT_MOUSEEV_RELEASE.code() {
        Some(TickitMouseEvent::MouseReleaseEvent { button, line, col, mod_ })
    } else if type_ == TickitMouseEventType::TICKIT_MOUSEEV_WHEEL.code() {
        if button == X_Tickit_MouseWheel::TICKIT_MOUSEWHEEL_UP.code() {
            Some(
                TickitMouseEvent::MouseWheelEvent {
                    dir: X_Tickit_MouseWheel::TICKIT_MOUSEWHEEL_UP,
                    line,
                    col,
                    mod_,
                },
            )
        } else if button == X_Tickit_MouseWheel::TICKIT_MOUSEWHEEL_DOWN.code() {
            Some(
                TickitMouseEvent::MouseWheelEvent {
                    dir: X_Tickit_MouseWheel::TICKIT_MOUSEWHEEL_DOWN,
                    line,
                    col,
                    mod_,
                },
            )
        } else {
            None
        }
    } else {
        None
    }
}

/// What a raw event record of class `ty` says: the fields that the
/// class uses, under the variant of the class. A class that is no
/// single known one, or a kind number that is not known, gives
/// `Unknown`.
pub open spec fn event_of_raw(ty: TickitEventType, ar: c::TickitEvent) -> EventView {
    if ty.bits == c::TICKIT_EV_RESIZE {
        EventView::Resize { lines: ar.lines as int, cols: ar.cols as int }
    } else if ty.bits == c::TICKIT_EV_KEY {
        if ar.type_ == TickitKeyEventType::TICKIT_KEYEV_KEY.code() {
            EventView::Key(KeyEventView::Key { key: ar.str_@, mod_: ar.mod_ })
        } else if ar.type_ == TickitKeyEventType::TICKIT_KEYEV_TEXT.code() {
            EventView::Key(KeyEventView::Text { text: ar.str_@, mod_: ar.mod_ })
        } else {
            EventView::Unknown
        }
    } else if ty.bits == c::TICKIT_EV_MOUSE {
        match mouse_of_raw(ar.type_ as int, ar.button, ar.line, ar.col, ar.mod_) {
            Some(m) => EventView::Mouse(m),
            None => EventView::Unknown,
        }
    } else if ty.bits == c::TICKIT_EV_CHANGE {
        EventView::Change
    } else if ty.bits == c::TICKIT_EV_UNBIND {
        EventView::Unbind
    } else {
        EventView::Unknown
    }
}

/// Turns a raw event record into the event it stands for.
pub fn event_args(ty: TickitEventType, ar: &c::TickitEvent) -> (ev: TickitEvent)
    ensures
        ev@ == event_of_raw(ty, *ar),
{
    if ty.bits == c::TICKIT_EV_RESIZE {
        TickitEvent::ResizeEvent { lines: ar.lines, cols: ar.cols }
    } else if ty.bits == c::TICKIT_EV_KEY {
        match TickitKeyEventType::from_value(ar.type_) {
            Some(TickitKeyEventType::TICKIT_KEYEV_KEY) => TickitEvent::KeyEvent(
                TickitKeyEvent::KeyKeyEvent { key: ar.str_.clone(), mod_: ar.mod_ },
            ),
            Some(TickitKeyEventType::TICKIT_KEYEV_TEXT) => TickitEvent::KeyEvent(
                TickitKeyEvent::KeyTextEvent { text: ar.str_.clone(), mod_: ar.mod_ },
            ),
            None => TickitEvent::UnknownEvent,
        }
    } else if ty.bits == c::TICKIT_EV_MOUSE {
        match TickitMouseEventType::from_value(ar.type_) {
            Some(TickitMouseEventType::TICKIT_MOUSEEV_PRESS) => TickitEvent::MouseEvent(
                TickitMouseEvent::MousePressEvent {
                    button: ar.button,
                    line: ar.line,
                    col: ar.col,
                    mod_: ar.mod_,
                },
            ),
            Some(TickitMouseEventType::TICKIT_MOUSEEV_DRAG) => TickitEvent::MouseEvent(
                TickitMouseEvent::MouseDragEvent {
                    button: ar.button,
                    line: ar.line,
                    col: ar.col,
                    mod_: ar.mod_,
                },
            ),
            Some(TickitMouseEventType::TICKIT_MOUSEEV_RELEASE) => TickitEvent::MouseEvent(
                TickitMouseEvent::MouseReleaseEvent {
                    button: ar.button,
                    line: ar.line,
                    col: ar.col,
                    mod_: ar.mod_,
                },
            ),
            Some(TickitMouseEventType::TICKIT_MOUSEEV_WHEEL) => {
                match X_Tickit_MouseWheel::from_value(ar.button) {
                    Some(dir) => TickitEvent::MouseEvent(
                        TickitMouseEvent::MouseWheelEvent {
                            dir,
                            line: ar.line,
                            col: ar.col,
                            mod_: ar.mod_,
                        },
                    ),
                    None => TickitEvent::UnknownEvent,
                }
            },
            None => TickitEvent::UnknownEvent,
        }
    } else if ty.bits == c::TICKIT_EV_CHANGE {
        TickitEvent::ChangeEvent
    } else if ty.bits == c::TICKIT_EV_UNBIND {
        TickitEvent::UnbindEvent
    } else {
        TickitEvent::UnknownEvent
    }
}

/// A bound handler: its id and the event classes it asked for.
#[derive(Clone, Copy, Debug, PartialEq, Eq, Structural)]
pub struct Hook {
    pub id: i32,
    pub ev: TickitEventType,
}

/// The handlers bound to one object, in the order they were bound.
pub struct HookList {
    hooks: Vec<Hook>,
    next_id: i32,
}

/// The ids of the hooks of `hooks` that asked for a class of `ev`, in
/// the order of `hooks`.
pub open spec fn ids_for(hooks: Seq<Hook>, ev: TickitEventType) -> Seq<i32>
    decreases hooks.len(),
{
    if hooks.len() == 0 {
        Seq::empty()
    } else if hooks.last().ev.meets(ev) {
        ids_for(hooks.drop_last(), ev).push(hooks.last().id)
    } else {
        ids_for(hooks.drop_last(), ev)
    }
}

/// Whether a hook of `hooks` has the id `id`.
pub open spec fn has_id(hooks: Seq<Hook>, id: i32) -> bool {
    exists|i: int| 0 <= i < hooks.len() && (#[trigger] hooks[i]).id == id
}

/// `hooks` without the hooks that have the id `id`.
pub open spec fn without_id(hooks: Seq<Hook>, id: i32) -> Seq<Hook>
    decreases hooks.len(),
{
    if hooks.len() == 0 {
        Seq::empty()
    } else if hooks.last().id == id {
        without_id(hooks.drop_last(), id)
    } else {
        without_id(hooks.drop_last(), id).push(hooks.last())
    }
}

/// Whether a hook of `hooks` with the id `id` asked to be told of its
/// unbinding.
pub open spec fn wants_unbind(hooks: Seq<Hook>, id: i32) -> bool {
    exists|i: int|
        0 <= i < hooks.len() && (#[trigger] hooks[i]).id == id && hooks[i].ev.meets(
            TickitEventType { bits: c::TICKIT_EV_UNBIND },
        )
}

impl HookList {
    /// The bound hooks, oldest first.
    pub closed spec fn view(&self) -> Seq<Hook> {
        self.hooks@
    }

    /// The id that the next binding gets.
    pub closed spec fn next(&self) -> int {
        self.next_id as int
    }

    /// Ids are given out in rising order, so every bound hook has an id
    /// below the next one.
    pub closed spec fn wf(&self) -> bool {
        &&& self.next_id >= 0
        &&& forall|i: int| 0 <= i < self.hooks@.len() ==> 0 <= (#[trigger] self.hooks@[i]).id
            < self.next_id
    }

    pub fn new() -> (h: HookList)
        ensures
            h.wf(),
            h@ == Seq::<Hook>::empty(),
            h.next() == 0,
    {
        HookList { hooks: Vec::new(), next_id: 0 }
    }

    /// Binds a handler for the classes of `ev` and returns its id; when
    /// all ids have been given out, binds nothing and returns -1.
    pub fn bind(&mut self, ev: TickitEventType) -> (id: i32)
        requires
            old(self).wf(),
        ensures
            final(self).wf(),
            old(self).next() < i32::MAX ==> id == old(self).next() && final(self)@ == old(self)@.push(
                Hook { id, ev },
            ) && final(self).next() == id + 1 && !has_id(old(self)@, id),
            old(self).next() == i32::MAX ==> id == -1 && final(self)@ == old(self)@
                && final(self).next() == old(self).next(),
    {
        if self.next_id == i32::MAX {
            return -1;
        }
        let id = self.next_id;
        self.hooks.push(Hook { id, ev });
        self.next_id = id + 1;
        id
    }

    /// Removes the handler with the id `id`. Returns whether it was
    /// bound and had asked to be told of its unbinding.
    pub fn unbind(&mut self, id: i32) -> (notify: bool)
        requires
            old(self).wf(),
        ensures
            final(self).wf(),
            final(self)@ == without_id(old(self)@, id),
            final(self).next() == old(self).next(),
            notify == wants_unbind(old(self)@, id),
            !has_id(final(self)@, id),
    {
        let mut kept: Vec<Hook> = Vec::new();
        let mut notify = false;
        let mut i: usize = 0;
        let unbind_class = TickitEventType::from_bits(c::TICKIT_EV_UNBIND);
        while i < self.hooks.len()
            invariant
                i <= self.hooks.len(),
                self.hooks@ == old(self).hooks@,
                self.next_id == old(self).next_id,
                unbind_class.bits == c::TICKIT_EV_UNBIND,
                kept@ == without_id(self.hooks@.subrange(0, i as int), id),
                notify == wants_unbind(self.hooks@.subrange(0, i as int), id),
                forall|k: int| 0 <= k < kept@.len() ==> 0 <= (#[trigger] kept@[k]).id < self.next_id
                    && kept@[k].id != id,
                old(self).wf(),
            decreases self.hooks.len() - i,
        {
            let h = self.hooks[i];
            proof {
                let pre = self.hooks@.subrange(0, i as int);
                let cur = self.hooks@.subrange(0, i as int + 1);
                assert(cur.drop_last() =~= pre);
                assert(cur.last() == h);
                if wants_unbind(pre, id) {
                    let k = choose|k: int|
                        0 <= k < pre.len() && (#[trigger] pre[k]).id == id && pre[k].ev.meets(
                            unbind_class,
                        );
                    assert(cur[k].id == id);
                }
                if wants_unbind(cur, id) {
                    let k = choose|k: int|
                        0 <= k < cur.len() && (#[trigger] cur[k]).id == id && cur[k].ev.meets(
                            unbind_class,
                        );
                    if k < pre.len() {
                        assert(pre[k].id == id);
                    }
                }
                if h.id == id && h.ev.meets(unbind_class) {
                    assert(cur[i as int].id == id);
                }
                assert(old(self).hooks@[i as int] == h);
            }
            if h.id == id {
                if h.ev.intersects(unbind_class) {
                    notify = true;
                }
            } else {
                kept.push(h);
            }
            i += 1;
        }
        assert(self.hooks@.subrange(0, self.hooks@.len() as int) =~= self.hooks@);
        self.hooks = kept;
        assert(!has_id(self.hooks@, id));
        notify
    }

    /// Unbinds every handler. Ids given out before are not given out
    /// again.
    pub fn clear(&mut self)
        requires
            old(self).wf(),
        ensures
            final(self).wf(),
            final(self)@ == Seq::<Hook>::empty(),
            final(self).next() == old(self).next(),
    {
        self.hooks = Vec::new();
    }

    pub fn is_bound(&self, id: i32) -> (r: bool)
        ensures
            r == has_id(self@, id),
    {
        let mut i: usize = 0;
        while i < self.hooks.len()
            invariant
                i <= self.hooks.len(),
                forall|k: int| 0 <= k < i ==> (#[trigger] self.hooks@[k]).id != id,
            decreases self.hooks.len() - i,
        {
            if self.hooks[i].id == id {
                return true;
            }
            i += 1;
        }
        false
    }

    /// The ids of the handlers that an event of a class of `ev` goes
    /// to, in the order they were bound.
    pub fn matching(&self, ev: TickitEventType) -> (ids: Vec<i32>)
        ensures
            ids@ == ids_for(self@, ev),
    {
        let mut ids: Vec<i32> = Vec::new();
        let mut i: usize = 0;
        while i < self.hooks.len()
            invariant
                i <= self.hooks.len(),
                ids@ == ids_for(self.hooks@.subrange(0, i as int), ev),
            decreases self.hooks.len() - i,
        {
            let h = self.hooks[i];
            proof {
                let pre = self.hooks@.subrange(0, i as int);
                let cur = self.hooks@.subrange(0, i as int + 1);
                assert(cur.drop_last() =~= pre);
                assert(cur.last() == h);
            }
            if h.ev.intersects(ev) {
                ids.push(h.id);
            }
            i += 1;
        }
        assert(self.hooks@.subrange(0, self.hooks@.len() as int) =~= self.hooks@);
        ids
    }
}

/// A call that is owed to a handler: the handler's id and the event to
/// hand it.
pub struct Dispatch {
    pub id: i32,
    pub event: TickitEvent,
}

} // verus!
