use tickit::c::{
    TickitEvent as RawEvent, TickitEventType, TickitKeyEventType, TickitMouseEventType,
    X_Tickit_Mod, X_Tickit_MouseWheel, TICKIT_EV_CHANGE, TICKIT_EV_KEY, TICKIT_EV_MOUSE,
    TICKIT_EV_RESIZE, TICKIT_EV_UNBIND, TICKIT_LINE_DOUBLE, TICKIT_LINE_SINGLE, TICKIT_LINE_THICK,
    TICKIT_MOD_ALT, TICKIT_MOD_SHIFT, TICKIT_MOUSEWHEEL_DOWN, TICKIT_PEN_BOLD, X_TICKIT_LINE_NONE,
};
use tickit::drv::{CDriverRef, TermKeyEvent, TermKeyMouseEvent};
use tickit::event::{event_args, HookList};
use tickit::linechars::{line_char, LineBits};
use tickit::mock::{LogRecord, X_TickitMockTermLogType};
use tickit::pen::PenAttrs;
use tickit::renderbuffer::TickitRenderBufferLineMask;
use tickit::term::key_event;
use tickit::{TickitEvent, TickitKeyEvent, TickitMouseEvent, TickitRect};

fn raw() -> RawEvent {
    RawEvent {
        lines: 30,
        cols: 100,
        type_: 0,
        str_: "Up".to_string(),
        button: 2,
        line: 4,
        col: 7,
        mod_: X_Tickit_Mod::from_bits(TICKIT_MOD_SHIFT),
    }
}

#[test]
fn raw_events_become_events() {
    let class = TickitEventType::from_bits;
    match event_args(class(TICKIT_EV_RESIZE), &raw()) {
        TickitEvent::ResizeEvent { lines, cols } => assert_eq!((lines, cols), (30, 100)),
        _ => panic!("resize"),
    }
    let mut r = raw();
    r.type_ = TickitKeyEventType::TICKIT_KEYEV_KEY.value();
    match event_args(class(TICKIT_EV_KEY), &r) {
        TickitEvent::KeyEvent(TickitKeyEvent::KeyKeyEvent { key, mod_ }) => {
            assert_eq!(key, "Up");
            assert_eq!(mod_.bits, TICKIT_MOD_SHIFT);
        }
        _ => panic!("key"),
    }
    r.type_ = TickitKeyEventType::TICKIT_KEYEV_TEXT.value();
    match event_args(class(TICKIT_EV_KEY), &r) {
        TickitEvent::KeyEvent(TickitKeyEvent::KeyTextEvent { text, .. }) => assert_eq!(text, "Up"),
        _ => panic!("text"),
    }
    r.type_ = 9;
    assert!(matches!(event_args(class(TICKIT_EV_KEY), &r), TickitEvent::UnknownEvent));

    r.type_ = TickitMouseEventType::TICKIT_MOUSEEV_PRESS.value();
    match event_args(class(TICKIT_EV_MOUSE), &r) {
        TickitEvent::MouseEvent(TickitMouseEvent::MousePressEvent { button, line, col, .. }) => {
            assert_eq!((button, line, col), (2, 4, 7))
        }
        _ => panic!("press"),
    }
    r.type_ = TickitMouseEventType::TICKIT_MOUSEEV_DRAG.value();
    assert!(matches!(
        event_args(class(TICKIT_EV_MOUSE), &r),
        TickitEvent::MouseEvent(TickitMouseEvent::MouseDragEvent { .. })
    ));
    r.type_ = TickitMouseEventType::TICKIT_MOUSEEV_RELEASE.value();
    assert!(matches!(
        event_args(class(TICKIT_EV_MOUSE), &r),
        TickitEvent::MouseEvent(TickitMouseEvent::MouseReleaseEvent { .. })
    ));
    r.type_ = TickitMouseEventType::TICKIT_MOUSEEV_WHEEL.value();
    match event_args(class(TICKIT_EV_MOUSE), &r) {
        TickitEvent::MouseEvent(TickitMouseEvent::MouseWheelEvent { dir, .. }) => {
            assert_eq!(dir, TICKIT_MOUSEWHEEL_DOWN);
            assert_eq!(dir.value(), X_Tickit_MouseWheel::TICKIT_MOUSEWHEEL_DOWN.value());
        }
        _ => panic!("wheel"),
    }
    r.button = 7;
    assert!(matches!(event_args(class(TICKIT_EV_MOUSE), &r), TickitEvent::UnknownEvent));

    assert!(matches!(event_args(class(TICKIT_EV_CHANGE), &r), TickitEvent::ChangeEvent));
    assert!(matches!(event_args(class(TICKIT_EV_UNBIND), &r), TickitEvent::UnbindEvent));
    assert!(matches!(
        event_args(class(TICKIT_EV_KEY | TICKIT_EV_MOUSE), &r),
        TickitEvent::UnknownEvent
    ));
    assert!(matches!(event_args(class(0), &r), TickitEvent::UnknownEvent));
}

#[test]
fn decoded_keys_become_events() {
    let k = TermKeyEvent::UnicodeEvent {
        mods: TICKIT_MOD_ALT,
        codepoint: 0x78,
        utf8: "x".to_string(),
        name: "M-x".to_string(),
    };
    match key_event(&k) {
        Some(TickitEvent::KeyEvent(TickitKeyEvent::KeyKeyEvent { key, mod_ })) => {
            assert_eq!(key, "M-x");
            assert_eq!(mod_.bits, TICKIT_MOD_ALT);
        }
        _ => panic!("a character with a modifier goes by its name"),
    }
    let m = |ev, button| TermKeyEvent::MouseEvent { mods: 0, ev, button, line: 3, col: 9 };
    assert!(matches!(
        key_event(&m(TermKeyMouseEvent::Drag, 1)),
        Some(TickitEvent::MouseEvent(TickitMouseEvent::MouseDragEvent { button: 1, line: 2, col: 8, .. }))
    ));
    assert!(matches!(
        key_event(&m(TermKeyMouseEvent::Release, 3)),
        Some(TickitEvent::MouseEvent(TickitMouseEvent::MouseReleaseEvent { button: 3, line: 2, col: 8, .. }))
    ));
    assert!(matches!(
        key_event(&m(TermKeyMouseEvent::Press, 5)),
        Some(TickitEvent::MouseEvent(TickitMouseEvent::MouseWheelEvent {
            dir: TICKIT_MOUSEWHEEL_DOWN,
            ..
        }))
    ));
    assert!(key_event(&m(TermKeyMouseEvent::Unknown, 1)).is_none());
    assert!(key_event(&TermKeyEvent::PositionEvent { line: 1, col: 1 }).is_none());
    assert!(key_event(&TermKeyEvent::ModeReportEvent { initial: b'?', mode: 69, value: 1 }).is_none());
    assert!(key_event(&TermKeyEvent::UnknownCsiEvent).is_none());
}

#[test]
fn hook_list_order_and_ids() {
    let mut hooks = HookList::new();
    let key = TickitEventType::from_bits(TICKIT_EV_KEY);
    let mouse = TickitEventType::from_bits(TICKIT_EV_MOUSE);
    let a = hooks.bind(key);
    let b = hooks.bind(mouse);
    let c = hooks.bind(key.union(mouse).union(TickitEventType::from_bits(TICKIT_EV_UNBIND)));
    assert_eq!((a, b, c), (0, 1, 2));
    assert_eq!(hooks.matching(key), vec![a, c]);
    assert_eq!(hooks.matching(mouse), vec![b, c]);
    assert_eq!(hooks.matching(TickitEventType::from_bits(TICKIT_EV_RESIZE)), Vec::<i32>::new());
    assert!(!hooks.unbind(a), "it did not ask to be told");
    assert!(!hooks.unbind(a), "it is not bound any more");
    assert!(hooks.unbind(c));
    assert!(!hooks.is_bound(c));
    assert!(hooks.is_bound(b));
    assert_eq!(hooks.matching(key), Vec::<i32>::new());
    assert_eq!(hooks.bind(key), 3);
    hooks.clear();
    assert!(!hooks.is_bound(b));
    assert_eq!(hooks.bind(key), 4);
}

#[test]
fn driver_side_of_a_terminal() {
    let mut pen = PenAttrs::new();
    pen.set_flag(TICKIT_PEN_BOLD, true);
    let mut cdr = CDriverRef { out: Vec::new(), pen, lines: 24, cols: 80 };
    cdr.write_str("ab");
    cdr.write_decimal(1049);
    cdr.write_bytes(b"!");
    cdr.write_decimal(0);
    assert_eq!(cdr.out, b"ab1049!0");
    let p = cdr.current_pen();
    assert!(p.get_bool_attr(TICKIT_PEN_BOLD));
    assert!(!p.has_attr(tickit::c::TICKIT_PEN_FG));
}

#[test]
fn log_record_kinds() {
    let rect = TickitRect::init_sized(0, 0, 1, 1);
    let cases = [
        (LogRecord::Goto { line: 1, col: 2 }, X_TickitMockTermLogType::LOG_GOTO),
        (LogRecord::Print { text: b"x".to_vec() }, X_TickitMockTermLogType::LOG_PRINT),
        (LogRecord::EraseCh { count: 1, moveend: None }, X_TickitMockTermLogType::LOG_ERASECH),
        (LogRecord::Clear, X_TickitMockTermLogType::LOG_CLEAR),
        (LogRecord::ScrollRect { downward: 1, rightward: 0, rect }, X_TickitMockTermLogType::LOG_SCROLLRECT),
        (LogRecord::SetPen { pen: PenAttrs::new() }, X_TickitMockTermLogType::LOG_SETPEN),
    ];
    for (record, kind) in cases {
        assert_eq!(record.log_type(), kind);
    }
}

#[test]
fn line_masks_and_characters() {
    let mask = TickitRenderBufferLineMask {
        north: TICKIT_LINE_SINGLE,
        south: TICKIT_LINE_DOUBLE,
        east: TICKIT_LINE_THICK,
        west: X_TICKIT_LINE_NONE,
    };
    let bits = mask.to_c();
    assert_eq!(bits, LineBits { north: 1, east: 3, south: 2, west: 0 });
    assert_eq!(TickitRenderBufferLineMask::from_c(bits), mask);
    let ch = |n, e, s, w| char::from_u32(line_char(&LineBits { north: n, east: e, south: s, west: w })).unwrap();
    assert_eq!(ch(0, 0, 0, 0), ' ');
    assert_eq!(ch(0, 1, 0, 1), '\u{2500}');
    assert_eq!(ch(1, 0, 1, 0), '\u{2502}');
    assert_eq!(ch(0, 3, 0, 3), '\u{2501}');
    assert_eq!(ch(1, 1, 1, 1), '\u{253c}');
    assert_eq!(ch(3, 3, 3, 3), '\u{254b}');
    assert_eq!(ch(3, 1, 1, 1), '\u{2540}');
    assert_eq!(ch(0, 3, 1, 0), '\u{250d}');
    assert_eq!(ch(0, 0, 0, 1), '\u{2574}');
    assert_eq!(ch(3, 0, 1, 0), '\u{257f}');
    assert_eq!(ch(2, 2, 2, 2), '\u{256c}');
    assert_eq!(ch(0, 2, 0, 2), '\u{2550}');
    assert_eq!(ch(0, 2, 1, 0), '\u{2552}');
    assert_eq!(ch(2, 1, 2, 1), '\u{256b}');
    // a double line that ends in the cell goes through; a thick line beside a double one is single
    assert_eq!(ch(0, 2, 0, 0), '\u{2550}');
    assert_eq!(ch(3, 2, 3, 2), '\u{256a}');
    // only the two low bits of a style count
    assert_eq!(ch(4, 5, 4, 5), '\u{2500}');
}
