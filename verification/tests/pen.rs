use tickit::c::{
    TickitEventType, TickitPenAttr, TICKIT_EV_CHANGE, TICKIT_EV_UNBIND, TICKIT_PENTYPE_BOOL,
    TICKIT_PENTYPE_COLOUR, TICKIT_PENTYPE_INT, TICKIT_PEN_ALTFONT, TICKIT_PEN_BG, TICKIT_PEN_BOLD,
    TICKIT_PEN_FG, TICKIT_PEN_ITALIC, TICKIT_PEN_REVERSE, TICKIT_PEN_STRIKE, TICKIT_PEN_UNDER,
    TICKIT_N_PEN_ATTRS,
};
use tickit::event::TickitEvent;
use tickit::TickitPen;

fn drain(pen: &mut TickitPen, id: i32, changed: &mut i32) {
    for d in pen.take_events() {
        if d.id == id {
            if let TickitEvent::ChangeEvent = d.event {
                *changed += 1;
            }
        }
    }
}

#[test]
fn test_02pen() {
    let mut changed = 0;

    {
        let mut pen = TickitPen::new();

        let hook = pen.bind_event(TickitEventType::from_bits(TICKIT_EV_CHANGE));

        assert_eq!(TICKIT_PEN_BOLD.attrtype(), TICKIT_PENTYPE_BOOL, "bold is a boolean attribute");

        assert_eq!(TickitPenAttr::lookup_attr("b"), TICKIT_PEN_BOLD, "lookup_attr \"b\" gives bold");
        assert_eq!(TICKIT_PEN_BOLD.attrname(), "b", "pen_attrname bold gives \"b\"");

        drain(&mut pen, hook, &mut changed);
        assert_eq!(changed, 0, "change counter 0 initially");

        assert!(!pen.has_attr(TICKIT_PEN_BOLD), "pen lacks bold initially");
        assert!(!pen.nondefault_attr(TICKIT_PEN_BOLD), "pen bold attr is default initially");
        assert_eq!(pen.get_bool_attr(TICKIT_PEN_BOLD), false, "bold 0 initially");

        assert!(!pen.is_nonempty(), "pen initially empty");
        assert!(!pen.is_nondefault(), "pen initially default");

        pen.set_bool_attr(TICKIT_PEN_BOLD, true);

        assert!(pen.has_attr(TICKIT_PEN_BOLD), "pen has bold after set");
        assert!(pen.nondefault_attr(TICKIT_PEN_BOLD), "pen bold attr is nondefault after set");
        assert_eq!(pen.get_bool_attr(TICKIT_PEN_BOLD), true, "bold 1 after set");

        assert!(pen.is_nonempty(), "pen non-empty after set bold on");
        assert!(pen.is_nondefault(), "pen non-default after set bold on");

        drain(&mut pen, hook, &mut changed);
        assert_eq!(changed, 1, "change counter 1 after set bold on");

        pen.set_bool_attr(TICKIT_PEN_BOLD, false);

        assert!(!pen.nondefault_attr(TICKIT_PEN_BOLD), "pen bold attr is default after set bold off");

        assert!(pen.is_nonempty(), "pen non-empty after set bold off");
        assert!(!pen.is_nondefault(), "pen default after set bold off");

        drain(&mut pen, hook, &mut changed);
        assert_eq!(changed, 2, "change counter 2 after set bold off");

        pen.clear_attr(TICKIT_PEN_BOLD);

        assert!(!pen.has_attr(TICKIT_PEN_BOLD), "pen lacks bold after clear");
        assert_eq!(pen.get_bool_attr(TICKIT_PEN_BOLD), false, "bold 0 after clear");

        drain(&mut pen, hook, &mut changed);
        assert_eq!(changed, 3, "change counter 3 after clear bold");

        assert_eq!(TICKIT_PEN_FG.attrtype(), TICKIT_PENTYPE_COLOUR, "foreground is a colour attribute");

        assert!(!pen.has_attr(TICKIT_PEN_FG), "pen lacks foreground initially");
        assert_eq!(pen.get_colour_attr(TICKIT_PEN_FG), -1, "foreground -1 initially");

        pen.set_colour_attr(TICKIT_PEN_FG, 4);

        assert!(pen.has_attr(TICKIT_PEN_FG), "pen has foreground after set");
        assert_eq!(pen.get_colour_attr(TICKIT_PEN_FG), 4, "foreground 4 after set");

        assert!(pen.set_colour_attr_desc(TICKIT_PEN_FG, "12"), "pen set foreground '12'");
        assert_eq!(pen.get_colour_attr(TICKIT_PEN_FG), 12, "foreground 12 after set '12'");

        assert!(pen.set_colour_attr_desc(TICKIT_PEN_FG, "green"), "pen set foreground 'green'");
        assert_eq!(pen.get_colour_attr(TICKIT_PEN_FG), 2, "foreground 2 after set 'green'");

        assert!(pen.set_colour_attr_desc(TICKIT_PEN_FG, "hi-red"), "pen set foreground 'hi-red'");
        assert_eq!(pen.get_colour_attr(TICKIT_PEN_FG), 8 + 1, "foreground 8+1 after set 'hi-red'");

        pen.clear_attr(TICKIT_PEN_FG);

        assert!(!pen.has_attr(TICKIT_PEN_FG), "pen lacks foreground after clear");
        assert_eq!(pen.get_colour_attr(TICKIT_PEN_FG), -1, "foreground -1 after clear");

        let mut pen2 = TickitPen::new();

        assert!(pen.equiv_attr(&pen2, TICKIT_PEN_BOLD), "pens have equiv bold attribute initially");

        pen.set_bool_attr(TICKIT_PEN_BOLD, true);

        assert!(!pen.equiv_attr(&pen2, TICKIT_PEN_BOLD), "pens have unequiv bold attribute after set");

        assert!(pen.equiv_attr(&pen2, TICKIT_PEN_ITALIC), "pens have equiv italic attribute");

        // a pen that sets italic, though to its default, and one that leaves it
        // unset do not agree on it: they differ in whether it is set
        pen.set_bool_attr(TICKIT_PEN_ITALIC, false);
        assert!(!pen.equiv_attr(&pen2, TICKIT_PEN_ITALIC), "set to default is not unset");
        assert_eq!(
            pen.get_bool_attr(TICKIT_PEN_ITALIC),
            pen2.get_bool_attr(TICKIT_PEN_ITALIC),
            "pens have the same italic value after set 0"
        );

        pen2.copy_attr(&pen, TICKIT_PEN_BOLD);
        assert!(pen.equiv_attr(&pen2, TICKIT_PEN_BOLD), "pens have equiv bold attribute after copy attr");

        pen2.clear_attr(TICKIT_PEN_BOLD);
        pen2.copy(&pen, true);

        assert!(pen.equiv_attr(&pen2, TICKIT_PEN_BOLD), "pens have equiv bold attribute after copy");

        pen2.set_bool_attr(TICKIT_PEN_BOLD, false);
        pen2.copy(&pen, false);

        assert!(
            !pen.equiv_attr(&pen2, TICKIT_PEN_BOLD),
            "pens have non-equiv bold attribute after copy no overwrite"
        );

        pen.set_bool_attr(TICKIT_PEN_UNDER, false);
        pen2.clear_attr(TICKIT_PEN_UNDER);
        pen2.copy(&pen, true);

        assert!(
            pen2.has_attr(TICKIT_PEN_UNDER),
            "pen copy still copies present but default-value attributes"
        );
    }

    let pen = TickitPen::new().with_bool_attr(TICKIT_PEN_BOLD, true).with_colour_attr(TICKIT_PEN_FG, 3);
    assert_eq!(pen.get_bool_attr(TICKIT_PEN_BOLD), true, "pen bold attr for new_attrs");
    assert_eq!(pen.get_colour_attr(TICKIT_PEN_FG), 3, "pen fg attr for new_attrs");
}

#[test]
fn pen_copy_then_equiv() {
    let src = TickitPen::new()
        .with_bool_attr(TICKIT_PEN_BOLD, true)
        .with_bool_attr(TICKIT_PEN_UNDER, false)
        .with_colour_attr(TICKIT_PEN_FG, 3)
        .with_int_attr(TICKIT_PEN_ALTFONT, 2);
    let mut dst = TickitPen::new().with_bool_attr(TICKIT_PEN_BOLD, false).with_colour_attr(TICKIT_PEN_FG, 1);
    dst.copy(&src, true);
    assert!(dst.equiv(&src));
    for i in 0..8 {
        assert!(dst.equiv_attr(&src, TickitPenAttr::from_index(i)));
    }
    // an attribute that only the target sets stays, and the pens differ on it
    let mut dst = TickitPen::new().with_bool_attr(TICKIT_PEN_STRIKE, true);
    dst.copy(&src, true);
    assert!(dst.equiv_attr(&src, TICKIT_PEN_BOLD));
    assert!(dst.get_bool_attr(TICKIT_PEN_STRIKE));
    assert!(!dst.equiv_attr(&src, TICKIT_PEN_STRIKE));
    assert!(!dst.equiv(&src));
}

#[test]
fn pen_attr_names_and_kinds() {
    let names = ["fg", "bg", "b", "u", "i", "rv", "strike", "af"];
    for (i, n) in names.iter().enumerate() {
        let a = TickitPenAttr::from_index(i);
        assert_eq!(a.attrname(), *n);
        assert_eq!(a.attrname_opt(), Some(*n));
        assert_eq!(TickitPenAttr::lookup_attr(n), a);
    }
    assert_eq!(TICKIT_N_PEN_ATTRS.attrname_opt(), None);
    assert_eq!(TickitPenAttr::lookup_attr("bold"), TICKIT_N_PEN_ATTRS);
    assert_eq!(TickitPenAttr::from_index(8), TICKIT_N_PEN_ATTRS);
    assert_eq!(TICKIT_PEN_BG.attrtype(), TICKIT_PENTYPE_COLOUR);
    assert_eq!(TICKIT_PEN_ALTFONT.attrtype(), TICKIT_PENTYPE_INT);
    for a in [TICKIT_PEN_UNDER, TICKIT_PEN_ITALIC, TICKIT_PEN_REVERSE, TICKIT_PEN_STRIKE] {
        assert_eq!(a.attrtype(), TICKIT_PENTYPE_BOOL);
    }
}

#[test]
fn pen_colour_descriptions() {
    let mut pen = TickitPen::new();
    let cases = [
        ("0", 0),
        ("7", 7),
        ("255", 255),
        ("black", 0),
        ("red", 1),
        ("yellow", 3),
        ("blue", 4),
        ("magenta", 5),
        ("cyan", 6),
        ("white", 7),
        ("hi-black", 8),
        ("hi-white", 15),
        ("hi-3", 11),
    ];
    for (desc, want) in cases {
        assert!(pen.set_colour_attr_desc(TICKIT_PEN_BG, desc), "{}", desc);
        assert_eq!(pen.get_colour_attr(TICKIT_PEN_BG), want, "{}", desc);
    }
    pen.set_colour_attr(TICKIT_PEN_BG, 5);
    for desc in ["", "hi-", "hi-8", "reddish", "Red", "12x", "-1", "hi-hi-red", "1234567890"] {
        assert!(!pen.set_colour_attr_desc(TICKIT_PEN_BG, desc), "{}", desc);
        assert_eq!(pen.get_colour_attr(TICKIT_PEN_BG), 5, "{}", desc);
    }
    // an attribute that holds no colour takes none
    assert!(!pen.set_colour_attr_desc(TICKIT_PEN_BOLD, "red"));
    assert!(!pen.has_attr(TICKIT_PEN_BOLD));
}

#[test]
fn pen_wrong_kind_is_left_alone() {
    let mut pen = TickitPen::new();
    let hook = pen.bind_event(TickitEventType::from_bits(TICKIT_EV_CHANGE));
    pen.set_bool_attr(TICKIT_PEN_FG, true);
    pen.set_int_attr(TICKIT_PEN_BOLD, 3);
    pen.set_colour_attr(TICKIT_PEN_ALTFONT, 3);
    pen.clear_attr(TICKIT_N_PEN_ATTRS);
    assert!(!pen.is_nonempty());
    let mut changed = 0;
    drain(&mut pen, hook, &mut changed);
    assert_eq!(changed, 0);
    assert_eq!(pen.get_int_attr(TICKIT_PEN_ALTFONT), -1);
    pen.set_int_attr(TICKIT_PEN_ALTFONT, 0);
    assert_eq!(pen.get_int_attr(TICKIT_PEN_ALTFONT), 0);
    assert_eq!(pen.maybe_get_int_attr(TICKIT_PEN_ALTFONT), Some(0));
    assert_eq!(pen.maybe_get_bool_attr(TICKIT_PEN_BOLD), None);
    assert_eq!(pen.maybe_get_colour_attr(TICKIT_PEN_FG), None);
    assert!(pen.nondefault_attr(TICKIT_PEN_ALTFONT));
    pen.clear();
    assert!(!pen.is_nonempty());
    drain(&mut pen, hook, &mut changed);
    assert_eq!(changed, 2);
}

#[test]
fn pen_handlers_in_order_and_unbound() {
    let mut pen = TickitPen::new();
    let change = TickitEventType::from_bits(TICKIT_EV_CHANGE);
    let a = pen.bind_event(change);
    let b = pen.bind_event(change.union(TickitEventType::from_bits(TICKIT_EV_UNBIND)));
    let c = pen.bind_event(TickitEventType::from_bits(TICKIT_EV_UNBIND));
    assert_eq!((a, b, c), (0, 1, 2));
    pen.set_bool_attr(TICKIT_PEN_BOLD, true);
    let ids: Vec<i32> = pen.take_events().iter().map(|d| d.id).collect();
    assert_eq!(ids, vec![0, 1]);
    pen.unbind_event_id(b);
    let calls = pen.take_events();
    assert_eq!(calls.len(), 1);
    assert_eq!(calls[0].id, b);
    assert!(matches!(calls[0].event, TickitEvent::UnbindEvent));
    pen.unbind_event_id(a);
    assert_eq!(pen.take_events().len(), 0);
    pen.set_bool_attr(TICKIT_PEN_BOLD, false);
    assert_eq!(pen.take_events().len(), 0);
    // a clone has the attributes and no handlers
    let mut twin = pen.clone();
    assert!(twin.equiv(&pen));
    twin.set_bool_attr(TICKIT_PEN_BOLD, true);
    assert_eq!(twin.take_events().len(), 0);
}

#[test]
fn pen_clone_from_copies_over() {
    let src = TickitPen::new().with_bool_attr(TICKIT_PEN_BOLD, true).with_colour_attr(TICKIT_PEN_FG, 3);
    let mut dst = TickitPen::new().with_bool_attr(TICKIT_PEN_ITALIC, true).with_colour_attr(TICKIT_PEN_FG, 1);
    let hook = dst.bind_event(TickitEventType::from_bits(TICKIT_EV_CHANGE));
    dst.clone_from(&src);
    assert!(dst.get_bool_attr(TICKIT_PEN_BOLD));
    assert!(dst.get_bool_attr(TICKIT_PEN_ITALIC), "what only the target sets stays");
    assert_eq!(dst.get_colour_attr(TICKIT_PEN_FG), 3);
    let mut changed = 0;
    drain(&mut dst, hook, &mut changed);
    assert_eq!(changed, 1);
    dst.clone_from(&src);
    drain(&mut dst, hook, &mut changed);
    assert_eq!(changed, 1, "nothing changed, nobody is told");
}
