use tickit::c::{
    TICKIT_PEN_BG, TICKIT_PEN_BOLD, TICKIT_PEN_FG, TICKIT_PEN_UNDER, TICKIT_TERMCTL_ALTSCREEN,
    TICKIT_TERMCTL_COLORS, TICKIT_TERMCTL_CURSORVIS, TICKIT_TERMCTL_MOUSE,
};
use tickit::drv::ti::{expand, TermCaps, TiCap, TiDriver};
use tickit::term::TickitTerm;
use tickit::{TickitPen, TickitRect};

/// What the terminfo database says of the terminal type "screen".
fn screen_caps() -> TermCaps {
    TermCaps::new()
        .with(TiCap::Cup, "\x1b[%i%p1%d;%p2%dH")
        .with(TiCap::Vpa, "\x1b[%i%p1%dd")
        .with(TiCap::Hpa, "\x1b[%i%p1%dG")
        .with(TiCap::Cuu, "\x1b[%p1%dA")
        .with(TiCap::Cuu1, "\x1bM")
        .with(TiCap::Cud, "\x1b[%p1%dB")
        .with(TiCap::Cud1, "\n")
        .with(TiCap::Cuf, "\x1b[%p1%dC")
        .with(TiCap::Cuf1, "\x1b[C")
        .with(TiCap::Cub, "\x1b[%p1%dD")
        .with(TiCap::Cub1, "\x08")
        .with(TiCap::Ich, "\x1b[%p1%d@")
        .with(TiCap::Dch, "\x1b[%p1%dP")
        .with(TiCap::Dch1, "\x1b[P")
        .with(TiCap::Il, "\x1b[%p1%dL")
        .with(TiCap::Il1, "\x1b[L")
        .with(TiCap::Dl, "\x1b[%p1%dM")
        .with(TiCap::Dl1, "\x1b[M")
        .with(TiCap::Clear, "\x1b[H\x1b[J")
        .with(TiCap::Csr, "\x1b[%i%p1%d;%p2%dr")
        .with(TiCap::Sgr0, "\x1b[m\x0f")
        .with(TiCap::Setaf, "\x1b[3%p1%dm")
        .with(TiCap::Setab, "\x1b[4%p1%dm")
        .with(TiCap::Bold, "\x1b[1m")
        .with(TiCap::Smul, "\x1b[4m")
        .with(TiCap::Rev, "\x1b[7m")
        .with(TiCap::Smcup, "\x1b[?1049h")
        .with(TiCap::Rmcup, "\x1b[?1049l")
        .with(TiCap::Civis, "\x1b[?25l")
        .with(TiCap::Cnorm, "\x1b[34h\x1b[?25h")
}

fn out(tt: &mut TickitTerm<TiDriver>) -> String {
    String::from_utf8(tt.take_output()).unwrap()
}

#[test]
fn test_11term_output_screen() {
    let mut tt = TickitTerm::new_for_terminfo("screen", Some(screen_caps())).unwrap();

    assert_eq!(tt.get_termtype(), "screen", "get_termtype");

    tt.set_output_func();

    assert_eq!(tt.get_output_fd(), -1, "get_output_fd");

    tt.set_size(24, 80);

    let (lines, cols) = tt.get_size();
    assert_eq!(lines, 24, "get_size lines");
    assert_eq!(cols, 80, "get_size cols");

    tt.take_output();
    tt.print("Hello world!");
    assert_eq!(out(&mut tt), "Hello world!", "buffer after print");

    tt.goto(2, 5);
    assert_eq!(out(&mut tt), "\x1b[3;6H", "buffer after goto line+col");

    tt.goto(-1, 0);
    assert_eq!(out(&mut tt), "\r", "buffer after goto col=0");

    tt.move_(2, 0);
    assert_eq!(out(&mut tt), "\x1b[2B", "buffer after move down 2");

    tt.move_(-2, 0);
    assert_eq!(out(&mut tt), "\x1b[2A", "buffer after move up 2");

    tt.move_(0, 2);
    assert_eq!(out(&mut tt), "\x1b[2C", "buffer after move right 2");

    tt.move_(0, -2);
    assert_eq!(out(&mut tt), "\x1b[2D", "buffer after move left 2");

    tt.scrollrect(TickitRect::init_sized(3, 0, 7, 80), 1, 0);
    assert_eq!(
        out(&mut tt),
        "\x1b[4;10r\x1b[4;1H\x1b[M\x1b[1;24r",
        "buffer after scroll lines 3-9 1 down"
    );

    tt.scrollrect(TickitRect::init_sized(3, 0, 15, 80), 8, 0);
    assert_eq!(
        out(&mut tt),
        "\x1b[4;18r\x1b[4;1H\x1b[8M\x1b[1;24r",
        "buffer after scroll lines 3-17 8 down"
    );

    tt.scrollrect(TickitRect::init_sized(3, 0, 7, 80), -1, 0);
    assert_eq!(
        out(&mut tt),
        "\x1b[4;10r\x1b[4;1H\x1b[L\x1b[1;24r",
        "buffer after scroll lines 3-9 1 up"
    );

    tt.scrollrect(TickitRect::init_sized(3, 0, 15, 80), -8, 0);
    assert_eq!(
        out(&mut tt),
        "\x1b[4;18r\x1b[4;1H\x1b[8L\x1b[1;24r",
        "buffer after scroll lines 3-17 8 up"
    );

    tt.scrollrect(TickitRect::init_sized(5, 0, 1, 80), 0, 3);
    assert_eq!(out(&mut tt), "\x1b[6;1H\x1b[3P", "buffer after scrollrect line 5 3 right");

    tt.scrollrect(TickitRect::init_sized(6, 10, 2, 70), 0, 5);
    assert_eq!(
        out(&mut tt),
        "\x1b[7;11H\x1b[5P\x1b[8;11H\x1b[5P",
        "buffer after scrollrect lines 6-7 cols 10-80 5 right"
    );

    tt.scrollrect(TickitRect::init_sized(5, 0, 1, 80), 0, -3);
    assert_eq!(out(&mut tt), "\x1b[6;1H\x1b[3@", "buffer after scrollrect line 5 3 left");

    tt.scrollrect(TickitRect::init_sized(6, 10, 2, 70), 0, -5);
    assert_eq!(
        out(&mut tt),
        "\x1b[7;11H\x1b[5@\x1b[8;11H\x1b[5@",
        "buffer after scrollrect lines 6-7 cols 10-80 5 left"
    );

    assert_eq!(
        tt.scrollrect(TickitRect::init_sized(3, 10, 5, 60), 1, 0),
        false,
        "cannot scroll partial lines vertically"
    );

    assert_eq!(
        tt.scrollrect(TickitRect::init_sized(3, 10, 5, 60), 0, 1),
        false,
        "cannot scroll partial lines horizontally"
    );

    tt.take_output();
    tt.clear();
    assert_eq!(out(&mut tt), "\x1b[H\x1b[J", "buffer after clear");

    tt.erasech(1, Some(false));
    assert_eq!(out(&mut tt), " \x08", "buffer after erasech 1 nomove");

    tt.erasech(3, Some(false));
    assert_eq!(out(&mut tt), "   \x1b[3D", "buffer after erasech 3 nomove");

    tt.erasech(1, Some(true));
    assert_eq!(out(&mut tt), " ", "buffer after erasech 1 move");

    tt.erasech(3, Some(true));
    assert_eq!(out(&mut tt), "   ", "buffer after erasech 3 move");

    tt.erasech(10, Some(true));
    assert_eq!(out(&mut tt), "          ", "buffer after erasech 10 move");
}

#[test]
fn terminfo_lookup_failure_is_an_error() {
    assert_eq!(TickitTerm::new_for_terminfo("nosuch", None).err(), Some(2));
}

#[test]
fn terminfo_missing_capabilities() {
    // a terminal that can do nothing but print
    let mut tt = TickitTerm::new_for_terminfo("dumb", Some(TermCaps::new())).unwrap();
    tt.set_output_func();
    tt.take_output();
    assert!(!tt.goto(2, 5), "no absolute positioning");
    assert!(!tt.goto(2, -1));
    assert!(!tt.goto(-1, 3));
    assert!(tt.goto(-1, 0));
    assert_eq!(out(&mut tt), "\r");
    assert!(tt.goto(-1, -1));
    tt.move_(1, 1);
    tt.clear();
    assert_eq!(out(&mut tt), "");
    assert!(!tt.setctl_int(TICKIT_TERMCTL_ALTSCREEN, 1));
    assert!(!tt.setctl_int(TICKIT_TERMCTL_MOUSE, 1));
    assert_eq!(tt.getctl_int(TICKIT_TERMCTL_COLORS), Some(8));
    tt.stop();
    assert_eq!(out(&mut tt), "");
}

#[test]
fn terminfo_pen_modes_and_erase() {
    let mut tt = TickitTerm::new_for_terminfo(
        "screen-bce",
        Some(screen_caps().with(TiCap::Ech, "\x1b[%p1%dX").with_bce(true).with_colours(256)),
    )
    .unwrap();
    tt.set_output_func();
    tt.take_output();
    assert_eq!(tt.getctl_int(TICKIT_TERMCTL_COLORS), Some(256));

    tt.erasech(4, Some(true));
    assert_eq!(out(&mut tt), "\x1b[4X\x1b[4C");
    tt.erasech(1, None);
    assert_eq!(out(&mut tt), "\x1b[1X");
    tt.move_(1, -1);
    assert_eq!(out(&mut tt), "\n\x08");

    let pen = TickitPen::new()
        .with_colour_attr(TICKIT_PEN_FG, 1)
        .with_colour_attr(TICKIT_PEN_BG, 5)
        .with_bool_attr(TICKIT_PEN_BOLD, true);
    tt.setpen(&pen);
    assert_eq!(out(&mut tt), "\x1b[m\x0f\x1b[31m\x1b[45m\x1b[1m");
    tt.chpen(&pen);
    assert_eq!(out(&mut tt), "", "nothing changes");
    tt.chpen(&TickitPen::new().with_bool_attr(TICKIT_PEN_UNDER, true).with_bool_attr(TICKIT_PEN_BOLD, false));
    assert_eq!(out(&mut tt), "\x1b[m\x0f\x1b[31m\x1b[45m\x1b[4m");

    assert!(tt.setctl_int(TICKIT_TERMCTL_ALTSCREEN, 1));
    assert_eq!(out(&mut tt), "\x1b[?1049h");
    assert!(tt.setctl_int(TICKIT_TERMCTL_ALTSCREEN, 1));
    assert_eq!(out(&mut tt), "");
    assert!(tt.setctl_int(TICKIT_TERMCTL_CURSORVIS, 0));
    assert_eq!(out(&mut tt), "\x1b[?25l");
    assert_eq!(tt.getctl_int(TICKIT_TERMCTL_CURSORVIS), Some(0));
    tt.stop();
    assert_eq!(out(&mut tt), "\x1b[34h\x1b[?25h\x1b[?1049l");
}

#[test]
fn capability_strings_expand() {
    assert_eq!(expand(b"\x1b[%i%p1%d;%p2%dH", 2, 5), Some(b"\x1b[3;6H".to_vec()));
    assert_eq!(expand(b"\x1b[%p1%dA", 12, 0), Some(b"\x1b[12A".to_vec()));
    assert_eq!(expand(b"100%%", 0, 0), Some(b"100%".to_vec()));
    assert_eq!(expand(b"%p2%d,%p1%d,%p3%d", 7, 9), Some(b"9,7,0".to_vec()));
    assert_eq!(expand(b"%p1%p2%d%d", 1, 2), Some(b"21".to_vec()));
    assert_eq!(expand(b"", 1, 2), Some(Vec::new()));
    assert_eq!(expand(b"%p1%d", -4, 0), Some(b"0".to_vec()));
    // directives that are not known, and uses of values that are not there
    assert_eq!(expand(b"%d", 1, 2), None);
    assert_eq!(expand(b"%?%p1%t1%e0%;", 1, 2), None);
    assert_eq!(expand(b"%p0%d", 1, 2), None);
    assert_eq!(expand(b"%p", 1, 2), None);
    assert_eq!(expand(b"abc%", 1, 2), None);
}
