use tickit::c::{
    TICKIT_PEN_ALTFONT, TICKIT_PEN_BG, TICKIT_PEN_BOLD, TICKIT_PEN_FG, TICKIT_PEN_ITALIC,
    TICKIT_PEN_REVERSE, TICKIT_PEN_STRIKE, TICKIT_PEN_UNDER,
};
use tickit::mock::{LogEntry, MockDriver, MockTerm};
use tickit::term::TickitTerm;
use tickit::{TickitPen, TickitRect};

#[derive(Clone, Copy, Default)]
struct PenLog {
    fg: Option<i32>,
    bg: Option<i32>,
    b: Option<bool>,
    u: Option<bool>,
    i: Option<bool>,
    rv: Option<bool>,
    strike: Option<bool>,
    af: Option<i32>,
}

impl PenLog {
    fn fg(self, v: i32) -> PenLog {
        PenLog { fg: Some(v), ..self }
    }
    fn bg(self, v: i32) -> PenLog {
        PenLog { bg: Some(v), ..self }
    }
}

fn pen_log() -> PenLog {
    PenLog::default()
}

enum LogExpectation<'a> {
    GOTO(i32, i32),
    PRINT(&'a str),
    ERASECH(i32, Option<bool>),
    CLEAR,
    SCROLLRECT(TickitRect, i32, i32),
    SETPEN(PenLog),
}
use LogExpectation::{CLEAR, ERASECH, GOTO, PRINT, SCROLLRECT, SETPEN};

impl<'a> LogExpectation<'a> {
    fn matches(&self, x: LogEntry) -> bool {
        match *self {
            GOTO(l, c) => match x {
                LogEntry::Goto { line, col } => l == line && c == col,
                _ => false,
            },
            ERASECH(c, me) => match x {
                LogEntry::EraseCh { count, moveend } => c == count && me == moveend,
                _ => false,
            },
            PRINT(s) => match x {
                LogEntry::Print { str_ } => s == str_,
                _ => false,
            },
            CLEAR => matches!(x, LogEntry::Clear),
            SCROLLRECT(re, d, ri) => match x {
                LogEntry::ScrollRect { rect, downward, rightward } => {
                    re == rect && d == downward && ri == rightward
                }
                _ => false,
            },
            SETPEN(pl) => match x {
                LogEntry::SetPen { pen } => {
                    // 'pen' is always a fully-specified thingy
                    pl.fg.unwrap_or(-1) == pen.get_colour_attr(TICKIT_PEN_FG)
                        && pl.bg.unwrap_or(-1) == pen.get_colour_attr(TICKIT_PEN_BG)
                        && pl.b.unwrap_or(false) == pen.get_bool_attr(TICKIT_PEN_BOLD)
                        && pl.u.unwrap_or(false) == pen.get_bool_attr(TICKIT_PEN_UNDER)
                        && pl.i.unwrap_or(false) == pen.get_bool_attr(TICKIT_PEN_ITALIC)
                        && pl.rv.unwrap_or(false) == pen.get_bool_attr(TICKIT_PEN_REVERSE)
                        && pl.strike.unwrap_or(false) == pen.get_bool_attr(TICKIT_PEN_STRIKE)
                        && pl.af.unwrap_or(-1) == pen.get_int_attr(TICKIT_PEN_ALTFONT)
                }
                _ => false,
            },
        }
    }
}

fn is_display_text(mt: &mut MockTerm, name: &str, expects: &[&str]) {
    let (lines, cols) = mt.tt.get_size();
    assert!(lines as usize == expects.len());
    for line in 0..lines as usize {
        let got = mt.get_display_text(line, 0, cols as usize);
        assert_eq!(got, expects[line], "{}: line {}", name, line);
    }
}

fn is_termlog(mt: &mut MockTerm, name: &str, expects: &[LogExpectation]) {
    let loglen = mt.loglen();
    assert_eq!(loglen, expects.len(), "{}", name);
    for (i, exp) in expects.iter().enumerate() {
        assert!(exp.matches(mt.peeklog(i)), "{}: entry {}", name, i);
    }
    mt.clearlog();
}

fn fillterm(tt: &mut TickitTerm<MockDriver>) {
    tt.goto(0, 0);
    tt.print("0000000000");
    tt.goto(1, 0);
    tt.print("1111111111");
    tt.goto(2, 0);
    tt.print("2222222222");
}

fn make_term(lines: i32, cols: i32) -> MockTerm {
    MockTerm::new(lines, cols)
}

#[test]
fn test_20mockterm() {
    let mut mt = make_term(3, 10);

    is_termlog(&mut mt, "Termlog initially", &[]);
    is_display_text(&mut mt, "Display initially", &["          ", "          ", "          "]);

    mt.tt.goto(1, 5);
    is_termlog(&mut mt, "Termlog after goto", &[GOTO(1, 5)]);

    mt.tt.print("foo");

    is_termlog(&mut mt, "Termlog after print", &[PRINT("foo")]);
    is_display_text(&mut mt, "Display after print", &["          ", "     foo  ", "          "]);

    mt.tt.print("l");

    is_termlog(&mut mt, "Termlog after printn 1", &[PRINT("l")]);
    is_display_text(&mut mt, "Display after printn 1", &["          ", "     fool ", "          "]);

    mt.tt.goto(2, 0);
    mt.tt.print("\u{15d}u vi?");

    is_termlog(&mut mt, "Termlog after print UTF-8", &[GOTO(2, 0), PRINT("\u{15d}u vi?")]);
    is_display_text(
        &mut mt,
        "Display after print UTF-8",
        &["          ", "     fool ", "\u{15d}u vi?    "],
    );

    // U+FF10 = Fullwidth digit zero = EF BC 90
    mt.tt.print("\u{ff10}");

    is_termlog(&mut mt, "Termlog after print UTF-8 fullwidth", &[PRINT("\u{ff10}")]);
    is_display_text(
        &mut mt,
        "Display after print UTF-8 fullwidth",
        &["          ", "     fool ", "\u{15d}u vi?\u{ff10}  "],
    );

    mt.tt.clear();

    is_termlog(&mut mt, "Termlog after clear", &[CLEAR]);
    is_display_text(&mut mt, "Display after clear", &["          ", "          ", "          "]);

    let fg_pen = TickitPen::new().with_colour_attr(TICKIT_PEN_FG, 3);

    mt.tt.setpen(&fg_pen);

    is_termlog(&mut mt, "Termlog after setpen", &[SETPEN(pen_log().fg(3))]);

    let bg_pen = TickitPen::new().with_colour_attr(TICKIT_PEN_BG, 6);

    mt.tt.chpen(&bg_pen);

    is_termlog(&mut mt, "Termlog after chpen", &[SETPEN(pen_log().fg(3).bg(6))]);

    // Now some test content for scrolling
    fillterm(&mut mt.tt);
    mt.clearlog();

    is_display_text(&mut mt, "Display after scroll fill", &["0000000000", "1111111111", "2222222222"]);

    assert!(mt.tt.scrollrect(TickitRect::init_sized(0, 0, 3, 10), 1, 0), "Scrollrect down OK");
    is_termlog(
        &mut mt,
        "Termlog after scroll 1 down",
        &[SCROLLRECT(TickitRect::init_sized(0, 0, 3, 10), 1, 0)],
    );
    is_display_text(&mut mt, "Display after scroll 1 down", &["1111111111", "2222222222", "          "]);

    assert!(mt.tt.scrollrect(TickitRect::init_sized(0, 0, 3, 10), -1, 0), "Scrollrect up OK");
    is_termlog(
        &mut mt,
        "Termlog after scroll 1 up",
        &[SCROLLRECT(TickitRect::init_sized(0, 0, 3, 10), -1, 0)],
    );
    is_display_text(&mut mt, "Display after scroll 1 up", &["          ", "1111111111", "2222222222"]);

    fillterm(&mut mt.tt);
    mt.clearlog();

    mt.tt.scrollrect(TickitRect::init_sized(0, 0, 2, 10), 1, 0);
    is_termlog(
        &mut mt,
        "Termlog after scroll partial 1 down",
        &[SCROLLRECT(TickitRect::init_sized(0, 0, 2, 10), 1, 0)],
    );
    is_display_text(
        &mut mt,
        "Display after scroll partial 1 down",
        &["1111111111", "          ", "2222222222"],
    );

    mt.tt.scrollrect(TickitRect::init_sized(0, 0, 2, 10), -1, 0);
    is_termlog(
        &mut mt,
        "Termlog after scroll partial 1 up",
        &[SCROLLRECT(TickitRect::init_sized(0, 0, 2, 10), -1, 0)],
    );
    is_display_text(
        &mut mt,
        "Display after scroll partial 1 up",
        &["          ", "1111111111", "2222222222"],
    );

    for line in 0..3 {
        mt.tt.goto(line, 0);
        mt.tt.print("ABCDEFGHIJ");
    }
    mt.clearlog();

    mt.tt.scrollrect(TickitRect::init_sized(0, 5, 1, 5), 0, 2);
    is_termlog(
        &mut mt,
        "Termlog after scroll right",
        &[SCROLLRECT(TickitRect::init_sized(0, 5, 1, 5), 0, 2)],
    );
    is_display_text(&mut mt, "Display after scroll right", &["ABCDEHIJ  ", "ABCDEFGHIJ", "ABCDEFGHIJ"]);

    mt.tt.scrollrect(TickitRect::init_sized(1, 5, 1, 5), 0, -3);
    is_termlog(
        &mut mt,
        "Termlog after scroll left",
        &[SCROLLRECT(TickitRect::init_sized(1, 5, 1, 5), 0, -3)],
    );
    is_display_text(&mut mt, "Display after scroll left", &["ABCDEHIJ  ", "ABCDE   FG", "ABCDEFGHIJ"]);

    mt.tt.goto(2, 3);
    mt.tt.erasech(5, None);

    is_termlog(&mut mt, "Termlog after erasech", &[GOTO(2, 3), ERASECH(5, None)]);
    is_display_text(&mut mt, "Display after erasech", &["ABCDEHIJ  ", "ABCDE   FG", "ABC     IJ"]);
}

#[test]
fn mockterm_position_pen_and_resize() {
    let mut mt = make_term(2, 6);
    assert_eq!(mt.get_position(), (0, 0));
    mt.tt.goto(1, 2);
    assert_eq!(mt.get_position(), (1, 2));
    mt.tt.setpen(&TickitPen::new().with_colour_attr(TICKIT_PEN_FG, 2));
    mt.tt.print("a\u{ff21}b");
    assert_eq!(mt.get_position(), (1, 6));
    assert_eq!(mt.get_display_text(1, 0, 6), "  a\u{ff21}b");
    assert_eq!(mt.get_display_text(1, 3, 2), "\u{ff21}");
    assert_eq!(mt.get_display_text(1, 4, 2), "b");
    assert_eq!(mt.get_display_pen(1, 2).get_colour_attr(TICKIT_PEN_FG), 2);
    assert_eq!(mt.get_display_pen(1, 4).get_colour_attr(TICKIT_PEN_FG), 2);
    assert!(!mt.get_display_pen(0, 0).is_nonempty());
    assert!(!mt.get_display_pen(7, 7).is_nonempty());
    // text that does not fit is not shown
    mt.tt.goto(0, 4);
    mt.tt.print("xyz");
    assert_eq!(mt.get_display_text(0, 0, 6), "    xy");
    assert_eq!(mt.get_position(), (0, 6));
    mt.tt.move_(1, -3);
    assert_eq!(mt.get_position(), (1, 3));
    mt.tt.erasech(2, Some(true));
    assert_eq!(mt.get_position(), (1, 5));
    assert_eq!(mt.get_display_text(1, 0, 6), "  a  b");
    mt.clearlog();

    mt.resize(3, 4);
    assert_eq!(mt.tt.get_size(), (3, 4));
    assert_eq!(mt.get_display_text(0, 0, 4), "    ");
    assert_eq!(mt.get_display_text(1, 0, 4), "  a ");
    assert_eq!(mt.get_display_text(2, 0, 4), "    ");
    assert_eq!(mt.get_display_text(3, 0, 4), "");
    assert_eq!(mt.loglen(), 0);

    assert!(!mt.tt.scrollrect(TickitRect::init_sized(0, 1, 2, 2), 1, 0));
    assert!(!mt.tt.scrollrect(TickitRect::init_sized(0, 1, 2, 2), 0, 1));
    assert!(mt.tt.scrollrect(TickitRect::init_sized(0, 1, 2, 2), 0, 0));
    assert_eq!(mt.loglen(), 0);
}
