use tickit::c::{
    TickitLineCaps, TICKIT_LINECAP_BOTH, TICKIT_LINECAP_END, TICKIT_LINECAP_START, TICKIT_LINE_DOUBLE,
    TICKIT_LINE_SINGLE, TICKIT_LINE_THICK, TICKIT_PEN_ALTFONT, TICKIT_PEN_BG, TICKIT_PEN_BOLD,
    TICKIT_PEN_FG, TICKIT_PEN_ITALIC, TICKIT_PEN_REVERSE, TICKIT_PEN_STRIKE, TICKIT_PEN_UNDER,
    X_TICKIT_LINECAP_NEITHER, X_TICKIT_LINE_NONE,
};
use tickit::mock::{LogEntry, MockTerm};
use tickit::renderbuffer::TickitRenderBufferSpanInfo;
use tickit::{TickitPen, TickitRect, TickitRenderBuffer};

#[derive(Clone, Copy, Default)]
struct PenLog {
    fg: Option<i32>,
    bg: Option<i32>,
    b: Option<bool>,
    u: Option<bool>,
    i: Option<bool>,
    rv: Option<bool>,
    strike: Option<bool>,
    af: Option<i32>,
}

impl PenLog {
    fn fg(self, v: i32) -> PenLog {
        PenLog { fg: Some(v), ..self }
    }
    fn bg(self, v: i32) -> PenLog {
        PenLog { bg: Some(v), ..self }
    }
    fn b(self, v: bool) -> PenLog {
        PenLog { b: Some(v), ..self }
    }
    fn rv(self, v: bool) -> PenLog {
        PenLog { rv: Some(v), ..self }
    }
}

fn pen_log() -> PenLog {
    PenLog::default()
}

enum LogExpectation<'a> {
    GOTO(i32, i32),
    PRINT(&'a str),
    ERASECH(i32, Option<bool>),
    SETPEN(PenLog),
}
use LogExpectation::{ERASECH, GOTO, PRINT, SETPEN};

impl<'a> LogExpectation<'a> {
    fn matches(&self, x: LogEntry) -> bool {
        match *self {
            GOTO(l, c) => match x {
                LogEntry::Goto { line, col } => l == line && c == col,
                _ => false,
            },
            ERASECH(c, me) => match x {
                LogEntry::EraseCh { count, moveend } => c == count && me == moveend,
                _ => false,
            },
            PRINT(s) => match x {
                LogEntry::Print { str_ } => s == str_,
                _ => false,
            },
            SETPEN(pl) => match x {
                LogEntry::SetPen { pen } => {
                    pl.fg.unwrap_or(-1) == pen.get_colour_attr(TICKIT_PEN_FG)
                        && pl.bg.unwrap_or(-1) == pen.get_colour_attr(TICKIT_PEN_BG)
                        && pl.b.unwrap_or(false) == pen.get_bool_attr(TICKIT_PEN_BOLD)
                        && pl.u.unwrap_or(false) == pen.get_bool_attr(TICKIT_PEN_UNDER)
                        && pl.i.unwrap_or(false) == pen.get_bool_attr(TICKIT_PEN_ITALIC)
                        && pl.rv.unwrap_or(false) == pen.get_bool_attr(TICKIT_PEN_REVERSE)
                        && pl.strike.unwrap_or(false) == pen.get_bool_attr(TICKIT_PEN_STRIKE)
                        && pl.af.unwrap_or(-1) == pen.get_int_attr(TICKIT_PEN_ALTFONT)
                }
                _ => false,
            },
        }
    }
}

fn describe(e: &LogEntry) -> String {
    match e {
        LogEntry::Goto { line, col } => format!("GOTO({},{})", line, col),
        LogEntry::Print { str_ } => format!("PRINT({:?})", str_),
        LogEntry::EraseCh { count, moveend } => format!("ERASECH({},{:?})", count, moveend),
        LogEntry::Clear => "CLEAR".to_string(),
        LogEntry::ScrollRect { .. } => "SCROLLRECT".to_string(),
        LogEntry::SetPen { pen } => format!(
            "SETPEN(fg={},bg={},b={})",
            pen.get_colour_attr(TICKIT_PEN_FG),
            pen.get_colour_attr(TICKIT_PEN_BG),
            pen.get_bool_attr(TICKIT_PEN_BOLD)
        ),
    }
}

fn is_termlog(mt: &mut MockTerm, name: &str, expects: &[LogExpectation]) {
    let loglen = mt.loglen();
    let got: Vec<String> = (0..loglen).map(|i| describe(&mt.peeklog(i))).collect();
    assert_eq!(loglen, expects.len(), "{}: {:?}", name, got);
    for (i, exp) in expects.iter().enumerate() {
        assert!(exp.matches(mt.peeklog(i)), "{}: entry {}: {:?}", name, i, got);
    }
    mt.clearlog();
}

fn make_term(lines: i32, cols: i32) -> MockTerm {
    MockTerm::new(lines, cols)
}

fn caps(bits: i32) -> TickitLineCaps {
    TickitLineCaps::from_bits(bits)
}

#[test]
fn test_30renderbuffer_span() {
    let mut mt = make_term(25, 80);

    let mut rb = TickitRenderBuffer::new(10, 20);

    let (lines, cols) = rb.get_size();
    assert_eq!(lines, 10, "get_size lines");
    assert_eq!(cols, 20, "get_size cols");

    rb.flush_to_term(&mut mt.tt);
    is_termlog(&mut mt, "Empty RenderBuffer renders nothing to term", &[]);

    assert!(!rb.get_cell_active(0, 0), "get_cell_active SKIP");

    // Absolute spans
    {
        // Direct pen
        let fg_pen = TickitPen::new().with_colour_attr(TICKIT_PEN_FG, 1);
        let len = rb.text_at(0, 1, "text span", Some(&fg_pen));
        assert_eq!(len, 9, "len from text_at");
        rb.erase_at(1, 1, 5, Some(&fg_pen));

        // Stored pen
        let bg_pen = TickitPen::new().with_colour_attr(TICKIT_PEN_BG, 2);
        rb.setpen(&bg_pen);
        rb.text_at(2, 1, "another span", None);
        rb.erase_at(3, 1, 10, None);

        // Combined pen
        rb.text_at(4, 1, "third span", Some(&fg_pen));
        rb.erase_at(5, 1, 7, Some(&fg_pen));

        let buffer = rb.get_cell_text(0, 1);
        assert_eq!(buffer.len(), 1, "get_cell_text TEXT at 0,1");
        assert_eq!(buffer, "t", "buffer text at TEXT 0,1");
        assert_eq!(rb.get_cell_pen(0, 1).get_colour_attr(TICKIT_PEN_FG), 1, "get_cell_pen FG at 0,1");

        let buffer = rb.get_cell_text(0, 2);
        assert_eq!(buffer.len(), 1, "get_cell_text TEXT at 0,2");
        assert_eq!(buffer, "e", "buffer text at TEXT 0,2");

        let buffer = rb.get_cell_text(1, 1);
        assert_eq!(buffer.len(), 0, "get_cell_text ERASE at 1,1");

        rb.flush_to_term(&mut mt.tt);
        is_termlog(
            &mut mt,
            "RenderBuffer renders text to terminal",
            &[
                GOTO(0, 1), SETPEN(pen_log().fg(1)), PRINT("text span"),
                GOTO(1, 1), SETPEN(pen_log().fg(1)), ERASECH(5, None),
                GOTO(2, 1), SETPEN(pen_log().bg(2)), PRINT("another span"),
                GOTO(3, 1), SETPEN(pen_log().bg(2)), ERASECH(10, None),
                GOTO(4, 1), SETPEN(pen_log().fg(1).bg(2)), PRINT("third span"),
                GOTO(5, 1), SETPEN(pen_log().fg(1).bg(2)), ERASECH(7, None),
            ],
        );

        rb.flush_to_term(&mut mt.tt);
        is_termlog(&mut mt, "RenderBuffer now empty after render to terminal", &[]);
    }

    // UTF-8 handling
    {
        let len = rb.text_at(6, 0, "som\u{113} text \u{109}i tie", None);
        assert_eq!(len, 16, "len from text_at UTF-8");

        rb.flush_to_term(&mut mt.tt);
        is_termlog(
            &mut mt,
            "RenderBuffer renders UTF-8 text",
            &[GOTO(6, 0), SETPEN(pen_log()), PRINT("som\u{113} text \u{109}i tie")],
        );
    }

    // Span splitting
    {
        let b_pen = TickitPen::new().with_bool_attr(TICKIT_PEN_BOLD, true);

        // aaaAAaaa
        rb.text_at(0, 0, "aaaaaaaa", None);
        rb.text_at(0, 3, "AA", Some(&b_pen));

        // BBBBBBBB
        rb.text_at(1, 2, "bbbb", None);
        rb.text_at(1, 0, "BBBBBBBB", Some(&b_pen));

        // cccCCCCC
        rb.text_at(2, 0, "cccccc", None);
        rb.text_at(2, 3, "CCCCC", Some(&b_pen));

        // DDDDDddd
        rb.text_at(3, 2, "dddddd", None);
        rb.text_at(3, 0, "DDDDD", Some(&b_pen));

        // empty text should do nothing
        rb.text_at(4, 4, "", None);

        rb.flush_to_term(&mut mt.tt);
        is_termlog(
            &mut mt,
            "RenderBuffer spans can be split",
            &[
                GOTO(0, 0), SETPEN(pen_log()), PRINT("aaa"), SETPEN(pen_log().b(true)), PRINT("AA"),
                SETPEN(pen_log()), PRINT("aaa"),
                GOTO(1, 0), SETPEN(pen_log().b(true)), PRINT("BBBBBBBB"),
                GOTO(2, 0), SETPEN(pen_log()), PRINT("ccc"), SETPEN(pen_log().b(true)), PRINT("CCCCC"),
                GOTO(3, 0), SETPEN(pen_log().b(true)), PRINT("DDDDD"), SETPEN(pen_log()), PRINT("ddd"),
            ],
        );
    }

    {
        rb.text_at(0, 0, "abcdefghijkl", None);
        rb.text_at(0, 2, "-", None);
        rb.text_at(0, 4, "-", None);
        rb.text_at(0, 6, "-", None);
        rb.text_at(0, 8, "-", None);

        rb.flush_to_term(&mut mt.tt);
        is_termlog(
            &mut mt,
            "RenderBuffer renders overwritten text split chunks",
            &[
                GOTO(0, 0),
                SETPEN(pen_log()), PRINT("ab"),
                SETPEN(pen_log()), PRINT("-"), // c
                SETPEN(pen_log()), PRINT("d"),
                SETPEN(pen_log()), PRINT("-"), // e
                SETPEN(pen_log()), PRINT("f"),
                SETPEN(pen_log()), PRINT("-"), // g
                SETPEN(pen_log()), PRINT("h"),
                SETPEN(pen_log()), PRINT("-"), // i
                SETPEN(pen_log()), PRINT("jkl"),
            ],
        );
    }

    // VC spans
    {
        // Direct pen
        let fg_pen = TickitPen::new().with_colour_attr(TICKIT_PEN_FG, 3);
        rb.goto(0, 2);
        let len = rb.text("text span", Some(&fg_pen));
        assert_eq!(len, 9, "len from text");

        rb.goto(1, 2);
        rb.erase(5, Some(&fg_pen));

        // Stored pen
        let bg_pen = TickitPen::new().with_colour_attr(TICKIT_PEN_BG, 4);
        rb.setpen(&bg_pen);
        rb.goto(2, 2);
        rb.text("another span", None);
        rb.goto(3, 2);
        rb.erase(10, None);

        // Combined pens
        rb.goto(4, 2);
        rb.text("third span", Some(&fg_pen));
        rb.goto(5, 2);
        rb.erase(7, Some(&fg_pen));

        rb.flush_to_term(&mut mt.tt);
        is_termlog(
            &mut mt,
            "RenderBuffer renders text at VC",
            &[
                GOTO(0, 2), SETPEN(pen_log().fg(3)), PRINT("text span"),
                GOTO(1, 2), SETPEN(pen_log().fg(3)), ERASECH(5, None),
                GOTO(2, 2), SETPEN(pen_log().bg(4)), PRINT("another span"),
                GOTO(3, 2), SETPEN(pen_log().bg(4)), ERASECH(10, None),
                GOTO(4, 2), SETPEN(pen_log().fg(3).bg(4)), PRINT("third span"),
                GOTO(5, 2), SETPEN(pen_log().fg(3).bg(4)), ERASECH(7, None),
            ],
        );
    }

    // Translation
    {
        rb.translate(3, 5);

        let len = rb.text_at(0, 0, "at 0,0", None);
        assert_eq!(len, 6, "len from text_at translated");

        rb.goto(1, 0);

        let (line, col) = rb.get_cursorpos().unwrap();
        assert_eq!(line, 1, "RenderBuffer line position after translate");
        assert_eq!(col, 0, "RenderBuffer column position after translate");

        rb.text("at 1,0", None);

        rb.flush_to_term(&mut mt.tt);
        is_termlog(
            &mut mt,
            "RenderBuffer renders text with translation",
            &[
                GOTO(3, 5), SETPEN(pen_log()), PRINT("at 0,0"),
                GOTO(4, 5), SETPEN(pen_log()), PRINT("at 1,0"),
            ],
        );
    }

    // Eraserect
    {
        rb.eraserect(&TickitRect { top: 2, left: 3, lines: 5, cols: 8 }, None);

        rb.flush_to_term(&mut mt.tt);
        is_termlog(
            &mut mt,
            "RenderBuffer renders eraserect",
            &[
                GOTO(2, 3), SETPEN(pen_log()), ERASECH(8, None),
                GOTO(3, 3), SETPEN(pen_log()), ERASECH(8, None),
                GOTO(4, 3), SETPEN(pen_log()), ERASECH(8, None),
                GOTO(5, 3), SETPEN(pen_log()), ERASECH(8, None),
                GOTO(6, 3), SETPEN(pen_log()), ERASECH(8, None),
            ],
        );
    }

    // Clear
    {
        let bg_pen = TickitPen::new().with_colour_attr(TICKIT_PEN_BG, 3);

        rb.clear(Some(&bg_pen));

        rb.flush_to_term(&mut mt.tt);
        let mut want = Vec::new();
        for line in 0..10 {
            want.push(GOTO(line, 0));
            want.push(SETPEN(pen_log().bg(3)));
            want.push(ERASECH(20, None));
        }
        is_termlog(&mut mt, "RenderBuffer renders clear", &want);
    }
}

#[test]
fn test_31renderbuffer_line() {
    let mut mt = make_term(25, 80);

    let mut rb = TickitRenderBuffer::new(30, 30);

    // Simple lines, explicit pen
    {
        let fg_pen = TickitPen::new().with_colour_attr(TICKIT_PEN_FG, 1);

        rb.hline_at(10, 10, 14, TICKIT_LINE_SINGLE, Some(&fg_pen), caps(X_TICKIT_LINECAP_NEITHER));
        rb.hline_at(11, 10, 14, TICKIT_LINE_SINGLE, Some(&fg_pen), caps(TICKIT_LINECAP_START));
        rb.hline_at(12, 10, 14, TICKIT_LINE_SINGLE, Some(&fg_pen), caps(TICKIT_LINECAP_END));
        rb.hline_at(13, 10, 14, TICKIT_LINE_SINGLE, Some(&fg_pen), caps(TICKIT_LINECAP_BOTH));

        rb.flush_to_term(&mut mt.tt);
        is_termlog(
            &mut mt,
            "RenderBuffer renders hline_at to terminal",
            &[
                GOTO(10, 10), SETPEN(pen_log().fg(1)), PRINT("\u{2576}\u{2500}\u{2500}\u{2500}\u{2574}"),
                GOTO(11, 10), SETPEN(pen_log().fg(1)), PRINT("\u{2500}\u{2500}\u{2500}\u{2500}\u{2574}"),
                GOTO(12, 10), SETPEN(pen_log().fg(1)), PRINT("\u{2576}\u{2500}\u{2500}\u{2500}\u{2500}"),
                GOTO(13, 10), SETPEN(pen_log().fg(1)), PRINT("\u{2500}\u{2500}\u{2500}\u{2500}\u{2500}"),
            ],
        );

        rb.vline_at(10, 13, 10, TICKIT_LINE_SINGLE, Some(&fg_pen), caps(X_TICKIT_LINECAP_NEITHER));
        rb.vline_at(10, 13, 11, TICKIT_LINE_SINGLE, Some(&fg_pen), caps(TICKIT_LINECAP_START));
        rb.vline_at(10, 13, 12, TICKIT_LINE_SINGLE, Some(&fg_pen), caps(TICKIT_LINECAP_END));
        rb.vline_at(10, 13, 13, TICKIT_LINE_SINGLE, Some(&fg_pen), caps(TICKIT_LINECAP_BOTH));

        rb.flush_to_term(&mut mt.tt);
        is_termlog(
            &mut mt,
            "RenderBuffer renders vline_at to terminal",
            &[
                GOTO(10, 10), SETPEN(pen_log().fg(1)), PRINT("\u{2577}\u{2502}\u{2577}\u{2502}"),
                GOTO(11, 10), SETPEN(pen_log().fg(1)), PRINT("\u{2502}\u{2502}\u{2502}\u{2502}"),
                GOTO(12, 10), SETPEN(pen_log().fg(1)), PRINT("\u{2502}\u{2502}\u{2502}\u{2502}"),
                GOTO(13, 10), SETPEN(pen_log().fg(1)), PRINT("\u{2575}\u{2575}\u{2502}\u{2502}"),
            ],
        );
    }

    // Lines setpen
    {
        let bg_pen = TickitPen::new().with_colour_attr(TICKIT_PEN_BG, 3);

        rb.setpen(&bg_pen);

        rb.hline_at(10, 8, 12, TICKIT_LINE_SINGLE, None, caps(X_TICKIT_LINECAP_NEITHER));
        rb.vline_at(8, 12, 10, TICKIT_LINE_SINGLE, None, caps(X_TICKIT_LINECAP_NEITHER));

        let mask = rb.get_cell_linemask(9, 10);
        assert_eq!(mask.north, TICKIT_LINE_SINGLE, "get_cell_linemask north");
        assert_eq!(mask.south, TICKIT_LINE_SINGLE, "get_cell_linemask south");
        assert_eq!(mask.east, X_TICKIT_LINE_NONE, "get_cell_linemask east");
        assert_eq!(mask.west, X_TICKIT_LINE_NONE, "get_cell_linemask west");

        rb.flush_to_term(&mut mt.tt);
        is_termlog(
            &mut mt,
            "RenderBuffer renders lines with stored pen",
            &[
                GOTO(8, 10), SETPEN(pen_log().bg(3)), PRINT("\u{2577}"),
                GOTO(9, 10), SETPEN(pen_log().bg(3)), PRINT("\u{2502}"),
                GOTO(10, 8), SETPEN(pen_log().bg(3)), PRINT("\u{2576}\u{2500}\u{253c}\u{2500}\u{2574}"),
                GOTO(11, 10), SETPEN(pen_log().bg(3)), PRINT("\u{2502}"),
                GOTO(12, 10), SETPEN(pen_log().bg(3)), PRINT("\u{2575}"),
            ],
        );
    }

    // Line merging
    {
        rb.hline_at(10, 10, 14, TICKIT_LINE_SINGLE, None, caps(X_TICKIT_LINECAP_NEITHER));
        rb.hline_at(11, 10, 14, TICKIT_LINE_SINGLE, None, caps(X_TICKIT_LINECAP_NEITHER));
        rb.hline_at(12, 10, 14, TICKIT_LINE_SINGLE, None, caps(X_TICKIT_LINECAP_NEITHER));
        rb.vline_at(10, 12, 10, TICKIT_LINE_SINGLE, None, caps(X_TICKIT_LINECAP_NEITHER));
        rb.vline_at(10, 12, 12, TICKIT_LINE_SINGLE, None, caps(X_TICKIT_LINECAP_NEITHER));
        rb.vline_at(10, 12, 14, TICKIT_LINE_SINGLE, None, caps(X_TICKIT_LINECAP_NEITHER));

        rb.flush_to_term(&mut mt.tt);
        is_termlog(
            &mut mt,
            "RenderBuffer renders line merging",
            &[
                GOTO(10, 10), SETPEN(pen_log()), PRINT("\u{250c}\u{2500}\u{252c}\u{2500}\u{2510}"),
                GOTO(11, 10), SETPEN(pen_log()), PRINT("\u{251c}\u{2500}\u{253c}\u{2500}\u{2524}"),
                GOTO(12, 10), SETPEN(pen_log()), PRINT("\u{2514}\u{2500}\u{2534}\u{2500}\u{2518}"),
            ],
        );
    }
}

#[test]
fn renderbuffer_line_styles() {
    let mut mt = make_term(25, 80);
    let mut rb = TickitRenderBuffer::new(5, 5);
    // a thick frame with a double line through the middle
    rb.hline_at(0, 0, 4, TICKIT_LINE_THICK, None, caps(X_TICKIT_LINECAP_NEITHER));
    rb.hline_at(4, 0, 4, TICKIT_LINE_THICK, None, caps(X_TICKIT_LINECAP_NEITHER));
    rb.vline_at(0, 4, 0, TICKIT_LINE_THICK, None, caps(X_TICKIT_LINECAP_NEITHER));
    rb.vline_at(0, 4, 4, TICKIT_LINE_THICK, None, caps(X_TICKIT_LINECAP_NEITHER));
    rb.hline_at(2, 1, 3, TICKIT_LINE_DOUBLE, None, caps(TICKIT_LINECAP_BOTH));
    rb.vline_at(1, 3, 2, TICKIT_LINE_SINGLE, None, caps(X_TICKIT_LINECAP_NEITHER));
    assert_eq!(rb.get_cell_text(0, 0), "\u{250f}");
    assert_eq!(rb.get_cell_linemask(0, 0).east, TICKIT_LINE_THICK);
    assert_eq!(rb.get_cell_linemask(2, 2).east, TICKIT_LINE_DOUBLE);
    assert_eq!(rb.get_cell_linemask(2, 2).north, TICKIT_LINE_SINGLE);
    rb.flush_to_term(&mut mt.tt);
    is_termlog(
        &mut mt,
        "line styles",
        &[
            GOTO(0, 0), SETPEN(pen_log()), PRINT("\u{250f}\u{2501}\u{2501}\u{2501}\u{2513}"),
            GOTO(1, 0), SETPEN(pen_log()), PRINT("\u{2503}"),
            GOTO(1, 2), SETPEN(pen_log()), PRINT("\u{2577}"),
            GOTO(1, 4), SETPEN(pen_log()), PRINT("\u{2503}"),
            GOTO(2, 0), SETPEN(pen_log()), PRINT("\u{2503}\u{2550}\u{256a}\u{2550}\u{2503}"),
            GOTO(3, 0), SETPEN(pen_log()), PRINT("\u{2503}"),
            GOTO(3, 2), SETPEN(pen_log()), PRINT("\u{2575}"),
            GOTO(3, 4), SETPEN(pen_log()), PRINT("\u{2503}"),
            GOTO(4, 0), SETPEN(pen_log()), PRINT("\u{2517}\u{2501}\u{2501}\u{2501}\u{251b}"),
        ],
    );
}

#[test]
fn test_32renderbuffer_char() {
    let mut mt = make_term(25, 80);

    let mut rb = TickitRenderBuffer::new(10, 20);

    // Absolute characters
    {
        let fg_pen = TickitPen::new().with_colour_attr(TICKIT_PEN_FG, 4);

        rb.char_at(5, 5, 0x41 as char, Some(&fg_pen));
        rb.char_at(5, 6, 0x42 as char, Some(&fg_pen));
        rb.char_at(5, 7, 0x43 as char, Some(&fg_pen));

        let buffer = rb.get_cell_text(5, 5);
        assert_eq!(buffer.len(), 1, "get_cell_text CHAR at 5,5");
        assert_eq!(buffer, "A", "buffer text at 5,5");

        rb.flush_to_term(&mut mt.tt);
        is_termlog(
            &mut mt,
            "RenderBuffer renders char_at to terminal",
            &[
                GOTO(5, 5), SETPEN(pen_log().fg(4)), PRINT("A"),
                SETPEN(pen_log().fg(4)), PRINT("B"),
                SETPEN(pen_log().fg(4)), PRINT("C"),
            ],
        );
    }

    // Characters setpen
    {
        let bg_pen = TickitPen::new().with_colour_attr(TICKIT_PEN_BG, 5);
        rb.setpen(&bg_pen);

        rb.char_at(5, 5, 0x44 as char, None);
        rb.char_at(5, 6, 0x45 as char, None);
        rb.char_at(5, 7, 0x46 as char, None);

        rb.flush_to_term(&mut mt.tt);
        is_termlog(
            &mut mt,
            "RenderBuffer renders char_at with stored pen",
            &[
                GOTO(5, 5), SETPEN(pen_log().bg(5)), PRINT("D"),
                SETPEN(pen_log().bg(5)), PRINT("E"),
                SETPEN(pen_log().bg(5)), PRINT("F"),
            ],
        );
    }

    // VC characters
    {
        rb.goto(0, 4);

        // Direct pen
        let fg_pen = TickitPen::new().with_colour_attr(TICKIT_PEN_FG, 5);
        rb.char(0x47 as char, Some(&fg_pen));

        // Stored pen
        let bg_pen = TickitPen::new().with_colour_attr(TICKIT_PEN_BG, 6);
        rb.setpen(&bg_pen);
        rb.char(0x48 as char, None);

        // Combined pens
        rb.char(0x49 as char, Some(&fg_pen));

        rb.flush_to_term(&mut mt.tt);
        is_termlog(
            &mut mt,
            "RenderBuffer renders chars at VC",
            &[
                GOTO(0, 4), SETPEN(pen_log().fg(5)), PRINT("G"),
                SETPEN(pen_log().bg(6)), PRINT("H"),
                SETPEN(pen_log().fg(5).bg(6)), PRINT("I"),
            ],
        );
    }

    // Characters with translation
    {
        rb.translate(3, 5);

        rb.char_at(1, 1, 0x31 as char, None);
        rb.char_at(1, 2, 0x32 as char, None);

        rb.flush_to_term(&mut mt.tt);
        is_termlog(
            &mut mt,
            "RenderBuffer renders char_at with translation",
            &[GOTO(4, 6), SETPEN(pen_log()), PRINT("1"), SETPEN(pen_log()), PRINT("2")],
        );
    }
}

#[test]
fn test_33renderbuffer_clip() {
    let mut mt = make_term(25, 80);

    let mut rb = TickitRenderBuffer::new(10, 20);

    // Clipping to edge
    {
        let len = rb.text_at(-1, 5, "TTTTTTTTTT", None);
        assert_eq!(len, 10, "len from text_at clipped off top");
        let len = rb.text_at(11, 5, "BBBBBBBBBB", None);
        assert_eq!(len, 10, "len from text_at clipped off bottom");
        let len = rb.text_at(4, -3, "[LLLLLLLL]", None);
        assert_eq!(len, 10, "len from text_at clipped off left");
        let len = rb.text_at(5, 15, "[RRRRRRRR]", None);
        assert_eq!(len, 10, "len from text_at clipped off right");

        rb.flush_to_term(&mut mt.tt);
        is_termlog(
            &mut mt,
            "RenderBuffer text rendering with clipping",
            &[
                GOTO(4, 0), SETPEN(pen_log()), PRINT("LLLLLL]"),
                GOTO(5, 15), SETPEN(pen_log()), PRINT("[RRRR"),
            ],
        );

        rb.erase_at(-1, 5, 10, Some(&TickitPen::new().with_colour_attr(TICKIT_PEN_FG, 1)));
        rb.erase_at(11, 5, 10, Some(&TickitPen::new().with_colour_attr(TICKIT_PEN_FG, 2)));
        rb.erase_at(4, -3, 10, Some(&TickitPen::new().with_colour_attr(TICKIT_PEN_FG, 3)));
        rb.erase_at(5, 15, 10, Some(&TickitPen::new().with_colour_attr(TICKIT_PEN_FG, 4)));

        rb.flush_to_term(&mut mt.tt);
        is_termlog(
            &mut mt,
            "RenderBuffer erasech rendering with clipping",
            &[
                GOTO(4, 0), SETPEN(pen_log().fg(3)), ERASECH(7, None),
                GOTO(5, 15), SETPEN(pen_log().fg(4)), ERASECH(5, None),
            ],
        );

        rb.goto(2, 18);
        rb.text("A", None);
        rb.text("B", None);
        rb.text("C", None);
        rb.text("D", None);
        rb.text("E", None);

        rb.flush_to_term(&mut mt.tt);
        is_termlog(
            &mut mt,
            "RenderBuffer text at VC with clipping",
            &[GOTO(2, 18), SETPEN(pen_log()), PRINT("A"), SETPEN(pen_log()), PRINT("B")],
        );
    }

    // Clipping to rect
    {
        rb.clip(&TickitRect { top: 2, left: 2, lines: 6, cols: 16 });

        rb.text_at(1, 5, "TTTTTTTTTT", None);
        rb.text_at(9, 5, "BBBBBBBBBB", None);
        rb.text_at(4, -3, "[LLLLLLLL]", None);
        rb.text_at(5, 15, "[RRRRRRRR]", None);

        rb.flush_to_term(&mut mt.tt);
        is_termlog(
            &mut mt,
            "RenderBuffer renders text rendering with rect clipping",
            &[
                GOTO(4, 2), SETPEN(pen_log()), PRINT("LLLL]"),
                GOTO(5, 15), SETPEN(pen_log()), PRINT("[RR"),
            ],
        );

        rb.clip(&TickitRect { top: 2, left: 2, lines: 6, cols: 16 });

        rb.erase_at(1, 5, 10, Some(&TickitPen::new().with_colour_attr(TICKIT_PEN_FG, 1)));
        rb.erase_at(9, 5, 10, Some(&TickitPen::new().with_colour_attr(TICKIT_PEN_FG, 2)));
        rb.erase_at(4, -3, 10, Some(&TickitPen::new().with_colour_attr(TICKIT_PEN_FG, 3)));
        rb.erase_at(5, 15, 10, Some(&TickitPen::new().with_colour_attr(TICKIT_PEN_FG, 4)));

        rb.flush_to_term(&mut mt.tt);
        is_termlog(
            &mut mt,
            "RenderBuffer renders erasech with rect clipping",
            &[
                GOTO(4, 2), SETPEN(pen_log().fg(3)), ERASECH(5, None),
                GOTO(5, 15), SETPEN(pen_log().fg(4)), ERASECH(3, None),
            ],
        );
    }

    // Clipping with translation
    {
        rb.translate(3, 5);

        rb.clip(&TickitRect { top: 2, left: 2, lines: 3, cols: 5 });

        rb.text_at(1, 0, "1111111111", None);
        rb.text_at(2, 0, "2222222222", None);
        rb.text_at(3, 0, "3333333333", None);
        rb.text_at(4, 0, "4444444444", None);
        rb.text_at(5, 0, "5555555555", None);

        rb.flush_to_term(&mut mt.tt);
        is_termlog(
            &mut mt,
            "RenderBuffer clipping rectangle translated",
            &[
                GOTO(5, 7), SETPEN(pen_log()), PRINT("22222"),
                GOTO(6, 7), SETPEN(pen_log()), PRINT("33333"),
                GOTO(7, 7), SETPEN(pen_log()), PRINT("44444"),
            ],
        );
    }
}

#[test]
fn test_34renderbuffer_save() {
    let mut mt = make_term(25, 80);

    let mut rb = TickitRenderBuffer::new(10, 20);

    // Position
    {
        rb.goto(2, 2);

        {
            rb.save();

            rb.goto(4, 4);
            let (line, col) = rb.get_cursorpos().unwrap();
            assert_eq!(line, 4, "line before restore");
            assert_eq!(col, 4, "col before restore");

            rb.restore();
        }

        let (line, col) = rb.get_cursorpos().unwrap();
        assert_eq!(line, 2, "line after restore");
        assert_eq!(col, 2, "col after restore");

        rb.text("some text", None);

        rb.flush_to_term(&mut mt.tt);
        is_termlog(
            &mut mt,
            "Stack saves/restores virtual cursor position",
            &[GOTO(2, 2), SETPEN(pen_log()), PRINT("some text")],
        );
    }

    // Clipping
    {
        rb.text_at(0, 0, "0000000000", None);

        {
            rb.save();
            rb.clip(&TickitRect { top: 0, left: 2, lines: 10, cols: 16 });

            rb.text_at(1, 0, "1111111111", None);

            rb.restore();
        }

        rb.text_at(2, 0, "2222222222", None);

        rb.flush_to_term(&mut mt.tt);
        is_termlog(
            &mut mt,
            "Stack saves/restores clipping region",
            &[
                GOTO(0, 0), SETPEN(pen_log()), PRINT("0000000000"),
                GOTO(1, 2), SETPEN(pen_log()), PRINT("11111111"),
                GOTO(2, 0), SETPEN(pen_log()), PRINT("2222222222"),
            ],
        );
    }

    // Pen
    {
        rb.goto(3, 0);

        rb.setpen(&TickitPen::new().with_colour_attr(TICKIT_PEN_BG, 1));

        rb.text("123", None);

        {
            rb.savepen();

            rb.setpen(&TickitPen::new().with_colour_attr(TICKIT_PEN_FG, 4));

            rb.text("456", None);

            rb.setpen(&TickitPen::new().with_colour_attr(TICKIT_PEN_BG, -1));

            rb.text("789", None);

            rb.restore();
        }

        rb.text("ABC", None);

        rb.flush_to_term(&mut mt.tt);
        is_termlog(
            &mut mt,
            "Stack saves/restores render pen",
            &[
                GOTO(3, 0), SETPEN(pen_log().bg(1)), PRINT("123"),
                SETPEN(pen_log().bg(1).fg(4)), PRINT("456"),
                SETPEN(pen_log()), PRINT("789"),
                SETPEN(pen_log().bg(1)), PRINT("ABC"),
            ],
        );

        rb.goto(4, 0);

        rb.setpen(&TickitPen::new().with_bool_attr(TICKIT_PEN_REVERSE, true));

        rb.text("123", None);

        {
            rb.savepen();

            rb.setpen(&TickitPen::new().with_bool_attr(TICKIT_PEN_REVERSE, false));

            rb.text("456", None);

            rb.restore();
        }

        rb.text("789", None);

        rb.flush_to_term(&mut mt.tt);
        is_termlog(
            &mut mt,
            "Stack saves/restores allow zeroing pen attributes",
            &[
                GOTO(4, 0), SETPEN(pen_log().rv(true)), PRINT("123"),
                SETPEN(pen_log()), PRINT("456"),
                SETPEN(pen_log().rv(true)), PRINT("789"),
            ],
        );
    }

    // Translation
    {
        rb.text_at(0, 0, "A", None);

        rb.save();
        {
            rb.translate(2, 2);

            rb.text_at(1, 1, "B", None);
        }
        rb.restore();

        rb.text_at(2, 2, "C", None);

        rb.flush_to_term(&mut mt.tt);
        is_termlog(
            &mut mt,
            "Stack saves/restores translation offset",
            &[
                GOTO(0, 0), SETPEN(pen_log()), PRINT("A"),
                GOTO(2, 2), SETPEN(pen_log()), PRINT("C"),
                GOTO(3, 3), SETPEN(pen_log()), PRINT("B"),
            ],
        );
    }
}

#[test]
fn test_35renderbuffer_mask() {
    let mut mt = make_term(25, 80);

    let mut rb = TickitRenderBuffer::new(10, 20);

    let mask = TickitRect { top: 3, left: 5, lines: 4, cols: 6 };

    // Mask over text
    {
        rb.mask(&mask);

        rb.text_at(3, 2, "ABCDEFG", None); // before
        rb.text_at(4, 6, "HI", None); // inside
        rb.text_at(5, 8, "JKLMN", None); // after
        rb.text_at(6, 2, "OPQRSTUVWXYZ", None); // spanning

        rb.flush_to_term(&mut mt.tt);
        is_termlog(
            &mut mt,
            "RenderBuffer masking around text",
            &[
                GOTO(3, 2), SETPEN(pen_log()), PRINT("ABC"),
                GOTO(5, 11), SETPEN(pen_log()), PRINT("MN"),
                GOTO(6, 2), SETPEN(pen_log()), PRINT("OPQ"),
                GOTO(6, 11), SETPEN(pen_log()), PRINT("XYZ"),
            ],
        );
    }

    // Mask over erase
    {
        rb.mask(&mask);

        rb.erase_at(3, 2, 6, None); // before
        rb.erase_at(4, 6, 2, None); // inside
        rb.erase_at(5, 8, 5, None); // after
        rb.erase_at(6, 2, 12, None); // spanning

        rb.flush_to_term(&mut mt.tt);
        is_termlog(
            &mut mt,
            "RenderBuffer masking around erasech",
            &[
                GOTO(3, 2), SETPEN(pen_log()), ERASECH(3, None),
                GOTO(5, 11), SETPEN(pen_log()), ERASECH(2, None),
                GOTO(6, 2), SETPEN(pen_log()), ERASECH(3, None),
                GOTO(6, 11), SETPEN(pen_log()), ERASECH(3, None),
            ],
        );
    }

    // Mask over lines
    {
        rb.mask(&mask);

        rb.hline_at(3, 2, 8, TICKIT_LINE_SINGLE, None, caps(X_TICKIT_LINECAP_NEITHER));
        rb.hline_at(4, 6, 8, TICKIT_LINE_SINGLE, None, caps(X_TICKIT_LINECAP_NEITHER));
        rb.hline_at(5, 8, 13, TICKIT_LINE_SINGLE, None, caps(X_TICKIT_LINECAP_NEITHER));
        rb.hline_at(6, 2, 14, TICKIT_LINE_SINGLE, None, caps(X_TICKIT_LINECAP_NEITHER));

        rb.flush_to_term(&mut mt.tt);
        is_termlog(
            &mut mt,
            "RenderBuffer masking around lines",
            &[
                GOTO(3, 2), SETPEN(pen_log()), PRINT("\u{2576}\u{2500}\u{2500}"),
                GOTO(5, 11), SETPEN(pen_log()), PRINT("\u{2500}\u{2500}\u{2574}"),
                GOTO(6, 2), SETPEN(pen_log()), PRINT("\u{2576}\u{2500}\u{2500}"),
                GOTO(6, 11), SETPEN(pen_log()), PRINT("\u{2500}\u{2500}\u{2500}\u{2574}"),
            ],
        );
    }

    // Restore removes masks
    {
        rb.save();
        {
            rb.mask(&mask);

            rb.text_at(3, 0, "AAAAAAAAAAAAAAAAAAAA", None);
        }
        rb.restore();

        rb.text_at(4, 0, "BBBBBBBBBBBBBBBBBBBB", None);

        rb.flush_to_term(&mut mt.tt);
        is_termlog(
            &mut mt,
            "RenderBuffer save/restore removes mask",
            &[
                GOTO(3, 0), SETPEN(pen_log()), PRINT("AAAAA"),
                GOTO(3, 11), SETPEN(pen_log()), PRINT("AAAAAAAAA"),
                GOTO(4, 0), SETPEN(pen_log()), PRINT("BBBBBBBBBBBBBBBBBBBB"),
            ],
        );
    }

    // translate over mask
    {
        rb.mask(&TickitRect { top: 2, left: 2, lines: 1, cols: 1 });

        {
            rb.save();
            rb.translate(0, 0);
            rb.text_at(0, 0, "A", None);
            rb.restore();
        }
        {
            rb.save();
            rb.translate(0, 2);
            rb.text_at(0, 0, "B", None);
            rb.restore();
        }
        {
            rb.save();
            rb.translate(2, 0);
            rb.text_at(0, 0, "C", None);
            rb.restore();
        }
        {
            rb.save();
            rb.translate(2, 2);
            rb.text_at(0, 0, "D", None);
            rb.restore();
        }

        rb.flush_to_term(&mut mt.tt);
        is_termlog(
            &mut mt,
            "RenderBuffer translate over mask",
            &[
                GOTO(0, 0), SETPEN(pen_log()), PRINT("A"),
                GOTO(0, 2), SETPEN(pen_log()), PRINT("B"),
                GOTO(2, 0), SETPEN(pen_log()), PRINT("C"),
                // D was masked
            ],
        );
    }

    // Mask out of limits doesn't SEGV
    {
        rb.save();

        rb.mask(&TickitRect { top: 0, left: 0, lines: 50, cols: 200 });

        rb.mask(&TickitRect { top: -10, left: -20, lines: 5, cols: 20 });

        rb.restore();
    }
}

#[test]
fn renderbuffer_flush_twice() {
    let mut mt = make_term(25, 80);
    let mut rb = TickitRenderBuffer::new(4, 10);
    rb.text_at(1, 1, "once", None);
    rb.flush_to_term(&mut mt.tt);
    assert!(mt.loglen() > 0);
    mt.clearlog();
    rb.flush_to_term(&mut mt.tt);
    assert_eq!(mt.loglen(), 0);
}

#[test]
fn renderbuffer_write_inside_mask_is_dropped() {
    let mut mt = make_term(25, 80);
    let mut rb = TickitRenderBuffer::new(10, 20);
    rb.mask(&TickitRect { top: 3, left: 5, lines: 4, cols: 6 });
    assert_eq!(rb.text_at(4, 6, "HI", None), 2);
    rb.erase_at(5, 5, 6, None);
    rb.char_at(6, 10, 'x', None);
    rb.hline_at(3, 5, 10, TICKIT_LINE_SINGLE, None, caps(X_TICKIT_LINECAP_NEITHER));
    for line in 0..10 {
        for col in 0..20 {
            assert!(!rb.get_cell_active(line, col));
        }
    }
    rb.flush_to_term(&mut mt.tt);
    assert_eq!(mt.loglen(), 0);
    // a write across the mask comes out in two pieces
    rb.mask(&TickitRect { top: 3, left: 5, lines: 4, cols: 6 });
    rb.text_at(3, 0, "0123456789abcdefghij", None);
    rb.flush_to_term(&mut mt.tt);
    is_termlog(
        &mut mt,
        "straddling write",
        &[
            GOTO(3, 0), SETPEN(pen_log()), PRINT("01234"),
            GOTO(3, 11), SETPEN(pen_log()), PRINT("bcdefghij"),
        ],
    );
}

#[test]
fn renderbuffer_nested_save_clip_restore() {
    let mut mt = make_term(25, 80);
    let mut rb = TickitRenderBuffer::new(4, 12);
    rb.save();
    rb.clip(&TickitRect { top: 0, left: 2, lines: 4, cols: 8 });
    rb.save();
    rb.clip(&TickitRect { top: 0, left: 4, lines: 4, cols: 4 });
    rb.text_at(0, 0, "aaaaaaaaaaaa", None);
    rb.restore();
    rb.text_at(1, 0, "bbbbbbbbbbbb", None);
    rb.restore();
    rb.text_at(2, 0, "cccccccccccc", None);
    // with nothing saved a restore changes nothing
    rb.restore();
    rb.text_at(3, 0, "dddddddddddd", None);
    rb.flush_to_term(&mut mt.tt);
    is_termlog(
        &mut mt,
        "nested clips",
        &[
            GOTO(0, 4), SETPEN(pen_log()), PRINT("aaaa"),
            GOTO(1, 2), SETPEN(pen_log()), PRINT("bbbbbbbb"),
            GOTO(2, 0), SETPEN(pen_log()), PRINT("cccccccccccc"),
            GOTO(3, 0), SETPEN(pen_log()), PRINT("dddddddddddd"),
        ],
    );
    // a clip that shares nothing with the clipping rectangle leaves nothing to draw in
    rb.clip(&TickitRect { top: 0, left: 0, lines: 2, cols: 2 });
    rb.clip(&TickitRect { top: 2, left: 2, lines: 2, cols: 2 });
    rb.text_at(0, 0, "x", None);
    rb.text_at(2, 2, "y", None);
    rb.flush_to_term(&mut mt.tt);
    assert_eq!(mt.loglen(), 0);
}

#[test]
fn renderbuffer_spans_and_skips() {
    let mut rb = TickitRenderBuffer::new(3, 12);
    match rb.get_span(0, 0) {
        TickitRenderBufferSpanInfo::SkipSpan { n_columns } => assert_eq!(n_columns, 12),
        _ => panic!("a new buffer holds nothing"),
    }
    let pen = TickitPen::new().with_colour_attr(TICKIT_PEN_FG, 2);
    rb.text_at(0, 2, "h\u{e9}llo \u{ff21}!", Some(&pen));
    rb.erase_at(1, 0, 4, None);
    match rb.get_span(0, 0) {
        TickitRenderBufferSpanInfo::SkipSpan { n_columns } => assert_eq!(n_columns, 2),
        _ => panic!("skip before the text"),
    }
    match rb.get_span(0, 2) {
        TickitRenderBufferSpanInfo::TextSpan { pen, text } => {
            assert_eq!(text, "h\u{e9}llo \u{ff21}!");
            assert_eq!(pen.get_colour_attr(TICKIT_PEN_FG), 2);
        }
        _ => panic!("the text"),
    }
    match rb.get_span(0, 4) {
        TickitRenderBufferSpanInfo::TextSpan { text, .. } => assert_eq!(text, "llo \u{ff21}!"),
        _ => panic!("the text from its middle"),
    }
    match rb.get_span(1, 0) {
        TickitRenderBufferSpanInfo::TextSpan { text, .. } => assert_eq!(text, ""),
        _ => panic!("erased cells"),
    }
    assert_eq!(rb.get_cell_text(0, 3), "\u{e9}");
    // one column does not hold a wide character
    assert_eq!(rb.get_cell_text(0, 8), "");
    assert_eq!(rb.get_cell_text(0, 10), "!");
    assert!(rb.get_cell_active(1, 3));
    assert!(!rb.get_cell_active(1, 4));
    assert!(!rb.get_cell_active(-1, 0));
    assert!(!rb.get_cell_active(0, 12));
    assert_eq!(rb.get_cell_text(5, 5), "");
    assert!(!rb.get_cell_pen(5, 5).is_nonempty());

    // skipping takes drawn cells back
    rb.skip_at(0, 4, 3);
    match rb.get_span(0, 2) {
        TickitRenderBufferSpanInfo::TextSpan { text, .. } => assert_eq!(text, "h\u{e9}"),
        _ => panic!("the text before the skip"),
    }
    assert!(!rb.get_cell_active(0, 5));
    rb.goto(2, 0);
    rb.text("ab", None);
    rb.skip(2);
    rb.text("cd", None);
    rb.skip_to(8);
    rb.erase_to(10, None);
    assert_eq!(rb.get_cursorpos(), Some((2, 10)));
    rb.ungoto();
    assert_eq!(rb.get_cursorpos(), None);
    assert_eq!(rb.text("zz", None), -1);
    let mut mt = make_term(25, 80);
    rb.reset();
    rb.goto(2, 0);
    rb.text("ab", None);
    rb.skip(2);
    rb.text("cd", None);
    rb.skip_to(8);
    rb.erase_to(10, None);
    rb.text("!", None);
    rb.flush_to_term(&mut mt.tt);
    is_termlog(
        &mut mt,
        "skips",
        &[
            GOTO(2, 0), SETPEN(pen_log()), PRINT("ab"),
            GOTO(2, 4), SETPEN(pen_log()), PRINT("cd"),
            GOTO(2, 8), SETPEN(pen_log()), ERASECH(2, Some(true)),
            SETPEN(pen_log()), PRINT("!"),
        ],
    );
    // a text with a control character is not drawn
    assert_eq!(rb.text_at(0, 0, "a\u{7}b", None), -1);
    rb.flush_to_term(&mut mt.tt);
    assert_eq!(mt.loglen(), 0);
}
