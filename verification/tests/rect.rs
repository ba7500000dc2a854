use tickit::{TickitRect, TickitRectSet};

fn rect_init_strp(str_: &str) -> TickitRect {
    fn pair(x: &str) -> (i32, i32) {
        let mut inner = x.split(',').map(|y| y.parse::<i32>().unwrap());
        (inner.next().unwrap(), inner.next().unwrap())
    }
    if str_.contains("..") {
        let mut outer = str_.split("..").map(pair);
        let ((left, top), (right, bottom)) = (outer.next().unwrap(), outer.next().unwrap());
        TickitRect::init_bounded(top, left, bottom, right)
    } else {
        let mut outer = str_.split('+').map(pair);
        let ((left, top), (cols, lines)) = (outer.next().unwrap(), outer.next().unwrap());
        TickitRect::init_sized(top, left, lines, cols)
    }
}

fn s(r: TickitRect) -> String {
    format!("{},{}..{},{}", r.left, r.top, r.right(), r.bottom())
}

fn is_rect(got: TickitRect, expect: &str, name: &str) {
    assert_eq!(s(got), s(rect_init_strp(expect)), "{}", name);
}

#[test]
fn test_03rect() {
    let rect1 = TickitRect::init_sized(5, 10, 7, 20);

    assert_eq!(rect1.top, 5, "rect1.top");
    assert_eq!(rect1.left, 10, "rect1.left");
    assert_eq!(rect1.lines, 7, "rect1.lines");
    assert_eq!(rect1.cols, 20, "rect1.cols");
    assert_eq!(rect1.bottom(), 12, "rect1.bottom()");
    assert_eq!(rect1.right(), 30, "rect1.right()");

    let rect2 = TickitRect::init_sized(0, 0, 25, 80);
    let rect_out = rect1.intersect(&rect2).unwrap();

    assert_eq!(rect_out.top, 5, "rectOut.top from intersect wholescreen");
    assert_eq!(rect_out.left, 10, "rectOut.left from intersect wholescreen");
    assert_eq!(rect_out.lines, 7, "rectOut.lines from intersect wholescreen");
    assert_eq!(rect_out.cols, 20, "rectOut.cols from intersect wholescreen");
    assert_eq!(rect_out.bottom(), 12, "rectOut.bottom() from intersect wholescreen");
    assert_eq!(rect_out.right(), 30, "rectOut.right() from intersect wholescreen");

    let rect2 = TickitRect::init_sized(10, 20, 15, 60);
    let rect_out = rect1.intersect(&rect2).unwrap();

    assert_eq!(rect_out.top, 10, "rectOut.top from intersect partial");
    assert_eq!(rect_out.left, 20, "rectOut.left from intersect partial");
    assert_eq!(rect_out.lines, 2, "rectOut.lines from intersect partial");
    assert_eq!(rect_out.cols, 10, "rectOut.cols from intersect partial");
    assert_eq!(rect_out.bottom(), 12, "rectOut.bottom() from intersect partial");
    assert_eq!(rect_out.right(), 30, "rectOut.right() from intersect partial");

    let rect2 = TickitRect::init_sized(20, 20, 5, 60);
    assert!(rect1.intersect(&rect2).is_none(), "false from intersect outside");

    let rect2 = TickitRect::init_sized(7, 12, 3, 10);
    assert!(rect1.contains(&rect2), "contains() for smaller");

    let rect2 = TickitRect::init_sized(3, 10, 5, 12);
    assert!(!rect1.contains(&rect2), "contains() for overlap");

    let rect2 = TickitRect::init_sized(3, 10, 5, 12);
    assert!(rect1.intersects(&rect2), "intersects() with overlap");

    let rect2 = TickitRect::init_sized(14, 10, 3, 20);
    assert!(!rect1.intersects(&rect2), "intersects() with other");

    let rect2 = TickitRect::init_sized(12, 10, 3, 20);
    assert!(!rect1.intersects(&rect2), "intersects() with abutting");

    let rect1 = TickitRect::init_bounded(3, 8, 9, 22);

    assert_eq!(rect1.top, 3, "rect1.top from init_bounded");
    assert_eq!(rect1.left, 8, "rect1.left from init_bounded");
    assert_eq!(rect1.lines, 6, "rect1.lines from init_bounded");
    assert_eq!(rect1.cols, 14, "rect1.cols from init_bounded");
    assert_eq!(rect1.bottom(), 9, "rect1.bottom() from init_bounded");
    assert_eq!(rect1.right(), 22, "rect1.right() from init_bounded");

    // Rectangle addition

    let rect1 = rect_init_strp("10,10..20,20");

    let rects = rect1.add(&rect_init_strp("10,10..20,20"));
    assert_eq!(rects.len(), 1, "rect_add same");
    is_rect(rects[0], "10,10..20,20", "rects[0] for rect_add same");

    let rects = rect1.add(&rect_init_strp("5,10..10,20"));
    assert_eq!(rects.len(), 1, "rect_add left");
    is_rect(rects[0], "5,10..20,20", "rects[0] for rect_add left");

    let rects = rect1.add(&rect_init_strp("20,10..25,20"));
    assert_eq!(rects.len(), 1, "rect_add right");
    is_rect(rects[0], "10,10..25,20", "rects[0] for rect_add right");

    let rects = rect1.add(&rect_init_strp("10,5..20,10"));
    assert_eq!(rects.len(), 1, "rect_add top");
    is_rect(rects[0], "10,5..20,20", "rects[0] for rect_add top");

    let rects = rect1.add(&rect_init_strp("10,20..20,25"));
    assert_eq!(rects.len(), 1, "rect_add bottom");
    is_rect(rects[0], "10,10..20,25", "rects[0] for rect_add bottom");

    let rects = rect1.add(&rect_init_strp("12,5..18,10"));
    assert_eq!(rects.len(), 2, "rect_add T above");
    is_rect(rects[0], "12,5..18,10", "rects[0] for rect_add T above");
    is_rect(rects[1], "10,10..20,20", "rects[1] for rect_add T above");

    let rects = rect1.add(&rect_init_strp("12,20..18,30"));
    assert_eq!(rects.len(), 2, "rect_add T below");
    is_rect(rects[0], "10,10..20,20", "rects[0] for rect_add T below");
    is_rect(rects[1], "12,20..18,30", "rects[1] for rect_add T below");

    let rects = rect1.add(&rect_init_strp("5,12..10,18"));
    assert_eq!(rects.len(), 3, "rect_add T left");
    is_rect(rects[0], "10,10..20,12", "rects[0] for rect_add T left");
    is_rect(rects[1], "5,12..20,18", "rects[1] for rect_add T left");
    is_rect(rects[2], "10,18..20,20", "rects[2] for rect_add T left");

    let rects = rect1.add(&rect_init_strp("20,12..25,18"));
    assert_eq!(rects.len(), 3, "rect_add T right");
    is_rect(rects[0], "10,10..20,12", "rects[0] for rect_add T right");
    is_rect(rects[1], "10,12..25,18", "rects[1] for rect_add T right");
    is_rect(rects[2], "10,18..20,20", "rects[2] for rect_add T right");

    let rects = rect1.add(&rect_init_strp("15,15..25,25"));
    assert_eq!(rects.len(), 3, "rect_add diagonal");
    is_rect(rects[0], "10,10..20,15", "rects[0] for rect_add diagonal");
    is_rect(rects[1], "10,15..25,20", "rects[1] for rect_add diagonal");
    is_rect(rects[2], "15,20..25,25", "rects[2] for rect_add diagonal");

    let rects = rect1.add(&rect_init_strp("12,8..18,22"));
    assert_eq!(rects.len(), 3, "rect_add cross");
    is_rect(rects[0], "12,8..18,10", "rects[0] for rect_add cross");
    is_rect(rects[1], "10,10..20,20", "rects[1] for rect_add cross");
    is_rect(rects[2], "12,20..18,22", "rects[2] for rect_add cross");

    let rects = rect1.add(&rect_init_strp("10,30..20,40"));
    assert_eq!(rects.len(), 2, "rect_add non-overlap horizontal");
    is_rect(rects[0], "10,10..20,20", "rects[0] for rect_add non-overlap horizontal");
    is_rect(rects[1], "10,30..20,40", "rects[1] for rect_add non-overlap horizontal");

    let rects = rect1.add(&rect_init_strp("30,10..40,20"));
    assert_eq!(rects.len(), 2, "rect_add non-overlap vertical");
    is_rect(rects[0], "10,10..20,20", "rects[0] for rect_add non-overlap vertical");
    is_rect(rects[1], "30,10..40,20", "rects[1] for rect_add non-overlap vertical");

    // Rectangle subtraction

    let rects = rect1.subtract(&rect_init_strp("10,10..20,20"));
    assert_eq!(rects.len(), 0, "rect_subtract self");

    let rects = rect1.subtract(&rect_init_strp("5,10..15,20"));
    assert_eq!(rects.len(), 1, "rect_subtract truncate left");
    is_rect(rects[0], "15,10..20,20", "rects[0] for rect_subtract truncate left");

    let rects = rect1.subtract(&rect_init_strp("15,10..25,20"));
    assert_eq!(rects.len(), 1, "rect_subtract truncate right");
    is_rect(rects[0], "10,10..15,20", "rects[0] for rect_subtract truncate right");

    let rects = rect1.subtract(&rect_init_strp("10,5..20,15"));
    assert_eq!(rects.len(), 1, "rect_subtract truncate top");
    is_rect(rects[0], "10,15..20,20", "rects[0] for rect_subtract truncate top");

    let rects = rect1.subtract(&rect_init_strp("10,15..20,25"));
    assert_eq!(rects.len(), 1, "rect_subtract truncate bottom");
    is_rect(rects[0], "10,10..20,15", "rects[0] for rect_subtract truncate bottom");

    let rects = rect1.subtract(&rect_init_strp("5,12..25,18"));
    assert_eq!(rects.len(), 2, "rect_subtract slice horizontal");
    is_rect(rects[0], "10,10..20,12", "rects[0] for rect_subtract slice horizontal");
    is_rect(rects[1], "10,18..20,20", "rects[1] for rect_subtract slice horizontal");

    let rects = rect1.subtract(&rect_init_strp("12,5..18,25"));
    assert_eq!(rects.len(), 2, "rect_subtract slice vertical");
    is_rect(rects[0], "10,10..12,20", "rects[0] for rect_subtract slice vertical");
    is_rect(rects[1], "18,10..20,20", "rects[1] for rect_subtract slice vertical");

    let rects = rect1.subtract(&rect_init_strp("5,12..15,18"));
    assert_eq!(rects.len(), 3, "rect_subtract U left");
    is_rect(rects[0], "10,10..20,12", "rects[0] for rect_subtract U left");
    is_rect(rects[1], "15,12..20,18", "rects[1] for rect_subtract U left");
    is_rect(rects[2], "10,18..20,20", "rects[2] for rect_subtract U left");

    let rects = rect1.subtract(&rect_init_strp("15,12..25,18"));
    assert_eq!(rects.len(), 3, "rect_subtract U right");
    is_rect(rects[0], "10,10..20,12", "rects[0] for rect_subtract U right");
    is_rect(rects[1], "10,12..15,18", "rects[1] for rect_subtract U right");
    is_rect(rects[2], "10,18..20,20", "rects[2] for rect_subtract U right");

    let rects = rect1.subtract(&rect_init_strp("12,5..18,15"));
    assert_eq!(rects.len(), 3, "rect_subtract U top");
    is_rect(rects[0], "10,10..12,15", "rects[0] for rect_subtract U top");
    is_rect(rects[1], "18,10..20,15", "rects[1] for rect_subtract U top");
    is_rect(rects[2], "10,15..20,20", "rects[2] for rect_subtract U top");

    let rects = rect1.subtract(&rect_init_strp("12,15..18,25"));
    assert_eq!(rects.len(), 3, "rect_subtract U bottom");
    is_rect(rects[0], "10,10..20,15", "rects[0] for rect_subtract U bottom");
    is_rect(rects[1], "10,15..12,20", "rects[1] for rect_subtract U bottom");
    is_rect(rects[2], "18,15..20,20", "rects[2] for rect_subtract U bottom");

    let rects = rect1.subtract(&rect_init_strp("12,12..18,18"));
    assert_eq!(rects.len(), 4, "rect_subtract hole");
    is_rect(rects[0], "10,10..20,12", "rects[0] for rect_subtract hole");
    is_rect(rects[1], "10,12..12,18", "rects[1] for rect_subtract hole");
    is_rect(rects[2], "18,12..20,18", "rects[2] for rect_subtract hole");
    is_rect(rects[3], "10,18..20,20", "rects[3] for rect_subtract hole");
}

fn rects_init_strp(str_: &str) -> Vec<TickitRect> {
    str_.split(' ').filter(|s| !s.is_empty()).map(rect_init_strp).collect()
}

fn test_add(input: &str, output: &str) {
    let mut trs = TickitRectSet::new();
    let inputs = rects_init_strp(input);
    let exp_outputs = rects_init_strp(output);

    for &reverse in [false, true].iter() {
        trs.clear();
        if reverse {
            for i in inputs.iter().rev() {
                trs.add(i);
            }
        } else {
            for i in inputs.iter() {
                trs.add(i);
            }
        }
        let got_outputs = trs.get_rects();
        assert_eq!(
            got_outputs.iter().map(|r| s(*r)).collect::<Vec<_>>(),
            exp_outputs.iter().map(|r| s(*r)).collect::<Vec<_>>(),
            "{} {}",
            if reverse { "rectset add reversed" } else { "rectset add" },
            input
        );
    }
}

fn test_subtract(input: &str, output: &str) {
    let mut trs = TickitRectSet::new();
    let inputs = rects_init_strp(input);
    trs.add(&inputs[0]);
    for i in inputs.iter().skip(1) {
        trs.subtract(i);
    }
    let exp_outputs = rects_init_strp(output);
    let got_outputs = trs.get_rects();
    assert_eq!(
        got_outputs.iter().map(|r| s(*r)).collect::<Vec<_>>(),
        exp_outputs.iter().map(|r| s(*r)).collect::<Vec<_>>(),
        "rectset subtract {}",
        input
    );
}

#[test]
fn test_04rectset() {
    {
        let mut trs = TickitRectSet::new();

        let rects = trs.get_rects();
        assert_eq!(rects.len(), 0, "get_rects initially");

        // Distinct regions
        trs.add(&rect_init_strp("10,10+20,5"));

        let rects = trs.get_rects();
        assert_eq!(rects.len(), 1, "get_rects after add");
        is_rect(rects[0], "10,10+20,5", "rects[0] after add");

        trs.add(&rect_init_strp("10,20+20,2"));

        let rects = trs.get_rects();
        assert_eq!(rects.len(), 2, "get_rects after second add");
        is_rect(rects[0], "10,10+20,5", "rects[0] after second add");
        is_rect(rects[1], "10,20+20,2", "rects[1] after second add");

        trs.clear();

        let rects = trs.get_rects();
        assert_eq!(rects.len(), 0, "rects after clear");

        // Intersect and containment
        trs.add(&rect_init_strp("1,1..20,5"));
        trs.add(&rect_init_strp("1,5..10,10"));

        assert!(trs.intersects(&rect_init_strp("0,0..5,5")), "intersects overlap");
        assert!(!trs.intersects(&rect_init_strp("15,6..25,9")), "doesn't intersect no overlap");

        assert!(trs.contains(&rect_init_strp("5,1..15,4")), "contains simple");
        assert!(trs.contains(&rect_init_strp("5,2..8,9")), "contains split");
        assert!(!trs.contains(&rect_init_strp("5,2..12,9")), "doesn't contain split");
        assert!(!trs.contains(&rect_init_strp("15,6..25,9")), "doesn't contain non-intersect");
    }

    // Distinct regions
    test_add("10,10..30,15 40,10..60,15", "10,10..30,15 40,10..60,15");
    test_add("10,10..30,15 10,20..30,25", "10,10..30,15 10,20..30,25");

    // Ignorable regions
    test_add("10,10..30,15 10,10..30,15", "10,10..30,15");
    test_add("10,10..30,15 10,10..20,12", "10,10..30,15");
    test_add("10,10..30,15 20,13..30,15", "10,10..30,15");
    test_add("10,10..30,15 15,11..25,14", "10,10..30,15");

    // Overlapping extension top
    test_add("10,10..30,15 10,8..30,12", "10,8..30,15");
    test_add("10,10..30,15 10,8..30,10", "10,8..30,15");
    test_add("10,10..30,12 10,15..30,17 10,12..30,15", "10,10..30,17");

    // Overlapping extension bottom
    test_add("10,10..30,15 10,12..30,17", "10,10..30,17");
    test_add("10,10..30,15 10,15..30,17", "10,10..30,17");

    // Overlapping extension left
    test_add("10,10..30,15 5,10..25,15", "5,10..30,15");
    test_add("10,10..30,15 5,10..10,15", "5,10..30,15");

    // Overlapping extension right
    test_add("10,10..30,15 20,10..35,15", "10,10..35,15");
    test_add("10,10..30,15 30,10..35,15", "10,10..35,15");

    // L/T shape top abutting
    test_add("10,10..30,15 10,8..20,10", "10,8..20,10 10,10..30,15");
    test_add("10,10..30,15 15,8..25,10", "15,8..25,10 10,10..30,15");
    test_add("10,10..30,15 20,8..30,10", "20,8..30,10 10,10..30,15");

    // L/T shape top overlapping
    test_add("10,10..30,15 10,8..20,12", "10,8..20,10 10,10..30,15");
    test_add("10,10..30,15 15,8..25,12", "15,8..25,10 10,10..30,15");
    test_add("10,10..30,15 20,8..30,12", "20,8..30,10 10,10..30,15");

    // L/T shape bottom abutting
    test_add("10,10..30,15 10,15..20,17", "10,10..30,15 10,15..20,17");
    test_add("10,10..30,15 15,15..25,17", "10,10..30,15 15,15..25,17");
    test_add("10,10..30,15 20,15..30,17", "10,10..30,15 20,15..30,17");

    // L/T shape bottom overlapping
    test_add("10,10..30,15 10,13..20,17", "10,10..30,15 10,15..20,17");
    test_add("10,10..30,15 15,13..25,17", "10,10..30,15 15,15..25,17");
    test_add("10,10..30,15 20,13..30,17", "10,10..30,15 20,15..30,17");

    // L/T shape left abutting
    test_add("10,10..30,15 5,10..10,12", "5,10..30,12 10,12..30,15");
    test_add("10,10..30,15 5,11..10,14", "10,10..30,11 5,11..30,14 10,14..30,15");
    test_add("10,10..30,15 5,13..10,15", "10,10..30,13 5,13..30,15");

    // L/T shape left overlapping
    test_add("10,10..30,15 5,10..15,12", "5,10..30,12 10,12..30,15");
    test_add("10,10..30,15 5,11..15,14", "10,10..30,11 5,11..30,14 10,14..30,15");
    test_add("10,10..30,15 5,13..15,15", "10,10..30,13 5,13..30,15");

    // L/T shape right abutting
    test_add("10,10..30,15 30,10..35,12", "10,10..35,12 10,12..30,15");
    test_add("10,10..30,15 30,11..35,14", "10,10..30,11 10,11..35,14 10,14..30,15");
    test_add("10,10..30,15 30,13..35,15", "10,10..30,13 10,13..35,15");

    // L/T shape right overlapping
    test_add("10,10..30,15 20,10..35,12", "10,10..35,12 10,12..30,15");
    test_add("10,10..30,15 20,11..35,14", "10,10..30,11 10,11..35,14 10,14..30,15");
    test_add("10,10..30,15 20,13..35,15", "10,10..30,13 10,13..35,15");

    // Cross shape
    test_add("10,10..30,15 15,5..25,20", "15,5..25,10 10,10..30,15 15,15..25,20");

    // Diagonal overlap
    test_add("10,10..30,15 20,12..40,20", "10,10..30,12 10,12..40,15 20,15..40,20");
    test_add("10,10..30,15  0,12..20,20", "10,10..30,12  0,12..30,15  0,15..20,20");

    // Distinct regions
    test_subtract("10,10..30,15 10,20..30,22", "10,10..30,15");

    // Overlapping truncate left
    test_subtract("10,10..30,15 5,10..20,15", "20,10..30,15");

    // Overlapping truncate right
    test_subtract("10,10..30,15 20,10..35,15", "10,10..20,15");

    // Overlapping truncate top
    test_subtract("10,10..30,15 10,8..30,12", "10,12..30,15");

    // Overlapping truncate bottom
    test_subtract("10,10..30,15 10,13..30,18", "10,10..30,13");

    // Overlapping U left
    test_subtract("10,10..30,15 5,11..20,14", "10,10..30,11 20,11..30,14 10,14..30,15");

    // Overlapping U right
    test_subtract("10,10..30,15 20,11..35,14", "10,10..30,11 10,11..20,14 10,14..30,15");

    // Overlapping U top
    test_subtract("10,10..30,15 15,8..25,12", "10,10..15,12 25,10..30,12 10,12..30,15");

    // Overlapping U bottom
    test_subtract("10,10..30,15 15,13..25,18", "10,10..30,13 10,13..15,15 25,13..30,15");

    // Remove entirely
    test_subtract("10,10..30,15 8,8..32,17", "");
}

fn area(r: &TickitRect) -> i64 {
    r.lines as i64 * r.cols as i64
}

fn cells(rects: &[TickitRect], size: i32) -> Vec<u8> {
    let mut grid = vec![0u8; (size * size) as usize];
    for r in rects {
        for line in r.top..r.bottom() {
            for col in r.left..r.right() {
                grid[(line * size + col) as usize] += 1;
            }
        }
    }
    grid
}

#[test]
fn rect_pieces_tile_union_and_difference() {
    let size = 7;
    let mut all = Vec::new();
    for top in 0..size {
        for left in 0..size {
            for lines in [0, 1, 3] {
                for cols in [0, 2, 3] {
                    if top + lines <= size && left + cols <= size {
                        all.push(TickitRect::init_sized(top, left, lines, cols));
                    }
                }
            }
        }
    }
    for a in &all {
        for b in all.iter().step_by(3) {
            let common = a.intersect(b).map(|r| area(&r)).unwrap_or(0);
            let sum = a.add(b);
            assert!(sum.len() <= 3);
            assert_eq!(sum.iter().map(area).sum::<i64>(), area(a) + area(b) - common);
            let got = cells(&sum, size);
            let want = cells(&[*a, *b], size);
            for i in 0..got.len() {
                assert!(got[i] <= 1, "pieces of a union overlap");
                assert_eq!(got[i] > 0, want[i] > 0);
            }
            let diff = a.subtract(b);
            assert!(diff.len() <= 4);
            assert_eq!(diff.iter().map(area).sum::<i64>(), area(a) - common);
            let got = cells(&diff, size);
            let ca = cells(&[*a], size);
            let cb = cells(&[*b], size);
            for i in 0..got.len() {
                assert!(got[i] <= 1, "pieces of a difference overlap");
                assert_eq!(got[i] > 0, ca[i] > 0 && cb[i] == 0);
            }
        }
    }
}

#[test]
fn rectset_order_does_not_matter() {
    let mut fwd = TickitRectSet::new();
    fwd.add(&rect_init_strp("10,10..30,15"));
    fwd.add(&rect_init_strp("10,8..30,12"));
    let mut rev = TickitRectSet::new();
    rev.add(&rect_init_strp("10,8..30,12"));
    rev.add(&rect_init_strp("10,10..30,15"));
    assert_eq!(fwd.get_rects(), rev.get_rects());
    assert_eq!(fwd.get_rects(), vec![rect_init_strp("10,8..30,15")]);

    // six rectangles in every rotation and its reverse
    let inputs = rects_init_strp("0,0..4,2 2,1..6,5 5,0..7,2 1,4..3,7 3,3..4,4 0,6..7,7");
    let mut want: Option<Vec<TickitRect>> = None;
    for shift in 0..inputs.len() {
        for reverse in [false, true] {
            let mut order: Vec<TickitRect> = inputs.clone();
            order.rotate_left(shift);
            if reverse {
                order.reverse();
            }
            let mut set = TickitRectSet::new();
            for r in &order {
                set.add(r);
            }
            let got = set.get_rects();
            let grid = cells(&got, 8);
            let all = cells(&inputs, 8);
            for i in 0..grid.len() {
                assert!(grid[i] <= 1);
                assert_eq!(grid[i] > 0, all[i] > 0);
            }
            match &want {
                None => want = Some(got),
                Some(w) => assert_eq!(&got, w),
            }
        }
    }
    assert_eq!(want.unwrap().len(), set_len_hint());
}

fn set_len_hint() -> usize {
    let inputs = rects_init_strp("0,0..4,2 2,1..6,5 5,0..7,2 1,4..3,7 3,3..4,4 0,6..7,7");
    let mut set = TickitRectSet::new();
    for r in &inputs {
        set.add(r);
    }
    set.rects()
}

#[test]
fn rectset_empty_rect_changes_nothing() {
    let mut set = TickitRectSet::new();
    set.add(&TickitRect::init_sized(3, 3, 0, 5));
    assert_eq!(set.rects(), 0);
    set.add(&TickitRect::init_sized(1, 1, 2, 2));
    set.subtract(&TickitRect::init_sized(1, 1, 2, 0));
    assert_eq!(set.get_rects(), vec![TickitRect::init_sized(1, 1, 2, 2)]);
    assert!(set.contains(&TickitRect::init_sized(50, 50, 0, 0)));
    assert!(!set.intersects(&TickitRect::init_sized(3, 3, 1, 1)));
}

#[test]
fn rect_validity() {
    assert!(TickitRect::init_sized(0, 0, 0, 0).is_valid());
    assert!(TickitRect::init_sized(-10, -20, 5, 20).is_valid());
    assert!(TickitRect::init_sized(-0x3fff_ffff, -0x3fff_ffff, 0x7fff_fffe, 0x7fff_fffe).is_valid());
    assert!(!TickitRect::init_sized(0, 0, -1, 5).is_valid());
    assert!(!TickitRect::init_sized(0, 0, 5, -1).is_valid());
    assert!(!TickitRect::init_sized(-0x4000_0000, 0, 1, 1).is_valid());
    assert!(!TickitRect::init_sized(1, 0, 0x3fff_ffff, 1).is_valid());
    assert!(!TickitRect::init_sized(0, 0x3fff_ffff, 1, 1).is_valid());
}
