use termslides::render::{
    draw_border, draw_contents, draw_footer, render_slide, start_screen_ops, timer_ops, DrawOp,
};
use termslides::slide::{Animate, Line, Slide, SlideColor};

fn plain(x: usize, y: usize, ch: char) -> DrawOp {
    DrawOp::Put { x, y, ch, color: None }
}

fn block(x: usize, y: usize, color: SlideColor) -> DrawOp {
    DrawOp::Put { x, y, ch: '█', color: Some(color) }
}

fn line(y: usize, content: &str, animate: Option<Animate>, color: SlideColor) -> Line {
    Line { y, content: content.to_string(), animate, color }
}

fn text_of(ops: &[DrawOp]) -> String {
    ops.iter()
        .map(|op| match op {
            DrawOp::Put { ch, .. } => *ch,
            _ => '?',
        })
        .collect()
}

#[test]
fn border_covers_frame_cells_in_slide_color() {
    let slide = Slide { lines: vec![line(1, "x", None, SlideColor::Green)] };
    let ops = draw_border(5, 3, &slide);
    // full top and bottom rows, and four side cells of the middle row
    assert_eq!(ops.len(), 5 + 4 + 5);
    assert_eq!(ops[0], block(0, 0, SlideColor::Green));
    assert_eq!(ops[4], block(4, 0, SlideColor::Green));
    assert_eq!(ops[5], block(0, 1, SlideColor::Green));
    assert_eq!(ops[6], block(1, 1, SlideColor::Green));
    assert_eq!(ops[7], block(3, 1, SlideColor::Green));
    assert_eq!(ops[8], block(4, 1, SlideColor::Green));
    assert_eq!(ops[9], block(0, 2, SlideColor::Green));
    assert_eq!(ops[13], block(4, 2, SlideColor::Green));
}

#[test]
fn contents_walk_characters_from_the_margin() {
    let slide = Slide { lines: vec![line(2, "hi", None, SlideColor::Red)] };
    let ops = draw_contents(10, &slide);
    assert_eq!(
        ops,
        vec![
            plain(4, 2, 'h'),
            plain(5, 2, 'i'),
            block(8, 2, SlideColor::Red),
            block(9, 2, SlideColor::Red),
        ]
    );
}

#[test]
fn animated_contents_reveal_each_character() {
    let slide = Slide {
        lines: vec![line(3, "ab", Some(Animate { rate: 7 }), SlideColor::Cyan)],
    };
    let ops = draw_contents(12, &slide);
    assert_eq!(
        ops,
        vec![
            block(4, 3, SlideColor::Cyan),
            DrawOp::Flush,
            DrawOp::Sleep { millis: 7 },
            plain(4, 3, 'a'),
            block(5, 3, SlideColor::Cyan),
            DrawOp::Flush,
            DrawOp::Sleep { millis: 7 },
            plain(5, 3, 'b'),
            block(10, 3, SlideColor::Cyan),
            block(11, 3, SlideColor::Cyan),
        ]
    );
}

#[test]
fn closing_glyphs_use_the_first_lines_color() {
    let slide = Slide {
        lines: vec![
            line(2, "a", None, SlideColor::Red),
            line(5, "b", None, SlideColor::Yellow),
        ],
    };
    let ops = draw_contents(8, &slide);
    assert_eq!(
        ops,
        vec![
            plain(4, 2, 'a'),
            block(6, 2, SlideColor::Red),
            block(7, 2, SlideColor::Red),
            plain(4, 5, 'b'),
            block(6, 5, SlideColor::Red),
            block(7, 5, SlideColor::Red),
        ]
    );
}

#[test]
fn footer_prints_position_of_total() {
    let ops = draw_footer(80, 20, 3, 7);
    assert_eq!(text_of(&ops), "3 of 7");
    assert_eq!(ops[0], plain(68, 17, '3'));
    assert_eq!(ops[5], plain(73, 17, '7'));
}

#[test]
fn footer_handles_multi_digit_counts() {
    let ops = draw_footer(80, 20, 12, 10);
    assert_eq!(text_of(&ops), "12 of 10");
}

#[test]
fn timer_readout_formats_minutes_and_seconds() {
    let ops = timer_ops(80, 20, 65, true).unwrap();
    assert_eq!(text_of(&ops), "Elapsed time: 1:05");
    assert_eq!(ops[0], plain(56, 21, 'E'));
    assert_eq!(ops[17], plain(73, 21, '5'));
}

#[test]
fn timer_readout_at_start_shows_zero() {
    let ops = timer_ops(80, 20, 0, true).unwrap();
    assert_eq!(text_of(&ops), "Elapsed time: 0:00");
}

#[test]
fn hidden_timer_blanks_the_same_region() {
    let shown = timer_ops(80, 20, 65, true).unwrap();
    let hidden = timer_ops(80, 20, 65, false).unwrap();
    assert_eq!(hidden.len(), shown.len());
    assert_eq!(text_of(&hidden), "                  ");
    assert_eq!(hidden[0], plain(56, 21, ' '));
}

#[test]
fn timer_needs_room_for_the_readout() {
    assert!(timer_ops(10, 20, 0, true).is_none());
    assert!(timer_ops(24, 20, 0, true).is_some());
    assert!(timer_ops(23, 20, 0, true).is_none());
}

#[test]
fn start_screen_centers_the_banner() {
    let ops = start_screen_ops(20);
    assert_eq!(
        text_of(&ops),
        "Ready to start`n` or `space` or `enter` to move to next slide`p` move to previous slide`q` to quit presentation"
    );
    assert_eq!(ops[0], plain(4, 10, 'R'));
    // the key hints sit two rows below the banner, then on consecutive rows
    assert_eq!(ops[14], plain(4, 12, '`'));
    assert_eq!(ops[14 + 47], plain(4, 13, '`'));
    assert_eq!(ops[14 + 47 + 26], plain(4, 14, '`'));
    assert_eq!(ops.len(), 14 + 47 + 26 + 24);
}

#[test]
fn repaint_orders_border_then_footer_then_contents() {
    let slide = Slide { lines: vec![line(5, "hi", None, SlideColor::Green)] };
    let ops = render_slide(80, 20, &slide, 2, 5);
    let mut expected = draw_border(80, 20, &slide);
    expected.extend(draw_footer(80, 20, 2, 5));
    expected.extend(draw_contents(80, &slide));
    assert_eq!(ops, expected);
    // the border comes first, so the footer and contents are not clobbered
    assert_eq!(ops[0], block(0, 0, SlideColor::Green));
}
