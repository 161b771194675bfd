use termslides::layout::{compute_art_budget, gen_lines_from_ascii, layout_closing_slide};
use termslides::slide::SlideColor;

fn strings(rows: &[&str]) -> Vec<String> {
    rows.iter().map(|r| r.to_string()).collect()
}

#[test]
fn blank_stencil_rows_are_stripped() {
    let rows = strings(&["   ", "*AB", "", "\t ", "*C ", "  "]);
    let lines = gen_lines_from_ascii(4, &rows, false, SlideColor::Green, 20);
    assert_eq!(lines.len(), 2);
    assert_eq!(lines[0].content, "*AB");
    assert_eq!(lines[0].y, 4);
    assert!(lines[0].animate.is_none());
    assert_eq!(lines[0].color, SlideColor::Green);
    assert_eq!(lines[1].content, "*C ");
    assert_eq!(lines[1].y, 5);
}

#[test]
fn stencil_rows_past_canvas_bottom_are_dropped() {
    let rows = strings(&["a", "b", "c", "d", "e"]);
    let lines = gen_lines_from_ascii(18, &rows, false, SlideColor::Red, 20);
    assert_eq!(lines.len(), 2);
    assert_eq!(lines[0].y, 18);
    assert_eq!(lines[1].y, 19);
}

#[test]
fn animated_stencil_lines_use_unit_rate() {
    let rows = strings(&["x"]);
    let lines = gen_lines_from_ascii(4, &rows, true, SlideColor::Cyan, 20);
    assert_eq!(lines.len(), 1);
    assert_eq!(lines[0].animate.as_ref().map(|a| a.rate), Some(1));
}

#[test]
fn short_header_budget_falls_back_to_plain_text() {
    // A five-row stencil is far below the minimum-usable threshold of
    // twelve, so the header renders as one plain-text line, never as art.
    let header = "TODO!".to_string();
    let stencil = Some(strings(&["*****", "*   *", "*   *", "*   *", "*****"]));
    let body = strings(&["alpha", "beta"]);
    let slide = layout_closing_slide(&header, &stencil, &body, 80, 20, SlideColor::Yellow);
    assert_eq!(slide.lines.len(), 3);
    assert_eq!(slide.lines[0].content, "TODO!");
    assert_eq!(slide.lines[0].y, 4);
    assert!(slide.lines[0].animate.is_none());
    // Body rows start after the single header line plus the fixed gap.
    assert_eq!(slide.lines[1].content, "alpha");
    assert_eq!(slide.lines[1].y, 8);
    assert_eq!(slide.lines[2].content, "beta");
    assert_eq!(slide.lines[2].y, 9);
}

#[test]
fn missing_stencil_falls_back_to_plain_text() {
    let header = "The End".to_string();
    let slide = layout_closing_slide(&header, &None, &strings(&["x"]), 80, 20, SlideColor::Cyan);
    assert_eq!(slide.lines[0].content, "The End");
    assert_eq!(slide.lines[0].y, 4);
    assert_eq!(slide.lines.len(), 2);
    assert_eq!(slide.lines[1].content, "x");
    assert_eq!(slide.lines[1].y, 8);
}

#[test]
fn too_wide_stencil_falls_back_to_plain_text() {
    let wide = "#".repeat(77);
    let rows: Vec<String> = (0..13).map(|_| wide.clone()).collect();
    let slide = layout_closing_slide(
        &"Diagram".to_string(),
        &Some(rows),
        &strings(&[]),
        80,
        20,
        SlideColor::Red,
    );
    assert_eq!(slide.lines.len(), 1);
    assert_eq!(slide.lines[0].content, "Diagram");
    assert_eq!(slide.lines[0].y, 4);
}

#[test]
fn tall_narrow_stencil_is_accepted() {
    let rows: Vec<String> = (0..13).map(|_| "**".to_string()).collect();
    let slide = layout_closing_slide(
        &"Diagram".to_string(),
        &Some(rows),
        &strings(&[]),
        80,
        20,
        SlideColor::White,
    );
    assert_eq!(slide.lines.len(), 13);
    for (k, line) in slide.lines.iter().enumerate() {
        assert_eq!(line.content, "**");
        assert_eq!(line.y, 4 + k);
        assert!(line.y < 20);
    }
}

#[test]
fn every_line_stays_inside_the_canvas() {
    // Even with a long body the slide never claims a row outside the
    // canvas: rows that would land past the bottom are not drawn.
    let body: Vec<String> = (0..40).map(|k| format!("line {}", k)).collect();
    let slide = layout_closing_slide(&"Notes".to_string(), &None, &body, 80, 20, SlideColor::Cyan);
    for line in slide.lines.iter() {
        assert!(line.y < 20);
    }
    // one header line at 4, body from 8 through 19
    assert_eq!(slide.lines.len(), 1 + 12);
    assert_eq!(slide.lines.last().unwrap().y, 19);
}

#[test]
fn art_budget_reserves_body_and_margins() {
    assert_eq!(compute_art_budget(20, 3), Some(9));
    assert_eq!(compute_art_budget(10, 5), None);
    assert_eq!(compute_art_budget(10, 2), Some(0));
}

#[test]
fn generous_leftover_is_capped_at_two_fifths() {
    // 20 - 2 - 8 = 10 is at least half the canvas, so the budget is capped
    // at two fifths of the height.
    assert_eq!(compute_art_budget(20, 2), Some(8));
    assert_eq!(compute_art_budget(25, 3), Some(10));
}

#[test]
fn canvas_too_short_for_any_content_yields_an_empty_slide() {
    // With only four rows there is no room below the top content margin,
    // so neither the fallback header nor any body line is placed.
    let slide = layout_closing_slide(
        &"TODO".to_string(),
        &None,
        &strings(&["a", "b"]),
        80,
        4,
        SlideColor::Cyan,
    );
    assert!(slide.lines.is_empty());
}
