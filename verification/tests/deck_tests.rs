use termslides::deck::{bullet_phrase, generate_buzzword_phrase, generate_buzzword_slides, ClosingContent};
use termslides::slide::{color_for, SlideColor};
use termslides::usable_height;

#[test]
fn bulleted_phrases_carry_the_marker() {
    let p = generate_buzzword_phrase(true);
    assert!(p.starts_with("* "));
    assert!(p.len() >= 2);
}

#[test]
fn unbulleted_phrases_do_not_start_with_the_marker() {
    // The opener comes straight from the phrase source; the generated
    // phrases never start with an asterisk of their own.
    let p = generate_buzzword_phrase(false);
    assert!(!p.starts_with("* "));
}

#[test]
fn palette_rotates_every_six_slides() {
    assert_eq!(color_for(0), SlideColor::Cyan);
    assert_eq!(color_for(1), SlideColor::DarkMagenta);
    assert_eq!(color_for(2), SlideColor::Green);
    assert_eq!(color_for(3), SlideColor::Red);
    assert_eq!(color_for(4), SlideColor::White);
    assert_eq!(color_for(5), SlideColor::Yellow);
    assert_eq!(color_for(6), SlideColor::Cyan);
    assert_eq!(color_for(13), SlideColor::DarkMagenta);
}

#[test]
fn usable_height_reserves_the_bottom_margin() {
    assert_eq!(usable_height(24), 20);
    assert_eq!(usable_height(5), 1);
}

#[test]
fn generated_deck_has_three_to_seven_body_slides() {
    let deck = generate_buzzword_slides(80, 20, vec![]);
    assert!(deck.len() >= 3 && deck.len() <= 7);
    for (i, slide) in deck.iter().enumerate() {
        assert!(slide.lines.len() >= 2 && slide.lines.len() <= 4);
        let y0 = slide.lines[0].y;
        for (j, line) in slide.lines.iter().enumerate() {
            assert!(line.y < 20);
            assert_eq!(line.y, y0 + j);
            assert_eq!(line.color, color_for(i));
            if j >= 1 {
                assert!(line.content.starts_with("* "));
            }
            match line.animate.as_ref() {
                Some(a) => {
                    assert!(i > 2);
                    assert_eq!(a.rate, 8);
                }
                None => assert!(i <= 2),
            }
        }
        // the block of 2 to 4 lines is vertically centered around the
        // middle of a 20-row canvas
        assert_eq!(y0, 10 - slide.lines.len() / 2);
    }
}

#[test]
fn closing_slides_follow_the_body_slides() {
    let closing = vec![ClosingContent {
        header: "The End".to_string(),
        stencil: None,
        body: vec!["fin".to_string()],
    }];
    let deck = generate_buzzword_slides(80, 20, closing);
    assert!(deck.len() >= 4 && deck.len() <= 8);
    let last = deck.last().unwrap();
    assert_eq!(last.lines.len(), 2);
    assert_eq!(last.lines[0].content, "The End");
    assert_eq!(last.lines[0].y, 4);
    assert_eq!(last.lines[1].content, "fin");
    assert_eq!(last.lines[1].y, 8);
    assert_eq!(last.lines[0].color, color_for(deck.len() - 1));
}

#[test]
fn five_row_canvas_still_fits_every_generated_line() {
    let deck = generate_buzzword_slides(80, 5, vec![]);
    for slide in deck.iter() {
        assert!(slide.lines.len() >= 2 && slide.lines.len() <= 4);
        for line in slide.lines.iter() {
            assert!(line.y < 5);
        }
    }
}

#[test]
fn bulleting_passes_the_phrase_through() {
    assert_eq!(bullet_phrase("web-enabled synergy".to_string(), true), "* web-enabled synergy");
    assert_eq!(bullet_phrase("web-enabled synergy".to_string(), false), "web-enabled synergy");
    assert_eq!(bullet_phrase("".to_string(), true), "* ");
}

#[test]
fn deck_never_exceeds_eight_slides() {
    // With the three fixed closing sources the body count is clamped so
    // the whole deck stays within the documented three-to-eight bound.
    let closing: Vec<ClosingContent> = ["Diagram", "TODO", "The End"]
        .iter()
        .map(|name| ClosingContent {
            header: name.to_string(),
            stencil: None,
            body: vec!["x".to_string()],
        })
        .collect();
    let deck = generate_buzzword_slides(80, 20, closing);
    assert!(deck.len() >= 6 && deck.len() <= 8);
}
