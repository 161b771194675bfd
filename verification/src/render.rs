use vstd::prelude::*;

use crate::CONTENT_MARGIN;
use crate::slide::{Slide, LineModel, SlideColor};
use crate::text::{dec_rep, two_digit, dec_chars, two_digit_chars, str_chars};

verus! {

/// The solid glyph used for borders and for the pre-reveal cell of an
/// animated character.
pub const BLOCK_GLYPH: char = '█';

/// One queued drawing step: put a glyph at a cell (colored for structural
/// glyphs, plain for text), flush everything queued so far, or pause.
/// Executing the sequence in order reproduces the render, reveal effect
/// included.
#[derive(Clone, Copy, Debug, PartialEq, Eq, Structural)]
pub enum DrawOp {
    Put { x: usize, y: usize, ch: char, color: Option<SlideColor> },
    Flush,
    Sleep { millis: u64 },
}

/// One plain (uncolored) glyph put at a cell.
pub open spec fn text_put(x: int, y: int, ch: char) -> DrawOp {
    DrawOp::Put { x: x as usize, y: y as usize, ch, color: None }
}

/// A run of plain text put left to right starting at column `x0` of row `y`.
pub open spec fn put_row(x0: int, y: int, s: Seq<char>) -> Seq<DrawOp>
    decreases s.len(),
{
    if s.len() == 0 {
        Seq::empty()
    } else {
        put_row(x0, y, s.drop_last()) + seq![text_put(x0 + s.len() - 1, y, s.last())]
    }
}

/// The drawing steps for one run of plain text.
pub fn text_put_ops(x0: usize, y: usize, chars: &Vec<char>) -> (ops: Vec<DrawOp>)
    requires
        x0 + chars@.len() <= usize::MAX,
    ensures
        ops@ == put_row(x0 as int, y as int, chars@),
{
    let mut ops: Vec<DrawOp> = Vec::new();
    let mut k: usize = 0;
    proof {
        assert(chars@.take(0) =~= Seq::<char>::empty());
    }
    while k < chars.len()
        invariant
            x0 + chars@.len() <= usize::MAX,
            k <= chars@.len(),
            ops@ == put_row(x0 as int, y as int, chars@.take(k as int)),
        decreases chars@.len() - k,
    {
        ops.push(DrawOp::Put { x: x0 + k, y, ch: chars[k], color: None });
        k = k + 1;
        proof {
            let t = chars@.take(k as int);
            assert(t.len() == k as int);
            assert(t.drop_last() =~= chars@.take(k as int - 1));
            assert(t.last() == chars@[k as int - 1]);
            assert(ops@ =~= put_row(x0 as int, y as int, t));
        }
    }
    proof {
        assert(chars@.take(chars@.len() as int) =~= chars@);
    }
    ops
}

/// Whether the cell is part of the frame: the top or bottom row, or one of
/// the two leftmost or two rightmost columns.
pub open spec fn is_border_cell(x: int, y: int, w: int, h: int) -> bool {
    y == 0 || y == h - 1 || x == 0 || x == 1 || x == w - 2 || x == w - 1
}

/// The border cells of row `y` among columns `0..x`, left to right, each as
/// a colored block glyph.
pub open spec fn border_row_ops(x: int, y: int, w: int, h: int, color: SlideColor) -> Seq<DrawOp>
    decreases x,
{
    if x <= 0 {
        Seq::empty()
    } else {
        border_row_ops(x - 1, y, w, h, color) + (if is_border_cell(x - 1, y, w, h) {
            seq![
                DrawOp::Put {
                    x: (x - 1) as usize,
                    y: y as usize,
                    ch: BLOCK_GLYPH,
                    color: Some(color),
                },
            ]
        } else {
            Seq::empty()
        })
    }
}

/// The border cells of rows `0..y`, row-major.
pub open spec fn border_rows_ops(y: int, w: int, h: int, color: SlideColor) -> Seq<DrawOp>
    decreases y,
{
    if y <= 0 {
        Seq::empty()
    } else {
        border_rows_ops(y - 1, w, h, color) + border_row_ops(w, y - 1, w, h, color)
    }
}

/// Every border cell of a `w` by `h` canvas, row-major, as a block glyph in
/// the given color.
pub open spec fn border_ops(w: int, h: int, color: SlideColor) -> Seq<DrawOp> {
    border_rows_ops(h, w, h, color)
}

/// One colored block glyph put at a cell, as the border draws it.
pub open spec fn border_put(x: int, y: int, color: SlideColor) -> DrawOp {
    DrawOp::Put { x: x as usize, y: y as usize, ch: BLOCK_GLYPH, color: Some(color) }
}

proof fn lemma_border_row_props(x: int, y: int, w: int, h: int, color: SlideColor)
    ensures
        forall|i: int|
            0 <= i < border_row_ops(x, y, w, h, color).len() ==> (exists|xx: int|
                0 <= xx < x && is_border_cell(xx, y, w, h) && #[trigger] border_row_ops(
                    x,
                    y,
                    w,
                    h,
                    color,
                )[i] == #[trigger] border_put(xx, y, color)),
        forall|xx: int|
            0 <= xx < x && is_border_cell(xx, y, w, h) ==> #[trigger] border_row_ops(
                x,
                y,
                w,
                h,
                color,
            ).contains(border_put(xx, y, color)),
    decreases x,
{
    if x > 0 {
        lemma_border_row_props(x - 1, y, w, h, color);
        let prev = border_row_ops(x - 1, y, w, h, color);
        let cur = border_row_ops(x, y, w, h, color);
        assert forall|i: int| #![trigger cur[i]] 0 <= i < cur.len() implies (exists|xx: int|
            0 <= xx < x && is_border_cell(xx, y, w, h) && cur[i] == #[trigger] border_put(
                xx,
                y,
                color,
            )) by {
            if i < prev.len() {
                assert(cur[i] == prev[i]);
                let xx = choose|xx: int|
                    0 <= xx < x - 1 && is_border_cell(xx, y, w, h) && prev[i] == #[trigger] border_put(
                        xx,
                        y,
                        color,
                    );
                assert(0 <= xx < x && is_border_cell(xx, y, w, h) && cur[i] == border_put(
                    xx,
                    y,
                    color,
                ));
            } else {
                assert(is_border_cell(x - 1, y, w, h));
                assert(cur[i] == border_put(x - 1, y, color));
            }
        }
        assert forall|xx: int| 0 <= xx < x && is_border_cell(xx, y, w, h) implies cur.contains(
            border_put(xx, y, color),
        ) by {
            if xx < x - 1 {
                assert(prev.contains(border_put(xx, y, color)));
                let i = choose|i: int| 0 <= i < prev.len() && prev[i] == border_put(xx, y, color);
                assert(cur[i] == border_put(xx, y, color));
            } else {
                assert(cur[prev.len() as int] == border_put(x - 1, y, color));
            }
        }
    }
}

proof fn lemma_border_rows_props(y: int, w: int, h: int, color: SlideColor)
    ensures
        forall|i: int|
            0 <= i < border_rows_ops(y, w, h, color).len() ==> (exists|xx: int, yy: int|
                0 <= xx < w && 0 <= yy < y && is_border_cell(xx, yy, w, h)
                    && #[trigger] border_rows_ops(y, w, h, color)[i] == #[trigger] border_put(
                    xx,
                    yy,
                    color,
                )),
        forall|xx: int, yy: int|
            0 <= xx < w && 0 <= yy < y && is_border_cell(xx, yy, w, h) ==> #[trigger] border_rows_ops(
                y,
                w,
                h,
                color,
            ).contains(border_put(xx, yy, color)),
    decreases y,
{
    if y > 0 {
        lemma_border_rows_props(y - 1, w, h, color);
        lemma_border_row_props(w, y - 1, w, h, color);
        let prev = border_rows_ops(y - 1, w, h, color);
        let row = border_row_ops(w, y - 1, w, h, color);
        let cur = border_rows_ops(y, w, h, color);
        assert forall|i: int| #![trigger cur[i]] 0 <= i < cur.len() implies (exists|xx: int, yy: int|
            0 <= xx < w && 0 <= yy < y && is_border_cell(xx, yy, w, h) && cur[i]
                == #[trigger] border_put(xx, yy, color)) by {
            if i < prev.len() {
                assert(cur[i] == prev[i]);
                let (xx, yy) = choose|xx: int, yy: int|
                    0 <= xx < w && 0 <= yy < y - 1 && is_border_cell(xx, yy, w, h) && prev[i]
                        == #[trigger] border_put(xx, yy, color);
                assert(0 <= xx < w && 0 <= yy < y && is_border_cell(xx, yy, w, h) && cur[i]
                    == border_put(xx, yy, color));
            } else {
                assert(cur[i] == row[i - prev.len()]);
                let xx = choose|xx: int|
                    0 <= xx < w && is_border_cell(xx, y - 1, w, h) && row[i - prev.len()]
                        == #[trigger] border_put(xx, y - 1, color);
                assert(0 <= xx < w && 0 <= y - 1 < y && is_border_cell(xx, y - 1, w, h) && cur[i]
                    == border_put(xx, y - 1, color));
            }
        }
        assert forall|xx: int, yy: int|
            0 <= xx < w && 0 <= yy < y && is_border_cell(xx, yy, w, h) implies cur.contains(
            border_put(xx, yy, color),
        ) by {
            if yy < y - 1 {
                assert(prev.contains(border_put(xx, yy, color)));
                let i = choose|i: int|
                    0 <= i < prev.len() && prev[i] == border_put(xx, yy, color);
                assert(cur[i] == border_put(xx, yy, color));
            } else {
                assert(row.contains(border_put(xx, yy, color)));
                let i = choose|i: int| 0 <= i < row.len() && row[i] == border_put(xx, yy, color);
                assert(cur[prev.len() + i] == border_put(xx, yy, color));
            }
        }
    }
}

/// Border coverage: every step of the border sequence is a block glyph in
/// the slide color at a cell of the frame — the top or bottom row, or one
/// of the two leftmost or two rightmost columns — and every such cell of
/// the canvas is drawn by some step.
pub proof fn lemma_border_covers_frame(w: int, h: int, color: SlideColor)
    ensures
        forall|i: int|
            0 <= i < border_ops(w, h, color).len() ==> (exists|xx: int, yy: int|
                0 <= xx < w && 0 <= yy < h && is_border_cell(xx, yy, w, h)
                    && #[trigger] border_ops(w, h, color)[i] == #[trigger] border_put(
                    xx,
                    yy,
                    color,
                )),
        forall|xx: int, yy: int|
            0 <= xx < w && 0 <= yy < h && #[trigger] is_border_cell(xx, yy, w, h) ==> border_ops(
                w,
                h,
                color,
            ).contains(border_put(xx, yy, color)),
{
    lemma_border_rows_props(h, w, h, color);
}

/// The drawing steps for the frame around the canvas, in the slide's
/// nominal color (its first line's).
pub fn draw_border(max_width: usize, max_height: usize, slide: &Slide) -> (ops: Vec<DrawOp>)
    requires
        slide@.len() > 0,
        max_width >= 2,
        max_height >= 1,
    ensures
        ops@ == border_ops(max_width as int, max_height as int, slide@[0].color),
{
    let color = slide.lines[0].color;
    proof {
        assert(slide@[0] == slide.lines@[0]@);
    }
    let ghost w = max_width as int;
    let ghost h = max_height as int;
    let mut ops: Vec<DrawOp> = Vec::new();
    let mut y: usize = 0;
    while y < max_height
        invariant
            w == max_width as int,
            h == max_height as int,
            max_width >= 2,
            max_height >= 1,
            y <= max_height,
            ops@ == border_rows_ops(y as int, w, h, color),
        decreases max_height - y,
    {
        let mut x: usize = 0;
        proof {
            assert(ops@ =~= border_rows_ops(y as int, w, h, color) + border_row_ops(
                0,
                y as int,
                w,
                h,
                color,
            ));
        }
        while x < max_width
            invariant
                w == max_width as int,
                h == max_height as int,
                max_width >= 2,
                max_height >= 1,
                y < max_height,
                x <= max_width,
                ops@ == border_rows_ops(y as int, w, h, color) + border_row_ops(
                    x as int,
                    y as int,
                    w,
                    h,
                    color,
                ),
            decreases max_width - x,
        {
            let on_border = y == 0 || y == max_height - 1 || x == 0 || x == 1 || x == max_width - 2
                || x == max_width - 1;
            proof {
                assert(on_border == is_border_cell(x as int, y as int, w, h));
            }
            if on_border {
                ops.push(DrawOp::Put { x, y, ch: BLOCK_GLYPH, color: Some(color) });
            }
            proof {
                assert(ops@ =~= border_rows_ops(y as int, w, h, color) + border_row_ops(
                    x as int + 1,
                    y as int,
                    w,
                    h,
                    color,
                ));
            }
            x = x + 1;
        }
        y = y + 1;
    }
    ops
}

/// The steps that reveal one character: an animated line first shows a
/// block glyph at the cell, flushes so it is visible, pauses, and only then
/// puts the real character; an unanimated line puts the character directly.
pub open spec fn char_reveal_ops(
    x: int,
    y: int,
    ch: char,
    line_color: SlideColor,
    animate: Option<u64>,
) -> Seq<DrawOp> {
    match animate {
        Some(rate) => seq![
            DrawOp::Put { x: x as usize, y: y as usize, ch: BLOCK_GLYPH, color: Some(line_color) },
            DrawOp::Flush,
            DrawOp::Sleep { millis: rate },
            DrawOp::Put { x: x as usize, y: y as usize, ch, color: None },
        ],
        None => seq![DrawOp::Put { x: x as usize, y: y as usize, ch, color: None }],
    }
}

/// The reveal steps for the first `k` characters of a line, walked left to
/// right from the content margin.
pub open spec fn line_reveal_ops(
    content: Seq<char>,
    k: int,
    y: int,
    line_color: SlideColor,
    animate: Option<u64>,
) -> Seq<DrawOp>
    decreases k,
{
    if k <= 0 {
        Seq::empty()
    } else {
        line_reveal_ops(content, k - 1, y, line_color, animate) + char_reveal_ops(
            CONTENT_MARGIN + (k - 1),
            y,
            content[k - 1],
            line_color,
            animate,
        )
    }
}

/// The full drawing steps for one line: its characters, then the two border
/// glyphs that close the line into the right side of the frame, in the
/// slide's nominal color.
pub open spec fn line_ops(l: LineModel, w: int, slide_color: SlideColor) -> Seq<DrawOp> {
    line_reveal_ops(l.content, l.content.len() as int, l.y, l.color, l.animate) + seq![
        DrawOp::Put { x: (w - 2) as usize, y: l.y as usize, ch: BLOCK_GLYPH, color: Some(slide_color) },
        DrawOp::Put { x: (w - 1) as usize, y: l.y as usize, ch: BLOCK_GLYPH, color: Some(slide_color) },
    ]
}

/// The drawing steps for the first `i` lines of a slide.
pub open spec fn slide_ops(lines: Seq<LineModel>, i: int, w: int, slide_color: SlideColor) -> Seq<
    DrawOp,
>
    decreases i,
{
    if i <= 0 {
        Seq::empty()
    } else {
        slide_ops(lines, i - 1, w, slide_color) + line_ops(lines[i - 1], w, slide_color)
    }
}

/// The drawing steps for a whole slide's contents.
pub open spec fn contents_ops(lines: Seq<LineModel>, w: int) -> Seq<DrawOp> {
    slide_ops(lines, lines.len() as int, w, lines[0].color)
}

/// The drawing steps for the slide's contents: each line's characters left
/// to right from the content margin (with the draw-flush-sleep reveal for
/// animated lines), each line closed with two border glyphs at the two
/// rightmost columns of its row.
///
/// The reveal is a cooperative blocking sequence: whoever executes these
/// steps sleeps between the flush and the real character, and a key pressed
/// during that time is only handled afterwards. Whether an animation should
/// instead be interruptible by a keypress is an open question; the steps
/// are kept strictly ordered here on purpose.
pub fn draw_contents(max_width: usize, slide: &Slide) -> (ops: Vec<DrawOp>)
    requires
        slide@.len() > 0,
        max_width >= 2,
        forall|i: int|
            0 <= i < slide@.len() ==> #[trigger] slide@[i].content.len() + CONTENT_MARGIN
                <= usize::MAX,
    ensures
        ops@ == contents_ops(slide@, max_width as int),
{
    let color = slide.lines[0].color;
    let ghost w = max_width as int;
    let ghost lv = slide@;
    proof {
        assert(slide@[0] == slide.lines@[0]@);
    }
    let mut ops: Vec<DrawOp> = Vec::new();
    let mut i: usize = 0;
    while i < slide.lines.len()
        invariant
            w == max_width as int,
            lv == slide@,
            lv.len() == slide.lines.len(),
            max_width >= 2,
            color == lv[0].color,
            forall|k: int|
                0 <= k < lv.len() ==> #[trigger] lv[k].content.len() + CONTENT_MARGIN <= usize::MAX,
            i <= slide.lines.len(),
            ops@ == slide_ops(lv, i as int, w, color),
        decreases slide.lines.len() - i,
    {
        let line = &slide.lines[i];
        proof {
            assert(line@ == lv[i as int]);
        }
        let n = line.content.as_str().unicode_len();
        let y = line.y;
        let mut j: usize = 0;
        proof {
            assert(ops@ =~= slide_ops(lv, i as int, w, color) + line_reveal_ops(
                lv[i as int].content,
                0,
                y as int,
                lv[i as int].color,
                lv[i as int].animate,
            ));
        }
        while j < n
            invariant
                w == max_width as int,
                lv == slide@,
                lv.len() == slide.lines.len(),
                i < slide.lines.len(),
                line == &slide.lines[i as int],
                line@ == lv[i as int],
                n == line.content@.len(),
                n + CONTENT_MARGIN <= usize::MAX,
                y == line.y,
                j <= n,
                ops@ == slide_ops(lv, i as int, w, color) + line_reveal_ops(
                    lv[i as int].content,
                    j as int,
                    y as int,
                    lv[i as int].color,
                    lv[i as int].animate,
                ),
            decreases n - j,
        {
            let ch = line.content.as_str().get_char(j);
            let x = CONTENT_MARGIN + j;
            match line.animate {
                Some(a) => {
                    ops.push(DrawOp::Put { x, y, ch: BLOCK_GLYPH, color: Some(line.color) });
                    ops.push(DrawOp::Flush);
                    ops.push(DrawOp::Sleep { millis: a.rate });
                    ops.push(DrawOp::Put { x, y, ch, color: None });
                },
                None => {
                    ops.push(DrawOp::Put { x, y, ch, color: None });
                },
            }
            proof {
                assert(ops@ =~= slide_ops(lv, i as int, w, color) + line_reveal_ops(
                    lv[i as int].content,
                    j as int + 1,
                    y as int,
                    lv[i as int].color,
                    lv[i as int].animate,
                ));
            }
            j = j + 1;
        }
        ops.push(DrawOp::Put { x: max_width - 2, y, ch: BLOCK_GLYPH, color: Some(color) });
        ops.push(DrawOp::Put { x: max_width - 1, y, ch: BLOCK_GLYPH, color: Some(color) });
        proof {
            assert(ops@ =~= slide_ops(lv, i as int, w, color) + line_ops(lv[i as int], w, color));
            assert(ops@ =~= slide_ops(lv, i as int + 1, w, color));
        }
        i = i + 1;
    }
    ops
}

/// The position indicator: the 1-based ordinal of the shown slide, the word
/// "of", and the deck length.
pub open spec fn footer_text(n: nat, total: nat) -> Seq<char> {
    dec_rep(n) + seq![' ', 'o', 'f', ' '] + dec_rep(total)
}

/// Where and what the footer draws: the indicator text near the bottom
/// right of the canvas, after the border so the border does not overwrite
/// it.
pub open spec fn footer_ops(w: int, h: int, n: nat, total: nat) -> Seq<DrawOp> {
    put_row(w - 12, h - 3, footer_text(n, total))
}

/// Ten raised to the given power.
pub open spec fn pow10(d: nat) -> nat
    decreases d,
{
    if d == 0 {
        1
    } else {
        10 * pow10((d - 1) as nat)
    }
}

proof fn lemma_dec_rep_len(n: nat, d: nat)
    requires
        d >= 1,
        n < pow10(d),
    ensures
        1 <= dec_rep(n).len() <= d,
    decreases n,
{
    if n < 10 {
    } else {
        if d == 1 {
            assert(pow10(1) == 10 * pow10(0));
            assert(false);
        }
        assert(pow10(d) == 10 * pow10((d - 1) as nat));
        assert(n / 10 < pow10((d - 1) as nat)) by {
            let p = pow10((d - 1) as nat);
            assert(n < 10 * p);
            assert(n / 10 < p) by (nonlinear_arith)
                requires
                    n < 10 * p,
                    p >= 1,
            ;
        }
        lemma_dec_rep_len(n / 10, (d - 1) as nat);
    }
}

/// Any machine-word number prints in at most twenty digits.
pub proof fn lemma_dec_rep_len_u64(n: nat)
    requires
        n <= u64::MAX,
    ensures
        1 <= dec_rep(n).len() <= 20,
{
    reveal_with_fuel(pow10, 21);
    assert(pow10(20) == 100000000000000000000);
    lemma_dec_rep_len(n, 20);
}

/// The drawing steps for the footer position indicator.
pub fn draw_footer(max_width: usize, max_height: usize, n: usize, total: usize) -> (ops: Vec<
    DrawOp,
>)
    requires
        12 <= max_width <= 0xffff,
        max_height >= 3,
    ensures
        ops@ == footer_ops(max_width as int, max_height as int, n as nat, total as nat),
{
    let mut chars = dec_chars(n as u64);
    chars.push(' ');
    chars.push('o');
    chars.push('f');
    chars.push(' ');
    let mut t = dec_chars(total as u64);
    chars.append(&mut t);
    proof {
        lemma_dec_rep_len_u64(n as nat);
        lemma_dec_rep_len_u64(total as nat);
        assert(chars@ =~= footer_text(n as nat, total as nat));
    }
    text_put_ops(max_width - 12, max_height - 3, &chars)
}

/// The elapsed-time readout for a second count: minutes, a colon, and the
/// seconds within the minute always written with two digits.
pub open spec fn elapsed_text(secs: nat) -> Seq<char> {
    "Elapsed time: "@ + dec_rep(secs / 60) + seq![':'] + two_digit(secs % 60)
}

/// What the timer region shows: the readout when the toggle is on, and
/// spaces of the same width when it is off, so an earlier readout never
/// lingers.
pub open spec fn timer_text(secs: nat, show: bool) -> Seq<char> {
    if show {
        elapsed_text(secs)
    } else {
        Seq::new(elapsed_text(secs).len(), |k: int| ' ')
    }
}

/// One full repaint of a slide, in the order the side effects must land:
/// the border first, then the footer (so the border does not overwrite
/// it), then the contents, whose rows may overlap the structural rows and
/// whose reveal may animate.
pub fn render_slide(
    max_width: usize,
    max_height: usize,
    slide: &Slide,
    position: usize,
    total: usize,
) -> (ops: Vec<DrawOp>)
    requires
        slide@.len() > 0,
        12 <= max_width <= 0xffff,
        max_height >= 3,
        forall|i: int|
            0 <= i < slide@.len() ==> #[trigger] slide@[i].content.len() + CONTENT_MARGIN
                <= usize::MAX,
    ensures
        ops@ == border_ops(max_width as int, max_height as int, slide@[0].color) + footer_ops(
            max_width as int,
            max_height as int,
            position as nat,
            total as nat,
        ) + contents_ops(slide@, max_width as int),
{
    let mut ops = draw_border(max_width, max_height, slide);
    let mut footer = draw_footer(max_width, max_height, position, total);
    ops.append(&mut footer);
    let mut contents = draw_contents(max_width, slide);
    ops.append(&mut contents);
    ops
}

/// The drawing steps for the timer region, right-aligned on the row just
/// below the canvas; `None` when the canvas is too narrow to hold the
/// readout at all.
pub fn timer_ops(max_width: usize, max_height: usize, elapsed_secs: u64, show: bool) -> (r: Option<
    Vec<DrawOp>,
>)
    requires
        max_height < usize::MAX,
    ensures
        (r is Some) <==> timer_text(elapsed_secs as nat, show).len() + CONTENT_MARGIN + 2
            <= max_width,
        (match r {
            Some(ops) => ops@ == put_row(
                max_width - CONTENT_MARGIN - 2 - timer_text(elapsed_secs as nat, show).len(),
                max_height as int + 1,
                timer_text(elapsed_secs as nat, show),
            ),
            None => true,
        }),
{
    let mut chars = str_chars("Elapsed time: ");
    let mut md = dec_chars(elapsed_secs / 60);
    chars.append(&mut md);
    chars.push(':');
    let mut sd = two_digit_chars(elapsed_secs % 60);
    chars.append(&mut sd);
    proof {
        assert(chars@ =~= elapsed_text(elapsed_secs as nat));
    }
    if !show {
        let blank_len = chars.len();
        let mut blanks: Vec<char> = Vec::new();
        let mut k: usize = 0;
        while k < blank_len
            invariant
                k <= blank_len,
                blanks@ =~= Seq::new(k as nat, |j: int| ' '),
            decreases blank_len - k,
        {
            blanks.push(' ');
            k = k + 1;
        }
        chars = blanks;
        proof {
            assert(chars@ =~= timer_text(elapsed_secs as nat, show));
        }
    }
    let n = chars.len();
    if max_width >= CONTENT_MARGIN + 2 && n <= max_width - CONTENT_MARGIN - 2 {
        let x0 = max_width - CONTENT_MARGIN - 2 - n;
        let ops = text_put_ops(x0, max_height + 1, &chars);
        Some(ops)
    } else {
        None
    }
}

/// The drawing steps for the start screen: the ready banner at the vertical
/// middle and the three key hints below it, all at the content margin.
pub open spec fn start_screen_spec(h: int) -> Seq<DrawOp> {
    put_row(CONTENT_MARGIN as int, h / 2, "Ready to start"@) + put_row(
        CONTENT_MARGIN as int,
        h / 2 + 2,
        "`n` or `space` or `enter` to move to next slide"@,
    ) + put_row(CONTENT_MARGIN as int, h / 2 + 3, "`p` move to previous slide"@) + put_row(
        CONTENT_MARGIN as int,
        h / 2 + 4,
        "`q` to quit presentation"@,
    )
}

/// The start screen shown before the first slide.
pub fn start_screen_ops(max_height: usize) -> (ops: Vec<DrawOp>)
    ensures
        ops@ == start_screen_spec(max_height as int),
{
    proof {
        reveal_strlit("Ready to start");
        reveal_strlit("`n` or `space` or `enter` to move to next slide");
        reveal_strlit("`p` move to previous slide");
        reveal_strlit("`q` to quit presentation");
    }
    let y0 = max_height / 2;
    let c1 = str_chars("Ready to start");
    let mut ops = text_put_ops(CONTENT_MARGIN, y0, &c1);
    let c2 = str_chars("`n` or `space` or `enter` to move to next slide");
    let mut o2 = text_put_ops(CONTENT_MARGIN, y0 + 2, &c2);
    ops.append(&mut o2);
    let c3 = str_chars("`p` move to previous slide");
    let mut o3 = text_put_ops(CONTENT_MARGIN, y0 + 3, &c3);
    ops.append(&mut o3);
    let c4 = str_chars("`q` to quit presentation");
    let mut o4 = text_put_ops(CONTENT_MARGIN, y0 + 4, &c4);
    ops.append(&mut o4);
    ops
}

} // verus!
