use vstd::prelude::*;

use crate::slide::{Animate, Line, LineModel, Slide, SlideColor, rows_distinct, slide_fits};
use crate::{CONTENT_MARGIN, MIN_ASCII_ART_HEIGHT};

verus! {

/// The whitespace characters a block-art stencil may pad its rows with.
/// The rasterizer fills its rows with the draw character and plain spaces,
/// so blankness is decided over this exact set; whitespace outside it
/// (other Unicode spacing characters) counts as visible content.
pub open spec fn is_space_char(c: char) -> bool {
    c == ' ' || c == '\t' || c == '\r' || c == '\n'
}

/// A stencil row that holds no visible glyph at all.
pub open spec fn is_blank_row(row: Seq<char>) -> bool {
    forall|i: int| 0 <= i < row.len() ==> is_space_char(#[trigger] row[i])
}

fn is_space(c: char) -> (b: bool)
    ensures
        b == is_space_char(c),
{
    c == ' ' || c == '\t' || c == '\r' || c == '\n'
}

fn is_blank(s: &String) -> (b: bool)
    ensures
        b == is_blank_row(s@),
{
    let n = s.as_str().unicode_len();
    let mut i: usize = 0;
    while i < n
        invariant
            n == s@.len(),
            i <= n,
            forall|k: int| 0 <= k < i ==> is_space_char(#[trigger] s@[k]),
        decreases n - i,
    {
        if !is_space(s.as_str().get_char(i)) {
            return false;
        }
        i = i + 1;
    }
    true
}

/// The lines a block-art stencil contributes: rows are placed on
/// consecutive canvas rows from `y0` down, every all-whitespace row is
/// skipped without consuming a row slot, and rows that would land at or
/// below the canvas bottom are not placed at all.
pub open spec fn art_lines(
    rows: Seq<Seq<char>>,
    y0: int,
    h: int,
    animate: Option<u64>,
    color: SlideColor,
) -> Seq<LineModel>
    decreases rows.len(),
{
    if rows.len() == 0 {
        Seq::empty()
    } else if is_blank_row(rows[0]) {
        art_lines(rows.drop_first(), y0, h, animate, color)
    } else if y0 < h {
        seq![LineModel { y: y0, content: rows[0], animate, color }] + art_lines(
            rows.drop_first(),
            y0 + 1,
            h,
            animate,
            color,
        )
    } else {
        Seq::empty()
    }
}

proof fn lemma_art_lines_out(
    rows: Seq<Seq<char>>,
    y0: int,
    h: int,
    animate: Option<u64>,
    color: SlideColor,
)
    requires
        y0 >= h,
    ensures
        art_lines(rows, y0, h, animate, color) =~= Seq::<LineModel>::empty(),
    decreases rows.len(),
{
    if rows.len() > 0 && is_blank_row(rows[0]) {
        lemma_art_lines_out(rows.drop_first(), y0, h, animate, color);
    }
}

/// Blank-row stripping and containment: a stencil never contributes more
/// lines than it has rows, no contributed line is blank, and the
/// contributed lines sit on consecutive rows inside the canvas.
pub proof fn lemma_art_lines_props(
    rows: Seq<Seq<char>>,
    y0: int,
    h: int,
    animate: Option<u64>,
    color: SlideColor,
)
    ensures
        art_lines(rows, y0, h, animate, color).len() <= rows.len(),
        art_lines(rows, y0, h, animate, color).len() <= (if h > y0 {
            h - y0
        } else {
            0
        }),
        forall|i: int|
            0 <= i < art_lines(rows, y0, h, animate, color).len() ==> {
                let l = #[trigger] art_lines(rows, y0, h, animate, color)[i];
                &&& !is_blank_row(l.content)
                &&& l.y == y0 + i
                &&& y0 <= l.y < h
                &&& l.animate == animate
                &&& l.color == color
            },
    decreases rows.len(),
{
    if rows.len() == 0 {
    } else if is_blank_row(rows[0]) {
        lemma_art_lines_props(rows.drop_first(), y0, h, animate, color);
    } else if y0 < h {
        lemma_art_lines_props(rows.drop_first(), y0 + 1, h, animate, color);
    }
}

/// Generated lines never land outside the canvas, and whitespace padding
/// rows of a stencil never contribute a line: every line kept is non-blank.
pub proof fn lemma_blank_rows_stripped(
    rows: Seq<Seq<char>>,
    y0: int,
    h: int,
    animate: Option<u64>,
    color: SlideColor,
)
    requires
        y0 >= 0,
    ensures
        art_lines(rows, y0, h, animate, color).len() <= rows.len(),
        forall|i: int|
            0 <= i < art_lines(rows, y0, h, animate, color).len() ==> !is_blank_row(
                #[trigger] art_lines(rows, y0, h, animate, color)[i].content,
            ),
        slide_fits(art_lines(rows, y0, h, animate, color), h),
{
    lemma_art_lines_props(rows, y0, h, animate, color);
}

/// Stencil rows turned into positioned `Line`s: consecutive rows from `y`
/// down, whitespace padding rows skipped, rows past the canvas bottom
/// dropped.
pub fn gen_lines_from_ascii(
    y: usize,
    ascii_lines: &Vec<String>,
    animate: bool,
    color: SlideColor,
    max_height: usize,
) -> (lines: Vec<Line>)
    ensures
        lines@.map_values(|l: Line| l@) == art_lines(
            ascii_lines.deep_view(),
            y as int,
            max_height as int,
            if animate {
                Some(1u64)
            } else {
                None
            },
            color,
        ),
{
    let ghost rows: Seq<Seq<char>> = ascii_lines.deep_view();
    let ghost anim: Option<u64> = if animate {
        Some(1u64)
    } else {
        None
    };
    let mut lines: Vec<Line> = Vec::new();
    let mut yy: usize = y;
    let mut i: usize = 0;
    proof {
        assert(rows.skip(0) =~= rows);
        assert(lines@.map_values(|l: Line| l@) + art_lines(rows, y as int, max_height as int, anim, color)
            =~= art_lines(rows, y as int, max_height as int, anim, color));
    }
    while i < ascii_lines.len()
        invariant
            rows == ascii_lines.deep_view(),
            anim == if animate {
                Some(1u64)
            } else {
                None::<u64>
            },
            i <= ascii_lines.len(),
            rows.len() == ascii_lines.len(),
            y <= yy,
            yy as int <= max_height as int || yy == y,
            art_lines(rows, y as int, max_height as int, anim, color) == lines@.map_values(
                |l: Line| l@,
            ) + art_lines(rows.skip(i as int), yy as int, max_height as int, anim, color),
        decreases ascii_lines.len() - i,
    {
        let ghost prev_lines = lines@;
        let ghost prev_yy = yy;
        let row = &ascii_lines[i];
        proof {
            assert(rows.skip(i as int).len() == rows.len() - i);
            assert(rows.skip(i as int)[0] == rows[i as int]);
            assert(rows[i as int] == row@);
            assert(rows.skip(i as int).drop_first() =~= rows.skip(i as int + 1));
        }
        if !is_blank(row) {
            if yy < max_height {
                let l = Line {
                    y: yy,
                    content: row.clone(),
                    animate: if animate {
                        Some(Animate { rate: 1 })
                    } else {
                        None
                    },
                    color,
                };
                proof {
                    assert(l@ == (LineModel {
                        y: yy as int,
                        content: rows[i as int],
                        animate: anim,
                        color,
                    }));
                }
                lines.push(l);
                yy = yy + 1;
                proof {
                    assert(lines@.map_values(|l: Line| l@) =~= prev_lines.map_values(|l: Line| l@)
                        .push((LineModel {
                        y: prev_yy as int,
                        content: rows[i as int],
                        animate: anim,
                        color,
                    })));
                    assert(art_lines(rows.skip(i as int), prev_yy as int, max_height as int, anim, color)
                        == seq![(LineModel {
                        y: prev_yy as int,
                        content: rows[i as int],
                        animate: anim,
                        color,
                    })] + art_lines(rows.skip(i as int + 1), yy as int, max_height as int, anim, color));
                    assert(lines@.map_values(|l: Line| l@) + art_lines(
                        rows.skip(i as int + 1),
                        yy as int,
                        max_height as int,
                        anim,
                        color,
                    ) =~= prev_lines.map_values(|l: Line| l@) + art_lines(
                        rows.skip(i as int),
                        prev_yy as int,
                        max_height as int,
                        anim,
                        color,
                    ));
                }
            } else {
                proof {
                    lemma_art_lines_out(rows.skip(i as int), yy as int, max_height as int, anim, color);
                    lemma_art_lines_out(
                        rows.skip(i as int + 1),
                        yy as int,
                        max_height as int,
                        anim,
                        color,
                    );
                    assert(lines@.map_values(|l: Line| l@) + art_lines(
                        rows.skip(i as int + 1),
                        yy as int,
                        max_height as int,
                        anim,
                        color,
                    ) =~= lines@.map_values(|l: Line| l@) + art_lines(
                        rows.skip(i as int),
                        yy as int,
                        max_height as int,
                        anim,
                        color,
                    ));
                }
            }
        } else {
            proof {
                assert(art_lines(rows.skip(i as int), yy as int, max_height as int, anim, color)
                    == art_lines(rows.skip(i as int + 1), yy as int, max_height as int, anim, color));
            }
        }
        i = i + 1;
    }
    proof {
        assert(rows.skip(ascii_lines.len() as int) =~= Seq::<Seq<char>>::empty());
        assert(lines@.map_values(|l: Line| l@) + Seq::<LineModel>::empty() =~= lines@.map_values(
            |l: Line| l@,
        ));
    }
    lines
}

/// The starting row that centers a block of `num_lines` text rows
/// vertically: half the canvas height minus half the line count, floored at
/// the top of the canvas.
pub open spec fn centered_start(h: int, num_lines: int) -> int {
    if h / 2 >= num_lines / 2 {
        h / 2 - num_lines / 2
    } else {
        0
    }
}

/// How many of `count` rows starting at `y0` fit above the canvas bottom.
pub open spec fn rows_that_fit(count: int, y0: int, h: int) -> int {
    if y0 >= h {
        0
    } else if count <= h - y0 {
        count
    } else {
        h - y0
    }
}

/// A vertically centered block of free-text lines: consecutive rows from
/// the centered start of the block's own line count, truncated at the
/// canvas bottom.
pub open spec fn centered_lines_spec(
    phrases: Seq<Seq<char>>,
    h: int,
    animate: Option<u64>,
    color: SlideColor,
) -> Seq<LineModel> {
    let y0 = centered_start(h, phrases.len() as int);
    Seq::new(
        rows_that_fit(phrases.len() as int, y0, h) as nat,
        |j: int| LineModel { y: y0 + j, content: phrases[j], animate, color },
    )
}

/// Lays the given phrases out as a vertically centered block of consecutive
/// rows, dropping any row that would fall below the canvas.
pub fn centered_lines(
    phrases: &Vec<String>,
    max_height: usize,
    animate: Option<Animate>,
    color: SlideColor,
) -> (lines: Vec<Line>)
    requires
        phrases.len() >= 1,
    ensures
        lines@.map_values(|l: Line| l@) == centered_lines_spec(
            phrases.deep_view(),
            max_height as int,
            match animate {
                Some(a) => Some(a.rate),
                None => None,
            },
            color,
        ),
{
    let ghost ph: Seq<Seq<char>> = phrases.deep_view();
    let ghost anim: Option<u64> = match animate {
        Some(a) => Some(a.rate),
        None => None,
    };
    let half = max_height / 2;
    let off = phrases.len() / 2;
    let y0: usize = if half >= off {
        half - off
    } else {
        0
    };
    let ghost count = rows_that_fit(ph.len() as int, y0 as int, max_height as int);
    let mut lines: Vec<Line> = Vec::new();
    let mut yy: usize = y0;
    let mut j: usize = 0;
    while j < phrases.len()
        invariant
            ph == phrases.deep_view(),
            ph.len() == phrases.len(),
            anim == (match animate {
                Some(a) => Some(a.rate),
                None => None::<u64>,
            }),
            y0 as int == centered_start(max_height as int, ph.len() as int),
            count == rows_that_fit(ph.len() as int, y0 as int, max_height as int),
            j <= phrases.len(),
            lines@.len() == (if j as int <= count {
                j as int
            } else {
                count
            }),
            yy == y0 + lines@.len(),
            yy as int <= max_height as int || yy == y0,
            forall|k: int|
                0 <= k < lines@.len() ==> #[trigger] lines@[k]@ == (LineModel {
                    y: y0 + k,
                    content: ph[k],
                    animate: anim,
                    color,
                }),
        decreases phrases.len() - j,
    {
        if yy < max_height {
            let l = Line { y: yy, content: phrases[j].clone(), animate, color };
            proof {
                assert(l@ == (LineModel { y: yy as int, content: ph[j as int], animate: anim, color }));
                assert((j as int) < count);
            }
            lines.push(l);
            yy = yy + 1;
        } else {
            proof {
                assert(lines@.len() == count);
            }
        }
        j = j + 1;
    }
    proof {
        assert(count <= ph.len());
        assert(lines@.len() == count);
        assert(lines@.map_values(|l: Line| l@) =~= centered_lines_spec(
            ph,
            max_height as int,
            anim,
            color,
        ));
    }
    lines
}

/// The widest row of a stencil, measured in characters.
pub open spec fn max_row_len(rows: Seq<Seq<char>>) -> int
    decreases rows.len(),
{
    if rows.len() == 0 {
        0
    } else {
        let rest = max_row_len(rows.drop_first());
        if rows[0].len() > rest {
            rows[0].len() as int
        } else {
            rest
        }
    }
}

fn max_row_len_exec(rows: &Vec<String>) -> (r: usize)
    ensures
        r as int == max_row_len(rows.deep_view()),
{
    let ghost rs: Seq<Seq<char>> = rows.deep_view();
    let mut r: usize = 0;
    let mut i: usize = rows.len();
    proof {
        assert(rs.skip(i as int) =~= Seq::<Seq<char>>::empty());
    }
    while i > 0
        invariant
            rs == rows.deep_view(),
            rs.len() == rows.len(),
            i <= rows.len(),
            r as int == max_row_len(rs.skip(i as int)),
        decreases i,
    {
        i = i - 1;
        let n = rows[i].as_str().unicode_len();
        proof {
            assert(rs.skip(i as int)[0] == rs[i as int]);
            assert(rs.skip(i as int).drop_first() =~= rs.skip(i as int + 1));
        }
        if n > r {
            r = n;
        }
    }
    proof {
        assert(rs.skip(0) =~= rs);
    }
    r
}

/// The acceptance test for a rasterized header: the stencil is used only
/// when its true height clears the minimum-usable threshold and its true
/// width leaves room for the content margin.
pub open spec fn art_accepted(rows: Seq<Seq<char>>, max_width: int) -> bool {
    &&& rows.len() > MIN_ASCII_ART_HEIGHT
    &&& max_row_len(rows) + CONTENT_MARGIN <= max_width
}

fn art_accepted_exec(rows: &Vec<String>, max_width: usize) -> (b: bool)
    ensures
        b == art_accepted(rows.deep_view(), max_width as int),
{
    if rows.len() <= MIN_ASCII_ART_HEIGHT {
        return false;
    }
    let w = max_row_len_exec(rows);
    w <= max_width && max_width - w >= CONTENT_MARGIN
}

/// The plain-text form a header falls back to when block art is rejected:
/// one line at the top content margin (none at all on a canvas too short
/// even for that).
pub open spec fn fallback_lines(header: Seq<char>, h: int, color: SlideColor) -> Seq<LineModel> {
    if CONTENT_MARGIN < h {
        seq![LineModel { y: CONTENT_MARGIN as int, content: header, animate: None, color }]
    } else {
        Seq::empty()
    }
}

/// The header part of a closing slide: the stencil's lines when one was
/// produced and accepted, the plain-text fallback otherwise.
pub open spec fn header_lines(
    header: Seq<char>,
    stencil: Option<Seq<Seq<char>>>,
    w: int,
    h: int,
    color: SlideColor,
) -> Seq<LineModel> {
    match stencil {
        Some(rows) => if art_accepted(rows, w) {
            art_lines(rows, CONTENT_MARGIN as int, h, None, color)
        } else {
            fallback_lines(header, h, color)
        },
        None => fallback_lines(header, h, color),
    }
}

/// The body text of a closing slide: consecutive rows one past `base`,
/// truncated at the canvas bottom.
pub open spec fn body_lines(body: Seq<Seq<char>>, base: int, h: int, color: SlideColor) -> Seq<
    LineModel,
> {
    Seq::new(
        rows_that_fit(body.len() as int, base + 1, h) as nat,
        |k: int| LineModel { y: base + 1 + k, content: body[k], animate: None, color },
    )
}

/// The view of an optional stencil: each row as its character sequence.
pub open spec fn stencil_view(stencil: Option<Vec<String>>) -> Option<Seq<Seq<char>>> {
    match stencil {
        Some(rows) => Some(rows.deep_view()),
        None => None,
    }
}

/// A whole closing slide: the header (block art or fallback), then the body
/// text starting after the header block plus a fixed gap.
pub open spec fn closing_slide_spec(
    header: Seq<char>,
    stencil: Option<Seq<Seq<char>>>,
    body: Seq<Seq<char>>,
    w: int,
    h: int,
    color: SlideColor,
) -> Seq<LineModel> {
    let hl = header_lines(header, stencil, w, h, color);
    hl + body_lines(body, hl.len() + CONTENT_MARGIN + 2, h, color)
}

fn fallback_exec(header: &String, max_height: usize, color: SlideColor) -> (lines: Vec<Line>)
    ensures
        lines@.map_values(|l: Line| l@) == fallback_lines(header@, max_height as int, color),
        lines@.len() <= 1,
{
    let mut v: Vec<Line> = Vec::new();
    if CONTENT_MARGIN < max_height {
        v.push(Line { y: CONTENT_MARGIN, content: header.clone(), animate: None, color });
    }
    proof {
        assert(v@.map_values(|l: Line| l@) =~= fallback_lines(header@, max_height as int, color));
    }
    v
}

/// Builds one closing slide: the rasterized header if a stencil was
/// produced and accepted, the plain-text header otherwise, followed by the
/// body text after a fixed gap. No line is ever placed outside the canvas.
pub fn layout_closing_slide(
    header: &String,
    stencil: &Option<Vec<String>>,
    body: &Vec<String>,
    max_width: usize,
    max_height: usize,
    color: SlideColor,
) -> (s: Slide)
    requires
        max_height <= usize::MAX - 8,
    ensures
        s@ == closing_slide_spec(
            header@,
            stencil_view(*stencil),
            body.deep_view(),
            max_width as int,
            max_height as int,
            color,
        ),
        slide_fits(s@, max_height as int),
        rows_distinct(s@),
{
    let ghost w = max_width as int;
    let ghost h = max_height as int;
    let ghost st = stencil_view(*stencil);
    let mut lines: Vec<Line> = match stencil {
        Some(rows) => {
            if art_accepted_exec(rows, max_width) {
                let ls = gen_lines_from_ascii(CONTENT_MARGIN, rows, false, color, max_height);
                proof {
                    lemma_art_lines_props(rows.deep_view(), CONTENT_MARGIN as int, h, None, color);
                }
                ls
            } else {
                fallback_exec(header, max_height, color)
            }
        },
        None => fallback_exec(header, max_height, color),
    };
    let ghost hl = header_lines(header@, st, w, h, color);
    proof {
        assert(lines@.map_values(|l: Line| l@) == hl);
        assert(lines@.len() == hl.len());
        assert(lines@.len() <= max_height + 1);
        assert(forall|i: int| 0 <= i < hl.len() ==> 0 <= #[trigger] hl[i].y < h);
    }
    let base: usize = lines.len() + CONTENT_MARGIN + 2;
    let ghost bl = body_lines(body.deep_view(), base as int, h, color);
    let ghost bcount = rows_that_fit(body.deep_view().len() as int, base as int + 1, h);
    let mut yy: usize = base;
    let mut k: usize = 0;
    while k < body.len()
        invariant
            base as int == hl.len() + CONTENT_MARGIN + 2,
            base <= max_height + 7,
            max_height <= usize::MAX - 8,
            bl == body_lines(body.deep_view(), base as int, h, color),
            bcount == rows_that_fit(body.deep_view().len() as int, base as int + 1, h),
            body.deep_view().len() == body.len(),
            h == max_height as int,
            k <= body.len(),
            lines@.len() == hl.len() + (if k as int <= bcount {
                k as int
            } else {
                bcount
            }),
            yy as int == base + (lines@.len() - hl.len()),
            yy as int <= max_height as int || yy == base,
            forall|i: int|
                0 <= i < hl.len() ==> #[trigger] lines@[i]@ == hl[i],
            forall|i: int|
                hl.len() <= i < lines@.len() ==> #[trigger] lines@[i]@ == bl[i - hl.len()],
        decreases body.len() - k,
    {
        if yy + 1 < max_height {
            proof {
                assert((k as int) < bcount);
            }
            yy = yy + 1;
            let l = Line { y: yy, content: body[k].clone(), animate: None, color };
            proof {
                assert(l@ == bl[k as int]);
            }
            lines.push(l);
        } else {
            proof {
                assert(lines@.len() - hl.len() == bcount);
            }
        }
        k = k + 1;
    }
    let s = Slide { lines };
    proof {
        assert(bcount <= bl.len());
        assert(s@.len() == hl.len() + bl.len());
        assert(s@ =~= hl + bl);
        assert forall|i: int| 0 <= i < s@.len() implies 0 <= #[trigger] s@[i].y < h by {
            if i >= hl.len() {
                assert(s@[i] == bl[i - hl.len()]);
            }
        }
        lemma_closing_rows_distinct(header@, st, body.deep_view(), w, h, color);
    }
    s
}

/// The vertical budget granted to a block-art header on a canvas of height
/// `h` whose slide must also carry `body_len` rows of text below it plus
/// the fixed top and bottom margins. No budget at all (the fallback/skip
/// policy) when that reservation underflows; a budget capped at two fifths
/// of the canvas when more than half of it would be left over.
pub open spec fn art_budget(h: int, body_len: int) -> Option<int> {
    if h < body_len + 2 * CONTENT_MARGIN {
        None
    } else {
        let rest = h - body_len - 2 * CONTENT_MARGIN;
        if rest >= h / 2 {
            Some(2 * h / 5)
        } else {
            Some(rest)
        }
    }
}

/// Computes the height budget for a closing slide's block-art header;
/// `None` means there is no room and the plain-text fallback must be used.
pub fn compute_art_budget(max_height: usize, body_len: usize) -> (r: Option<usize>)
    requires
        body_len <= usize::MAX - 2 * CONTENT_MARGIN,
        max_height <= usize::MAX / 2,
    ensures
        match r {
            Some(b) => art_budget(max_height as int, body_len as int) == Some(b as int),
            None => art_budget(max_height as int, body_len as int) is None,
        },
{
    let needed = body_len + 2 * CONTENT_MARGIN;
    if max_height < needed {
        None
    } else {
        let rest = max_height - needed;
        if rest >= max_height / 2 {
            Some(2 * max_height / 5)
        } else {
            Some(rest)
        }
    }
}

/// Sequential row advancement: the lines of a closing slide never claim
/// the same row twice — the header block occupies consecutive rows from
/// the top content margin, and the body starts strictly below it.
pub proof fn lemma_closing_rows_distinct(
    header: Seq<char>,
    stencil: Option<Seq<Seq<char>>>,
    body: Seq<Seq<char>>,
    w: int,
    h: int,
    color: SlideColor,
)
    ensures
        rows_distinct(closing_slide_spec(header, stencil, body, w, h, color)),
{
    let hl = header_lines(header, stencil, w, h, color);
    let base = hl.len() + CONTENT_MARGIN + 2;
    let bl = body_lines(body, base as int, h, color);
    let s = closing_slide_spec(header, stencil, body, w, h, color);
    assert(s == hl + bl);
    match stencil {
        Some(rows) => {
            if art_accepted(rows, w) {
                lemma_art_lines_props(rows, CONTENT_MARGIN as int, h, None, color);
            }
        },
        None => {},
    }
    assert(forall|i: int| 0 <= i < hl.len() ==> #[trigger] hl[i].y == CONTENT_MARGIN + i);
    assert forall|i: int, j: int|
        #![trigger s[i].y, s[j].y]
        0 <= i < j < s.len() implies s[i].y != s[j].y by {
        if j < hl.len() {
            assert(s[i].y == CONTENT_MARGIN + i);
            assert(s[j].y == CONTENT_MARGIN + j);
        } else if i < hl.len() {
            assert(s[i].y == CONTENT_MARGIN + i);
            assert(s[j].y == base + 1 + (j - hl.len()));
        } else {
            assert(s[i].y == base + 1 + (i - hl.len()));
            assert(s[j].y == base + 1 + (j - hl.len()));
        }
    }
}

/// Fallback determinism: whenever no stencil was produced, or the produced
/// stencil fails the acceptance test (its true height at or below the
/// minimum-usable threshold, or its true width leaving no room for the
/// margin), the closing slide takes the plain-text header form — one header
/// line at the top content margin — never a stencil row.
pub proof fn lemma_fallback_determinism(
    header: Seq<char>,
    stencil: Option<Seq<Seq<char>>>,
    body: Seq<Seq<char>>,
    w: int,
    h: int,
    color: SlideColor,
)
    requires
        match stencil {
            Some(rows) => rows.len() <= MIN_ASCII_ART_HEIGHT || max_row_len(rows) + CONTENT_MARGIN
                > w,
            None => true,
        },
    ensures
        closing_slide_spec(header, stencil, body, w, h, color) == fallback_lines(header, h, color)
            + body_lines(body, fallback_lines(header, h, color).len() + CONTENT_MARGIN + 2, h, color),
        CONTENT_MARGIN < h ==> closing_slide_spec(header, stencil, body, w, h, color)[0]
            == (LineModel { y: CONTENT_MARGIN as int, content: header, animate: None, color }),
{
    assert(header_lines(header, stencil, w, h, color) == fallback_lines(header, h, color));
}

} // verus!


