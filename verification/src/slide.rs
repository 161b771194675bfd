use vstd::prelude::*;

verus! {

/// The display colors a slide can be drawn in, one per slide, cycling
/// through a fixed palette.
#[derive(Clone, Copy, Debug, PartialEq, Eq, Structural)]
pub enum SlideColor {
    Cyan,
    DarkMagenta,
    Green,
    Red,
    White,
    Yellow,
}

/// The color assigned to the slide with the given ordinal: the palette has
/// six entries and repeats.
pub open spec fn palette_color(i: int) -> SlideColor {
    let k = i % 6;
    if k == 0 {
        SlideColor::Cyan
    } else if k == 1 {
        SlideColor::DarkMagenta
    } else if k == 2 {
        SlideColor::Green
    } else if k == 3 {
        SlideColor::Red
    } else if k == 4 {
        SlideColor::White
    } else {
        SlideColor::Yellow
    }
}

/// The rotating palette assignment, as executable code.
pub fn color_for(i: usize) -> (c: SlideColor)
    ensures
        c == palette_color(i as int),
{
    let k = i % 6;
    if k == 0 {
        SlideColor::Cyan
    } else if k == 1 {
        SlideColor::DarkMagenta
    } else if k == 2 {
        SlideColor::Green
    } else if k == 3 {
        SlideColor::Red
    } else if k == 4 {
        SlideColor::White
    } else {
        SlideColor::Yellow
    }
}

/// Typewriter animation for one line: a delay per revealed character.
#[derive(Clone, Copy, Debug, PartialEq, Eq, Structural)]
pub struct Animate {
    /// Milliseconds to pause on each character before revealing it.
    pub rate: u64,
}

/// One row of slide content: its row within the canvas, its text, an
/// optional reveal animation, and its display color.
#[derive(Clone, Debug)]
pub struct Line {
    pub y: usize,
    pub content: String,
    pub animate: Option<Animate>,
    pub color: SlideColor,
}

/// The mathematical image of a `Line`: the row index as an integer, the
/// text as a character sequence, and the animation as its optional rate.
pub ghost struct LineModel {
    pub y: int,
    pub content: Seq<char>,
    pub animate: Option<u64>,
    pub color: SlideColor,
}

impl View for Line {
    type V = LineModel;

    open spec fn view(&self) -> LineModel {
        LineModel {
            y: self.y as int,
            content: self.content@,
            animate: match self.animate {
                Some(a) => Some(a.rate),
                None => None,
            },
            color: self.color,
        }
    }
}

/// One full-screen unit of presented content: an ordered list of positioned
/// lines sharing one nominal color (the first line's).
#[derive(Clone, Debug)]
pub struct Slide {
    pub lines: Vec<Line>,
}

impl View for Slide {
    type V = Seq<LineModel>;

    open spec fn view(&self) -> Seq<LineModel> {
        self.lines@.map_values(|l: Line| l@)
    }
}

/// Layout containment: every line of the slide sits on a row inside the
/// canvas.
pub open spec fn slide_fits(s: Seq<LineModel>, canvas_height: int) -> bool {
    forall|i: int| 0 <= i < s.len() ==> 0 <= #[trigger] s[i].y < canvas_height
}

/// No two lines of a slide claim the same row.
pub open spec fn rows_distinct(s: Seq<LineModel>) -> bool {
    forall|i: int, j: int|
        #![trigger s[i].y, s[j].y]
        0 <= i < j < s.len() ==> s[i].y != s[j].y
}

} // verus!
