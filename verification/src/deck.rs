use vstd::prelude::*;

use fake::Fake;
use rand::Rng;

use crate::slide::{Animate, LineModel, Slide, SlideColor, color_for, palette_color, rows_distinct, slide_fits};
use crate::layout::{
    centered_lines, centered_lines_spec, centered_start, closing_slide_spec, layout_closing_slide,
    rows_that_fit, stencil_view,
};

verus! {

#[verifier::external_type_specification]
#[verifier::external_body]
pub struct ExThreadRng(rand::rngs::ThreadRng);

/// Relies on `rand::thread_rng`: a handle to the thread-local random
/// number generator.
#[verifier::external_body]
fn new_rng() -> rand::rngs::ThreadRng {
    rand::thread_rng()
}

/// Relies on `rand::Rng::gen_range` on an inclusive range: it panics only
/// on an empty range, and returns a value within the bounds.
#[verifier::external_body]
fn gen_range_inclusive(rng: &mut rand::rngs::ThreadRng, lo: usize, hi: usize) -> (r: usize)
    requires
        lo <= hi,
    ensures
        lo <= r <= hi,
{
    rng.gen_range(lo..=hi)
}

/// Relies on fake's company `CatchPhrase` faker: a freshly generated
/// buzzword phrase. The result is random, so nothing is promised of it.
#[verifier::external_body]
fn catch_phrase() -> String {
    fake::faker::company::en::CatchPhrase().fake()
}

/// Prefixes a phrase with the bullet marker when asked for, and passes it
/// through verbatim otherwise.
pub fn bullet_phrase(phrase: String, with_bullet: bool) -> (r: String)
    ensures
        r@ == (if with_bullet {
            "* "@ + phrase@
        } else {
            phrase@
        }),
        with_bullet ==> r@.len() >= 2 && r@.subrange(0, 2) == "* "@,
{
    if with_bullet {
        let mut s = String::from_str("* ");
        s.append(phrase.as_str());
        proof {
            reveal_strlit("* ");
            assert(s@.subrange(0, 2) =~= "* "@);
        }
        s
    } else {
        phrase
    }
}

/// One generated phrase, prefixed with a bullet marker when asked for. The
/// phrase itself comes from the random phrase source, so all that holds of
/// every outcome is the marker; `bullet_phrase` carries the exact contract
/// for a given phrase.
pub fn generate_buzzword_phrase(with_bullet: bool) -> (r: String)
    ensures
        with_bullet ==> r@.len() >= 2 && r@.subrange(0, 2) == "* "@,
{
    bullet_phrase(catch_phrase(), with_bullet)
}

/// `count` generated phrases: the first is the unbulleted opener, all the
/// rest carry the bullet marker.
fn buzzword_phrases(count: usize) -> (v: Vec<String>)
    ensures
        v@.len() == count,
        forall|j: int|
            1 <= j < count ==> (#[trigger] v@[j]@).len() >= 2 && v@[j]@.subrange(0, 2) == "* "@,
{
    let mut v: Vec<String> = Vec::new();
    let mut j: usize = 0;
    while j < count
        invariant
            j <= count,
            v@.len() == j,
            forall|t: int|
                1 <= t < j ==> (#[trigger] v@[t]@).len() >= 2 && v@[t]@.subrange(0, 2) == "* "@,
        decreases count - j,
    {
        v.push(generate_buzzword_phrase(j != 0));
        j = j + 1;
    }
    v
}

/// The shape every generated body slide has: consecutive rows inside the
/// canvas, every row after the opener bulleted, one animation setting and
/// one color throughout, and — whenever the canvas is at least five rows
/// tall — the full vertically centered block of two to four lines.
pub open spec fn buzzword_slide_shape(
    s: Seq<LineModel>,
    h: int,
    animate: Option<u64>,
    color: SlideColor,
) -> bool {
    &&& slide_fits(s, h)
    &&& rows_distinct(s)
    &&& s.len() <= 4
    &&& forall|j: int| 0 <= j < s.len() ==> #[trigger] s[j].y == s[0].y + j
    &&& forall|j: int| 0 <= j < s.len() ==> #[trigger] s[j].animate == animate
    &&& forall|j: int| 0 <= j < s.len() ==> #[trigger] s[j].color == color
    &&& forall|j: int|
        1 <= j < s.len() ==> (#[trigger] s[j].content).len() >= 2 && s[j].content.subrange(0, 2)
            == "* "@
    &&& (h >= 5 ==> s.len() >= 2 && s[0].y == centered_start(h, s.len() as int))
}

proof fn lemma_buzzword_shape(ph: Seq<Seq<char>>, h: int, animate: Option<u64>, color: SlideColor)
    requires
        2 <= ph.len() <= 4,
        forall|j: int|
            1 <= j < ph.len() ==> (#[trigger] ph[j]).len() >= 2 && ph[j].subrange(0, 2) == "* "@,
    ensures
        buzzword_slide_shape(centered_lines_spec(ph, h, animate, color), h, animate, color),
{
    let nl = ph.len() as int;
    let y0 = centered_start(h, nl);
    let s = centered_lines_spec(ph, h, animate, color);
    assert(s.len() == rows_that_fit(ph.len() as int, y0, h));
    if h >= 5 {
        assert(h / 2 >= nl / 2);
        assert(y0 == h / 2 - nl / 2);
        assert(y0 + ph.len() <= h);
        assert(s.len() == ph.len());
    }
}

/// The text sources of one fixed closing slide: the header (already
/// derived from its file stem), the optional block-art stencil rasterized
/// for it, and the body text, one entry per line.
pub struct ClosingContent {
    pub header: String,
    pub stencil: Option<Vec<String>>,
    pub body: Vec<String>,
}

/// The mathematical image of a `ClosingContent`.
pub ghost struct ClosingModel {
    pub header: Seq<char>,
    pub stencil: Option<Seq<Seq<char>>>,
    pub body: Seq<Seq<char>>,
}

impl View for ClosingContent {
    type V = ClosingModel;

    open spec fn view(&self) -> ClosingModel {
        ClosingModel {
            header: self.header@,
            stencil: stencil_view(self.stencil),
            body: self.body.deep_view(),
        }
    }
}

/// Builds the whole deck: at least three generated buzzword slides (later
/// ones animated), then one closing slide per supplied content source, with
/// the display color rotating through the palette, one color per slide. The
/// randomized body count is clamped so the whole deck never exceeds eight
/// slides. No line of any slide lands outside the canvas.
pub fn generate_buzzword_slides(
    max_width: usize,
    max_height: usize,
    closing: Vec<ClosingContent>,
) -> (deck: Vec<Slide>)
    requires
        max_height <= usize::MAX - 8,
        closing@.len() <= 5,
    ensures
        3 + closing@.len() <= deck@.len() <= 7 + closing@.len(),
        deck@.len() <= 8,
        forall|i: int| 0 <= i < deck@.len() ==> slide_fits(#[trigger] deck@[i]@, max_height as int),
        forall|i: int| 0 <= i < deck@.len() ==> rows_distinct(#[trigger] deck@[i]@),
        forall|i: int|
            0 <= i < deck@.len() - closing@.len() ==> buzzword_slide_shape(
                #[trigger] deck@[i]@,
                max_height as int,
                if i > 2 {
                    Some(8u64)
                } else {
                    None
                },
                palette_color(i),
            ),
        forall|k: int|
            0 <= k < closing@.len() ==> #[trigger] deck@[deck@.len() - closing@.len() + k]@
                == closing_slide_spec(
                closing@[k]@.header,
                closing@[k]@.stencil,
                closing@[k]@.body,
                max_width as int,
                max_height as int,
                palette_color(deck@.len() - closing@.len() + k),
            ),
{
    let ghost h = max_height as int;
    let mut rng = new_rng();
    let body_cap: usize = if closing.len() <= 1 {
        7
    } else {
        8 - closing.len()
    };
    let slide_count = gen_range_inclusive(&mut rng, 3, body_cap);
    let mut slides: Vec<Slide> = Vec::new();
    let mut i: usize = 0;
    while i < slide_count
        invariant
            3 <= slide_count <= 7,
            slide_count + closing@.len() <= 8,
            i <= slide_count,
            h == max_height as int,
            max_height <= usize::MAX - 8,
            slides@.len() == i,
            forall|t: int|
                0 <= t < i ==> buzzword_slide_shape(
                    #[trigger] slides@[t]@,
                    h,
                    if t > 2 {
                        Some(8u64)
                    } else {
                        None
                    },
                    palette_color(t),
                ),
        decreases slide_count - i,
    {
        let num_lines = gen_range_inclusive(&mut rng, 2, 4);
        let phrases = buzzword_phrases(num_lines);
        let color = color_for(i);
        let animate = if i > 2 {
            Some(Animate { rate: 8 })
        } else {
            None
        };
        let lines = centered_lines(&phrases, max_height, animate, color);
        let s = Slide { lines };
        proof {
            assert(forall|j: int|
                1 <= j < phrases.deep_view().len() ==> (#[trigger] phrases.deep_view()[j]).len()
                    >= 2 && phrases.deep_view()[j].subrange(0, 2) == "* "@) by {
                assert(forall|j: int|
                    0 <= j < phrases@.len() ==> #[trigger] phrases.deep_view()[j] == phrases@[j]@);
            }
            lemma_buzzword_shape(
                phrases.deep_view(),
                h,
                if i > 2 {
                    Some(8u64)
                } else {
                    None
                },
                color,
            );
        }
        slides.push(s);
        i = i + 1;
    }
    let ghost n_body = slides@.len() as int;
    let mut k: usize = 0;
    while k < closing.len()
        invariant
            h == max_height as int,
            max_height <= usize::MAX - 8,
            closing@.len() <= 5,
            3 <= n_body <= 7,
            n_body + closing@.len() <= 8,
            k <= closing@.len(),
            slides@.len() == n_body + k,
            forall|t: int|
                0 <= t < n_body ==> buzzword_slide_shape(
                    #[trigger] slides@[t]@,
                    h,
                    if t > 2 {
                        Some(8u64)
                    } else {
                        None
                    },
                    palette_color(t),
                ),
            forall|t: int|
                0 <= t < k ==> #[trigger] slides@[n_body + t]@ == closing_slide_spec(
                    closing@[t]@.header,
                    closing@[t]@.stencil,
                    closing@[t]@.body,
                    max_width as int,
                    h,
                    palette_color(n_body + t),
                ),
            forall|t: int|
                0 <= t < slides@.len() ==> slide_fits(#[trigger] slides@[t]@, h),
            forall|t: int|
                0 <= t < slides@.len() ==> rows_distinct(#[trigger] slides@[t]@),
        decreases closing@.len() - k,
    {
        let color = color_for(slides.len());
        let c = &closing[k];
        let s = layout_closing_slide(
            &c.header,
            &c.stencil,
            &c.body,
            max_width,
            max_height,
            color,
        );
        slides.push(s);
        k = k + 1;
    }
    slides
}

} // verus!
