use vstd::prelude::*;
use unicode_segmentation::UnicodeSegmentation;
use crate::game::render::ScreenRect;
use crate::utils::strings::str_eq;

verus! {

/// The grapheme clusters of a text, in their order.
pub uninterp spec fn grapheme_clusters(text: Seq<char>) -> Seq<Seq<char>>;

/// The grapheme clusters of `text`, in their order.
///
/// Calls `UnicodeSegmentation::graphemes` for the extended grapheme
/// clusters and copies each into a string of its own. Where the clusters
/// begin and end is laid down by the tables of the crate, and by nothing
/// but the text.
#[verifier::external_body]
pub(crate) fn graphemes(text: &str) -> (clusters: Vec<String>)
    ensures
        clusters@.len() == grapheme_clusters(text@).len(),
        forall|i: int| 0 <= i < clusters@.len() ==> (#[trigger] clusters@[i])@ == grapheme_clusters(text@)[i],
{
    text.graphemes(true).map(|cluster| cluster.to_string()).collect()
}

/// What is known of a font that has been rendered: the size of a
/// character, in pixels.
#[derive(Clone, Copy, Debug)]
pub struct RenderedFont {
    pub char_size: (u32, u32),
}

/// Follows a cursor over a grid of characters in a rectangle of the
/// screen.
#[derive(Clone, Copy, Debug)]
pub struct TUIDrawer {
    pub start_x: i32,
    pub start_y: i32,
    pub x: i32,
    pub y: i32,
    pub width: u32,
    pub height: u32,
    pub fg: (u8, u8, u8),
}

/// A grapheme cluster and the pixel at which it is drawn.
#[derive(Clone, Debug)]
pub struct Glyph {
    pub ch: String,
    pub x: i32,
    pub y: i32,
}

/// The cursor after the first `n` of `clusters`, from `(x, y)`: a line feed
/// takes it to the column `x` of the next line, and any other cluster one
/// column on.
pub open spec fn cursor_after(clusters: Seq<Seq<char>>, x: int, y: int, n: int) -> (int, int)
    decreases n,
{
    if n <= 0 {
        (x, y)
    } else {
        let before = cursor_after(clusters, x, y, n - 1);
        if clusters[n - 1] == "\n"@ {
            (x, before.1 + 1)
        } else {
            (before.0 + 1, before.1)
        }
    }
}

impl RenderedFont {
    /// A font of which nothing is known yet.
    pub fn empty() -> (font: Self)
        ensures
            font.char_size == (0u32, 0u32),
    {
        Self { char_size: (0, 0) }
    }

    /// The characters that fit in `pixels` pixels, side by side.
    pub fn px_to_ch_x(&self, pixels: u32) -> (chars: u32)
        requires
            self.char_size.0 > 0,
        ensures
            chars == pixels / self.char_size.0,
    {
        pixels / self.char_size.0
    }

    /// The characters that fit in `pixels` pixels, one above the other.
    pub fn px_to_ch_y(&self, pixels: u32) -> (chars: u32)
        requires
            self.char_size.1 > 0,
        ensures
            chars == pixels / self.char_size.1,
    {
        pixels / self.char_size.1
    }

    /// The width of `chars` characters, in pixels.
    pub fn ch_to_px_x(&self, chars: u32) -> (pixels: u32)
        requires
            chars * self.char_size.0 <= u32::MAX,
        ensures
            pixels == chars * self.char_size.0,
    {
        chars * self.char_size.0
    }

    /// The height of `chars` characters, in pixels.
    pub fn ch_to_px_y(&self, chars: u32) -> (pixels: u32)
        requires
            chars * self.char_size.1 <= u32::MAX,
        ensures
            pixels == chars * self.char_size.1,
    {
        chars * self.char_size.1
    }
}

impl TUIDrawer {
    /// Whether every cluster of `clusters`, written from `(x, y)`, is drawn
    /// at a pixel of the screen's range, and the cursor is in its range when
    /// it has passed the last.
    pub open spec fn writes(&self, font: &RenderedFont, x: int, y: int, clusters: Seq<Seq<char>>) -> bool {
        &&& font.char_size.0 <= i32::MAX
        &&& font.char_size.1 <= i32::MAX
        &&& forall|n: int|
            0 <= n < clusters.len() ==> self.draws_at(font, #[trigger] cursor_after(clusters, x, y, n))
        &&& i32::MIN <= cursor_after(clusters, x, y, clusters.len() as int).0 <= i32::MAX
        &&& i32::MIN <= cursor_after(clusters, x, y, clusters.len() as int).1 <= i32::MAX
    }

    /// Whether a cursor at `at` is in its range and is drawn at a pixel of
    /// the screen's range.
    pub open spec fn draws_at(&self, font: &RenderedFont, at: (int, int)) -> bool {
        &&& i32::MIN <= at.0 <= i32::MAX
        &&& i32::MIN <= at.1 <= i32::MAX
        &&& i32::MIN <= at.0 * font.char_size.0 <= i32::MAX
        &&& i32::MIN <= at.1 * font.char_size.1 <= i32::MAX
        &&& i32::MIN <= self.start_x + at.0 * font.char_size.0 <= i32::MAX
        &&& i32::MIN <= self.start_y + at.1 * font.char_size.1 <= i32::MAX
    }

    fn can_draw_at(&self, font: &RenderedFont, x: i64, y: i64) -> (can: bool)
        requires
            -0x1_0000_0000 <= x <= 0x1_0000_0000,
            -0x1_0000_0000 <= y <= 0x1_0000_0000,
        ensures
            can == self.draws_at(font, (x as int, y as int)),
    {
        assert(-0x1_0000_0000_0000_0000 <= x * font.char_size.0 <= 0x1_0000_0000_0000_0000)
            by (nonlinear_arith)
            requires
                -0x1_0000_0000 <= x <= 0x1_0000_0000,
                0 <= font.char_size.0 <= 0xffff_ffff,
        ;
        assert(-0x1_0000_0000_0000_0000 <= y * font.char_size.1 <= 0x1_0000_0000_0000_0000)
            by (nonlinear_arith)
            requires
                -0x1_0000_0000 <= y <= 0x1_0000_0000,
                0 <= font.char_size.1 <= 0xffff_ffff,
        ;
        let low = i32::MIN as i128;
        let high = i32::MAX as i128;
        let px = x as i128 * font.char_size.0 as i128;
        let py = y as i128 * font.char_size.1 as i128;
        low <= x as i128 && x as i128 <= high && low <= y as i128 && y as i128 <= high && low <= px
            && px <= high && low <= py && py <= high && low <= self.start_x as i128 + px
            && self.start_x as i128 + px <= high && low <= self.start_y as i128 + py
            && self.start_y as i128 + py <= high
    }

    /// Whether `clusters` can be written from the column `x` of the line
    /// `y`.
    pub fn can_write(&self, font: &RenderedFont, x: i32, y: i32, clusters: &Vec<String>) -> (can: bool)
        ensures
            can == self.writes(font, x as int, y as int, clusters.deep_view()),
    {
        let ghost texts = clusters.deep_view();
        if font.char_size.0 > i32::MAX as u32 || font.char_size.1 > i32::MAX as u32 {
            return false;
        }
        let mut cx: i64 = x as i64;
        let mut cy: i64 = y as i64;
        let mut n: usize = 0;
        while n < clusters.len()
            invariant
                n <= clusters@.len() == texts.len(),
                texts == clusters.deep_view(),
                font.char_size.0 <= i32::MAX,
                font.char_size.1 <= i32::MAX,
                (cx as int, cy as int) == cursor_after(texts, x as int, y as int, n as int),
                i32::MIN <= cx <= i32::MAX + 1,
                i32::MIN <= cy <= i32::MAX + 1,
                forall|m: int|
                    0 <= m < n ==> self.draws_at(
                        font,
                        #[trigger] cursor_after(texts, x as int, y as int, m),
                    ),
            decreases clusters@.len() - n,
        {
            if !self.can_draw_at(font, cx, cy) {
                assert(!self.draws_at(font, cursor_after(texts, x as int, y as int, n as int)));
                return false;
            }
            assert(texts[n as int] == clusters@[n as int]@);
            if str_eq(clusters[n].as_str(), "\n") {
                cx = x as i64;
                cy = cy + 1;
            } else {
                cx = cx + 1;
            }
            n += 1;
        }
        cx <= i32::MAX as i64 && cy <= i32::MAX as i64
    }

    /// Writes `text` from the column `x` of the line `y`, if every cluster
    /// of it can be drawn at a pixel of the screen's range, and else does
    /// nothing.
    pub fn try_text_at(&mut self, font: &RenderedFont, x: i32, y: i32, text: &str) -> (glyphs: Option<
        Vec<Glyph>,
    >)
        ensures
            glyphs is Some <==> old(self).writes(font, x as int, y as int, grapheme_clusters(text@)),
            glyphs is None ==> *final(self) == *old(self),
            glyphs is Some ==> old(self).written(
                font,
                x as int,
                y as int,
                grapheme_clusters(text@),
                glyphs->0@,
                *final(self),
            ),
    {
        let clusters = graphemes(text);
        assert(clusters.deep_view() =~= grapheme_clusters(text@));
        if self.can_write(font, x, y, &clusters) {
            Some(self.text_at(font, x, y, text))
        } else {
            None
        }
    }

    /// Writes `text` from where the cursor is.
    pub fn text(&mut self, font: &RenderedFont, text: &str) -> (glyphs: Vec<Glyph>)
        requires
            old(self).writes(font, old(self).x as int, old(self).y as int, grapheme_clusters(text@)),
        ensures
            old(self).written(
                font,
                old(self).x as int,
                old(self).y as int,
                grapheme_clusters(text@),
                glyphs@,
                *final(self),
            ),
    {
        self.text_at(font, self.x, self.y, text)
    }

    /// Writes `text` from where the cursor is, if every cluster of it can
    /// be drawn at a pixel of the screen's range, and else does nothing.
    pub fn try_text(&mut self, font: &RenderedFont, text: &str) -> (glyphs: Option<Vec<Glyph>>)
        ensures
            glyphs is Some <==> old(self).writes(
                font,
                old(self).x as int,
                old(self).y as int,
                grapheme_clusters(text@),
            ),
            glyphs is None ==> *final(self) == *old(self),
            glyphs is Some ==> old(self).written(
                font,
                old(self).x as int,
                old(self).y as int,
                grapheme_clusters(text@),
                glyphs->0@,
                *final(self),
            ),
    {
        let clusters = graphemes(text);
        assert(clusters.deep_view() =~= grapheme_clusters(text@));
        if self.can_write(font, self.x, self.y, &clusters) {
            Some(self.text(font, text))
        } else {
            None
        }
    }

    /// Whether `glyphs` are the clusters `clusters`, written from the
    /// column `x` of the line `y`, each with the pixel at which it is drawn,
    /// and `after` is this drawer with its cursor behind the last.
    pub open spec fn written(
        &self,
        font: &RenderedFont,
        x: int,
        y: int,
        clusters: Seq<Seq<char>>,
        glyphs: Seq<Glyph>,
        after: TUIDrawer,
    ) -> bool {
        &&& glyphs.len() == clusters.len()
        &&& forall|n: int|
            0 <= n < glyphs.len() ==> {
                let at = cursor_after(clusters, x, y, n);
                &&& (#[trigger] glyphs[n]).ch@ == clusters[n]
                &&& glyphs[n].x == self.start_x + at.0 * font.char_size.0
                &&& glyphs[n].y == self.start_y + at.1 * font.char_size.1
            }
        &&& after == (TUIDrawer {
            x: cursor_after(clusters, x, y, clusters.len() as int).0 as i32,
            y: cursor_after(clusters, x, y, clusters.len() as int).1 as i32,
            ..*self
        })
    }

    /// A drawer for the rectangle `rect`, with its cursor in the first
    /// column of the first line, that writes in white.
    pub fn new(rect: ScreenRect) -> (drawer: Self)
        ensures
            drawer == (TUIDrawer {
                start_x: rect.x,
                start_y: rect.y,
                width: rect.width,
                height: rect.height,
                x: 0,
                y: 0,
                fg: (255u8, 255u8, 255u8),
            }),
    {
        Self {
            start_x: rect.x,
            start_y: rect.y,
            width: rect.width,
            height: rect.height,
            x: 0,
            y: 0,
            fg: (255, 255, 255),
        }
    }

    /// The part of the rectangle that whole characters fill, which is
    /// what gets the colour of the background.
    pub fn fill_bg(&self, font: &RenderedFont) -> (rect: ScreenRect)
        requires
            font.char_size.0 > 0,
            font.char_size.1 > 0,
        ensures
            rect == ScreenRect::spec_new(
                self.start_x as int,
                self.start_y as int,
                (self.width / font.char_size.0) * font.char_size.0,
                (self.height / font.char_size.1) * font.char_size.1,
            ),
    {
        let columns = font.px_to_ch_x(self.width);
        let lines = font.px_to_ch_y(self.height);
        assert(columns * font.char_size.0 <= self.width) by (nonlinear_arith)
            requires
                columns == self.width / font.char_size.0,
                font.char_size.0 > 0,
        ;
        assert(lines * font.char_size.1 <= self.height) by (nonlinear_arith)
            requires
                lines == self.height / font.char_size.1,
                font.char_size.1 > 0,
        ;
        ScreenRect::new(
            self.start_x,
            self.start_y,
            columns * font.char_size.0,
            lines * font.char_size.1,
        )
    }

    /// Writes `clusters` from the column `x` of the line `y`: gives each
    /// cluster with the pixel at which it is drawn, and leaves the cursor
    /// behind the last.
    pub fn place(&mut self, font: &RenderedFont, x: i32, y: i32, clusters: Vec<String>) -> (glyphs: Vec<
        Glyph,
    >)
        requires
            old(self).writes(font, x as int, y as int, clusters.deep_view()),
        ensures
            old(self).written(font, x as int, y as int, clusters.deep_view(), glyphs@, *final(self)),
    {
        let ghost texts = clusters.deep_view();
        self.x = x;
        self.y = y;
        let mut clusters = clusters;
        let mut glyphs: Vec<Glyph> = Vec::new();
        let count = clusters.len();
        let mut n: usize = 0;
        proof {
            assert(texts.len() == clusters@.len());
            assert forall|k: int| 0 <= k < texts.len() implies #[trigger] texts[k] == clusters@[k]@ by {}
        }
        while n < count
            invariant
                n <= count == texts.len(),
                clusters@.len() == count,
                forall|k: int| n <= k < count ==> #[trigger] texts[k] == clusters@[k]@,
                old(self).writes(font, x as int, y as int, texts),
                self.start_x == old(self).start_x,
                self.start_y == old(self).start_y,
                self.width == old(self).width,
                self.height == old(self).height,
                self.fg == old(self).fg,
                (self.x as int, self.y as int) == cursor_after(texts, x as int, y as int, n as int),
                glyphs@.len() == n,
                forall|k: int|
                    0 <= k < n ==> {
                        let at = cursor_after(texts, x as int, y as int, k);
                        &&& (#[trigger] glyphs@[k]).ch@ == texts[k]
                        &&& glyphs@[k].x == self.start_x + at.0 * font.char_size.0
                        &&& glyphs@[k].y == self.start_y + at.1 * font.char_size.1
                    },
            decreases count - n,
        {
            let ghost at = cursor_after(texts, x as int, y as int, n as int);
            let ghost next = cursor_after(texts, x as int, y as int, n + 1);
            assert(0 <= n <= texts.len() && 0 <= n + 1 <= texts.len());
            let mut ch = String::new();
            std::mem::swap(&mut ch, &mut clusters[n]);
            let feed = str_eq(ch.as_str(), "\n");
            let px = self.start_x + self.x * font.char_size.0 as i32;
            let py = self.start_y + self.y * font.char_size.1 as i32;
            if !feed {
                self.x += 1;
            } else {
                self.x = x;
                self.y += 1;
            }
            glyphs.push(Glyph { ch, x: px, y: py });
            n += 1;
        }
        glyphs
    }

    /// Writes `text` from the column `x` of the line `y`, cluster by
    /// cluster: gives each grapheme cluster of the text with the pixel at
    /// which it is drawn, and leaves the cursor behind the last.
    pub fn text_at(&mut self, font: &RenderedFont, x: i32, y: i32, text: &str) -> (glyphs: Vec<Glyph>)
        requires
            old(self).writes(font, x as int, y as int, grapheme_clusters(text@)),
        ensures
            old(self).written(font, x as int, y as int, grapheme_clusters(text@), glyphs@, *final(self)),
    {
        let clusters = graphemes(text);
        assert(clusters.deep_view() =~= grapheme_clusters(text@));
        self.place(font, x, y, clusters)
    }
}

} // verus!
