//! Frames as pixels, and their rendering as text.
use vstd::prelude::*;
use colored::Colorize;
use crate::character_pallet::{CharacterPallet, glyph_for};
use crate::config::Config;
use crate::parallel::par_map;
use crate::text::push_char;

verus! {

broadcast use vstd::seq::Seq::group_seq_flatten;

/// The glyph drawn where the palette has none to offer.
pub const MISSING_GLYPH: char = '\u{FFFD}';

/// One pixel, with its three 8-bit channels.
#[derive(Clone, Copy, Debug, PartialEq, Eq, Structural)]
pub struct Pixel {
    pub blue: u8,
    pub green: u8,
    pub red: u8,
}

/// The luminosity of a pixel: the mean of its channels, rounded down.
pub open spec fn luminosity(p: Pixel) -> u8 {
    ((p.red as nat + p.green as nat + p.blue as nat) / 3) as u8
}

/// The glyph a pixel is drawn with.
pub open spec fn glyph_of(glyphs: Seq<char>, p: Pixel) -> char {
    match glyph_for(glyphs, luminosity(p)) {
        Some(c) => c,
        None => MISSING_GLYPH,
    }
}

/// The character of a decimal digit.
pub open spec fn digit(d: nat) -> char {
    if d == 0 { '0' } else if d == 1 { '1' } else if d == 2 { '2' } else if d == 3 { '3' }
    else if d == 4 { '4' } else if d == 5 { '5' } else if d == 6 { '6' } else if d == 7 { '7' }
    else if d == 8 { '8' } else { '9' }
}

/// A byte written in decimal, without leading zeros.
pub open spec fn decimal(v: u8) -> Seq<char> {
    if v < 10 {
        seq![digit(v as nat)]
    } else if v < 100 {
        seq![digit(v as nat / 10), digit(v as nat % 10)]
    } else {
        seq![digit(v as nat / 100), digit(v as nat / 10 % 10), digit(v as nat % 10)]
    }
}

/// A glyph between the terminal escape that selects the foreground colour
/// `code` and the escape that resets all attributes.
pub open spec fn sgr(code: Seq<char>, glyph: char) -> Seq<char> {
    seq!['\x1b', '['] + code + seq!['m', glyph] + seq!['\x1b', '[', '0', 'm']
}

/// The colour code of a 24-bit foreground colour.
pub open spec fn truecolor_code(red: u8, green: u8, blue: u8) -> Seq<char> {
    seq!['3', '8', ';', '2', ';'] + decimal(red) + seq![';'] + decimal(green) + seq![';'] + decimal(blue)
}

/// The colour code of one of the sixteen basic foreground colours.
pub open spec fn basic_code(code: Seq<char>) -> bool {
    &&& code.len() == 2
    &&& code[0] == '3' || code[0] == '9'
    &&& '0' <= code[1] <= '7'
}

/// A glyph annotated with a colour: as an exact 24-bit colour, as the
/// closest basic colour where the terminal lacks 24-bit colour, or bare where
/// colouring is switched off for the process.
pub open spec fn colored_glyph(cell: Seq<char>, glyph: char, red: u8, green: u8, blue: u8) -> bool {
    ||| cell == seq![glyph]
    ||| cell == sgr(truecolor_code(red, green, blue), glyph)
    ||| exists|code: Seq<char>| basic_code(code) && cell == sgr(code, glyph)
}

/// The text of one pixel.
pub open spec fn cell_ok(cell: Seq<char>, glyphs: Seq<char>, p: Pixel, color: bool) -> bool {
    if color {
        colored_glyph(cell, glyph_of(glyphs, p), p.red, p.green, p.blue)
    } else {
        cell == seq![glyph_of(glyphs, p)]
    }
}

/// The text of one row of pixels: the text of each pixel in turn, then a
/// line feed.
pub open spec fn row_text_ok(text: Seq<char>, row: Seq<Pixel>, glyphs: Seq<char>, color: bool) -> bool {
    exists|cells: Seq<Seq<char>>|
        #![trigger cells.flatten()]
        cells.len() == row.len()
        && (forall|x: int| 0 <= x < row.len() ==> cell_ok(#[trigger] cells[x], glyphs, row[x], color))
        && text == cells.flatten().push('\n')
}

/// The text of a frame: the text of each row, top to bottom.
pub open spec fn frame_text_ok(text: Seq<char>, rows: Seq<Seq<Pixel>>, glyphs: Seq<char>, color: bool) -> bool {
    exists|lines: Seq<Seq<char>>|
        #![trigger lines.flatten()]
        lines.len() == rows.len()
        && (forall|y: int| 0 <= y < rows.len() ==> row_text_ok(#[trigger] lines[y], rows[y], glyphs, color))
        && text == lines.flatten()
}

/// The text of a row without colour.
pub open spec fn plain_row(row: Seq<Pixel>, glyphs: Seq<char>) -> Seq<char> {
    Seq::new(row.len(), |x: int| glyph_of(glyphs, row[x])).push('\n')
}

/// The text of a frame without colour.
pub open spec fn plain_text(rows: Seq<Seq<Pixel>>, glyphs: Seq<char>) -> Seq<char> {
    Seq::new(rows.len(), |y: int| plain_row(rows[y], glyphs)).flatten()
}

proof fn lemma_flatten_singletons(cells: Seq<Seq<char>>, s: Seq<char>)
    requires
        cells.len() == s.len(),
        forall|x: int| 0 <= x < s.len() ==> #[trigger] cells[x] == seq![s[x]],
    ensures
        cells.flatten() == s,
    decreases cells.len(),
{
    if cells.len() > 0 {
        let rest = cells.drop_last();
        lemma_flatten_singletons(rest, s.drop_last());
        assert(cells == rest.push(cells.last()));
        assert(s == s.drop_last().push(s.last()));
    } else {
        assert(s =~= Seq::<char>::empty());
    }
}

/// Without colour a row has exactly one text.
pub proof fn lemma_plain_row_unique(text: Seq<char>, row: Seq<Pixel>, glyphs: Seq<char>)
    requires
        row_text_ok(text, row, glyphs, false),
    ensures
        text == plain_row(row, glyphs),
{
    let cells = choose|cells: Seq<Seq<char>>|
        #![trigger cells.flatten()]
        cells.len() == row.len()
        && (forall|x: int| 0 <= x < row.len() ==> cell_ok(#[trigger] cells[x], glyphs, row[x], false))
        && text == cells.flatten().push('\n');
    let s = Seq::new(row.len(), |x: int| glyph_of(glyphs, row[x]));
    assert forall|x: int| 0 <= x < s.len() implies #[trigger] cells[x] == seq![s[x]] by {
        assert(cell_ok(cells[x], glyphs, row[x], false));
    }
    lemma_flatten_singletons(cells, s);
}

/// Without colour a frame has exactly one text.
pub proof fn lemma_plain_text_unique(text: Seq<char>, rows: Seq<Seq<Pixel>>, glyphs: Seq<char>)
    requires
        frame_text_ok(text, rows, glyphs, false),
    ensures
        text == plain_text(rows, glyphs),
{
    let lines = choose|lines: Seq<Seq<char>>|
        #![trigger lines.flatten()]
        lines.len() == rows.len()
        && (forall|y: int| 0 <= y < rows.len() ==> row_text_ok(#[trigger] lines[y], rows[y], glyphs, false))
        && text == lines.flatten();
    let expected = Seq::new(rows.len(), |y: int| plain_row(rows[y], glyphs));
    assert forall|y: int| 0 <= y < rows.len() implies lines[y] == expected[y] by {
        lemma_plain_row_unique(lines[y], rows[y], glyphs);
    }
    assert(lines =~= expected);
}

/// Relies on colored's `truecolor` and on the `Display` of its
/// `ColoredString`: the glyph comes out bare when colouring is off for the
/// process, else between a foreground-colour escape and a reset escape; the
/// colour is the exact 24-bit one when the terminal announces 24-bit colour,
/// else the closest of the sixteen basic colours.
#[verifier::external_body]
fn truecolor_glyph(glyph: char, red: u8, green: u8, blue: u8) -> (r: String)
    ensures
        colored_glyph(r@, glyph, red, green, blue),
{
    glyph.to_string().truecolor(red, green, blue).to_string()
}

/// How much taller than wide a terminal cell is.
pub const HEIGHT_TO_WIDTH: u32 = 2;

/// The number of text rows a frame of `source_width` by `source_height`
/// pixels is scaled to for `width` columns: the scaled height, halved to
/// make up for cells taller than wide, rounded to the nearest integer (a
/// half up); `None` for a frame without width.
pub fn scaled_height(source_width: u32, source_height: u32, width: u32) -> (r: Option<u64>)
    ensures
        r is None <==> source_width == 0,
        r matches Some(h) ==> h == (width as nat * source_height as nat + source_width as nat)
            / (HEIGHT_TO_WIDTH as nat * source_width as nat),
{
    if source_width == 0 {
        return None;
    }
    let w = width as u128;
    let sh = source_height as u128;
    assert(w * sh <= 0xffff_ffffu128 * 0xffff_ffffu128) by (nonlinear_arith)
        requires
            w <= 0xffff_ffffu128,
            sh <= 0xffff_ffffu128,
    ;
    let scaled = w * sh;
    let sw = source_width as u128;
    assert((HEIGHT_TO_WIDTH as u128) * sw <= 2 * 0xffff_ffffu128) by (nonlinear_arith)
        requires
            HEIGHT_TO_WIDTH == 2,
            sw <= 0xffff_ffffu128,
    ;
    let divisor = (HEIGHT_TO_WIDTH as u128) * sw;
    let h = (scaled + source_width as u128) / divisor;
    assert(h <= scaled + source_width as u128) by {
        vstd::arithmetic::div_mod::lemma_div_is_ordered_by_denominator(
            (scaled + source_width as u128) as int, 1, divisor as int);
    }
    Some(h as u64)
}

/// A frame as rows of pixels, all of one width.
pub struct PixelBuffer {
    width: usize,
    rows: Vec<Vec<Pixel>>,
}

impl PixelBuffer {
    /// The rows, top to bottom.
    pub closed spec fn pixels(&self) -> Seq<Seq<Pixel>> {
        self.rows@.map_values(|r: Vec<Pixel>| r@)
    }

    pub closed spec fn spec_width(&self) -> usize {
        self.width
    }

    /// Every row holds `spec_width()` pixels.
    pub open spec fn wf(&self) -> bool {
        forall|y: int| 0 <= y < self.pixels().len() ==> (#[trigger] self.pixels()[y]).len() == self.spec_width()
    }

    /// Builds a frame of the given width from its rows; `None` when a row
    /// has another length.
    pub fn from_rows(width: usize, rows: Vec<Vec<Pixel>>) -> (r: Option<PixelBuffer>)
        ensures
            r is Some <==> forall|y: int| 0 <= y < rows.len() ==> (#[trigger] rows@[y]).len() == width,
            r matches Some(b) ==> b.wf() && b.spec_width() == width
                && b.pixels() == rows@.map_values(|r: Vec<Pixel>| r@),
    {
        let mut y: usize = 0;
        while y < rows.len()
            invariant
                y <= rows.len(),
                forall|k: int| 0 <= k < y ==> (#[trigger] rows@[k]).len() == width,
            decreases rows.len() - y,
        {
            if rows[y].len() != width {
                return None;
            }
            y = y + 1;
        }
        let b = PixelBuffer { width, rows };
        assert(b.wf()) by {
            assert forall|k: int| 0 <= k < b.pixels().len() implies (#[trigger] b.pixels()[k]).len() == width by {
                assert(b.pixels()[k] == b.rows@[k]@);
            }
        }
        Some(b)
    }

    pub fn width(&self) -> (r: usize)
        ensures
            r == self.spec_width(),
    {
        self.width
    }

    pub fn height(&self) -> (r: usize)
        ensures
            r == self.pixels().len(),
    {
        self.rows.len()
    }

    /// The text of row `y`.
    fn render_row(&self, y: usize, pallet: &CharacterPallet, color: bool) -> (r: String)
        requires
            y < self.pixels().len(),
        ensures
            row_text_ok(r@, self.pixels()[y as int], pallet.glyphs(), color),
    {
        let row = &self.rows[y];
        assert(row@ == self.pixels()[y as int]);
        let mut text = String::new();
        let ghost mut cells: Seq<Seq<char>> = Seq::empty();
        let mut x: usize = 0;
        while x < row.len()
            invariant
                x <= row.len(),
                cells.len() == x,
                forall|k: int| 0 <= k < x ==> cell_ok(#[trigger] cells[k], pallet.glyphs(), row@[k], color),
                text@ == cells.flatten(),
            decreases row.len() - x,
        {
            let p = row[x];
            let luminosity = ((p.red as u16 + p.green as u16 + p.blue as u16) / 3) as u8;
            let glyph = match pallet.character_for_luminosity(luminosity) {
                Some(c) => c,
                None => MISSING_GLYPH,
            };
            let ghost before = cells;
            if color {
                let cell = truecolor_glyph(glyph, p.red, p.green, p.blue);
                text.append(cell.as_str());
                proof {
                    cells = cells.push(cell@);
                }
            } else {
                push_char(&mut text, glyph);
                proof {
                    cells = cells.push(seq![glyph]);
                }
            }
            assert(cells.drop_last() == before);
            x = x + 1;
        }
        push_char(&mut text, '\n');
        assert(row_text_ok(text@, row@, pallet.glyphs(), color));
        text
    }

    /// The text of the whole frame, its rows rendered in parallel and
    /// joined top to bottom.
    pub fn render(&self, pallet: &CharacterPallet, color: bool) -> (r: String)
        ensures
            frame_text_ok(r@, self.pixels(), pallet.glyphs(), color),
    {
        let height = self.rows.len();
        let mut indices: Vec<usize> = Vec::new();
        let mut y: usize = 0;
        while y < height
            invariant
                height == self.pixels().len(),
                y <= height,
                indices.len() == y,
                forall|k: int| 0 <= k < y ==> indices[k] == k,
            decreases height - y,
        {
            indices.push(y);
            y = y + 1;
        }
        let render_one = |y: usize| -> (t: String)
            requires
                y < self.pixels().len(),
            ensures
                row_text_ok(t@, self.pixels()[y as int], pallet.glyphs(), color),
        {
            self.render_row(y, pallet, color)
        };
        let rows = par_map(indices, render_one);
        let mut text = String::new();
        let ghost mut lines: Seq<Seq<char>> = Seq::empty();
        let mut k: usize = 0;
        while k < rows.len()
            invariant
                rows.len() == height,
                height == self.pixels().len(),
                k <= rows.len(),
                lines.len() == k,
                forall|j: int| 0 <= j < k ==> row_text_ok(#[trigger] lines[j], self.pixels()[j], pallet.glyphs(), color),
                forall|j: int| 0 <= j < rows.len() ==> row_text_ok(#[trigger] rows[j]@, self.pixels()[j], pallet.glyphs(), color),
                text@ == lines.flatten(),
            decreases rows.len() - k,
        {
            text.append(rows[k].as_str());
            proof {
                lines = lines.push(rows[k as int]@);
            }
            k = k + 1;
        }
        assert(frame_text_ok(text@, self.pixels(), pallet.glyphs(), color));
        text
    }
}

/// A frame that renders its text on first request and keeps it.
pub struct Image {
    content: PixelBuffer,
    as_string: Option<String>,
}

impl Image {
    pub closed spec fn spec_content(&self) -> PixelBuffer {
        self.content
    }

    /// The text kept from an earlier request, if any.
    pub closed spec fn cached(&self) -> Option<Seq<char>> {
        match self.as_string {
            Some(s) => Some(s@),
            None => None,
        }
    }

    /// `text` is what a request under `config` returns: the kept text if
    /// there is one, whatever the settings, else a rendering of the pixels.
    pub open spec fn renders_to(&self, config: &Config, text: Seq<char>) -> bool {
        match self.cached() {
            Some(t) => text == t,
            None => frame_text_ok(
                text,
                self.spec_content().pixels(),
                config.spec_pallet().glyphs(),
                config.spec_color(),
            ),
        }
    }

    pub fn new(content: PixelBuffer) -> (r: Image)
        ensures
            r.spec_content() == content,
            r.cached() is None,
    {
        Image { content, as_string: None }
    }

    pub fn content(&self) -> (r: &PixelBuffer)
        ensures
            *r == self.spec_content(),
    {
        &self.content
    }

    /// The text of the frame. The first request renders it and keeps it;
    /// later requests return the kept text unchanged, even under other
    /// settings.
    pub fn as_string(&mut self, config: &Config) -> (r: String)
        ensures
            old(self).renders_to(config, r@),
            final(self).spec_content() == old(self).spec_content(),
            final(self).cached() == Some(r@),
    {
        match &self.as_string {
            Some(s) => s.clone(),
            None => {
                let text = self.content.render(config.pallet(), config.color());
                self.as_string = Some(text.clone());
                text
            },
        }
    }
}

/// A frame asked for its text a second time returns the text of the first
/// request, under any settings, without rendering again.
pub proof fn law_memoized(image: Image, config: &Config, first: Seq<char>, second: Seq<char>)
    requires
        image.cached() == Some(first),
        image.renders_to(config, second),
    ensures
        second == first,
{
}

/// Without colour, preprocessing and rendering on request give a frame the
/// same text: any two texts that a fresh frame may be given are equal.
pub proof fn law_preprocessed_matches_lazy(image: Image, config: &Config, preprocessed: Seq<char>, lazy: Seq<char>)
    requires
        !config.spec_color(),
        image.renders_to(config, preprocessed),
        image.renders_to(config, lazy),
    ensures
        preprocessed == lazy,
{
    if image.cached() is None {
        lemma_plain_text_unique(preprocessed, image.spec_content().pixels(), config.spec_pallet().glyphs());
        lemma_plain_text_unique(lazy, image.spec_content().pixels(), config.spec_pallet().glyphs());
    }
}

/// A frame of which only the text is kept.
pub struct TextImage {
    text: String,
}

impl TextImage {
    pub closed spec fn spec_text(&self) -> Seq<char> {
        self.text@
    }

    pub fn new(text: String) -> (r: TextImage)
        ensures
            r.spec_text() == text@,
    {
        TextImage { text }
    }

    /// Renders the frame and keeps its text only.
    pub fn build_from_image(image: Image, config: &Config) -> (r: TextImage)
        ensures
            image.renders_to(config, r.spec_text()),
    {
        let mut image = image;
        let text = image.as_string(config);
        TextImage::new(text)
    }

    /// A copy of the text.
    pub fn as_text(&self) -> (r: String)
        ensures
            r@ == self.spec_text(),
    {
        self.text.clone()
    }

    /// The text; the settings play no part.
    pub fn as_string(&self, _config: &Config) -> (r: String)
        ensures
            r@ == self.spec_text(),
    {
        self.text.clone()
    }
}

/// A frame handed out for display: rendered on request, or already text.
pub enum Frame {
    Lazy(Image),
    Eager(TextImage),
}

impl Frame {
    pub open spec fn renders_to(&self, config: &Config, text: Seq<char>) -> bool {
        match self {
            Frame::Lazy(image) => image.renders_to(config, text),
            Frame::Eager(t) => text == t.spec_text(),
        }
    }

    /// The text of the frame; a frame rendered on request keeps its text.
    pub fn as_string(&mut self, config: &Config) -> (r: String)
        ensures
            old(self).renders_to(config, r@),
            *old(self) matches Frame::Lazy(before) ==> (*final(self) matches Frame::Lazy(after)
                && after.spec_content() == before.spec_content()
                && after.cached() == Some(r@)),
            *old(self) is Eager ==> *final(self) == *old(self),
    {
        match self {
            Frame::Lazy(image) => image.as_string(config),
            Frame::Eager(t) => t.as_string(config),
        }
    }
}

} // verus!
