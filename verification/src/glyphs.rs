//! Client-side glyph compositing for the status bar.
//!
//! The X core font protocol only reaches bitmap fonts of the server's font
//! path, so outline fonts are rasterised in the client and blitted. This
//! module holds everything between the rasterised glyphs and the bytes of
//! the blit: metrics, clipping, blending and packing.
use std::collections::HashMap;
use std::sync::Arc;
use vstd::arithmetic::div_mod::lemma_fundamental_div_mod_converse;
use vstd::prelude::*;

verus! {

broadcast use vstd::std_specs::hash::group_hash_axioms;

/// One rasterised glyph: 8-bit coverage plus the metrics needed to place it
/// against the pen position and the baseline.
#[derive(Debug)]
pub struct Glyph {
    /// Coverage-bitmap size in pixels; both are `0` for a blank glyph.
    pub width: usize,
    pub height: usize,
    /// Whole-pixel pen advance to the next glyph.
    pub advance: i32,
    /// Left side bearing: bitmap left edge relative to the pen.
    pub xmin: i32,
    /// Bitmap bottom edge relative to the baseline; y grows up here.
    pub ymin: i32,
    /// 8-bit coverage, row-major, top row first.
    pub coverage: Vec<u8>,
}

/// The server's ZPixmap layout for one depth, read from the connection setup.
#[derive(Debug, Clone, Copy, PartialEq, Eq, Structural)]
pub struct PixmapFormat {
    pub depth: u8,
    pub bits_per_pixel: u8,
    pub scanline_pad: u8,
    /// `true` when the setup's byte order is least significant first.
    pub lsb_first: bool,
}

/// Whether pixels of `0x00RRGGBB` can be packed exactly.
pub open spec fn packable(bits_per_pixel: u8, scanline_pad: u8) -> bool {
    &&& bits_per_pixel == 24 || bits_per_pixel == 32
    &&& scanline_pad == 8 || scanline_pad == 16 || scanline_pad == 32
}

/// `bits` rounded up to a multiple of `pad`.
pub open spec fn round_up(bits: int, pad: int) -> int {
    (bits + pad - 1) / pad * pad
}

/// Byte `k` of a pixel, counted from the least significant one.
pub open spec fn low_byte(pixel: u32, k: int) -> u8 {
    if k == 0 {
        (pixel % 256) as u8
    } else if k == 1 {
        (pixel / 256 % 256) as u8
    } else if k == 2 {
        (pixel / 65536 % 256) as u8
    } else {
        (pixel / 16777216) as u8
    }
}

impl PixmapFormat {
    /// Whether this layout can be packed.
    pub open spec fn valid(self) -> bool {
        packable(self.bits_per_pixel, self.scanline_pad)
    }

    /// Bytes per pixel.
    pub open spec fn pixel_bytes(self) -> int {
        self.bits_per_pixel as int / 8
    }

    /// Bytes per scanline of `width` pixels.
    pub open spec fn row_bytes(self, width: u16) -> int {
        round_up(width * self.bits_per_pixel, self.scanline_pad as int) / 8
    }

    /// Byte `i` of a packed pixel, in the server's order. Most significant
    /// first reverses the significant bytes only.
    pub open spec fn packed_byte(self, pixel: u32, i: int) -> u8 {
        low_byte(
            pixel,
            if self.lsb_first {
                i
            } else {
                self.pixel_bytes() - 1 - i
            },
        )
    }

    /// `None` when the layout is not one that can be packed exactly: colours
    /// are `0x00RRGGBB`, which only lines up with 24 or 32 bits per pixel.
    pub fn new(depth: u8, bits_per_pixel: u8, scanline_pad: u8, lsb_first: bool) -> (r: Option<
        Self,
    >)
        ensures
            r == (if packable(bits_per_pixel, scanline_pad) {
                Some(PixmapFormat { depth, bits_per_pixel, scanline_pad, lsb_first })
            } else {
                None
            }),
    {
        if (bits_per_pixel == 24 || bits_per_pixel == 32) && (scanline_pad == 8 || scanline_pad
            == 16 || scanline_pad == 32) {
            Some(PixmapFormat { depth, bits_per_pixel, scanline_pad, lsb_first })
        } else {
            None
        }
    }

    /// Bytes per scanline: `width * bits_per_pixel` bits rounded up to the
    /// server's `scanline_pad`.
    pub fn stride(&self, width: u16) -> (r: usize)
        requires
            self.valid(),
        ensures
            r == self.row_bytes(width),
            r >= width * self.pixel_bytes(),
            r <= 262148,
    {
        proof {
            law_rows_are_padded(*self, width);
        }
        let bits: u32 = width as u32 * self.bits_per_pixel as u32;
        let pad: u32 = self.scanline_pad as u32;
        ((bits + pad - 1) / pad * pad / 8) as usize
    }

    /// Appends one pixel in the server's byte order.
    fn write_pixel(&self, data: &mut Vec<u8>, pixel: u32)
        requires
            self.valid(),
        ensures
            final(data)@ == old(data)@ + Seq::new(
                self.pixel_bytes() as nat,
                |i: int| self.packed_byte(pixel, i),
            ),
    {
        let b0: u8 = (pixel % 256) as u8;
        let b1: u8 = (pixel / 256 % 256) as u8;
        let b2: u8 = (pixel / 65536 % 256) as u8;
        let b3: u8 = (pixel / 16777216) as u8;
        if self.lsb_first {
            data.push(b0);
            data.push(b1);
            data.push(b2);
            if self.bits_per_pixel == 32 {
                data.push(b3);
            }
        } else {
            if self.bits_per_pixel == 32 {
                data.push(b3);
            }
            data.push(b2);
            data.push(b1);
            data.push(b0);
        }
    }
}

/// A scanline is a whole number of pads, holds every pixel of the row, and is
/// less than one pad longer than they are.
pub proof fn law_rows_are_padded(format: PixmapFormat, width: u16)
    requires
        format.valid(),
    ensures
        format.row_bytes(width) * 8 % (format.scanline_pad as int) == 0,
        format.row_bytes(width) * 8 >= width * format.bits_per_pixel,
        format.row_bytes(width) * 8 < width * format.bits_per_pixel + format.scanline_pad,
        width * format.pixel_bytes() * 8 == width * format.bits_per_pixel,
        width * format.bits_per_pixel <= 65535 * 32,
{
    let bits = width * format.bits_per_pixel;
    assert(bits == width * 24 || bits == width * 32);
    assert(width * format.pixel_bytes() == width * 3 || width * format.pixel_bytes() == width * 4);
    if format.scanline_pad == 8 {
        assert(round_up(bits, 8) == (bits + 7) / 8 * 8);
    } else if format.scanline_pad == 16 {
        assert(round_up(bits, 16) == (bits + 15) / 16 * 16);
    } else {
        assert(round_up(bits, 32) == (bits + 31) / 32 * 32);
    }
}

/// A packed ZPixmap rectangle ready for the blit.
#[derive(Debug, PartialEq, Eq)]
pub struct GlyphImage {
    pub width: u16,
    pub height: u16,
    pub data: Vec<u8>,
}

/// One channel of a colour: 2 for red, 1 for green, 0 for blue.
pub open spec fn channel(color: u32, k: int) -> int {
    low_byte(color, k) as int
}

/// `base` moved towards `ink` by `coverage / 255` of their distance, rounded
/// towards `base`.
pub open spec fn mixed(base: int, ink: int, coverage: u8) -> int {
    if ink >= base {
        base + (ink - base) * coverage / 255
    } else {
        base - (base - ink) * coverage / 255
    }
}

/// The composite of `glyph` over `fill`: every channel mixed by itself, the
/// high byte clear.
pub open spec fn composite(fill: u32, glyph: u32, coverage: u8) -> int {
    mixed(channel(fill, 2), channel(glyph, 2), coverage) * 65536 + mixed(
        channel(fill, 1),
        channel(glyph, 1),
        coverage,
    ) * 256 + mixed(channel(fill, 0), channel(glyph, 0), coverage)
}

/// A mixed channel lies between its two ends, and is exact at both ends of
/// the coverage ramp.
pub proof fn law_mixing_is_exact_at_both_ends(base: int, ink: int, coverage: u8)
    requires
        0 <= base < 256,
        0 <= ink < 256,
    ensures
        mixed(base, ink, 0) == base,
        mixed(base, ink, 255) == ink,
        base <= ink ==> base <= mixed(base, ink, coverage) <= ink,
        ink <= base ==> ink <= mixed(base, ink, coverage) <= base,
{
    let d = if ink >= base {
        ink - base
    } else {
        base - ink
    };
    assert(0 <= d * coverage <= d * 255) by (nonlinear_arith)
        requires
            0 <= d,
            0 <= coverage <= 255,
    ;
    assert(d * 0 == 0);
}

proof fn lemma_channels(red: int, green: int, blue: int)
    requires
        0 <= red < 256,
        0 <= green < 256,
        0 <= blue < 256,
    ensures
        0 <= red * 65536 + green * 256 + blue < 0x100_0000,
        channel((red * 65536 + green * 256 + blue) as u32, 2) == red,
        channel((red * 65536 + green * 256 + blue) as u32, 1) == green,
        channel((red * 65536 + green * 256 + blue) as u32, 0) == blue,
{
}

/// Compositing without coverage leaves the fill, with full coverage the
/// glyph's colour; whatever the coverage, the high byte is clear and every
/// channel lies between that of the fill and that of the glyph.
pub proof fn law_blend_stays_between_its_ends(fill: u32, glyph: u32, coverage: u8)
    ensures
        fill < 0x100_0000 ==> composite(fill, glyph, 0) == fill,
        glyph < 0x100_0000 ==> composite(fill, glyph, 255) == glyph,
        0 <= composite(fill, glyph, coverage) < 0x100_0000,
        forall|k: int|
            0 <= k < 3 ==> {
                let m = channel(composite(fill, glyph, coverage) as u32, k);
                let a = #[trigger] channel(fill, k);
                let b = channel(glyph, k);
                a <= m <= b || b <= m <= a
            },
{
    law_mixing_is_exact_at_both_ends(channel(fill, 0), channel(glyph, 0), coverage);
    law_mixing_is_exact_at_both_ends(channel(fill, 1), channel(glyph, 1), coverage);
    law_mixing_is_exact_at_both_ends(channel(fill, 2), channel(glyph, 2), coverage);
    lemma_channels(
        mixed(channel(fill, 2), channel(glyph, 2), coverage),
        mixed(channel(fill, 1), channel(glyph, 1), coverage),
        mixed(channel(fill, 0), channel(glyph, 0), coverage),
    );
    assert forall|k: int| 0 <= k < 3 implies ({
        let m = channel(composite(fill, glyph, coverage) as u32, k);
        let a = #[trigger] channel(fill, k);
        let b = channel(glyph, k);
        a <= m <= b || b <= m <= a
    }) by {
        assert(k == 0 || k == 1 || k == 2);
    }
}

fn mix(base: u32, ink: u32, coverage: u8) -> (r: u32)
    requires
        base < 256,
        ink < 256,
    ensures
        r == mixed(base as int, ink as int, coverage),
        r < 256,
{
    proof {
        law_mixing_is_exact_at_both_ends(base as int, ink as int, coverage);
    }
    if ink >= base {
        let d: u32 = ink - base;
        assert(d * coverage <= 65025) by (nonlinear_arith)
            requires
                d <= 255,
                coverage <= 255,
        ;
        base + d * coverage as u32 / 255
    } else {
        let d: u32 = base - ink;
        assert(d * coverage <= 65025) by (nonlinear_arith)
            requires
                d <= 255,
                coverage <= 255,
        ;
        base - d * coverage as u32 / 255
    }
}

/// Exact compositing of `glyph` over `fill` at `coverage / 255`, per channel.
/// The base is the slot's own fill, which the renderer has just painted.
pub fn blend(fill: u32, glyph: u32, coverage: u8) -> (r: u32)
    ensures
        r == composite(fill, glyph, coverage),
{
    let red: u32 = mix(fill / 65536 % 256, glyph / 65536 % 256, coverage);
    let green: u32 = mix(fill / 256 % 256, glyph / 256 % 256, coverage);
    let blue: u32 = mix(fill % 256, glyph % 256, coverage);
    red * 65536 + green * 256 + blue
}

// ---------------------------------------------------------------------------
// Runs of glyphs
// ---------------------------------------------------------------------------

/// The distance the pen moves over a run of glyphs.
pub open spec fn advance_of(run: Seq<Arc<Glyph>>) -> int
    decreases run.len(),
{
    if run.len() == 0 {
        0
    } else {
        advance_of(run.drop_last()) + run.last().advance
    }
}

/// `n` limited to the range of `u16`.
pub open spec fn clamped(n: int) -> u16 {
    if n < 0 {
        0
    } else if n > 65535 {
        65535
    } else {
        n as u16
    }
}

/// The coverage that a glyph at pen position `pen` gives to pixel `(x, y)` of
/// a line box whose baseline is `ascent` below its top edge.
pub open spec fn glyph_ink(glyph: Glyph, pen: int, ascent: int, x: int, y: int) -> u8 {
    let col = x - pen - glyph.xmin;
    let row = y - (ascent - glyph.ymin - glyph.height);
    if 0 <= col < glyph.width && 0 <= row < glyph.height && row * glyph.width + col
        < glyph.coverage@.len() {
        glyph.coverage@[row * glyph.width + col]
    } else {
        0
    }
}

/// The coverage of pixel `(x, y)` by a run: the largest that one of its
/// glyphs gives. Overlapping ink is not composited twice.
pub open spec fn ink(run: Seq<Arc<Glyph>>, ascent: int, x: int, y: int) -> u8
    decreases run.len(),
{
    if run.len() == 0 {
        0
    } else {
        let before = ink(run.drop_last(), ascent, x, y);
        let here = glyph_ink(*run.last(), advance_of(run.drop_last()), ascent, x, y);
        if here > before {
            here
        } else {
            before
        }
    }
}

/// Byte `r` of row `y` of the packed image: a byte of a pixel, or padding.
pub open spec fn row_byte(
    run: Seq<Arc<Glyph>>,
    ascent: int,
    fill: u32,
    color: u32,
    width: u16,
    format: PixmapFormat,
    y: int,
    r: int,
) -> u8 {
    let bytes = format.pixel_bytes();
    if r < width * bytes {
        format.packed_byte(
            composite(fill, color, ink(run, ascent, r / bytes, y)) as u32,
            r % bytes,
        )
    } else {
        0
    }
}

/// The packed image of a run, row by row.
pub open spec fn packed_image(
    run: Seq<Arc<Glyph>>,
    ascent: int,
    fill: u32,
    color: u32,
    width: u16,
    height: u16,
    format: PixmapFormat,
) -> Seq<u8> {
    let stride = format.row_bytes(width);
    Seq::new(
        (height * stride) as nat,
        |j: int| row_byte(run, ascent, fill, color, width, format, j / stride, j % stride),
    )
}

/// The rasterised glyphs of a font at one size.
///
/// The size is fixed for the renderer's lifetime, so the character alone is a
/// complete key. A hit hands back the same allocation, never a second
/// rasterisation.
pub struct GlyphCache {
    /// Baseline offset from the line box's top edge, whole pixels.
    ascent: i32,
    /// Line box height, whole pixels, at least 1.
    line_height: u16,
    cache: HashMap<u32, Arc<Glyph>>,
}

impl GlyphCache {
    /// The rasterised glyphs, by the code of their character.
    pub closed spec fn glyphs(&self) -> Map<u32, Arc<Glyph>> {
        self.cache@
    }

    /// The baseline's offset from the top of the line box.
    pub closed spec fn baseline(&self) -> int {
        self.ascent as int
    }

    /// The height of the line box.
    pub closed spec fn box_height(&self) -> u16 {
        self.line_height
    }

    /// Whether every character of a text was rasterised.
    pub open spec fn covers(&self, text: Seq<char>) -> bool {
        forall|i: int|
            0 <= i < text.len() ==> #[trigger] self.glyphs().dom().contains(text[i] as u32)
    }

    /// The glyphs of a text.
    pub open spec fn run(&self, text: Seq<char>) -> Seq<Arc<Glyph>> {
        Seq::new(text.len(), |i: int| self.glyphs()[text[i] as u32])
    }

    /// An empty cache for a font whose line reaches `ascent` above and
    /// `descent` below the baseline.
    pub fn new(ascent: i32, descent: i32) -> (r: Self)
        requires
            0 <= ascent,
            0 <= descent,
            ascent + descent <= i32::MAX,
        ensures
            r.glyphs() == Map::<u32, Arc<Glyph>>::empty(),
            r.baseline() == ascent,
            r.box_height() == (if ascent + descent == 0 {
                1
            } else {
                clamped(ascent + descent)
            }),
    {
        let total: i32 = ascent + descent;
        GlyphCache {
            ascent,
            line_height: if total < 1 {
                1
            } else if total > 65535 {
                65535
            } else {
                total as u16
            },
            cache: HashMap::new(),
        }
    }

    /// Height of one line box: the vertical extent of an image.
    pub fn line_height(&self) -> (r: u16)
        ensures
            r == self.box_height(),
    {
        self.line_height
    }

    /// The glyph of `ch`, if it was rasterised.
    pub fn glyph(&self, ch: char) -> (r: Option<Arc<Glyph>>)
        ensures
            match r {
                Some(glyph) => self.glyphs().dom().contains(ch as u32)
                    && self.glyphs()[ch as u32] == glyph,
                None => !self.glyphs().dom().contains(ch as u32),
            },
    {
        match self.cache.get(&(ch as u32)) {
            Some(glyph) => Some(Arc::clone(glyph)),
            None => None,
        }
    }

    /// Keeps the rasterisation of `ch`, and hands out the one that counts: a
    /// character is rasterised exactly once, so an earlier one stays.
    pub fn rasterized(&mut self, ch: char, glyph: Glyph) -> (r: Arc<Glyph>)
        ensures
            final(self).baseline() == old(self).baseline(),
            final(self).box_height() == old(self).box_height(),
            old(self).glyphs().dom().contains(ch as u32) ==> final(self).glyphs() == old(
                self,
            ).glyphs(),
            !old(self).glyphs().dom().contains(ch as u32) ==> final(self).glyphs() == old(
                self,
            ).glyphs().insert(ch as u32, Arc::new(glyph)),
            r == final(self).glyphs()[ch as u32],
    {
        match self.glyph(ch) {
            Some(hit) => hit,
            None => {
                let entry = Arc::new(glyph);
                self.cache.insert(ch as u32, Arc::clone(&entry));
                entry
            },
        }
    }

    /// The first character of `text` that is yet to be rasterised.
    pub fn missing(&self, text: &str) -> (r: Option<char>)
        ensures
            match r {
                Some(ch) => exists|i: int|
                    0 <= i < text@.len() && #[trigger] text@[i] == ch && self.covers(text@.take(i))
                        && !self.glyphs().dom().contains(ch as u32),
                None => self.covers(text@),
            },
    {
        let n: usize = text.unicode_len();
        let mut i: usize = 0;
        while i < n
            invariant
                i <= n,
                n == text@.len(),
                self.covers(text@.take(i as int)),
            decreases n - i,
        {
            let ch: char = text.get_char(i);
            if self.glyph(ch).is_none() {
                assert(text@[i as int] == ch);
                return Some(ch);
            }
            assert forall|j: int| 0 <= j < i + 1 implies #[trigger] self.glyphs().dom().contains(
                text@.take(i + 1)[j] as u32,
            ) by {
                if j < i {
                    assert(text@.take(i as int)[j] == text@[j]);
                }
            }
            i = i + 1;
        }
        assert(text@.take(n as int) =~= text@);
        None
    }

    fn collect(&self, text: &str) -> (r: Vec<Arc<Glyph>>)
        requires
            self.covers(text@),
        ensures
            r@ == self.run(text@),
    {
        let n: usize = text.unicode_len();
        let mut out: Vec<Arc<Glyph>> = Vec::new();
        let mut i: usize = 0;
        while i < n
            invariant
                i <= n,
                n == text@.len(),
                self.covers(text@),
                out@ == self.run(text@).take(i as int),
            decreases n - i,
        {
            let ch: char = text.get_char(i);
            assert(self.glyphs().dom().contains(text@[i as int] as u32));
            if let Some(glyph) = self.glyph(ch) {
                out.push(glyph);
                assert(out@ =~= self.run(text@).take(i + 1));
            }
            i = i + 1;
        }
        assert(out@ =~= self.run(text@));
        out
    }

    /// Total advance width of `text` in whole pixels, from the real advances
    /// of the font's glyphs.
    pub fn run_width(&self, text: &str) -> (r: u16)
        requires
            self.covers(text@),
        ensures
            r == clamped(advance_of(self.run(text@))),
    {
        let run = self.collect(text);
        width_of(&run)
    }

    /// Composites `text` into a ZPixmap buffer that covers exactly the run's
    /// bounding box, clipped to `clip = (width, height)`. `None` means there
    /// is nothing to blit.
    pub fn render_run(
        &self,
        text: &str,
        fill: u32,
        glyph_color: u32,
        clip: (u16, u16),
        format: &PixmapFormat,
    ) -> (r: Option<GlyphImage>)
        requires
            self.covers(text@),
            format.valid(),
        ensures
            ({
                let full = clamped(advance_of(self.run(text@)));
                let width = if full < clip.0 {
                    full
                } else {
                    clip.0
                };
                let height = if self.box_height() < clip.1 {
                    self.box_height()
                } else {
                    clip.1
                };
                match r {
                    Some(image) => {
                        &&& width > 0
                        &&& height > 0
                        &&& image.width == width
                        &&& image.height == height
                        &&& image.data@ == packed_image(
                            self.run(text@),
                            self.baseline(),
                            fill,
                            glyph_color,
                            width,
                            height,
                            *format,
                        )
                    },
                    None => width == 0 || height == 0,
                }
            }),
    {
        let run = self.collect(text);
        let full: u16 = width_of(&run);
        let width: u16 = if full < clip.0 {
            full
        } else {
            clip.0
        };
        let height: u16 = if self.line_height < clip.1 {
            self.line_height
        } else {
            clip.1
        };
        if width == 0 || height == 0 {
            return None;
        }
        let data = pack_run(&run, self.ascent, fill, glyph_color, width, height, format);
        Some(GlyphImage { width, height, data })
    }
}

fn width_of(run: &Vec<Arc<Glyph>>) -> (r: u16)
    ensures
        r == clamped(advance_of(run@)),
{
    let total: i128 = pen_after(run);
    if total < 0 {
        0
    } else if total > 65535 {
        65535
    } else {
        total as u16
    }
}

proof fn lemma_advance_bound(run: Seq<Arc<Glyph>>)
    ensures
        -(run.len() * 0x8000_0000) <= advance_of(run) <= run.len() * 0x8000_0000,
    decreases run.len(),
{
    if run.len() > 0 {
        lemma_advance_bound(run.drop_last());
    }
}

fn pen_after(run: &Vec<Arc<Glyph>>) -> (r: i128)
    ensures
        r == advance_of(run@),
{
    let mut total: i128 = 0;
    let mut i: usize = 0;
    while i < run.len()
        invariant
            i <= run@.len(),
            run.len() <= usize::MAX,
            total == advance_of(run@.take(i as int)),
        decreases run@.len() - i,
    {
        proof {
            lemma_advance_bound(run@.take(i as int));
            assert(run@.take(i + 1).drop_last() =~= run@.take(i as int));
        }
        total = total + run[i].advance as i128;
        i = i + 1;
    }
    assert(run@.take(i as int) =~= run@);
    total
}

/// The coverage that one glyph gives to a pixel.
fn glyph_coverage(glyph: &Glyph, pen: i128, ascent: i32, x: u16, y: u16) -> (r: u8)
    requires
        -0x8000_0000_0000_0000_0000_0000 <= pen <= 0x8000_0000_0000_0000_0000_0000,
    ensures
        r == glyph_ink(*glyph, pen as int, ascent as int, x as int, y as int),
{
    let col: i128 = x as i128 - pen - glyph.xmin as i128;
    let row: i128 = y as i128 - (ascent as i128 - glyph.ymin as i128 - glyph.height as i128);
    if col < 0 || col >= glyph.width as i128 || row < 0 || row >= glyph.height as i128 {
        return 0;
    }
    assert(0 <= row * glyph.width <= 0xffff_ffff_ffff_ffff * 0xffff_ffff_ffff_ffff)
        by (nonlinear_arith)
        requires
            0 <= row <= 0xffff_ffff_ffff_ffff,
            0 <= glyph.width <= 0xffff_ffff_ffff_ffff,
    ;
    let index: u128 = row as u128 * glyph.width as u128 + col as u128;
    if index >= glyph.coverage.len() as u128 {
        return 0;
    }
    glyph.coverage[index as usize]
}

/// The coverage that a run gives to a pixel.
fn coverage_at(run: &Vec<Arc<Glyph>>, ascent: i32, x: u16, y: u16) -> (r: u8)
    ensures
        r == ink(run@, ascent as int, x as int, y as int),
{
    let mut most: u8 = 0;
    let mut pen: i128 = 0;
    let mut i: usize = 0;
    while i < run.len()
        invariant
            i <= run@.len(),
            run.len() <= usize::MAX,
            pen == advance_of(run@.take(i as int)),
            most == ink(run@.take(i as int), ascent as int, x as int, y as int),
        decreases run@.len() - i,
    {
        proof {
            lemma_advance_bound(run@.take(i as int));
            assert(run@.take(i + 1).drop_last() =~= run@.take(i as int));
            assert(run@.take(i + 1).last() == run@[i as int]);
        }
        let here: u8 = glyph_coverage(&run[i], pen, ascent, x, y);
        if here > most {
            most = here;
        }
        pen = pen + run[i].advance as i128;
        i = i + 1;
    }
    assert(run@.take(i as int) =~= run@);
    most
}

/// Packs the image of a run, row by row.
fn pack_run(
    run: &Vec<Arc<Glyph>>,
    ascent: i32,
    fill: u32,
    color: u32,
    width: u16,
    height: u16,
    format: &PixmapFormat,
) -> (r: Vec<u8>)
    requires
        format.valid(),
        width > 0,
    ensures
        r@ == packed_image(run@, ascent as int, fill, color, width, height, *format),
{
    let stride: usize = format.stride(width);
    let mut data: Vec<u8> = Vec::new();
    let mut y: u16 = 0;
    let ghost whole = packed_image(run@, ascent as int, fill, color, width, height, *format);
    while y < height
        invariant
            y <= height,
            width > 0,
            format.valid(),
            stride == format.row_bytes(width),
            stride >= width * format.pixel_bytes(),
            data@.len() == y * stride,
            whole == packed_image(run@, ascent as int, fill, color, width, height, *format),
            forall|j: int| 0 <= j < y * stride ==> #[trigger] data@[j] == whole[j],
        decreases height - y,
    {
        let row = pack_row(run, ascent, fill, color, width, stride, y, format);
        let mut row = row;
        let ghost before = data@;
        let ghost fresh = row@;
        data.append(&mut row);
        proof {
            assert((y + 1) * stride == y * stride + stride) by (nonlinear_arith);
            assert((y + 1) * stride <= height * stride) by (nonlinear_arith)
                requires
                    y + 1 <= height,
            ;
            assert forall|j: int| 0 <= j < (y + 1) * stride implies #[trigger] data@[j]
                == whole[j] by {
                if j >= y * stride {
                    let r = j - y * stride;
                    assert(data@[j] == fresh[r]);
                    lemma_fundamental_div_mod_converse(j, stride as int, y as int, r);
                } else {
                    assert(data@[j] == before[j]);
                }
            }
        }
        y = y + 1;
    }
    assert(data@ =~= whole);
    data
}

/// Packs one row of the image of a run.
fn pack_row(
    run: &Vec<Arc<Glyph>>,
    ascent: i32,
    fill: u32,
    color: u32,
    width: u16,
    stride: usize,
    y: u16,
    format: &PixmapFormat,
) -> (r: Vec<u8>)
    requires
        format.valid(),
        stride == format.row_bytes(width),
        stride >= width * format.pixel_bytes(),
    ensures
        r@ == Seq::new(
            stride as nat,
            |i: int| row_byte(run@, ascent as int, fill, color, width, *format, y as int, i),
        ),
{
    let ghost whole = Seq::new(
        stride as nat,
        |i: int| row_byte(run@, ascent as int, fill, color, width, *format, y as int, i),
    );
    let ghost bytes = format.pixel_bytes();
    let mut row: Vec<u8> = Vec::new();
    let mut x: u16 = 0;
    while x < width
        invariant
            x <= width,
            format.valid(),
            bytes == format.pixel_bytes(),
            bytes == 3 || bytes == 4,
            stride >= width * bytes,
            row@.len() == x * bytes,
            whole == Seq::new(
                stride as nat,
                |i: int| row_byte(run@, ascent as int, fill, color, width, *format, y as int, i),
            ),
            forall|j: int| 0 <= j < x * bytes ==> #[trigger] row@[j] == whole[j],
        decreases width - x,
    {
        let pixel: u32 = blend(fill, color, coverage_at(run, ascent, x, y));
        let ghost before = row@;
        format.write_pixel(&mut row, pixel);
        proof {
            assert((x + 1) * bytes == x * bytes + bytes) by (nonlinear_arith);
            assert((x + 1) * bytes <= width * bytes) by (nonlinear_arith)
                requires
                    x + 1 <= width,
                    bytes >= 0,
            ;
            assert forall|j: int| 0 <= j < (x + 1) * bytes implies #[trigger] row@[j]
                == whole[j] by {
                if j >= x * bytes {
                    lemma_fundamental_div_mod_converse(j, bytes, x as int, j - x * bytes);
                } else {
                    assert(row@[j] == before[j]);
                }
            }
        }
        x = x + 1;
    }
    while row.len() < stride
        invariant
            width * bytes <= row@.len() <= stride,
            bytes == format.pixel_bytes(),
            whole == Seq::new(
                stride as nat,
                |i: int| row_byte(run@, ascent as int, fill, color, width, *format, y as int, i),
            ),
            forall|j: int| 0 <= j < row@.len() ==> #[trigger] row@[j] == whole[j],
        decreases stride - row@.len(),
    {
        row.push(0);
    }
    assert(row@ =~= whole);
    row
}

} // verus!
