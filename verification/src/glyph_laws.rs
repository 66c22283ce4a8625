//! What an image of a run of glyphs shows, pixel by pixel and byte by byte.
use std::sync::Arc;
use vstd::arithmetic::div_mod::lemma_fundamental_div_mod_converse;
use vstd::prelude::*;
use crate::glyphs;
use crate::glyphs::{Glyph, PixmapFormat};

verus! {

/// Layouts of 24 or 32 bits per pixel and rows padded to 8, 16 or 32 bits can
/// be packed, and no others.
pub proof fn law_packable_layouts(bits_per_pixel: u8, scanline_pad: u8)
    ensures
        glyphs::packable(bits_per_pixel, scanline_pad) <==> (bits_per_pixel == 24 || bits_per_pixel
            == 32) && (scanline_pad == 8 || scanline_pad == 16 || scanline_pad == 32),
{
}

/// The bytes of a packed pixel, read in the server's order, are the pixel; 24
/// bits hold what is below the highest byte.
pub proof fn law_packed_bytes_are_the_pixel(format: PixmapFormat, pixel: u32)
    requires
        format.valid(),
    ensures
        ({
            let byte = |i: int| format.packed_byte(pixel, i) as int;
            &&& format.bits_per_pixel == 24 ==> format.pixel_bytes() == 3
            &&& format.bits_per_pixel == 32 ==> format.pixel_bytes() == 4
            &&& format.bits_per_pixel == 24 && format.lsb_first ==> byte(0) + 256 * byte(1) + 65536
                * byte(2) == pixel as int % 16777216
            &&& format.bits_per_pixel == 24 && !format.lsb_first ==> byte(2) + 256 * byte(1) + 65536
                * byte(0) == pixel as int % 16777216
            &&& format.bits_per_pixel == 32 && format.lsb_first ==> byte(0) + 256 * byte(1) + 65536
                * byte(2) + 16777216 * byte(3) == pixel
            &&& format.bits_per_pixel == 32 && !format.lsb_first ==> byte(3) + 256 * byte(2) + 65536
                * byte(1) + 16777216 * byte(0) == pixel
        }),
{
}

/// A channel moves from the fill towards the glyph's colour by its share of
/// the coverage, cut off to whole steps.
pub proof fn law_channels_move_by_their_share(base: int, ink: int, coverage: u8)
    requires
        0 <= base < 256,
        0 <= ink < 256,
    ensures
        ({
            let m = glyphs::mixed(base, ink, coverage);
            &&& ink >= base ==> 255 * (m - base) <= (ink - base) * coverage < 255 * (m - base + 1)
            &&& ink <= base ==> 255 * (base - m) <= (base - ink) * coverage < 255 * (base - m + 1)
        }),
{
    let up = (ink - base) * coverage;
    let down = (base - ink) * coverage;
    assert(up == -down) by (nonlinear_arith)
        requires
            up == (ink - base) * coverage,
            down == (base - ink) * coverage,
    ;
    assert(ink >= base ==> up >= 0) by (nonlinear_arith)
        requires
            up == (ink - base) * coverage,
            coverage >= 0,
    ;
    assert(ink <= base ==> down >= 0) by (nonlinear_arith)
        requires
            down == (base - ink) * coverage,
            coverage >= 0,
    ;
    assert(ink == base ==> up == 0) by (nonlinear_arith)
        requires
            up == (ink - base) * coverage,
    ;
    assert(255 * (up / 255) <= up < 255 * (up / 255) + 255);
    assert(255 * (down / 255) <= down < 255 * (down / 255) + 255);
}

/// The red, green and blue of a blend are each the blend of that channel.
pub proof fn law_channels_blend_by_themselves(fill: u32, glyph: u32, coverage: u8)
    ensures
        ({
            let m = glyphs::composite(fill, glyph, coverage);
            &&& m / 65536 == glyphs::mixed(
                fill as int / 65536 % 256,
                glyph as int / 65536 % 256,
                coverage,
            )
            &&& m / 256 % 256 == glyphs::mixed(
                fill as int / 256 % 256,
                glyph as int / 256 % 256,
                coverage,
            )
            &&& m % 256 == glyphs::mixed(fill as int % 256, glyph as int % 256, coverage)
        }),
{
    glyphs::law_mixing_is_exact_at_both_ends(
        fill as int / 65536 % 256,
        glyph as int / 65536 % 256,
        coverage,
    );
    glyphs::law_mixing_is_exact_at_both_ends(
        fill as int / 256 % 256,
        glyph as int / 256 % 256,
        coverage,
    );
    glyphs::law_mixing_is_exact_at_both_ends(fill as int % 256, glyph as int % 256, coverage);
    let red = glyphs::mixed(fill as int / 65536 % 256, glyph as int / 65536 % 256, coverage);
    let green = glyphs::mixed(fill as int / 256 % 256, glyph as int / 256 % 256, coverage);
    let blue = glyphs::mixed(fill as int % 256, glyph as int % 256, coverage);
    lemma_three_channels(red, green, blue);
    lemma_channel_bytes(fill);
    lemma_channel_bytes(glyph);
    assert(glyphs::composite(fill, glyph, coverage) == red * 65536 + green * 256 + blue);
}

proof fn lemma_channel_bytes(color: u32)
    ensures
        glyphs::channel(color, 2) == color as int / 65536 % 256,
        glyphs::channel(color, 1) == color as int / 256 % 256,
        glyphs::channel(color, 0) == color as int % 256,
{
}

proof fn lemma_three_channels(red: int, green: int, blue: int)
    requires
        0 <= red < 256,
        0 <= green < 256,
        0 <= blue < 256,
    ensures
        (red * 65536 + green * 256 + blue) / 65536 == red,
        (red * 65536 + green * 256 + blue) / 256 % 256 == green,
        (red * 65536 + green * 256 + blue) % 256 == blue,
{
}

/// The pen moves by the advance of each glyph: a run in two parts moves it by
/// both.
pub proof fn law_advances_add_up(first: Seq<Arc<Glyph>>, second: Seq<Arc<Glyph>>, glyph: Arc<Glyph>)
    ensures
        glyphs::advance_of(Seq::empty()) == 0,
        glyphs::advance_of(seq![glyph]) == glyph.advance,
        glyphs::advance_of(first + second) == glyphs::advance_of(first) + glyphs::advance_of(
            second,
        ),
    decreases second.len(),
{
    reveal_with_fuel(glyphs::advance_of, 2);
    assert(seq![glyph].drop_last() =~= Seq::empty());
    if second.len() == 0 {
        assert(first + second =~= first);
    } else {
        law_advances_add_up(first, second.drop_last(), glyph);
        assert((first + second).drop_last() =~= first + second.drop_last());
    }
}

/// A width is cut off below 0 and above 65535.
pub proof fn law_widths_are_cut_off(n: int)
    ensures
        n <= 0 ==> glyphs::clamped(n) == 0,
        0 <= n <= 65535 ==> glyphs::clamped(n) == n,
        n >= 65535 ==> glyphs::clamped(n) == 65535,
{
}

/// A glyph's bitmap stands to the right of the pen by its bearing, with its
/// bottom edge above the baseline by its other bearing; there it gives its own
/// coverage, row by row from the top.
pub proof fn law_glyph_stands_at_the_pen(glyph: Glyph, pen: int, ascent: int, col: int, row: int)
    requires
        0 <= col < glyph.width,
        0 <= row < glyph.height,
        row * glyph.width + col < glyph.coverage@.len(),
    ensures
        glyphs::glyph_ink(
            glyph,
            pen,
            ascent,
            pen + glyph.xmin + col,
            ascent - glyph.ymin - glyph.height + row,
        ) == glyph.coverage@[row * glyph.width + col],
{
}

/// Outside its bitmap a glyph gives no coverage.
pub proof fn law_glyph_covers_nothing_else(glyph: Glyph, pen: int, ascent: int, x: int, y: int)
    requires
        x < pen + glyph.xmin || x >= pen + glyph.xmin + glyph.width || y < ascent - glyph.ymin
            - glyph.height || y >= ascent - glyph.ymin,
    ensures
        glyphs::glyph_ink(glyph, pen, ascent, x, y) == 0,
{
}

/// A pixel has the largest coverage that one of the glyphs gives it, each at
/// the pen position that the glyphs before it lead to.
pub proof fn law_strongest_glyph_counts(run: Seq<Arc<Glyph>>, ascent: int, x: int, y: int)
    ensures
        forall|i: int|
            0 <= i < run.len() ==> #[trigger] glyph_share(run, ascent, x, y, i) <= glyphs::ink(
                run,
                ascent,
                x,
                y,
            ),
        glyphs::ink(run, ascent, x, y) == 0 || exists|i: int|
            0 <= i < run.len() && #[trigger] glyph_share(run, ascent, x, y, i) == glyphs::ink(
                run,
                ascent,
                x,
                y,
            ),
    decreases run.len(),
{
    if run.len() > 0 {
        let front = run.drop_last();
        let last = run.len() - 1;
        law_strongest_glyph_counts(front, ascent, x, y);
        assert(run.take(last) =~= front);
        assert forall|i: int| 0 <= i < last implies glyph_share(run, ascent, x, y, i)
            == #[trigger] glyph_share(front, ascent, x, y, i) by {
            assert(run.take(i) =~= front.take(i));
        }
        assert forall|i: int| 0 <= i < run.len() implies #[trigger] glyph_share(
            run,
            ascent,
            x,
            y,
            i,
        ) <= glyphs::ink(run, ascent, x, y) by {
            if i < last {
                assert(glyph_share(front, ascent, x, y, i) <= glyphs::ink(front, ascent, x, y));
            }
        }
        let before = glyphs::ink(front, ascent, x, y);
        if glyph_share(run, ascent, x, y, last) > before {
            assert(glyph_share(run, ascent, x, y, last) == glyphs::ink(run, ascent, x, y));
        } else if before != 0 {
            let i = choose|i: int|
                0 <= i < front.len() && #[trigger] glyph_share(front, ascent, x, y, i) == before;
            assert(glyph_share(run, ascent, x, y, i) == before);
        }
    }
}

/// The coverage that the `i`-th glyph of a run gives to a pixel.
pub open spec fn glyph_share(run: Seq<Arc<Glyph>>, ascent: int, x: int, y: int, i: int) -> u8 {
    glyphs::glyph_ink(*run[i], glyphs::advance_of(run.take(i)), ascent, x, y)
}

/// An image holds its pixels row by row, each pixel the blend of the two
/// colours by its coverage; what pads a row is zero.
pub proof fn law_image_holds_the_pixels(
    run: Seq<Arc<Glyph>>,
    ascent: int,
    fill: u32,
    color: u32,
    width: u16,
    height: u16,
    format: PixmapFormat,
    x: int,
    y: int,
    b: int,
)
    requires
        format.valid(),
        0 <= y < height,
        0 <= b,
    ensures
        ({
            let image = glyphs::packed_image(run, ascent, fill, color, width, height, format);
            let stride = format.row_bytes(width);
            &&& image.len() == height * stride
            &&& 0 <= x < width && b < format.pixel_bytes() ==> {
                let pixel = glyphs::composite(fill, color, glyphs::ink(run, ascent, x, y)) as u32;
                image[y * stride + x * format.pixel_bytes() + b] == format.packed_byte(pixel, b)
            }
            &&& width * format.pixel_bytes() <= b < stride ==> image[y * stride + b] == 0
        }),
{
    let image = glyphs::packed_image(run, ascent, fill, color, width, height, format);
    let stride = format.row_bytes(width);
    let bytes = format.pixel_bytes();
    glyphs::law_rows_are_padded(format, width);
    assert(width * bytes >= 0) by (nonlinear_arith)
        requires
            bytes >= 0,
            width >= 0,
    ;
    assert(stride >= width * bytes);
    assert(height * stride >= 0) by (nonlinear_arith)
        requires
            stride >= 0,
            height >= 0,
    ;
    assert(y * stride + stride <= height * stride) by (nonlinear_arith)
        requires
            y < height,
            stride >= 0,
    ;
    assert(y * stride >= 0) by (nonlinear_arith)
        requires
            y >= 0,
            stride >= 0,
    ;
    if 0 <= x < width && b < bytes {
        let r = x * bytes + b;
        assert(0 <= x * bytes && x * bytes + bytes <= width * bytes) by (nonlinear_arith)
            requires
                0 <= x < width,
                bytes >= 0,
        ;
        lemma_fundamental_div_mod_converse(y * stride + r, stride, y, r);
        lemma_fundamental_div_mod_converse(r, bytes, x, b);
        assert(image[y * stride + r] == glyphs::row_byte(
            run,
            ascent,
            fill,
            color,
            width,
            format,
            y,
            r,
        ));
    }
    if width * bytes <= b < stride {
        lemma_fundamental_div_mod_converse(y * stride + b, stride, y, b);
        assert(image[y * stride + b] == glyphs::row_byte(
            run,
            ascent,
            fill,
            color,
            width,
            format,
            y,
            b,
        ));
    }
}

} // verus!
