use std::sync::Arc;

use tessera::glyphs::{blend, Glyph, GlyphCache, PixmapFormat};

fn lsb_32() -> PixmapFormat {
    match PixmapFormat::new(24, 32, 32, true) {
        Some(format) => format,
        None => unreachable!("24/32/32 LSB is a packable layout"),
    }
}

/// A glyph whose bitmap fills its cell, sitting on the baseline.
fn block(width: usize, height: usize, coverage: u8) -> Glyph {
    Glyph {
        width,
        height,
        advance: width as i32,
        xmin: 0,
        ymin: 0,
        coverage: vec![coverage; width * height],
    }
}

/// Digits as solid blocks, three pixels wide and five high, in a line box of
/// six above and two below the baseline.
fn digits() -> GlyphCache {
    let mut cache = GlyphCache::new(6, 2);
    for ch in ['1', '2', '3'] {
        cache.rasterized(ch, block(3, 5, 255));
    }
    cache
}

#[test]
fn rasterising_the_same_char_twice_reuses_the_cached_glyph() {
    let mut cache = digits();
    let first = cache.glyph('1').unwrap();
    let second = cache.rasterized('1', block(9, 9, 1));
    assert!(
        Arc::ptr_eq(&first, &second),
        "a cache hit must hand back the SAME rasterisation, not a new one"
    );
    assert!(
        !Arc::ptr_eq(&first, &cache.glyph('2').unwrap()),
        "a different char must rasterise into its own entry"
    );
}

#[test]
fn blend_is_exact_at_both_ends_of_the_coverage_ramp() {
    let (fill, ink) = (0x0022_2222, 0x00FF_8F40);
    assert_eq!(blend(fill, ink, 0), fill, "no coverage keeps the fill");
    assert_eq!(blend(fill, ink, 255), ink, "full coverage is pure ink");
    let half = blend(fill, ink, 128);
    assert!(half != fill && half != ink, "partial coverage mixes");
    for shift in [0, 8, 16] {
        let (a, b) = ((fill >> shift) & 0xFF, (ink >> shift) & 0xFF);
        let m = (half >> shift) & 0xFF;
        assert!(m >= a.min(b) && m <= a.max(b));
    }
    assert_eq!(blend(fill, ink, 200) >> 24, 0, "the high byte stays clear");
}

#[test]
fn blend_rounds_towards_the_fill() {
    assert_eq!(blend(0x0000_0000, 0x0000_00FF, 128), 0x0000_0080);
    assert_eq!(blend(0x0000_00FF, 0x0000_0000, 128), 0x0000_007F);
    assert_eq!(blend(0x0010_0000, 0x0011_0000, 128), 0x0010_0000);
    assert_eq!(blend(0xAB00_0000, 0xCD00_0000, 77), 0);
}

#[test]
fn stride_pads_every_scanline_to_the_servers_scanline_pad() {
    let Some(bpp24_pad32) = PixmapFormat::new(24, 24, 32, true) else {
        unreachable!("24/24/32 is packable")
    };
    assert_eq!(bpp24_pad32.stride(3), 12);
    assert_eq!(lsb_32().stride(3), 12);
    let Some(bpp24_pad8) = PixmapFormat::new(24, 24, 8, true) else {
        unreachable!("24/24/8 is packable")
    };
    assert_eq!(bpp24_pad8.stride(3), 9);
}

#[test]
fn an_unpackable_server_layout_has_no_pixmap_format() {
    assert_eq!(PixmapFormat::new(16, 16, 32, true), None);
    assert_eq!(PixmapFormat::new(8, 8, 32, true), None);
    assert!(PixmapFormat::new(32, 32, 32, false).is_some());
    assert_eq!(PixmapFormat::new(24, 32, 64, true), None);
}

#[test]
fn pixels_are_packed_in_the_servers_byte_order() {
    let cache = digits();
    let msb = match PixmapFormat::new(24, 32, 32, false) {
        Some(format) => format,
        None => unreachable!("24/32/32 MSB is a packable layout"),
    };
    let fill = 0x0011_2233;
    let lsb_image = cache.render_run("1", fill, fill, (1000, 1000), &lsb_32());
    let msb_image = cache.render_run("1", fill, fill, (1000, 1000), &msb);
    let (Some(lsb_image), Some(msb_image)) = (lsb_image, msb_image) else {
        unreachable!("a rendered '1' must produce an image")
    };
    assert_eq!(&lsb_image.data[0..4], &[0x33, 0x22, 0x11, 0x00]);
    assert_eq!(&msb_image.data[0..4], &[0x00, 0x11, 0x22, 0x33]);
    let packed = PixmapFormat::new(24, 24, 8, false).unwrap();
    let image = cache.render_run("1", fill, fill, (2, 1), &packed).unwrap();
    assert_eq!(image.data, vec![0x11, 0x22, 0x33, 0x11, 0x22, 0x33]);
}

#[test]
fn render_run_sizes_the_image_to_the_run_and_clips_it_to_the_drawable() {
    let cache = digits();
    let format = lsb_32();
    let Some(image) = cache.render_run("12", 0, 0x00FF_FFFF, (1000, 1000), &format) else {
        unreachable!("a rendered run must produce an image")
    };
    assert_eq!(image.width, cache.run_width("12"));
    assert_eq!(image.height, cache.line_height());
    assert_eq!(
        image.data.len(),
        format.stride(image.width) * image.height as usize
    );
    let Some(clipped) = cache.render_run("12", 0, 0x00FF_FFFF, (4, 3), &format) else {
        unreachable!("a clipped run still produces an image")
    };
    assert_eq!((clipped.width, clipped.height), (4, 3));
    assert_eq!(cache.render_run("12", 0, 0, (0, 10), &format), None);
    assert_eq!(cache.render_run("", 0, 0, (100, 100), &format), None);
}

#[test]
fn glyphs_stand_on_the_baseline() {
    let cache = digits();
    let image = cache
        .render_run("1", 0x0000_0000, 0x0000_0001, (100, 100), &lsb_32())
        .unwrap();
    let inked: Vec<bool> = (0..8).map(|y| image.data[y * 12] == 1).collect();
    assert_eq!(
        inked,
        vec![false, true, true, true, true, true, false, false]
    );
}

#[test]
fn overlapping_glyphs_keep_the_largest_coverage() {
    let mut cache = GlyphCache::new(1, 0);
    let mut wide = block(2, 1, 100);
    wide.advance = 1;
    cache.rasterized('a', wide);
    cache.rasterized('b', block(1, 1, 40));
    let image = cache
        .render_run("ab", 0x0000_0000, 0x0000_00FF, (10, 10), &lsb_32())
        .unwrap();
    assert_eq!(image.width, 2);
    assert_eq!((image.data[0], image.data[4]), (100, 100));
}

#[test]
fn padding_bytes_are_zero() {
    let mut cache = GlyphCache::new(1, 0);
    cache.rasterized('a', block(1, 1, 255));
    let format = PixmapFormat::new(24, 24, 32, true).unwrap();
    let image = cache
        .render_run("a", 0, 0x00AA_BBCC, (10, 10), &format)
        .unwrap();
    assert_eq!(image.data, vec![0xCC, 0xBB, 0xAA, 0x00]);
}

#[test]
fn run_width_adds_the_advances_and_saturates() {
    let mut cache = digits();
    assert_eq!(cache.run_width("123"), 9);
    assert_eq!(cache.run_width(""), 0);
    let mut huge = block(0, 0, 0);
    huge.advance = i32::MAX;
    cache.rasterized('h', huge);
    assert_eq!(cache.run_width("hh"), u16::MAX);
    let mut back = block(0, 0, 0);
    back.advance = -5;
    cache.rasterized('x', back);
    assert_eq!(cache.run_width("x"), 0);
}

#[test]
fn missing_names_the_first_char_that_was_not_rasterised() {
    let cache = digits();
    assert_eq!(cache.missing("123"), None);
    assert_eq!(cache.missing("1a2b"), Some('a'));
    assert!(cache.glyph('a').is_none());
}

#[test]
fn a_line_box_is_at_least_one_pixel_high() {
    assert_eq!(GlyphCache::new(0, 0).line_height(), 1);
    assert_eq!(GlyphCache::new(70000, 1).line_height(), 65535);
    assert_eq!(GlyphCache::new(9, 3).line_height(), 12);
}
