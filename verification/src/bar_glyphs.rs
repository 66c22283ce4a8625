//! The bar's tags in a rasterised font: slots as wide as their glyph runs, and
//! for each slot an image composited against the fill under it.
use vstd::prelude::*;
use crate::bar_laws;
use crate::bar_renderer;
use crate::bar_renderer::BarRenderer;
use crate::bus::WmState;
use crate::frames;
use crate::glyphs;
use crate::glyphs::{GlyphCache, GlyphImage, PixmapFormat};
use crate::request::XRequest;

verus! {

/// An image and where its top left corner goes.
#[derive(Debug, PartialEq, Eq)]
pub struct PlacedImage {
    pub x: i16,
    pub y: i16,
    pub image: GlyphImage,
}

/// One tag: its slot, the colour that fills it, and the image on top.
#[derive(Debug, PartialEq, Eq)]
pub struct GlyphTag {
    pub x: i16,
    pub width: u16,
    pub fill: u32,
    pub image: Option<PlacedImage>,
}

/// The advance width of the `i`-th tag's name.
pub open spec fn name_width(cache: GlyphCache, state: WmState, i: int) -> u16 {
    glyphs::clamped(glyphs::advance_of(cache.run(state.workspaces@[i].name@)))
}

/// The width of the `i`-th tag's slot: its name, and on the focused tag some
/// padding for every glyph.
pub open spec fn glyph_slot(cache: GlyphCache, state: WmState, i: int) -> int {
    name_width(cache, state, i) + if i == bar_renderer::focused_tag(state) {
        bar_renderer::FOCUSED_EXTRA_PADDING * state.workspaces@[i].name@.len()
    } else {
        0
    }
}

/// Where the `i`-th tag's slot starts.
pub open spec fn glyph_start(cache: GlyphCache, state: WmState, i: int) -> int
    decreases i,
{
    if i <= 0 {
        0
    } else {
        glyph_start(cache, state, i - 1) + glyph_slot(cache, state, i - 1)
    }
}

/// Whether every name can be drawn and the whole strip has coordinates that
/// the protocol can express.
pub open spec fn drawable(cache: GlyphCache, state: WmState) -> bool {
    &&& forall|i: int|
        0 <= i < state.workspaces@.len() ==> cache.covers((#[trigger] state.workspaces@[i]).name@)
    &&& glyph_start(cache, state, state.workspaces@.len() as int) <= i16::MAX
}

/// The colours of the `i`-th tag, fill and ink: the bar's own on the focused
/// tag, swapped on every other one.
pub open spec fn tag_colors(renderer: BarRenderer, state: WmState, i: int) -> (u32, u32) {
    let fg = frames::packed(renderer.fg_color);
    let bg = frames::packed(renderer.bg_color);
    if i == bar_renderer::focused_tag(state) {
        (bg, fg)
    } else {
        (fg, bg)
    }
}

/// The height of the images: that of a line, as far as the bar reaches.
pub open spec fn image_height(renderer: BarRenderer, cache: GlyphCache) -> u16 {
    if cache.box_height() < renderer.geom.h {
        cache.box_height()
    } else {
        renderer.geom.h
    }
}

/// Whether `tag` paints the `i`-th workspace: its slot in its fill colour,
/// with the image of its name in the middle, where there is anything to see.
pub open spec fn paints(
    tag: GlyphTag,
    renderer: BarRenderer,
    cache: GlyphCache,
    format: PixmapFormat,
    state: WmState,
    i: int,
) -> bool {
    let (fill, color) = tag_colors(renderer, state, i);
    let width = name_width(cache, state, i);
    let height = image_height(renderer, cache);
    &&& tag.x == glyph_start(cache, state, i)
    &&& tag.width == glyph_slot(cache, state, i)
    &&& tag.fill == fill
    &&& match tag.image {
        None => width == 0 || height == 0,
        Some(placed) => {
            &&& width > 0
            &&& height > 0
            &&& placed.x == glyph_start(cache, state, i) + (glyph_slot(cache, state, i) - width) / 2
            &&& placed.y == (renderer.geom.h - height) / 2
            &&& placed.image.width == width
            &&& placed.image.height == height
            &&& placed.image.data@ == glyphs::packed_image(
                cache.run(state.workspaces@[i].name@),
                cache.baseline(),
                fill,
                color,
                width,
                height,
                format,
            )
        },
    }
}

proof fn lemma_slots_grow(cache: GlyphCache, state: WmState, i: int, j: int)
    requires
        0 <= i <= j,
    ensures
        0 <= glyph_start(cache, state, i) <= glyph_start(cache, state, j),
    decreases j,
{
    if i < j {
        lemma_slots_grow(cache, state, i, j - 1);
        assert(glyph_slot(cache, state, j - 1) >= 0);
    } else if i > 0 {
        lemma_slots_grow(cache, state, i - 1, i - 1);
        assert(glyph_slot(cache, state, i - 1) >= 0);
    }
}

/// The slots stand side by side, and every image lies inside its slot.
pub proof fn law_images_stay_in_their_slots(
    tag: GlyphTag,
    renderer: BarRenderer,
    cache: GlyphCache,
    format: PixmapFormat,
    state: WmState,
    i: int,
)
    requires
        0 <= i < state.workspaces@.len(),
        paints(tag, renderer, cache, format, state, i),
    ensures
        glyph_start(cache, state, i + 1) == tag.x + tag.width,
        tag.image matches Some(placed) ==> {
            &&& tag.x <= placed.x
            &&& placed.x + placed.image.width <= tag.x + tag.width
            &&& 0 <= placed.y
            &&& placed.y + placed.image.height <= renderer.geom.h
        },
{
}

/// The first character of the tags that is yet to be rasterised.
pub fn missing_glyph(state: &WmState, cache: &GlyphCache) -> (r: Option<char>)
    ensures
        match r {
            Some(ch) => !cache.glyphs().dom().contains(ch as u32) && exists|i: int|
                0 <= i < state.workspaces@.len() && (#[trigger] state.workspaces@[i]).name@.contains(
                    ch,
                ),
            None => forall|i: int|
                0 <= i < state.workspaces@.len() ==> cache.covers(
                    (#[trigger] state.workspaces@[i]).name@,
                ),
        },
{
    let mut i: usize = 0;
    while i < state.workspaces.len()
        invariant
            i <= state.workspaces@.len(),
            forall|k: int|
                0 <= k < i ==> cache.covers((#[trigger] state.workspaces@[k]).name@),
        decreases state.workspaces@.len() - i,
    {
        if let Some(ch) = cache.missing(state.workspaces[i].name.as_str()) {
            assert(state.workspaces@[i as int].name@.contains(ch));
            return Some(ch);
        }
        i = i + 1;
    }
    None
}

/// The tags of a snapshot in the rasterised font, left to right. `None` where
/// a glyph is missing or the strip is too wide for the protocol; nothing for
/// an invisible bar or an empty snapshot.
pub fn draw_glyphs(
    renderer: &BarRenderer,
    state: &WmState,
    cache: &GlyphCache,
    format: &PixmapFormat,
) -> (r: Option<Vec<GlyphTag>>)
    requires
        format.valid(),
    ensures
        if !renderer.visible || state.workspaces@.len() == 0 {
            r matches Some(tags) && tags@.len() == 0
        } else {
            match r {
                None => !drawable(*cache, *state),
                Some(tags) => {
                    &&& drawable(*cache, *state)
                    &&& tags@.len() == state.workspaces@.len()
                    &&& forall|i: int|
                        0 <= i < tags@.len() ==> paints(
                            #[trigger] tags@[i],
                            *renderer,
                            *cache,
                            *format,
                            *state,
                            i,
                        )
                },
            }
        },
{
    if !renderer.visible || state.workspaces.len() == 0 {
        return Some(Vec::new());
    }
    let focused: usize = bar_renderer::focused_tag_index(state);
    let ghost n = state.workspaces@.len() as int;
    let mut tags: Vec<GlyphTag> = Vec::new();
    let mut cursor: u64 = 0;
    let mut i: usize = 0;
    while i < state.workspaces.len()
        invariant
            i <= state.workspaces@.len(),
            n == state.workspaces@.len(),
            n > 0,
            renderer.visible,
            format.valid(),
            focused == bar_renderer::focused_tag(*state),
            cursor == glyph_start(*cache, *state, i as int),
            cursor <= i16::MAX,
            tags@.len() == i,
            forall|k: int|
                0 <= k < i ==> cache.covers((#[trigger] state.workspaces@[k]).name@),
            forall|k: int|
                0 <= k < i ==> paints(
                    #[trigger] tags@[k],
                    *renderer,
                    *cache,
                    *format,
                    *state,
                    k,
                ),
        decreases state.workspaces@.len() - i,
    {
        let name = state.workspaces[i].name.as_str();
        proof {
            lemma_slots_grow(*cache, *state, i + 1, n);
        }
        if cache.missing(name).is_some() {
            assert(!cache.covers(state.workspaces@[i as int].name@));
            return None;
        }
        let width: u16 = cache.run_width(name);
        let glyph_count: usize = name.unicode_len();
        if i == focused && glyph_count > 0x7fff {
            return None;
        }
        let slot: u64 = width as u64 + if i == focused {
            glyph_count as u64
        } else {
            0
        };
        assert(slot == glyph_slot(*cache, *state, i as int));
        if cursor + slot > 0x7fff {
            return None;
        }
        let tag = paint_tag(
            renderer,
            name,
            i == focused,
            cursor as i16,
            slot as u16,
            width,
            cache,
            format,
        );
        tags.push(tag);
        cursor = cursor + slot;
        i = i + 1;
    }
    Some(tags)
}

fn paint_tag(
    renderer: &BarRenderer,
    name: &str,
    is_focused: bool,
    start: i16,
    slot: u16,
    width: u16,
    cache: &GlyphCache,
    format: &PixmapFormat,
) -> (r: GlyphTag)
    requires
        format.valid(),
        cache.covers(name@),
        width == glyphs::clamped(glyphs::advance_of(cache.run(name@))),
        width <= slot,
        0 <= start,
        start + slot <= i16::MAX,
    ensures
        r.x == start,
        r.width == slot,
        ({
            let fg = frames::packed(renderer.fg_color);
            let bg = frames::packed(renderer.bg_color);
            let (fill, color) = if is_focused {
                (bg, fg)
            } else {
                (fg, bg)
            };
            let height = image_height(*renderer, *cache);
            &&& r.fill == fill
            &&& match r.image {
                None => width == 0 || height == 0,
                Some(placed) => {
                    &&& width > 0
                    &&& height > 0
                    &&& placed.x == start + (slot - width) / 2
                    &&& placed.y == (renderer.geom.h - height) / 2
                    &&& placed.image.width == width
                    &&& placed.image.height == height
                    &&& placed.image.data@ == glyphs::packed_image(
                        cache.run(name@),
                        cache.baseline(),
                        fill,
                        color,
                        width,
                        height,
                        *format,
                    )
                },
            }
        }),
{
    let fg: u32 = frames::pixel(renderer.fg_color);
    let bg: u32 = frames::pixel(renderer.bg_color);
    let (fill, color) = if is_focused {
        (bg, fg)
    } else {
        (fg, bg)
    };
    let image = match cache.render_run(name, fill, color, (slot, renderer.geom.h), format) {
        None => None,
        Some(image) => {
            let x: i16 = start + ((slot - width) / 2) as i16;
            let spare: u16 = renderer.geom.h - image.height;
            Some(PlacedImage { x, y: (spare / 2) as i16, image })
        },
    };
    GlyphTag { x: start, width: slot, fill, image }
}

/// The requests that paint one tag: its slot in its fill colour, then the
/// image on top.
pub open spec fn tag_requests(renderer: BarRenderer, tag: GlyphTag, depth: u8) -> Seq<XRequest> {
    let slot = seq![
        XRequest::ChangeGc { gc: renderer.gc, foreground: tag.fill, font: None },
        XRequest::FillRectangle {
            drawable: renderer.win,
            gc: renderer.gc,
            x: tag.x,
            y: 0,
            width: tag.width,
            height: renderer.geom.h,
        },
    ];
    match tag.image {
        None => slot,
        Some(placed) => slot.push(
            XRequest::Image {
                drawable: renderer.win,
                gc: renderer.gc,
                width: placed.image.width,
                height: placed.image.height,
                x: placed.x,
                y: placed.y,
                depth,
                data: placed.image.data,
            },
        ),
    }
}

/// The requests that paint the tags, left to right.
pub open spec fn strip_requests(
    renderer: BarRenderer,
    tags: Seq<GlyphTag>,
    depth: u8,
) -> Seq<XRequest>
    decreases tags.len(),
{
    if tags.len() == 0 {
        Seq::empty()
    } else {
        strip_requests(renderer, tags.drop_last(), depth) + tag_requests(
            renderer,
            tags.last(),
            depth,
        )
    }
}

/// The requests that put `tags` on a screen of the given depth. Without tags
/// there is nothing to ask for.
pub fn glyph_requests(renderer: &BarRenderer, tags: Vec<GlyphTag>, depth: u8) -> (r: Vec<XRequest>)
    ensures
        r@ == if tags@.len() == 0 {
            Seq::<XRequest>::empty()
        } else {
            strip_requests(*renderer, tags@, depth).push(XRequest::Flush)
        },
{
    let ghost all = tags@;
    let mut out: Vec<XRequest> = Vec::new();
    if tags.len() == 0 {
        return out;
    }
    let mut tags = tags;
    let ghost mut k: int = 0;
    while tags.len() > 0
        invariant
            0 <= k <= all.len(),
            tags@ == all.skip(k),
            out@ == strip_requests(*renderer, all.take(k), depth),
        decreases tags@.len(),
    {
        let ghost before = out@;
        let tag = tags.remove(0);
        assert(tag == all[k]);
        out.push(XRequest::ChangeGc { gc: renderer.gc, foreground: tag.fill, font: None });
        out.push(
            XRequest::FillRectangle {
                drawable: renderer.win,
                gc: renderer.gc,
                x: tag.x,
                y: 0,
                width: tag.width,
                height: renderer.geom.h,
            },
        );
        if let Some(placed) = tag.image {
            out.push(
                XRequest::Image {
                    drawable: renderer.win,
                    gc: renderer.gc,
                    width: placed.image.width,
                    height: placed.image.height,
                    x: placed.x,
                    y: placed.y,
                    depth,
                    data: placed.image.data,
                },
            );
        }
        proof {
            assert(out@ =~= before + tag_requests(*renderer, all[k], depth));
            assert(all.take(k + 1).drop_last() =~= all.take(k));
            assert(all.skip(k).remove(0) =~= all.skip(k + 1));
            k = k + 1;
        }
    }
    assert(all.take(k) =~= all);
    out.push(XRequest::Flush);
    out
}

/// Slots stand side by side from the left end of the bar. A slot is as wide as
/// its name, and on the tag that is shown as focused one pixel wider for each
/// character.
pub proof fn law_slots_follow_the_names(cache: GlyphCache, state: WmState, i: int)
    requires
        0 <= i < state.workspaces@.len(),
    ensures
        ({
            let name = state.workspaces@[i].name@;
            let width = glyph_start(cache, state, i + 1) - glyph_start(cache, state, i);
            let bare = glyphs::clamped(glyphs::advance_of(cache.run(name))) as int;
            &&& glyph_start(cache, state, 0) == 0
            &&& bar_laws::shown_as_focused(state, i) ==> width == bare + name.len()
            &&& !bar_laws::shown_as_focused(state, i) ==> width == bare
        }),
{
    bar_laws::lemma_focused_tag(state, i);
}

/// A tag has the bar's own colours where it is shown as focused, and swapped
/// ones elsewhere. The image of its name stands in the middle of the slot, as
/// high as a line, or as the bar where that is lower.
pub proof fn law_tags_show_their_names(
    tag: GlyphTag,
    renderer: BarRenderer,
    cache: GlyphCache,
    format: PixmapFormat,
    state: WmState,
    i: int,
)
    requires
        0 <= i < state.workspaces@.len(),
        paints(tag, renderer, cache, format, state, i),
    ensures
        ({
            let focused = bar_laws::shown_as_focused(state, i);
            let fg = frames::packed(renderer.fg_color);
            let bg = frames::packed(renderer.bg_color);
            &&& tag.x == glyph_start(cache, state, i)
            &&& tag.x + tag.width == glyph_start(cache, state, i + 1)
            &&& focused ==> tag.fill == bg
            &&& !focused ==> tag.fill == fg
            &&& tag.image matches Some(placed) ==> {
                let shown = placed.image;
                let name = state.workspaces@[i].name@;
                &&& 0 <= (tag.width - shown.width) - 2 * (placed.x - tag.x) <= 1
                &&& 0 <= (renderer.geom.h - shown.height) - 2 * placed.y <= 1
                &&& shown.height <= renderer.geom.h
                &&& shown.height <= cache.box_height()
                &&& shown.height == renderer.geom.h || shown.height == cache.box_height()
                &&& shown.width == glyphs::clamped(glyphs::advance_of(cache.run(name)))
                &&& shown.data@ == glyphs::packed_image(
                    cache.run(name),
                    cache.baseline(),
                    if focused {
                        bg
                    } else {
                        fg
                    },
                    if focused {
                        fg
                    } else {
                        bg
                    },
                    shown.width,
                    shown.height,
                    format,
                )
            }
        }),
{
    bar_laws::lemma_focused_tag(state, i);
}

/// The glyphs of a text are those of its characters, in order.
pub proof fn law_run_follows_the_text(cache: GlyphCache, text: Seq<char>, i: int)
    requires
        0 <= i < text.len(),
    ensures
        cache.run(text).len() == text.len(),
        cache.run(text)[i] == cache.glyphs()[text[i] as u32],
{
}

/// A tag is painted by filling its slot in its colour over the whole height of
/// the bar, then putting its image, if it has one, where it belongs.
pub proof fn law_tags_are_filled_then_drawn(renderer: BarRenderer, tag: GlyphTag, depth: u8)
    ensures
        ({
            let asked = tag_requests(renderer, tag, depth);
            &&& asked[0] == (XRequest::ChangeGc {
                gc: renderer.gc,
                foreground: tag.fill,
                font: None,
            })
            &&& asked[1] == (XRequest::FillRectangle {
                drawable: renderer.win,
                gc: renderer.gc,
                x: tag.x,
                y: 0,
                width: tag.width,
                height: renderer.geom.h,
            })
            &&& tag.image is None ==> asked.len() == 2
            &&& tag.image matches Some(placed) ==> asked.len() == 3 && asked[2]
                == (XRequest::Image {
                drawable: renderer.win,
                gc: renderer.gc,
                width: placed.image.width,
                height: placed.image.height,
                x: placed.x,
                y: placed.y,
                depth,
                data: placed.image.data,
            })
        }),
{
}

/// Tags are painted one after the other: a strip in two parts is painted part
/// by part.
pub proof fn law_tags_are_painted_in_order(
    renderer: BarRenderer,
    first: Seq<GlyphTag>,
    tag: GlyphTag,
    depth: u8,
)
    ensures
        strip_requests(renderer, Seq::empty(), depth) == Seq::<XRequest>::empty(),
        strip_requests(renderer, first.push(tag), depth) == strip_requests(renderer, first, depth)
            + tag_requests(renderer, tag, depth),
{
    assert(first.push(tag).drop_last() =~= first);
}

} // verus!
