use vstd::prelude::*;
use crate::sheet::{SheetRect, SheetFrame, Spritesheet};
use crate::sprite_animation::FrameTag;

verus! {

// ------------------------------------------------------------ frame pairs

/// The first frame tag of a wearable sheet with the given name.
pub open spec fn matching_tag(tags: Seq<FrameTag>, name: Seq<char>) -> Option<int>
    decreases tags.len(),
{
    if tags.len() == 0 {
        None
    } else if tags[0].name@ == name {
        Some(0)
    } else {
        match matching_tag(tags.drop_first(), name) {
            Some(i) => Some(i + 1),
            None => None,
        }
    }
}

/// The index of the first frame tag named `name`.
pub fn find_matching_tag(tags: &Vec<FrameTag>, name: &String) -> (r: Option<usize>)
    ensures
        r matches Some(i) ==> i < tags@.len(),
        match matching_tag(tags@, name@) {
            Some(i) => r matches Some(j) && j as int == i,
            None => r is None,
        },
{
    let mut k: usize = 0;
    proof {
        assert(tags@.subrange(0, tags@.len() as int) =~= tags@);
    }
    while k < tags.len()
        invariant
            k <= tags@.len(),
            matching_tag(tags@, name@) == (match matching_tag(tags@.subrange(k as int, tags@.len() as int), name@) {
                Some(i) => Some(i + k),
                None => None,
            }),
        decreases tags@.len() - k,
    {
        proof {
            assert(tags@.subrange(k as int, tags@.len() as int).drop_first() =~= tags@.subrange(k + 1, tags@.len() as int));
        }
        if tags[k].name == *name {
            return Some(k);
        }
        k = k + 1;
    }
    None
}

/// The number of frames a base tag and a wearable tag draw together:
/// that of the shorter run.
pub open spec fn pair_count(base: FrameTag, wearable: FrameTag) -> int {
    if base.from <= base.to && wearable.from <= wearable.to {
        let a = base.to - base.from;
        let b = wearable.to - wearable.from;
        (if a < b { a } else { b }) + 1
    } else {
        0
    }
}

/// The frames of a base tag and of a wearable tag drawn together: the
/// frames of both runs, one after the other, until either run ends.
pub open spec fn frame_pairs_of(base: FrameTag, wearable: FrameTag) -> Seq<(usize, usize)> {
    Seq::new(pair_count(base, wearable) as nat, |k: int| ((base.from + k) as usize, (wearable.from + k) as usize))
}

/// The pairs of frames, of the base sheet and of the wearable sheet, that
/// a matching tag draws together.
pub fn frame_pairs(base: &FrameTag, wearable: &FrameTag) -> (pairs: Vec<(usize, usize)>)
    ensures
        pairs@ == frame_pairs_of(*base, *wearable),
{
    let mut pairs: Vec<(usize, usize)> = Vec::new();
    let mut b: u64 = base.from as u64;
    let mut w: u64 = wearable.from as u64;
    let ghost n = pair_count(*base, *wearable);
    while b <= base.to as u64 && w <= wearable.to as u64
        invariant
            b - base.from == w - wearable.from,
            base.from <= b,
            wearable.from <= w,
            b <= u32::MAX + 1,
            w <= u32::MAX + 1,
            n == pair_count(*base, *wearable),
            n == frame_pairs_of(*base, *wearable).len(),
            pairs@ == frame_pairs_of(*base, *wearable).subrange(0, b - base.from),
            b - base.from <= n,
            (b <= base.to && w <= wearable.to) ==> b - base.from < n,
            !(b <= base.to && w <= wearable.to) ==> b - base.from == n,
        decreases base.to + 1 - b,
    {
        pairs.push((b as usize, w as usize));
        proof {
            assert(pairs@ =~= frame_pairs_of(*base, *wearable).subrange(0, b + 1 - base.from));
        }
        b = b + 1;
        w = w + 1;
    }
    proof {
        assert(frame_pairs_of(*base, *wearable).subrange(0, n as int) =~= frame_pairs_of(*base, *wearable));
    }
    pairs
}

// ------------------------------------------------------------ pixels

/// An RGBA image: four bytes a pixel, row by row.
#[derive(Debug)]
pub struct PixelImage {
    pub width: u32,
    pub height: u32,
    pub data: Vec<u8>,
}

/// The index of the first byte of pixel `(x, y)` of an image `w` pixels
/// wide.
pub open spec fn pixel_at(w: int, x: int, y: int) -> int {
    4 * (y * w + x)
}

/// Whether an image holds four bytes for each of its pixels.
pub open spec fn image_ok(img: PixelImage) -> bool {
    img.data@.len() == 4 * (img.width as int * img.height as int)
}

/// Byte `c` of pixel `(x, y)` of image data.
pub open spec fn byte_at(data: Seq<u8>, w: int, x: int, y: int, c: int) -> u8 {
    data[pixel_at(w, x, y) + c]
}

proof fn lemma_pixel_in_bounds(w: int, h: int, x: int, y: int)
    requires
        0 <= x < w,
        0 <= y < h,
    ensures
        0 <= pixel_at(w, x, y),
        pixel_at(w, x, y) + 4 <= 4 * (w * h),
{
    assert(y * w + x < (y + 1) * w) by (nonlinear_arith) requires x < w;
    assert((y + 1) * w <= h * w) by (nonlinear_arith) requires y + 1 <= h, 0 <= w;
    assert(0 <= y * w) by (nonlinear_arith) requires 0 <= y, 0 <= w;
    assert(h * w == w * h) by (nonlinear_arith);
}

proof fn lemma_pixels_apart(w: int, x0: int, y0: int, x1: int, y1: int)
    requires
        0 <= x0 < w,
        0 <= x1 < w,
        0 <= y0,
        0 <= y1,
        x0 != x1 || y0 != y1,
    ensures
        pixel_at(w, x0, y0) + 4 <= pixel_at(w, x1, y1) || pixel_at(w, x1, y1) + 4 <= pixel_at(w, x0, y0),
{
    if y0 < y1 {
        assert(y0 * w + x0 < y1 * w + x1) by (nonlinear_arith) requires y0 < y1, 0 <= x0 < w, 0 <= x1;
    } else if y1 < y0 {
        assert(y1 * w + x1 < y0 * w + x0) by (nonlinear_arith) requires y1 < y0, 0 <= x1 < w, 0 <= x0;
    }
}

/// Whether pixel `(x, y)` of the base lies in the overlaid area.
pub open spec fn in_overlay(base_rect: SheetRect, mw: int, mh: int, x: int, y: int) -> bool {
    base_rect.x <= x < base_rect.x + mw && base_rect.y <= y < base_rect.y + mh
}

/// The pixel of the wearable drawn over base pixel `(x, y)`.
pub open spec fn source_x(base_rect: SheetRect, wearable_rect: SheetRect, x: int) -> int {
    x - base_rect.x + wearable_rect.x
}

pub open spec fn source_y(base_rect: SheetRect, wearable_rect: SheetRect, y: int) -> int {
    y - base_rect.y + wearable_rect.y
}

/// Byte `c` of base pixel `(x, y)` once the wearable frame is drawn
/// over the base frame: the wearable's pixel where it is not fully
/// transparent, the base's elsewhere.
pub open spec fn overlay_byte(
    base: Seq<u8>,
    bw: int,
    wearable: Seq<u8>,
    ww: int,
    base_rect: SheetRect,
    wearable_rect: SheetRect,
    mw: int,
    mh: int,
    x: int,
    y: int,
    c: int,
) -> u8 {
    let sx = source_x(base_rect, wearable_rect, x);
    let sy = source_y(base_rect, wearable_rect, y);
    if in_overlay(base_rect, mw, mh, x, y) && byte_at(wearable, ww, sx, sy, 3) > 0 {
        byte_at(wearable, ww, sx, sy, c)
    } else {
        byte_at(base, bw, x, y, c)
    }
}

/// The width and height drawn of two frames: the smaller of each.
pub open spec fn overlay_size(base_rect: SheetRect, wearable_rect: SheetRect) -> (int, int) {
    (
        if base_rect.w < wearable_rect.w { base_rect.w as int } else { wearable_rect.w as int },
        if base_rect.h < wearable_rect.h { base_rect.h as int } else { wearable_rect.h as int },
    )
}

/// The image data once the wearable frame `wearable_rect` is drawn over
/// the base frame `base_rect`, byte by byte.
pub open spec fn overlay_image(base: Seq<u8>, bw: int, wearable: Seq<u8>, ww: int, base_rect: SheetRect, wearable_rect: SheetRect)
    -> Seq<u8>
{
    let (mw, mh) = overlay_size(base_rect, wearable_rect);
    Seq::new(base.len(), |k: int| overlay_byte(base, bw, wearable, ww, base_rect, wearable_rect, mw, mh,
        (k / 4) % bw, (k / 4) / bw, k % 4))
}

proof fn lemma_byte_of_index(w: int, h: int, k: int)
    requires
        0 < w,
        0 <= h,
        0 <= k < 4 * (w * h),
    ensures
        0 <= (k / 4) % w < w,
        0 <= (k / 4) / w < h,
        0 <= k % 4 < 4,
        pixel_at(w, (k / 4) % w, (k / 4) / w) + k % 4 == k,
{
    let p = k / 4;
    vstd::arithmetic::div_mod::lemma_fundamental_div_mod(k, 4);
    vstd::arithmetic::div_mod::lemma_fundamental_div_mod(p, w);
    assert(p < w * h);
    assert(0 <= p / w) by {
        vstd::arithmetic::div_mod::lemma_div_pos_is_pos(p, w);
    }
    let q = p / w;
    assert(q < h) by (nonlinear_arith)
        requires
            p == w * q + p % w,
            0 <= p % w,
            p < w * h,
            0 < w;
    assert(w * (p / w) == (p / w) * w) by (nonlinear_arith);
}

/// Draws a frame of a wearable sheet over a frame of the base sheet,
/// pixel by pixel, leaving the base where the wearable is fully
/// transparent. The area drawn is the smaller of the two frames, and it
/// must lie inside both images.
pub fn overlay_frame(base: &mut PixelImage, wearable: &PixelImage, base_rect: SheetRect, wearable_rect: SheetRect)
    requires
        image_ok(*old(base)),
        image_ok(*wearable),
        ({
            let (mw, mh) = overlay_size(base_rect, wearable_rect);
            mw == 0 || mh == 0 || {
                &&& base_rect.x + mw <= old(base).width
                &&& base_rect.y + mh <= old(base).height
                &&& wearable_rect.x + mw <= wearable.width
                &&& wearable_rect.y + mh <= wearable.height
            }
        }),
    ensures
        final(base).width == old(base).width,
        final(base).height == old(base).height,
        final(base).data@.len() == old(base).data@.len(),
        final(base).data@ == overlay_image(old(base).data@, old(base).width as int, wearable.data@, wearable.width as int,
            base_rect, wearable_rect),
        forall|x: int, y: int, c: int| 0 <= x < old(base).width && 0 <= y < old(base).height && 0 <= c < 4
            ==> #[trigger] byte_at(final(base).data@, old(base).width as int, x, y, c) == overlay_byte(
                old(base).data@, old(base).width as int, wearable.data@, wearable.width as int, base_rect, wearable_rect,
                overlay_size(base_rect, wearable_rect).0, overlay_size(base_rect, wearable_rect).1, x, y, c),
{
    let mw: u32 = if base_rect.w < wearable_rect.w { base_rect.w } else { wearable_rect.w };
    let mh: u32 = if base_rect.h < wearable_rect.h { base_rect.h } else { wearable_rect.h };
    let ghost start = base.data@;
    let ghost bw = base.width as int;
    let ghost bh = base.height as int;
    let ghost ww = wearable.width as int;
    let ghost done = |xi: int, yi: int, x: int, y: int|
        (0 <= x - base_rect.x < xi && 0 <= y - base_rect.y < mh) || (x - base_rect.x == xi && 0 <= y - base_rect.y < yi);
    let mut xi: u32 = 0;
    while xi < mw
        invariant
            xi <= mw,
            mw == overlay_size(base_rect, wearable_rect).0,
            mh == overlay_size(base_rect, wearable_rect).1,
            image_ok(*base),
            image_ok(*wearable),
            base.width == bw,
            base.height == bh,
            bw == old(base).width,
            bh == old(base).height,
            ww == wearable.width,
            start == old(base).data@,
            done == (|xi: int, yi: int, x: int, y: int|
                (0 <= x - base_rect.x < xi && 0 <= y - base_rect.y < mh) || (x - base_rect.x == xi && 0 <= y - base_rect.y < yi)),
            mw == 0 || mh == 0 || {
                &&& base_rect.x + mw <= bw
                &&& base_rect.y + mh <= bh
                &&& wearable_rect.x + mw <= ww
                &&& wearable_rect.y + mh <= wearable.height
            },
            forall|x: int, y: int, c: int| 0 <= x < bw && 0 <= y < bh && 0 <= c < 4
                ==> #[trigger] byte_at(base.data@, bw, x, y, c) == if done(xi as int, 0, x, y) {
                    overlay_byte(start, bw, wearable.data@, ww, base_rect, wearable_rect, mw as int, mh as int, x, y, c)
                } else {
                    byte_at(start, bw, x, y, c)
                },
        decreases mw - xi,
    {
        let mut yi: u32 = 0;
        while yi < mh
            invariant
                xi < mw,
                yi <= mh,
                mw == overlay_size(base_rect, wearable_rect).0,
                mh == overlay_size(base_rect, wearable_rect).1,
                image_ok(*base),
                image_ok(*wearable),
                base.width == bw,
                base.height == bh,
                ww == wearable.width,
                done == (|xi: int, yi: int, x: int, y: int|
                    (0 <= x - base_rect.x < xi && 0 <= y - base_rect.y < mh) || (x - base_rect.x == xi && 0 <= y - base_rect.y < yi)),
                mw == 0 || mh == 0 || {
                    &&& base_rect.x + mw <= bw
                    &&& base_rect.y + mh <= bh
                    &&& wearable_rect.x + mw <= ww
                    &&& wearable_rect.y + mh <= wearable.height
                },
                forall|x: int, y: int, c: int| 0 <= x < bw && 0 <= y < bh && 0 <= c < 4
                    ==> #[trigger] byte_at(base.data@, bw, x, y, c) == if done(xi as int, yi as int, x, y) {
                        overlay_byte(start, bw, wearable.data@, ww, base_rect, wearable_rect, mw as int, mh as int, x, y, c)
                    } else {
                        byte_at(start, bw, x, y, c)
                    },
            decreases mh - yi,
        {
            let sx: u32 = wearable_rect.x + xi;
            let sy: u32 = wearable_rect.y + yi;
            let dx: u32 = base_rect.x + xi;
            let dy: u32 = base_rect.y + yi;
            let wlen = wearable.data.len();
            let blen = base.data.len();
            proof {
                lemma_pixel_in_bounds(ww, wearable.height as int, sx as int, sy as int);
                lemma_pixel_in_bounds(bw, bh, dx as int, dy as int);
                assert(0 <= sy * ww <= sy * ww + sx) by (nonlinear_arith) requires 0 <= sy, 0 <= ww, 0 <= sx;
                assert(0 <= dy * bw <= dy * bw + dx) by (nonlinear_arith) requires 0 <= dy, 0 <= bw, 0 <= dx;
            }
            let s: usize = ((sy as usize) * (wearable.width as usize) + sx as usize) * 4;
            let d: usize = ((dy as usize) * (base.width as usize) + dx as usize) * 4;
            assert(s as int == pixel_at(ww, sx as int, sy as int));
            assert(d as int == pixel_at(bw, dx as int, dy as int));
            let alpha = wearable.data[s + 3];
            let ghost prev = base.data@;
            if alpha > 0 {
                let r = wearable.data[s];
                let g = wearable.data[s + 1];
                let b = wearable.data[s + 2];
                base.data.set(d, r);
                base.data.set(d + 1, g);
                base.data.set(d + 2, b);
                base.data.set(d + 3, alpha);
            }
            proof {
                assert forall|x: int, y: int, c: int| 0 <= x < bw && 0 <= y < bh && 0 <= c < 4
                    implies #[trigger] byte_at(base.data@, bw, x, y, c) == if done(xi as int, yi + 1, x, y) {
                        overlay_byte(start, bw, wearable.data@, ww, base_rect, wearable_rect, mw as int, mh as int, x, y, c)
                    } else {
                        byte_at(start, bw, x, y, c)
                    } by {
                    let _ = byte_at(prev, bw, x, y, c);
                    if x != dx || y != dy {
                        lemma_pixel_in_bounds(bw, bh, x, y);
                        lemma_pixels_apart(bw, x, y, dx as int, dy as int);
                        assert(base.data@[pixel_at(bw, x, y) + c] == prev[pixel_at(bw, x, y) + c]);
                    } else {
                        assert(in_overlay(base_rect, mw as int, mh as int, x, y));
                        assert(byte_at(wearable.data@, ww, sx as int, sy as int, 3) == alpha);
                    }
                }
            }
            yi = yi + 1;
        }
        proof {
            assert forall|x: int, y: int, c: int| 0 <= x < bw && 0 <= y < bh && 0 <= c < 4
                implies #[trigger] byte_at(base.data@, bw, x, y, c) == if done(xi + 1, 0, x, y) {
                    overlay_byte(start, bw, wearable.data@, ww, base_rect, wearable_rect, mw as int, mh as int, x, y, c)
                } else {
                    byte_at(start, bw, x, y, c)
                } by {
                assert(done(xi as int, mh as int, x, y) == done(xi + 1, 0, x, y));
            }
        }
        xi = xi + 1;
    }
    proof {
        assert forall|x: int, y: int, c: int| 0 <= x < bw && 0 <= y < bh && 0 <= c < 4
            implies #[trigger] byte_at(base.data@, bw, x, y, c) == overlay_byte(
                start, bw, wearable.data@, ww, base_rect, wearable_rect, mw as int, mh as int, x, y, c) by {
            if !done(xi as int, 0, x, y) {
                assert(!in_overlay(base_rect, mw as int, mh as int, x, y));
            }
        }
        let flat = overlay_image(start, bw, wearable.data@, ww, base_rect, wearable_rect);
        assert forall|k: int| 0 <= k < base.data@.len() implies base.data@[k] == flat[k] by {
            if bw > 0 {
                lemma_byte_of_index(bw, bh, k);
                let x = (k / 4) % bw;
                let y = (k / 4) / bw;
                let c = k % 4;
                assert(byte_at(base.data@, bw, x, y, c) == base.data@[k]);
            } else {
                assert(base.data@.len() == 0) by {
                    assert(4 * (bw * bh) == 0) by (nonlinear_arith) requires bw == 0;
                }
            }
        }
        assert(base.data@ =~= flat);
    }
}

// ------------------------------------------------------------ wearables

/// The frame tags of a sheet (none when it lists none).
pub open spec fn sheet_tags(sheet: Spritesheet) -> Seq<FrameTag> {
    match sheet.meta.frame_tags {
        Some(tags) => tags@,
        None => Seq::empty(),
    }
}

/// The frame rectangles of a sheet, in frame order.
pub open spec fn sheet_rects(sheet: Spritesheet) -> Seq<SheetRect> {
    sheet.frames@.map_values(|f: SheetFrame| f.frame)
}

/// The frame pairs a base tag draws: those of the first wearable tag of
/// the same name, if any.
pub open spec fn tag_pairs(base_tag: FrameTag, wearable_tags: Seq<FrameTag>) -> Seq<(usize, usize)> {
    match matching_tag(wearable_tags, base_tag.name@) {
        Some(i) => frame_pairs_of(base_tag, wearable_tags[i]),
        None => Seq::empty(),
    }
}

/// The frame pairs drawn for every base tag, in tag order.
pub open spec fn wearable_pairs(base_tags: Seq<FrameTag>, wearable_tags: Seq<FrameTag>) -> Seq<(usize, usize)>
    decreases base_tags.len(),
{
    if base_tags.len() == 0 {
        Seq::empty()
    } else {
        wearable_pairs(base_tags.drop_last(), wearable_tags) + tag_pairs(base_tags.last(), wearable_tags)
    }
}

/// The image data after drawing each pair of frames, in order.
pub open spec fn overlay_all(
    data: Seq<u8>,
    bw: int,
    wearable: Seq<u8>,
    ww: int,
    base_rects: Seq<SheetRect>,
    wearable_rects: Seq<SheetRect>,
    pairs: Seq<(usize, usize)>,
) -> Seq<u8>
    decreases pairs.len(),
{
    if pairs.len() == 0 {
        data
    } else {
        let before = overlay_all(data, bw, wearable, ww, base_rects, wearable_rects, pairs.drop_last());
        let p = pairs.last();
        overlay_image(before, bw, wearable, ww, base_rects[p.0 as int], wearable_rects[p.1 as int])
    }
}

/// Whether the area drawn for two frames lies inside both images.
pub open spec fn frames_fit(bw: int, bh: int, ww: int, wh: int, base_rect: SheetRect, wearable_rect: SheetRect) -> bool {
    let (mw, mh) = overlay_size(base_rect, wearable_rect);
    mw == 0 || mh == 0 || {
        &&& base_rect.x + mw <= bw
        &&& base_rect.y + mh <= bh
        &&& wearable_rect.x + mw <= ww
        &&& wearable_rect.y + mh <= wh
    }
}

/// Whether every frame pair names frames of both sheets whose drawn
/// area lies inside both images.
pub open spec fn pairs_fit(pairs: Seq<(usize, usize)>, base_rects: Seq<SheetRect>, wearable_rects: Seq<SheetRect>,
    bw: int, bh: int, ww: int, wh: int) -> bool
{
    forall|k: int| 0 <= k < pairs.len() ==> {
        let p = #[trigger] pairs[k];
        &&& p.0 < base_rects.len()
        &&& p.1 < wearable_rects.len()
        &&& frames_fit(bw, bh, ww, wh, base_rects[p.0 as int], wearable_rects[p.1 as int])
    }
}

/// The frame rectangles of a sheet.
fn rects_of(sheet: &Spritesheet) -> (rects: Vec<SheetRect>)
    ensures
        rects@ == sheet_rects(*sheet),
{
    let mut rects: Vec<SheetRect> = Vec::new();
    let mut i: usize = 0;
    while i < sheet.frames.len()
        invariant
            i <= sheet.frames@.len(),
            rects@ == sheet_rects(*sheet).subrange(0, i as int),
        decreases sheet.frames@.len() - i,
    {
        rects.push(sheet.frames[i].frame);
        proof {
            assert(rects@ =~= sheet_rects(*sheet).subrange(0, i + 1));
        }
        i = i + 1;
    }
    proof {
        assert(sheet_rects(*sheet).subrange(0, sheet.frames@.len() as int) =~= sheet_rects(*sheet));
    }
    rects
}

/// The frame pairs a wearable sheet draws over a base sheet.
pub fn frame_pairs_for(base_tags: &Vec<FrameTag>, wearable_tags: &Vec<FrameTag>) -> (pairs: Vec<(usize, usize)>)
    ensures
        pairs@ == wearable_pairs(base_tags@, wearable_tags@),
{
    let mut pairs: Vec<(usize, usize)> = Vec::new();
    let mut i: usize = 0;
    while i < base_tags.len()
        invariant
            i <= base_tags@.len(),
            pairs@ == wearable_pairs(base_tags@.subrange(0, i as int), wearable_tags@),
        decreases base_tags@.len() - i,
    {
        proof {
            assert(base_tags@.subrange(0, i + 1).drop_last() =~= base_tags@.subrange(0, i as int));
        }
        let ghost before = pairs@;
        match find_matching_tag(wearable_tags, &base_tags[i].name) {
            Some(j) => {
                let mut more = frame_pairs(&base_tags[i], &wearable_tags[j]);
                proof {
                    let t = base_tags@[i as int];
                    assert(matching_tag(wearable_tags@, t.name@) == Some(j as int));
                    assert(more@ == tag_pairs(t, wearable_tags@));
                }
                pairs.append(&mut more);
            },
            None => {
                proof {
                    assert(before + tag_pairs(base_tags@[i as int], wearable_tags@) =~= before);
                }
            },
        }
        proof {
            assert(base_tags@.subrange(0, i + 1).last() == base_tags@[i as int]);
            assert(pairs@ =~= before + tag_pairs(base_tags@[i as int], wearable_tags@));
        }
        i = i + 1;
    }
    proof {
        assert(base_tags@.subrange(0, base_tags@.len() as int) =~= base_tags@);
    }
    pairs
}

/// Whether the area drawn for two frames lies inside both images.
fn frames_fit_exec(bw: u32, bh: u32, ww: u32, wh: u32, base_rect: SheetRect, wearable_rect: SheetRect) -> (r: bool)
    ensures
        r == frames_fit(bw as int, bh as int, ww as int, wh as int, base_rect, wearable_rect),
{
    let mw: u64 = if base_rect.w < wearable_rect.w { base_rect.w as u64 } else { wearable_rect.w as u64 };
    let mh: u64 = if base_rect.h < wearable_rect.h { base_rect.h as u64 } else { wearable_rect.h as u64 };
    mw == 0 || mh == 0 || (base_rect.x as u64 + mw <= bw as u64 && base_rect.y as u64 + mh <= bh as u64
        && wearable_rect.x as u64 + mw <= ww as u64 && wearable_rect.y as u64 + mh <= wh as u64)
}

/// Whether a wearable can be drawn over the base: every frame pair names
/// frames of both sheets, and each area drawn lies inside both images.
pub fn wearable_fits(base: &PixelImage, base_sheet: &Spritesheet, wearable: &PixelImage, wearable_sheet: &Spritesheet)
    -> (r: bool)
    ensures
        r == pairs_fit(wearable_pairs(sheet_tags(*base_sheet), sheet_tags(*wearable_sheet)), sheet_rects(*base_sheet),
            sheet_rects(*wearable_sheet), base.width as int, base.height as int, wearable.width as int,
            wearable.height as int),
{
    let empty: Vec<FrameTag> = Vec::new();
    let base_tags = match &base_sheet.meta.frame_tags {
        Some(tags) => tags,
        None => &empty,
    };
    let wearable_tags = match &wearable_sheet.meta.frame_tags {
        Some(tags) => tags,
        None => &empty,
    };
    let pairs = frame_pairs_for(base_tags, wearable_tags);
    let base_rects = rects_of(base_sheet);
    let wearable_rects = rects_of(wearable_sheet);
    let ghost bw = base.width as int;
    let ghost bh = base.height as int;
    let ghost ww = wearable.width as int;
    let ghost wh = wearable.height as int;
    let mut k: usize = 0;
    while k < pairs.len()
        invariant
            k <= pairs@.len(),
            bw == base.width,
            bh == base.height,
            ww == wearable.width,
            wh == wearable.height,
            pairs@ == wearable_pairs(sheet_tags(*base_sheet), sheet_tags(*wearable_sheet)),
            base_rects@ == sheet_rects(*base_sheet),
            wearable_rects@ == sheet_rects(*wearable_sheet),
            pairs_fit(pairs@.subrange(0, k as int), base_rects@, wearable_rects@, bw, bh, ww, wh),
        decreases pairs@.len() - k,
    {
        let (b, w) = pairs[k];
        if b >= base_rects.len() || w >= wearable_rects.len()
            || !frames_fit_exec(base.width, base.height, wearable.width, wearable.height, base_rects[b], wearable_rects[w]) {
            proof {
                assert(pairs@[k as int] == (b, w));
                if pairs_fit(pairs@, base_rects@, wearable_rects@, bw, bh, ww, wh) {
                    let p = pairs@[k as int];
                    assert(p.0 < base_rects@.len() && p.1 < wearable_rects@.len()
                        && frames_fit(bw, bh, ww, wh, base_rects@[p.0 as int], wearable_rects@[p.1 as int]));
                    assert(false);
                }
            }
            return false;
        }
        proof {
            assert forall|j: int| 0 <= j < k + 1 implies {
                let p = #[trigger] pairs@.subrange(0, k + 1)[j];
                &&& p.0 < base_rects@.len()
                &&& p.1 < wearable_rects@.len()
                &&& frames_fit(bw, bh, ww, wh, base_rects@[p.0 as int], wearable_rects@[p.1 as int])
            } by {
                if j < k {
                    assert(pairs@.subrange(0, k + 1)[j] == pairs@.subrange(0, k as int)[j]);
                }
            }
        }
        k = k + 1;
    }
    proof {
        assert(pairs@.subrange(0, pairs@.len() as int) =~= pairs@);
    }
    true
}

/// Draws a wearable over the base image, frame by frame: for each tag of
/// the base sheet, the frames of the first wearable tag of the same name
/// over the base tag's frames, until either tag ends; the base keeps its
/// pixels where the wearable is fully transparent.
pub fn add_wearable(base: &mut PixelImage, base_sheet: &Spritesheet, wearable: &PixelImage, wearable_sheet: &Spritesheet)
    requires
        image_ok(*old(base)),
        image_ok(*wearable),
        pairs_fit(wearable_pairs(sheet_tags(*base_sheet), sheet_tags(*wearable_sheet)), sheet_rects(*base_sheet),
            sheet_rects(*wearable_sheet), old(base).width as int, old(base).height as int, wearable.width as int,
            wearable.height as int),
    ensures
        final(base).width == old(base).width,
        final(base).height == old(base).height,
        final(base).data@ == overlay_all(old(base).data@, old(base).width as int, wearable.data@, wearable.width as int,
            sheet_rects(*base_sheet), sheet_rects(*wearable_sheet),
            wearable_pairs(sheet_tags(*base_sheet), sheet_tags(*wearable_sheet))),
{
    let empty: Vec<FrameTag> = Vec::new();
    let base_tags = match &base_sheet.meta.frame_tags {
        Some(tags) => tags,
        None => &empty,
    };
    let wearable_tags = match &wearable_sheet.meta.frame_tags {
        Some(tags) => tags,
        None => &empty,
    };
    let pairs = frame_pairs_for(base_tags, wearable_tags);
    let base_rects = rects_of(base_sheet);
    let wearable_rects = rects_of(wearable_sheet);
    let ghost start = base.data@;
    let ghost bw = base.width as int;
    let ghost bh = base.height as int;
    let mut k: usize = 0;
    while k < pairs.len()
        invariant
            k <= pairs@.len(),
            pairs@ == wearable_pairs(sheet_tags(*base_sheet), sheet_tags(*wearable_sheet)),
            base_rects@ == sheet_rects(*base_sheet),
            wearable_rects@ == sheet_rects(*wearable_sheet),
            pairs_fit(pairs@, base_rects@, wearable_rects@, bw, bh, wearable.width as int, wearable.height as int),
            image_ok(*base),
            image_ok(*wearable),
            base.width == bw,
            base.height == bh,
            bw == old(base).width,
            bh == old(base).height,
            start == old(base).data@,
            base.data@ == overlay_all(start, bw, wearable.data@, wearable.width as int, base_rects@, wearable_rects@,
                pairs@.subrange(0, k as int)),
        decreases pairs@.len() - k,
    {
        let (b, w) = pairs[k];
        assert(pairs@[k as int] == (b, w));
        let base_rect = base_rects[b];
        let wearable_rect = wearable_rects[w];
        overlay_frame(base, wearable, base_rect, wearable_rect);
        proof {
            assert(pairs@.subrange(0, k + 1).drop_last() =~= pairs@.subrange(0, k as int));
        }
        k = k + 1;
    }
    proof {
        assert(pairs@.subrange(0, pairs@.len() as int) =~= pairs@);
    }
}

} // verus!
