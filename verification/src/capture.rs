use vstd::prelude::*;

verus! {

/// Number of captured frames that make a sprite sheet.
pub const TOTAL_FRAMES: usize = 15;

/// The order of the channels of a captured pixel.
#[derive(Debug, Clone, Copy, PartialEq, Eq, Structural)]
pub enum PixelLayout {
    Rgba,
    Bgra,
}

/// A byte of a captured frame after the colour key: the alpha byte of a
/// pixel whose first three bytes are 0, 255 and 255 becomes 0.
pub open spec fn keyed_byte(t: Seq<u8>, e: int) -> u8 {
    if (e + 1) % 4 == 0 && t[e - 1] == 255 && t[e - 2] == 255 && t[e - 3] == 0 {
        0
    } else {
        t[e]
    }
}

/// A captured frame after the colour key.
pub open spec fn keyed_frame(t: Seq<u8>) -> Seq<u8> {
    Seq::new(t.len(), |e: int| keyed_byte(t, e))
}

/// The frames after the colour key, one after the other.
pub open spec fn keyed_frames(frames: Seq<Vec<u8>>) -> Seq<u8>
    decreases frames.len(),
{
    if frames.len() == 0 {
        Seq::empty()
    } else {
        keyed_frames(frames.drop_last()) + keyed_frame(frames.last()@)
    }
}

/// The colour key works pixel by pixel (four bytes each) and touches
/// only the key colour: a pixel whose colour is exactly (0, 255, 255)
/// keeps its colour and becomes fully transparent; every other pixel is
/// kept as it is, all four bytes. Nothing is added or dropped.
pub proof fn lemma_colour_key(t: Seq<u8>, q: int)
    requires
        0 <= q,
        4 * q + 3 < t.len(),
    ensures
        keyed_frame(t).len() == t.len(),
        keyed_frame(t)[4 * q] == t[4 * q],
        keyed_frame(t)[4 * q + 1] == t[4 * q + 1],
        keyed_frame(t)[4 * q + 2] == t[4 * q + 2],
        t[4 * q] == 0 && t[4 * q + 1] == 255 && t[4 * q + 2] == 255 ==> keyed_frame(t)[4 * q + 3] == 0,
        !(t[4 * q] == 0 && t[4 * q + 1] == 255 && t[4 * q + 2] == 255) ==> keyed_frame(t)[4 * q + 3] == t[4 * q + 3],
{
    assert((4 * q + 1) % 4 == 1);
    assert((4 * q + 2) % 4 == 2);
    assert((4 * q + 3) % 4 == 3);
    assert((4 * q + 4) % 4 == 0);
}

/// The bytes after the last whole pixel of a frame are kept.
pub proof fn lemma_colour_key_keeps_partial_pixel(t: Seq<u8>, e: int)
    requires
        4 * (t.len() / 4) <= e < t.len(),
    ensures
        keyed_frame(t)[e] == t[e],
{
}

/// Frames after the colour key, one after the other: with frames of
/// `n` bytes each, byte `e` of frame `k` is byte `k * n + e` of the
/// result, and nothing else is there.
pub proof fn lemma_keyed_frames_in_order(frames: Seq<Vec<u8>>, n: int, k: int, e: int)
    requires
        0 <= n,
        forall|f: int| 0 <= f < frames.len() ==> (#[trigger] frames[f])@.len() == n,
        0 <= k < frames.len(),
        0 <= e < n,
    ensures
        keyed_frames(frames).len() == frames.len() * n,
        keyed_frames(frames)[k * n + e] == keyed_frame(frames[k]@)[e],
    decreases frames.len(),
{
    lemma_keyed_frames_len(frames, n);
    let init = frames.drop_last();
    assert forall|f: int| 0 <= f < init.len() implies (#[trigger] init[f])@.len() == n by {
        assert(init[f] == frames[f]);
    }
    lemma_keyed_frames_len(init, n);
    if k < frames.len() - 1 {
        lemma_keyed_frames_in_order(init, n, k, e);
        assert(k * n + e < (frames.len() - 1) * n) by (nonlinear_arith)
            requires k < frames.len() - 1, e < n, 0 <= e;
        assert(init[k] == frames[k]);
    } else {
        assert(k * n == (frames.len() - 1) * n);
    }
}

proof fn lemma_keyed_frames_len(frames: Seq<Vec<u8>>, n: int)
    requires
        0 <= n,
        forall|f: int| 0 <= f < frames.len() ==> (#[trigger] frames[f])@.len() == n,
    ensures
        keyed_frames(frames).len() == frames.len() * n,
    decreases frames.len(),
{
    if frames.len() > 0 {
        let init = frames.drop_last();
        assert forall|f: int| 0 <= f < init.len() implies (#[trigger] init[f])@.len() == n by {
            assert(init[f] == frames[f]);
        }
        lemma_keyed_frames_len(init, n);
        assert((frames.len() - 1) * n + n == frames.len() * n) by (nonlinear_arith);
    }
}

/// Appends a frame, after the colour key, to `data`.
fn append_keyed_frame(data: &mut Vec<u8>, texture: &Vec<u8>)
    ensures
        final(data)@ == old(data)@ + keyed_frame(texture@),
{
    let ghost start = data@;
    let mut e: usize = 0;
    while e < texture.len()
        invariant
            e <= texture@.len(),
            data@ == start + keyed_frame(texture@).subrange(0, e as int),
        decreases texture@.len() - e,
    {
        let keyed = (e + 1) % 4 == 0 && texture[e - 1] == 255 && texture[e - 2] == 255 && texture[e - 3] == 0;
        if keyed {
            data.push(0);
        } else {
            data.push(texture[e]);
        }
        proof {
            assert(data@ =~= start + keyed_frame(texture@).subrange(0, e + 1));
        }
        e = e + 1;
    }
    proof {
        assert(keyed_frame(texture@).subrange(0, texture@.len() as int) =~= keyed_frame(texture@));
    }
}

/// The data of a sprite sheet: the last fifteen captured frames, one
/// under the other, with the colour key applied.
pub fn key_last_frames(frames: &Vec<Vec<u8>>) -> (data: Vec<u8>)
    requires
        frames@.len() >= TOTAL_FRAMES,
    ensures
        data@ == keyed_frames(frames@.subrange(frames@.len() - TOTAL_FRAMES, frames@.len() as int)),
{
    let first = frames.len() - TOTAL_FRAMES;
    let mut data: Vec<u8> = Vec::new();
    let mut i: usize = first;
    while i < frames.len()
        invariant
            first == frames@.len() - TOTAL_FRAMES,
            first <= i <= frames@.len(),
            data@ == keyed_frames(frames@.subrange(first as int, i as int)),
        decreases frames@.len() - i,
    {
        append_keyed_frame(&mut data, &frames[i]);
        proof {
            assert(frames@.subrange(first as int, i + 1).drop_last() =~= frames@.subrange(first as int, i as int));
        }
        i = i + 1;
    }
    data
}

/// Byte `k` of an RGBA image made from pixels in `layout`: the bytes of
/// each pixel, with red and blue swapped for BGRA pixels.
pub open spec fn rgba_byte(buffer: Seq<u8>, layout: PixelLayout, k: int) -> u8 {
    let base = k - k % 4;
    match layout {
        PixelLayout::Rgba => buffer[k],
        PixelLayout::Bgra => if k % 4 == 0 {
            buffer[base + 2]
        } else if k % 4 == 2 {
            buffer[base]
        } else {
            buffer[k]
        },
    }
}

/// The RGBA image (row by row, four bytes a pixel) of captured pixel
/// data of `width` by `height` pixels. Pixels are numbered by a `u32`,
/// so the image has at most 2^32 of them.
pub fn frame_data_to_rgba_image(width: u32, height: u32, buffer: &Vec<u8>, layout: PixelLayout) -> (image: Vec<u8>)
    requires
        width * height <= u32::MAX + 1,
        width * height * 4 <= buffer@.len(),
    ensures
        image@.len() == width * height * 4,
        forall|k: int| 0 <= k < image@.len() ==> #[trigger] image@[k] == rgba_byte(buffer@, layout, k),
{
    let buffer_len = buffer.len();
    assert(width * height <= buffer_len);
    let pixels: usize = (width as usize) * (height as usize);
    let mut image: Vec<u8> = Vec::new();
    let mut p: usize = 0;
    while p < pixels
        invariant
            pixels == width * height,
            pixels * 4 <= buffer@.len(),
            p <= pixels,
            image@.len() == p * 4,
            forall|k: int| 0 <= k < image@.len() ==> #[trigger] image@[k] == rgba_byte(buffer@, layout, k),
        decreases pixels - p,
    {
        let len = buffer.len();
        assert(p * 4 + 3 < len);
        let b = p * 4;
        let (r, g, bl, a) = match layout {
            PixelLayout::Rgba => (buffer[b], buffer[b + 1], buffer[b + 2], buffer[b + 3]),
            PixelLayout::Bgra => (buffer[b + 2], buffer[b + 1], buffer[b], buffer[b + 3]),
        };
        image.push(r);
        image.push(g);
        image.push(bl);
        image.push(a);
        proof {
            assert(b % 4 == 0 && (b + 1) % 4 == 1 && (b + 2) % 4 == 2 && (b + 3) % 4 == 3);
        }
        p = p + 1;
    }
    image
}

/// The sprite sheet saved from captured frames of `frame_width` by
/// `frame_height` pixels: its width, its height (fifteen frames) and its
/// RGBA data; nothing when the captured data does not have the size the
/// sheet needs (its length is compared as a `u32`).
pub open spec fn spritesheet_of(frames: Seq<Vec<u8>>, frame_width: u32, frame_height: u32, layout: PixelLayout)
    -> Option<(u32, u32, Seq<u8>)>
{
    let data = keyed_frames(frames.subrange(frames.len() - TOTAL_FRAMES, frames.len() as int));
    let height = frame_height * TOTAL_FRAMES;
    let expected = frame_width * height * 4;
    if expected == (data.len() as u32) as int {
        Some((frame_width, height as u32, Seq::new((frame_width * height * 4) as nat,
            |k: int| rgba_byte(data, layout, k))))
    } else {
        None
    }
}

/// Makes the sprite sheet of the last fifteen captured frames.
pub fn save_single_frame(frames: &Vec<Vec<u8>>, frame_width: u32, frame_height: u32, layout: PixelLayout)
    -> (sheet: Option<(u32, u32, Vec<u8>)>)
    requires
        frames@.len() >= TOTAL_FRAMES,
        frame_height * TOTAL_FRAMES <= u32::MAX,
        frame_width * frame_height * TOTAL_FRAMES * 4 <= u32::MAX,
    ensures
        match spritesheet_of(frames@, frame_width, frame_height, layout) {
            Some((w, h, image)) => sheet matches Some((sw, sh, simage)) && sw == w && sh == h && simage@ == image,
            None => sheet is None,
        },
{
    let data = key_last_frames(frames);
    proof {
        assert(frame_width * (frame_height * TOTAL_FRAMES) * 4 == frame_width * frame_height * TOTAL_FRAMES * 4)
            by (nonlinear_arith);
    }
    let height: u32 = frame_height * 15;
    let expected: u32 = frame_width * height * 4;
    if expected != data.len() as u32 {
        return None;
    }
    proof {
        if data@.len() <= u32::MAX {
            let n = data@.len() as usize;
            assert(n <= 0xffff_ffff ==> (n as u32) as int == n as int) by (bit_vector);
        }
    }
    let image = frame_data_to_rgba_image(frame_width, height, &data, layout);
    proof {
        assert(image@ =~= Seq::new((frame_width * height * 4) as nat, |k: int| rgba_byte(data@, layout, k)));
    }
    Some((frame_width, height, image))
}

} // verus!
