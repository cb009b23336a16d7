use dcl2d::sheet::{SheetFrame, SheetMeta, SheetRect, SheetSize, Spritesheet};
use dcl2d::sprite_animation::{FrameTag, TagDirection};
use dcl2d::sprite_maker::{add_wearable, find_matching_tag, frame_pairs, frame_pairs_for, overlay_frame, wearable_fits,
    PixelImage};

fn tag(name: &str, from: u32, to: u32) -> FrameTag {
    FrameTag { name: name.to_string(), from, to, direction: TagDirection::Forward }
}

fn rect(x: u32, y: u32, w: u32, h: u32) -> SheetRect {
    SheetRect { x, y, w, h }
}

fn sheet(frames: Vec<SheetRect>, tags: Vec<FrameTag>) -> Spritesheet {
    Spritesheet {
        frames: frames
            .into_iter()
            .map(|r| SheetFrame {
                filename: String::new(),
                frame: r,
                rotated: false,
                trimmed: false,
                sprite_source_size: r,
                source_size: SheetSize { w: r.w, h: r.h },
                duration: 100,
            })
            .collect(),
        meta: SheetMeta {
            app: String::new(),
            version: String::new(),
            format: String::new(),
            size: SheetSize { w: 0, h: 0 },
            scale: "1".to_string(),
            frame_tags: Some(tags),
            layers: None,
            image: None,
        },
    }
}

#[test]
fn frames_pair_up_until_the_shorter_tag_ends() {
    assert_eq!(frame_pairs(&tag("a", 2, 5), &tag("a", 10, 11)), vec![(2, 10), (3, 11)]);
    assert_eq!(frame_pairs(&tag("a", 0, 0), &tag("a", 4, 9)), vec![(0, 4)]);
    assert!(frame_pairs(&tag("a", 3, 2), &tag("a", 0, 1)).is_empty());
}

#[test]
fn the_first_tag_of_the_same_name_is_used() {
    let tags = vec![tag("Run", 0, 1), tag("Idle", 2, 3), tag("Idle", 4, 5)];
    assert_eq!(find_matching_tag(&tags, &"Idle".to_string()), Some(1));
    assert_eq!(find_matching_tag(&tags, &"Jump".to_string()), None);
    let base = vec![tag("Idle", 0, 1), tag("Jump", 2, 2), tag("Run", 3, 3)];
    assert_eq!(frame_pairs_for(&base, &tags), vec![(0, 2), (1, 3), (3, 0)]);
}

fn image(width: u32, height: u32, pixel: [u8; 4]) -> PixelImage {
    let mut data = Vec::new();
    for _ in 0..width * height {
        data.extend_from_slice(&pixel);
    }
    PixelImage { width, height, data }
}

fn pixel(img: &PixelImage, x: u32, y: u32) -> [u8; 4] {
    let i = ((y * img.width + x) * 4) as usize;
    [img.data[i], img.data[i + 1], img.data[i + 2], img.data[i + 3]]
}

#[test]
fn overlay_copies_the_visible_pixels_of_the_smaller_frame() {
    let mut base = image(4, 3, [1, 1, 1, 255]);
    let mut wearable = image(2, 2, [9, 8, 7, 255]);
    let i = ((1 * 2 + 1) * 4) as usize;
    wearable.data[i + 3] = 0;
    overlay_frame(&mut base, &wearable, rect(1, 1, 3, 2), rect(0, 0, 2, 2));
    assert_eq!(pixel(&base, 0, 0), [1, 1, 1, 255]);
    assert_eq!(pixel(&base, 1, 1), [9, 8, 7, 255]);
    assert_eq!(pixel(&base, 2, 1), [9, 8, 7, 255]);
    assert_eq!(pixel(&base, 1, 2), [9, 8, 7, 255]);
    assert_eq!(pixel(&base, 2, 2), [1, 1, 1, 255]);
    assert_eq!(pixel(&base, 3, 1), [1, 1, 1, 255]);
    assert_eq!(base.data.len(), 48);
}

#[test]
fn wearable_is_drawn_over_every_matching_frame() {
    let base_sheet = sheet(vec![rect(0, 0, 1, 1), rect(1, 0, 1, 1)], vec![tag("Idle", 0, 1)]);
    let wearable_sheet = sheet(vec![rect(0, 0, 1, 1)], vec![tag("Idle", 0, 0), tag("Run", 0, 0)]);
    let mut base = image(2, 1, [0, 0, 0, 255]);
    let wearable = image(1, 1, [5, 6, 7, 200]);
    add_wearable(&mut base, &base_sheet, &wearable, &wearable_sheet);
    assert_eq!(pixel(&base, 0, 0), [5, 6, 7, 200]);
    assert_eq!(pixel(&base, 1, 0), [0, 0, 0, 255]);
}

#[test]
fn wearables_must_fit_the_body_sheet() {
    let base_sheet = sheet(vec![rect(0, 0, 1, 1), rect(1, 0, 1, 1)], vec![tag("Idle", 0, 1)]);
    let fitting = sheet(vec![rect(0, 0, 1, 1), rect(0, 0, 1, 1)], vec![tag("Idle", 0, 1)]);
    let missing_frame = sheet(vec![rect(0, 0, 1, 1)], vec![tag("Idle", 0, 1)]);
    let too_big = sheet(vec![rect(0, 0, 1, 1), rect(1, 0, 1, 1)], vec![tag("Idle", 0, 1)]);
    let base = image(2, 1, [0, 0, 0, 255]);
    let wearable = image(1, 1, [5, 6, 7, 200]);
    assert!(wearable_fits(&base, &base_sheet, &wearable, &fitting));
    assert!(!wearable_fits(&base, &base_sheet, &wearable, &missing_frame));
    assert!(!wearable_fits(&base, &base_sheet, &wearable, &too_big));
}
