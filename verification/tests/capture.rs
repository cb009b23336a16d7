use dcl2d::capture::{frame_data_to_rgba_image, key_last_frames, save_single_frame, PixelLayout};

#[test]
fn colour_key_clears_the_alpha_of_cyan_pixels() {
    let mut frames: Vec<Vec<u8>> = Vec::new();
    frames.push(vec![9, 9, 9, 9]);
    for _ in 0..14 {
        frames.push(vec![1, 2, 3, 4]);
    }
    frames.push(vec![0, 255, 255, 200, 0, 255, 254, 200]);
    let data = key_last_frames(&frames);
    assert_eq!(data.len(), 14 * 4 + 8);
    assert_eq!(&data[0..4], &[1, 2, 3, 4]);
    assert_eq!(&data[data.len() - 8..], &[0, 255, 255, 0, 0, 255, 254, 200]);
}

#[test]
fn bgra_pixels_swap_red_and_blue() {
    let buffer = vec![10, 20, 30, 40, 50, 60, 70, 80];
    assert_eq!(frame_data_to_rgba_image(2, 1, &buffer, PixelLayout::Bgra), vec![30, 20, 10, 40, 70, 60, 50, 80]);
    assert_eq!(frame_data_to_rgba_image(1, 2, &buffer, PixelLayout::Rgba), buffer);
    assert_eq!(frame_data_to_rgba_image(1, 1, &buffer, PixelLayout::Rgba), vec![10, 20, 30, 40]);
}

#[test]
fn sheet_needs_fifteen_frames_of_the_right_size() {
    let frames: Vec<Vec<u8>> = (0..15).map(|i| vec![i as u8, 0, 0, 255]).collect();
    let (w, h, image) = save_single_frame(&frames, 1, 1, PixelLayout::Bgra).unwrap();
    assert_eq!((w, h), (1, 15));
    assert_eq!(image.len(), 60);
    assert_eq!(&image[4..8], &[0, 0, 1, 255]);
    assert!(save_single_frame(&frames, 2, 1, PixelLayout::Rgba).is_none());
}
