use raytracer::{raster_index, Frame, reflection_depth, sample_coords, store_flipped, MAX_DEPTH, MAX_PIXEL};

#[test]
fn raster_index_flips_rows() {
    assert_eq!(raster_index(0, 0, 4, 3), 8);
    assert_eq!(raster_index(3, 0, 4, 3), 11);
    assert_eq!(raster_index(0, 2, 4, 3), 0);
    assert_eq!(raster_index(1, 1, 4, 3), 5);
}

#[test]
fn store_flipped_puts_top_row_last() {
    let pixels = vec![1, 2, 3, 4, 5, 6];
    let mut buffer = vec![0u32; 6];
    store_flipped(&mut buffer, 3, 2, &pixels);
    assert_eq!(buffer, vec![4, 5, 6, 1, 2, 3]);
}

#[test]
fn store_flipped_overwrites_every_slot() {
    let pixels = vec![0x10, 0x20, 0x30, 0x40];
    let mut a = vec![0u32; 4];
    let mut c = vec![u32::MAX; 4];
    store_flipped(&mut a, 2, 2, &pixels);
    store_flipped(&mut c, 2, 2, &pixels);
    assert_eq!(a, c);
    store_flipped(&mut a, 2, 2, &pixels);
    assert_eq!(a, c);
    assert!(a.iter().all(|&p| p <= MAX_PIXEL));
}

#[test]
fn store_flipped_single_column() {
    let pixels = vec![7, 8, 9];
    let mut buffer = vec![0u32; 3];
    store_flipped(&mut buffer, 1, 3, &pixels);
    assert_eq!(buffer, vec![9, 8, 7]);
}

#[test]
fn store_flipped_empty() {
    let mut buffer: Vec<u32> = vec![];
    store_flipped(&mut buffer, 0, 5, &vec![]);
    assert!(buffer.is_empty());
}

#[test]
fn samples_of_pixel() {
    assert_eq!(sample_coords(1, 2, 2), vec![(2, 4), (2, 5), (3, 4), (3, 5)]);
    assert_eq!(sample_coords(5, 6, 1), vec![(5, 6)]);
    assert!(sample_coords(5, 6, 0).is_empty());
    let s = sample_coords(0, 0, 4);
    assert_eq!(s.len(), 16);
    assert_eq!(s[0], (0, 0));
    assert_eq!(s[1], (0, 1));
    assert_eq!(s[4], (1, 0));
    assert_eq!(s[15], (3, 3));
}

#[test]
fn reflection_depth_steps() {
    assert_eq!(MAX_DEPTH, 5);
    assert_eq!(reflection_depth(0), Some(1));
    assert_eq!(reflection_depth(4), Some(5));
    assert_eq!(reflection_depth(5), None);
    assert_eq!(reflection_depth(u32::MAX), None);
}

#[test]
fn reflection_chain_from_primary_ray() {
    let mut depth = 0u32;
    let mut traced = 0u32;
    while let Some(d) = reflection_depth(depth) {
        depth = d;
        traced += 1;
    }
    assert_eq!(traced, MAX_DEPTH);
}

#[test]
fn frame_stores_bottom_up() {
    let mut frame = Frame::new(2, 2);
    assert!(!frame.is_full());
    frame.push_scaled(255, 0, 0);
    frame.push_scaled(0, 255, 0);
    frame.push_scaled(0, 0, 255);
    frame.push_scaled(127, 127, 127);
    assert!(frame.is_full());
    let mut buffer = vec![u32::MAX; 4];
    frame.store(&mut buffer);
    assert_eq!(buffer, vec![0x0000FF, 0x7F7F7F, 0xFF0000, 0x00FF00]);
}

#[test]
fn frame_pixels_stay_in_range() {
    let mut frame = Frame::new(3, 1);
    frame.push_scaled(i64::MAX, 300, 256);
    frame.push_scaled(-1, i64::MIN, 0);
    frame.push_scaled(1000, -1000, 128);
    let mut buffer = vec![u32::MAX; 3];
    frame.store(&mut buffer);
    assert!(buffer.iter().all(|&p| p <= MAX_PIXEL));
    assert_eq!(buffer, vec![0xFFFFFF, 0, 0xFF0080]);
}
