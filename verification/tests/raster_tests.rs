use ocalrs::raster::RgbaImage;

#[test]
fn from_raw_accepts_exact_and_longer_buffers() {
    let img = RgbaImage::from_raw(2, 1, vec![1, 2, 3, 4, 5, 6, 7, 8]).unwrap();
    assert_eq!(img.dimensions(), (2, 1));
    assert_eq!(img.width(), 2);
    assert_eq!(img.height(), 1);
    let longer = RgbaImage::from_raw(1, 1, vec![1, 2, 3, 4, 5]).unwrap();
    assert_eq!(longer.as_raw(), &vec![1, 2, 3, 4, 5]);
}

#[test]
fn from_raw_rejects_short_buffers() {
    assert!(RgbaImage::from_raw(2, 2, vec![0; 15]).is_none());
    assert!(RgbaImage::from_raw(1, 0, vec![]).is_some());
}

#[test]
fn raw_bytes_round_trip() {
    let data: Vec<u8> = (0..24).collect();
    let img = RgbaImage::from_raw(3, 2, data.clone()).unwrap();
    assert_eq!(img.into_raw(), data);
}

#[test]
fn get_pixel_reads_row_major() {
    let data: Vec<u8> = (0..24).collect();
    let img = RgbaImage::from_raw(3, 2, data).unwrap();
    assert_eq!(img.get_pixel(0, 0), [0, 1, 2, 3]);
    assert_eq!(img.get_pixel(2, 0), [8, 9, 10, 11]);
    assert_eq!(img.get_pixel(1, 1), [16, 17, 18, 19]);
}
