use no_os::boot_info::FrameData;

#[test]
fn from_mode_full_hd() {
    let f = FrameData::from_mode(1920, 1080, 1920 * 1080 * 4, 1920);
    assert_eq!(f.width, 1920);
    assert_eq!(f.height, 1080);
    assert_eq!(f.size, 8294400);
    assert_eq!(f.size_per_pixel, 4);
    assert_eq!(f.pixels_per_scan_line, 1920);
}

#[test]
fn from_mode_divides_down() {
    let f = FrameData::from_mode(3, 3, 40, 4);
    assert_eq!(f.size_per_pixel, 4);
    assert_eq!(f.pixels_per_scan_line, 4);
}

#[test]
fn get_pixel_offset() {
    let mut f = FrameData { width: 800, height: 600, size_per_pixel: 4, size: 0, pixels_per_scan_line: 832 };
    assert_eq!(f.get_pixel(0, 0), 0);
    assert_eq!(f.get_pixel(5, 0), 20);
    assert_eq!(f.get_pixel(3, 2), 4 * 832 * 2 + 12);
    assert_eq!(f.pixels_per_scan_line, 832);
}
