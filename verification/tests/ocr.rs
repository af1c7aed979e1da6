use orbit_capture::ocr::{border_background, pad_for_ocr, OCR_PADDING};

fn solid(width: u32, height: u32, pixel: [u8; 4]) -> Vec<u8> {
    pixel.repeat((width * height) as usize)
}

#[test]
fn the_border_takes_the_median_edge_colour() {
    let mut rgba = solid(3, 3, [10, 20, 30, 255]);
    // Centre pixel, which is not on the edge.
    rgba[16..20].copy_from_slice(&[200, 200, 200, 255]);
    // Two of the eight edge pixels differ.
    rgba[0..4].copy_from_slice(&[90, 90, 90, 255]);
    rgba[4..8].copy_from_slice(&[90, 90, 90, 255]);
    assert_eq!(border_background(&rgba, 3, 3), [10, 20, 30, 255]);
    assert_eq!(border_background(&[], 0, 0), [255, 255, 255, 255]);
}

#[test]
fn pads_an_image_with_its_own_background() {
    let rgba = solid(2, 1, [40, 50, 60, 255]);
    let padded = pad_for_ocr(&rgba, 2, 1, 4_000).unwrap();
    assert_eq!(padded.padding, OCR_PADDING);
    assert_eq!(padded.width, 2 + 2 * OCR_PADDING);
    assert_eq!(padded.height, 1 + 2 * OCR_PADDING);
    assert_eq!(padded.rgba.len(), (padded.width * padded.height * 4) as usize);
    assert!(padded.rgba.chunks(4).all(|pixel| pixel == [40, 50, 60, 255]));
}

#[test]
fn pads_less_where_the_recogniser_limits_the_size() {
    let rgba = solid(10, 10, [1, 2, 3, 255]);
    let padded = pad_for_ocr(&rgba, 10, 10, 20).unwrap();
    assert_eq!(padded.padding, 5);
    assert_eq!((padded.width, padded.height), (20, 20));
}

#[test]
fn refuses_images_it_cannot_pad() {
    assert_eq!(
        pad_for_ocr(&[], 0, 5, 100).err().unwrap(),
        "Text recognition image dimensions must be non-zero"
    );
    assert_eq!(
        pad_for_ocr(&[0; 8], 3, 1, 100).err().unwrap(),
        "Text recognition image data has an unexpected size"
    );
    assert_eq!(
        pad_for_ocr(&[], 70_000, 70_000, 100).err().unwrap(),
        "Text recognition image dimensions are too large"
    );
}
