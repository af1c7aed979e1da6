use orbit_capture::encoding::{
    nv12_poster_rgba, poster_size, Plane, B_U, G_U, G_V, LUMA_SCALE, ONE, R_V,
};

/// A flat NV12 frame, with the strides padded the way a capture buffer is.
fn flat_nv12(width: usize, height: usize, y: u8, u: u8, v: u8) -> (Vec<u8>, Vec<u8>) {
    let stride = width + 64;
    let luma = vec![y; stride * height];
    let mut chroma = vec![0_u8; stride * height.div_ceil(2)];
    for pair in chroma.chunks_exact_mut(2) {
        pair[0] = u;
        pair[1] = v;
    }

    (luma, chroma)
}

/// The padded stride `flat_nv12` builds its planes with.
fn stride(width: usize) -> usize {
    width + 64
}

#[test]
fn fits_a_poster_inside_its_longest_edge() {
    assert_eq!(poster_size(3840, 2160, 640), (640, 360));
    assert_eq!(poster_size(1080, 1920, 640), (360, 640));
}

#[test]
fn leaves_a_poster_smaller_than_the_limit_alone() {
    assert_eq!(poster_size(400, 300, 640), (400, 300));
    assert_eq!(poster_size(0, 0, 640), (0, 0));
}

#[test]
fn turns_flat_luma_into_flat_grey() {
    let (luma, chroma) = flat_nv12(64, 64, 126, 128, 128);
    let rgba = nv12_poster_rgba(
        Plane {
            bytes: &luma,
            stride: stride(64),
        },
        Plane {
            bytes: &chroma,
            stride: stride(64),
        },
        64,
        64,
        16,
        16,
    );

    assert_eq!(rgba.len(), 16 * 16 * 4);
    for pixel in rgba.chunks_exact(4) {
        assert!(pixel[0].abs_diff(128) <= 2, "unexpected red {}", pixel[0]);
        assert_eq!(pixel[0], pixel[1]);
        assert_eq!(pixel[1], pixel[2]);
        assert_eq!(pixel[3], u8::MAX);
    }
}

#[test]
fn carries_chroma_through_to_colour() {
    // Video-range white and a strong red chroma.
    let (luma, chroma) = flat_nv12(32, 32, 81, 90, 240);
    let rgba = nv12_poster_rgba(
        Plane {
            bytes: &luma,
            stride: stride(32),
        },
        Plane {
            bytes: &chroma,
            stride: stride(32),
        },
        32,
        32,
        8,
        8,
    );

    let pixel = &rgba[..4];
    assert!(pixel[0] > 200, "red should dominate, got {pixel:?}");
    assert!(pixel[1] < 80, "green should be low, got {pixel:?}");
    assert!(pixel[2] < 80, "blue should be low, got {pixel:?}");
}

#[test]
fn survives_a_frame_whose_planes_are_shorter_than_claimed() {
    let rgba = nv12_poster_rgba(
        Plane {
            bytes: &[],
            stride: 0,
        },
        Plane {
            bytes: &[],
            stride: 0,
        },
        32,
        32,
        4,
        4,
    );
    assert_eq!(rgba.len(), 4 * 4 * 4);
}

const F_LUMA_SCALE: f32 = 1.164_383_5;
const F_R_V: f32 = 1.792_741_1;
const F_G_U: f32 = -0.213_248_6;
const F_G_V: f32 = -0.532_909_3;
const F_B_U: f32 = 2.112_401_8;

fn float_channel(value: f32) -> u8 {
    value.clamp(0.0, 255.0) as u8
}

/// The BT.709 conversion in `f32`, as the colour of one sample.
fn float_rgb(y: u8, u: u8, v: u8) -> [u8; 3] {
    let luminance = F_LUMA_SCALE * (f32::from(y) - 16.0);
    let chroma_u = f32::from(u) - 128.0;
    let chroma_v = f32::from(v) - 128.0;
    [
        float_channel(luminance + F_R_V * chroma_v),
        float_channel(luminance + F_G_U * chroma_u + F_G_V * chroma_v),
        float_channel(luminance + F_B_U * chroma_u),
    ]
}

fn poster_rgb(y: u8, u: u8, v: u8) -> [u8; 3] {
    let luma = [y];
    let chroma = [u, v];
    let rgba = nv12_poster_rgba(
        Plane { bytes: &luma, stride: 1 },
        Plane { bytes: &chroma, stride: 2 },
        1,
        1,
        1,
        1,
    );
    [rgba[0], rgba[1], rgba[2]]
}

#[test]
fn holds_the_conversion_constants_as_the_f32_values_exactly() {
    let scale = ONE as f64;
    assert_eq!(f64::from(F_LUMA_SCALE) * scale, LUMA_SCALE as f64);
    assert_eq!(f64::from(F_R_V) * scale, R_V as f64);
    assert_eq!(f64::from(F_G_U) * scale, G_U as f64);
    assert_eq!(f64::from(F_G_V) * scale, G_V as f64);
    assert_eq!(f64::from(F_B_U) * scale, B_U as f64);
}

#[test]
fn converts_a_grey_whose_luminance_lands_on_a_whole_value() {
    assert_eq!(poster_rgb(89, 128, 128), [85, 85, 85]);
}

#[test]
fn converts_every_sample_as_f32_arithmetic_does() {
    for y in 0..=255u8 {
        for c in 0..=255u8 {
            assert_eq!(poster_rgb(y, 128, c)[0], float_rgb(y, 128, c)[0], "y {y} v {c}");
            assert_eq!(poster_rgb(y, c, 128)[2], float_rgb(y, c, 128)[2], "y {y} u {c}");
        }
        for u in (0..=255u8).step_by(5) {
            for v in (0..=255u8).step_by(7) {
                assert_eq!(poster_rgb(y, u, v), float_rgb(y, u, v), "y {y} u {u} v {v}");
            }
        }
    }
}
