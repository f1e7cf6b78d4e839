use logo_banner::Bitmap;
use logo_banner::Color;
use logo_banner::composite;

/// A logo of one solid RGBA color.
fn solid(width: u32, height: u32, rgba: [u8; 4]) -> Bitmap {
    let mut data: Vec<u8> = Vec::new();
    for _ in 0..width * height {
        data.extend_from_slice(&rgba);
    }
    Bitmap { width, height, data }
}

#[test]
fn logo_at_bounding_box_is_placed_at_offsets() {
    let logo = solid(1000, 300, [10, 20, 30, 255]);
    let canvas = composite(logo, Color { r: 0, g: 0, b: 0 });
    // the placed rectangle starts at (200, 50) and ends at (1199, 349) inclusive
    assert_eq!(canvas.pixel(200, 50), (10, 20, 30, 255));
    assert_eq!(canvas.pixel(1199, 349), (10, 20, 30, 255));
    assert_eq!(canvas.pixel(199, 50), (0, 0, 0, 255));
    assert_eq!(canvas.pixel(200, 49), (0, 0, 0, 255));
    assert_eq!(canvas.pixel(1200, 349), (0, 0, 0, 255));
    assert_eq!(canvas.pixel(1199, 350), (0, 0, 0, 255));
}

#[test]
fn canvas_is_always_1400_by_400() {
    let tiny = composite(solid(1, 1, [1, 2, 3, 255]), Color { r: 9, g: 9, b: 9 });
    assert_eq!((tiny.width, tiny.height), (1400, 400));
    let huge = composite(solid(2000, 800, [1, 2, 3, 255]), Color { r: 9, g: 9, b: 9 });
    assert_eq!((huge.width, huge.height), (1400, 400));
}

#[test]
fn alpha_threshold_rule() {
    // four pixels in a row whose alphas sit around the cutoff
    let mut data: Vec<u8> = Vec::new();
    for alpha in [0u8, 199, 200, 255] {
        data.extend_from_slice(&[50, 60, 70, alpha]);
    }
    let logo = Bitmap { width: 4, height: 1, data };
    let fill = Color { r: 1, g: 2, b: 3 };
    let canvas = composite(logo, fill);
    // the logo starts at (698, 200)
    assert_eq!(canvas.pixel(698, 200), (1, 2, 3, 255)); // alpha 0: transparent
    assert_eq!(canvas.pixel(699, 200), (1, 2, 3, 255)); // alpha 199: still transparent
    assert_eq!(canvas.pixel(700, 200), (50, 60, 70, 255)); // alpha 200: opaque
    assert_eq!(canvas.pixel(701, 200), (50, 60, 70, 255)); // alpha 255: opaque
}

#[test]
fn outside_rectangle_is_fill() {
    let logo = solid(1, 1, [255, 255, 255, 255]);
    let canvas = composite(logo, Color { r: 0, g: 0, b: 0 });
    for y in 0..400u32 {
        for x in 0..1400u32 {
            if (x, y) == (700, 200) {
                assert_eq!(canvas.pixel(x, y), (255, 255, 255, 255));
            } else {
                assert_eq!(canvas.pixel(x, y), (0, 0, 0, 255));
            }
        }
    }
}

#[test]
fn oversized_logo_is_scaled_down() {
    // 2000 by 600 has the bounding box's 10:3 ratio, so it fills it exactly
    let logo = solid(2000, 600, [0, 0, 200, 255]);
    let canvas = composite(logo, Color { r: 7, g: 7, b: 7 });
    assert_eq!(canvas.pixel(200, 50), (0, 0, 200, 255));
    assert_eq!(canvas.pixel(1199, 349), (0, 0, 200, 255));
    assert_eq!(canvas.pixel(199, 50), (7, 7, 7, 255));
}
