use image_viewer::compositor::blit_block;
use image_viewer::compositor::pack_pixel;
use image_viewer::compositor::Bitmap;
use image_viewer::composite;

const WIDTH: usize = 800;
const HEIGHT: usize = 600;
const BACKGROUND: u32 = 0x000000;

fn white_bitmap(w: u32, h: u32) -> Bitmap {
    let bytes = vec![0xFFu8; 3 * (w as usize) * (h as usize)];
    Bitmap::new(w, h, bytes).expect("byte count matches dimensions")
}

#[test]
fn pack_pixel_concatenates_channels() {
    assert_eq!(pack_pixel(0x12, 0x34, 0x56), 0x123456);
    assert_eq!(pack_pixel(0xFF, 0xFF, 0xFF), 0xFFFFFF);
    assert_eq!(pack_pixel(0, 0, 0), 0x000000);
    assert_eq!(pack_pixel(0xAB, 0, 0xCD), 0xAB00CD);
}

#[test]
fn bitmap_new_rejects_mismatched_byte_count() {
    let b = Bitmap::new(2, 2, vec![0u8; 12]).unwrap();
    assert_eq!((b.width(), b.height()), (2, 2));
    assert!(Bitmap::new(2, 2, vec![0u8; 11]).is_none());
    assert!(Bitmap::new(2, 2, vec![0u8; 13]).is_none());
    assert!(Bitmap::new(0, 5, Vec::new()).is_some());
}

#[test]
fn composite_fills_surface_with_halved_image() {
    // A 1600x1200 white image lands on the whole 800x600 surface: no
    // background pixel survives anywhere.
    let img = white_bitmap(1600, 1200);
    let mut buffer = vec![BACKGROUND; WIDTH * HEIGHT];
    let r = composite(&img, WIDTH as u32, HEIGHT as u32, &mut buffer);
    assert_eq!(buffer.len(), WIDTH * HEIGHT);
    assert_eq!((r.target_w, r.target_h), (800, 600));
    assert_eq!((r.offset_x, r.offset_y), (0, 0));
    assert!(buffer.iter().all(|&p| p != BACKGROUND));
    // Resampling a uniform white image keeps it essentially white.
    let center = buffer[(HEIGHT / 2) * WIDTH + WIDTH / 2];
    assert!(center >> 16 & 0xFF >= 250);
    assert!(center >> 8 & 0xFF >= 250);
    assert!(center & 0xFF >= 250);
}

#[test]
fn composite_centers_wide_image_and_leaves_bands_black() {
    // A 400x100 white image doubles to 800x200 at rows 200..400; the bands
    // above and below stay at the background.
    let img = white_bitmap(400, 100);
    let mut buffer = vec![0xDEADu32; WIDTH * HEIGHT];
    let r = composite(&img, WIDTH as u32, HEIGHT as u32, &mut buffer);
    assert_eq!((r.target_w, r.target_h), (800, 200));
    assert_eq!((r.offset_x, r.offset_y), (0, 200));
    for y in (0..200).chain(400..600) {
        for x in 0..WIDTH {
            assert_eq!(buffer[y * WIDTH + x], BACKGROUND, "row {y} col {x}");
        }
    }
    let center = buffer[300 * WIDTH + 400];
    assert!(center & 0xFF >= 250);
}

#[test]
fn composite_upscales_through_resampler() {
    // A 2x2 white image grows to a 600x600 centered square: a resampler that
    // handed its input back unchanged could not cover the target rectangle.
    let img = white_bitmap(2, 2);
    let mut buffer = vec![BACKGROUND; WIDTH * HEIGHT];
    let r = composite(&img, WIDTH as u32, HEIGHT as u32, &mut buffer);
    assert_eq!((r.target_w, r.target_h), (600, 600));
    assert_eq!((r.offset_x, r.offset_y), (100, 0));
    let center = buffer[300 * WIDTH + 400];
    assert!(center >> 16 & 0xFF >= 250);
    for y in 0..HEIGHT {
        for x in (0..100).chain(700..WIDTH) {
            assert_eq!(buffer[y * WIDTH + x], BACKGROUND);
        }
    }
}

#[test]
fn blit_block_packs_and_places_exactly() {
    // A 2x1 block of known bytes lands at offset (3,2) on an 8x6 surface;
    // every other position keeps its previous value.
    let scaled = vec![0x01u8, 0x02, 0x03, 0xAA, 0xBB, 0xCC];
    let mut buffer = vec![0x111111u32; 8 * 6];
    blit_block(&scaled, 2, 1, 3, 2, 8, 6, &mut buffer);
    for (i, &p) in buffer.iter().enumerate() {
        match i {
            19 => assert_eq!(p, 0x010203),
            20 => assert_eq!(p, 0xAABBCC),
            _ => assert_eq!(p, 0x111111, "position {i}"),
        }
    }
}

#[test]
fn composite_empty_source_leaves_background_only() {
    let img = Bitmap::new(0, 7, Vec::new()).unwrap();
    let mut buffer = vec![0x1234u32; WIDTH * HEIGHT];
    let r = composite(&img, WIDTH as u32, HEIGHT as u32, &mut buffer);
    assert_eq!((r.target_w, r.target_h), (0, 0));
    assert!(buffer.iter().all(|&p| p == BACKGROUND));
}
