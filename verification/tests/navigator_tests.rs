use image_viewer::compositor::Bitmap;
use image_viewer::Navigator;

const WIDTH: usize = 800;
const HEIGHT: usize = 600;
const BACKGROUND: u32 = 0x000000;
const FAILURE_TINT: u32 = 0x330000;

fn three_paths() -> Vec<String> {
    vec!["a.png".to_string(), "b.jpg".to_string(), "c.bmp".to_string()]
}

#[test]
fn new_navigator_starts_cleared_at_first_image() {
    let nav = Navigator::new(three_paths());
    assert_eq!(nav.current_index(), 0);
    assert_eq!(nav.image_count(), 3);
    assert_eq!(nav.current_path().as_str(), "a.png");
    let frame = nav.frame_pixels();
    assert_eq!(frame.len(), WIDTH * HEIGHT);
    assert!(frame.iter().all(|&p| p == BACKGROUND));
}

#[test]
fn advance_wraps_after_full_cycle() {
    let mut nav = Navigator::new(three_paths());
    let start = nav.current_index();
    let mut seen = Vec::new();
    for _ in 0..3 {
        nav.advance();
        seen.push(nav.current_index());
    }
    assert_eq!(seen, vec![1, 2, 0]);
    assert_eq!(nav.current_index(), start);
}

#[test]
fn retreat_wraps_after_full_cycle() {
    let mut nav = Navigator::new(three_paths());
    let start = nav.current_index();
    let mut seen = Vec::new();
    for _ in 0..3 {
        nav.retreat();
        seen.push(nav.current_index());
    }
    assert_eq!(seen, vec![2, 1, 0]);
    assert_eq!(nav.current_index(), start);
}

#[test]
fn retreat_from_first_wraps_to_last() {
    let mut nav = Navigator::new(three_paths());
    nav.retreat();
    assert_eq!(nav.current_index(), 2);
    assert_eq!(nav.current_path().as_str(), "c.bmp");
}

#[test]
fn single_image_navigation_is_a_no_op() {
    let mut nav = Navigator::new(vec!["only.png".to_string()]);
    nav.advance();
    assert_eq!(nav.current_index(), 0);
    nav.retreat();
    assert_eq!(nav.current_index(), 0);
    assert!(!nav.step(true, false));
    assert!(!nav.step(false, true));
    assert_eq!(nav.current_index(), 0);
}

#[test]
fn step_moves_only_on_pressed_keys() {
    let mut nav = Navigator::new(three_paths());
    assert!(!nav.step(false, false));
    assert_eq!(nav.current_index(), 0);
    assert!(nav.step(true, false));
    assert_eq!(nav.current_index(), 1);
    assert!(nav.step(false, true));
    assert_eq!(nav.current_index(), 0);
    // Both keys in one poll: forward then backward, but a reload is due.
    assert!(nav.step(true, true));
    assert_eq!(nav.current_index(), 0);
}

#[test]
fn failed_load_tints_frame_and_keeps_cursor() {
    let mut nav = Navigator::new(three_paths());
    nav.advance();
    let before = nav.current_index();
    let shown = nav.apply_load(None);
    assert!(shown.is_none());
    assert_eq!(nav.current_index(), before);
    assert!(nav.frame_pixels().iter().all(|&p| p == FAILURE_TINT));
    // Navigation stays usable after the failure.
    nav.advance();
    assert_eq!(nav.current_index(), 2);
    nav.retreat();
    assert_eq!(nav.current_index(), before);
}

#[test]
fn successful_load_renders_centered_image() {
    let mut nav = Navigator::new(three_paths());
    let bytes = vec![0xFFu8; 3 * 400 * 100];
    let img = Bitmap::new(400, 100, bytes).unwrap();
    let shown = nav.apply_load(Some(&img)).expect("a decoded image is shown");
    assert_eq!((shown.target_w, shown.target_h), (800, 200));
    assert_eq!((shown.offset_x, shown.offset_y), (0, 200));
    assert_eq!(nav.current_index(), 0);
    let frame = nav.frame_pixels();
    assert_eq!(frame.len(), WIDTH * HEIGHT);
    assert_eq!(frame[100 * WIDTH + 10], BACKGROUND);
    assert!(frame[300 * WIDTH + 400] & 0xFF >= 250);
}
