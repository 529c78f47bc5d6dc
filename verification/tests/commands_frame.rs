//! Render commands, pixel writes, and the test-pattern gradient.

use raytracer::commands::{apply_command, gradient_color, Command};

#[test]
fn set_pixel_writes_four_bytes() {
    let width = 8;
    let mut frame = vec![1u8; width * 4 * 4];
    let cmd = Command::SetPixel { pos: [3, 2], color: [10, 20, 30] };
    assert!(apply_command(&mut frame, width, &cmd));
    let base = 4 * (2 * width + 3);
    assert_eq!(&frame[base..base + 4], &[10, 20, 30, 255]);
    for (j, &b) in frame.iter().enumerate() {
        if !(base..base + 4).contains(&j) {
            assert_eq!(b, 1, "byte {} must be untouched", j);
        }
    }
}

#[test]
fn out_of_bounds_set_is_refused() {
    let width = 4;
    let mut frame = vec![1u8; width * 2 * 4];
    // column beyond the width
    let cmd = Command::SetPixel { pos: [4, 0], color: [9, 9, 9] };
    assert!(!apply_command(&mut frame, width, &cmd));
    // row beyond the frame
    let cmd = Command::SetPixel { pos: [0, 2], color: [9, 9, 9] };
    assert!(!apply_command(&mut frame, width, &cmd));
    assert!(frame.iter().all(|&b| b == 1));
}

#[test]
fn redraw_and_nop_do_not_touch_the_frame() {
    let mut frame = vec![5u8; 16];
    assert!(!apply_command(&mut frame, 2, &Command::Redraw));
    assert!(!apply_command(&mut frame, 2, &Command::Nop));
    assert!(frame.iter().all(|&b| b == 5));
}

#[test]
fn gradient_spans_the_full_channel_range() {
    let (w, h) = (256, 128);
    assert_eq!(gradient_color(0, 0, w, h), [0, 0, 63]);
    assert_eq!(gradient_color(w - 1, h - 1, w, h), [255, 255, 63]);
    // the midpoint of each side
    assert_eq!(gradient_color(127, 63, w, h), [127, 126, 63]);
}

#[test]
fn gradient_is_exact_integer_scaling() {
    let (w, h) = (10, 10);
    for i in 0..w {
        for j in 0..h {
            let [r, g, b] = gradient_color(i, j, w, h);
            assert_eq!(r as usize, i * 255 / (w - 1));
            assert_eq!(g as usize, j * 255 / (h - 1));
            assert_eq!(b, 63);
        }
    }
}
