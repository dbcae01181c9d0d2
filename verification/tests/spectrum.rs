use rigflow_client::spectrum::{color_map, draw_row_intensity};

fn float_palette(v: u8) -> u32 {
    let x = v as f32 / 255.0;
    let (r, g, b) = if x < 0.25 {
        let t = x / 0.25;
        (0.0, 0.0, 255.0 * t)
    } else if x < 0.5 {
        let t = (x - 0.25) / 0.25;
        (0.0, 255.0 * t, 255.0)
    } else if x < 0.75 {
        let t = (x - 0.5) / 0.25;
        (255.0 * t, 255.0, 255.0 * (1.0 - t))
    } else {
        let t = (x - 0.75) / 0.25;
        (255.0, 255.0 * (1.0 - t), 0.0)
    };
    ((r as u32) << 16) | ((g as u32) << 8) | (b as u32)
}

#[test]
fn palette_matches_float_ramp_everywhere() {
    for v in 0..=255u8 {
        assert_eq!(color_map(v), float_palette(v), "intensity {v}");
    }
}

#[test]
fn palette_key_points() {
    assert_eq!(color_map(0), 0x000000);
    assert_eq!(color_map(63), 0x0000fc);
    assert_eq!(color_map(64), 0x0001ff);
    assert_eq!(color_map(128), 0x02fffc);
    assert_eq!(color_map(255), 0xff0000);
}

#[test]
fn new_row_goes_on_top_and_rows_shift_down() {
    let mut buf: Vec<u32> = vec![1, 2, 3, 4, 5, 6];
    draw_row_intensity(&mut buf, 3, 2, &vec![0, 255, 128, 64, 63, 0]);
    // 6 samples over 3 pixels: pixel x takes sample x * 6 / 3.
    assert_eq!(buf, vec![color_map(0), color_map(128), color_map(63), 1, 2, 3]);
}

#[test]
fn mismatched_inputs_leave_buffer_alone() {
    let mut buf: Vec<u32> = vec![1, 2, 3, 4];
    draw_row_intensity(&mut buf, 3, 2, &vec![10, 20]);
    assert_eq!(buf, vec![1, 2, 3, 4]);
    draw_row_intensity(&mut buf, 2, 2, &vec![]);
    assert_eq!(buf, vec![1, 2, 3, 4]);
    draw_row_intensity(&mut buf, 0, 2, &vec![1]);
    assert_eq!(buf, vec![1, 2, 3, 4]);
}

#[test]
fn single_row_waterfall_is_replaced() {
    let mut buf: Vec<u32> = vec![7, 7, 7, 7];
    draw_row_intensity(&mut buf, 4, 1, &vec![255, 0]);
    assert_eq!(buf, vec![0xff0000, 0xff0000, 0, 0]);
}
