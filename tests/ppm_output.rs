use weekend_tracer::clamp_image_height;
use weekend_tracer::ppm::{push_decimal, write_color, write_header};
use weekend_tracer::render::{encode, RenderState};

fn text(bytes: &[u8]) -> String {
    String::from_utf8(bytes.to_vec()).unwrap()
}

#[test]
fn decimal_digits() {
    for n in [0u32, 7, 9, 10, 99, 100, 255, 1234567, u32::MAX] {
        let mut out = Vec::new();
        push_decimal(&mut out, n);
        assert_eq!(text(&out), n.to_string());
    }
}

#[test]
fn decimal_appends_after_existing_bytes() {
    let mut out = b"x=".to_vec();
    push_decimal(&mut out, 42);
    assert_eq!(text(&out), "x=42");
}

#[test]
fn header_lines() {
    let mut out = Vec::new();
    write_header(&mut out, 400, 225);
    assert_eq!(text(&out), "P3\n400 225\n255\n");
}

#[test]
fn color_line() {
    let mut out = Vec::new();
    write_color(&mut out, (0, 128, 255));
    assert_eq!(text(&out), "0 128 255\n");
}

#[test]
fn image_height_is_at_least_one() {
    assert_eq!(clamp_image_height(0), 1);
    assert_eq!(clamp_image_height(1), 1);
    assert_eq!(clamp_image_height(225), 225);
}

#[test]
fn encode_two_by_one_sky() {
    // Both pixel centres of a 2x1 image look along the horizon, where the
    // background blends white and sky blue half and half: (0.75, 0.85, 1.0),
    // gamma-corrected and quantized to (221, 236, 255).
    let channel = |c: f64| -> u8 {
        let g = if c > 0.0 { c.sqrt() } else { 0.0 };
        (255.999 * g.clamp(0.0, 0.999)) as u8
    };
    let px = (channel(0.75), channel(0.85), channel(1.0));
    assert_eq!(px, (221, 236, 255));
    let out = encode(2, 1, &vec![px, px]).unwrap();
    assert_eq!(text(&out), "P3\n2 1\n255\n221 236 255\n221 236 255\n");
}

#[test]
fn encode_rejects_wrong_pixel_count() {
    assert!(encode(2, 2, &vec![(1, 2, 3); 3]).is_none());
    assert!(encode(2, 2, &vec![(1, 2, 3); 5]).is_none());
    assert!(encode(1, 1, &vec![]).is_none());
}

#[test]
fn encode_has_one_line_per_pixel() {
    let pixels: Vec<(u8, u8, u8)> = (0..12u8).map(|i| (i, 2 * i, 255 - i)).collect();
    let out = encode(4, 3, &pixels).unwrap();
    let s = text(&out);
    assert_eq!(s.matches('\n').count(), 3 + 12);
    let lines: Vec<&str> = s.lines().collect();
    assert_eq!(lines[0], "P3");
    assert_eq!(lines[1], "4 3");
    assert_eq!(lines[2], "255");
    assert_eq!(lines[3], "0 0 255");
    assert_eq!(lines[14], "11 22 244");
}

#[test]
fn encode_is_deterministic() {
    let pixels = vec![(10, 20, 30), (40, 50, 60)];
    assert_eq!(encode(1, 2, &pixels), encode(1, 2, &pixels));
}

#[test]
fn render_state_walks_rows_then_columns() {
    let mut out = Vec::new();
    let mut st = RenderState::start(&mut out, 3, 2);
    let mut order = Vec::new();
    let mut row_ends = Vec::new();
    while !st.is_done() {
        let (i, j) = st.next_pixel();
        order.push((i, j));
        row_ends.push(st.emit(&mut out, (i as u8, j as u8, 0)));
    }
    assert_eq!(order, vec![(0, 0), (1, 0), (2, 0), (0, 1), (1, 1), (2, 1)]);
    assert_eq!(row_ends, vec![false, false, true, false, false, true]);
    assert_eq!(
        text(&out),
        "P3\n3 2\n255\n0 0 0\n1 0 0\n2 0 0\n0 1 0\n1 1 0\n2 1 0\n"
    );
}

#[test]
fn render_state_single_pixel() {
    let mut out = Vec::new();
    let mut st = RenderState::start(&mut out, 1, 1);
    assert!(!st.is_done());
    assert_eq!(st.next_pixel(), (0, 0));
    assert!(st.emit(&mut out, (9, 9, 9)));
    assert!(st.is_done());
    assert_eq!(text(&out), "P3\n1 1\n255\n9 9 9\n");
}
