use tick_bridge::payload::notification_event;
use tick_bridge::payload::parse_rgb;
use tick_bridge::payload::render_rgb;
use tick_bridge::AddService;

fn invalid() -> Result<(u16, u16, u16), String> {
    Err("Invalid RGB format".to_string())
}

#[test]
fn render_exact_wire_form() {
    assert_eq!(render_rgb(123, 456, 789), b"RGB(0.123, 0.456, 0.789)".to_vec());
}

#[test]
fn render_pads_with_zeros() {
    assert_eq!(render_rgb(0, 7, 42), b"RGB(0.000, 0.007, 0.042)".to_vec());
}

#[test]
fn render_component_bounds() {
    assert_eq!(render_rgb(999, 0, 999), b"RGB(0.999, 0.000, 0.999)".to_vec());
}

#[test]
fn parse_exact_wire_form() {
    assert_eq!(parse_rgb(b"RGB(0.123, 0.456, 0.789)"), Ok((123, 456, 789)));
}

#[test]
fn parse_accepts_short_fractions() {
    assert_eq!(parse_rgb(b"RGB(0.1, 0.2, 0.3)"), Ok((100, 200, 300)));
    assert_eq!(parse_rgb(b"RGB(0.5, 0.2, 0.1)"), Ok((500, 200, 100)));
    assert_eq!(parse_rgb(b"RGB(0.55, 0.20, 0.10)"), Ok((550, 200, 100)));
}

#[test]
fn parse_accepts_mixed_lengths() {
    assert_eq!(parse_rgb(b"RGB(0.123, 0.456, 0.78)"), Ok((123, 456, 780)));
}

#[test]
fn parse_truncates_past_thousandths() {
    assert_eq!(parse_rgb(b"RGB(0.123, 0.456, 0.7890)"), Ok((123, 456, 789)));
    assert_eq!(parse_rgb(b"RGB(0.8317092, 0.063190937, 0.39493412)"), Ok((831, 63, 394)));
    assert_eq!(parse_rgb(b"RGB(0.99999, 0.5678, 0.0001)"), Ok((999, 567, 0)));
}

#[test]
fn parse_render_round_trip() {
    for &(r, g, b) in &[(0, 0, 0), (999, 999, 999), (1, 20, 300), (500, 0, 999)] {
        let wire = render_rgb(r, g, b);
        assert_eq!(parse_rgb(&wire), Ok((r, g, b)));
    }
}

#[test]
fn parse_rejects_empty() {
    assert_eq!(parse_rgb(b""), invalid());
}

#[test]
fn parse_rejects_wrong_prefix() {
    assert_eq!(parse_rgb(b"HSL(0.123, 0.456, 0.789)"), invalid());
}

#[test]
fn parse_rejects_integer_part_above_one() {
    assert_eq!(parse_rgb(b"RGB(1.123, 0.456, 0.789)"), invalid());
}

#[test]
fn parse_rejects_empty_fraction() {
    assert_eq!(parse_rgb(b"RGB(0., 0.456, 0.789)"), invalid());
}

#[test]
fn parse_rejects_non_digit_component() {
    assert_eq!(parse_rgb(b"RGB(0.12x, 0.456, 0.789)"), invalid());
}

#[test]
fn parse_rejects_wrong_separator() {
    assert_eq!(parse_rgb(b"RGB(0.123; 0.456, 0.789)"), invalid());
    assert_eq!(parse_rgb(b"RGB(0.123,0.456, 0.789)"), invalid());
}

#[test]
fn parse_rejects_missing_close_paren() {
    assert_eq!(parse_rgb(b"RGB(0.123, 0.456, 0.789s"), invalid());
    assert_eq!(parse_rgb(b"RGB(0.123, 0.456, 0.789"), invalid());
}

#[test]
fn parse_rejects_trailing_bytes() {
    assert_eq!(parse_rgb(b"RGB(0.123, 0.456, 0.789) "), invalid());
}

#[test]
fn notification_event_carries_rendered_color() {
    let ev = notification_event(42, 0, 999);
    assert_eq!(ev.color, "RGB(0.042, 0.000, 0.999)");
}

#[test]
fn add_number_adds() {
    assert_eq!(AddService::add_number(3, 4), 7);
    assert_eq!(AddService::add_number(-3, 4), 1);
    assert_eq!(AddService::add_number(-100, -27), -127);
    assert_eq!(AddService::add_number(0, 0), 0);
}
