use rusty_kb::content::{brightness_content, color_content, snapshot_content, SharedState};
use rusty_kb::dec::{fmt_i32, fmt_u32};
use rusty_kb::parse::{parse_brightness, parse_color};
use rusty_kb::rgb::{initial_preset_index, pack_rgb, unpack_rgb};

#[test]
fn pack_unpack_round_trip() {
    let samples: Vec<(u8, u8, u8)> = vec![
        (0, 0, 0),
        (255, 255, 255),
        (255, 65, 105),
        (1, 2, 3),
        (0, 255, 0),
        (128, 0, 255),
    ];
    for (r, g, b) in samples {
        let v = pack_rgb(r, g, b);
        assert!(v < 0x1000000);
        assert_eq!(unpack_rgb(v), (r, g, b));
    }
}

#[test]
fn pack_layout() {
    assert_eq!(pack_rgb(1, 2, 3), 0x010203);
    assert_eq!(pack_rgb(255, 0, 0), 0xFF0000);
    assert_eq!(unpack_rgb(0x00FF4169), (255, 65, 105));
}

#[test]
fn decimal_formatting() {
    assert_eq!(fmt_u32(0), b"0".to_vec());
    assert_eq!(fmt_u32(7), b"7".to_vec());
    assert_eq!(fmt_u32(255), b"255".to_vec());
    assert_eq!(fmt_u32(1000000), b"1000000".to_vec());
    assert_eq!(fmt_i32(0), b"0".to_vec());
    assert_eq!(fmt_i32(-1), b"-1".to_vec());
    assert_eq!(fmt_i32(50), b"50".to_vec());
    assert_eq!(fmt_i32(i32::MIN), b"-2147483648".to_vec());
    assert_eq!(fmt_i32(i32::MAX), b"2147483647".to_vec());
}

#[test]
fn attribute_contents() {
    assert_eq!(color_content(255, 65, 105), b"255 65 105\n".to_vec());
    assert_eq!(color_content(0, 0, 0), b"0 0 0\n".to_vec());
    assert_eq!(brightness_content(12), b"12\n".to_vec());
    assert_eq!(brightness_content(-5), b"-5\n".to_vec());
}

#[test]
fn snapshot_contents() {
    assert_eq!(
        snapshot_content(pack_rgb(255, 65, 105), 12, None, None),
        b"255 65 105 12\n0 0 0 0\n".to_vec()
    );
    assert_eq!(
        snapshot_content(pack_rgb(1, 2, 3), 50, Some(pack_rgb(0, 0, 255)), Some(100)),
        b"1 2 3 50\n0 0 255 100\n".to_vec()
    );
    assert_eq!(
        snapshot_content(0, 0, None, Some(9)),
        b"0 0 0 0\n0 0 0 9\n".to_vec()
    );
}

#[test]
fn shared_state_snapshot() {
    let with_lightbar = SharedState {
        kb_color: pack_rgb(255, 65, 105),
        kb_brightness: 12,
        lb_color: pack_rgb(0, 0, 255),
        lb_brightness: 100,
        lb_available: true,
    };
    assert_eq!(with_lightbar.snapshot(), b"255 65 105 12\n0 0 255 100\n".to_vec());
    let without_lightbar = SharedState { lb_available: false, ..with_lightbar };
    assert_eq!(without_lightbar.snapshot(), b"255 65 105 12\n0 0 0 0\n".to_vec());
}

#[test]
fn color_parsing() {
    assert_eq!(parse_color(&b"255 255 255\n".to_vec()), Some((255, 255, 255)));
    assert_eq!(parse_color(&b"0 0 0".to_vec()), Some((0, 0, 0)));
    assert_eq!(parse_color(&b"  1\t2\n3  ".to_vec()), Some((1, 2, 3)));
    assert_eq!(parse_color(&b"+12 0 255\n".to_vec()), Some((12, 0, 255)));
    assert_eq!(parse_color(&b"1 2\n".to_vec()), None);
    assert_eq!(parse_color(&b"1 2 3 4\n".to_vec()), None);
    assert_eq!(parse_color(&b"".to_vec()), None);
    // A token above 255 or otherwise unreadable is passed over, leaving
    // fewer than three values.
    assert_eq!(parse_color(&b"256 0 0\n".to_vec()), None);
    assert_eq!(parse_color(&b"1 x 2 3\n".to_vec()), Some((1, 2, 3)));
    assert_eq!(parse_color(&b"999999999999999999999 1 2 3\n".to_vec()), Some((1, 2, 3)));
}

#[test]
fn brightness_parsing() {
    assert_eq!(parse_brightness(&b"12\n".to_vec()), Some(12));
    assert_eq!(parse_brightness(&b"  42  ".to_vec()), Some(42));
    assert_eq!(parse_brightness(&b"-7\n".to_vec()), Some(-7));
    assert_eq!(parse_brightness(&b"+7\n".to_vec()), Some(7));
    assert_eq!(parse_brightness(&b"0".to_vec()), Some(0));
    assert_eq!(parse_brightness(&b"2147483647".to_vec()), Some(i32::MAX));
    assert_eq!(parse_brightness(&b"-2147483648".to_vec()), Some(i32::MIN));
    assert_eq!(parse_brightness(&b"2147483648".to_vec()), None);
    assert_eq!(parse_brightness(&b"-2147483649".to_vec()), None);
    assert_eq!(parse_brightness(&b"".to_vec()), None);
    assert_eq!(parse_brightness(&b"   ".to_vec()), None);
    assert_eq!(parse_brightness(&b"1 2".to_vec()), None);
    assert_eq!(parse_brightness(&b"abc".to_vec()), None);
}

#[test]
fn write_then_read_back() {
    for &(r, g, b) in &[(255u8, 65u8, 105u8), (0, 0, 0), (255, 255, 255)] {
        assert_eq!(parse_color(&color_content(r, g, b)), Some((r, g, b)));
    }
    for &v in &[0i32, 12, 50, 100, -3, i32::MIN, i32::MAX] {
        assert_eq!(parse_brightness(&brightness_content(v)), Some(v));
    }
}

#[test]
fn preset_index_selection() {
    let presets: Vec<(u8, u8, u8)> = vec![
        (255, 0, 0),
        (0, 0, 255),
        (0, 255, 0),
        (255, 105, 180),
    ];
    assert_eq!(initial_preset_index(&presets, (0, 0, 255)), 1);
    assert_eq!(initial_preset_index(&presets, (255, 0, 0)), 0);
    assert_eq!(initial_preset_index(&presets, (9, 9, 9)), 0);
}
