use rusty_kb::content::snapshot_content;
use rusty_kb::policy::{
    attr_path, keyboard_write_paths, pick_primary, should_write_all_keyboard_paths,
    should_write_primary_only_keyboard_path,
};
use rusty_kb::rgb::{pack_rgb, unpack_rgb};
use rusty_kb::worker::{Value, WorkerSystem};
use rusty_kb::writer::PathSet;

#[test]
fn coalescing_applies_only_the_final_value() {
    // A burst of stores, each followed by its best-effort signal, then one
    // wake: the worker applies the final stored value once and nothing else.
    let mut sys = WorkerSystem::new(Value::Color(0));
    for v in 1..=100u32 {
        sys.store(Value::Color(v));
        sys.notify();
    }
    sys.wake();
    assert_eq!(sys.applied, vec![Value::Color(100)]);
    assert_eq!(sys.worker.last_applied, Some(Value::Color(100)));
    assert!(!sys.pending);
}

#[test]
fn run_burst_applies_the_last_store() {
    let mut sys = WorkerSystem::new(Value::Brightness(0));
    let burst: Vec<Value> = vec![
        Value::Brightness(3),
        Value::Brightness(17),
        Value::Brightness(12),
    ];
    rusty_kb::worker::run_burst(&mut sys, &burst);
    assert_eq!(sys.applied, vec![Value::Brightness(12)]);
}

#[test]
fn redundant_wake_writes_nothing() {
    // With the memo already holding the register value, a repeated wake-up
    // must produce zero writes: the applied log is the write counter.
    let mut sys = WorkerSystem::new(Value::Color(7));
    sys.notify();
    sys.wake();
    assert_eq!(sys.applied.len(), 1);
    sys.notify();
    sys.wake();
    assert_eq!(sys.applied.len(), 1);
    sys.notify();
    sys.wake();
    assert_eq!(sys.applied.len(), 1);
}

#[test]
fn multi_path_isolation() {
    // Three paths, the second unwritable: a color apply lands on paths one
    // and three, fails exactly once, and the worker keeps going.
    let mut target = PathSet::new(vec![true, false, true]);
    let content = rusty_kb::content::color_content(255, 65, 105);
    let failures = target.apply_to_all(&content);
    assert_eq!(failures, 1);
    assert_eq!(target.received[0], Some(b"255 65 105\n".to_vec()));
    assert_eq!(target.received[1], None);
    assert_eq!(target.received[2], Some(b"255 65 105\n".to_vec()));
    // The next apply still works on the healthy paths.
    let second = rusty_kb::content::color_content(0, 0, 255);
    let failures = target.apply_to_all(&second);
    assert_eq!(failures, 1);
    assert_eq!(target.received[0], Some(b"0 0 255\n".to_vec()));
    assert_eq!(target.received[1], None);
    assert_eq!(target.received[2], Some(b"0 0 255\n".to_vec()));
}

#[test]
fn policy_single_path_wins_regardless_of_flags() {
    let one: Vec<Vec<u8>> = vec![b"/sys/class/leds/rgb:kbd_backlight".to_vec()];
    let primary = one[0].clone();
    for &(wa, po) in &[(false, false), (true, false), (false, true), (true, true)] {
        let r = keyboard_write_paths(&one, &primary, wa, po);
        assert_eq!(r, one);
    }
}

#[test]
fn policy_primary_only_narrows_two_paths() {
    let two: Vec<Vec<u8>> = vec![
        b"/sys/class/leds/rgb:kbd_backlight_1".to_vec(),
        b"/sys/class/leds/rgb:kbd_backlight".to_vec(),
    ];
    let primary = two[1].clone();
    let r = keyboard_write_paths(&two, &primary, false, true);
    assert_eq!(r, vec![primary.clone()]);
}

#[test]
fn policy_default_writes_all_paths() {
    let two: Vec<Vec<u8>> = vec![
        b"/sys/class/leds/rgb:kbd_backlight_1".to_vec(),
        b"/sys/class/leds/rgb:kbd_backlight".to_vec(),
    ];
    let primary = two[1].clone();
    assert_eq!(keyboard_write_paths(&two, &primary, false, false), two);
    // The write-all flag overrides the primary-only flag.
    assert_eq!(keyboard_write_paths(&two, &primary, true, true), two);
}

#[test]
fn flag_values() {
    assert!(!should_write_all_keyboard_paths(&None));
    assert!(!should_write_all_keyboard_paths(&Some(b"".to_vec())));
    assert!(!should_write_all_keyboard_paths(&Some(b"0".to_vec())));
    assert!(should_write_all_keyboard_paths(&Some(b"1".to_vec())));
    assert!(should_write_all_keyboard_paths(&Some(b"00".to_vec())));
    assert!(should_write_primary_only_keyboard_path(&Some(b"yes".to_vec())));
    assert!(!should_write_primary_only_keyboard_path(&Some(b"0".to_vec())));
}

#[test]
fn primary_path_selection() {
    let nothing_found: Vec<Vec<u8>> = Vec::new();
    assert_eq!(pick_primary(&nothing_found), None);
    let with_canonical: Vec<Vec<u8>> = vec![
        b"/sys/class/leds/rgb:kbd_backlight_1".to_vec(),
        b"/sys/class/leds/rgb:kbd_backlight".to_vec(),
        b"/sys/class/leds/rgb:kbd_backlight_2".to_vec(),
    ];
    assert_eq!(
        pick_primary(&with_canonical),
        Some(b"/sys/class/leds/rgb:kbd_backlight".to_vec())
    );
    let without_canonical: Vec<Vec<u8>> = vec![
        b"/sys/class/leds/rgb:kbd_backlight_1".to_vec(),
        b"/sys/class/leds/rgb:kbd_backlight_2".to_vec(),
    ];
    assert_eq!(
        pick_primary(&without_canonical),
        Some(b"/sys/class/leds/rgb:kbd_backlight_1".to_vec())
    );
}

#[test]
fn attribute_path_join() {
    assert_eq!(
        attr_path(&b"/sys/class/leds/rgb:lightbar".to_vec(), &b"brightness".to_vec()),
        b"/sys/class/leds/rgb:lightbar/brightness".to_vec()
    );
    assert_eq!(
        attr_path(&b"/sys/class/leds/rgb:kbd_backlight".to_vec(), &b"multi_intensity".to_vec()),
        b"/sys/class/leds/rgb:kbd_backlight/multi_intensity".to_vec()
    );
}

#[test]
fn end_to_end_color_selection() {
    // The primary path reads initial color (255, 255, 255) and brightness
    // 12; a color-selected event for (255, 65, 105) arrives; the color
    // attribute receives "255 65 105\n" and line one of the persisted
    // snapshot becomes "255 65 105 12".
    let initial_color = rusty_kb::parse::parse_color(&b"255 255 255\n".to_vec()).unwrap();
    assert_eq!(initial_color, (255, 255, 255));
    let initial_brightness = rusty_kb::parse::parse_brightness(&b"12\n".to_vec()).unwrap();
    assert_eq!(initial_brightness, 12);

    let mut color_worker = WorkerSystem::new(Value::Color(0));
    color_worker.request(Value::Color(pack_rgb(
        initial_color.0,
        initial_color.1,
        initial_color.2,
    )));
    color_worker.wake();

    // The color-selected event.
    let selected = pack_rgb(255, 65, 105);
    color_worker.request(Value::Color(selected));
    color_worker.wake();
    assert_eq!(color_worker.applied.last(), Some(&Value::Color(selected)));

    let (r, g, b) = unpack_rgb(selected);
    let mut target = PathSet::new(vec![true]);
    let content = rusty_kb::content::color_content(r, g, b);
    let failures = target.apply_to_all(&content);
    assert_eq!(failures, 0);
    assert_eq!(target.received[0], Some(b"255 65 105\n".to_vec()));

    let snapshot = snapshot_content(selected, initial_brightness, None, None);
    let line_one: Vec<u8> = snapshot.split(|&b| b == b'\n').next().unwrap().to_vec();
    assert_eq!(line_one, b"255 65 105 12".to_vec());
}

#[test]
fn snapshots_converge_after_events_settle() {
    // A brightness change on one device concurrent with a color change on
    // the other can persist an intermediate snapshot that mixes old and new
    // values; once both workers settle, the snapshot holds the final value
    // of every quantity whichever update fired last.
    let kb_color = pack_rgb(10, 20, 30);
    let lb_color = pack_rgb(200, 100, 0);

    let mut kb_brightness_worker = WorkerSystem::new(Value::Brightness(12));
    let mut lb_color_worker = WorkerSystem::new(Value::Color(lb_color));

    // Device A's brightness moves to 40 while device B's color moves to
    // blue; the two workers settle in either order.
    let new_lb_color = pack_rgb(0, 0, 255);
    kb_brightness_worker.request(Value::Brightness(40));
    lb_color_worker.request(Value::Color(new_lb_color));
    lb_color_worker.wake();
    kb_brightness_worker.wake();

    let settled_after_b_first = snapshot_content(
        kb_color,
        match kb_brightness_worker.register {
            Value::Brightness(v) => v,
            _ => unreachable!(),
        },
        Some(match lb_color_worker.register {
            Value::Color(c) => c,
            _ => unreachable!(),
        }),
        Some(100),
    );

    // The same events with the workers woken in the opposite order.
    let mut kb_brightness_worker = WorkerSystem::new(Value::Brightness(12));
    let mut lb_color_worker = WorkerSystem::new(Value::Color(lb_color));
    kb_brightness_worker.request(Value::Brightness(40));
    lb_color_worker.request(Value::Color(new_lb_color));
    kb_brightness_worker.wake();
    lb_color_worker.wake();

    let settled_after_a_first = snapshot_content(
        kb_color,
        match kb_brightness_worker.register {
            Value::Brightness(v) => v,
            _ => unreachable!(),
        },
        Some(match lb_color_worker.register {
            Value::Color(c) => c,
            _ => unreachable!(),
        }),
        Some(100),
    );

    assert_eq!(settled_after_b_first, settled_after_a_first);
    assert_eq!(settled_after_b_first, b"10 20 30 40\n0 0 255 100\n".to_vec());
}
