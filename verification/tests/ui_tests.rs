use pesu_wifi::ui::{visual_len, BOLD, GREEN};

#[test]
fn test_visual_len() {
    let plain = "PESU WiFi Status";
    let colored = format!("{}{}{}\x1b[0m", BOLD, GREEN, plain);
    assert_eq!(visual_len(plain), plain.len());
    assert_eq!(visual_len(&colored), plain.len());
    assert_eq!(visual_len(""), 0);
}

use pesu_wifi::ui::{color, color_enabled, CYAN, DIM, RED, YELLOW};

#[test]
fn colouring() {
    assert_eq!(color(true, RED, "x"), "\x1b[91mx\x1b[0m");
    assert_eq!(color(false, RED, "x"), "x");
    assert_eq!(visual_len(&color(true, CYAN, "wide text")), 9);
    assert_eq!(visual_len(&format!("{}{}", color(true, DIM, "ab"), color(true, YELLOW, "c"))), 3);
}

#[test]
fn visual_len_counts_characters() {
    assert_eq!(visual_len("╭──"), 3);
    assert_eq!(visual_len("a\x1b[1;31mb"), 2);
    assert_eq!(visual_len("\x1b[0"), 0);
}

#[test]
fn force_color_switch() {
    assert!(color_enabled(false, Some("1")));
    assert!(!color_enabled(true, Some("0")));
    assert!(color_enabled(true, Some("yes")));
    assert!(!color_enabled(false, Some("")));
    assert!(color_enabled(true, None));
    assert!(!color_enabled(false, None));
}
