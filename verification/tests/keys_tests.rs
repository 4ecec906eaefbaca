use robeats_bot::{get_char_code, get_code_name, get_egui_code, Key};

#[test]
fn egui_codes() {
    assert_eq!(get_egui_code(Key::A), Some(0x41));
    assert_eq!(get_egui_code(Key::Z), Some(0x5A));
    assert_eq!(get_egui_code(Key::Num0), Some(0x30));
    assert_eq!(get_egui_code(Key::Num9), Some(0x39));
    assert_eq!(get_egui_code(Key::Space), Some(0x20));
    assert_eq!(get_egui_code(Key::Enter), Some(0x0D));
    assert_eq!(get_egui_code(Key::ArrowLeft), Some(0x25));
    assert_eq!(get_egui_code(Key::ArrowUp), Some(0x26));
    assert_eq!(get_egui_code(Key::ArrowRight), Some(0x27));
    assert_eq!(get_egui_code(Key::ArrowDown), Some(0x28));
    assert_eq!(get_egui_code(Key::Escape), None);
    assert_eq!(get_egui_code(Key::Other), None);
}

#[test]
fn char_codes() {
    assert_eq!(get_char_code('a'), Some(0x41));
    assert_eq!(get_char_code('z'), Some(0x5A));
    assert_eq!(get_char_code('Q'), Some(0x51));
    assert_eq!(get_char_code('0'), Some(0x30));
    assert_eq!(get_char_code('7'), Some(0x37));
    assert_eq!(get_char_code('.'), Some(0xBE));
    assert_eq!(get_char_code('/'), Some(0xBF));
    assert_eq!(get_char_code(','), Some(0xBC));
    assert_eq!(get_char_code(';'), Some(0xBA));
    assert_eq!(get_char_code('='), Some(0xBB));
    assert_eq!(get_char_code('-'), Some(0xBD));
    assert_eq!(get_char_code('['), Some(0xDB));
    assert_eq!(get_char_code(']'), Some(0xDD));
    assert_eq!(get_char_code('\\'), Some(0xDC));
    assert_eq!(get_char_code('\''), Some(0xDE));
    assert_eq!(get_char_code('`'), Some(0xC0));
    assert_eq!(get_char_code(' '), Some(0x20));
    assert_eq!(get_char_code('!'), None);
    assert_eq!(get_char_code('é'), None);
}

#[test]
fn code_names() {
    assert_eq!(get_code_name(0x41), "A");
    assert_eq!(get_code_name(0x5A), "Z");
    assert_eq!(get_code_name(0x35), "5");
    assert_eq!(get_code_name(0xBE), ".");
    assert_eq!(get_code_name(0xDC), "\\");
    assert_eq!(get_code_name(0xDE), "'");
    assert_eq!(get_code_name(0xC0), "`");
    assert_eq!(get_code_name(0x20), "Space");
    assert_eq!(get_code_name(0x0D), "Enter");
    assert_eq!(get_code_name(0x25), "\u{2190}");
    assert_eq!(get_code_name(0x26), "\u{2191}");
    assert_eq!(get_code_name(0x27), "\u{2192}");
    assert_eq!(get_code_name(0x28), "\u{2193}");
}

#[test]
fn code_names_in_hex() {
    assert_eq!(get_code_name(0x07), "0x07");
    assert_eq!(get_code_name(0x00), "0x00");
    assert_eq!(get_code_name(0x10), "0x10");
    assert_eq!(get_code_name(0xA0), "0xA0");
    assert_eq!(get_code_name(0x1FF), "0x1FF");
    assert_eq!(get_code_name(0xFFFF), "0xFFFF");
    assert_eq!(get_code_name(0x40), "0x40");
    assert_eq!(get_code_name(0x5B), "0x5B");
}

#[test]
fn typed_keys_show_their_character() {
    for c in ('a'..='z').chain('A'..='Z').chain('0'..='9').chain(".,;=-[]\\'`/".chars()) {
        let code = get_char_code(c).unwrap();
        assert_eq!(get_code_name(code), c.to_ascii_uppercase().to_string());
    }
    assert_eq!(get_code_name(get_char_code(' ').unwrap()), "Space");
}

#[test]
fn typed_and_pressed_keys_agree() {
    let pairs = [(Key::A, 'a'), (Key::M, 'm'), (Key::Z, 'z'), (Key::Num0, '0'), (Key::Num9, '9'), (Key::Space, ' ')];
    for (k, c) in pairs {
        assert_eq!(get_egui_code(k), get_char_code(c));
        assert_eq!(get_egui_code(k), get_char_code(c.to_ascii_uppercase()));
    }
}

#[test]
fn pressed_keys_have_names() {
    let keys = [Key::A, Key::Num3, Key::Space, Key::Enter, Key::ArrowLeft, Key::ArrowDown];
    for k in keys {
        let name = get_code_name(get_egui_code(k).unwrap());
        assert!(!name.starts_with("0x"));
    }
}
