use chip8::keypad::{byte_to_key, is_pressed, key_to_byte, Key};

const ALL: [Key; 16] = [
    Key::Key1, Key::Key2, Key::Key3, Key::Key4,
    Key::Q, Key::W, Key::E, Key::R,
    Key::A, Key::S, Key::D, Key::F,
    Key::Z, Key::X, Key::C, Key::V,
];

#[test]
fn keypad_layout() {
    let codes: Vec<u8> = ALL.iter().map(|k| key_to_byte(*k)).collect();
    assert_eq!(codes, vec![0x1, 0x2, 0x3, 0xC, 0x4, 0x5, 0x6, 0xD, 0x7, 0x8, 0x9, 0xE, 0xA, 0x0, 0xB, 0xF]);
}

#[test]
fn keypad_round_trip() {
    for b in 0u8..16 {
        assert_eq!(key_to_byte(byte_to_key(b)), b);
    }
    for k in ALL {
        assert_eq!(byte_to_key(key_to_byte(k)), k);
    }
}

#[test]
fn keypad_pressed_lookup() {
    let keys = vec![Key::Q, Key::V];
    assert!(is_pressed(&keys, 0x4));
    assert!(is_pressed(&keys, 0xF));
    assert!(!is_pressed(&keys, 0x1));
    assert!(!is_pressed(&vec![], 0x0));
    assert!(!is_pressed(&keys, 0x40));
}
