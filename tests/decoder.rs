use chip8::decode::{decode, Decoded};

fn listed(w: u16) -> bool {
    let f = w >> 12;
    let n = w & 0xF;
    let nn = w & 0xFF;
    match f {
        0x0 => w == 0x00E0 || w == 0x00EE,
        0x1 | 0x2 | 0x3 | 0x4 | 0x6 | 0x7 | 0xA | 0xC | 0xD => true,
        0x5 | 0x9 => n == 0,
        0x8 => n <= 7 || n == 0xE,
        0xE => nn == 0x9E || nn == 0xA1,
        0xF => [0x07, 0x0A, 0x15, 0x18, 0x1E, 0x29, 0x33, 0x55, 0x65].contains(&nn),
        _ => false,
    }
}

#[test]
fn decode_every_word_is_total_and_deterministic() {
    for w in 0..=u16::MAX {
        let a = decode(w);
        let b = decode(w);
        assert_eq!(a, b);
        let illegal = matches!(a, Decoded::Illegal(_));
        assert_eq!(illegal, !listed(w), "word {w:04x}");
        if illegal {
            assert_eq!(a, Decoded::Illegal(w));
        }
    }
}

#[test]
fn decode_table_rows() {
    assert_eq!(decode(0x00E0), Decoded::ClearScreen);
    assert_eq!(decode(0x00EE), Decoded::Return);
    assert_eq!(decode(0x1ABC), Decoded::Jump(0xABC));
    assert_eq!(decode(0x2300), Decoded::Call(0x300));
    assert_eq!(decode(0x3A42), Decoded::SkipEqual(0xA, 0x42));
    assert_eq!(decode(0x4B17), Decoded::SkipNotEqual(0xB, 0x17));
    assert_eq!(decode(0x5120), Decoded::SkipEqualXY(1, 2));
    assert_eq!(decode(0x6A02), Decoded::Move(0xA, 0x02));
    assert_eq!(decode(0x7CFF), Decoded::Add(0xC, 0xFF));
    assert_eq!(decode(0x8120), Decoded::MoveXY(1, 2));
    assert_eq!(decode(0x8121), Decoded::Or(1, 2));
    assert_eq!(decode(0x8122), Decoded::And(1, 2));
    assert_eq!(decode(0x8123), Decoded::Xor(1, 2));
    assert_eq!(decode(0x8124), Decoded::AddXY(1, 2));
    assert_eq!(decode(0x8125), Decoded::SubXY(1, 2));
    assert_eq!(decode(0x8126), Decoded::ShiftRight(1, 2));
    assert_eq!(decode(0x8127), Decoded::SubYX(1, 2));
    assert_eq!(decode(0x812E), Decoded::ShiftLeft(1, 2));
    assert_eq!(decode(0x9340), Decoded::SkipNotEqualXY(3, 4));
    assert_eq!(decode(0xA123), Decoded::MoveIndex(0x123));
    assert_eq!(decode(0xC50F), Decoded::Random(5, 0x0F));
    assert_eq!(decode(0xD125), Decoded::Draw(1, 2, 5));
    assert_eq!(decode(0xE39E), Decoded::SkipKey(3));
    assert_eq!(decode(0xE3A1), Decoded::SkipNotKey(3));
    assert_eq!(decode(0xF407), Decoded::DelayTimerGet(4));
    assert_eq!(decode(0xF40A), Decoded::GetKey(4));
    assert_eq!(decode(0xF415), Decoded::DelayTimerSet(4));
    assert_eq!(decode(0xF418), Decoded::SetSoundTimer(4));
    assert_eq!(decode(0xF41E), Decoded::AddIndex(4));
    assert_eq!(decode(0xF429), Decoded::FontChar(4));
    assert_eq!(decode(0xF433), Decoded::Decimal(4));
    assert_eq!(decode(0xF455), Decoded::Store(4));
    assert_eq!(decode(0xF465), Decoded::Load(4));
}

#[test]
fn decode_illegal_words() {
    assert_eq!(decode(0x0000), Decoded::Illegal(0x0000));
    assert_eq!(decode(0x00E1), Decoded::Illegal(0x00E1));
    assert_eq!(decode(0x5121), Decoded::Illegal(0x5121));
    assert_eq!(decode(0x8128), Decoded::Illegal(0x8128));
    assert_eq!(decode(0x9341), Decoded::Illegal(0x9341));
    assert_eq!(decode(0xB123), Decoded::Illegal(0xB123));
    assert_eq!(decode(0xE39F), Decoded::Illegal(0xE39F));
    assert_eq!(decode(0xF400), Decoded::Illegal(0xF400));
    assert_eq!(decode(0xFFFF), Decoded::Illegal(0xFFFF));
}
