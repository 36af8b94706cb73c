use sea_tf::keys::{shortcuts_for, translate, CONTROL, MOD1, SHIFT};

const MOD2: u32 = 16;

#[test]
fn up_with_shift_and_bare() {
    assert_eq!(translate(b"Up", SHIFT, b""), b"\x1b[1;2A".to_vec());
    assert_eq!(translate(b"Up", 0, b""), b"\x1b[A".to_vec());
    assert_ne!(translate(b"Up", SHIFT, b""), translate(b"Up", 0, b""));
}

#[test]
fn irrelevant_bits_are_ignored() {
    assert_eq!(translate(b"Up", MOD2, b""), b"\x1b[A".to_vec());
    assert_eq!(translate(b"Up", SHIFT | MOD2, b""), b"\x1b[1;2A".to_vec());
}

#[test]
fn modifier_combinations_of_arrows() {
    assert_eq!(translate(b"Left", SHIFT | CONTROL | MOD1, b""), b"\x1b[1;8D".to_vec());
    assert_eq!(translate(b"Right", CONTROL, b""), b"\x1b[1;5C".to_vec());
    assert_eq!(translate(b"Down", SHIFT | MOD1, b""), b"\x1b[1;4B".to_vec());
}

#[test]
fn first_matching_entry_wins() {
    // the bare entry matches any mask, so it only wins after the others
    assert_eq!(translate(b"End", CONTROL, b""), b"\x1b[J".to_vec());
    assert_eq!(translate(b"End", SHIFT, b""), b"\x1b[K".to_vec());
    assert_eq!(translate(b"End", SHIFT | CONTROL, b""), b"\x1b[4~".to_vec());
    assert_eq!(translate(b"BackSpace", MOD2, b""), b"\x7f".to_vec());
    assert_eq!(translate(b"BackSpace", MOD1, b""), b"\x1b\x7f".to_vec());
}

#[test]
fn unmatched_key_falls_back_to_text() {
    assert_eq!(translate(b"a", 0, b"a\0"), b"a".to_vec());
    assert_eq!(translate(b"Tab", 0, b"\t\0"), b"\t".to_vec());
    assert_eq!(translate(b"BackSpace", CONTROL, b"\x08\0"), b"\x08".to_vec());
    assert_eq!(translate(b"Shift_L", SHIFT, b""), Vec::<u8>::new());
}

#[test]
fn translation_is_deterministic() {
    for mask in 0..256u32 {
        assert_eq!(translate(b"Prior", mask, b"x\0"), translate(b"Prior", mask, b"x\0"));
    }
}

#[test]
fn table_lists_keypad_keys() {
    assert_eq!(shortcuts_for(b"KP_Enter").len(), 1);
    assert_eq!(shortcuts_for(b"KP_Enter")[0].bytes, b"\n".to_vec());
    assert_eq!(shortcuts_for(b"Next").len(), 3);
    assert_eq!(shortcuts_for(b"Nope").len(), 0);
    assert_eq!(translate(b"KP_Next", SHIFT, b""), b"\x1b[6;2~".to_vec());
    assert_eq!(translate(b"Return", MOD1, b""), b"\x1b\n".to_vec());
}
