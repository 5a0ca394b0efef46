use uki_manager::checksum::checksum;

#[test]
fn checksum_of_nothing_is_zero() {
    assert_eq!(checksum(&[]), 0);
}

#[test]
fn checksum_adds_words_and_length() {
    // words 0x0001 and 0x0002, length 4
    assert_eq!(checksum(&[1, 0, 2, 0]), 3 + 4);
}

#[test]
fn checksum_pads_a_trailing_byte_with_zero() {
    // words 0x0201 and 0x0003, length 3
    assert_eq!(checksum(&[1, 2, 3]), 0x0201 + 0x0003 + 3);
}

#[test]
fn checksum_folds_the_carry_back_in() {
    // 0xFFFF + 0x0002 = 0x1_0001, folded to 0x0002; length 4
    assert_eq!(checksum(&[0xFF, 0xFF, 2, 0]), 2 + 4);
}

#[test]
fn checksum_of_all_ones_words_stays_all_ones() {
    // 0xFFFF + 0xFFFF = 0x1_FFFE, folded to 0xFFFF; length 4
    assert_eq!(checksum(&[0xFF, 0xFF, 0xFF, 0xFF]), 0xFFFF + 4);
}
