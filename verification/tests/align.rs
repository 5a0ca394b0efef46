use uki_manager::align::{align_up, check_power_of_two};
use uki_manager::error::Error;

#[test]
fn align_up_rounds_to_the_next_multiple() {
    assert_eq!(align_up(10, 512), Ok(512));
    assert_eq!(align_up(513, 512), Ok(1024));
    assert_eq!(align_up(1, 2), Ok(2));
    assert_eq!(align_up(4097, 4096), Ok(8192));
}

#[test]
fn align_up_leaves_multiples_alone() {
    assert_eq!(align_up(0, 512), Ok(0));
    assert_eq!(align_up(512, 512), Ok(512));
    assert_eq!(align_up(1536, 512), Ok(1536));
    assert_eq!(align_up(7, 1), Ok(7));
}

#[test]
fn align_up_may_leave_32_bits() {
    assert_eq!(align_up(u32::MAX, 512), Ok(0x1_0000_0000));
    assert_eq!(align_up(0x8000_0001, 0x8000_0000), Ok(0x1_0000_0000));
    assert_eq!(align_up(u32::MAX, 1), Ok(0xFFFF_FFFF));
}

#[test]
fn align_up_refuses_zero() {
    assert_eq!(align_up(10, 0), Err(Error::InvalidAlignment));
    assert_eq!(align_up(0, 0), Err(Error::InvalidAlignment));
}

#[test]
fn align_up_refuses_what_is_no_power_of_two() {
    for alignment in [3u32, 6, 12, 511, 513, 0xFFFF_FFFF, 0x8000_0001] {
        assert_eq!(align_up(1024, alignment), Err(Error::InvalidAlignment));
    }
}

#[test]
fn check_power_of_two_knows_all_32() {
    for shift in 0..32 {
        assert!(check_power_of_two(1u32 << shift));
    }
    assert!(!check_power_of_two(0));
    assert!(!check_power_of_two(3));
    assert!(!check_power_of_two(0xFFFF_FFFF));
    assert!(!check_power_of_two(0x8000_0002));
}

#[test]
fn error_messages_differ() {
    let all = [
        Error::InvalidFormat,
        Error::UnsupportedVariant,
        Error::NameTooLong,
        Error::PayloadTooLarge,
        Error::InvalidAlignment,
        Error::HeaderSpaceExhausted,
    ];
    for (i, a) in all.iter().enumerate() {
        for (j, b) in all.iter().enumerate() {
            assert_eq!(a.message() == b.message(), i == j);
        }
    }
    assert_eq!(Error::NameTooLong.message(), "section name is longer than eight bytes");
}
