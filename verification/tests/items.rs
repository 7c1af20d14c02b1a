use uxn_core_emulator::{Item, ItemSize, StackMode};

#[test]
fn increment_adds_one() {
    assert_eq!(Item::Byte(0x01).increment(), Item::Byte(0x02));
    assert_eq!(Item::Short(0x00ff).increment(), Item::Short(0x0100));
}

#[test]
fn increment_wraps_at_the_width() {
    assert_eq!(Item::Byte(0xff).increment(), Item::Byte(0x00));
    assert_eq!(Item::Short(0xffff).increment(), Item::Short(0x0000));
}

#[test]
fn increment_is_adding_one() {
    for n in [0x00u8, 0x01, 0x7f, 0x80, 0xfe, 0xff] {
        assert_eq!(Item::Byte(n).increment(), Item::Byte(n) + Item::Byte(1));
    }
    for n in [0x0000u16, 0x00ff, 0x7fff, 0x8000, 0xfffe, 0xffff] {
        assert_eq!(Item::Short(n).increment(), Item::Short(n) + Item::Short(1));
    }
}

#[test]
fn shift_goes_right_then_left() {
    assert_eq!(Item::Byte(0x34).shift(1, 0), Item::Byte(0x68));
    assert_eq!(Item::Byte(0x34).shift(0, 1), Item::Byte(0x1a));
    assert_eq!(Item::Short(0x1248).shift(3, 4), Item::Short(0x0920));
    // The bit shifted out to the right does not come back.
    assert_eq!(Item::Byte(0x01).shift(1, 1), Item::Byte(0x00));
    // Bits leaving to the left are lost.
    assert_eq!(Item::Byte(0x81).shift(1, 0), Item::Byte(0x02));
    assert_eq!(Item::Short(0x8001).shift(4, 0), Item::Short(0x0010));
}

#[test]
fn shift_by_the_width_or_more_gives_zero() {
    assert_eq!(Item::Byte(0xff).shift(0, 8), Item::Byte(0));
    assert_eq!(Item::Byte(0xff).shift(8, 0), Item::Byte(0));
    assert_eq!(Item::Byte(0xff).shift(255, 0), Item::Byte(0));
    assert_eq!(Item::Byte(0xff).shift(0, 255), Item::Byte(0));
    assert_eq!(Item::Short(0xffff).shift(0, 16), Item::Short(0));
    assert_eq!(Item::Short(0xffff).shift(16, 0), Item::Short(0));
    assert_eq!(Item::Short(0xffff).shift(0, 15), Item::Short(1));
    assert_eq!(Item::Short(0xffff).shift(15, 0), Item::Short(0x8000));
    assert_eq!(Item::Byte(0xff).shift(7, 7), Item::Byte(0x80));
}

#[test]
fn arithmetic_wraps() {
    assert_eq!(Item::Byte(0xff) + Item::Byte(0x02), Item::Byte(0x01));
    assert_eq!(Item::Short(0xffff) + Item::Short(0x0002), Item::Short(0x0001));
    assert_eq!(Item::Byte(0x01) - Item::Byte(0x02), Item::Byte(0xff));
    assert_eq!(Item::Short(0x0000) - Item::Short(0x0001), Item::Short(0xffff));
    assert_eq!(Item::Byte(0x10) * Item::Byte(0x10), Item::Byte(0x00));
    assert_eq!(Item::Byte(0x03) * Item::Byte(0x04), Item::Byte(0x0c));
    assert_eq!(Item::Short(0x0100) * Item::Short(0x0101), Item::Short(0x0100));
    assert_eq!(Item::Short(0x1234) * Item::Short(0x0010), Item::Short(0x2340));
}

#[test]
fn division_truncates_and_gives_zero_by_zero() {
    assert_eq!(Item::Byte(7) / Item::Byte(2), Item::Byte(3));
    assert_eq!(Item::Short(0xffff) / Item::Short(0x0100), Item::Short(0x00ff));
    assert_eq!(Item::Byte(7) / Item::Byte(0), Item::Byte(0));
    assert_eq!(Item::Short(0x1234) / Item::Short(0), Item::Short(0));
    assert_eq!(Item::Byte(0) / Item::Byte(0), Item::Byte(0));
}

#[test]
fn quotient_times_divisor_plus_remainder_gives_the_dividend() {
    for a in [0u8, 1, 7, 100, 200, 255] {
        for b in [1u8, 2, 3, 16, 255] {
            let back = (Item::Byte(a) / Item::Byte(b)) * Item::Byte(b) + Item::Byte(a % b);
            assert_eq!(back, Item::Byte(a));
        }
    }
    for a in [0u16, 1, 0x00ff, 0x1234, 0xffff] {
        for b in [1u16, 7, 0x0100, 0xffff] {
            let back = (Item::Short(a) / Item::Short(b)) * Item::Short(b) + Item::Short(a % b);
            assert_eq!(back, Item::Short(a));
        }
    }
}

#[test]
fn bitwise_operations() {
    assert_eq!(Item::Byte(0xfc) & Item::Byte(0x3f), Item::Byte(0x3c));
    assert_eq!(Item::Byte(0xf0) | Item::Byte(0x0f), Item::Byte(0xff));
    assert_eq!(Item::Byte(0xff) ^ Item::Byte(0x0f), Item::Byte(0xf0));
    assert_eq!(Item::Short(0xff00) & Item::Short(0x0ff0), Item::Short(0x0f00));
    assert_eq!(Item::Short(0xff00) | Item::Short(0x0ff0), Item::Short(0xfff0));
    assert_eq!(Item::Short(0xff00) ^ Item::Short(0x0ff0), Item::Short(0xf0f0));
}

#[test]
fn items_are_ordered_as_unsigned_numbers() {
    assert!(Item::Byte(0x01) < Item::Byte(0x02));
    assert!(Item::Byte(0xff) > Item::Byte(0x7f));
    assert!(Item::Short(0x8000) > Item::Short(0x7fff));
    assert!(Item::Short(0x0001) < Item::Short(0xffff));
    assert!(!(Item::Byte(5) < Item::Byte(5)));
    assert!(!(Item::Byte(5) > Item::Byte(5)));
    assert!(Item::Byte(5) <= Item::Byte(5));
    assert_eq!(Item::Byte(1).max(Item::Byte(2)), Item::Byte(2));
    assert_eq!(Item::Short(0xffff).min(Item::Short(0)), Item::Short(0));
}

#[test]
fn items_are_compared_with_their_width() {
    assert_eq!(Item::Byte(1), Item::Byte(1));
    assert_ne!(Item::Byte(1), Item::Byte(2));
    assert_ne!(Item::Byte(1), Item::Short(1));
    assert!(Item::Byte(0xff) < Item::Short(0));
}

#[test]
fn small_enums_compare() {
    assert_eq!(ItemSize::Byte, ItemSize::Byte);
    assert_ne!(ItemSize::Byte, ItemSize::Short);
    assert_ne!(StackMode::Working, StackMode::Return);
}
