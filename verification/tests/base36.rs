use kodama::base36::{base36_to_u32, try_base36_to_u32, u32_to_base36};

#[test]
fn base36_writes_four_digits() {
    assert_eq!(u32_to_base36(0), "0000");
    assert_eq!(u32_to_base36(35), "000Z");
    assert_eq!(u32_to_base36(36), "0010");
    assert_eq!(u32_to_base36(36 * 36 * 36 * 36 - 1), "ZZZZ");
    // Digits above the fourth are dropped.
    assert_eq!(u32_to_base36(36 * 36 * 36 * 36), "0000");
}

#[test]
fn base36_reads_case_insensitively() {
    assert_eq!(base36_to_u32("ZZ"), Ok(36 * 35 + 35));
    assert_eq!(base36_to_u32("zz"), Ok(36 * 35 + 35));
    assert_eq!(base36_to_u32(""), Ok(0));
    assert_eq!(base36_to_u32("1a"), Ok(46));
}

#[test]
fn base36_rejects_other_characters() {
    assert_eq!(base36_to_u32("A-B"), Err("Invalid base36 character"));
    assert_eq!(try_base36_to_u32("A-B"), Some(Err("Invalid base36 character")));
}

#[test]
fn base36_guards_overflow_and_wide_characters() {
    // 36^7 already exceeds u32::MAX.
    assert_eq!(try_base36_to_u32("ZZZZZZZ"), None);
    assert_eq!(try_base36_to_u32("\u{4e2d}"), None);
    assert_eq!(try_base36_to_u32("1Z"), Some(Ok(71)));
}

#[test]
fn base36_round_trip() {
    for n in [0u32, 1, 35, 36, 1295, 46655, 1679615, 1679616, 123456789] {
        let s = u32_to_base36(n);
        assert_eq!(base36_to_u32(&s), Ok(n % 1679616));
    }
}
