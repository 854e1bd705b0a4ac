use sendme::fmt::{Bytes, Duration};

#[test]
fn bytes_small_counts_are_plain() {
    assert_eq!(Bytes(0).render(), "   0 B");
    assert_eq!(Bytes(7).render(), "   7 B");
    assert_eq!(Bytes(2047).render(), "2047 B");
}

#[test]
fn bytes_switch_to_kib_at_2048() {
    assert_eq!(Bytes(2048).render(), "2.00 KiB");
    assert_eq!(Bytes(10 * 1024).render(), "10.0 KiB");
    assert_eq!(Bytes(100 * 1024).render(), " 100 KiB");
}

#[test]
fn bytes_precision_follows_magnitude() {
    assert_eq!(Bytes(2500).render(), "2.44 KiB");
    assert_eq!(Bytes(50 * 1024 + 512).render(), "50.5 KiB");
    assert_eq!(Bytes(2047 * 1024).render(), "2047 KiB");
}

#[test]
fn bytes_round_half_to_even() {
    // 2176 / 1024 = 2.125 exactly
    assert_eq!(Bytes(2176).render(), "2.12 KiB");
    // 2.135 is not exact; 2.1357421875 rounds up
    assert_eq!(Bytes(2187).render(), "2.14 KiB");
    // 9.999 KiB rounds to 10.00
    assert_eq!(Bytes(10 * 1024 - 1).render(), "10.00 KiB");
}

#[test]
fn bytes_larger_units() {
    assert_eq!(Bytes(2048 * 1024).render(), "2.00 MiB");
    assert_eq!(Bytes(2048 * 1024 * 1024).render(), "2.00 GiB");
    assert_eq!(Bytes(1000 * 1024 * 1024 * 1024).render(), "1000 GiB");
}

#[test]
fn duration_forms() {
    assert_eq!(Duration(0).render(), "0:00");
    assert_eq!(Duration(59).render(), "0:59");
    assert_eq!(Duration(61).render(), "1:01");
    assert_eq!(Duration(3599).render(), "59:59");
    assert_eq!(Duration(3600).render(), "1:00:00");
    assert_eq!(Duration(3661).render(), "1:01:01");
    assert_eq!(Duration(86399).render(), "23:59:59");
    assert_eq!(Duration(86400).render(), "1:00:00:00");
    assert_eq!(Duration(2 * 86400 + 3 * 3600 + 4 * 60 + 5).render(), "2:03:04:05");
}
