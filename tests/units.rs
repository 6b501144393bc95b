use lsplus::units::{convert_binary_units, decimal_string};

#[test]
fn zero_bytes() {
    assert_eq!(convert_binary_units(0), "0B");
}

#[test]
fn below_one_kb_is_plain_bytes() {
    assert_eq!(convert_binary_units(1023), "1023B");
    assert_eq!(convert_binary_units(500), "500B");
}

#[test]
fn one_kb_boundary() {
    assert_eq!(convert_binary_units(1024), "1.00KB");
}

#[test]
fn one_mb_boundary() {
    assert_eq!(convert_binary_units(1048576), "1.00MB");
    assert_eq!(convert_binary_units(1048575), "1024.00KB");
}

#[test]
fn one_gb_boundary() {
    assert_eq!(convert_binary_units(1073741824), "1.00GB");
    assert_eq!(convert_binary_units(1073741823), "1024.00MB");
}

#[test]
fn fractions_in_hundredths() {
    assert_eq!(convert_binary_units(1536), "1.50KB");
    assert_eq!(convert_binary_units(2048), "2.00KB");
    assert_eq!(convert_binary_units(1100), "1.07KB");
    assert_eq!(convert_binary_units(5 * 1048576 + 262144), "5.25MB");
}

#[test]
fn ties_round_to_even() {
    assert_eq!(convert_binary_units(1152), "1.12KB");
    assert_eq!(convert_binary_units(1408), "1.38KB");
}

#[test]
fn largest_count() {
    assert_eq!(convert_binary_units(u64::MAX), "17179869184.00GB");
}

#[test]
fn tiers_pick_suffix() {
    for b in [0u64, 1, 1023, 1024, 4096, 1048575, 1048576, 1073741823, 1073741824, u64::MAX] {
        let t = convert_binary_units(b);
        assert_eq!(t.ends_with("GB"), b >= 1073741824);
        assert_eq!(t.ends_with("MB"), (1048576..1073741824).contains(&b));
        assert_eq!(t.ends_with("KB"), (1024..1048576).contains(&b));
        assert_eq!(t == format!("{b}B"), b < 1024);
    }
}

#[test]
fn decimal_digits() {
    assert_eq!(decimal_string(0), "0");
    assert_eq!(decimal_string(907), "907");
    assert_eq!(decimal_string(u64::MAX), "18446744073709551615");
}

