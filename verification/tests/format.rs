use netmeter::text::{dec_string, format_bytes, hundredths_string, milli_string};

#[test]
fn test_format_bytes() {
    assert_eq!(format_bytes(512), "512.00 B");
    assert_eq!(format_bytes(1024), "1.00 KB");
    assert_eq!(format_bytes(1048576), "1.00 MB");
}

#[test]
fn format_bytes_rounds_and_caps_unit() {
    assert_eq!(format_bytes(0), "0.00 B");
    assert_eq!(format_bytes(1023), "1023.00 B");
    assert_eq!(format_bytes(1536), "1.50 KB");
    assert_eq!(format_bytes(1075), "1.05 KB");
    assert_eq!(format_bytes(1073741824), "1.00 GB");
    // Far past GB the unit stays capped at GB.
    assert_eq!(format_bytes(1024 * 1073741824), "1024.00 GB");
}

#[test]
fn dec_string_renders_digits() {
    assert_eq!(dec_string(0), "0");
    assert_eq!(dec_string(7), "7");
    assert_eq!(dec_string(10), "10");
    assert_eq!(dec_string(987654321), "987654321");
}

#[test]
fn milli_string_two_decimals() {
    assert_eq!(milli_string(150000), "150.00");
    assert_eq!(milli_string(25500), "25.50");
    assert_eq!(milli_string(5), "0.01");
    assert_eq!(milli_string(4), "0.00");
    assert_eq!(milli_string(999), "1.00");
}

#[test]
fn hundredths_string_two_decimals() {
    assert_eq!(hundredths_string(0), "0.00");
    assert_eq!(hundredths_string(105), "1.05");
    assert_eq!(hundredths_string(10000), "100.00");
}
