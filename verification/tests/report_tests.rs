use mac_sniff::report::{final_count_text, macs_found_text, size_report_lines, time_left_text};
use mac_sniff::text::{bytes_to_hex, u64_to_dec};

#[test]
fn decimal_rendering_matches_std() {
    for n in [0u64, 1, 9, 10, 99, 100, 12345, 1_000_000, u64::MAX] {
        assert_eq!(u64_to_dec(n), n.to_string());
    }
}

#[test]
fn hex_rendering_is_lowercase_two_digits_per_byte() {
    assert_eq!(bytes_to_hex(&[]), "");
    assert_eq!(bytes_to_hex(&[0x00]), "00");
    assert_eq!(bytes_to_hex(&[0x0F, 0xA0, 0xFF]), "0fa0ff");
}

#[test]
fn status_texts_are_worded_exactly() {
    assert_eq!(time_left_text(27), "Time left: 27s");
    assert_eq!(macs_found_text(2), "MACs found: 2");
    assert_eq!(final_count_text(15), "Found 15 MACs");
}

#[test]
fn size_report_names_total_and_used() {
    let lines = size_report_lines(1_048_576, 4096);
    assert_eq!(lines, vec!["Total: 1048576 bytes", "Used: 4096 bytes"]);
}
