use mac_sniff::mac::MacAddress;
use mac_sniff::store::{
    append_mac_log, decode_mac_log, encode_mac_log, has_enough_space, save_mac_log, scan_file_name,
    StoreError,
};

fn sample_macs() -> Vec<MacAddress> {
    vec![
        MacAddress::new(0x01, 0x02, 0x03, 0x04, 0x05, 0x06),
        MacAddress::new(0x11, 0x22, 0x33, 0x44, 0x55, 0x66),
        MacAddress::new(0xDE, 0xAD, 0xBE, 0xEF, 0x00, 0x01),
    ]
}

#[test]
fn encode_writes_count_header_and_raw_bytes() {
    let macs = sample_macs();
    let data = encode_mac_log(&macs);
    assert_eq!(data.len(), 4 + 3 * 6);
    assert_eq!(&data[0..4], &[3, 0, 0, 0]);
    assert_eq!(&data[4..10], &[0x01, 0x02, 0x03, 0x04, 0x05, 0x06]);
    assert_eq!(&data[10..16], &[0x11, 0x22, 0x33, 0x44, 0x55, 0x66]);
    assert_eq!(&data[16..22], &[0xDE, 0xAD, 0xBE, 0xEF, 0x00, 0x01]);
}

#[test]
fn encode_of_empty_set_is_just_the_header() {
    let data = encode_mac_log(&Vec::new());
    assert_eq!(data, vec![0, 0, 0, 0]);
    assert_eq!(decode_mac_log(&data), Ok(Vec::new()));
}

#[test]
fn decode_inverts_encode() {
    let macs = sample_macs();
    let data = encode_mac_log(&macs);
    assert_eq!(decode_mac_log(&data), Ok(macs));
}

#[test]
fn decode_stops_at_a_truncated_last_record() {
    let macs = sample_macs();
    let data = encode_mac_log(&macs);
    // The header still claims 3 records; the body holds only 2 complete
    // ones. The reader returns those 2 without failing.
    for cut in 1..=5 {
        let short = &data[..data.len() - cut];
        let read = decode_mac_log(short).expect("truncation is tolerated");
        assert_eq!(read, macs[..2].to_vec());
    }
}

#[test]
fn decode_refuses_only_a_short_header() {
    assert_eq!(decode_mac_log(&[]), Err(StoreError::TruncatedHeader));
    assert_eq!(decode_mac_log(&[5, 0, 0]), Err(StoreError::TruncatedHeader));
}

#[test]
fn decode_caps_at_the_header_count() {
    // Header claims 1 record but the body holds 2: only the first is read.
    let mut data = vec![1, 0, 0, 0];
    data.extend_from_slice(&[0xAA; 6]);
    data.extend_from_slice(&[0xBB; 6]);
    let read = decode_mac_log(&data).unwrap();
    assert_eq!(read, vec![MacAddress::new(0xAA, 0xAA, 0xAA, 0xAA, 0xAA, 0xAA)]);
}

#[test]
fn space_check_is_exact_at_the_boundary() {
    assert!(has_enough_space(1000, 900, 100));
    assert!(!has_enough_space(1000, 900, 101));
    assert!(has_enough_space(1000, 1000, 0));
    assert!(!has_enough_space(1000, 1000, 1));
}

#[test]
fn scan_file_name_embeds_the_timestamp() {
    assert_eq!(scan_file_name(0), "scan_0.bin");
    assert_eq!(scan_file_name(1714857600), "scan_1714857600.bin");
}

#[test]
fn save_produces_the_full_log_when_space_allows() {
    let macs = sample_macs();
    let (name, data) = save_mac_log(&macs, 10_000, 100, 42).expect("space is there");
    assert_eq!(name, "scan_42.bin");
    assert_eq!(data, encode_mac_log(&macs));
}

#[test]
fn save_refuses_without_space_and_produces_nothing() {
    let macs = sample_macs();
    // Needed: 4 + 18 = 22 bytes; only 21 are free.
    assert_eq!(
        save_mac_log(&macs, 100, 79, 42),
        Err(StoreError::InsufficientSpace)
    );
    // Exactly 22 free is enough.
    assert!(save_mac_log(&macs, 100, 78, 42).is_ok());
}

#[test]
fn append_to_no_file_starts_a_log_of_one() {
    let mac = MacAddress::new(9, 8, 7, 6, 5, 4);
    let data = append_mac_log(None, &mac).unwrap();
    assert_eq!(data, vec![1, 0, 0, 0, 9, 8, 7, 6, 5, 4]);
}

#[test]
fn append_bumps_the_count_and_adds_the_record() {
    let first = MacAddress::new(1, 1, 1, 1, 1, 1);
    let second = MacAddress::new(2, 2, 2, 2, 2, 2);
    let data = append_mac_log(None, &first).unwrap();
    let data = append_mac_log(Some(&data), &second).unwrap();
    assert_eq!(&data[0..4], &[2, 0, 0, 0]);
    assert_eq!(decode_mac_log(&data), Ok(vec![first, second]));
}

#[test]
fn append_refuses_a_short_header_and_a_full_count() {
    let mac = MacAddress::new(1, 1, 1, 1, 1, 1);
    let short = vec![1u8, 0];
    assert_eq!(
        append_mac_log(Some(&short), &mac),
        Err(StoreError::TruncatedHeader)
    );
    let full = vec![0xFF, 0xFF, 0xFF, 0xFF];
    assert_eq!(
        append_mac_log(Some(&full), &mac),
        Err(StoreError::CountOverflow)
    );
}

#[test]
fn store_error_messages_name_the_failure() {
    assert_eq!(StoreError::InsufficientSpace.message(), "not enough space");
    assert_eq!(StoreError::TruncatedHeader.message(), "truncated record header");
    assert_eq!(StoreError::NotInitialized.message(), "storage not initialized");
    assert_eq!(StoreError::CountOverflow.message(), "record count overflow");
}
