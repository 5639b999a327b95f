use mac_sniff::mac::MacAddress;
use mac_sniff::storage::{
    csv_line, mac_to_csv, nvs_mac_key, storage_path, SdCardStorage, SpiffsStorage, StorageType,
};
use mac_sniff::store::{encode_mac_log, StoreError};

#[test]
fn storage_types_are_distinct() {
    assert_ne!(StorageType::Nvs, StorageType::Spiffs);
    assert_ne!(StorageType::Spiffs, StorageType::SdCard);
}

#[test]
fn paths_join_base_and_file_name() {
    assert_eq!(storage_path("/spffs", "scan_1.bin"), "/spffs/scan_1.bin");
}

#[test]
fn nvs_keys_are_indexed() {
    assert_eq!(nvs_mac_key(0), "mac_0");
    assert_eq!(nvs_mac_key(42), "mac_42");
}

#[test]
fn spiffs_write_produces_path_and_encoded_log() {
    let store = SpiffsStorage::new("/spffs");
    let macs = vec![MacAddress::new(1, 2, 3, 4, 5, 6)];
    let (path, data) = store.write_macs_binary(&macs, "log.bin").unwrap();
    assert_eq!(path, "/spffs/log.bin");
    assert_eq!(data, encode_mac_log(&macs));
}

#[test]
fn spiffs_append_and_read_round_trip() {
    let store = SpiffsStorage::new("/spffs");
    let first = MacAddress::new(1, 1, 1, 1, 1, 1);
    let second = MacAddress::new(2, 2, 2, 2, 2, 2);
    let (path, data) = store.append_mac_binary(&first, "log.bin", None).unwrap();
    assert_eq!(path, "/spffs/log.bin");
    let (_, data) = store
        .append_mac_binary(&second, "log.bin", Some(&data))
        .unwrap();
    let read = store.read_macs_binary(Some(&data)).unwrap();
    assert_eq!(read, vec![first, second]);
}

#[test]
fn spiffs_missing_file_reads_as_empty() {
    let store = SpiffsStorage::new("/spffs");
    assert_eq!(store.read_macs_binary(None), Ok(Vec::new()));
}

#[test]
fn spiffs_short_header_is_refused_on_read() {
    let store = SpiffsStorage::new("/spffs");
    assert_eq!(
        store.read_macs_binary(Some(&[1, 0])),
        Err(StoreError::TruncatedHeader)
    );
}

#[test]
fn mac_renders_as_colon_separated_hex() {
    let mac = MacAddress::new(0xDE, 0xAD, 0xBE, 0xEF, 0x00, 0x01);
    assert_eq!(mac_to_csv(&mac), "de:ad:be:ef:00:01");
}

#[test]
fn csv_line_has_index_address_and_timestamp() {
    let mac = MacAddress::new(0xAA, 0xBB, 0xCC, 0x00, 0x11, 0x22);
    assert_eq!(csv_line(7, &mac, 1714857600), "7,aa:bb:cc:00:11:22,1714857600\n");
}

#[test]
fn sdcard_csv_file_has_header_and_indexed_rows() {
    let store = SdCardStorage::new("/sdcard");
    let macs = vec![
        MacAddress::new(0xAA, 0xAA, 0xAA, 0xAA, 0xAA, 0xAA),
        MacAddress::new(0xBB, 0xBB, 0xBB, 0xBB, 0xBB, 0xBB),
    ];
    let content = store.write_macs_csv(&macs, 99).unwrap();
    assert_eq!(
        content,
        "index,mac_address,timestamp\n\
         0,aa:aa:aa:aa:aa:aa,99\n\
         1,bb:bb:bb:bb:bb:bb,99\n"
    );
}

#[test]
fn sdcard_append_writes_header_only_for_new_files() {
    let store = SdCardStorage::new("/sdcard");
    let mac = MacAddress::new(1, 2, 3, 4, 5, 6);
    assert_eq!(
        store.append_mac(&mac, 5, false).unwrap(),
        "index,mac_address,timestamp\n0,01:02:03:04:05:06,5\n"
    );
    assert_eq!(
        store.append_mac(&mac, 5, true).unwrap(),
        "0,01:02:03:04:05:06,5\n"
    );
}
