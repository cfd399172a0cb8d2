use phonedata::{ErrorKind, Index, PhoneData};

fn le(v: i32) -> [u8; 4] {
    v.to_le_bytes()
}

fn image(version: &[u8], records: &[u8], entries: &[(i32, i32, u8)], trailing: &[u8]) -> Vec<u8> {
    let mut data = Vec::new();
    data.extend_from_slice(version);
    data.extend_from_slice(&le(8 + records.len() as i32));
    data.extend_from_slice(records);
    for (prefix, offset, card) in entries {
        data.extend_from_slice(&le(*prefix));
        data.extend_from_slice(&le(*offset));
        data.push(*card);
    }
    data.extend_from_slice(trailing);
    data
}

#[test]
fn four_bytes_are_read_least_significant_first() {
    assert_eq!(PhoneData::four_u8_to_i32(&[0x78, 0x56, 0x34, 0x12]), 0x1234_5678);
    assert_eq!(PhoneData::four_u8_to_i32(&[0x0d, 0x0f, 0x15, 0x00]), 1_380_109);
    assert_eq!(PhoneData::four_u8_to_i32(&[8, 0, 0, 0]), 8);
    assert_eq!(PhoneData::four_u8_to_i32(&[0, 1, 0, 0]), 256);
    assert_eq!(PhoneData::four_u8_to_i32(&[0, 0, 1, 0]), 65_536);
    assert_eq!(PhoneData::four_u8_to_i32(&[0, 0, 0, 1]), 16_777_216);
}

#[test]
fn four_bytes_with_the_top_bit_set_are_negative() {
    assert_eq!(PhoneData::four_u8_to_i32(&[0xff, 0xff, 0xff, 0xff]), -1);
    assert_eq!(PhoneData::four_u8_to_i32(&[0, 0, 0, 0x80]), i32::MIN);
    assert_eq!(PhoneData::four_u8_to_i32(&[0xff, 0xff, 0xff, 0x7f]), i32::MAX);
    assert_eq!(PhoneData::four_u8_to_i32(&[0xfe, 0xff, 0xff, 0xff]), -2);
}

#[test]
fn fewer_than_four_bytes_are_read_as_a_shorter_number() {
    assert_eq!(PhoneData::four_u8_to_i32(&[]), 0);
    assert_eq!(PhoneData::four_u8_to_i32(&[7]), 7);
    assert_eq!(PhoneData::four_u8_to_i32(&[1, 2]), 513);
    assert_eq!(PhoneData::four_u8_to_i32(&[0xff, 0xff, 0xff]), 0x00ff_ffff);
}

#[test]
fn four_bytes_agree_with_the_standard_decoding() {
    for v in [0, 1, -1, 8, 255, 256, 1_380_013, 9_999_999, i32::MAX, i32::MIN, -123_456_789] {
        assert_eq!(PhoneData::four_u8_to_i32(&le(v)), v);
    }
}

#[test]
fn load_splits_header_records_and_index() {
    let records = b"Beijing|Beijing|100000|010\0Guangdong|Shenzhen|518000|0755\0";
    let data = image(b"2410", records, &[(1_380_013, 8, 1), (1_380_109, 35, 2)], &[]);
    let db = PhoneData::from_bytes(&data).unwrap();
    assert_eq!(db.version().as_str(), "2410");
    assert_eq!(db.records().as_slice(), &records[..]);
    assert_eq!(
        db.index().as_slice(),
        &[
            Index { phone_no_prefix: 1_380_013, records_offset: 8, card_type: 1 },
            Index { phone_no_prefix: 1_380_109, records_offset: 35, card_type: 2 },
        ][..]
    );
}

#[test]
fn load_of_header_alone_gives_an_empty_database() {
    let data = image(b"v1.0", b"", &[], &[]);
    assert_eq!(data.len(), 8);
    let db = PhoneData::from_bytes(&data).unwrap();
    assert_eq!(db.version().as_str(), "v1.0");
    assert!(db.records().is_empty());
    assert!(db.index().is_empty());
}

#[test]
fn load_decodes_a_version_tag_that_is_not_ascii() {
    // two two-byte characters
    let data = image("éé".as_bytes(), b"x\0", &[], &[]);
    let db = PhoneData::from_bytes(&data).unwrap();
    assert_eq!(db.version().as_str(), "éé");
    assert_eq!(db.version().chars().count(), 2);
}

#[test]
fn load_refuses_a_short_header() {
    for n in 0..8 {
        let data = vec![b'1'; n];
        assert_eq!(PhoneData::from_bytes(&data).unwrap_err(), ErrorKind::InvalidPhoneDatabase);
    }
}

#[test]
fn load_refuses_a_version_tag_that_is_not_text() {
    let data = image(&[0xff, 0xfe, 0x00, 0x01], b"", &[], &[]);
    assert_eq!(PhoneData::from_bytes(&data).unwrap_err(), ErrorKind::InvalidPhoneDatabase);
    // a character cut off at the end of the tag
    let data = image(&[b'a', b'b', b'c', 0xc3], b"", &[], &[]);
    assert_eq!(PhoneData::from_bytes(&data).unwrap_err(), ErrorKind::InvalidPhoneDatabase);
}

#[test]
fn load_refuses_an_index_inside_the_header() {
    for offset in [0, 1, 7, -1, i32::MIN] {
        let mut data = b"2410".to_vec();
        data.extend_from_slice(&le(offset));
        data.extend_from_slice(&[0u8; 32]);
        assert_eq!(PhoneData::from_bytes(&data).unwrap_err(), ErrorKind::InvalidPhoneDatabase);
    }
}

#[test]
fn load_refuses_an_index_behind_the_end() {
    let mut data = b"2410".to_vec();
    data.extend_from_slice(&le(20));
    data.extend_from_slice(&[b'x'; 11]);
    assert_eq!(data.len(), 19);
    assert_eq!(PhoneData::from_bytes(&data).unwrap_err(), ErrorKind::InvalidPhoneDatabase);
    data.push(b'x');
    let db = PhoneData::from_bytes(&data).unwrap();
    assert_eq!(db.records().len(), 12);
    assert!(db.index().is_empty());
    let mut data = b"2410".to_vec();
    data.extend_from_slice(&le(i32::MAX));
    assert_eq!(PhoneData::from_bytes(&data).unwrap_err(), ErrorKind::InvalidPhoneDatabase);
}

#[test]
fn load_passes_over_a_partial_last_slot() {
    for extra in 1..9 {
        let trailing = vec![0xabu8; extra];
        let data = image(b"2410", b"a|b|c|d\0", &[(1, 8, 1), (2, 8, 2), (3, 8, 3)], &trailing);
        let db = PhoneData::from_bytes(&data).unwrap();
        assert_eq!(db.index().len(), 3);
        assert_eq!(db.index()[2], Index { phone_no_prefix: 3, records_offset: 8, card_type: 3 });
    }
    let data = image(b"2410", b"a|b|c|d\0", &[], &[1, 2, 3, 4, 5, 6, 7, 8]);
    assert!(PhoneData::from_bytes(&data).unwrap().index().is_empty());
}

#[test]
fn load_keeps_the_order_of_the_image() {
    let entries: Vec<(i32, i32, u8)> =
        (0..200).map(|i| (1_300_000 + 7 * i, 8, (i % 8 + 1) as u8)).collect();
    let data = image(b"2410", b"a|b|c|d\0", &entries, &[]);
    let db = PhoneData::from_bytes(&data).unwrap();
    let index = db.index();
    assert_eq!(index.len(), 200);
    for (a, b) in index.iter().zip(index.iter().skip(1)) {
        assert!(a.phone_no_prefix < b.phone_no_prefix);
    }
    for (slot, entry) in index.iter().enumerate() {
        assert_eq!(entry.phone_no_prefix, entries[slot].0);
        assert_eq!(entry.card_type, entries[slot].2);
    }
}

#[test]
fn load_does_not_sort_an_unsorted_image() {
    let data = image(b"2410", b"a|b|c|d\0", &[(30, 8, 1), (10, 8, 2), (20, 8, 3)], &[]);
    let db = PhoneData::from_bytes(&data).unwrap();
    let prefixes: Vec<i32> = db.index().iter().map(|e| e.phone_no_prefix).collect();
    assert_eq!(prefixes, vec![30, 10, 20]);
}

#[test]
fn load_reads_negative_fields_of_a_slot() {
    let data = image(b"2410", b"", &[(-5, -1, 255)], &[]);
    let db = PhoneData::from_bytes(&data).unwrap();
    assert_eq!(db.index()[0], Index { phone_no_prefix: -5, records_offset: -1, card_type: 255 });
}

#[test]
fn database_of_parts_holds_them_as_given() {
    let index = vec![
        Index { phone_no_prefix: 1_380_013, records_offset: 8, card_type: 1 },
        Index { phone_no_prefix: 1_380_014, records_offset: 8, card_type: 3 },
    ];
    let records = b"Beijing|Beijing|100000|010\0".to_vec();
    let db = PhoneData::from_parts("2410".to_string(), records.clone(), index.clone());
    assert_eq!(db.version().as_str(), "2410");
    assert_eq!(db.records(), &records);
    assert_eq!(db.index(), &index);
    assert_eq!(db.find("13800140000").unwrap().card_type().as_str(), "中国电信");
}

#[test]
fn database_of_parts_equals_the_loaded_image() {
    let records = b"Beijing|Beijing|100000|010\0";
    let data = image(b"2410", records, &[(1_380_013, 8, 1), (1_380_014, 8, 3)], &[7, 7]);
    let loaded = PhoneData::from_bytes(&data).unwrap();
    let built = PhoneData::from_parts(
        "2410".to_string(),
        records.to_vec(),
        vec![
            Index { phone_no_prefix: 1_380_013, records_offset: 8, card_type: 1 },
            Index { phone_no_prefix: 1_380_014, records_offset: 8, card_type: 3 },
        ],
    );
    assert_eq!(loaded.version(), built.version());
    assert_eq!(loaded.records(), built.records());
    assert_eq!(loaded.index(), built.index());
}
