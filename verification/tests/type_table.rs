use ehdump::ActionRecord;
use ehdump::ArchPointerWidth;
use ehdump::DecodeError;
use ehdump::GccExceptTableArea;

const W64: ArchPointerWidth = ArchPointerWidth::Width64Bit;

fn record(filter: i64) -> ActionRecord {
    ActionRecord {
        ar_filter: filter,
        ar_disp: 0,
    }
}

/// An LSDA with a present type table: udata4 entries, table offset 24 past
/// the header end (area position 3), an index list for negative filters,
/// and a zero-length call-site table.
fn area_with_type_table() -> Vec<u8> {
    let mut bytes = vec![0u8; 32];
    bytes[0] = 0xff; // landing-pad base omitted
    bytes[1] = 0x03; // type-table encoding: udata4
    bytes[2] = 24; // type-table offset (uleb128)
    bytes[3] = 0x01; // call-site table encoding
    bytes[4] = 0x00; // call-site table length 0
    // Entry for index 5 sits at area position 3 + 24 - 4*5 = 7; value 0 is
    // the catch-all sentinel.
    bytes[7] = 0;
    // Entry for index 3 sits at area position 3 + 24 - 4*3 = 15; value 0x10
    // resolves to lsda_ptr + 15 + 0x10.
    bytes[15] = 0x10;
    // The index list for filter -2 sits at position 3 + (24 + 2 - 1) = 28.
    bytes[28] = 3;
    bytes[29] = 5;
    bytes[30] = 0;
    bytes
}

/// A filter of 0 yields a cleanup whenever a type table is present.
#[test]
fn zero_filter_is_cleanup_with_table_present() {
    let bytes = area_with_type_table();
    let area = GccExceptTableArea::new(&bytes, 0x4000, W64);
    let table = area.type_table().unwrap();
    assert_eq!(table.get_type(record(0), 0x1000), Ok(vec![]));
}

#[test]
fn positive_filter_resolves_single_index() {
    let bytes = area_with_type_table();
    let area = GccExceptTableArea::new(&bytes, 0x4000, W64);
    let table = area.type_table().unwrap();
    // Index 3: entry at position 15 holding 0x10.
    assert_eq!(table.get_type(record(3), 0x1000), Ok(vec![0x1000 + 15 + 0x10]));
    // Index 5: entry at position 7 holding 0, the catch-all sentinel.
    assert_eq!(table.get_type(record(5), 0x1000), Ok(vec![0]));
}

/// A filter of -2 walks the index list [3, 5, 0]: two resolved addresses,
/// for indices 3 and 5 in that order.
#[test]
fn negative_filter_walks_index_list() {
    let bytes = area_with_type_table();
    let area = GccExceptTableArea::new(&bytes, 0x4000, W64);
    let table = area.type_table().unwrap();
    assert_eq!(
        table.get_type(record(-2), 0x1000),
        Ok(vec![0x1000 + 15 + 0x10, 0])
    );
}

/// The resolved list for a negative filter is as long as the run of
/// non-zero bytes before the first zero at the index-list location.
#[test]
fn negative_filter_list_length_counts_nonzero_bytes() {
    let mut bytes = area_with_type_table();
    // Extend the index list to [3, 5, 3, 0]: three entries resolved.
    bytes[30] = 3;
    bytes[31] = 0;
    let area = GccExceptTableArea::new(&bytes, 0x4000, W64);
    let table = area.type_table().unwrap();
    let resolved = table.get_type(record(-2), 0x1000).unwrap();
    assert_eq!(resolved.len(), 3);
}

/// A type-table encoding byte of 0xff omits the table: every resolution
/// fails as missing, whatever the filter's sign.
#[test]
fn omitted_table_fails_every_resolution() {
    let bytes = vec![0xffu8, 0xff, 0x01, 0x00];
    let area = GccExceptTableArea::new(&bytes, 0x4000, W64);
    let table = area.type_table().unwrap();
    for filter in [0i64, 1, 7, -1, -2] {
        assert_eq!(
            table.get_type(record(filter), 0x1000),
            Err(DecodeError::CannotParseOmitEncoding)
        );
    }
}

/// An encoding without a fixed stride cannot index the table.
#[test]
fn stride_less_encoding_is_reported() {
    let mut bytes = area_with_type_table();
    bytes[1] = 0x01; // uleb128: variable width, no stride
    let area = GccExceptTableArea::new(&bytes, 0x4000, W64);
    let table = area.type_table().unwrap();
    assert_eq!(
        table.get_type(record(3), 0x1000),
        Err(DecodeError::UnknownEncoding)
    );
}

/// The encoding byte is masked to its low four bits before interpretation.
#[test]
fn type_table_encoding_byte_is_masked() {
    let mut bytes = area_with_type_table();
    bytes[1] = 0x93; // high bits set; low bits 0x03 = udata4
    let area = GccExceptTableArea::new(&bytes, 0x4000, W64);
    let table = area.type_table().unwrap();
    assert_eq!(table.get_type(record(3), 0x1000), Ok(vec![0x1000 + 15 + 0x10]));
}
