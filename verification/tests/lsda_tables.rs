use ehdump::ArchPointerWidth;
use ehdump::ByteCursor;
use ehdump::DecodeError;
use ehdump::GccExceptTableArea;
use ehdump::bits_to_i64;
use ehdump::encodings::read_encoded_pointer;

const W64: ArchPointerWidth = ArchPointerWidth::Width64Bit;

#[test]
fn uleb128_decodes_multi_byte_value() {
    let data = [0xe5u8, 0x8e, 0x26];
    let mut c = ByteCursor::new(&data);
    assert_eq!(c.read_uleb128(), Ok(624485));
}

#[test]
fn sleb128_decodes_negative_value() {
    let data = [0x9bu8, 0xf1, 0x59];
    let mut c = ByteCursor::new(&data);
    let bits = c.read_sleb128().unwrap();
    assert_eq!(bits_to_i64(bits), -624485);
}

#[test]
fn read_u8_past_end_is_eof() {
    let data: [u8; 0] = [];
    let mut c = ByteCursor::new(&data);
    assert_eq!(c.read_u8(), Err(DecodeError::UnexpectedEof));
}

#[test]
fn uleb128_overlong_is_bad_leb() {
    let data = [0x80u8, 0x80, 0x80, 0x80, 0x80, 0x80, 0x80, 0x80, 0x80, 0x7f];
    let mut c = ByteCursor::new(&data);
    assert_eq!(c.read_uleb128(), Err(DecodeError::BadLeb128));
}

#[test]
fn fixed_reads_are_little_endian() {
    let data = [0x34u8, 0x12, 0xff, 0xff];
    let mut c = ByteCursor::new(&data);
    assert_eq!(c.read_unsigned(2), Ok(0x1234));
    let mut c2 = ByteCursor::new(&data[2..]);
    assert_eq!(c2.read_signed(2), Ok((-1i64) as u64));
}

#[test]
fn omit_encoding_is_refused() {
    let data = [0x01u8];
    let mut c = ByteCursor::new(&data);
    assert_eq!(
        read_encoded_pointer(&mut c, 0xff, W64),
        Err(DecodeError::CannotParseOmitEncoding)
    );
}

#[test]
fn unknown_encoding_is_reported() {
    let data = [0x01u8];
    let mut c = ByteCursor::new(&data);
    assert_eq!(
        read_encoded_pointer(&mut c, 0x05, W64),
        Err(DecodeError::UnknownEncoding)
    );
}

#[test]
fn absptr_reads_eight_bytes_under_32_bit_width() {
    // The absolute-pointer mapping is inverted on purpose: 8 bytes under a
    // 32-bit width, 4 bytes under a 64-bit one.
    let data = [0x01u8, 0x02, 0x03, 0x04, 0x05, 0x06, 0x07, 0x08];
    let mut c = ByteCursor::new(&data);
    assert_eq!(
        read_encoded_pointer(&mut c, 0x00, ArchPointerWidth::Width32Bit),
        Ok(0x0807060504030201)
    );
    let mut c2 = ByteCursor::new(&data);
    assert_eq!(
        read_encoded_pointer(&mut c2, 0x00, ArchPointerWidth::Width64Bit),
        Ok(0x04030201)
    );
}

/// A uniform table of two fixed-size entries yields exactly two entries and
/// the iterator then reports the end of the table.
#[test]
fn uniform_table_yields_length_over_entry_size_entries() {
    // lp base omitted, type table omitted, udata2 entries, 14 declared bytes:
    // two entries of 2+2+2+1 = 7 bytes each.
    let area_bytes = [
        0xffu8, 0xff, 0x02, 0x0e, // headers
        0x10, 0x00, 0x04, 0x00, 0x00, 0x00, 0x00, // entry 1
        0x20, 0x00, 0x08, 0x00, 0x30, 0x00, 0x00, // entry 2
    ];
    let area = GccExceptTableArea::new(&area_bytes, 0x4000, W64);
    let mut iter = area.call_site_table_entries().unwrap();
    let e1 = iter.next().unwrap().unwrap();
    let e2 = iter.next().unwrap().unwrap();
    assert_eq!(iter.next(), Ok(None));
    assert_eq!(iter.next(), Ok(None));
    assert_eq!(e1.range_of_covered_addresses(), (0x4010, 0x4014));
    assert_eq!(e2.range_of_covered_addresses(), (0x4020, 0x4028));
}

/// The landing-pad address is absent exactly when the stored offset is 0,
/// and is the landing-pad base plus the offset otherwise.
#[test]
fn landing_pad_address_iff_nonzero_offset() {
    let area_bytes = [
        0xffu8, 0xff, 0x01, 0x08, // headers, uleb entries, 8 bytes
        0x00, 0x10, 0x00, 0x00, // entry 1: lp offset 0
        0x10, 0x08, 0x20, 0x00, // entry 2: lp offset 0x20
    ];
    let area = GccExceptTableArea::new(&area_bytes, 0x4000, W64);
    let mut iter = area.call_site_table_entries().unwrap();
    let e1 = iter.next().unwrap().unwrap();
    let e2 = iter.next().unwrap().unwrap();
    assert_eq!(e1.landing_pad_address(), None);
    assert_eq!(e2.landing_pad_address(), Some(0x4020));
}

/// The action-chain start offset is absent exactly when the stored action
/// field is 0, and the stored field minus one otherwise.
#[test]
fn action_offset_iff_nonzero_field() {
    let area_bytes = [
        0xffu8, 0xff, 0x01, 0x08, // headers
        0x00, 0x10, 0x00, 0x00, // entry 1: action field 0
        0x10, 0x08, 0x00, 0x05, // entry 2: action field 5
    ];
    let area = GccExceptTableArea::new(&area_bytes, 0x4000, W64);
    let mut iter = area.call_site_table_entries().unwrap();
    let e1 = iter.next().unwrap().unwrap();
    let e2 = iter.next().unwrap().unwrap();
    assert_eq!(e1.action_offset(), None);
    assert_eq!(e2.action_offset(), Some(4));
}

#[test]
fn entry_for_address_finds_covering_entry() {
    let area_bytes = [
        0xffu8, 0xff, 0x01, 0x08, // headers
        0x00, 0x10, 0x00, 0x00, // [0x4000, 0x4010)
        0x10, 0x08, 0x20, 0x00, // [0x4010, 0x4018)
    ];
    let area = GccExceptTableArea::new(&area_bytes, 0x4000, W64);
    let hit = area.call_site_table_entry_for_address(0x4012).unwrap();
    assert_eq!(hit.range_of_covered_addresses(), (0x4010, 0x4018));
    assert_eq!(
        area.call_site_table_entry_for_address(0x5000),
        Err(DecodeError::NoCallSiteForAddress)
    );
}

#[test]
fn action_chain_follows_displacements() {
    // Call-site table empty; action table starts at offset 4 of the area.
    // Record 0: filter 1, disp +2 -> next record at offset 4.
    // Record 1: filter 2, disp 0 -> chain ends.
    // Offsets are relative to the action-table start (area position 4):
    // record at offset 0: filter 1, displacement base 1, displacement +2,
    // so the next record sits at offset 3; there, filter 2 and displacement
    // 0 end the chain. The byte at offset 2 is never read.
    let area_bytes = [
        0xffu8, 0xff, 0x01, 0x00, // headers, zero-length call-site table
        0x01, 0x02, 0x00, // record at offset 0, then one skipped byte
        0x02, 0x00, // record at offset 3
    ];
    let area = GccExceptTableArea::new(&area_bytes, 0x4000, W64);
    let mut iter = area.action_records_for_offset(0).unwrap();
    let r1 = iter.next().unwrap().unwrap();
    assert_eq!((r1.ar_filter, r1.ar_disp), (1, 2));
    let r2 = iter.next().unwrap().unwrap();
    assert_eq!((r2.ar_filter, r2.ar_disp), (2, 0));
    assert_eq!(iter.next(), Ok(None));
}

#[test]
fn cyclic_action_chain_hits_defensive_limit() {
    // A record whose displacement points back at itself: filter 0 at offset
    // 0, displacement base 1, displacement -1 -> next offset 0 again.
    let area_bytes = [
        0xffu8, 0xff, 0x01, 0x00, // headers, zero-length call-site table
        0x00, 0x7f, // the cyclic record
    ];
    let area = GccExceptTableArea::new(&area_bytes, 0x4000, W64);
    let mut iter = area.action_records_for_offset(0).unwrap();
    let mut steps = 0u64;
    loop {
        match iter.next() {
            Ok(Some(_)) => steps += 1,
            Ok(None) => panic!("cycle ended"),
            Err(e) => {
                assert_eq!(e, DecodeError::ActionChainLimit);
                break;
            }
        }
    }
    assert!(steps <= area_bytes.len() as u64);
}
