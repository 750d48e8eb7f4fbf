use ehdump::ArchPointerWidth;
use ehdump::DumpError;
use ehdump::LsdaPointer;
use ehdump::RawFrameDescriptor;
use ehdump::Section;
use ehdump::assemble_fdes;
use ehdump::dump_fde;
use ehdump::dump_file;

const W64: ArchPointerWidth = ArchPointerWidth::Width64Bit;

/// A one-entry LSDA: landing-pad base omitted, type table omitted, one
/// call site covering [start, start+0x10) with landing-pad offset 0x20 and
/// action field 0.
fn simple_lsda_bytes() -> Vec<u8> {
    vec![0xff, 0xff, 0x01, 0x04, 0x00, 0x10, 0x20, 0x00]
}

fn except_table_section(address: u64, data: Vec<u8>) -> Section {
    Section {
        name: b".gcc_except_table".to_vec(),
        address,
        size: data.len() as u64,
        data,
    }
}

/// One function with a single call site covering the first 0x10 bytes of
/// the function and a landing pad 0x20 past its start: one record with
/// that landing pad and no actions.
#[test]
fn single_call_site_record() {
    let sections = vec![except_table_section(0x1000, simple_lsda_bytes())];
    let descriptor = RawFrameDescriptor {
        start: 0x4000,
        length: 0x100,
        lsda: LsdaPointer::Direct(0x1000),
    };
    let fde = dump_fde(&sections, &descriptor, W64).unwrap();
    assert_eq!(fde.fstart, 0x4000);
    assert_eq!(fde.fend, 0x4100);
    assert_eq!(fde.lsda.lsda_ptr, 0x1000);
    assert_eq!(fde.lsda.cses.len(), 1);
    let cs = &fde.lsda.cses[0];
    assert_eq!(cs.start, 0x4000);
    assert_eq!(cs.end, 0x4010);
    assert_eq!(cs.lp, Some(0x4020));
    assert!(cs.actions.is_empty());
}

/// A descriptor with an indirect LSDA pointer is dropped silently; one
/// with a valid direct pointer still yields its record.
#[test]
fn indirect_lsda_pointer_is_dropped() {
    let sections = vec![except_table_section(0x1000, simple_lsda_bytes())];
    let descriptors = vec![
        RawFrameDescriptor {
            start: 0x3000,
            length: 0x80,
            lsda: LsdaPointer::Indirect(0x1000),
        },
        RawFrameDescriptor {
            start: 0x4000,
            length: 0x100,
            lsda: LsdaPointer::Direct(0x1000),
        },
    ];
    let fdes = assemble_fdes(&sections, &descriptors, W64);
    assert_eq!(fdes.len(), 1);
    assert_eq!(fdes[0].fstart, 0x4000);
}

#[test]
fn missing_lsda_pointer_is_dropped() {
    let sections = vec![except_table_section(0x1000, simple_lsda_bytes())];
    let descriptor = RawFrameDescriptor {
        start: 0x4000,
        length: 0x100,
        lsda: LsdaPointer::Missing,
    };
    assert_eq!(dump_fde(&sections, &descriptor, W64), None);
}

#[test]
fn lsda_pointer_outside_every_section_is_dropped() {
    let sections = vec![except_table_section(0x1000, simple_lsda_bytes())];
    let descriptor = RawFrameDescriptor {
        start: 0x4000,
        length: 0x100,
        lsda: LsdaPointer::Direct(0x9000),
    };
    assert_eq!(dump_fde(&sections, &descriptor, W64), None);
}

#[test]
fn truncated_lsda_drops_the_function() {
    // The area's call-site table declares 4 bytes but only 2 remain.
    let sections = vec![except_table_section(0x1000, vec![0xff, 0xff, 0x01, 0x04, 0x00, 0x10])];
    let descriptor = RawFrameDescriptor {
        start: 0x4000,
        length: 0x100,
        lsda: LsdaPointer::Direct(0x1000),
    };
    assert_eq!(dump_fde(&sections, &descriptor, W64), None);
}

/// A call site with an action chain but no type table: the chain's one
/// record is kept, categorised as missing.
#[test]
fn action_without_type_table_is_missing() {
    let area = vec![
        0xff, 0xff, 0x01, 0x04, // headers, type table omitted
        0x00, 0x10, 0x20, 0x01, // one call site, action field 1
        0x00, 0x00, // action record: filter 0, displacement 0
    ];
    let sections = vec![except_table_section(0x1000, area)];
    let descriptor = RawFrameDescriptor {
        start: 0x4000,
        length: 0x100,
        lsda: LsdaPointer::Direct(0x1000),
    };
    let fde = dump_fde(&sections, &descriptor, W64).unwrap();
    let actions = &fde.lsda.cses[0].actions;
    assert_eq!(actions.len(), 1);
    assert_eq!(actions[0].ar_filter, 0);
    assert_eq!(actions[0].ar_disp, 0);
    assert_eq!(actions[0].ar_info, ehdump::ActionInfo::MissingTypeTable);
}

/// The same chain with a type table present resolves a filter of 0 to a
/// cleanup.
#[test]
fn cleanup_action_with_type_table_present() {
    let area = vec![
        0xff, 0x03, 0x02, // headers: udata4 type table at offset 2
        0x01, 0x04, // call-site table header
        0x00, 0x10, 0x20, 0x01, // one call site, action field 1
        0x00, 0x00, // action record: filter 0, displacement 0
    ];
    let sections = vec![except_table_section(0x1000, area)];
    let descriptor = RawFrameDescriptor {
        start: 0x4000,
        length: 0x100,
        lsda: LsdaPointer::Direct(0x1000),
    };
    let fde = dump_fde(&sections, &descriptor, W64).unwrap();
    let actions = &fde.lsda.cses[0].actions;
    assert_eq!(actions.len(), 1);
    assert_eq!(actions[0].ar_info, ehdump::ActionInfo::Cleanup);
}

/// Address arithmetic wraps modulo 2^64 rather than faulting.
#[test]
fn covered_range_wraps_around() {
    let sections = vec![except_table_section(0x1000, simple_lsda_bytes())];
    let descriptor = RawFrameDescriptor {
        start: 0xffff_ffff_ffff_fff8,
        length: 0x10,
        lsda: LsdaPointer::Direct(0x1000),
    };
    let fde = dump_fde(&sections, &descriptor, W64).unwrap();
    assert_eq!(fde.fend, 0x8);
    let cs = &fde.lsda.cses[0];
    assert_eq!(cs.start, 0xffff_ffff_ffff_fff8);
    assert_eq!(cs.end, 0x8);
    assert_eq!(cs.lp, Some(0x18));
}

fn text_section(address: u64) -> Section {
    Section {
        name: b".text".to_vec(),
        address,
        size: 0x1000,
        data: Vec::new(),
    }
}

fn eh_frame_section(address: u64, data: Vec<u8>) -> Section {
    Section {
        name: b".eh_frame".to_vec(),
        address,
        size: data.len() as u64,
        data,
    }
}

/// A whole file without `.eh_frame` fails as a missing required section
/// and produces no records at all.
#[test]
fn missing_eh_frame_section_is_fatal() {
    let sections = vec![text_section(0x4000), except_table_section(0x1000, simple_lsda_bytes())];
    assert_eq!(
        dump_file(&sections, true, W64),
        Err(DumpError::MissingRequiredSection)
    );
}

#[test]
fn missing_text_section_is_fatal() {
    let sections = vec![
        eh_frame_section(0x5000, vec![0, 0, 0, 0]),
        except_table_section(0x1000, simple_lsda_bytes()),
    ];
    assert_eq!(
        dump_file(&sections, true, W64),
        Err(DumpError::MissingRequiredSection)
    );
}

/// An `.eh_frame` holding only the zero terminator yields an empty, valid
/// result.
#[test]
fn empty_eh_frame_yields_empty_result() {
    let sections = vec![text_section(0x4000), eh_frame_section(0x5000, vec![0, 0, 0, 0])];
    assert_eq!(dump_file(&sections, true, W64), Ok(vec![]));
}

/// A minimal `.eh_frame`: one CIE with augmentation "zL" (LSDA pointers in
/// 8-byte absolute encoding) and one FDE for [0x4000, 0x4100) whose LSDA
/// pointer is 0x1000.
fn handmade_eh_frame() -> Vec<u8> {
    let mut cie: Vec<u8> = Vec::new();
    cie.extend_from_slice(&[0, 0, 0, 0]); // CIE id 0
    cie.push(1); // version 1
    cie.extend_from_slice(b"zL\0"); // augmentation
    cie.push(1); // code alignment factor (uleb128)
    cie.push(0x78); // data alignment factor -8 (sleb128)
    cie.push(16); // return address register
    cie.push(1); // augmentation data length (uleb128)
    cie.push(0x00); // 'L': LSDA pointers use the absptr encoding
    while cie.len() % 8 != 4 {
        cie.push(0); // pad with DW_CFA_nop so the FDE starts aligned
    }

    let mut fde: Vec<u8> = Vec::new();
    let cie_total = cie.len() as u32 + 4;
    fde.extend_from_slice(&(cie_total + 4).to_le_bytes()); // back-offset to the CIE
    fde.extend_from_slice(&0x4000u64.to_le_bytes()); // initial location
    fde.extend_from_slice(&0x100u64.to_le_bytes()); // address range
    fde.push(8); // augmentation data length
    fde.extend_from_slice(&0x1000u64.to_le_bytes()); // LSDA pointer
    while fde.len() % 8 != 4 {
        fde.push(0);
    }

    let mut out: Vec<u8> = Vec::new();
    out.extend_from_slice(&(cie.len() as u32).to_le_bytes());
    out.extend_from_slice(&cie);
    out.extend_from_slice(&(fde.len() as u32).to_le_bytes());
    out.extend_from_slice(&fde);
    out.extend_from_slice(&[0, 0, 0, 0]); // terminator
    out
}

/// The full pipeline over a handmade object: the frame walk finds the one
/// FDE, its LSDA is parsed, and the single call-site record comes out.
#[test]
fn whole_file_walk_produces_one_record() {
    let sections = vec![
        text_section(0x4000),
        eh_frame_section(0x5000, handmade_eh_frame()),
        except_table_section(0x1000, simple_lsda_bytes()),
    ];
    let fdes = dump_file(&sections, true, W64).unwrap();
    assert_eq!(fdes.len(), 1);
    assert_eq!(fdes[0].fstart, 0x4000);
    assert_eq!(fdes[0].fend, 0x4100);
    assert_eq!(fdes[0].lsda.lsda_ptr, 0x1000);
    assert_eq!(fdes[0].lsda.cses.len(), 1);
    assert_eq!(fdes[0].lsda.cses[0].lp, Some(0x4020));
}
