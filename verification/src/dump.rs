use vstd::prelude::*;

use gimli::UnwindSection;

use crate::ArchPointerWidth;
use crate::cursor::spec_skip;
use crate::errors::DecodeError;
use crate::errors::DumpError;
use crate::lsda::ActionRecord;
use crate::lsda::CallSiteTableEntry;
use crate::lsda::CallSiteTableIterator;
use crate::lsda::GccExceptTableArea;
use crate::lsda::TypeTable;
use crate::lsda::lemma_parse_cs_entry_props;
use crate::lsda::spec_action_chain;
use crate::lsda::spec_call_site_table;
use crate::lsda::spec_get_type;
use crate::lsda::spec_parse_from_beginning;
use crate::lsda::spec_parse_lsda_header;
use crate::wadd64;

verus! {

/// One ELF section, reduced to the plain values the walk needs: its name,
/// its address range, and its bytes.
#[derive(Clone, Debug)]
pub struct Section {
    /// The section's name, as raw bytes.
    pub name: Vec<u8>,
    /// The section's virtual address.
    pub address: u64,
    /// The section's size in memory.
    pub size: u64,
    /// The section's file bytes.
    pub data: Vec<u8>,
}

/// The mathematical image of a `Section`.
#[verifier::ext_equal]
pub ghost struct SpecSection {
    pub name: Seq<u8>,
    pub address: u64,
    pub size: u64,
    pub data: Seq<u8>,
}

impl DeepView for Section {
    type V = SpecSection;

    open spec fn deep_view(&self) -> SpecSection {
        SpecSection { name: self.name@, address: self.address, size: self.size, data: self.data@ }
    }
}

/// The LSDA pointer carried by one frame descriptor.
#[derive(Clone, Copy, Debug, PartialEq, Eq, Structural)]
pub enum LsdaPointer {
    /// The descriptor carries no LSDA pointer.
    Missing,
    /// The pointer value itself.
    Direct(u64),
    /// The address where the pointer value lives; this decoder does not
    /// chase it, and drops the function.
    Indirect(u64),
}

/// One frame descriptor of `.eh_frame`, reduced to plain values.
#[derive(Clone, Copy, Debug, PartialEq, Eq, Structural)]
pub struct RawFrameDescriptor {
    /// The initial address of the function the descriptor covers.
    pub start: u64,
    /// The length of the covered range.
    pub length: u64,
    /// The descriptor's LSDA pointer.
    pub lsda: LsdaPointer,
}

/// The resolution of one action record's filter.
#[derive(Clone, Debug, PartialEq, Eq)]
pub enum ActionInfo {
    /// The filter asks for a cleanup, with no types to match.
    Cleanup,
    /// The resolved absolute type-reference addresses, in filter order.
    TypeAddresses(Vec<u64>),
    /// The LSDA carries no type table.
    MissingTypeTable,
    /// The type-table encoding cannot serve as a table stride.
    UnsupportedEncoding,
}

/// The mathematical image of an `ActionInfo`.
#[verifier::ext_equal]
pub ghost enum SpecActionInfo {
    Cleanup,
    TypeAddresses(Seq<u64>),
    MissingTypeTable,
    UnsupportedEncoding,
}

impl DeepView for ActionInfo {
    type V = SpecActionInfo;

    open spec fn deep_view(&self) -> SpecActionInfo {
        match self {
            ActionInfo::Cleanup => SpecActionInfo::Cleanup,
            ActionInfo::TypeAddresses(v) => SpecActionInfo::TypeAddresses(v@),
            ActionInfo::MissingTypeTable => SpecActionInfo::MissingTypeTable,
            ActionInfo::UnsupportedEncoding => SpecActionInfo::UnsupportedEncoding,
        }
    }
}

/// One resolved action of a call site.
#[derive(Clone, Debug, PartialEq, Eq)]
pub struct Action {
    /// The record's stored filter.
    pub ar_filter: i64,
    /// The record's stored displacement.
    pub ar_disp: i64,
    /// What the filter resolves to.
    pub ar_info: ActionInfo,
}

/// The mathematical image of an `Action`.
#[verifier::ext_equal]
pub ghost struct SpecAction {
    pub ar_filter: i64,
    pub ar_disp: i64,
    pub ar_info: SpecActionInfo,
}

impl DeepView for Action {
    type V = SpecAction;

    open spec fn deep_view(&self) -> SpecAction {
        SpecAction {
            ar_filter: self.ar_filter,
            ar_disp: self.ar_disp,
            ar_info: self.ar_info.deep_view(),
        }
    }
}

/// One call site of a function: its covered range, its landing pad, and its
/// resolved actions.
#[derive(Clone, Debug, PartialEq, Eq)]
pub struct CS {
    /// First covered instruction address.
    pub start: u64,
    /// One past the last covered instruction address.
    pub end: u64,
    /// The landing-pad address, when one exists.
    pub lp: Option<u64>,
    /// The resolved actions of this call site's chain, in chain order.
    pub actions: Vec<Action>,
}

/// The mathematical image of a `CS`.
#[verifier::ext_equal]
pub ghost struct SpecCs {
    pub start: u64,
    pub end: u64,
    pub lp: Option<u64>,
    pub actions: Seq<SpecAction>,
}

impl DeepView for CS {
    type V = SpecCs;

    open spec fn deep_view(&self) -> SpecCs {
        SpecCs {
            start: self.start,
            end: self.end,
            lp: self.lp,
            actions: self.actions.deep_view(),
        }
    }
}

/// The parsed LSDA of one function.
#[derive(Clone, Debug, PartialEq, Eq)]
pub struct LSDA {
    /// The LSDA pointer the area was found at.
    pub lsda_ptr: u64,
    /// The function's call sites, in table order.
    pub cses: Vec<CS>,
}

/// The mathematical image of an `LSDA`.
#[verifier::ext_equal]
pub ghost struct SpecLsda {
    pub lsda_ptr: u64,
    pub cses: Seq<SpecCs>,
}

impl DeepView for LSDA {
    type V = SpecLsda;

    open spec fn deep_view(&self) -> SpecLsda {
        SpecLsda { lsda_ptr: self.lsda_ptr, cses: self.cses.deep_view() }
    }
}

/// One fully resolved frame-descriptor record.
#[derive(Clone, Debug, PartialEq, Eq)]
pub struct FDE {
    /// The function's start address.
    pub fstart: u64,
    /// The function's end address: start plus length, modulo 2^64.
    pub fend: u64,
    /// The function's parsed LSDA.
    pub lsda: LSDA,
}

/// The mathematical image of an `FDE`.
#[verifier::ext_equal]
pub ghost struct SpecFde {
    pub fstart: u64,
    pub fend: u64,
    pub lsda: SpecLsda,
}

impl DeepView for FDE {
    type V = SpecFde;

    open spec fn deep_view(&self) -> SpecFde {
        SpecFde { fstart: self.fstart, fend: self.fend, lsda: self.lsda.deep_view() }
    }
}

/// The bytes of the name `.text`.
pub open spec fn text_name() -> Seq<u8> {
    seq![0x2eu8, 0x74u8, 0x65u8, 0x78u8, 0x74u8]
}

/// The bytes of the name `.eh_frame`.
pub open spec fn eh_frame_name() -> Seq<u8> {
    seq![0x2eu8, 0x65u8, 0x68u8, 0x5fu8, 0x66u8, 0x72u8, 0x61u8, 0x6du8, 0x65u8]
}

/// The bytes of the name `.eh_frame_hdr`.
pub open spec fn eh_frame_hdr_name() -> Seq<u8> {
    seq![
        0x2eu8,
        0x65u8,
        0x68u8,
        0x5fu8,
        0x66u8,
        0x72u8,
        0x61u8,
        0x6du8,
        0x65u8,
        0x5fu8,
        0x68u8,
        0x64u8,
        0x72u8,
    ]
}

/// The bytes of the name `.got`.
pub open spec fn got_name() -> Seq<u8> {
    seq![0x2eu8, 0x67u8, 0x6fu8, 0x74u8]
}

/// The first section bearing `name`, searched from index `i`.
pub open spec fn spec_first_section(sections: Seq<SpecSection>, name: Seq<u8>, i: nat) -> Option<
    int,
>
    decreases sections.len() - i,
{
    if i >= sections.len() {
        None
    } else if sections[i as int].name == name {
        Some(i as int)
    } else {
        spec_first_section(sections, name, i + 1)
    }
}

/// Whether `section` covers `address`, its end computed modulo 2^64.
pub open spec fn spec_section_covers(section: SpecSection, address: u64) -> bool {
    section.address <= address < wadd64(section.address, section.size)
}

/// The first section covering `address`, searched from index `i`.
pub open spec fn spec_section_for_address(
    sections: Seq<SpecSection>,
    address: u64,
    i: nat,
) -> Option<int>
    decreases sections.len() - i,
{
    if i >= sections.len() {
        None
    } else if spec_section_covers(sections[i as int], address) {
        Some(i as int)
    } else {
        spec_section_for_address(sections, address, i + 1)
    }
}

/// Whether two byte vectors hold the same bytes.
fn bytes_equal(a: &Vec<u8>, b: &Vec<u8>) -> (r: bool)
    ensures
        r <==> a@ == b@,
{
    if a.len() != b.len() {
        proof {
            assert(a@ != b@);
        }
        return false;
    }
    let mut i: usize = 0;
    while i < a.len()
        invariant
            i <= a.len(),
            a@.len() == b@.len(),
            forall|j: int| 0 <= j < i ==> a@[j] == b@[j],
        decreases a.len() - i,
    {
        if a[i] != b[i] {
            proof {
                assert(a@ != b@);
            }
            return false;
        }
        i = i + 1;
    }
    proof {
        assert(a@ =~= b@);
    }
    true
}

/// The index of the first section bearing `name`.
fn find_section_named(sections: &Vec<Section>, name: &Vec<u8>) -> (r: Option<usize>)
    ensures
        (match spec_first_section(sections.deep_view(), name@, 0) {
            None => r is None,
            Some(i) => r matches Some(u) && u as int == i,
        }),
{
    let mut i: usize = 0;
    while i < sections.len()
        invariant
            i <= sections.len(),
            spec_first_section(sections.deep_view(), name@, 0) == spec_first_section(
                sections.deep_view(),
                name@,
                i as nat,
            ),
        decreases sections.len() - i,
    {
        if bytes_equal(&sections[i].name, name) {
            proof {
                assert(sections.deep_view()[i as int].name == name@);
            }
            return Some(i);
        }
        i = i + 1;
    }
    None
}

/// The index of the first section covering `address`.
fn find_section_for_address(sections: &Vec<Section>, address: u64) -> (r: Option<usize>)
    ensures
        (match spec_section_for_address(sections.deep_view(), address, 0) {
            None => r is None,
            Some(i) => r matches Some(u) && u as int == i,
        }),
{
    let mut i: usize = 0;
    while i < sections.len()
        invariant
            i <= sections.len(),
            spec_section_for_address(sections.deep_view(), address, 0)
                == spec_section_for_address(sections.deep_view(), address, i as nat),
        decreases sections.len() - i,
    {
        let s = &sections[i];
        if s.address <= address && address < s.address.wrapping_add(s.size) {
            return Some(i);
        }
        i = i + 1;
    }
    None
}

/// How one action record's filter resolves, by category.
pub open spec fn spec_action_info(
    data: Seq<u8>,
    header_end: int,
    tt_encoding: u8,
    tt_offset: u64,
    width: ArchPointerWidth,
    rec: ActionRecord,
    lsda_ptr: u64,
) -> SpecActionInfo {
    match spec_get_type(data, header_end, tt_encoding, tt_offset, width, rec, lsda_ptr) {
        Ok(s) => if s.len() == 0 {
            SpecActionInfo::Cleanup
        } else {
            SpecActionInfo::TypeAddresses(s)
        },
        Err(DecodeError::UnknownEncoding) => SpecActionInfo::UnsupportedEncoding,
        Err(_) => SpecActionInfo::MissingTypeTable,
    }
}

/// One resolved action from one chain record.
pub open spec fn spec_action_of(
    data: Seq<u8>,
    header_end: int,
    tt_encoding: u8,
    tt_offset: u64,
    width: ArchPointerWidth,
    lsda_ptr: u64,
    rec: ActionRecord,
) -> SpecAction {
    SpecAction {
        ar_filter: rec.ar_filter,
        ar_disp: rec.ar_disp,
        ar_info: spec_action_info(data, header_end, tt_encoding, tt_offset, width, rec, lsda_ptr),
    }
}

/// Where the action table begins: just past the call-site table.
pub open spec fn spec_area_start(data: Seq<u8>, width: ArchPointerWidth) -> Result<
    int,
    DecodeError,
> {
    match spec_parse_from_beginning(data, width) {
        Err(e) => Err(e),
        Ok((lh, ch, p)) => spec_skip(data, p, ch.length as int),
    }
}

/// The resolved actions of one call-site entry: the chain starting at its
/// action offset, each record resolved against the type table. A chain that
/// cannot be followed yields no actions rather than dropping the function.
pub open spec fn spec_entry_actions(
    data: Seq<u8>,
    header_end: int,
    area_start: Result<int, DecodeError>,
    fuel: nat,
    tt_encoding: u8,
    tt_offset: u64,
    width: ArchPointerWidth,
    lsda_ptr: u64,
    entry: CallSiteTableEntry,
) -> Seq<SpecAction> {
    if entry.action_offset == 0 {
        Seq::empty()
    } else {
        match area_start {
            Err(_) => Seq::empty(),
            Ok(a) => match spec_action_chain(
                data,
                a,
                Some((entry.action_offset - 1) as u64),
                fuel,
            ) {
                Err(_) => Seq::empty(),
                Ok(records) => records.map_values(
                    |rec: ActionRecord|
                        spec_action_of(
                            data,
                            header_end,
                            tt_encoding,
                            tt_offset,
                            width,
                            lsda_ptr,
                            rec,
                        ),
                ),
            },
        }
    }
}

/// One output call site from one table entry.
pub open spec fn spec_cs_record(
    data: Seq<u8>,
    header_end: int,
    area_start: Result<int, DecodeError>,
    fuel: nat,
    tt_encoding: u8,
    tt_offset: u64,
    width: ArchPointerWidth,
    lsda_ptr: u64,
    entry: CallSiteTableEntry,
) -> SpecCs {
    let s = wadd64(entry.landing_pad_base, entry.starting_offset);
    SpecCs {
        start: s,
        end: wadd64(s, entry.length),
        lp: if entry.landing_pad_offset == 0 {
            None
        } else {
            Some(wadd64(entry.landing_pad_base, entry.landing_pad_offset))
        },
        actions: spec_entry_actions(
            data,
            header_end,
            area_start,
            fuel,
            tt_encoding,
            tt_offset,
            width,
            lsda_ptr,
            entry,
        ),
    }
}

/// The parsed LSDA of one function: both headers, the whole call-site
/// table, and each entry's resolved actions. Any header or call-site
/// failure discards the whole result.
pub open spec fn spec_lsda_result(
    data: Seq<u8>,
    width: ArchPointerWidth,
    function_start: u64,
    lsda_ptr: u64,
) -> Option<SpecLsda> {
    match spec_parse_from_beginning(data, width) {
        Err(_) => None,
        Ok((lh, ch, p)) => {
            let base = match lh.landing_pad_base {
                Some(b) => b,
                None => function_start,
            };
            let end = wadd64(p as u64, ch.length) as int;
            match spec_call_site_table(data, p, end, ch.encoding, width, base) {
                Err(_) => None,
                Ok(entries) => {
                    let header_end = match spec_parse_lsda_header(data, 0, width) {
                        Ok((_h, he)) => he,
                        Err(_) => 0,
                    };
                    let tt_offset = match lh.type_table_offset {
                        Some(o) => o,
                        None => 0,
                    };
                    Some(
                        SpecLsda {
                            lsda_ptr,
                            cses: entries.map_values(
                                |entry: CallSiteTableEntry|
                                    spec_cs_record(
                                        data,
                                        header_end,
                                        spec_area_start(data, width),
                                        data.len(),
                                        lh.type_table_encoding,
                                        tt_offset,
                                        width,
                                        lsda_ptr,
                                        entry,
                                    ),
                            ),
                        },
                    )
                },
            }
        },
    }
}

/// One output record from one frame descriptor: only a direct LSDA pointer
/// lying inside a known section, whose area parses completely, yields a
/// record; everything else drops the function.
pub open spec fn spec_dump_fde(
    sections: Seq<SpecSection>,
    descriptor: RawFrameDescriptor,
    width: ArchPointerWidth,
) -> Option<SpecFde> {
    match descriptor.lsda {
        LsdaPointer::Direct(lsda_ptr) => match spec_section_for_address(sections, lsda_ptr, 0) {
            None => None,
            Some(i) => {
                let sec = sections[i];
                let end_addr = wadd64(sec.address, sec.size);
                let off = lsda_ptr - sec.address;
                let need = end_addr - lsda_ptr;
                if off + need <= sec.data.len() {
                    let region = sec.data.subrange(off as int, off + need);
                    match spec_lsda_result(region, width, descriptor.start, lsda_ptr) {
                        None => None,
                        Some(l) => Some(
                            SpecFde {
                                fstart: descriptor.start,
                                fend: wadd64(descriptor.start, descriptor.length),
                                lsda: l,
                            },
                        ),
                    }
                } else {
                    None
                }
            },
        },
        _ => None,
    }
}

/// The ordered records of all resolvable frame descriptors; descriptors
/// that resolve to nothing leave no trace.
pub open spec fn spec_assemble(
    sections: Seq<SpecSection>,
    descriptors: Seq<RawFrameDescriptor>,
    width: ArchPointerWidth,
) -> Seq<SpecFde>
    decreases descriptors.len(),
{
    if descriptors.len() == 0 {
        Seq::empty()
    } else {
        let rest = spec_assemble(sections, descriptors.skip(1), width);
        match spec_dump_fde(sections, descriptors[0], width) {
            None => rest,
            Some(f) => seq![f] + rest,
        }
    }
}

/// What the frame-descriptor walk over `.eh_frame` yields: for each CIE/FDE
/// record in section order, the FDE's start address, range length and LSDA
/// pointer (CIE records contribute nothing), or nothing when the walk
/// fails. The walk is a pure function of the section bytes, the base
/// addresses, and the endianness.
pub uninterp spec fn frame_walk(
    data: Seq<u8>,
    text_addr: u64,
    eh_frame_addr: u64,
    eh_frame_hdr_addr: Option<u64>,
    got_addr: Option<u64>,
    little_endian: bool,
) -> Option<Seq<RawFrameDescriptor>>;

/// The base-address record of gimli's `.eh_frame` decoding.
#[verifier::external_type_specification]
#[verifier::external_body]
pub struct ExBaseAddresses(gimli::BaseAddresses);

/// A decoded pointer of gimli's `.eh_frame` decoding: the value itself, or
/// the address where the value lives.
#[verifier::external_type_specification]
#[verifier::external_body]
pub struct ExPointer(gimli::Pointer);

/// Relies on gimli's `BaseAddresses` builder: it records the given section
/// addresses for the walk; the optional ones are set only when present.
#[verifier::external_body]
fn make_base_addresses(
    text_addr: u64,
    eh_frame_addr: u64,
    eh_frame_hdr_addr: Option<u64>,
    got_addr: Option<u64>,
) -> gimli::BaseAddresses {
    let mut bases = gimli::BaseAddresses::default().set_text(text_addr).set_eh_frame(eh_frame_addr);
    if let Some(a) = eh_frame_hdr_addr {
        bases = bases.set_eh_frame_hdr(a);
    }
    if let Some(a) = got_addr {
        bases = bases.set_got(a);
    }
    bases
}

/// Relies on gimli's `Pointer` enum: its two variants carry the decoded
/// value and are mapped one for one onto the library's record.
#[verifier::external_body]
fn lsda_pointer_of(p: Option<gimli::Pointer>) -> LsdaPointer {
    match p {
        None => LsdaPointer::Missing,
        Some(gimli::Pointer::Direct(v)) => LsdaPointer::Direct(v),
        Some(gimli::Pointer::Indirect(v)) => LsdaPointer::Indirect(v),
    }
}

/// Relies on gimli's `.eh_frame` walk (`EhFrame::entries` and
/// `PartialFrameDescriptionEntry::parse`): it decodes the CIE and FDE
/// records of the given section bytes under the given base addresses,
/// deterministically, and each FDE reports its initial address, length and
/// LSDA pointer. The body only converts those results to plain records.
#[verifier::external_body]
fn walk_frame_descriptors(
    data: &Vec<u8>,
    text_addr: u64,
    eh_frame_addr: u64,
    eh_frame_hdr_addr: Option<u64>,
    got_addr: Option<u64>,
    little_endian: bool,
) -> (r: Option<Vec<RawFrameDescriptor>>)
    ensures
        (match frame_walk(data@, text_addr, eh_frame_addr, eh_frame_hdr_addr, got_addr,
        little_endian) {
            Some(s) => r matches Some(v) && v@ == s,
            None => r is None,
        }),
{
    let bases = make_base_addresses(text_addr, eh_frame_addr, eh_frame_hdr_addr, got_addr);
    let endian = if little_endian { gimli::RunTimeEndian::Little } else { gimli::RunTimeEndian::Big };
    let mut entries = gimli::EhFrame::new(data.as_slice(), endian).entries(&bases);
    let mut out: Vec<RawFrameDescriptor> = Vec::new();
    loop {
        match entries.next() {
            Err(_) => return None,
            Ok(None) => return Some(out),
            Ok(Some(gimli::CieOrFde::Cie(_))) => {}
            Ok(Some(gimli::CieOrFde::Fde(partial))) => match partial.parse(gimli::EhFrame::cie_from_offset) {
                Err(_) => return None,
                Ok(f) => out.push(RawFrameDescriptor { start: f.initial_address(), length: f.len(), lsda: lsda_pointer_of(f.lsda()) }),
            },
        }
    }
}

pub proof fn lemma_first_section_in_range(sections: Seq<SpecSection>, name: Seq<u8>, i: nat)
    ensures
        spec_first_section(sections, name, i) matches Some(k) ==> i <= k < sections.len()
            && sections[k].name == name,
    decreases sections.len() - i,
{
    if i < sections.len() && sections[i as int].name != name {
        lemma_first_section_in_range(sections, name, i + 1);
    }
}

pub proof fn lemma_section_for_address_covers(
    sections: Seq<SpecSection>,
    address: u64,
    i: nat,
)
    ensures
        spec_section_for_address(sections, address, i) matches Some(k) ==> i <= k
            < sections.len() && spec_section_covers(sections[k], address),
    decreases sections.len() - i,
{
    if i < sections.len() && !spec_section_covers(sections[i as int], address) {
        lemma_section_for_address_covers(sections, address, i + 1);
    }
}

/// An empty action list.
fn empty_actions() -> (r: Vec<Action>)
    ensures
        r.deep_view() == Seq::<SpecAction>::empty(),
{
    let r: Vec<Action> = Vec::new();
    proof {
        assert(r.deep_view() =~= Seq::<SpecAction>::empty());
    }
    r
}

/// The resolved actions of one call-site entry: follow its chain, resolve
/// each record; a chain that cannot be followed yields no actions.
#[verifier::loop_isolation(false)]
#[verifier::rlimit(100)]
fn entry_actions(
    area: &GccExceptTableArea,
    ttable: &TypeTable,
    entry: &CallSiteTableEntry,
    lsda_ptr: u64,
) -> (r: Vec<Action>)
    requires
        ttable.cursor.data@ == area.data@,
        ttable.arch_pointer_width == area.arch_pointer_width,
    ensures
        r.deep_view() == spec_entry_actions(
            area.data@,
            ttable.cursor.pos as int,
            spec_area_start(area.data@, area.arch_pointer_width),
            area.data@.len(),
            ttable.encoding,
            ttable.offset,
            area.arch_pointer_width,
            lsda_ptr,
            *entry,
        ),
{
    let ghost data: Seq<u8> = area.data@;
    let off: u64 = match entry.action_offset() {
        None => {
            return empty_actions();
        },
        Some(o) => o,
    };
    let mut iter: crate::lsda::ActionRecordIterator = match area.action_records_for_offset(off) {
        Ok(it) => it,
        Err(_) => {
            return empty_actions();
        },
    };
    let ghost fuel0: nat = iter.remaining as nat;
    let ghost a: int = iter.cursor.pos as int;
    let mut records: Vec<ActionRecord> = Vec::new();
    proof {
        if let Ok(rest) = spec_action_chain(data, a, Some(off), fuel0) {
            assert(records@ + rest =~= rest);
        }
    }
    while iter.offset.is_some()
        invariant
            iter.cursor.data@ == data,
            iter.cursor.pos as int == a,
            (match spec_action_chain(data, a, iter.offset, iter.remaining as nat) {
                Ok(rest) => spec_action_chain(data, a, Some(off), fuel0) == Ok::<
                    Seq<ActionRecord>,
                    DecodeError,
                >(records@ + rest),
                Err(e) => spec_action_chain(data, a, Some(off), fuel0) == Err::<
                    Seq<ActionRecord>,
                    DecodeError,
                >(e),
            }),
        decreases iter.remaining,
    {
        let ghost old_records: Seq<ActionRecord> = records@;
        match iter.next() {
            Err(_) => {
                return empty_actions();
            },
            Ok(None) => {
                return empty_actions();
            },
            Ok(Some(rec)) => {
                records.push(rec);
                proof {
                    if let Ok(rest) = spec_action_chain(
                        data,
                        a,
                        iter.offset,
                        iter.remaining as nat,
                    ) {
                        assert(old_records + (seq![rec] + rest) =~= records@ + rest);
                    }
                }
            },
        }
    }
    proof {
        assert(records@ + Seq::<ActionRecord>::empty() =~= records@);
    }
    let ghost he: int = ttable.cursor.pos as int;
    let mut actions: Vec<Action> = Vec::new();
    let mut i: usize = 0;
    while i < records.len()
        invariant
            i <= records.len(),
            actions.deep_view().len() == i,
            forall|j: int|
                0 <= j < i ==> actions.deep_view()[j] == spec_action_of(
                    data,
                    he,
                    ttable.encoding,
                    ttable.offset,
                    area.arch_pointer_width,
                    lsda_ptr,
                    records@[j],
                ),
        decreases records.len() - i,
    {
        let rec: ActionRecord = records[i];
        let info: ActionInfo = match ttable.get_type(rec, lsda_ptr) {
            Ok(v) => if v.len() == 0 {
                ActionInfo::Cleanup
            } else {
                ActionInfo::TypeAddresses(v)
            },
            Err(e) => match e {
                DecodeError::UnknownEncoding => ActionInfo::UnsupportedEncoding,
                _ => ActionInfo::MissingTypeTable,
            },
        };
        let ghost old_dv: Seq<SpecAction> = actions.deep_view();
        actions.push(Action { ar_filter: rec.ar_filter, ar_disp: rec.ar_disp, ar_info: info });
        proof {
            assert forall|j: int|
                0 <= j < i + 1 implies actions.deep_view()[j] == spec_action_of(
                data,
                he,
                ttable.encoding,
                ttable.offset,
                area.arch_pointer_width,
                lsda_ptr,
                records@[j],
            ) by {
                if j < i {
                    assert(actions.deep_view()[j] == actions@[j].deep_view());
                    assert(old_dv[j] == actions@[j].deep_view());
                } else {
                    assert(actions.deep_view()[j] == actions@[j].deep_view());
                }
            }
        }
        i = i + 1;
    }
    proof {
        assert(actions.deep_view() =~= records@.map_values(
            |rec: ActionRecord|
                spec_action_of(
                    data,
                    he,
                    ttable.encoding,
                    ttable.offset,
                    area.arch_pointer_width,
                    lsda_ptr,
                    rec,
                ),
        ));
    }
    actions
}

/// The parsed LSDA of one area; see `spec_lsda_result`.
#[verifier::loop_isolation(false)]
#[verifier::rlimit(100)]
fn lsda_result(area: &GccExceptTableArea, lsda_ptr: u64) -> (r: Option<LSDA>)
    ensures
        (match spec_lsda_result(
            area.data@,
            area.arch_pointer_width,
            area.function_start_address,
            lsda_ptr,
        ) {
            None => r is None,
            Some(sl) => r matches Some(l) && l.deep_view() == sl,
        }),
{
    let ghost data: Seq<u8> = area.data@;
    let mut cses_iter: CallSiteTableIterator = match area.call_site_table_entries() {
        Ok(it) => it,
        Err(_) => {
            return None;
        },
    };
    let ttable: TypeTable = match area.type_table() {
        Ok(t) => t,
        Err(_) => {
            return None;
        },
    };
    let ghost p0: int = cses_iter.cursor.pos as int;
    let ghost end: int = cses_iter.end_of_call_site_table as int;
    let ghost enc: u8 = cses_iter.call_site_table_encoding;
    let ghost base: u64 = cses_iter.landing_pad_base;
    let mut entries: Vec<CallSiteTableEntry> = Vec::new();
    proof {
        if let Ok(rest) = spec_call_site_table(data, p0, end, enc, area.arch_pointer_width, base) {
            assert(entries@ + rest =~= rest);
        }
    }
    while (cses_iter.cursor.pos as u64) < cses_iter.end_of_call_site_table
        invariant
            cses_iter.cursor.data@ == data,
            cses_iter.call_site_table_encoding == enc,
            cses_iter.arch_pointer_width == area.arch_pointer_width,
            cses_iter.end_of_call_site_table as int == end,
            cses_iter.landing_pad_base == base,
            (match spec_call_site_table(
                data,
                cses_iter.cursor.pos as int,
                end,
                enc,
                area.arch_pointer_width,
                base,
            ) {
                Ok(rest) => spec_call_site_table(data, p0, end, enc, area.arch_pointer_width, base)
                    == Ok::<Seq<CallSiteTableEntry>, DecodeError>(entries@ + rest),
                Err(e) => spec_call_site_table(data, p0, end, enc, area.arch_pointer_width, base)
                    == Err::<Seq<CallSiteTableEntry>, DecodeError>(e),
            }),
        decreases (if (cses_iter.cursor.pos as int) < end {
            end - cses_iter.cursor.pos as int
        } else {
            0int
        }),
    {
        let ghost prev: int = cses_iter.cursor.pos as int;
        proof {
            lemma_parse_cs_entry_props(data, prev, enc, area.arch_pointer_width, base);
        }
        let ghost old_entries: Seq<CallSiteTableEntry> = entries@;
        match cses_iter.next() {
            Err(_) => {
                return None;
            },
            Ok(None) => {
                return None;
            },
            Ok(Some(entry)) => {
                entries.push(entry);
                proof {
                    assert(seq![entry] + Seq::<CallSiteTableEntry>::empty() =~= seq![entry]);
                    if let Ok(rest) = spec_call_site_table(
                        data,
                        cses_iter.cursor.pos as int,
                        end,
                        enc,
                        area.arch_pointer_width,
                        base,
                    ) {
                        assert(old_entries + (seq![entry] + rest) =~= entries@ + rest);
                    }
                }
            },
        }
    }
    proof {
        assert(entries@ + Seq::<CallSiteTableEntry>::empty() =~= entries@);
    }
    let ghost he: int = ttable.cursor.pos as int;
    let mut cses: Vec<CS> = Vec::new();
    let mut i: usize = 0;
    while i < entries.len()
        invariant
            i <= entries.len(),
            cses.deep_view().len() == i,
            forall|j: int|
                0 <= j < i ==> cses.deep_view()[j] == spec_cs_record(
                    data,
                    he,
                    spec_area_start(data, area.arch_pointer_width),
                    data.len(),
                    ttable.encoding,
                    ttable.offset,
                    area.arch_pointer_width,
                    lsda_ptr,
                    entries@[j],
                ),
        decreases entries.len() - i,
    {
        let entry: CallSiteTableEntry = entries[i];
        let (cs_start, cs_end) = entry.range_of_covered_addresses();
        let lp: Option<u64> = entry.landing_pad_address();
        let actions: Vec<Action> = entry_actions(area, &ttable, &entry, lsda_ptr);
        let ghost old_dv: Seq<SpecCs> = cses.deep_view();
        cses.push(CS { start: cs_start, end: cs_end, lp, actions });
        proof {
            assert forall|j: int|
                0 <= j < i + 1 implies cses.deep_view()[j] == spec_cs_record(
                data,
                he,
                spec_area_start(data, area.arch_pointer_width),
                data.len(),
                ttable.encoding,
                ttable.offset,
                area.arch_pointer_width,
                lsda_ptr,
                entries@[j],
            ) by {
                if j < i {
                    assert(cses.deep_view()[j] == cses@[j].deep_view());
                    assert(old_dv[j] == cses@[j].deep_view());
                } else {
                    assert(cses.deep_view()[j] == cses@[j].deep_view());
                    assert(cses.deep_view()[j] =~~= spec_cs_record(
                        data,
                        he,
                        spec_area_start(data, area.arch_pointer_width),
                        data.len(),
                        ttable.encoding,
                        ttable.offset,
                        area.arch_pointer_width,
                        lsda_ptr,
                        entries@[j],
                    ));
                }
            }
        }
        i = i + 1;
    }
    let result = LSDA { lsda_ptr, cses };
    proof {
        if let Some(sl) = spec_lsda_result(
            data,
            area.arch_pointer_width,
            area.function_start_address,
            lsda_ptr,
        ) {
            assert(result.deep_view() =~~= sl);
        }
    }
    Some(result)
}

/// One output record from one frame descriptor; see `spec_dump_fde`.
pub fn dump_fde(
    sections: &Vec<Section>,
    descriptor: &RawFrameDescriptor,
    width: ArchPointerWidth,
) -> (r: Option<FDE>)
    ensures
        (match spec_dump_fde(sections.deep_view(), *descriptor, width) {
            None => r is None,
            Some(sf) => r matches Some(f) && f.deep_view() == sf,
        }),
{
    let lsda_ptr: u64 = match descriptor.lsda {
        LsdaPointer::Direct(p) => p,
        _ => {
            return None;
        },
    };
    let idx: usize = match find_section_for_address(sections, lsda_ptr) {
        Some(i) => i,
        None => {
            return None;
        },
    };
    proof {
        lemma_section_for_address_covers(sections.deep_view(), lsda_ptr, 0);
    }
    let sec: &Section = &sections[idx];
    let end_addr: u64 = sec.address.wrapping_add(sec.size);
    let off: u64 = lsda_ptr - sec.address;
    let need: u64 = end_addr - lsda_ptr;
    let dlen: u64 = sec.data.len() as u64;
    if off <= dlen && need <= dlen - off {
        let region: &[u8] = vstd::slice::slice_subrange(
            sec.data.as_slice(),
            off as usize,
            (off + need) as usize,
        );
        let area = GccExceptTableArea::new(region, descriptor.start, width);
        match lsda_result(&area, lsda_ptr) {
            None => None,
            Some(l) => Some(
                FDE {
                    fstart: descriptor.start,
                    fend: descriptor.start.wrapping_add(descriptor.length),
                    lsda: l,
                },
            ),
        }
    } else {
        None
    }
}

/// Unrolling `spec_assemble` one descriptor at a time.
pub proof fn lemma_assemble_step(
    sections: Seq<SpecSection>,
    descriptors: Seq<RawFrameDescriptor>,
    width: ArchPointerWidth,
    i: int,
)
    requires
        0 <= i < descriptors.len(),
    ensures
        spec_assemble(sections, descriptors.skip(i), width) == (match spec_dump_fde(
            sections,
            descriptors[i],
            width,
        ) {
            None => spec_assemble(sections, descriptors.skip(i + 1), width),
            Some(f) => seq![f] + spec_assemble(sections, descriptors.skip(i + 1), width),
        }),
{
    assert(descriptors.skip(i)[0] == descriptors[i]);
    assert(descriptors.skip(i).skip(1) =~= descriptors.skip(i + 1));
}

/// The ordered records of all resolvable descriptors; see `spec_assemble`.
#[verifier::loop_isolation(false)]
pub fn assemble_fdes(
    sections: &Vec<Section>,
    descriptors: &Vec<RawFrameDescriptor>,
    width: ArchPointerWidth,
) -> (r: Vec<FDE>)
    ensures
        r.deep_view() == spec_assemble(sections.deep_view(), descriptors@, width),
{
    let ghost ss: Seq<SpecSection> = sections.deep_view();
    let mut out: Vec<FDE> = Vec::new();
    let mut i: usize = 0;
    proof {
        assert(descriptors@.skip(0) =~= descriptors@);
        assert(out.deep_view() + spec_assemble(ss, descriptors@, width) =~= spec_assemble(
            ss,
            descriptors@,
            width,
        ));
    }
    while i < descriptors.len()
        invariant
            i <= descriptors.len(),
            spec_assemble(ss, descriptors@, width) == out.deep_view() + spec_assemble(
                ss,
                descriptors@.skip(i as int),
                width,
            ),
        decreases descriptors.len() - i,
    {
        proof {
            lemma_assemble_step(ss, descriptors@, width, i as int);
        }
        let ghost old_out: Seq<SpecFde> = out.deep_view();
        match dump_fde(sections, &descriptors[i], width) {
            None => (),
            Some(f) => {
                out.push(f);
                proof {
                    if let Some(sf) = spec_dump_fde(ss, descriptors@[i as int], width) {
                        assert(old_out + (seq![sf] + spec_assemble(
                            ss,
                            descriptors@.skip(i + 1),
                            width,
                        )) =~= out.deep_view() + spec_assemble(ss, descriptors@.skip(i + 1), width));
                    }
                }
            },
        }
        i = i + 1;
    }
    proof {
        assert(descriptors@.skip(descriptors@.len() as int) =~= Seq::<RawFrameDescriptor>::empty());
        assert(out.deep_view() + Seq::<SpecFde>::empty() =~= out.deep_view());
    }
    out
}

/// The address of the first section bearing `name`, when one exists.
pub open spec fn spec_named_section_address(sections: Seq<SpecSection>, name: Seq<u8>) -> Option<
    u64,
> {
    match spec_first_section(sections, name, 0) {
        None => None,
        Some(i) => Some(sections[i].address),
    }
}

/// The whole-file walk: require sections named `.text` and `.eh_frame`,
/// decode the frame descriptors of `.eh_frame` under the file's base
/// addresses, and assemble one record per resolvable descriptor, in
/// `.eh_frame` order.
pub fn dump_file(sections: &Vec<Section>, little_endian: bool, width: ArchPointerWidth) -> (r:
    Result<Vec<FDE>, DumpError>)
    ensures
        (spec_first_section(sections.deep_view(), eh_frame_name(), 0) is None
            || spec_first_section(sections.deep_view(), text_name(), 0) is None) <==> r == Err::<
            Vec<FDE>,
            DumpError,
        >(DumpError::MissingRequiredSection),
        (match (
            spec_first_section(sections.deep_view(), eh_frame_name(), 0),
            spec_first_section(sections.deep_view(), text_name(), 0),
        ) {
            (Some(eh_i), Some(text_i)) => (match frame_walk(
                sections.deep_view()[eh_i].data,
                sections.deep_view()[text_i].address,
                sections.deep_view()[eh_i].address,
                spec_named_section_address(sections.deep_view(), eh_frame_hdr_name()),
                spec_named_section_address(sections.deep_view(), got_name()),
                little_endian,
            ) {
                None => r == Err::<Vec<FDE>, DumpError>(DumpError::FrameDecodeFailure),
                Some(descs) => r matches Ok(v) && v.deep_view() == spec_assemble(
                    sections.deep_view(),
                    descs,
                    width,
                ),
            }),
            _ => true,
        }),
{
    let eh_frame_n: Vec<u8> = vec![0x2eu8, 0x65u8, 0x68u8, 0x5fu8, 0x66u8, 0x72u8, 0x61u8, 0x6du8, 0x65u8];
    let text_n: Vec<u8> = vec![0x2eu8, 0x74u8, 0x65u8, 0x78u8, 0x74u8];
    proof {
        assert(eh_frame_n@ =~= eh_frame_name());
        assert(text_n@ =~= text_name());
    }
    let eh_idx: usize = match find_section_named(sections, &eh_frame_n) {
        Some(i) => i,
        None => {
            return Err(DumpError::MissingRequiredSection);
        },
    };
    let text_idx: usize = match find_section_named(sections, &text_n) {
        Some(i) => i,
        None => {
            return Err(DumpError::MissingRequiredSection);
        },
    };
    let hdr_n: Vec<u8> = vec![
        0x2eu8,
        0x65u8,
        0x68u8,
        0x5fu8,
        0x66u8,
        0x72u8,
        0x61u8,
        0x6du8,
        0x65u8,
        0x5fu8,
        0x68u8,
        0x64u8,
        0x72u8,
    ];
    let got_n: Vec<u8> = vec![0x2eu8, 0x67u8, 0x6fu8, 0x74u8];
    proof {
        assert(hdr_n@ =~= eh_frame_hdr_name());
        assert(got_n@ =~= got_name());
    }
    proof {
        lemma_first_section_in_range(sections.deep_view(), eh_frame_hdr_name(), 0);
        lemma_first_section_in_range(sections.deep_view(), got_name(), 0);
        lemma_first_section_in_range(sections.deep_view(), eh_frame_name(), 0);
        lemma_first_section_in_range(sections.deep_view(), text_name(), 0);
    }
    let hdr_addr: Option<u64> = match find_section_named(sections, &hdr_n) {
        Some(i) => Some(sections[i].address),
        None => None,
    };
    let got_addr: Option<u64> = match find_section_named(sections, &got_n) {
        Some(i) => Some(sections[i].address),
        None => None,
    };
    let eh: &Section = &sections[eh_idx];
    let text_addr: u64 = sections[text_idx].address;
    match walk_frame_descriptors(
        &eh.data,
        text_addr,
        eh.address,
        hdr_addr,
        got_addr,
        little_endian,
    ) {
        None => Err(DumpError::FrameDecodeFailure),
        Some(descriptors) => Ok(assemble_fdes(sections, &descriptors, width)),
    }
}

} // verus!
