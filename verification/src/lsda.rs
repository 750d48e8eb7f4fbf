use vstd::prelude::*;

use crate::ArchPointerWidth;
use crate::cursor::ByteCursor;
use crate::cursor::spec_read_u8;
use crate::cursor::spec_skip;
use crate::cursor::spec_sleb128;
use crate::cursor::spec_uleb128;
use crate::encodings::ENC_OMIT;
use crate::encodings::encoding_size;
use crate::encodings::lemma_read_encoded_props;
use crate::encodings::read_encoded_pointer;
use crate::encodings::spec_encoding_size;
use crate::encodings::spec_read_encoded;
use crate::errors::DecodeError;
use crate::spec_bits_to_i64;
use crate::bits_to_i64;
use crate::wadd64;
use crate::wmul64;
use crate::wsub64;

verus! {

/// One contiguous area of a `.gcc_except_table` section: the
/// Language-Specific Data Area (LSDA) describing the landing pads and
/// exception actions of a single function.
#[derive(Clone, Copy, Debug)]
pub struct GccExceptTableArea<'a> {
    /// The bytes of the area, beginning at the LSDA pointer.
    pub data: &'a [u8],
    /// The starting address of the function this area belongs to; the
    /// default landing-pad base when the header omits one.
    pub function_start_address: u64,
    pub arch_pointer_width: ArchPointerWidth,
}

/// The fixed header at the very start of an LSDA area.
#[derive(Clone, Copy, Debug, PartialEq, Eq)]
pub struct LsdaHeader {
    /// The encoding of the landing-pad base value that follows.
    pub landing_pad_base_encoding: u8,
    /// The base address all landing-pad offsets are measured from, when not
    /// omitted; the function start address is the default otherwise.
    pub landing_pad_base: Option<u64>,
    /// The encoding of type-table entries, masked to its low four bits, or
    /// `ENC_OMIT` when the raw byte is `0xff`.
    pub type_table_encoding: u8,
    /// The offset of the type table, measured from the end of this header;
    /// absent when the type table is omitted.
    pub type_table_offset: Option<u64>,
}

/// The header of the call-site table, which follows the LSDA header.
#[derive(Clone, Copy, Debug, PartialEq, Eq)]
pub struct CallSiteTableHeader {
    /// The encoding of call-site table fields.
    pub encoding: u8,
    /// The byte length of the table that follows.
    pub length: u64,
}

/// One entry of the call-site table.
#[derive(Clone, Copy, Debug, PartialEq, Eq, Structural)]
pub struct CallSiteTableEntry {
    /// Offset from the landing-pad base of the first covered address.
    pub starting_offset: u64,
    /// Length of the covered address range.
    pub length: u64,
    /// Offset from the landing-pad base of the landing pad; 0 means none.
    pub landing_pad_offset: u64,
    /// One past the start of the action chain; 0 means no action.
    pub action_offset: u64,
    /// The landing-pad base this entry's offsets are measured from.
    pub landing_pad_base: u64,
}

/// One record of the action table.
#[derive(Clone, Copy, Debug, PartialEq, Eq, Structural)]
pub struct ActionRecord {
    /// 0 for a cleanup, a positive 1-based type-table index, or a negative
    /// start of a 0-terminated index list.
    pub ar_filter: i64,
    /// Self-relative signed displacement to the next record; 0 ends the chain.
    pub ar_disp: i64,
}

/// Parsing the LSDA header at `pos`.
pub open spec fn spec_parse_lsda_header(
    data: Seq<u8>,
    pos: int,
    width: ArchPointerWidth,
) -> Result<(LsdaHeader, int), DecodeError> {
    match spec_read_u8(data, pos) {
        Err(e) => Err(e),
        Ok((enc0, p1)) => {
            let lp_encoding = enc0 as u8;
            if lp_encoding == ENC_OMIT {
                spec_parse_lsda_header_tail(data, p1, lp_encoding, None)
            } else {
                match spec_read_encoded(data, p1, lp_encoding, width) {
                    Err(e) => Err(e),
                    Ok((lp, p2)) => spec_parse_lsda_header_tail(
                        data,
                        p2,
                        lp_encoding,
                        Some(lp as u64),
                    ),
                }
            }
        },
    }
}

/// The type-table half of the LSDA header: one raw encoding byte (`0xff`
/// means omitted, anything else is masked to its low four bits), then, when
/// present, the table offset as unsigned LEB128.
pub open spec fn spec_parse_lsda_header_tail(
    data: Seq<u8>,
    pos: int,
    lp_encoding: u8,
    lp: Option<u64>,
) -> Result<(LsdaHeader, int), DecodeError> {
    match spec_read_u8(data, pos) {
        Err(e) => Err(e),
        Ok((raw, p1)) => {
            let tt_encoding = if raw == 0xff {
                ENC_OMIT
            } else {
                (raw % 16) as u8
            };
            if tt_encoding == ENC_OMIT {
                Ok(
                    (
                        LsdaHeader {
                            landing_pad_base_encoding: lp_encoding,
                            landing_pad_base: lp,
                            type_table_encoding: tt_encoding,
                            type_table_offset: None,
                        },
                        p1,
                    ),
                )
            } else {
                match spec_uleb128(data, p1, 0) {
                    Err(e) => Err(e),
                    Ok((off, p2)) => Ok(
                        (
                            LsdaHeader {
                                landing_pad_base_encoding: lp_encoding,
                                landing_pad_base: lp,
                                type_table_encoding: tt_encoding,
                                type_table_offset: Some(off as u64),
                            },
                            p2,
                        ),
                    ),
                }
            }
        },
    }
}

/// Parsing the call-site table header at `pos`.
pub open spec fn spec_parse_cs_header(data: Seq<u8>, pos: int) -> Result<
    (CallSiteTableHeader, int),
    DecodeError,
> {
    match spec_read_u8(data, pos) {
        Err(e) => Err(e),
        Ok((enc, p1)) => match spec_uleb128(data, p1, 0) {
            Err(e) => Err(e),
            Ok((len, p2)) => Ok(
                (CallSiteTableHeader { encoding: enc as u8, length: len as u64 }, p2),
            ),
        },
    }
}

/// Parsing both headers from the start of the area.
pub open spec fn spec_parse_from_beginning(data: Seq<u8>, width: ArchPointerWidth) -> Result<
    (LsdaHeader, CallSiteTableHeader, int),
    DecodeError,
> {
    match spec_parse_lsda_header(data, 0, width) {
        Err(e) => Err(e),
        Ok((lh, p1)) => match spec_parse_cs_header(data, p1) {
            Err(e) => Err(e),
            Ok((ch, p2)) => Ok((lh, ch, p2)),
        },
    }
}

/// Parsing one call-site table entry at `pos`: three fields in the table's
/// encoding, then the action field as unsigned LEB128.
pub open spec fn spec_parse_cs_entry(
    data: Seq<u8>,
    pos: int,
    encoding: u8,
    width: ArchPointerWidth,
    landing_pad_base: u64,
) -> Result<(CallSiteTableEntry, int), DecodeError> {
    match spec_read_encoded(data, pos, encoding, width) {
        Err(e) => Err(e),
        Ok((cs_start, p1)) => match spec_read_encoded(data, p1, encoding, width) {
            Err(e) => Err(e),
            Ok((cs_length, p2)) => match spec_read_encoded(data, p2, encoding, width) {
                Err(e) => Err(e),
                Ok((cs_lp, p3)) => match spec_uleb128(data, p3, 0) {
                    Err(e) => Err(e),
                    Ok((cs_action, p4)) => Ok(
                        (
                            CallSiteTableEntry {
                                starting_offset: cs_start as u64,
                                length: cs_length as u64,
                                landing_pad_offset: cs_lp as u64,
                                action_offset: cs_action as u64,
                                landing_pad_base,
                            },
                            p4,
                        ),
                    ),
                },
            },
        },
    }
}

pub proof fn lemma_parse_cs_entry_props(
    data: Seq<u8>,
    pos: int,
    encoding: u8,
    width: ArchPointerWidth,
    landing_pad_base: u64,
)
    ensures
        spec_parse_cs_entry(data, pos, encoding, width, landing_pad_base) matches Ok((e, p))
            ==> pos < p <= data.len(),
{
    lemma_read_encoded_props(data, pos, encoding, width);
    if let Ok((v1, p1)) = spec_read_encoded(data, pos, encoding, width) {
        lemma_read_encoded_props(data, p1, encoding, width);
        if let Ok((v2, p2)) = spec_read_encoded(data, p1, encoding, width) {
            lemma_read_encoded_props(data, p2, encoding, width);
            if let Ok((v3, p3)) = spec_read_encoded(data, p2, encoding, width) {
                crate::cursor::lemma_uleb128_props(data, p3, 0);
            }
        }
    }
}

/// The whole call-site table between `pos` and `end`: entries are parsed
/// while the position is strictly below `end`; an entry may finish at or
/// past `end`, and the table stops there.
pub open spec fn spec_call_site_table(
    data: Seq<u8>,
    pos: int,
    end: int,
    encoding: u8,
    width: ArchPointerWidth,
    landing_pad_base: u64,
) -> Result<Seq<CallSiteTableEntry>, DecodeError>
    decreases end - pos,
{
    if pos >= end {
        Ok(Seq::empty())
    } else {
        match spec_parse_cs_entry(data, pos, encoding, width, landing_pad_base) {
            Err(e) => Err(e),
            Ok((entry, p)) => if p <= pos {
                Err(DecodeError::UnexpectedEof)
            } else if p >= end {
                Ok(seq![entry])
            } else {
                match spec_call_site_table(data, p, end, encoding, width, landing_pad_base) {
                    Err(e) => Err(e),
                    Ok(rest) => Ok(seq![entry] + rest),
                }
            },
        }
    }
}

impl CallSiteTableEntry {
    /// The covered range of instruction addresses, as a half-open pair
    /// `(start, end)` computed with 64-bit modular arithmetic.
    pub fn range_of_covered_addresses(&self) -> (r: (u64, u64))
        ensures
            r.0 == wadd64(self.landing_pad_base, self.starting_offset),
            r.1 == wadd64(wadd64(self.landing_pad_base, self.starting_offset), self.length),
    {
        let start: u64 = self.landing_pad_base.wrapping_add(self.starting_offset);
        (start, start.wrapping_add(self.length))
    }

    /// The landing-pad address: absent exactly when the stored landing-pad
    /// offset is 0, and `landing_pad_base + offset` otherwise.
    pub fn landing_pad_address(&self) -> (r: Option<u64>)
        ensures
            r is None <==> self.landing_pad_offset == 0,
            self.landing_pad_offset != 0 ==> r == Some(
                wadd64(self.landing_pad_base, self.landing_pad_offset),
            ),
    {
        if self.landing_pad_offset == 0 {
            None
        } else {
            Some(self.landing_pad_base.wrapping_add(self.landing_pad_offset))
        }
    }

    /// The start of this entry's action chain: absent exactly when the
    /// stored action field is 0, and the stored field minus 1 otherwise.
    pub fn action_offset(&self) -> (r: Option<u64>)
        ensures
            r is None <==> self.action_offset == 0,
            self.action_offset != 0 ==> r == Some((self.action_offset - 1) as u64),
    {
        if self.action_offset == 0 {
            None
        } else {
            Some(self.action_offset - 1)
        }
    }
}

/// An iterator over the entries of a call-site table. Entries are produced
/// while the cursor sits strictly before `end_of_call_site_table`.
pub struct CallSiteTableIterator<'a> {
    /// The encoding of call-site table fields.
    pub call_site_table_encoding: u8,
    pub arch_pointer_width: ArchPointerWidth,
    /// The absolute position just past the declared end of the table.
    pub end_of_call_site_table: u64,
    /// The base all entry offsets are measured from.
    pub landing_pad_base: u64,
    /// Sits at the start of the next entry to parse.
    pub cursor: ByteCursor<'a>,
}

impl<'a> CallSiteTableIterator<'a> {
    /// Parse the next entry, or report that the table is exhausted.
    pub fn next(&mut self) -> (r: Result<Option<CallSiteTableEntry>, DecodeError>)
        ensures
            final(self).cursor.data@ == old(self).cursor.data@,
            final(self).call_site_table_encoding == old(self).call_site_table_encoding,
            final(self).arch_pointer_width == old(self).arch_pointer_width,
            final(self).end_of_call_site_table == old(self).end_of_call_site_table,
            final(self).landing_pad_base == old(self).landing_pad_base,
            old(self).cursor.pos >= old(self).end_of_call_site_table ==> r == Ok::<
                Option<CallSiteTableEntry>,
                DecodeError,
            >(None) && *final(self) == *old(self),
            old(self).cursor.pos < old(self).end_of_call_site_table ==> (match spec_parse_cs_entry(
                old(self).cursor.data@,
                old(self).cursor.pos as int,
                old(self).call_site_table_encoding,
                old(self).arch_pointer_width,
                old(self).landing_pad_base,
            ) {
                Ok((entry, p)) => r == Ok::<Option<CallSiteTableEntry>, DecodeError>(Some(entry))
                    && final(self).cursor.pos == p,
                Err(e) => r == Err::<Option<CallSiteTableEntry>, DecodeError>(e),
            }),
    {
        if (self.cursor.pos as u64) < self.end_of_call_site_table {
            let encoding: u8 = self.call_site_table_encoding;
            let width: ArchPointerWidth = self.arch_pointer_width;
            let base: u64 = self.landing_pad_base;
            let cs_start: u64 = match read_encoded_pointer(&mut self.cursor, encoding, width) {
                Ok(v) => v,
                Err(e) => {
                    return Err(e);
                },
            };
            let cs_length: u64 = match read_encoded_pointer(&mut self.cursor, encoding, width) {
                Ok(v) => v,
                Err(e) => {
                    return Err(e);
                },
            };
            let cs_lp: u64 = match read_encoded_pointer(&mut self.cursor, encoding, width) {
                Ok(v) => v,
                Err(e) => {
                    return Err(e);
                },
            };
            let cs_action: u64 = match self.cursor.read_uleb128() {
                Ok(v) => v,
                Err(e) => {
                    return Err(e);
                },
            };
            Ok(
                Some(
                    CallSiteTableEntry {
                        starting_offset: cs_start,
                        length: cs_length,
                        landing_pad_offset: cs_lp,
                        action_offset: cs_action,
                        landing_pad_base: base,
                    },
                ),
            )
        } else {
            Ok(None)
        }
    }
}

impl LsdaHeader {
    /// Parse the LSDA header at the cursor.
    fn parse(cursor: &mut ByteCursor, width: ArchPointerWidth) -> (r: Result<
        LsdaHeader,
        DecodeError,
    >)
        ensures
            final(cursor).data@ == old(cursor).data@,
            (match spec_parse_lsda_header(old(cursor).data@, old(cursor).pos as int, width) {
                Ok((h, p)) => r matches Ok(rh) && rh == h && final(cursor).pos == p,
                Err(e) => r == Err::<LsdaHeader, DecodeError>(e),
            }),
    {
        let lp_encoding: u8 = match cursor.read_u8() {
            Ok(b) => b,
            Err(e) => {
                return Err(e);
            },
        };
        let lp: Option<u64> = if lp_encoding == ENC_OMIT {
            None
        } else {
            match read_encoded_pointer(cursor, lp_encoding, width) {
                Ok(v) => Some(v),
                Err(e) => {
                    return Err(e);
                },
            }
        };
        let raw: u8 = match cursor.read_u8() {
            Ok(b) => b,
            Err(e) => {
                return Err(e);
            },
        };
        let tt_encoding: u8 = if raw == 0xff {
            ENC_OMIT
        } else {
            raw % 16
        };
        let tt_offset: Option<u64> = if tt_encoding == ENC_OMIT {
            None
        } else {
            match cursor.read_uleb128() {
                Ok(v) => Some(v),
                Err(e) => {
                    return Err(e);
                },
            }
        };
        Ok(
            LsdaHeader {
                landing_pad_base_encoding: lp_encoding,
                landing_pad_base: lp,
                type_table_encoding: tt_encoding,
                type_table_offset: tt_offset,
            },
        )
    }
}

impl CallSiteTableHeader {
    /// Parse the call-site table header at the cursor.
    fn parse(cursor: &mut ByteCursor) -> (r: Result<CallSiteTableHeader, DecodeError>)
        ensures
            final(cursor).data@ == old(cursor).data@,
            (match spec_parse_cs_header(old(cursor).data@, old(cursor).pos as int) {
                Ok((h, p)) => r matches Ok(rh) && rh == h && final(cursor).pos == p,
                Err(e) => r == Err::<CallSiteTableHeader, DecodeError>(e),
            }),
    {
        let encoding: u8 = match cursor.read_u8() {
            Ok(b) => b,
            Err(e) => {
                return Err(e);
            },
        };
        let length: u64 = match cursor.read_uleb128() {
            Ok(v) => v,
            Err(e) => {
                return Err(e);
            },
        };
        Ok(CallSiteTableHeader { encoding, length })
    }
}

impl<'a> GccExceptTableArea<'a> {
    /// An area over `data`, which begins at the LSDA pointer of the function
    /// starting at `function_start_address`.
    pub fn new(
        data: &'a [u8],
        function_start_address: u64,
        arch_pointer_width: ArchPointerWidth,
    ) -> (r: GccExceptTableArea<'a>)
        ensures
            r.data@ == data@,
            r.function_start_address == function_start_address,
            r.arch_pointer_width == arch_pointer_width,
    {
        GccExceptTableArea { data, function_start_address, arch_pointer_width }
    }

    /// Parse the two fixed headers at the start of the area, returning them
    /// with a cursor positioned just past them.
    pub fn parse_from_beginning(&self) -> (r: Result<
        (LsdaHeader, CallSiteTableHeader, ByteCursor<'a>),
        DecodeError,
    >)
        ensures
            (match spec_parse_from_beginning(self.data@, self.arch_pointer_width) {
                Ok((lh, ch, p)) => r matches Ok(t) && t.0 == lh && t.1 == ch && t.2.data@
                    == self.data@ && t.2.pos == p,
                Err(e) => r == Err::<(LsdaHeader, CallSiteTableHeader, ByteCursor<'a>), DecodeError>(
                    e,
                ),
            }),
    {
        let mut cursor: ByteCursor<'a> = ByteCursor::new(self.data);
        let lsda_header: LsdaHeader = match LsdaHeader::parse(&mut cursor, self.arch_pointer_width) {
            Ok(h) => h,
            Err(e) => {
                return Err(e);
            },
        };
        let call_site_table_header: CallSiteTableHeader = match CallSiteTableHeader::parse(
            &mut cursor,
        ) {
            Ok(h) => h,
            Err(e) => {
                return Err(e);
            },
        };
        Ok((lsda_header, call_site_table_header, cursor))
    }

    /// An iterator over the entries of this area's call-site table.
    pub fn call_site_table_entries(&self) -> (r: Result<CallSiteTableIterator<'a>, DecodeError>)
        ensures
            (match spec_parse_from_beginning(self.data@, self.arch_pointer_width) {
                Ok((lh, ch, p)) => r matches Ok(it) && it.call_site_table_encoding == ch.encoding
                    && it.arch_pointer_width == self.arch_pointer_width
                    && it.end_of_call_site_table == wadd64(p as u64, ch.length)
                    && it.landing_pad_base == (match lh.landing_pad_base {
                    Some(b) => b,
                    None => self.function_start_address,
                }) && it.cursor.data@ == self.data@ && it.cursor.pos == p,
                Err(e) => r == Err::<CallSiteTableIterator<'a>, DecodeError>(e),
            }),
    {
        let (lsda_header, call_site_table_header, cursor) = match self.parse_from_beginning() {
            Ok(t) => t,
            Err(e) => {
                return Err(e);
            },
        };
        let end_of_call_site_table: u64 = (cursor.pos as u64).wrapping_add(
            call_site_table_header.length,
        );
        let landing_pad_base: u64 = match lsda_header.landing_pad_base {
            Some(b) => b,
            None => self.function_start_address,
        };
        Ok(
            CallSiteTableIterator {
                call_site_table_encoding: call_site_table_header.encoding,
                arch_pointer_width: self.arch_pointer_width,
                end_of_call_site_table,
                landing_pad_base,
                cursor,
            },
        )
    }

    /// An iterator over the action chain starting at `offset`.
    pub fn action_records_for_offset(&self, offset: u64) -> (r: Result<
        ActionRecordIterator<'a>,
        DecodeError,
    >)
        ensures
            (match spec_parse_from_beginning(self.data@, self.arch_pointer_width) {
                Err(e) => r == Err::<ActionRecordIterator<'a>, DecodeError>(e),
                Ok((lh, ch, p)) => match spec_skip(self.data@, p, ch.length as int) {
                    Err(e) => r == Err::<ActionRecordIterator<'a>, DecodeError>(e),
                    Ok(a) => r matches Ok(it) && it.offset == Some(offset) && it.cursor.data@
                        == self.data@ && it.cursor.pos == a && it.remaining == self.data@.len()
                        && it.arch_pointer_width == self.arch_pointer_width,
                },
            }),
    {
        ActionRecordIterator::new(self, offset)
    }
}

/// Whether `entry` covers `address`, under 64-bit modular range arithmetic.
pub open spec fn spec_entry_covers(entry: CallSiteTableEntry, address: u64) -> bool {
    let s = wadd64(entry.landing_pad_base, entry.starting_offset);
    let e = wadd64(s, entry.length);
    s <= address < e
}

/// The first entry between `pos` and `end` that covers `address`; entries
/// after the first match are never parsed.
pub open spec fn spec_find_call_site(
    data: Seq<u8>,
    pos: int,
    end: int,
    encoding: u8,
    width: ArchPointerWidth,
    landing_pad_base: u64,
    address: u64,
) -> Result<Option<CallSiteTableEntry>, DecodeError>
    decreases end - pos,
{
    if pos >= end {
        Ok(None)
    } else {
        match spec_parse_cs_entry(data, pos, encoding, width, landing_pad_base) {
            Err(e) => Err(e),
            Ok((entry, p)) => if spec_entry_covers(entry, address) {
                Ok(Some(entry))
            } else if p <= pos {
                Err(DecodeError::UnexpectedEof)
            } else if p >= end {
                Ok(None)
            } else {
                spec_find_call_site(data, p, end, encoding, width, landing_pad_base, address)
            },
        }
    }
}

impl<'a> GccExceptTableArea<'a> {
    /// The call-site table entry covering `address`, or
    /// `NoCallSiteForAddress` when no entry covers it.
    pub fn call_site_table_entry_for_address(&self, address: u64) -> (r: Result<
        CallSiteTableEntry,
        DecodeError,
    >)
        ensures
            (match spec_parse_from_beginning(self.data@, self.arch_pointer_width) {
                Err(e) => r == Err::<CallSiteTableEntry, DecodeError>(e),
                Ok((lh, ch, p)) => {
                    let base = match lh.landing_pad_base {
                        Some(b) => b,
                        None => self.function_start_address,
                    };
                    match spec_find_call_site(
                        self.data@,
                        p,
                        wadd64(p as u64, ch.length) as int,
                        ch.encoding,
                        self.arch_pointer_width,
                        base,
                        address,
                    ) {
                        Err(e) => r == Err::<CallSiteTableEntry, DecodeError>(e),
                        Ok(None) => r == Err::<CallSiteTableEntry, DecodeError>(
                            DecodeError::NoCallSiteForAddress,
                        ),
                        Ok(Some(entry)) => r == Ok::<CallSiteTableEntry, DecodeError>(entry),
                    }
                },
            }),
    {
        let mut iter: CallSiteTableIterator<'a> = match self.call_site_table_entries() {
            Ok(it) => it,
            Err(e) => {
                return Err(e);
            },
        };
        let ghost p0: int = iter.cursor.pos as int;
        let ghost end: int = iter.end_of_call_site_table as int;
        loop
            invariant
                iter.cursor.data@ == self.data@,
                iter.end_of_call_site_table as int == end,
                spec_parse_from_beginning(self.data@, self.arch_pointer_width) matches Ok(
                    (lh, ch, p),
                ) && p == p0 && ch.encoding == iter.call_site_table_encoding
                    && iter.arch_pointer_width == self.arch_pointer_width
                    && iter.landing_pad_base == (match lh.landing_pad_base {
                    Some(b) => b,
                    None => self.function_start_address,
                }) && end == wadd64(p as u64, ch.length) as int,
                spec_find_call_site(
                    self.data@,
                    p0,
                    end,
                    iter.call_site_table_encoding,
                    self.arch_pointer_width,
                    iter.landing_pad_base,
                    address,
                ) == spec_find_call_site(
                    self.data@,
                    iter.cursor.pos as int,
                    end,
                    iter.call_site_table_encoding,
                    self.arch_pointer_width,
                    iter.landing_pad_base,
                    address,
                ),
            decreases (if (iter.cursor.pos as int) < end {
                end - iter.cursor.pos as int
            } else {
                0int
            }),
        {
            let ghost prev: int = iter.cursor.pos as int;
            proof {
                lemma_parse_cs_entry_props(
                    self.data@,
                    prev,
                    iter.call_site_table_encoding,
                    self.arch_pointer_width,
                    iter.landing_pad_base,
                );
            }
            match iter.next() {
                Err(e) => {
                    return Err(e);
                },
                Ok(None) => {
                    return Err(DecodeError::NoCallSiteForAddress);
                },
                Ok(Some(entry)) => {
                    let (s, e) = entry.range_of_covered_addresses();
                    if s <= address && address < e {
                        return Ok(entry);
                    }
                },
            }
        }
    }

    /// The type table of this area.
    pub fn type_table(&self) -> (r: Result<TypeTable<'a>, DecodeError>)
        ensures
            (match spec_parse_lsda_header(self.data@, 0, self.arch_pointer_width) {
                Err(e) => r == Err::<TypeTable<'a>, DecodeError>(e),
                Ok((lh, p)) => r matches Ok(tt) && tt.encoding == lh.type_table_encoding
                    && tt.offset == (match lh.type_table_offset {
                    Some(o) => o,
                    None => 0,
                }) && tt.cursor.data@ == self.data@ && tt.cursor.pos == p
                    && tt.arch_pointer_width == self.arch_pointer_width,
            }),
    {
        TypeTable::new(self)
    }
}

/// The absolute value of `filter` as a 64-bit unsigned value.
pub open spec fn spec_i64_abs_u64(filter: i64) -> u64 {
    if filter < 0 {
        (-(filter as int)) as u64
    } else {
        filter as u64
    }
}

/// The 0-terminated list of type-table indices at `pos`: every non-zero
/// byte before the first zero byte, in order.
pub open spec fn spec_index_list(data: Seq<u8>, pos: int) -> Result<Seq<u64>, DecodeError>
    decreases data.len() - pos,
{
    if !(0 <= pos < data.len()) {
        Err(DecodeError::UnexpectedEof)
    } else if data[pos] == 0 {
        Ok(Seq::empty())
    } else {
        match spec_index_list(data, pos + 1) {
            Err(e) => Err(e),
            Ok(rest) => Ok(seq![data[pos] as u64] + rest),
        }
    }
}

/// Resolving one 1-based index `f`: the entry sits `stride * f` bytes before
/// the table offset (the table grows backward); a stored 0 stays 0 as the
/// catch-all sentinel, any other value is added to `lsda_ptr` plus the
/// entry's position, all modulo 2^64.
pub open spec fn spec_type_ref(
    data: Seq<u8>,
    header_end: int,
    offset: u64,
    stride: u64,
    encoding: u8,
    width: ArchPointerWidth,
    lsda_ptr: u64,
    f: u64,
) -> Result<u64, DecodeError> {
    let eo = wsub64(offset, wmul64(stride, f));
    match spec_skip(data, header_end, eo as int) {
        Err(e) => Err(e),
        Ok(p) => {
            let base_disp = wadd64(lsda_ptr, p as u64);
            match spec_read_encoded(data, p, encoding, width) {
                Err(e) => Err(e),
                Ok((v, _p2)) => if v == 0 {
                    Ok(0u64)
                } else {
                    Ok(wadd64(base_disp, v as u64))
                },
            }
        },
    }
}

/// Resolving a list of indices in order; the first failure fails the whole
/// resolution.
pub open spec fn spec_type_refs(
    data: Seq<u8>,
    header_end: int,
    offset: u64,
    stride: u64,
    encoding: u8,
    width: ArchPointerWidth,
    lsda_ptr: u64,
    filters: Seq<u64>,
) -> Result<Seq<u64>, DecodeError>
    decreases filters.len(),
{
    if filters.len() == 0 {
        Ok(Seq::empty())
    } else {
        match spec_type_ref(data, header_end, offset, stride, encoding, width, lsda_ptr, filters[0]) {
            Err(e) => Err(e),
            Ok(a) => match spec_type_refs(
                data,
                header_end,
                offset,
                stride,
                encoding,
                width,
                lsda_ptr,
                filters.skip(1),
            ) {
                Err(e) => Err(e),
                Ok(rest) => Ok(seq![a] + rest),
            },
        }
    }
}

/// Unrolling `spec_type_refs` one index at a time.
pub proof fn lemma_type_refs_step(
    data: Seq<u8>,
    header_end: int,
    offset: u64,
    stride: u64,
    encoding: u8,
    width: ArchPointerWidth,
    lsda_ptr: u64,
    filters: Seq<u64>,
    i: int,
)
    requires
        0 <= i < filters.len(),
    ensures
        spec_type_refs(data, header_end, offset, stride, encoding, width, lsda_ptr, filters.skip(i))
            == (match spec_type_ref(
            data,
            header_end,
            offset,
            stride,
            encoding,
            width,
            lsda_ptr,
            filters[i],
        ) {
            Err(e) => Err::<Seq<u64>, DecodeError>(e),
            Ok(a) => match spec_type_refs(
                data,
                header_end,
                offset,
                stride,
                encoding,
                width,
                lsda_ptr,
                filters.skip(i + 1),
            ) {
                Err(e) => Err::<Seq<u64>, DecodeError>(e),
                Ok(rest) => Ok::<Seq<u64>, DecodeError>(seq![a] + rest),
            },
        }),
{
    assert(filters.skip(i)[0] == filters[i]);
    assert(filters.skip(i).skip(1) =~= filters.skip(i + 1));
}

/// The full resolution of one action record against the type table at
/// `offset` past `header_end`. A filter of 0 resolves to no addresses; a
/// positive filter is itself the only index; a negative filter points at a
/// 0-terminated index list `offset + |filter| - 1` bytes past `header_end`.
/// An absent table (offset 0) fails every resolution; a stride-less
/// encoding fails resolutions that must index the table.
pub open spec fn spec_get_type(
    data: Seq<u8>,
    header_end: int,
    encoding: u8,
    offset: u64,
    width: ArchPointerWidth,
    record: ActionRecord,
    lsda_ptr: u64,
) -> Result<Seq<u64>, DecodeError> {
    if offset == 0 {
        Err(DecodeError::CannotParseOmitEncoding)
    } else if record.ar_filter == 0 {
        Ok(Seq::empty())
    } else {
        let filters_r: Result<Seq<u64>, DecodeError> = if record.ar_filter > 0 {
            Ok(seq![record.ar_filter as u64])
        } else {
            let idx_off = wsub64(wadd64(offset, spec_i64_abs_u64(record.ar_filter)), 1);
            match spec_skip(data, header_end, idx_off as int) {
                Err(e) => Err(e),
                Ok(p) => spec_index_list(data, p),
            }
        };
        match filters_r {
            Err(e) => Err(e),
            Ok(filters) => {
                let stride = spec_encoding_size(encoding, width);
                if stride == 0 {
                    Err(DecodeError::UnknownEncoding)
                } else {
                    spec_type_refs(
                        data,
                        header_end,
                        offset,
                        stride as u64,
                        encoding,
                        width,
                        lsda_ptr,
                        filters,
                    )
                }
            },
        }
    }
}

/// Exec resolution of one 1-based index, mirroring `spec_type_ref`.
/// `cursor` sits just past the LSDA header.
fn resolve_type_ref(
    cursor: ByteCursor,
    offset: u64,
    stride: u64,
    encoding: u8,
    width: ArchPointerWidth,
    lsda_ptr: u64,
    f: u64,
) -> (r: Result<u64, DecodeError>)
    ensures
        (match spec_type_ref(
            cursor.data@,
            cursor.pos as int,
            offset,
            stride,
            encoding,
            width,
            lsda_ptr,
            f,
        ) {
            Ok(a) => r == Ok::<u64, DecodeError>(a),
            Err(e) => r == Err::<u64, DecodeError>(e),
        }),
{
    let entry_off: u64 = offset.wrapping_sub(stride.wrapping_mul(f));
    let mut entry_cursor: ByteCursor = cursor;
    match entry_cursor.skip(entry_off) {
        Ok(u) => u,
        Err(e) => {
            return Err(e);
        },
    };
    let base_disp: u64 = lsda_ptr.wrapping_add(entry_cursor.pos as u64);
    let v: u64 = match read_encoded_pointer(&mut entry_cursor, encoding, width) {
        Ok(v) => v,
        Err(e) => {
            return Err(e);
        },
    };
    if v == 0 {
        Ok(0)
    } else {
        Ok(base_disp.wrapping_add(v))
    }
}

/// A reference to the type table of one LSDA area.
#[derive(Clone, Copy, Debug)]
pub struct TypeTable<'a> {
    /// The encoding of type-table entries.
    pub encoding: u8,
    /// The offset of the table past the end of the LSDA header, or 0 when
    /// the table is absent.
    pub offset: u64,
    /// Sits just past the LSDA header and never moves.
    pub cursor: ByteCursor<'a>,
    pub arch_pointer_width: ArchPointerWidth,
}

impl<'a> TypeTable<'a> {
    /// The type table of `area`, read from its LSDA header. An omitted
    /// table is represented by offset 0 and reported by `get_type`.
    pub fn new(area: &GccExceptTableArea<'a>) -> (r: Result<TypeTable<'a>, DecodeError>)
        ensures
            (match spec_parse_lsda_header(area.data@, 0, area.arch_pointer_width) {
                Err(e) => r == Err::<TypeTable<'a>, DecodeError>(e),
                Ok((lh, p)) => r matches Ok(tt) && tt.encoding == lh.type_table_encoding
                    && tt.offset == (match lh.type_table_offset {
                    Some(o) => o,
                    None => 0,
                }) && tt.cursor.data@ == area.data@ && tt.cursor.pos == p
                    && tt.arch_pointer_width == area.arch_pointer_width,
            }),
    {
        let mut cursor: ByteCursor<'a> = ByteCursor::new(area.data);
        let lsda_header: LsdaHeader = match LsdaHeader::parse(&mut cursor, area.arch_pointer_width) {
            Ok(h) => h,
            Err(e) => {
                return Err(e);
            },
        };
        let offset: u64 = match lsda_header.type_table_offset {
            None => 0,
            Some(x) => x,
        };
        Ok(
            TypeTable {
                offset,
                encoding: lsda_header.type_table_encoding,
                cursor,
                arch_pointer_width: area.arch_pointer_width,
            },
        )
    }

    /// Resolve one action record to its list of absolute type-reference
    /// addresses; see `spec_get_type` for the exact meaning.
    #[verifier::rlimit(100)]
    #[verifier::loop_isolation(false)]
    pub fn get_type(&self, record: ActionRecord, lsda_ptr: u64) -> (r: Result<
        Vec<u64>,
        DecodeError,
    >)
        ensures
            (match spec_get_type(
                self.cursor.data@,
                self.cursor.pos as int,
                self.encoding,
                self.offset,
                self.arch_pointer_width,
                record,
                lsda_ptr,
            ) {
                Ok(s) => r matches Ok(v) && v@ == s,
                Err(e) => r == Err::<Vec<u64>, DecodeError>(e),
            }),
    {
        if self.offset == 0 {
            return Err(DecodeError::CannotParseOmitEncoding);
        }
        let mut filters: Vec<u64> = Vec::new();
        if record.ar_filter == 0 {
            return Ok(filters);
        } else if record.ar_filter > 0 {
            filters.push(record.ar_filter as u64);
        } else {
            let abs_f: u64 = if record.ar_filter == -0x7fff_ffff_ffff_ffff - 1 {
                0x8000_0000_0000_0000
            } else {
                (-record.ar_filter) as u64
            };
            let idx_off: u64 = self.offset.wrapping_add(abs_f).wrapping_sub(1);
            let mut index_cursor: ByteCursor = self.cursor;
            match index_cursor.skip(idx_off) {
                Ok(u) => u,
                Err(e) => {
                    return Err(e);
                },
            };
            let ghost p0: int = index_cursor.pos as int;
            let mut index: u8 = match index_cursor.read_u8() {
                Ok(b) => b,
                Err(e) => {
                    return Err(e);
                },
            };
            proof {
                if index != 0 {
                    if let Ok(rest) = spec_index_list(self.cursor.data@, p0 + 1) {
                        assert(filters@ + (seq![index as u64] + rest) =~= seq![index as u64]
                            + rest);
                    }
                }
            }
            while index != 0
                invariant
                    index_cursor.data@ == self.cursor.data@,
                    index_cursor.pos <= index_cursor.data@.len(),
                    index == 0 ==> spec_index_list(self.cursor.data@, p0) == Ok::<
                        Seq<u64>,
                        DecodeError,
                    >(filters@),
                    index != 0 ==> (match spec_index_list(
                        self.cursor.data@,
                        index_cursor.pos as int,
                    ) {
                        Ok(rest) => spec_index_list(self.cursor.data@, p0) == Ok::<
                            Seq<u64>,
                            DecodeError,
                        >(filters@ + (seq![index as u64] + rest)),
                        Err(e) => spec_index_list(self.cursor.data@, p0) == Err::<
                            Seq<u64>,
                            DecodeError,
                        >(e),
                    }),
                decreases index_cursor.data@.len() - index_cursor.pos,
            {
                let ghost old_filters: Seq<u64> = filters@;
                let ghost old_index: u8 = index;
                filters.push(index as u64);
                let ghost prev: int = index_cursor.pos as int;
                index = match index_cursor.read_u8() {
                    Ok(b) => b,
                    Err(e) => {
                        return Err(e);
                    },
                };
                proof {
                    if index == 0 {
                        assert(old_filters + (seq![old_index as u64] + Seq::<u64>::empty())
                            =~= filters@);
                    } else {
                        if let Ok(rest) = spec_index_list(self.cursor.data@, prev + 1) {
                            assert(old_filters + (seq![old_index as u64] + (seq![index as u64]
                                + rest)) =~= filters@ + (seq![index as u64] + rest));
                        }
                    }
                }
            }
        }
        proof {
            if record.ar_filter > 0 {
                assert(filters@ =~= seq![record.ar_filter as u64]);
            }
        }
        let stride: u64 = encoding_size(self.encoding, self.arch_pointer_width);
        if stride == 0 {
            return Err(DecodeError::UnknownEncoding);
        }
        let ghost all_filters: Seq<u64> = filters@;
        let mut type_info: Vec<u64> = Vec::new();
        let mut i: usize = 0;
        proof {
            assert(all_filters.skip(0) =~= all_filters);
        }
        while i < filters.len()
            invariant
                i <= filters.len(),
                filters@ == all_filters,
                stride == spec_encoding_size(self.encoding, self.arch_pointer_width),
                stride != 0,
                (match spec_type_refs(
                    self.cursor.data@,
                    self.cursor.pos as int,
                    self.offset,
                    stride,
                    self.encoding,
                    self.arch_pointer_width,
                    lsda_ptr,
                    all_filters.skip(i as int),
                ) {
                    Ok(rest) => spec_type_refs(
                        self.cursor.data@,
                        self.cursor.pos as int,
                        self.offset,
                        stride,
                        self.encoding,
                        self.arch_pointer_width,
                        lsda_ptr,
                        all_filters,
                    ) == Ok::<Seq<u64>, DecodeError>(type_info@ + rest),
                    Err(e) => spec_type_refs(
                        self.cursor.data@,
                        self.cursor.pos as int,
                        self.offset,
                        stride,
                        self.encoding,
                        self.arch_pointer_width,
                        lsda_ptr,
                        all_filters,
                    ) == Err::<Seq<u64>, DecodeError>(e),
                }),
            decreases filters.len() - i,
        {
            let f: u64 = filters[i];
            proof {
                lemma_type_refs_step(
                    self.cursor.data@,
                    self.cursor.pos as int,
                    self.offset,
                    stride,
                    self.encoding,
                    self.arch_pointer_width,
                    lsda_ptr,
                    all_filters,
                    i as int,
                );
            }
            let a: u64 = match resolve_type_ref(
                self.cursor,
                self.offset,
                stride,
                self.encoding,
                self.arch_pointer_width,
                lsda_ptr,
                f,
            ) {
                Ok(a) => a,
                Err(e) => {
                    return Err(e);
                },
            };
            let ghost old_out: Seq<u64> = type_info@;
            type_info.push(a);
            proof {
                let spec_a = spec_type_ref(
                    self.cursor.data@,
                    self.cursor.pos as int,
                    self.offset,
                    stride,
                    self.encoding,
                    self.arch_pointer_width,
                    lsda_ptr,
                    f,
                ).unwrap();
                if let Ok(rest) = spec_type_refs(
                    self.cursor.data@,
                    self.cursor.pos as int,
                    self.offset,
                    stride,
                    self.encoding,
                    self.arch_pointer_width,
                    lsda_ptr,
                    all_filters.skip(i + 1),
                ) {
                    assert(old_out + (seq![spec_a] + rest) =~= type_info@ + rest);
                }
            }
            i = i + 1;
        }
        proof {
            assert(all_filters.skip(filters@.len() as int) =~= Seq::<u64>::empty());
            assert(type_info@ + Seq::<u64>::empty() =~= type_info@);
        }
        Ok(type_info)
    }
}

/// One step of the action chain: position at `area_start + offset`, read a
/// signed LEB128 filter, then a signed LEB128 displacement; the next offset
/// is the displacement base (the position just after the filter, relative to
/// `area_start`) plus the displacement, or absent when the displacement is 0.
pub open spec fn spec_action_next(data: Seq<u8>, area_start: int, offset: u64) -> Result<
    (ActionRecord, Option<u64>),
    DecodeError,
> {
    match spec_skip(data, area_start, offset as int) {
        Err(e) => Err(e),
        Ok(pos) => match spec_sleb128(data, pos, 0) {
            Err(e) => Err(e),
            Ok((f, p1)) => {
                let disp_base = (p1 - area_start) as u64;
                match spec_sleb128(data, p1, 0) {
                    Err(e) => Err(e),
                    Ok((d, p2)) => Ok(
                        (
                            ActionRecord {
                                ar_filter: spec_bits_to_i64(f as u64),
                                ar_disp: spec_bits_to_i64(d as u64),
                            },
                            if d == 0 {
                                None
                            } else {
                                Some(wadd64(disp_base, d as u64))
                            },
                        ),
                    ),
                }
            },
        },
    }
}

/// The whole action chain from `offset`, cut off by `fuel` steps. The format
/// itself guarantees no termination, so the chain carries a defensive bound;
/// exhausting it is a decode failure.
pub open spec fn spec_action_chain(
    data: Seq<u8>,
    area_start: int,
    offset: Option<u64>,
    fuel: nat,
) -> Result<Seq<ActionRecord>, DecodeError>
    decreases fuel,
{
    match offset {
        None => Ok(Seq::empty()),
        Some(off) => if fuel == 0 {
            Err(DecodeError::ActionChainLimit)
        } else {
            match spec_action_next(data, area_start, off) {
                Err(e) => Err(e),
                Ok((rec, next)) => match spec_action_chain(
                    data,
                    area_start,
                    next,
                    (fuel - 1) as nat,
                ) {
                    Err(e) => Err(e),
                    Ok(rest) => Ok(seq![rec] + rest),
                },
            }
        },
    }
}

/// An iterator over the records of one action chain.
pub struct ActionRecordIterator<'a> {
    /// The offset of the next record within the action table, or `None` once
    /// the chain has ended.
    pub offset: Option<u64>,
    /// Sits at the start of the action table and never moves.
    pub cursor: ByteCursor<'a>,
    /// Steps left before the defensive bound cuts the chain off.
    pub remaining: usize,
    pub arch_pointer_width: ArchPointerWidth,
}

impl<'a> ActionRecordIterator<'a> {
    /// An iterator over the chain starting at `offset` in the action table
    /// of `area`, which begins where the call-site table ends.
    pub fn new(area: &GccExceptTableArea<'a>, offset: u64) -> (r: Result<
        ActionRecordIterator<'a>,
        DecodeError,
    >)
        ensures
            (match spec_parse_from_beginning(area.data@, area.arch_pointer_width) {
                Err(e) => r == Err::<ActionRecordIterator<'a>, DecodeError>(e),
                Ok((lh, ch, p)) => match spec_skip(area.data@, p, ch.length as int) {
                    Err(e) => r == Err::<ActionRecordIterator<'a>, DecodeError>(e),
                    Ok(a) => r matches Ok(it) && it.offset == Some(offset) && it.cursor.data@
                        == area.data@ && it.cursor.pos == a && it.remaining == area.data@.len()
                        && it.arch_pointer_width == area.arch_pointer_width,
                },
            }),
    {
        let (_lh, ch, mut cursor) = match area.parse_from_beginning() {
            Ok(t) => t,
            Err(e) => {
                return Err(e);
            },
        };
        match cursor.skip(ch.length) {
            Ok(u) => u,
            Err(e) => {
                return Err(e);
            },
        };
        Ok(
            ActionRecordIterator {
                offset: Some(offset),
                cursor,
                remaining: area.data.len(),
                arch_pointer_width: area.arch_pointer_width,
            },
        )
    }

    /// Produce the next record of the chain, end the chain, or fail; one
    /// defensive step is spent per record.
    pub fn next(&mut self) -> (r: Result<Option<ActionRecord>, DecodeError>)
        ensures
            final(self).cursor == old(self).cursor,
            final(self).arch_pointer_width == old(self).arch_pointer_width,
            old(self).offset is None ==> r == Ok::<Option<ActionRecord>, DecodeError>(None)
                && *final(self) == *old(self),
            old(self).offset is Some && old(self).remaining == 0 ==> r == Err::<
                Option<ActionRecord>,
                DecodeError,
            >(DecodeError::ActionChainLimit),
            old(self).offset matches Some(off) ==> old(self).remaining > 0 ==> (
            match spec_action_next(old(self).cursor.data@, old(self).cursor.pos as int, off) {
                Err(e) => r == Err::<Option<ActionRecord>, DecodeError>(e),
                Ok((rec, next)) => r == Ok::<Option<ActionRecord>, DecodeError>(Some(rec))
                    && final(self).offset == next && final(self).remaining == old(self).remaining
                    - 1,
            }),
    {
        let off: u64 = match self.offset {
            None => {
                return Ok(None);
            },
            Some(o) => o,
        };
        if self.remaining == 0 {
            return Err(DecodeError::ActionChainLimit);
        }
        let mut reader: ByteCursor = self.cursor;
        match reader.skip(off) {
            Ok(u) => u,
            Err(e) => {
                return Err(e);
            },
        };
        let f_bits: u64 = match reader.read_sleb128() {
            Ok(v) => v,
            Err(e) => {
                return Err(e);
            },
        };
        proof {
            crate::cursor::lemma_sleb128_props(
                self.cursor.data@,
                self.cursor.pos + off as int,
                0,
            );
        }
        let disp_base: u64 = (reader.pos - self.cursor.pos) as u64;
        let d_bits: u64 = match reader.read_sleb128() {
            Ok(v) => v,
            Err(e) => {
                return Err(e);
            },
        };
        let record = ActionRecord { ar_filter: bits_to_i64(f_bits), ar_disp: bits_to_i64(d_bits) };
        self.offset = if d_bits == 0 {
            None
        } else {
            Some(disp_base.wrapping_add(d_bits))
        };
        self.remaining = self.remaining - 1;
        Ok(Some(record))
    }
}

} // verus!
