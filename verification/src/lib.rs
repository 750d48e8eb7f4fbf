use vstd::prelude::*;

pub mod cursor;
pub mod dump;
pub mod encodings;
pub mod errors;
pub mod laws;
pub mod lsda;

pub use cursor::ByteCursor;
pub use dump::Action;
pub use dump::ActionInfo;
pub use dump::CS;
pub use dump::FDE;
pub use dump::LSDA;
pub use dump::LsdaPointer;
pub use dump::RawFrameDescriptor;
pub use dump::Section;
pub use dump::assemble_fdes;
pub use dump::dump_fde;
pub use dump::dump_file;
pub use errors::DecodeError;
pub use errors::DumpError;
pub use lsda::ActionRecord;
pub use lsda::ActionRecordIterator;
pub use lsda::CallSiteTableEntry;
pub use lsda::CallSiteTableHeader;
pub use lsda::CallSiteTableIterator;
pub use lsda::GccExceptTableArea;
pub use lsda::LsdaHeader;
pub use lsda::TypeTable;

verus! {

/// Architecture word size of the binary under analysis, threaded explicitly
/// through every decode call.
#[derive(Clone, Copy, Debug, PartialEq, Eq, Structural)]
pub enum ArchPointerWidth {
    Width64Bit,
    Width32Bit,
}

impl ArchPointerWidth {
    /// The width in bytes: 4 for 32-bit, 8 for 64-bit.
    pub open spec fn spec_bytes(self) -> u64 {
        match self {
            ArchPointerWidth::Width32Bit => 4,
            ArchPointerWidth::Width64Bit => 8,
        }
    }
}

impl core::convert::From<ArchPointerWidth> for u64 {
    fn from(width: ArchPointerWidth) -> (r: u64)
        ensures
            r == width.spec_bytes(),
    {
        match width {
            ArchPointerWidth::Width32Bit => 4,
            ArchPointerWidth::Width64Bit => 8,
        }
    }
}

impl vstd::std_specs::convert::FromSpecImpl<ArchPointerWidth> for u64 {
    open spec fn obeys_from_spec() -> bool {
        true
    }

    open spec fn from_spec(width: ArchPointerWidth) -> u64 {
        width.spec_bytes()
    }
}

impl<'a> core::convert::From<&'a ArchPointerWidth> for u64 {
    fn from(width: &'a ArchPointerWidth) -> (r: u64)
        ensures
            r == width.spec_bytes(),
    {
        match width {
            ArchPointerWidth::Width32Bit => 4,
            ArchPointerWidth::Width64Bit => 8,
        }
    }
}

impl<'a> vstd::std_specs::convert::FromSpecImpl<&'a ArchPointerWidth> for u64 {
    open spec fn obeys_from_spec() -> bool {
        true
    }

    open spec fn from_spec(width: &'a ArchPointerWidth) -> u64 {
        width.spec_bytes()
    }
}

/// 64-bit modular addition, the arithmetic all address computations use.
pub open spec fn wadd64(a: u64, b: u64) -> u64 {
    vstd::wrapping::u64_specs::wrapping_add(a, b)
}

/// 64-bit modular subtraction.
pub open spec fn wsub64(a: u64, b: u64) -> u64 {
    vstd::wrapping::u64_specs::wrapping_sub(a, b)
}

/// 64-bit modular multiplication.
pub open spec fn wmul64(a: u64, b: u64) -> u64 {
    vstd::wrapping::u64_specs::wrapping_mul(a, b)
}

/// The `i64` whose two's-complement bit pattern is `v`.
pub open spec fn spec_bits_to_i64(v: u64) -> i64 {
    if v >= 0x8000_0000_0000_0000 {
        (v - 0x1_0000_0000_0000_0000) as i64
    } else {
        v as i64
    }
}

/// Reinterpret a 64-bit pattern as a signed value.
pub fn bits_to_i64(v: u64) -> (r: i64)
    ensures
        r == spec_bits_to_i64(v),
{
    if v >= 0x8000_0000_0000_0000 {
        let m: u64 = v - 0x8000_0000_0000_0000;
        (m as i64) + (-0x7fff_ffff_ffff_ffff - 1)
    } else {
        v as i64
    }
}

} // verus!
