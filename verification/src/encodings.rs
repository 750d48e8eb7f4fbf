use vstd::prelude::*;

use crate::ArchPointerWidth;
use crate::cursor::ByteCursor;
use crate::cursor::spec_read_signed;
use crate::cursor::spec_read_unsigned;
use crate::cursor::spec_sleb128;
use crate::cursor::spec_uleb128;
use crate::errors::DecodeError;

verus! {

/// Absolute value in the machine's pointer width.
pub const ENC_ABSPTR: u8 = 0x00;

/// Unsigned LEB128.
pub const ENC_ULEB128: u8 = 0x01;

/// Unsigned 2-byte value.
pub const ENC_UDATA2: u8 = 0x02;

/// Unsigned 4-byte value.
pub const ENC_UDATA4: u8 = 0x03;

/// Unsigned 8-byte value.
pub const ENC_UDATA8: u8 = 0x04;

/// Signed LEB128.
pub const ENC_SLEB128: u8 = 0x09;

/// Signed 2-byte value.
pub const ENC_SDATA2: u8 = 0x0a;

/// Signed 4-byte value.
pub const ENC_SDATA4: u8 = 0x0b;

/// Signed 8-byte value.
pub const ENC_SDATA8: u8 = 0x0c;

/// No value is present.
pub const ENC_OMIT: u8 = 0xff;

/// How many bytes an absolute-pointer read consumes. The mapping is inverted
/// on purpose — 8 bytes under a 32-bit width and 4 under a 64-bit one — to
/// preserve the observed behaviour of this decoder on existing inputs.
pub open spec fn spec_absptr_read_len(width: ArchPointerWidth) -> nat {
    match width {
        ArchPointerWidth::Width32Bit => 8,
        ArchPointerWidth::Width64Bit => 4,
    }
}

/// Decoding one pointer-sized value at `pos` in the given `encoding`.
/// Signed reads yield the 64-bit unsigned bit pattern of their value.
pub open spec fn spec_read_encoded(
    data: Seq<u8>,
    pos: int,
    encoding: u8,
    width: ArchPointerWidth,
) -> Result<(int, int), DecodeError> {
    if encoding == ENC_OMIT {
        Err(DecodeError::CannotParseOmitEncoding)
    } else if encoding == ENC_ABSPTR {
        spec_read_unsigned(data, pos, spec_absptr_read_len(width))
    } else if encoding == ENC_ULEB128 {
        spec_uleb128(data, pos, 0)
    } else if encoding == ENC_UDATA2 {
        spec_read_unsigned(data, pos, 2)
    } else if encoding == ENC_UDATA4 {
        spec_read_unsigned(data, pos, 4)
    } else if encoding == ENC_UDATA8 {
        spec_read_unsigned(data, pos, 8)
    } else if encoding == ENC_SLEB128 {
        spec_sleb128(data, pos, 0)
    } else if encoding == ENC_SDATA2 {
        spec_read_signed(data, pos, 2)
    } else if encoding == ENC_SDATA4 {
        spec_read_signed(data, pos, 4)
    } else if encoding == ENC_SDATA8 {
        spec_read_signed(data, pos, 8)
    } else {
        Err(DecodeError::UnknownEncoding)
    }
}

/// The byte stride of one table entry in the given encoding, or 0 when the
/// encoding is variable-width or absent and so cannot serve as a stride.
pub open spec fn spec_encoding_size(encoding: u8, width: ArchPointerWidth) -> int {
    if encoding == ENC_UDATA2 || encoding == ENC_SDATA2 {
        2
    } else if encoding == ENC_UDATA4 || encoding == ENC_SDATA4 {
        4
    } else if encoding == ENC_UDATA8 || encoding == ENC_SDATA8 {
        8
    } else if encoding == ENC_ABSPTR {
        width.spec_bytes() as int
    } else {
        0
    }
}

pub proof fn lemma_read_encoded_props(
    data: Seq<u8>,
    pos: int,
    encoding: u8,
    width: ArchPointerWidth,
)
    ensures
        spec_read_encoded(data, pos, encoding, width) matches Ok((v, p)) ==> 0 <= v
            < 0x1_0000_0000_0000_0000 && pos < p <= data.len(),
{
    crate::cursor::lemma_le_bytes_bound(data, pos, 2);
    crate::cursor::lemma_le_bytes_bound(data, pos, 4);
    crate::cursor::lemma_le_bytes_bound(data, pos, 8);
    crate::cursor::lemma_pow256_le_u64(2);
    crate::cursor::lemma_pow256_le_u64(4);
    crate::cursor::lemma_pow256_le_u64(8);
    crate::cursor::lemma_uleb128_props(data, pos, 0);
    crate::cursor::lemma_uleb_max_fits(0);
    crate::cursor::lemma_sleb128_props(data, pos, 0);
    reveal_with_fuel(crate::cursor::pow256, 9);
}

/// Decode the next pointer value from `cursor` in the given `encoding`.
/// On any failure the cursor keeps its position.
pub fn read_encoded_pointer(
    cursor: &mut ByteCursor,
    encoding: u8,
    width: ArchPointerWidth,
) -> (r: Result<u64, DecodeError>)
    ensures
        old(cursor).data@ == final(cursor).data@,
        (match spec_read_encoded(old(cursor).data@, old(cursor).pos as int, encoding, width) {
            Ok((v, p)) => r matches Ok(rv) && rv == v && final(cursor).pos == p,
            Err(e) => r == Err::<u64, DecodeError>(e) && final(cursor).pos == old(cursor).pos,
        }),
{
    if encoding == ENC_OMIT {
        Err(DecodeError::CannotParseOmitEncoding)
    } else if encoding == ENC_ABSPTR {
        let n: usize = match width {
            ArchPointerWidth::Width32Bit => 8,
            ArchPointerWidth::Width64Bit => 4,
        };
        cursor.read_unsigned(n)
    } else if encoding == ENC_ULEB128 {
        cursor.read_uleb128()
    } else if encoding == ENC_UDATA2 {
        cursor.read_unsigned(2)
    } else if encoding == ENC_UDATA4 {
        cursor.read_unsigned(4)
    } else if encoding == ENC_UDATA8 {
        cursor.read_unsigned(8)
    } else if encoding == ENC_SLEB128 {
        cursor.read_sleb128()
    } else if encoding == ENC_SDATA2 {
        cursor.read_signed(2)
    } else if encoding == ENC_SDATA4 {
        cursor.read_signed(4)
    } else if encoding == ENC_SDATA8 {
        cursor.read_signed(8)
    } else {
        Err(DecodeError::UnknownEncoding)
    }
}

/// The byte stride of one table entry in the given encoding; see
/// `spec_encoding_size`.
pub fn encoding_size(encoding: u8, width: ArchPointerWidth) -> (r: u64)
    ensures
        r == spec_encoding_size(encoding, width),
{
    if encoding == ENC_UDATA2 || encoding == ENC_SDATA2 {
        2
    } else if encoding == ENC_UDATA4 || encoding == ENC_SDATA4 {
        4
    } else if encoding == ENC_UDATA8 || encoding == ENC_SDATA8 {
        8
    } else if encoding == ENC_ABSPTR {
        u64::from(width)
    } else {
        0
    }
}

} // verus!
