use vstd::prelude::*;

use crate::errors::DecodeError;

verus! {

/// A cheap, independently advanceable read position over an immutable byte
/// region. Cloning a cursor duplicates only the position; both copies keep
/// reading from the same backing bytes.
#[derive(Clone, Copy, Debug)]
pub struct ByteCursor<'a> {
    pub data: &'a [u8],
    pub pos: usize,
}

/// Little-endian value of the `n` bytes of `data` starting at `pos`.
pub open spec fn spec_le_bytes(data: Seq<u8>, pos: int, n: nat) -> nat
    decreases n,
{
    if n == 0 {
        0
    } else {
        (data[pos] + 256 * spec_le_bytes(data, pos + 1, (n - 1) as nat)) as nat
    }
}

/// 256 to the power `n`.
pub open spec fn pow256(n: nat) -> nat
    decreases n,
{
    if n == 0 {
        1
    } else {
        256 * pow256((n - 1) as nat)
    }
}

pub proof fn lemma_le_bytes_bound(data: Seq<u8>, pos: int, n: nat)
    ensures
        spec_le_bytes(data, pos, n) < pow256(n),
    decreases n,
{
    if n != 0 {
        lemma_le_bytes_bound(data, pos + 1, (n - 1) as nat);
    }
}

pub proof fn lemma_pow256_le_u64(n: nat)
    requires
        n <= 8,
    ensures
        pow256(n) <= 0x1_0000_0000_0000_0000,
{
    reveal_with_fuel(pow256, 9);
}

/// Reading one byte at `pos`.
pub open spec fn spec_read_u8(data: Seq<u8>, pos: int) -> Result<(int, int), DecodeError> {
    if 0 <= pos < data.len() {
        Ok((data[pos] as int, pos + 1))
    } else {
        Err(DecodeError::UnexpectedEof)
    }
}

/// Reading an `n`-byte little-endian unsigned value at `pos`.
pub open spec fn spec_read_unsigned(data: Seq<u8>, pos: int, n: nat) -> Result<
    (int, int),
    DecodeError,
> {
    if 0 <= pos && pos + n <= data.len() {
        Ok((spec_le_bytes(data, pos, n) as int, pos + n))
    } else {
        Err(DecodeError::UnexpectedEof)
    }
}

/// The 64-bit two's-complement bit pattern of an `n`-byte value `v`,
/// sign-extended from its top bit.
pub open spec fn spec_sext(v: int, n: nat) -> int {
    if n < 8 && v >= pow256(n) / 2 {
        v + 0x1_0000_0000_0000_0000 - pow256(n)
    } else {
        v
    }
}

/// Reading an `n`-byte little-endian signed value at `pos`, as its 64-bit
/// unsigned bit pattern.
pub open spec fn spec_read_signed(data: Seq<u8>, pos: int, n: nat) -> Result<
    (int, int),
    DecodeError,
> {
    match spec_read_unsigned(data, pos, n) {
        Ok((v, p)) => Ok((spec_sext(v, n), p)),
        Err(e) => Err(e),
    }
}

/// Skipping `n` bytes forward from `pos`.
pub open spec fn spec_skip(data: Seq<u8>, pos: int, n: int) -> Result<int, DecodeError> {
    if 0 <= pos && pos + n <= data.len() {
        Ok(pos + n)
    } else {
        Err(DecodeError::UnexpectedEof)
    }
}

/// Unsigned LEB128 at `pos`, `depth` 7-bit digits already consumed by callers.
/// At most ten digits encode a 64-bit value; the tenth may only be `0x00` or
/// `0x01`, contributing bit 63 alone.
pub open spec fn spec_uleb128(data: Seq<u8>, pos: int, depth: nat) -> Result<
    (int, int),
    DecodeError,
>
    decreases 10 - depth,
{
    if !(0 <= pos < data.len()) {
        Err(DecodeError::UnexpectedEof)
    } else if depth >= 10 {
        Err(DecodeError::BadLeb128)
    } else {
        let b = data[pos];
        if depth == 9 {
            if b == 0 || b == 1 {
                Ok((b as int, pos + 1))
            } else {
                Err(DecodeError::BadLeb128)
            }
        } else if b < 0x80 {
            Ok((b as int, pos + 1))
        } else {
            match spec_uleb128(data, pos + 1, depth + 1) {
                Ok((v, p)) => Ok(((b - 0x80) + 128 * v, p)),
                Err(e) => Err(e),
            }
        }
    }
}

/// The largest value an unsigned LEB128 tail can take once `depth` digits
/// have been consumed: `2^(64 - 7*depth) - 1`.
pub open spec fn uleb_max(depth: nat) -> int
    decreases 10 - depth,
{
    if depth >= 9 {
        1
    } else {
        127 + 128 * uleb_max(depth + 1)
    }
}

pub proof fn lemma_uleb_max_pos(depth: nat)
    ensures
        uleb_max(depth) >= 1,
    decreases 10 - depth,
{
    if depth < 9 {
        lemma_uleb_max_pos(depth + 1);
    }
}

pub proof fn lemma_uleb128_props(data: Seq<u8>, pos: int, depth: nat)
    ensures
        spec_uleb128(data, pos, depth) matches Ok((v, p)) ==> 0 <= v <= uleb_max(depth) && pos < p
            <= data.len(),
    decreases 10 - depth,
{
    lemma_uleb_max_pos(depth);
    if 0 <= pos < data.len() && depth < 10 && depth != 9 && data[pos] >= 0x80 {
        lemma_uleb128_props(data, pos + 1, depth + 1);
        lemma_uleb_max_pos(depth + 1);
    }
}

pub proof fn lemma_uleb_max_fits(depth: nat)
    ensures
        uleb_max(depth) <= 0xffff_ffff_ffff_ffff,
        depth >= 1 ==> 127 + 128 * uleb_max(depth) <= 0xffff_ffff_ffff_ffff,
    decreases depth,
{
    reveal_with_fuel(uleb_max, 11);
    if depth >= 10 {
        assert(uleb_max(depth) == 1);
    } else if depth >= 1 {
        lemma_uleb_max_fits((depth - 1) as nat);
    }
}

/// Signed LEB128 at `pos`, yielding the 64-bit unsigned bit pattern of the
/// decoded two's-complement value. The tenth digit may only be `0x00` or
/// `0x7f`; a final digit with bit 6 set sign-extends the result.
pub open spec fn spec_sleb128(data: Seq<u8>, pos: int, depth: nat) -> Result<
    (int, int),
    DecodeError,
>
    decreases 10 - depth,
{
    if !(0 <= pos < data.len()) {
        Err(DecodeError::UnexpectedEof)
    } else if depth >= 10 {
        Err(DecodeError::BadLeb128)
    } else {
        let b = data[pos];
        if depth == 9 {
            if b == 0 || b == 0x7f {
                Ok((b as int, pos + 1))
            } else {
                Err(DecodeError::BadLeb128)
            }
        } else if b < 0x80 {
            if b >= 0x40 {
                Ok((b + 0x1_0000_0000_0000_0000 - 0x80, pos + 1))
            } else {
                Ok((b as int, pos + 1))
            }
        } else {
            match spec_sleb128(data, pos + 1, depth + 1) {
                Ok((v, p)) => Ok((((b - 0x80) + 128 * v) % 0x1_0000_0000_0000_0000, p)),
                Err(e) => Err(e),
            }
        }
    }
}

pub proof fn lemma_sleb128_props(data: Seq<u8>, pos: int, depth: nat)
    ensures
        spec_sleb128(data, pos, depth) matches Ok((v, p)) ==> 0 <= v < 0x1_0000_0000_0000_0000
            && pos < p <= data.len(),
    decreases 10 - depth,
{
    if 0 <= pos < data.len() && depth < 10 && depth != 9 && data[pos] >= 0x80 {
        lemma_sleb128_props(data, pos + 1, depth + 1);
    }
}

/// Exec computation of an `n`-byte little-endian value.
fn le_value(data: &[u8], pos: usize, n: usize) -> (r: u64)
    requires
        pos + n <= data@.len(),
        n <= 8,
    ensures
        r == spec_le_bytes(data@, pos as int, n as nat),
    decreases n,
{
    // Taking the slice length as a `usize` lets the verifier see that
    // every position within it fits the machine's word.
    let _len: usize = data.len();
    if n == 0 {
        0
    } else {
        let rest: u64 = le_value(data, pos + 1, n - 1);
        proof {
            lemma_le_bytes_bound(data@, pos + 1 as int, (n - 1) as nat);
            lemma_pow256_le_u64((n - 1) as nat);
            lemma_pow256_le_u64(n as nat);
        }
        data[pos] as u64 + 256 * rest
    }
}

/// Exec unsigned LEB128, mirroring `spec_uleb128`.
fn uleb128_at(data: &[u8], pos: usize, depth: u8) -> (r: Result<(u64, usize), DecodeError>)
    requires
        depth <= 9,
    ensures
        (match spec_uleb128(data@, pos as int, depth as nat) {
            Ok((v, p)) => r matches Ok(rv) && rv.0 == v && rv.1 == p,
            Err(e) => r == Err::<(u64, usize), DecodeError>(e),
        }),
    decreases 10 - depth,
{
    if pos >= data.len() {
        return Err(DecodeError::UnexpectedEof);
    }
    let b: u8 = data[pos];
    if depth == 9 {
        if b == 0 || b == 1 {
            Ok(((b as u64), pos + 1))
        } else {
            Err(DecodeError::BadLeb128)
        }
    } else if b < 0x80 {
        Ok(((b as u64), pos + 1))
    } else {
        match uleb128_at(data, pos + 1, depth + 1) {
            Ok((v, p)) => {
                proof {
                    lemma_uleb128_props(data@, pos + 1 as int, (depth + 1) as nat);
                    lemma_uleb_max_fits((depth + 1) as nat);
                }
                Ok(((b - 0x80) as u64 + 128 * v, p))
            },
            Err(e) => Err(e),
        }
    }
}

/// Exec signed LEB128, mirroring `spec_sleb128`.
fn sleb128_at(data: &[u8], pos: usize, depth: u8) -> (r: Result<(u64, usize), DecodeError>)
    requires
        depth <= 9,
    ensures
        (match spec_sleb128(data@, pos as int, depth as nat) {
            Ok((v, p)) => r matches Ok(rv) && rv.0 == v && rv.1 == p,
            Err(e) => r == Err::<(u64, usize), DecodeError>(e),
        }),
    decreases 10 - depth,
{
    if pos >= data.len() {
        return Err(DecodeError::UnexpectedEof);
    }
    let b: u8 = data[pos];
    if depth == 9 {
        if b == 0 || b == 0x7f {
            Ok(((b as u64), pos + 1))
        } else {
            Err(DecodeError::BadLeb128)
        }
    } else if b < 0x80 {
        if b >= 0x40 {
            Ok((b as u64 + 0xffff_ffff_ffff_ff80, pos + 1))
        } else {
            Ok((b as u64, pos + 1))
        }
    } else {
        match sleb128_at(data, pos + 1, depth + 1) {
            Ok((v, p)) => {
                proof {
                    lemma_sleb128_props(data@, pos + 1 as int, (depth + 1) as nat);
                }
                let low: u64 = (b - 0x80) as u64;
                let combined: u64 = low.wrapping_add(v.wrapping_mul(128));
                proof {
                    vstd::arithmetic::div_mod::lemma_add_mod_noop(
                        low as int,
                        128 * (v as int),
                        0x1_0000_0000_0000_0000,
                    );
                    vstd::arithmetic::div_mod::lemma_small_mod(
                        low as nat,
                        0x1_0000_0000_0000_0000,
                    );
                }
                Ok((combined, p))
            },
            Err(e) => Err(e),
        }
    }
}

impl<'a> ByteCursor<'a> {
    /// A cursor at the start of `data`.
    pub fn new(data: &'a [u8]) -> (r: ByteCursor<'a>)
        ensures
            r.data@ == data@,
            r.pos == 0,
    {
        ByteCursor { data, pos: 0 }
    }

    /// Advance by `n` bytes; the position never moves on failure.
    pub fn skip(&mut self, n: u64) -> (r: Result<(), DecodeError>)
        ensures
            old(self).data@ == final(self).data@,
            (match spec_skip(old(self).data@, old(self).pos as int, n as int) {
                Ok(p) => r matches Ok(u) && final(self).pos == p,
                Err(e) => r == Err::<(), DecodeError>(e) && final(self).pos == old(self).pos,
            }),
    {
        let len: u64 = self.data.len() as u64;
        let p: u64 = self.pos as u64;
        if p <= len && n <= len - p {
            self.pos = (p + n) as usize;
            Ok(())
        } else {
            Err(DecodeError::UnexpectedEof)
        }
    }

    /// Read one byte; the position never moves on failure.
    pub fn read_u8(&mut self) -> (r: Result<u8, DecodeError>)
        ensures
            old(self).data@ == final(self).data@,
            (match spec_read_u8(old(self).data@, old(self).pos as int) {
                Ok((v, p)) => r matches Ok(rv) && rv == v && final(self).pos == p,
                Err(e) => r == Err::<u8, DecodeError>(e) && final(self).pos == old(self).pos,
            }),
    {
        if self.pos < self.data.len() {
            let b: u8 = self.data[self.pos];
            self.pos = self.pos + 1;
            Ok(b)
        } else {
            Err(DecodeError::UnexpectedEof)
        }
    }

    /// Read an `n`-byte little-endian unsigned value.
    pub fn read_unsigned(&mut self, n: usize) -> (r: Result<u64, DecodeError>)
        requires
            1 <= n <= 8,
        ensures
            old(self).data@ == final(self).data@,
            (match spec_read_unsigned(old(self).data@, old(self).pos as int, n as nat) {
                Ok((v, p)) => r matches Ok(rv) && rv == v && final(self).pos == p,
                Err(e) => r == Err::<u64, DecodeError>(e) && final(self).pos == old(self).pos,
            }),
    {
        if self.pos <= self.data.len() && n <= self.data.len() - self.pos {
            let v: u64 = le_value(self.data, self.pos, n);
            proof {
                lemma_le_bytes_bound(self.data@, self.pos as int, n as nat);
                lemma_pow256_le_u64(n as nat);
            }
            self.pos = self.pos + n;
            Ok(v)
        } else {
            Err(DecodeError::UnexpectedEof)
        }
    }

    /// Read an `n`-byte little-endian signed value, returned as the 64-bit
    /// unsigned bit pattern of its sign extension.
    pub fn read_signed(&mut self, n: usize) -> (r: Result<u64, DecodeError>)
        requires
            1 <= n <= 8,
        ensures
            old(self).data@ == final(self).data@,
            (match spec_read_signed(old(self).data@, old(self).pos as int, n as nat) {
                Ok((v, p)) => r matches Ok(rv) && rv == v && final(self).pos == p,
                Err(e) => r == Err::<u64, DecodeError>(e) && final(self).pos == old(self).pos,
            }),
    {
        if self.pos <= self.data.len() && n <= self.data.len() - self.pos {
            let v: u64 = le_value(self.data, self.pos, n);
            proof {
                lemma_le_bytes_bound(self.data@, self.pos as int, n as nat);
                lemma_pow256_le_u64(n as nat);
                reveal_with_fuel(pow256, 9);
            }
            let half: u64 = match n {
                1 => 0x80,
                2 => 0x8000,
                3 => 0x80_0000,
                4 => 0x8000_0000,
                5 => 0x80_0000_0000,
                6 => 0x8000_0000_0000,
                7 => 0x80_0000_0000_0000,
                _ => 0x8000_0000_0000_0000,
            };
            let r: u64 = if n < 8 && v >= half {
                let width: u64 = 2 * half;
                v + (0xffff_ffff_ffff_ffff - width + 1)
            } else {
                v
            };
            self.pos = self.pos + n;
            Ok(r)
        } else {
            Err(DecodeError::UnexpectedEof)
        }
    }

    /// Read an unsigned LEB128 value; the position never moves on failure.
    pub fn read_uleb128(&mut self) -> (r: Result<u64, DecodeError>)
        ensures
            old(self).data@ == final(self).data@,
            (match spec_uleb128(old(self).data@, old(self).pos as int, 0) {
                Ok((v, p)) => r matches Ok(rv) && rv == v && final(self).pos == p,
                Err(e) => r == Err::<u64, DecodeError>(e) && final(self).pos == old(self).pos,
            }),
    {
        match uleb128_at(self.data, self.pos, 0) {
            Ok((v, p)) => {
                self.pos = p;
                Ok(v)
            },
            Err(e) => Err(e),
        }
    }

    /// Read a signed LEB128 value as its 64-bit unsigned bit pattern; the
    /// position never moves on failure.
    pub fn read_sleb128(&mut self) -> (r: Result<u64, DecodeError>)
        ensures
            old(self).data@ == final(self).data@,
            (match spec_sleb128(old(self).data@, old(self).pos as int, 0) {
                Ok((v, p)) => r matches Ok(rv) && rv == v && final(self).pos == p,
                Err(e) => r == Err::<u64, DecodeError>(e) && final(self).pos == old(self).pos,
            }),
    {
        match sleb128_at(self.data, self.pos, 0) {
            Ok((v, p)) => {
                self.pos = p;
                Ok(v)
            },
            Err(e) => Err(e),
        }
    }
}

} // verus!
