use vstd::prelude::*;

use crate::ArchPointerWidth;
use crate::dump::SpecActionInfo;
use crate::dump::spec_action_info;
use crate::encodings::ENC_OMIT;
use crate::errors::DecodeError;
use crate::lsda::ActionRecord;
use crate::lsda::spec_call_site_table;
use crate::lsda::spec_get_type;
use crate::lsda::spec_index_list;
use crate::lsda::spec_parse_cs_entry;
use crate::lsda::spec_parse_lsda_header;

verus! {

/// A call-site table whose entries each occupy exactly `z` bytes parses to
/// exactly `n` entries when its declared length is `n * z`: the table walk
/// consumes entry after entry and stops exactly at the declared end, never
/// reading an entry at or past it.
pub proof fn lemma_uniform_call_site_table(
    data: Seq<u8>,
    start: int,
    encoding: u8,
    width: ArchPointerWidth,
    landing_pad_base: u64,
    z: int,
    n: nat,
)
    requires
        z > 0,
        forall|k: int|
            0 <= k < n ==> ((#[trigger] spec_parse_cs_entry(
                data,
                start + k * z,
                encoding,
                width,
                landing_pad_base,
            )) matches Ok(pair) && pair.1 == start + (k + 1) * z),
    ensures
        spec_call_site_table(data, start, start + n * z, encoding, width, landing_pad_base)
            matches Ok(entries) && entries.len() == n,
    decreases n,
{
    if n == 0 {
        assert(start + n * z == start);
    } else {
        assert(spec_parse_cs_entry(data, start + 0 * z, encoding, width, landing_pad_base)
            matches Ok(pair) && pair.1 == start + (0 + 1) * z);
        assert(start + 0 * z == start);
        let (entry, p) = spec_parse_cs_entry(
            data,
            start,
            encoding,
            width,
            landing_pad_base,
        ).unwrap();
        assert(p == start + 1 * z);
        assert(p == start + z) by (nonlinear_arith)
            requires
                p == start + 1 * z,
        ;
        if n == 1 {
            assert(start + n * z == start + z) by (nonlinear_arith)
                requires
                    n == 1,
            ;
        } else {
            assert(start < p < start + n * z) by (nonlinear_arith)
                requires
                    p == start + z,
                    z > 0,
                    n >= 2,
            ;
            assert forall|k: int|
                0 <= k < (n - 1) as nat implies ((#[trigger] spec_parse_cs_entry(
                data,
                p + k * z,
                encoding,
                width,
                landing_pad_base,
            )) matches Ok(pair) && pair.1 == p + (k + 1) * z) by {
                assert(p + k * z == start + (k + 1) * z && p + (k + 1) * z == start + ((k + 1) + 1)
                    * z) by (nonlinear_arith)
                    requires
                        p == start + z,
                ;
                assert(spec_parse_cs_entry(data, start + (k + 1) * z, encoding, width,
                landing_pad_base) matches Ok(pair2) && pair2.1 == start + ((k + 1) + 1) * z);
            }
            lemma_uniform_call_site_table(
                data,
                p,
                encoding,
                width,
                landing_pad_base,
                z,
                (n - 1) as nat,
            );
            assert(p + (n - 1) * z == start + n * z) by (nonlinear_arith)
                requires
                    p == start + z,
            ;
        }
    }
}

/// A filter of 0 resolves to a cleanup — no type addresses — whenever the
/// LSDA carries a type table, whatever that table or its encoding hold.
pub proof fn lemma_cleanup_filter(
    data: Seq<u8>,
    header_end: int,
    encoding: u8,
    offset: u64,
    width: ArchPointerWidth,
    record: ActionRecord,
    lsda_ptr: u64,
)
    requires
        record.ar_filter == 0,
        offset != 0,
    ensures
        spec_get_type(data, header_end, encoding, offset, width, record, lsda_ptr) == Ok::<
            Seq<u64>,
            DecodeError,
        >(Seq::empty()),
        spec_action_info(data, header_end, encoding, offset, width, record, lsda_ptr)
            == SpecActionInfo::Cleanup,
{
}

/// The index list read for a negative filter holds exactly the non-zero
/// bytes that precede the first zero byte at its location, in order.
pub proof fn lemma_index_list_contents(data: Seq<u8>, pos: int, n: nat)
    requires
        0 <= pos,
        pos + n < data.len(),
        forall|k: int| 0 <= k < n ==> #[trigger] data[pos + k] != 0,
        data[pos + n] == 0,
    ensures
        spec_index_list(data, pos) matches Ok(l) && l.len() == n && (forall|k: int|
            0 <= k < n ==> l[k] == #[trigger] data[pos + k] as u64),
    decreases n,
{
    if n == 0 {
        assert(data[pos] == 0);
    } else {
        assert(data[pos + 0] != 0);
        assert forall|k: int| 0 <= k < (n - 1) as nat implies #[trigger] data[(pos + 1) + k]
            != 0 by {
            assert(data[pos + (k + 1)] != 0);
        }
        assert((pos + 1) + ((n - 1) as nat) == pos + n);
        lemma_index_list_contents(data, pos + 1, (n - 1) as nat);
        let rest = spec_index_list(data, pos + 1).unwrap();
        let l = spec_index_list(data, pos).unwrap();
        assert(l == seq![data[pos] as u64] + rest);
        assert forall|k: int| 0 <= k < n implies l[k] == data[pos + k] as u64 by {
            if k > 0 {
                assert(l[k] == rest[k - 1]);
                assert(rest[k - 1] == data[(pos + 1) + (k - 1)] as u64);
            }
        }
    }
}

/// When the raw type-table encoding byte of the LSDA header is `0xff`, the
/// header carries no type-table offset, and every resolution for that LSDA
/// — whatever the record's filter — fails as a missing type table.
pub proof fn lemma_omitted_type_table(
    data: Seq<u8>,
    width: ArchPointerWidth,
    record: ActionRecord,
    lsda_ptr: u64,
)
    requires
        spec_parse_lsda_header(data, 0, width) matches Ok(pair) && pair.0.type_table_encoding
            == ENC_OMIT,
    ensures
        spec_parse_lsda_header(data, 0, width) matches Ok(pair) && {
            let (lh, p) = pair;
            &&& lh.type_table_offset is None
            &&& spec_get_type(data, p, lh.type_table_encoding, 0, width, record, lsda_ptr)
                == Err::<Seq<u64>, DecodeError>(DecodeError::CannotParseOmitEncoding)
            &&& spec_action_info(data, p, lh.type_table_encoding, 0, width, record, lsda_ptr)
                == SpecActionInfo::MissingTypeTable
        },
{
}

} // verus!
