//! Protocol-level laws: facts that relate the encoders, the decoders, and
//! the framing arithmetic across function boundaries.

use vstd::prelude::*;

use crate::bytes::{lemma_be_i32_round_trip, spec_be_i16, spec_be_i32, spec_i32_to_be};
use crate::cursor::lemma_find_nul_props;
use crate::encode::{
    lemma_params_size_is_len, spec_encodable, spec_encode_message, spec_params_size,
    spec_startup_len,
};
use crate::msg::{DecodeError, Message};
use crate::parse::{
    spec_parse_columns, spec_parse_count, spec_parse_cstr, spec_parse_data_row,
    spec_parse_field_info, spec_parse_fields, spec_parse_nullable_bytes,
    spec_parse_response_status, spec_parse_row_description, spec_parse_status_fields,
};

verus! {

/// Round trip of the startup frame: decoding the header of an encoded
/// startup message yields a length field equal to `8 + 1` plus, for each
/// parameter pair, the key's length, its NUL, the value's length, and its
/// NUL.
pub proof fn law_startup_length_round_trip(msg: Message)
    requires
        spec_encodable(msg),
        msg is MsgStartup,
    ensures
        msg matches Message::MsgStartup { params, .. } ==> spec_be_i32(
            spec_encode_message(msg).subrange(0, 4),
        ) == 8 + 1 + spec_params_size(params@),
        msg matches Message::MsgStartup { params, .. } ==> spec_encode_message(msg).len() == 8 + 1
            + spec_params_size(params@),
{
    match msg {
        Message::MsgStartup { params, .. } => {
            let l = spec_startup_len(params@);
            lemma_params_size_is_len(params@);
            assert(spec_encode_message(msg).subrange(0, 4) =~= spec_i32_to_be(
                l as i32,
            ));
            lemma_be_i32_round_trip(l as i32);
        },
        _ => {},
    }
}

/// The text fields of a notice or error body spend their budget exactly:
/// where they parse, they end precisely `sz` bytes after they began.
pub proof fn law_status_fields_budget(s: Seq<u8>, p: int, sz: int)
    requires
        0 <= p <= s.len(),
    ensures
        spec_parse_status_fields(s, p, sz) matches Ok(r) ==> r.1 == p + sz,
    decreases sz,
{
    if sz > 1 {
        match spec_parse_cstr(s, p) {
            Ok((f, q)) => {
                if f.len() + 1 <= sz {
                    lemma_find_nul_props(s, p);
                    law_status_fields_budget(s, q, sz - (f.len() + 1));
                }
            },
            Err(_) => {},
        }
    }
}

/// A response-status decode is exact: where it succeeds, it consumes the
/// entire declared payload with zero remainder.
pub proof fn law_response_status_exact(s: Seq<u8>, p: int)
    requires
        0 <= p <= s.len(),
    ensures
        spec_parse_response_status(s, p) matches Ok(r) ==> r.1 == s.len(),
{
    if s.len() - p >= 1 {
        law_status_fields_budget(s, p + 1, s.len() - p - 1);
    }
}

/// A run of counted nullable columns parses to exactly as many columns as
/// were asked for, in wire order.
pub proof fn law_columns_count(s: Seq<u8>, p: int, n: nat)
    ensures
        spec_parse_columns(s, p, n) matches Ok(r) ==> r.0.len() == n,
    decreases n,
{
    if n > 0 {
        match spec_parse_nullable_bytes(s, p) {
            Ok((c, q)) => {
                law_columns_count(s, q, (n - 1) as nat);
            },
            Err(_) => {},
        }
    }
}

/// A run of counted field descriptors parses to exactly as many
/// descriptors as were asked for, in wire order.
pub proof fn law_fields_count(s: Seq<u8>, p: int, n: nat)
    ensures
        spec_parse_fields(s, p, n) matches Ok(r) ==> r.0.len() == n,
    decreases n,
{
    if n > 0 {
        match spec_parse_field_info(s, p) {
            Ok((f, q)) => {
                law_fields_count(s, q, (n - 1) as nat);
            },
            Err(_) => {},
        }
    }
}

/// A counted sequence obeys its header: a non-negative count `n` followed
/// by `n` well-formed elements decodes to a list of length `n`, and a
/// negative count is rejected as malformed, for the data row and the row
/// description alike.
pub proof fn law_sequence_header(s: Seq<u8>, p: int)
    ensures
        spec_parse_data_row(s, p) matches Ok(r) ==> r.0.columns.len() == spec_be_i16(
            s.subrange(p, p + 2),
        ),
        spec_parse_row_description(s, p) matches Ok(r) ==> r.0.fields.len() == spec_be_i16(
            s.subrange(p, p + 2),
        ),
        s.len() - p >= 2 && spec_be_i16(s.subrange(p, p + 2)) < 0 ==> ({
            &&& spec_parse_data_row(s, p) matches Err(e) && e == DecodeError::Framing
            &&& spec_parse_row_description(s, p) matches Err(e2) && e2 == DecodeError::Framing
        }),
{
    match spec_parse_count(s, p) {
        Ok((n, q)) => {
            law_columns_count(s, q, n as nat);
            law_fields_count(s, q, n as nat);
        },
        Err(_) => {},
    }
}

/// The nullable-bytes column honors its length field: `-1` is no value,
/// `0` is an empty value, a positive `k` is the `k` bytes that follow,
/// and any length below `-1` is malformed.
pub proof fn law_nullable_bytes(s: Seq<u8>, p: int)
    requires
        0 <= p,
        p + 4 <= s.len(),
    ensures
        spec_be_i32(s.subrange(p, p + 4)) == -1 ==> ({
            &&& spec_parse_nullable_bytes(s, p) matches Ok(r)
            &&& r.0 is None
            &&& r.1 == p + 4
        }),
        spec_be_i32(s.subrange(p, p + 4)) == 0 ==> ({
            &&& spec_parse_nullable_bytes(s, p) matches Ok(r)
            &&& r.0 matches Some(b) && b.len() == 0
            &&& r.1 == p + 4
        }),
        ({
            let k = spec_be_i32(s.subrange(p, p + 4));
            k > 0 && p + 4 + k <= s.len() ==> ({
                &&& spec_parse_nullable_bytes(s, p) matches Ok(r)
                &&& r.0 matches Some(b) && b == s.subrange(p + 4, p + 4 + k)
                &&& r.1 == p + 4 + k
            })
        }),
        spec_be_i32(s.subrange(p, p + 4)) < -1 ==> ({
            &&& spec_parse_nullable_bytes(s, p) matches Err(e)
            &&& e == DecodeError::Framing
        }),
{
    if spec_be_i32(s.subrange(p, p + 4)) == 0 {
        assert(s.subrange(p + 4, p + 4) =~= Seq::<u8>::empty());
    }
}

} // verus!
