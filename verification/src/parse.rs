//! Payload decoders, each verified against a spec-level parser of the same
//! wire layout, and the dispatch from a type tag to the right decoder.
//!
//! Every spec parser takes the payload `s` and a position `p` and yields
//! either the decoded value together with the position just past the bytes
//! it consumed, or the error the decode aborts with.

use vstd::prelude::*;

use crate::bytes::{spec_be_i16, spec_be_i32, spec_be_u16, spec_be_u32};
use crate::cursor::{find_nul, lemma_find_nul_props, Decoder};
use crate::msg::{
    AuthType, DecodeError, FieldInfo, FieldInfoV, MBackendKeyData, MDataRow, MDataRowV,
    MParameterStatus, MParameterStatusV, MResponseStatus, MResponseStatusV, MRowDescription,
    MRowDescriptionV, Message, MessageV,
};

verus! {

/// A NUL-terminated text field: the bytes before the first NUL, with the
/// terminator consumed but excluded from the value.
pub open spec fn spec_parse_cstr(s: Seq<u8>, p: int) -> Result<(Seq<u8>, int), DecodeError> {
    match find_nul(s, p) {
        Some(k) => Ok((s.subrange(p, k), k + 1)),
        None => Err(DecodeError::MalformedText),
    }
}

/// A counted-sequence header: a 16-bit signed count, negative counts being
/// malformed.
pub open spec fn spec_parse_count(s: Seq<u8>, p: int) -> Result<(int, int), DecodeError> {
    if s.len() - p < 2 {
        Err(DecodeError::Truncated)
    } else {
        let n = spec_be_i16(s.subrange(p, p + 2));
        if n < 0 {
            Err(DecodeError::Framing)
        } else {
            Ok((n as int, p + 2))
        }
    }
}

/// A nullable byte column: a 32-bit signed length, where `-1` means SQL
/// NULL, any other negative length is malformed, and a non-negative length
/// counts the raw bytes that follow.
pub open spec fn spec_parse_nullable_bytes(s: Seq<u8>, p: int) -> Result<
    (Option<Seq<u8>>, int),
    DecodeError,
> {
    if s.len() - p < 4 {
        Err(DecodeError::Truncated)
    } else {
        let len = spec_be_i32(s.subrange(p, p + 4));
        if len == -1 {
            Ok((None, p + 4))
        } else if len < 0 {
            Err(DecodeError::Framing)
        } else if s.len() - (p + 4) < len {
            Err(DecodeError::Truncated)
        } else {
            Ok((Some(s.subrange(p + 4, p + 4 + len)), p + 4 + len))
        }
    }
}

/// `n` nullable byte columns in a row, in wire order.
pub open spec fn spec_parse_columns(s: Seq<u8>, p: int, n: nat) -> Result<
    (Seq<Option<Seq<u8>>>, int),
    DecodeError,
>
    decreases n,
{
    if n == 0 {
        Ok((Seq::empty(), p))
    } else {
        match spec_parse_nullable_bytes(s, p) {
            Err(e) => Err(e),
            Ok((c, q)) => match spec_parse_columns(s, q, (n - 1) as nat) {
                Err(e) => Err(e),
                Ok((rest, z)) => Ok((seq![c] + rest, z)),
            },
        }
    }
}

/// A data-row body: a counted sequence of nullable byte columns.
pub open spec fn spec_parse_data_row(s: Seq<u8>, p: int) -> Result<(MDataRowV, int), DecodeError> {
    match spec_parse_count(s, p) {
        Err(e) => Err(e),
        Ok((n, q)) => match spec_parse_columns(s, q, n as nat) {
            Err(e) => Err(e),
            Ok((cols, z)) => Ok((MDataRowV { columns: cols }, z)),
        },
    }
}

/// One field descriptor of a row description, in the order the protocol
/// fixes: name, table oid, attribute number, type oid, type length, type
/// modifier, format code.
pub open spec fn spec_parse_field_info(s: Seq<u8>, p: int) -> Result<
    (FieldInfoV, int),
    DecodeError,
> {
    match spec_parse_cstr(s, p) {
        Err(e) => Err(e),
        Ok((name, q)) => if s.len() - q < 18 {
            Err(DecodeError::Truncated)
        } else {
            Ok(
                (
                    FieldInfoV {
                        name: name,
                        oid: spec_be_i32(s.subrange(q, q + 4)),
                        attr_nr: spec_be_i16(s.subrange(q + 4, q + 6)),
                        type_oid: spec_be_i32(s.subrange(q + 6, q + 10)),
                        typlen: spec_be_i16(s.subrange(q + 10, q + 12)),
                        atttypmod: spec_be_i32(s.subrange(q + 12, q + 16)),
                        formatcode: spec_be_i16(s.subrange(q + 16, q + 18)),
                    },
                    q + 18,
                ),
            )
        },
    }
}

/// `n` field descriptors in a row, in wire order.
pub open spec fn spec_parse_fields(s: Seq<u8>, p: int, n: nat) -> Result<
    (Seq<FieldInfoV>, int),
    DecodeError,
>
    decreases n,
{
    if n == 0 {
        Ok((Seq::empty(), p))
    } else {
        match spec_parse_field_info(s, p) {
            Err(e) => Err(e),
            Ok((f, q)) => match spec_parse_fields(s, q, (n - 1) as nat) {
                Err(e) => Err(e),
                Ok((rest, z)) => Ok((seq![f] + rest, z)),
            },
        }
    }
}

/// A row-description body: a counted sequence of field descriptors.
pub open spec fn spec_parse_row_description(s: Seq<u8>, p: int) -> Result<
    (MRowDescriptionV, int),
    DecodeError,
> {
    match spec_parse_count(s, p) {
        Err(e) => Err(e),
        Ok((n, q)) => match spec_parse_fields(s, q, n as nat) {
            Err(e) => Err(e),
            Ok((fields, z)) => Ok((MRowDescriptionV { fields: fields }, z)),
        },
    }
}

/// An authentication body: a 4-byte sub-code, then the bytes the mechanism
/// needs. Unrecognized sub-codes yield `AuthUnknown` and consume nothing
/// further.
pub open spec fn spec_parse_auth(s: Seq<u8>, p: int) -> Result<(AuthType, int), DecodeError> {
    if s.len() - p < 4 {
        Err(DecodeError::Truncated)
    } else {
        let code = spec_be_i32(s.subrange(p, p + 4));
        let q = p + 4;
        if code == 0 {
            Ok((AuthType::AuthOk, q))
        } else if code == 1 {
            Ok((AuthType::AuthKerberosV4, q))
        } else if code == 2 {
            Ok((AuthType::AuthKerberosV5, q))
        } else if code == 3 {
            Ok((AuthType::AuthClearTextPassword, q))
        } else if code == 4 {
            if s.len() - q < 2 {
                Err(DecodeError::Truncated)
            } else {
                Ok((AuthType::AuthCryptPassword(spec_be_u16(s.subrange(q, q + 2))), q + 2))
            }
        } else if code == 5 {
            if s.len() - q < 4 {
                Err(DecodeError::Truncated)
            } else {
                Ok((AuthType::AuthMD5Password(spec_be_u32(s.subrange(q, q + 4))), q + 4))
            }
        } else if code == 6 {
            Ok((AuthType::AuthSCMCredential, q))
        } else {
            Ok((AuthType::AuthUnknown, q))
        }
    }
}

/// A notice or error body: the field-type byte, then text fields that spend
/// the declared budget `sz` until fewer than two bytes of it remain, then
/// one final NUL that must land the budget exactly on zero.
pub open spec fn spec_parse_status_fields(s: Seq<u8>, p: int, sz: int) -> Result<
    (Seq<Seq<u8>>, int),
    DecodeError,
>
    decreases sz,
{
    if sz <= 1 {
        if p >= s.len() {
            Err(DecodeError::Truncated)
        } else if s[p] != 0 {
            Err(DecodeError::Framing)
        } else if sz != 1 {
            Err(DecodeError::Framing)
        } else {
            Ok((Seq::empty(), p + 1))
        }
    } else {
        match spec_parse_cstr(s, p) {
            Err(e) => Err(e),
            Ok((f, q)) => if f.len() + 1 > sz {
                Err(DecodeError::Framing)
            } else {
                match spec_parse_status_fields(s, q, sz - (f.len() + 1)) {
                    Err(e) => Err(e),
                    Ok((rest, z)) => Ok((seq![f] + rest, z)),
                }
            },
        }
    }
}

/// A response-status body, with the remaining bytes of the payload as its
/// budget.
pub open spec fn spec_parse_response_status(s: Seq<u8>, p: int) -> Result<
    (MResponseStatusV, int),
    DecodeError,
> {
    if s.len() - p < 1 {
        Err(DecodeError::Truncated)
    } else {
        match spec_parse_status_fields(s, p + 1, s.len() - p - 1) {
            Err(e) => Err(e),
            Ok((fields, z)) => Ok(
                (MResponseStatusV { field_type: s[p], field_values: fields }, z),
            ),
        }
    }
}

impl Decoder {
    /// Reads a counted-sequence header: a 16-bit signed count, which must
    /// not be negative.
    pub fn read_seq_count(&mut self) -> (r: Result<usize, DecodeError>)
        requires
            old(self).wf(),
        ensures
            final(self).wf(),
            final(self).data() == old(self).data(),
            match spec_parse_count(old(self).data(), old(self).taken()) {
                Ok((n, z)) => {
                    &&& r matches Ok(c) && c == n
                    &&& final(self).taken() == z
                },
                Err(e) => r matches Err(e2) && e2 == e,
            },
    {
        let n = match self.read_be_i16() {
            Ok(n) => n,
            Err(e) => {
                return Err(e);
            },
        };
        if n < 0 {
            return Err(DecodeError::Framing);
        }
        Ok(n as usize)
    }

    /// Reads one nullable byte column: a 32-bit signed length, where `-1`
    /// means no value, then that many raw bytes.
    pub fn read_nullable_bytes(&mut self) -> (r: Result<Option<Vec<u8>>, DecodeError>)
        requires
            old(self).wf(),
        ensures
            final(self).wf(),
            final(self).data() == old(self).data(),
            match spec_parse_nullable_bytes(old(self).data(), old(self).taken()) {
                Ok((c, z)) => {
                    &&& r matches Ok(o) && o.deep_view() == c
                    &&& final(self).taken() == z
                },
                Err(e) => r matches Err(e2) && e2 == e,
            },
    {
        let len = match self.read_be_i32() {
            Ok(v) => v,
            Err(e) => {
                return Err(e);
            },
        };
        if len == -1 {
            return Ok(None);
        }
        if len < 0 {
            return Err(DecodeError::Framing);
        }
        match self.read_bytes(len as usize) {
            Ok(v) => {
                proof {
                    assert(Some(v).deep_view() =~~= spec_parse_nullable_bytes(
                        old(self).data(),
                        old(self).taken(),
                    )->Ok_0.0);
                }
                Ok(Some(v))
            },
            Err(e) => Err(e),
        }
    }
}

/// Decodes the authentication body: reads the 4-byte sub-code and then the
/// salt bytes the mechanism calls for. Sub-codes the catalog does not know
/// decode to `AuthUnknown` without reading further.
pub fn parse_auth_message(d: &mut Decoder) -> (r: Result<AuthType, DecodeError>)
    requires
        old(d).wf(),
    ensures
        final(d).wf(),
        final(d).data() == old(d).data(),
        match spec_parse_auth(old(d).data(), old(d).taken()) {
            Ok((a, z)) => {
                &&& r matches Ok(a2) && a2 == a
                &&& final(d).taken() == z
            },
            Err(e) => r matches Err(e2) && e2 == e,
        },
{
    let authtype = match d.read_be_i32() {
        Ok(v) => v,
        Err(e) => {
            return Err(e);
        },
    };
    match authtype {
        0 => Ok(AuthType::AuthOk),
        1 => Ok(AuthType::AuthKerberosV4),
        2 => Ok(AuthType::AuthKerberosV5),
        3 => Ok(AuthType::AuthClearTextPassword),
        4 => {
            match d.read_be_u16() {
                Ok(salt) => Ok(AuthType::AuthCryptPassword(salt)),
                Err(e) => Err(e),
            }
        },
        5 => {
            match d.read_be_u32() {
                Ok(salt) => Ok(AuthType::AuthMD5Password(salt)),
                Err(e) => Err(e),
            }
        },
        6 => Ok(AuthType::AuthSCMCredential),
        _ => Ok(AuthType::AuthUnknown),
    }
}

/// Decodes a backend-key-data body: process id, then secret key.
pub fn decode_backend_key_data(d: &mut Decoder) -> (r: Result<MBackendKeyData, DecodeError>)
    requires
        old(d).wf(),
    ensures
        final(d).wf(),
        final(d).data() == old(d).data(),
        old(d).spec_remaining() >= 8 ==> {
            &&& r matches Ok(m) && m == MBackendKeyData {
                process_id: spec_be_i32(
                    old(d).data().subrange(old(d).taken(), old(d).taken() + 4),
                ),
                secret_key: spec_be_i32(
                    old(d).data().subrange(old(d).taken() + 4, old(d).taken() + 8),
                ),
            }
            &&& final(d).taken() == old(d).taken() + 8
        },
        old(d).spec_remaining() < 8 ==> r == Err::<MBackendKeyData, DecodeError>(
            DecodeError::Truncated,
        ),
{
    let process_id = match d.read_be_i32() {
        Ok(v) => v,
        Err(e) => {
            return Err(e);
        },
    };
    let secret_key = match d.read_be_i32() {
        Ok(v) => v,
        Err(e) => {
            return Err(e);
        },
    };
    Ok(MBackendKeyData { process_id, secret_key })
}

/// Decodes a parameter-status body: a key/value pair of text fields.
pub fn decode_parameter_status(d: &mut Decoder) -> (r: Result<MParameterStatus, DecodeError>)
    requires
        old(d).wf(),
    ensures
        final(d).wf(),
        final(d).data() == old(d).data(),
        match spec_parse_cstr(old(d).data(), old(d).taken()) {
            Err(e) => r matches Err(e2) && e2 == e,
            Ok((k, q)) => match spec_parse_cstr(old(d).data(), q) {
                Err(e) => r matches Err(e2) && e2 == e,
                Ok((v, z)) => {
                    &&& r matches Ok(m) && m@ == MParameterStatusV { key: k, val: v }
                    &&& final(d).taken() == z
                },
            },
        },
{
    let key = match d.read_cstr() {
        Ok(v) => v,
        Err(e) => {
            return Err(e);
        },
    };
    let val = match d.read_cstr() {
        Ok(v) => v,
        Err(e) => {
            return Err(e);
        },
    };
    Ok(MParameterStatus { key, val })
}

/// Decodes a data-row body: a counted sequence of nullable byte columns,
/// in wire order.
pub fn decode_data_row(d: &mut Decoder) -> (r: Result<MDataRow, DecodeError>)
    requires
        old(d).wf(),
    ensures
        final(d).wf(),
        final(d).data() == old(d).data(),
        match spec_parse_data_row(old(d).data(), old(d).taken()) {
            Ok((row, z)) => {
                &&& r matches Ok(m) && m@ == row
                &&& final(d).taken() == z
            },
            Err(e) => r matches Err(e2) && e2 == e,
        },
{
    let ghost s = d.data();
    let ghost p0 = d.taken();
    let n = match d.read_seq_count() {
        Ok(n) => n,
        Err(e) => {
            return Err(e);
        },
    };
    let ghost q0 = d.taken();
    let mut cols: Vec<Option<Vec<u8>>> = Vec::new();
    let mut i: usize = 0;
    proof {
        match spec_parse_columns(s, q0, n as nat) {
            Ok((rest, z)) => {
                assert(cols.deep_view() + rest =~= rest);
            },
            Err(_) => {},
        }
    }
    while i < n
        invariant
            d.wf(),
            d.data() == s,
            s == old(d).data(),
            p0 == old(d).taken(),
            i <= n,
            spec_parse_count(s, p0) == Ok::<(int, int), DecodeError>((n as int, q0)),
            spec_parse_columns(s, q0, n as nat) == (match spec_parse_columns(
                s,
                d.taken(),
                (n - i) as nat,
            ) {
                Ok((rest, z)) => Ok::<(Seq<Option<Seq<u8>>>, int), DecodeError>(
                    (cols.deep_view() + rest, z),
                ),
                Err(e) => Err(e),
            }),
        decreases n - i,
    {
        let ghost before = d.taken();
        let ghost acc = cols.deep_view();
        let c = match d.read_nullable_bytes() {
            Ok(c) => c,
            Err(e) => {
                return Err(e);
            },
        };
        cols.push(c);
        i = i + 1;
        proof {
            let cv = spec_parse_nullable_bytes(s, before)->Ok_0.0;
            assert(cols.deep_view() =~~= acc + seq![cv]);
            match spec_parse_columns(s, d.taken(), (n - i) as nat) {
                Ok((rest, z)) => {
                    assert(acc + (seq![cv] + rest) =~= (acc + seq![cv]) + rest);
                },
                Err(_) => {},
            }
        }
    }
    proof {
        match spec_parse_columns(s, d.taken(), 0) {
            Ok((rest, z)) => {
                assert(cols.deep_view() + rest =~= cols.deep_view());
            },
            Err(_) => {},
        }
    }
    Ok(MDataRow { columns: cols })
}

/// Decodes one field descriptor of a row description, in the fixed
/// protocol order.
pub fn decode_field_info(d: &mut Decoder) -> (r: Result<FieldInfo, DecodeError>)
    requires
        old(d).wf(),
    ensures
        final(d).wf(),
        final(d).data() == old(d).data(),
        match spec_parse_field_info(old(d).data(), old(d).taken()) {
            Ok((f, z)) => {
                &&& r matches Ok(fi) && fi@ == f
                &&& final(d).taken() == z
            },
            Err(e) => r matches Err(e2) && e2 == e,
        },
{
    let name = match d.read_cstr() {
        Ok(v) => v,
        Err(e) => {
            return Err(e);
        },
    };
    let oid = match d.read_be_i32() {
        Ok(v) => v,
        Err(e) => {
            return Err(e);
        },
    };
    let attr_nr = match d.read_be_i16() {
        Ok(v) => v,
        Err(e) => {
            return Err(e);
        },
    };
    let type_oid = match d.read_be_i32() {
        Ok(v) => v,
        Err(e) => {
            return Err(e);
        },
    };
    let typlen = match d.read_be_i16() {
        Ok(v) => v,
        Err(e) => {
            return Err(e);
        },
    };
    let atttypmod = match d.read_be_i32() {
        Ok(v) => v,
        Err(e) => {
            return Err(e);
        },
    };
    let formatcode = match d.read_be_i16() {
        Ok(v) => v,
        Err(e) => {
            return Err(e);
        },
    };
    Ok(FieldInfo { name, oid, attr_nr, type_oid, typlen, atttypmod, formatcode })
}

/// Decodes a row-description body: a counted sequence of field
/// descriptors, in wire order.
pub fn decode_row_description(d: &mut Decoder) -> (r: Result<MRowDescription, DecodeError>)
    requires
        old(d).wf(),
    ensures
        final(d).wf(),
        final(d).data() == old(d).data(),
        match spec_parse_row_description(old(d).data(), old(d).taken()) {
            Ok((rd, z)) => {
                &&& r matches Ok(m) && m@ == rd
                &&& final(d).taken() == z
            },
            Err(e) => r matches Err(e2) && e2 == e,
        },
{
    let ghost s = d.data();
    let ghost p0 = d.taken();
    let n = match d.read_seq_count() {
        Ok(n) => n,
        Err(e) => {
            return Err(e);
        },
    };
    let ghost q0 = d.taken();
    let mut fields: Vec<FieldInfo> = Vec::new();
    let mut i: usize = 0;
    proof {
        match spec_parse_fields(s, q0, n as nat) {
            Ok((rest, z)) => {
                assert(Seq::new(fields@.len(), |j: int| fields@[j]@) + rest =~= rest);
            },
            Err(_) => {},
        }
    }
    while i < n
        invariant
            d.wf(),
            d.data() == s,
            s == old(d).data(),
            p0 == old(d).taken(),
            i <= n,
            spec_parse_count(s, p0) == Ok::<(int, int), DecodeError>((n as int, q0)),
            spec_parse_fields(s, q0, n as nat) == (match spec_parse_fields(
                s,
                d.taken(),
                (n - i) as nat,
            ) {
                Ok((rest, z)) => Ok::<(Seq<FieldInfoV>, int), DecodeError>(
                    (Seq::new(fields@.len(), |j: int| fields@[j]@) + rest, z),
                ),
                Err(e) => Err(e),
            }),
        decreases n - i,
    {
        let ghost before = d.taken();
        let ghost acc = Seq::new(fields@.len(), |j: int| fields@[j]@);
        let f = match decode_field_info(d) {
            Ok(f) => f,
            Err(e) => {
                return Err(e);
            },
        };
        fields.push(f);
        i = i + 1;
        proof {
            let fv = spec_parse_field_info(s, before)->Ok_0.0;
            assert(Seq::new(fields@.len(), |j: int| fields@[j]@) =~= acc + seq![fv]);
            match spec_parse_fields(s, d.taken(), (n - i) as nat) {
                Ok((rest, z)) => {
                    assert(acc + (seq![fv] + rest) =~= (acc + seq![fv]) + rest);
                },
                Err(_) => {},
            }
        }
    }
    proof {
        let acc = Seq::new(fields@.len(), |j: int| fields@[j]@);
        match spec_parse_fields(s, d.taken(), 0) {
            Ok((rest, z)) => {
                assert(acc + rest =~= acc);
            },
            Err(_) => {},
        }
    }
    Ok(MRowDescription { fields })
}

/// Decodes a notice or error body, spending the remaining payload budget
/// on text fields and requiring the final NUL to land it exactly on zero.
pub fn decode_response_status(d: &mut Decoder) -> (r: Result<MResponseStatus, DecodeError>)
    requires
        old(d).wf(),
    ensures
        final(d).wf(),
        final(d).data() == old(d).data(),
        match spec_parse_response_status(old(d).data(), old(d).taken()) {
            Ok((m, z)) => {
                &&& r matches Ok(v) && v@ == m
                &&& final(d).taken() == z
            },
            Err(e) => r matches Err(e2) && e2 == e,
        },
{
    let ghost s = d.data();
    let ghost p0 = d.taken();
    let remaining = d.get_remaining_bytes();
    if remaining < 1 {
        return Err(DecodeError::Truncated);
    }
    let field_type = match d.read_u8() {
        Ok(b) => b,
        Err(e) => {
            proof {
                assert(false);
            }
            return Err(e);
        },
    };
    let mut sz: usize = remaining - 1;
    let ghost q0 = d.taken();
    let ghost sz0 = sz as int;
    let mut vals: Vec<Vec<u8>> = Vec::new();
    proof {
        match spec_parse_status_fields(s, q0, sz0) {
            Ok((rest, z)) => {
                assert(vals.deep_view() + rest =~= rest);
            },
            Err(_) => {},
        }
    }
    while sz > 1
        invariant
            d.wf(),
            d.data() == s,
            s == old(d).data(),
            p0 == old(d).taken(),
            q0 == p0 + 1,
            sz0 == s.len() - p0 - 1,
            sz == d.spec_remaining(),
            spec_parse_status_fields(s, q0, sz0) == (match spec_parse_status_fields(
                s,
                d.taken(),
                sz as int,
            ) {
                Ok((rest, z)) => Ok::<(Seq<Seq<u8>>, int), DecodeError>(
                    (vals.deep_view() + rest, z),
                ),
                Err(e) => Err(e),
            }),
        decreases sz,
    {
        let ghost before = d.taken();
        let ghost acc = vals.deep_view();
        let f = match d.read_cstr() {
            Ok(f) => f,
            Err(e) => {
                return Err(e);
            },
        };
        proof {
            lemma_find_nul_props(s, before);
        }
        if f.len() >= sz {
            return Err(DecodeError::Framing);
        }
        sz = sz - (f.len() + 1);
        vals.push(f);
        proof {
            let fv = spec_parse_cstr(s, before)->Ok_0.0;
            assert(vals.deep_view() =~~= acc + seq![fv]);
            match spec_parse_status_fields(s, d.taken(), sz as int) {
                Ok((rest, z)) => {
                    assert(acc + (seq![fv] + rest) =~= (acc + seq![fv]) + rest);
                },
                Err(_) => {},
            }
        }
    }
    let nul = match d.read_u8() {
        Ok(b) => b,
        Err(e) => {
            return Err(e);
        },
    };
    if nul != 0 {
        return Err(DecodeError::Framing);
    }
    if sz != 1 {
        return Err(DecodeError::Framing);
    }
    proof {
        assert(vals.deep_view() + Seq::<Seq<u8>>::empty() =~= vals.deep_view());
    }
    Ok(MResponseStatus { field_type, field_values: vals })
}

/// The dispatch table: what a payload with the given type tag decodes to.
/// A tag outside the table fails; no tag is silently skipped.
pub open spec fn spec_parse_message(tag: u8, s: Seq<u8>) -> Result<MessageV, DecodeError> {
    if tag == 82 {  // 'R'
        match spec_parse_auth(s, 0) {
            Ok((a, _)) => Ok(MessageV::MsgAuthentification(a)),
            Err(e) => Err(e),
        }
    } else if tag == 112 {  // 'p'
        match spec_parse_cstr(s, 0) {
            Ok((pw, _)) => Ok(MessageV::MsgPassword { password: pw }),
            Err(e) => Err(e),
        }
    } else if tag == 83 {  // 'S'
        match spec_parse_cstr(s, 0) {
            Err(e) => Err(e),
            Ok((k, q)) => match spec_parse_cstr(s, q) {
                Err(e) => Err(e),
                Ok((v, _)) => Ok(
                    MessageV::MsgParameterStatus(MParameterStatusV { key: k, val: v }),
                ),
            },
        }
    } else if tag == 75 {  // 'K'
        if s.len() < 8 {
            Err(DecodeError::Truncated)
        } else {
            Ok(
                MessageV::MsgBackendKeyData(
                    MBackendKeyData {
                        process_id: spec_be_i32(s.subrange(0, 4)),
                        secret_key: spec_be_i32(s.subrange(4, 8)),
                    },
                ),
            )
        }
    } else if tag == 90 {  // 'Z'
        if s.len() < 1 {
            Err(DecodeError::Truncated)
        } else {
            Ok(MessageV::MsgReadyForQuery { backend_transaction_status_indicator: s[0] })
        }
    } else if tag == 68 {  // 'D'
        match spec_parse_data_row(s, 0) {
            Ok((row, _)) => Ok(MessageV::MsgDataRow(row)),
            Err(e) => Err(e),
        }
    } else if tag == 67 {  // 'C'
        match spec_parse_cstr(s, 0) {
            Ok((t, _)) => Ok(MessageV::MsgCommandComplete { cmd_tag: t }),
            Err(e) => Err(e),
        }
    } else if tag == 73 {  // 'I'
        Ok(MessageV::MsgEmptyQueryResponse)
    } else if tag == 78 {  // 'N'
        match spec_parse_response_status(s, 0) {
            Ok((m, _)) => Ok(MessageV::MsgNoticeResponse(m)),
            Err(e) => Err(e),
        }
    } else if tag == 69 {  // 'E'
        match spec_parse_response_status(s, 0) {
            Ok((m, _)) => Ok(MessageV::MsgErrorResponse(m)),
            Err(e) => Err(e),
        }
    } else if tag == 71 {  // 'G'
        Ok(MessageV::MsgCopyInResponse)
    } else if tag == 72 {  // 'H'
        Ok(MessageV::MsgCopyOutResponse)
    } else if tag == 49 {  // '1'
        Ok(MessageV::MsgParseComplete)
    } else if tag == 81 {  // 'Q'
        match spec_parse_cstr(s, 0) {
            Ok((q, _)) => Ok(MessageV::MsgQuery { query: q }),
            Err(e) => Err(e),
        }
    } else if tag == 84 {  // 'T'
        match spec_parse_row_description(s, 0) {
            Ok((rd, _)) => Ok(MessageV::MsgRowDescription(rd)),
            Err(e) => Err(e),
        }
    } else if tag == 88 {  // 'X'
        Ok(MessageV::MsgTerminate)
    } else {
        Err(DecodeError::UnrecognizedTag(tag))
    }
}

/// Checks a frame header's declared length, which counts itself but not
/// the tag byte, and yields the payload size. A length below the minimum
/// of 4 is a framing violation, found before any payload byte is read.
pub fn payload_size(declared_len: i32) -> (r: Result<usize, DecodeError>)
    ensures
        declared_len >= 4 ==> r == Ok::<usize, DecodeError>((declared_len - 4) as usize),
        declared_len < 4 ==> r == Err::<usize, DecodeError>(DecodeError::Framing),
{
    if declared_len < 4 {
        Err(DecodeError::Framing)
    } else {
        Ok((declared_len - 4) as usize)
    }
}

/// Decodes one framed message: the payload the framer read for tag `ty`
/// becomes the message variant the dispatch table assigns to that tag.
pub fn read_message(ty: u8, payload: Vec<u8>) -> (r: Result<Message, DecodeError>)
    ensures
        match spec_parse_message(ty, payload@) {
            Ok(mv) => r matches Ok(m) && m@ == mv,
            Err(e) => r matches Err(e2) && e2 == e,
        },
{
    let ghost s = payload@;
    let mut d = Decoder::new(payload);
    match ty {
        82 => {  // 'R'
            match parse_auth_message(&mut d) {
                Ok(a) => Ok(Message::MsgAuthentification(a)),
                Err(e) => Err(e),
            }
        },
        112 => {  // 'p'
            match d.read_cstr() {
                Ok(pw) => Ok(Message::MsgPassword { password: pw }),
                Err(e) => Err(e),
            }
        },
        83 => {  // 'S'
            match decode_parameter_status(&mut d) {
                Ok(m) => Ok(Message::MsgParameterStatus(m)),
                Err(e) => Err(e),
            }
        },
        75 => {  // 'K'
            match decode_backend_key_data(&mut d) {
                Ok(m) => Ok(Message::MsgBackendKeyData(m)),
                Err(e) => Err(e),
            }
        },
        90 => {  // 'Z'
            match d.read_u8() {
                Ok(b) => Ok(Message::MsgReadyForQuery { backend_transaction_status_indicator: b }),
                Err(e) => Err(e),
            }
        },
        68 => {  // 'D'
            match decode_data_row(&mut d) {
                Ok(m) => Ok(Message::MsgDataRow(m)),
                Err(e) => Err(e),
            }
        },
        67 => {  // 'C'
            match d.read_cstr() {
                Ok(t) => Ok(Message::MsgCommandComplete { cmd_tag: t }),
                Err(e) => Err(e),
            }
        },
        73 => Ok(Message::MsgEmptyQueryResponse),  // 'I'
        78 => {  // 'N'
            match decode_response_status(&mut d) {
                Ok(m) => Ok(Message::MsgNoticeResponse(m)),
                Err(e) => Err(e),
            }
        },
        69 => {  // 'E'
            match decode_response_status(&mut d) {
                Ok(m) => Ok(Message::MsgErrorResponse(m)),
                Err(e) => Err(e),
            }
        },
        71 => Ok(Message::MsgCopyInResponse),  // 'G'
        72 => Ok(Message::MsgCopyOutResponse),  // 'H'
        49 => Ok(Message::MsgParseComplete),  // '1'
        81 => {  // 'Q'
            match d.read_cstr() {
                Ok(q) => Ok(Message::MsgQuery { query: q }),
                Err(e) => Err(e),
            }
        },
        84 => {  // 'T'
            match decode_row_description(&mut d) {
                Ok(m) => Ok(Message::MsgRowDescription(m)),
                Err(e) => Err(e),
            }
        },
        88 => Ok(Message::MsgTerminate),  // 'X'
        _ => Err(DecodeError::UnrecognizedTag(ty)),
    }
}

} // verus!
