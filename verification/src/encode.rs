//! Encoders for the outbound messages, verified against spec-level
//! byte layouts.
//!
//! The startup message carries no tag byte: its length field, which counts
//! itself, is followed by the protocol version, the key/value text pairs,
//! and one trailing NUL. Every other outbound message is a tag byte plus a
//! length-prefixed payload.

use vstd::prelude::*;

use crate::bytes::spec_i32_to_be;
use crate::msg::Message;

verus! {

/// A text field on the wire: the bytes, then the NUL terminator.
pub open spec fn spec_cstring_bytes(s: Seq<u8>) -> Seq<u8> {
    s + seq![0u8]
}

/// The bytes of the startup parameter block: each key and value in order,
/// each NUL-terminated.
pub open spec fn spec_params_bytes(params: Seq<(Vec<u8>, Vec<u8>)>) -> Seq<u8>
    decreases params.len(),
{
    if params.len() == 0 {
        Seq::empty()
    } else {
        spec_params_bytes(params.drop_last()) + spec_cstring_bytes(params.last().0@)
            + spec_cstring_bytes(params.last().1@)
    }
}

/// The byte count of the startup parameter block: each pair spends the key,
/// its NUL, the value, and its NUL.
pub open spec fn spec_params_size(params: Seq<(Vec<u8>, Vec<u8>)>) -> int
    decreases params.len(),
{
    if params.len() == 0 {
        0
    } else {
        spec_params_size(params.drop_last()) + params.last().0@.len() + 1 + params.last().1@.len()
            + 1
    }
}

/// The parameter block's size is the length of its bytes.
pub proof fn lemma_params_size_is_len(params: Seq<(Vec<u8>, Vec<u8>)>)
    ensures
        spec_params_size(params) == spec_params_bytes(params).len(),
    decreases params.len(),
{
    if params.len() > 0 {
        lemma_params_size_is_len(params.drop_last());
    }
}

/// A prefix of the parameter block never outweighs the whole block.
pub proof fn lemma_params_size_prefix(params: Seq<(Vec<u8>, Vec<u8>)>, i: int)
    requires
        0 <= i <= params.len(),
    ensures
        spec_params_size(params.take(i)) <= spec_params_size(params),
    decreases params.len() - i,
{
    if i == params.len() {
        assert(params.take(i) =~= params);
    } else {
        lemma_params_size_prefix(params, i + 1);
        assert(params.take(i + 1).drop_last() =~= params.take(i));
        lemma_params_size_is_len(params.take(i + 1));
        lemma_params_size_is_len(params.take(i));
    }
}

/// The startup message's length field: the length's own four bytes, the
/// four of the protocol version, the parameter block, and the trailing NUL.
pub open spec fn spec_startup_len(params: Seq<(Vec<u8>, Vec<u8>)>) -> int {
    8 + 1 + spec_params_size(params)
}

/// Which messages the encoder defines, and when their length fields fit
/// the wire's 32-bit size: the startup message and the simple query.
pub open spec fn spec_encodable(m: Message) -> bool {
    match m {
        Message::MsgStartup { params, .. } => spec_startup_len(params@) <= i32::MAX,
        Message::MsgQuery { query } => query@.len() + 5 <= i32::MAX,
        _ => false,
    }
}

/// The exact on-wire bytes of an encodable message.
pub open spec fn spec_encode_message(m: Message) -> Seq<u8>
    recommends
        spec_encodable(m),
{
    match m {
        Message::MsgStartup { proto_version, params } => {
            spec_i32_to_be(spec_startup_len(params@) as i32) + spec_i32_to_be(proto_version)
                + spec_params_bytes(params@) + seq![0u8]
        },
        Message::MsgQuery { query } => {
            seq![81u8] + spec_i32_to_be((query@.len() + 5) as i32) + spec_cstring_bytes(query@)
        },
        _ => Seq::empty(),
    }
}

/// Appends a big-endian `i32`.
pub fn write_be_i32(out: &mut Vec<u8>, v: i32)
    ensures
        final(out)@ == old(out)@ + spec_i32_to_be(v),
{
    let u = v as u32;
    out.push((u >> 24) as u8);
    out.push((u >> 16) as u8);
    out.push((u >> 8) as u8);
    out.push(u as u8);
    proof {
        assert(out@ =~= old(out)@ + spec_i32_to_be(v));
    }
}

/// Appends a text field: its bytes, then the NUL terminator.
pub fn write_cstring(out: &mut Vec<u8>, s: &Vec<u8>)
    ensures
        final(out)@ == old(out)@ + spec_cstring_bytes(s@),
{
    let ghost base = out@;
    let mut i: usize = 0;
    while i < s.len()
        invariant
            i <= s.len(),
            out@.len() == base.len() + i,
            forall|j: int| 0 <= j < base.len() ==> out@[j] == base[j],
            forall|j: int| base.len() <= j < out@.len() ==> out@[j] == s@[j - base.len()],
        decreases s.len() - i,
    {
        out.push(s[i]);
        i = i + 1;
    }
    out.push(0);
    proof {
        assert(out@ =~= old(out)@ + spec_cstring_bytes(s@));
    }
}

/// Appends a frame header: the tag byte, then the length field, which
/// counts its own four bytes on top of the payload.
pub fn write_message_header(out: &mut Vec<u8>, typ: u8, payload: usize)
    requires
        payload + 4 <= i32::MAX,
    ensures
        final(out)@ == old(out)@ + seq![typ] + spec_i32_to_be((payload + 4) as i32),
{
    out.push(typ);
    write_be_i32(out, (payload as i32) + 4);
    proof {
        assert(out@ =~= old(out)@ + seq![typ] + spec_i32_to_be((payload + 4) as i32));
    }
}

/// Whether the encoder can frame this message: it is one of the outbound
/// kinds and its length field fits the wire's 32-bit size.
#[verifier::loop_isolation(false)]
pub fn message_encodable(msg: &Message) -> (r: bool)
    ensures
        r == spec_encodable(*msg),
{
    match msg {
        Message::MsgStartup { params, .. } => {
            let mut sz: u64 = 9;
            let mut i: usize = 0;
            while i < params.len()
                invariant
                    i <= params.len(),
                    sz == 9 + spec_params_size(params@.take(i as int)),
                    9 <= sz <= 0x7fffffff,
                decreases params.len() - i,
            {
                let pair = &params[i];
                if pair.0.len() > 0x7fffffff || pair.1.len() > 0x7fffffff {
                    proof {
                        lemma_step(params@, i as int);
                        lemma_params_size_prefix(params@, i + 1);
                    }
                    return false;
                }
                let add: u64 = pair.0.len() as u64 + 1 + pair.1.len() as u64 + 1;
                proof {
                    lemma_step(params@, i as int);
                }
                if sz + add > 0x7fffffff {
                    proof {
                        lemma_params_size_prefix(params@, i + 1);
                    }
                    return false;
                }
                sz = sz + add;
                i = i + 1;
            }
            proof {
                assert(params@.take(params@.len() as int) =~= params@);
            }
            true
        },
        Message::MsgQuery { query } => query.len() <= 0x7ffffffa,
        _ => false,
    }
}

/// One parameter pair extends the block's size by its own four parts.
proof fn lemma_step(params: Seq<(Vec<u8>, Vec<u8>)>, i: int)
    requires
        0 <= i < params.len(),
    ensures
        spec_params_size(params.take(i + 1)) == spec_params_size(params.take(i))
            + params[i].0@.len() + 1 + params[i].1@.len() + 1,
        spec_params_bytes(params.take(i + 1)) == spec_params_bytes(params.take(i))
            + spec_cstring_bytes(params[i].0@) + spec_cstring_bytes(params[i].1@),
{
    assert(params.take(i + 1).drop_last() =~= params.take(i));
    assert(params.take(i + 1).last() == params[i]);
}

/// Encodes an outbound message into its exact on-wire bytes: the startup
/// message as length, protocol version, parameter pairs, and trailing NUL;
/// the query as its tag, length, and NUL-terminated text.
pub fn write_message(msg: &Message) -> (out: Vec<u8>)
    requires
        spec_encodable(*msg),
    ensures
        out@ == spec_encode_message(*msg),
{
    let mut out: Vec<u8> = Vec::new();
    match msg {
        Message::MsgStartup { proto_version, params } => {
            let mut sz: usize = 9;
            let mut i: usize = 0;
            while i < params.len()
                invariant
                    i <= params.len(),
                    sz == 9 + spec_params_size(params@.take(i as int)),
                    9 + spec_params_size(params@) <= i32::MAX,
                decreases params.len() - i,
            {
                let pair = &params[i];
                proof {
                    lemma_step(params@, i as int);
                    lemma_params_size_prefix(params@, i + 1);
                }
                sz = sz + (pair.0.len() + 1 + pair.1.len() + 1);
                i = i + 1;
            }
            proof {
                assert(params@.take(params@.len() as int) =~= params@);
            }
            write_be_i32(&mut out, sz as i32);
            write_be_i32(&mut out, *proto_version);
            let ghost head = out@;
            let mut j: usize = 0;
            proof {
                assert(params@.take(0) =~= Seq::<(Vec<u8>, Vec<u8>)>::empty());
                assert(head + spec_params_bytes(params@.take(0)) =~= head);
            }
            while j < params.len()
                invariant
                    j <= params.len(),
                    out@ == head + spec_params_bytes(params@.take(j as int)),
                decreases params.len() - j,
            {
                let pair = &params[j];
                let ghost mid = out@;
                write_cstring(&mut out, &pair.0);
                write_cstring(&mut out, &pair.1);
                j = j + 1;
                proof {
                    lemma_step(params@, j - 1);
                    assert(out@ =~= head + spec_params_bytes(params@.take(j as int)));
                }
            }
            out.push(0);
            proof {
                assert(out@ =~= spec_encode_message(*msg));
            }
        },
        Message::MsgQuery { query } => {
            write_message_header(&mut out, 81, query.len() + 1);
            write_cstring(&mut out, query);
            proof {
                assert(out@ =~= spec_encode_message(*msg));
            }
        },
        _ => {
            proof {
                assert(false);
            }
        },
    }
    out
}

} // verus!
