//! Behavior of the codec on concrete wire bytes: framing, every message
//! kind in the dispatch table, the authentication sub-codes, and the
//! encoders' exact output.

use pgcodec::cursor::Decoder;
use pgcodec::encode::{message_encodable, write_cstring, write_message, write_message_header};
use pgcodec::msg::{
    AuthType, DecodeError, MBackendKeyData, Message, PROTO_VERSION,
};
use pgcodec::parse::{
    decode_data_row, decode_response_status, parse_auth_message, payload_size, read_message,
};

fn startup(params: Vec<(Vec<u8>, Vec<u8>)>) -> Message {
    Message::MsgStartup { proto_version: PROTO_VERSION, params }
}

#[test]
fn startup_round_trip_header() {
    let params = vec![
        (b"user".to_vec(), b"alice".to_vec()),
        (b"database".to_vec(), b"test".to_vec()),
    ];
    let msg = startup(params);
    assert!(message_encodable(&msg));
    let out = write_message(&msg);
    // 8 + 1 + (4+1+5+1) + (8+1+4+1)
    let expected_len = 8 + 1 + (4 + 1 + 5 + 1) + (8 + 1 + 4 + 1);
    assert_eq!(out.len() as i32, expected_len);
    let declared = i32::from_be_bytes([out[0], out[1], out[2], out[3]]);
    assert_eq!(declared, expected_len);
    let version = i32::from_be_bytes([out[4], out[5], out[6], out[7]]);
    assert_eq!(version, 196608);
    assert_eq!(&out[8..33], b"user\0alice\0database\0test\0");
    assert_eq!(out[33], 0);
}

#[test]
fn startup_empty_params() {
    let msg = startup(vec![]);
    assert!(message_encodable(&msg));
    let out = write_message(&msg);
    assert_eq!(out.len(), 9);
    assert_eq!(i32::from_be_bytes([out[0], out[1], out[2], out[3]]), 9);
    assert_eq!(out[8], 0);
}

#[test]
fn query_encoding_exact() {
    let msg = Message::MsgQuery { query: b"select 1".to_vec() };
    assert!(message_encodable(&msg));
    let out = write_message(&msg);
    assert_eq!(out[0], b'Q');
    // length counts itself and the NUL, not the tag: 8 + 1 + 4
    assert_eq!(i32::from_be_bytes([out[1], out[2], out[3], out[4]]), 13);
    assert_eq!(&out[5..13], b"select 1");
    assert_eq!(out[13], 0);
    assert_eq!(out.len(), 14);
}

#[test]
fn unsupported_outbound_kinds() {
    assert!(!message_encodable(&Message::MsgTerminate));
    assert!(!message_encodable(&Message::MsgEmptyQueryResponse));
    assert!(!message_encodable(&Message::MsgPassword { password: b"pw".to_vec() }));
}

#[test]
fn write_cstring_appends_terminator() {
    let mut out = vec![7u8];
    write_cstring(&mut out, &b"abc".to_vec());
    assert_eq!(out, vec![7u8, b'a', b'b', b'c', 0]);
}

#[test]
fn write_message_header_layout() {
    let mut out = Vec::new();
    write_message_header(&mut out, b'X', 0);
    assert_eq!(out, vec![b'X', 0, 0, 0, 4]);
}

#[test]
fn header_length_below_minimum_fails() {
    // A declared length of 3 is less than the 4 bytes the field itself
    // occupies: the decode fails before any payload byte is read.
    assert_eq!(payload_size(3), Err(DecodeError::Framing));
    assert_eq!(payload_size(-1), Err(DecodeError::Framing));
    assert_eq!(payload_size(4), Ok(0));
    assert_eq!(payload_size(9), Ok(5));
}

#[test]
fn auth_ok_consumes_exactly_four_bytes() {
    let mut d = Decoder::new(vec![0, 0, 0, 0]);
    assert_eq!(parse_auth_message(&mut d), Ok(AuthType::AuthOk));
    assert_eq!(d.get_remaining_bytes(), 0);
}

#[test]
fn auth_md5_carries_salt() {
    let mut d = Decoder::new(vec![0, 0, 0, 5, 0x01, 0x02, 0x03, 0x04]);
    assert_eq!(parse_auth_message(&mut d), Ok(AuthType::AuthMD5Password(0x01020304)));
    assert_eq!(d.get_remaining_bytes(), 0);
}

#[test]
fn auth_crypt_carries_salt() {
    let mut d = Decoder::new(vec![0, 0, 0, 4, 0xab, 0xcd]);
    assert_eq!(parse_auth_message(&mut d), Ok(AuthType::AuthCryptPassword(0xabcd)));
    assert_eq!(d.get_remaining_bytes(), 0);
}

#[test]
fn auth_unknown_reads_no_further_bytes() {
    let mut d = Decoder::new(vec![0, 0, 0, 99, 7, 7]);
    assert_eq!(parse_auth_message(&mut d), Ok(AuthType::AuthUnknown));
    assert_eq!(d.get_remaining_bytes(), 2);
}

#[test]
fn auth_legacy_mechanisms() {
    for (code, expect) in [
        (1u8, AuthType::AuthKerberosV4),
        (2, AuthType::AuthKerberosV5),
        (3, AuthType::AuthClearTextPassword),
        (6, AuthType::AuthSCMCredential),
    ] {
        let mut d = Decoder::new(vec![0, 0, 0, code]);
        assert_eq!(parse_auth_message(&mut d), Ok(expect));
        assert_eq!(d.get_remaining_bytes(), 0);
    }
}

#[test]
fn auth_salt_truncated() {
    let mut d = Decoder::new(vec![0, 0, 0, 5, 1, 2]);
    assert_eq!(parse_auth_message(&mut d), Err(DecodeError::Truncated));
}

#[test]
fn response_status_consumes_declared_length_exactly() {
    let mut payload = vec![b'E'];
    payload.extend_from_slice(b"ERROR\0syntax error\0\0");
    let mut d = Decoder::new(payload);
    let m = decode_response_status(&mut d).unwrap();
    assert_eq!(m.field_type, b'E');
    assert_eq!(m.field_values, vec![b"ERROR".to_vec(), b"syntax error".to_vec()]);
    assert_eq!(d.get_remaining_bytes(), 0);
}

#[test]
fn response_status_budget_mismatch_fails() {
    // After the text fields, the byte where the final NUL must stand is
    // not zero: a framing violation, not a silent truncation.
    let mut d = Decoder::new(vec![b'E', b'x', 0, 0, 9]);
    assert_eq!(decode_response_status(&mut d), Err(DecodeError::Framing));
}

#[test]
fn response_status_empty_payload_fails() {
    let mut d = Decoder::new(vec![]);
    assert_eq!(decode_response_status(&mut d), Err(DecodeError::Truncated));
}

#[test]
fn data_row_preserves_count_and_order() {
    // count 3: NULL, empty, and two bytes
    let payload = vec![
        0, 3, // count
        0xff, 0xff, 0xff, 0xff, // -1: no value
        0, 0, 0, 0, // empty value
        0, 0, 0, 2, 0xaa, 0xbb, // two bytes
    ];
    let mut d = Decoder::new(payload);
    let row = decode_data_row(&mut d).unwrap();
    assert_eq!(row.columns.len(), 3);
    assert_eq!(row.columns[0], None);
    assert_eq!(row.columns[1], Some(vec![]));
    assert_eq!(row.columns[2], Some(vec![0xaa, 0xbb]));
    assert_eq!(d.get_remaining_bytes(), 0);
}

#[test]
fn data_row_negative_count_is_framing_violation() {
    // A count of -1 is malformed: it is not the nullable-bytes sentinel,
    // which is a distinct 32-bit field.
    let mut d = Decoder::new(vec![0xff, 0xff]);
    assert_eq!(decode_data_row(&mut d), Err(DecodeError::Framing));
}

#[test]
fn nullable_bytes_cases() {
    // -1: no value
    let mut d = Decoder::new(vec![0xff, 0xff, 0xff, 0xff]);
    assert_eq!(d.read_nullable_bytes(), Ok(None));
    assert_eq!(d.get_remaining_bytes(), 0);
    // 0: empty value
    let mut d = Decoder::new(vec![0, 0, 0, 0]);
    assert_eq!(d.read_nullable_bytes(), Ok(Some(vec![])));
    // k > 0: k bytes
    let mut d = Decoder::new(vec![0, 0, 0, 3, 1, 2, 3]);
    assert_eq!(d.read_nullable_bytes(), Ok(Some(vec![1, 2, 3])));
    // -2: malformed
    let mut d = Decoder::new(vec![0xff, 0xff, 0xff, 0xfe]);
    assert_eq!(d.read_nullable_bytes(), Err(DecodeError::Framing));
    // length larger than what follows: truncated
    let mut d = Decoder::new(vec![0, 0, 0, 5, 1, 2]);
    assert_eq!(d.read_nullable_bytes(), Err(DecodeError::Truncated));
}

#[test]
fn read_message_authentication() {
    let m = read_message(b'R', vec![0, 0, 0, 0]).unwrap();
    assert_eq!(m, Message::MsgAuthentification(AuthType::AuthOk));
}

#[test]
fn read_message_parameter_status() {
    let m = read_message(b'S', b"client_encoding\0UTF8\0".to_vec()).unwrap();
    match m {
        Message::MsgParameterStatus(ps) => {
            assert_eq!(ps.key, b"client_encoding".to_vec());
            assert_eq!(ps.val, b"UTF8".to_vec());
        }
        other => panic!("unexpected message: {:?}", other),
    }
}

#[test]
fn read_message_backend_key_data() {
    let m = read_message(b'K', vec![0, 0, 0, 1, 0, 0, 0, 2]).unwrap();
    assert_eq!(
        m,
        Message::MsgBackendKeyData(MBackendKeyData { process_id: 1, secret_key: 2 })
    );
}

#[test]
fn read_message_backend_key_data_truncated() {
    assert_eq!(
        read_message(b'K', vec![0, 0, 0, 1, 0]),
        Err(DecodeError::Truncated)
    );
}

#[test]
fn read_message_ready_for_query() {
    let m = read_message(b'Z', vec![0x49]).unwrap();
    assert_eq!(
        m,
        Message::MsgReadyForQuery { backend_transaction_status_indicator: 0x49 }
    );
}

#[test]
fn read_message_command_complete() {
    let m = read_message(b'C', b"SELECT 1\0".to_vec()).unwrap();
    assert_eq!(m, Message::MsgCommandComplete { cmd_tag: b"SELECT 1".to_vec() });
}

#[test]
fn read_message_command_complete_unterminated() {
    assert_eq!(
        read_message(b'C', b"SELECT 1".to_vec()),
        Err(DecodeError::MalformedText)
    );
}

#[test]
fn read_message_password_and_query() {
    assert_eq!(
        read_message(b'p', b"secret\0".to_vec()).unwrap(),
        Message::MsgPassword { password: b"secret".to_vec() }
    );
    assert_eq!(
        read_message(b'Q', b"select 2\0".to_vec()).unwrap(),
        Message::MsgQuery { query: b"select 2".to_vec() }
    );
}

#[test]
fn read_message_empty_body_kinds() {
    assert_eq!(read_message(b'I', vec![]).unwrap(), Message::MsgEmptyQueryResponse);
    assert_eq!(read_message(b'G', vec![]).unwrap(), Message::MsgCopyInResponse);
    assert_eq!(read_message(b'H', vec![]).unwrap(), Message::MsgCopyOutResponse);
    assert_eq!(read_message(b'1', vec![]).unwrap(), Message::MsgParseComplete);
    assert_eq!(read_message(b'X', vec![]).unwrap(), Message::MsgTerminate);
}

#[test]
fn read_message_row_description() {
    let mut payload = vec![0, 1]; // one field
    payload.extend_from_slice(b"id\0");
    payload.extend_from_slice(&1i32.to_be_bytes()); // table oid
    payload.extend_from_slice(&2i16.to_be_bytes()); // attribute number
    payload.extend_from_slice(&23i32.to_be_bytes()); // type oid
    payload.extend_from_slice(&4i16.to_be_bytes()); // type length
    payload.extend_from_slice(&(-1i32).to_be_bytes()); // type modifier
    payload.extend_from_slice(&0i16.to_be_bytes()); // format code
    let m = read_message(b'T', payload).unwrap();
    match m {
        Message::MsgRowDescription(rd) => {
            assert_eq!(rd.fields.len(), 1);
            let f = &rd.fields[0];
            assert_eq!(f.name, b"id".to_vec());
            assert_eq!(f.oid, 1);
            assert_eq!(f.attr_nr, 2);
            assert_eq!(f.type_oid, 23);
            assert_eq!(f.typlen, 4);
            assert_eq!(f.atttypmod, -1);
            assert_eq!(f.formatcode, 0);
        }
        other => panic!("unexpected message: {:?}", other),
    }
}

#[test]
fn read_message_notice_response() {
    let m = read_message(b'N', b"Nhello\0\0".to_vec()).unwrap();
    match m {
        Message::MsgNoticeResponse(rs) => {
            assert_eq!(rs.field_type, b'N');
            assert_eq!(rs.field_values, vec![b"hello".to_vec()]);
        }
        other => panic!("unexpected message: {:?}", other),
    }
}

#[test]
fn read_message_unrecognized_tags() {
    assert_eq!(
        read_message(b'P', vec![]),
        Err(DecodeError::UnrecognizedTag(b'P'))
    );
    assert_eq!(read_message(0xee, vec![]), Err(DecodeError::UnrecognizedTag(0xee)));
}
