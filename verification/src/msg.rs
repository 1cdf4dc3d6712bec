//! The message catalog: every protocol message kind the codec knows, the
//! error taxonomy of a failed decode, and the mathematical views of both.
//!
//! Text fields travel on the wire as NUL-terminated byte strings; the codec
//! keeps them as owned byte vectors, with the terminator never part of the
//! value.

use vstd::prelude::*;

verus! {

/// The protocol version the startup message announces: major 3, minor 0,
/// encoded as `3 << 16`.
pub const PROTO_VERSION: i32 = 196608;

/// Why a decode failed. Any of these aborts the decode of the current
/// message; none is retried by the codec.
#[derive(Clone, Copy, Debug, PartialEq, Eq, Structural)]
pub enum DecodeError {
    /// A declared length or count is inconsistent with the bytes present.
    Framing,
    /// Fewer bytes are available than the field requires.
    Truncated,
    /// A type tag outside the dispatch table.
    UnrecognizedTag(u8),
    /// A text field that never reaches its NUL terminator.
    MalformedText,
}

/// The outcome of an authentication request, keyed on the 4-byte sub-code
/// of the `'R'` message. Unrecognized sub-codes map to `AuthUnknown`
/// rather than failing, since servers may introduce new mechanisms.
#[derive(Clone, Copy, Debug, PartialEq, Eq, Structural)]
pub enum AuthType {
    AuthUnknown,
    AuthOk,
    AuthKerberosV4,
    AuthKerberosV5,
    AuthClearTextPassword,
    /// Carries the 16-bit crypt salt that follows the sub-code.
    AuthCryptPassword(u16),
    /// Carries the 32-bit MD5 salt that follows the sub-code.
    AuthMD5Password(u32),
    AuthSCMCredential,
}

/// One result column of a row description: name, table object id, column
/// attribute number, type object id, type length (negative means
/// variable-length), type modifier, and format code (0 text, 1 binary).
#[derive(Clone, Debug, PartialEq, Eq)]
pub struct FieldInfo {
    pub name: Vec<u8>,
    pub oid: i32,
    pub attr_nr: i16,
    pub type_oid: i32,
    pub typlen: i16,
    pub atttypmod: i32,
    pub formatcode: i16,
}

/// Mathematical view of `FieldInfo`.
pub ghost struct FieldInfoV {
    pub name: Seq<u8>,
    pub oid: i32,
    pub attr_nr: i16,
    pub type_oid: i32,
    pub typlen: i16,
    pub atttypmod: i32,
    pub formatcode: i16,
}

impl View for FieldInfo {
    type V = FieldInfoV;

    open spec fn view(&self) -> FieldInfoV {
        FieldInfoV {
            name: self.name@,
            oid: self.oid,
            attr_nr: self.attr_nr,
            type_oid: self.type_oid,
            typlen: self.typlen,
            atttypmod: self.atttypmod,
            formatcode: self.formatcode,
        }
    }
}

/// The body of a notice (`'N'`) or error (`'E'`) response: a severity or
/// field-type byte, then a flat list of NUL-terminated text fields closed
/// by one final NUL byte.
#[derive(Clone, Debug, PartialEq, Eq)]
pub struct MResponseStatus {
    pub field_type: u8,
    pub field_values: Vec<Vec<u8>>,
}

/// Mathematical view of `MResponseStatus`.
pub ghost struct MResponseStatusV {
    pub field_type: u8,
    pub field_values: Seq<Seq<u8>>,
}

impl View for MResponseStatus {
    type V = MResponseStatusV;

    open spec fn view(&self) -> MResponseStatusV {
        MResponseStatusV { field_type: self.field_type, field_values: self.field_values.deep_view() }
    }
}

/// The body of a backend-key-data (`'K'`) message.
#[derive(Clone, Copy, Debug, PartialEq, Eq, Structural)]
pub struct MBackendKeyData {
    pub process_id: i32,
    pub secret_key: i32,
}

/// The body of a parameter-status (`'S'`) message: a key/value pair of text.
#[derive(Clone, Debug, PartialEq, Eq)]
pub struct MParameterStatus {
    pub key: Vec<u8>,
    pub val: Vec<u8>,
}

/// Mathematical view of `MParameterStatus`.
pub ghost struct MParameterStatusV {
    pub key: Seq<u8>,
    pub val: Seq<u8>,
}

impl View for MParameterStatus {
    type V = MParameterStatusV;

    open spec fn view(&self) -> MParameterStatusV {
        MParameterStatusV { key: self.key@, val: self.val@ }
    }
}

/// The body of a row-description (`'T'`) message: one descriptor per column.
#[derive(Clone, Debug, PartialEq, Eq)]
pub struct MRowDescription {
    pub fields: Vec<FieldInfo>,
}

/// Mathematical view of `MRowDescription`.
pub ghost struct MRowDescriptionV {
    pub fields: Seq<FieldInfoV>,
}

impl View for MRowDescription {
    type V = MRowDescriptionV;

    open spec fn view(&self) -> MRowDescriptionV {
        MRowDescriptionV { fields: Seq::new(self.fields@.len(), |i: int| self.fields@[i]@) }
    }
}

/// The body of a data-row (`'D'`) message: one nullable byte column per
/// field of the preceding row description.
#[derive(Clone, Debug, PartialEq, Eq)]
pub struct MDataRow {
    pub columns: Vec<Option<Vec<u8>>>,
}

/// Mathematical view of `MDataRow`.
pub ghost struct MDataRowV {
    pub columns: Seq<Option<Seq<u8>>>,
}

impl View for MDataRow {
    type V = MDataRowV;

    open spec fn view(&self) -> MDataRowV {
        MDataRowV { columns: self.columns.deep_view() }
    }
}

/// Every message kind the codec knows, tagged as on the wire. The startup
/// and SSL-request messages carry no leading tag byte.
#[derive(Clone, Debug, PartialEq, Eq)]
pub enum Message {
    /// `'R'`
    MsgAuthentification(AuthType),
    /// `'p'`
    MsgPassword { password: Vec<u8> },
    /// `'S'`
    MsgParameterStatus(MParameterStatus),
    /// `'K'`
    MsgBackendKeyData(MBackendKeyData),
    /// `'Z'`
    MsgReadyForQuery { backend_transaction_status_indicator: u8 },
    /// `'D'`
    MsgDataRow(MDataRow),
    /// `'C'`
    MsgCommandComplete { cmd_tag: Vec<u8> },
    /// `'I'`
    MsgEmptyQueryResponse,
    /// `'N'`
    MsgNoticeResponse(MResponseStatus),
    /// `'E'`
    MsgErrorResponse(MResponseStatus),
    /// `'G'`
    MsgCopyInResponse,
    /// `'H'`
    MsgCopyOutResponse,
    /// `'P'`, outbound only
    MsgParse { query: Vec<u8>, stmt_name: Vec<u8>, parameter_oids: Vec<i32> },
    /// `'1'`
    MsgParseComplete,
    /// `'Q'`
    MsgQuery { query: Vec<u8> },
    /// `'T'`
    MsgRowDescription(MRowDescription),
    /// `'X'`
    MsgTerminate,
    /// No tag byte: length, protocol version, then key/value text pairs.
    MsgStartup { proto_version: i32, params: Vec<(Vec<u8>, Vec<u8>)> },
    /// No tag byte: length, then the SSL request code.
    MsgSSLRequest { ssl_request_code: i32 },
}

/// Mathematical view of `Message`.
pub ghost enum MessageV {
    MsgAuthentification(AuthType),
    MsgPassword { password: Seq<u8> },
    MsgParameterStatus(MParameterStatusV),
    MsgBackendKeyData(MBackendKeyData),
    MsgReadyForQuery { backend_transaction_status_indicator: u8 },
    MsgDataRow(MDataRowV),
    MsgCommandComplete { cmd_tag: Seq<u8> },
    MsgEmptyQueryResponse,
    MsgNoticeResponse(MResponseStatusV),
    MsgErrorResponse(MResponseStatusV),
    MsgCopyInResponse,
    MsgCopyOutResponse,
    MsgParse { query: Seq<u8>, stmt_name: Seq<u8>, parameter_oids: Seq<i32> },
    MsgParseComplete,
    MsgQuery { query: Seq<u8> },
    MsgRowDescription(MRowDescriptionV),
    MsgTerminate,
    MsgStartup { proto_version: i32, params: Seq<(Seq<u8>, Seq<u8>)> },
    MsgSSLRequest { ssl_request_code: i32 },
}

impl View for Message {
    type V = MessageV;

    open spec fn view(&self) -> MessageV {
        match self {
            Message::MsgAuthentification(a) => MessageV::MsgAuthentification(*a),
            Message::MsgPassword { password } => MessageV::MsgPassword { password: password@ },
            Message::MsgParameterStatus(m) => MessageV::MsgParameterStatus(m@),
            Message::MsgBackendKeyData(m) => MessageV::MsgBackendKeyData(*m),
            Message::MsgReadyForQuery { backend_transaction_status_indicator } => {
                MessageV::MsgReadyForQuery {
                    backend_transaction_status_indicator: *backend_transaction_status_indicator,
                }
            },
            Message::MsgDataRow(m) => MessageV::MsgDataRow(m@),
            Message::MsgCommandComplete { cmd_tag } => {
                MessageV::MsgCommandComplete { cmd_tag: cmd_tag@ }
            },
            Message::MsgEmptyQueryResponse => MessageV::MsgEmptyQueryResponse,
            Message::MsgNoticeResponse(m) => MessageV::MsgNoticeResponse(m@),
            Message::MsgErrorResponse(m) => MessageV::MsgErrorResponse(m@),
            Message::MsgCopyInResponse => MessageV::MsgCopyInResponse,
            Message::MsgCopyOutResponse => MessageV::MsgCopyOutResponse,
            Message::MsgParse { query, stmt_name, parameter_oids } => {
                MessageV::MsgParse {
                    query: query@,
                    stmt_name: stmt_name@,
                    parameter_oids: parameter_oids@,
                }
            },
            Message::MsgParseComplete => MessageV::MsgParseComplete,
            Message::MsgQuery { query } => MessageV::MsgQuery { query: query@ },
            Message::MsgRowDescription(m) => MessageV::MsgRowDescription(m@),
            Message::MsgTerminate => MessageV::MsgTerminate,
            Message::MsgStartup { proto_version, params } => {
                MessageV::MsgStartup {
                    proto_version: *proto_version,
                    params: Seq::new(params@.len(), |i: int| (params@[i].0@, params@[i].1@)),
                }
            },
            Message::MsgSSLRequest { ssl_request_code } => {
                MessageV::MsgSSLRequest { ssl_request_code: *ssl_request_code }
            },
        }
    }
}

/// Whether the session driver's read loop stops at this message: the
/// backend signals with ready-for-query that the current exchange is over.
pub fn is_ready_for_query(m: &Message) -> (r: bool)
    ensures
        r <==> m is MsgReadyForQuery,
{
    match m {
        Message::MsgReadyForQuery { .. } => true,
        _ => false,
    }
}

} // verus!
