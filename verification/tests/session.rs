//! The half-duplex exchange a session driver runs: write a request, then
//! read framed responses until ready-for-query hands control back.

use pgcodec::encode::{message_encodable, write_message};
use pgcodec::msg::{is_ready_for_query, AuthType, Message, PROTO_VERSION};
use pgcodec::parse::{payload_size, read_message};

#[test]
fn startup_exchange_terminates_on_ready_for_query() {
    // The client frames its startup message.
    let msg = Message::MsgStartup {
        proto_version: PROTO_VERSION,
        params: vec![
            (b"user".to_vec(), b"foo".to_vec()),
            (b"database".to_vec(), b"bar".to_vec()),
        ],
    };
    assert!(message_encodable(&msg));
    let written = write_message(&msg);
    // The startup frame's length field counts the whole frame.
    let declared = i32::from_be_bytes([written[0], written[1], written[2], written[3]]);
    assert_eq!(declared as usize, written.len());

    // The peer echoes Authentication(Ok), then ReadyForQuery(idle).
    let mut stream: Vec<u8> = Vec::new();
    stream.extend_from_slice(&[b'R', 0, 0, 0, 8, 0, 0, 0, 0]);
    stream.extend_from_slice(&[b'Z', 0, 0, 0, 5, 0x49]);

    // The driver loop: read a frame, decode it, stop at ready-for-query.
    let mut pos = 0usize;
    let mut seen: Vec<Message> = Vec::new();
    loop {
        let tag = stream[pos];
        let declared = i32::from_be_bytes([
            stream[pos + 1],
            stream[pos + 2],
            stream[pos + 3],
            stream[pos + 4],
        ]);
        let n = payload_size(declared).unwrap();
        let payload = stream[pos + 5..pos + 5 + n].to_vec();
        pos += 5 + n;
        let m = read_message(tag, payload).unwrap();
        let done = is_ready_for_query(&m);
        seen.push(m);
        if done {
            break;
        }
    }
    assert_eq!(pos, stream.len());
    assert_eq!(seen.len(), 2);
    assert_eq!(seen[0], Message::MsgAuthentification(AuthType::AuthOk));
    assert_eq!(
        seen[1],
        Message::MsgReadyForQuery { backend_transaction_status_indicator: 0x49 }
    );
}
