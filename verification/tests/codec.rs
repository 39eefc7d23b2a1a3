//! Wire codec behaviour: decoding, encoding, line splitting.

use kickass_app_template::protocol::{
    decode_client_message, encode_client_message, encode_server_message, split_lines,
    ClientMessages, ServerMessages,
};

#[test]
fn client_messages_round_trip() {
    let all = [
        ClientMessages::Ping,
        ClientMessages::Pang,
        ClientMessages::Speechless,
        ClientMessages::Error,
    ];
    for m in all {
        let encoded = encode_client_message(&m);
        let decoded = decode_client_message(encoded.as_slice()).expect("must decode");
        assert_eq!(decoded, m);
    }
}

#[test]
fn client_messages_wire_text() {
    assert_eq!(encode_client_message(&ClientMessages::Ping), b"Ping".to_vec());
    assert_eq!(encode_client_message(&ClientMessages::Pang), b"Pang".to_vec());
    assert_eq!(
        encode_client_message(&ClientMessages::Speechless),
        b"Speechless".to_vec()
    );
    assert_eq!(encode_client_message(&ClientMessages::Error), b"Error".to_vec());
}

#[test]
fn unknown_line_is_returned_in_the_error() {
    let err = decode_client_message(b"Help").expect_err("must not decode");
    assert_eq!(err.line, b"Help".to_vec());
    let err = decode_client_message(b"ping").expect_err("case matters");
    assert_eq!(err.line, b"ping".to_vec());
}

#[test]
fn server_messages_wire_text() {
    assert_eq!(encode_server_message(&ServerMessages::Pong(3)), b"Pong(3)\n".to_vec());
    assert_eq!(encode_server_message(&ServerMessages::Pong(0)), b"Pong(0)\n".to_vec());
    assert_eq!(
        encode_server_message(&ServerMessages::Pong(1234567890123)),
        b"Pong(1234567890123)\n".to_vec()
    );
    assert_eq!(encode_server_message(&ServerMessages::TooBusy), b"TooBusy\n".to_vec());
    assert_eq!(
        encode_server_message(&ServerMessages::ShuttingDown),
        b"ShuttingDown\n".to_vec()
    );
    assert_eq!(
        encode_server_message(&ServerMessages::Pung(b"hello".to_vec())),
        b"Pung(\"hello\")\n".to_vec()
    );
    assert_eq!(
        encode_server_message(&ServerMessages::UnknownMessage(b"Help".to_vec())),
        b"UnknownMessage(\"Help\")\n".to_vec()
    );
    assert_eq!(
        encode_server_message(&ServerMessages::ProcessorError(b"boom".to_vec())),
        b"ProcessorError(\"boom\")\n".to_vec()
    );
}

#[test]
fn payload_escaping_keeps_lines_separable() {
    assert_eq!(
        encode_server_message(&ServerMessages::Pung(b"a\"b\\c".to_vec())),
        b"Pung(\"a\\\"b\\\\c\")\n".to_vec()
    );
    assert_eq!(
        encode_server_message(&ServerMessages::Pung(b"a\nb".to_vec())),
        b"Pung(\"a\\nb\")\n".to_vec()
    );
    assert_eq!(
        encode_server_message(&ServerMessages::Pung(b"a\r\tb".to_vec())),
        b"Pung(\"a\\r\\tb\")\n".to_vec()
    );
    assert_eq!(
        encode_server_message(&ServerMessages::UnknownMessage(vec![0x01, 0x1f, 0x7f])),
        b"UnknownMessage(\"\\u{01}\\u{1f}\\u{7f}\")\n".to_vec()
    );

    // An encoded response holds exactly one newline: its terminator.
    let line = encode_server_message(&ServerMessages::ProcessorError(b"x\ny".to_vec()));
    assert_eq!(line.iter().filter(|&&b| b == b'\n').count(), 1);
    assert_eq!(*line.last().unwrap(), b'\n');
}

#[test]
fn split_discards_empty_fragments() {
    let lines = split_lines(b"Ping\nPing\nPang\n");
    assert_eq!(lines, vec![b"Ping".to_vec(), b"Ping".to_vec(), b"Pang".to_vec()]);

    let lines = split_lines(b"\n\nPing\n\n\nPang");
    assert_eq!(lines, vec![b"Ping".to_vec(), b"Pang".to_vec()]);

    let lines = split_lines(b"");
    assert!(lines.is_empty());

    let lines = split_lines(b"\n\n\n");
    assert!(lines.is_empty());
}
