use share_feed::codec::{decode_client_frame, ClientFrame, DecodeError};
use share_feed::frames::{
    decode_server_frame, encode_all_feed, encode_created, encode_deleted, ServerFrame,
};
use share_feed::msg::{Msg, MsgType, MSG_T_FILE, MSG_T_TEXT};

fn text_frame(opcode: u8, text: &[u8]) -> Vec<u8> {
    let mut frame = vec![opcode];
    frame.extend_from_slice(&(text.len() as i32).to_le_bytes());
    frame.extend_from_slice(text);
    frame
}

fn file_frame(name: &[u8], data: &[u8]) -> Vec<u8> {
    let mut frame = text_frame(4, name);
    frame.extend_from_slice(&(data.len() as i32).to_le_bytes());
    frame.extend_from_slice(data);
    frame
}

#[test]
fn kind_codes_are_one_and_two() {
    assert_eq!(MSG_T_TEXT, 1);
    assert_eq!(MSG_T_FILE, 2);
    assert_eq!(MsgType::Text.code(), 1);
    assert_eq!(MsgType::File.code(), 2);
    assert_eq!(MsgType::from_code(1), Some(MsgType::Text));
    assert_eq!(MsgType::from_code(2), Some(MsgType::File));
    assert_eq!(MsgType::from_code(0), None);
    assert_eq!(MsgType::from_code(3), None);
    assert_eq!(MsgType::from_code(-1), None);
}

#[test]
fn deleted_frame_is_opcode_tag_and_id() {
    assert_eq!(encode_deleted(5), vec![63, 4, 0, 0, 0, 5, 0, 0, 0]);
}

#[test]
fn negative_id_is_twos_complement_little_endian() {
    assert_eq!(encode_deleted(-2), vec![63, 4, 0, 0, 0, 0xfe, 0xff, 0xff, 0xff]);
    assert_eq!(
        encode_deleted(0x0809_a0a1),
        vec![63, 4, 0, 0, 0, 0xa1, 0xa0, 0x09, 0x08]
    );
    assert_eq!(
        encode_deleted(i32::MIN),
        vec![63, 4, 0, 0, 0, 0x00, 0x00, 0x00, 0x80]
    );
}

#[test]
fn created_frame_lays_out_tagged_fields_then_text() {
    let entry = Msg::at(1, MsgType::Text, String::from("hi"), 0);
    assert_eq!(
        encode_created(Some(&entry)),
        vec![62, 4, 0, 0, 0, 1, 0, 0, 0, 4, 0, 0, 0, 1, 0, 0, 0, 2, 0, 0, 0, b'h', b'i']
    );
}

#[test]
fn created_frame_of_a_missing_entry_is_the_bare_opcode() {
    assert_eq!(encode_created(None), vec![62]);
    match decode_server_frame(vec![62]) {
        Ok(ServerFrame::Created(None)) => {}
        other => panic!("unexpected: {:?}", other),
    }
}

#[test]
fn text_length_counts_bytes_not_characters() {
    let entry = Msg::at(7, MsgType::File, String::from("é.txt"), 0);
    let frame = encode_created(Some(&entry));
    assert_eq!(&frame[17..21], &[6, 0, 0, 0]);
    assert_eq!(&frame[21..], "é.txt".as_bytes());
}

#[test]
fn all_feed_frame_of_nothing_is_the_bare_opcode() {
    assert_eq!(encode_all_feed(&Vec::new()), vec![61]);
}

#[test]
fn all_feed_frame_holds_entries_in_order() {
    let entries = vec![
        Msg::at(1, MsgType::File, String::from("a"), 10),
        Msg::at(2, MsgType::Text, String::from("bc"), 20),
    ];
    assert_eq!(
        encode_all_feed(&entries),
        vec![
            61, 4, 0, 0, 0, 1, 0, 0, 0, 4, 0, 0, 0, 2, 0, 0, 0, 1, 0, 0, 0, b'a', 4, 0, 0, 0, 2,
            0, 0, 0, 4, 0, 0, 0, 1, 0, 0, 0, 2, 0, 0, 0, b'b', b'c'
        ]
    );
}

#[test]
fn created_round_trip_keeps_id_kind_and_text() {
    for (id, kind, text) in [
        (1, MsgType::Text, "hello"),
        (2, MsgType::File, "a.txt"),
        (-7, MsgType::Text, ""),
        (i32::MAX, MsgType::File, "señal ☂ 🎈.bin"),
    ] {
        let entry = Msg::at(id, kind, String::from(text), 99);
        match decode_server_frame(encode_created(Some(&entry))) {
            Ok(ServerFrame::Created(Some(got))) => {
                assert_eq!(got.id, id);
                assert_eq!(got.msg_type, kind);
                assert_eq!(got.text, text);
            }
            other => panic!("unexpected: {:?}", other),
        }
    }
}

#[test]
fn all_feed_round_trip_keeps_every_entry() {
    let entries = vec![
        Msg::at(1, MsgType::File, String::from("a.txt"), 10),
        Msg::at(2, MsgType::File, String::from("b.txt"), 20),
        Msg::at(5, MsgType::Text, String::from("hello"), 30),
    ];
    match decode_server_frame(encode_all_feed(&entries)) {
        Ok(ServerFrame::AllFeed(got)) => {
            assert_eq!(got.len(), 3);
            for (g, e) in got.iter().zip(entries.iter()) {
                assert_eq!(g.id, e.id);
                assert_eq!(g.msg_type, e.msg_type);
                assert_eq!(g.text, e.text);
            }
        }
        other => panic!("unexpected: {:?}", other),
    }
}

#[test]
fn deleted_round_trip_keeps_the_id() {
    match decode_server_frame(encode_deleted(-12345)) {
        Ok(ServerFrame::Deleted(id)) => assert_eq!(id, -12345),
        other => panic!("unexpected: {:?}", other),
    }
}

#[test]
fn server_frame_errors() {
    assert!(matches!(decode_server_frame(vec![]), Err(DecodeError::Truncated)));
    assert!(matches!(decode_server_frame(vec![1]), Err(DecodeError::BadOpcode)));
    assert!(matches!(decode_server_frame(vec![64]), Err(DecodeError::BadOpcode)));
    assert!(matches!(
        decode_server_frame(vec![63, 4, 0, 0, 0, 1, 0]),
        Err(DecodeError::Truncated)
    ));
    assert!(matches!(
        decode_server_frame(vec![63, 5, 0, 0, 0, 1, 0, 0, 0]),
        Err(DecodeError::BadTag)
    ));
    assert!(matches!(
        decode_server_frame(vec![
            62, 4, 0, 0, 0, 1, 0, 0, 0, 4, 0, 0, 0, 3, 0, 0, 0, 0, 0, 0, 0
        ]),
        Err(DecodeError::BadKind)
    ));
    assert!(matches!(
        decode_server_frame(vec![
            61, 4, 0, 0, 0, 1, 0, 0, 0, 4, 0, 0, 0, 1, 0, 0, 0, 2, 0, 0, 0, b'h'
        ]),
        Err(DecodeError::Truncated)
    ));
    assert!(matches!(
        decode_server_frame(vec![
            61, 4, 0, 0, 0, 1, 0, 0, 0, 4, 0, 0, 0, 1, 0, 0, 0, 1, 0, 0, 0, 0xff
        ]),
        Err(DecodeError::InvalidText)
    ));
    assert!(matches!(
        decode_server_frame(vec![
            61, 4, 0, 0, 0, 1, 0, 0, 0, 4, 0, 0, 0, 1, 0, 0, 0, 0xff, 0xff, 0xff, 0xff
        ]),
        Err(DecodeError::NegativeLength)
    ));
}

#[test]
fn query_all_needs_only_its_opcode() {
    assert!(matches!(decode_client_frame(vec![1]), Ok(ClientFrame::QueryAll)));
    assert!(matches!(decode_client_frame(vec![1, 9, 9]), Ok(ClientFrame::QueryAll)));
}

#[test]
fn query_single_reads_a_little_endian_id() {
    match decode_client_frame(vec![2, 0xa1, 0xa0, 0x09, 0x08]) {
        Ok(ClientFrame::QuerySingle { id }) => assert_eq!(id, 0x0809_a0a1),
        other => panic!("unexpected: {:?}", other),
    }
    match decode_client_frame(vec![2, 0xff, 0xff, 0xff, 0xff]) {
        Ok(ClientFrame::QuerySingle { id }) => assert_eq!(id, -1),
        other => panic!("unexpected: {:?}", other),
    }
}

#[test]
fn send_text_reads_exactly_the_announced_bytes() {
    let mut frame = text_frame(3, b"hello");
    frame.extend_from_slice(b"trailing");
    match decode_client_frame(frame) {
        Ok(ClientFrame::SendText { text }) => assert_eq!(text, "hello"),
        other => panic!("unexpected: {:?}", other),
    }
    match decode_client_frame(text_frame(3, b"")) {
        Ok(ClientFrame::SendText { text }) => assert_eq!(text, ""),
        other => panic!("unexpected: {:?}", other),
    }
}

#[test]
fn send_file_reads_name_and_data() {
    match decode_client_frame(file_frame("r\u{e9}sum\u{e9}.pdf".as_bytes(), &[0, 1, 2, 255])) {
        Ok(ClientFrame::SendFile { name, data }) => {
            assert_eq!(name, "r\u{e9}sum\u{e9}.pdf");
            assert_eq!(data, vec![0, 1, 2, 255]);
        }
        other => panic!("unexpected: {:?}", other),
    }
}

#[test]
fn unknown_opcode_is_no_error() {
    match decode_client_frame(vec![0]) {
        Ok(ClientFrame::Unknown { opcode }) => assert_eq!(opcode, 0),
        other => panic!("unexpected: {:?}", other),
    }
    match decode_client_frame(vec![200, 1, 2, 3]) {
        Ok(ClientFrame::Unknown { opcode }) => assert_eq!(opcode, 200),
        other => panic!("unexpected: {:?}", other),
    }
    match decode_client_frame(vec![61]) {
        Ok(ClientFrame::Unknown { opcode }) => assert_eq!(opcode, 61),
        other => panic!("unexpected: {:?}", other),
    }
}

#[test]
fn empty_message_is_truncated() {
    assert!(matches!(decode_client_frame(vec![]), Err(DecodeError::Truncated)));
}

#[test]
fn short_fields_are_truncated() {
    assert!(matches!(decode_client_frame(vec![2]), Err(DecodeError::Truncated)));
    assert!(matches!(decode_client_frame(vec![2, 1, 0, 0]), Err(DecodeError::Truncated)));
    assert!(matches!(decode_client_frame(vec![3, 5, 0]), Err(DecodeError::Truncated)));
    assert!(matches!(
        decode_client_frame(vec![3, 5, 0, 0, 0, b'h', b'e', b'l', b'l']),
        Err(DecodeError::Truncated)
    ));
    assert!(matches!(
        decode_client_frame(vec![3, 0xff, 0xff, 0xff, 0x7f, b'x']),
        Err(DecodeError::Truncated)
    ));
    let mut no_data_len = text_frame(4, b"a.txt");
    assert!(matches!(
        decode_client_frame(no_data_len.clone()),
        Err(DecodeError::Truncated)
    ));
    no_data_len.extend_from_slice(&[3, 0, 0, 0, 1, 2]);
    assert!(matches!(decode_client_frame(no_data_len), Err(DecodeError::Truncated)));
}

#[test]
fn negative_lengths_are_refused() {
    assert!(matches!(
        decode_client_frame(vec![3, 0xff, 0xff, 0xff, 0xff, b'x']),
        Err(DecodeError::NegativeLength)
    ));
    assert!(matches!(
        decode_client_frame(vec![4, 0, 0, 0, 0x80]),
        Err(DecodeError::NegativeLength)
    ));
    let mut frame = text_frame(4, b"a");
    frame.extend_from_slice(&[0xfe, 0xff, 0xff, 0xff]);
    assert!(matches!(decode_client_frame(frame), Err(DecodeError::NegativeLength)));
}

#[test]
fn ill_formed_text_is_refused() {
    assert!(matches!(
        decode_client_frame(text_frame(3, &[0xff, 0xfe])),
        Err(DecodeError::InvalidText)
    ));
    assert!(matches!(
        decode_client_frame(text_frame(3, &[0xc0, 0x80])),
        Err(DecodeError::InvalidText)
    ));
    assert!(matches!(
        decode_client_frame(text_frame(3, &[0xed, 0xa0, 0x80])),
        Err(DecodeError::InvalidText)
    ));
    assert!(matches!(
        decode_client_frame(file_frame(&[b'a', 0x80], b"data")),
        Err(DecodeError::InvalidText)
    ));
}

#[test]
fn file_data_need_not_be_text() {
    match decode_client_frame(file_frame(b"blob", &[0xff, 0xfe, 0x00])) {
        Ok(ClientFrame::SendFile { name, data }) => {
            assert_eq!(name, "blob");
            assert_eq!(data, vec![0xff, 0xfe, 0x00]);
        }
        other => panic!("unexpected: {:?}", other),
    }
}
