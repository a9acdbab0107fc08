use vrc_stt::osc::{chatbox_input_packet, chatbox_typing_packet, encode_message, OscArg};

#[test]
fn typing_packet_bytes() {
    assert_eq!(chatbox_typing_packet(true), b"/chatbox/typing\0,T\0\0".to_vec());
    assert_eq!(chatbox_typing_packet(false), b"/chatbox/typing\0,F\0\0".to_vec());
}

#[test]
fn input_packet_bytes() {
    let expected = b"/chatbox/input\0\0,sTF\0\0\0\0hi\0\0".to_vec();
    assert_eq!(chatbox_input_packet("hi"), expected);
}

#[test]
fn input_packet_pads_strings_to_four_bytes() {
    let packet = chatbox_input_packet("abcd");
    assert_eq!(packet.len(), 16 + 8 + 8);
    assert_eq!(&packet[24..], b"abcd\0\0\0\0");
}

#[test]
fn input_packet_encodes_utf8() {
    let packet = chatbox_input_packet("é");
    assert_eq!(&packet[24..], &[0xc3, 0xa9, 0, 0]);
}

#[test]
fn encoding_matches_rosc_decoding() {
    let bytes = encode_message("/a/b", &[OscArg::Str("x".to_string()), OscArg::Bool(false)]);
    let (_, packet) = rosc::decoder::decode_udp(&bytes).unwrap();
    match packet {
        rosc::OscPacket::Message(m) => {
            assert_eq!(m.addr, "/a/b");
            assert_eq!(m.args, vec![rosc::OscType::String("x".to_string()), rosc::OscType::Bool(false)]);
        }
        _ => panic!("expected a message"),
    }
}
