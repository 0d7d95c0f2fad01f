use ethtool::{
    DecodeError, DefaultNla, EthtoolAttr, EthtoolChannelAttr, EthtoolCmd, EthtoolHeader,
    EthtoolMessage, NlaCodec,
};

// Round trip: an encodable message decodes from its own bytes back to
// itself.
#[test]
fn test_channel_reply_round_trip() {
    let msg = EthtoolMessage {
        cmd: EthtoolCmd::ChannelGetReply,
        nlas: vec![
            EthtoolAttr::Channel(EthtoolChannelAttr::Header(vec![
                EthtoolHeader::DevIndex(3),
                EthtoolHeader::DevName("enp0s1".to_string()),
                EthtoolHeader::Flags(0x1),
            ])),
            EthtoolAttr::Channel(EthtoolChannelAttr::RxMax(8)),
            EthtoolAttr::Channel(EthtoolChannelAttr::TxMax(8)),
            EthtoolAttr::Channel(EthtoolChannelAttr::OtherMax(1)),
            EthtoolAttr::Channel(EthtoolChannelAttr::CombinedMax(16)),
            EthtoolAttr::Channel(EthtoolChannelAttr::RxCount(4)),
            EthtoolAttr::Channel(EthtoolChannelAttr::TxCount(4)),
            EthtoolAttr::Channel(EthtoolChannelAttr::OtherCount(1)),
            EthtoolAttr::Channel(EthtoolChannelAttr::CombinedCount(2)),
        ],
    };
    let mut raw = Vec::new();
    msg.emit(&mut raw);
    let decoded = EthtoolMessage::parse_with_param(&raw, 18).unwrap();
    assert_eq!(msg, decoded);
}

// A single attribute decodes back from its own type code and value.
#[test]
fn test_channel_attr_round_trip() {
    let attr = EthtoolChannelAttr::RxCount(7);
    let mut value = Vec::new();
    attr.emit_value(&mut value);
    assert_eq!(value, vec![7, 0, 0, 0]);
    let back = EthtoolChannelAttr::parse(attr.kind(), &value).unwrap();
    assert_eq!(attr, back);
}

// Pass-through fidelity: an attribute of an unknown type code keeps its
// exact code and payload through decode and re-encode.
#[test]
fn test_unknown_attr_pass_through() {
    let nla = DefaultNla { kind: 0x4123, value: vec![0xde, 0xad, 0xbe] };
    let msg = EthtoolMessage {
        cmd: EthtoolCmd::ChannelGetReply,
        nlas: vec![EthtoolAttr::Channel(EthtoolChannelAttr::Other(nla))],
    };
    let mut raw = Vec::new();
    msg.emit(&mut raw);
    // 4-byte header, 3 payload bytes, 1 padding byte
    assert_eq!(raw.len(), 8);
    let decoded = EthtoolMessage::parse_with_param(&raw, 18).unwrap();
    assert_eq!(msg, decoded);
    let mut again = Vec::new();
    decoded.emit(&mut again);
    assert_eq!(raw, again);
}

// Iterator safety: malformed record lengths decode to errors, never
// out-of-bounds reads or panics.
#[test]
fn test_malformed_records() {
    // Empty buffer: no records at all.
    let empty = EthtoolMessage::parse_with_param(&[], 18).unwrap();
    assert_eq!(empty.nlas.len(), 0);
    // Fewer bytes than a record header.
    assert_eq!(
        EthtoolMessage::parse_with_param(&[0x05], 18),
        Err(DecodeError::NlaBufferTooSmall { buffer_len: 1 }),
    );
    // A record that declares more bytes than remain.
    assert_eq!(
        EthtoolMessage::parse_with_param(&[0x08, 0x00, 0x01, 0x00], 18),
        Err(DecodeError::NlaLengthMismatch { buffer_len: 4, nla_len: 8 }),
    );
    // A record that declares fewer bytes than its own header.
    assert_eq!(
        EthtoolMessage::parse_with_param(&[0x02, 0x00, 0x01, 0x00], 18),
        Err(DecodeError::NlaInvalidLength { nla_len: 2 }),
    );
}

// A truncated counter payload names the expected and received sizes.
#[test]
fn test_bad_counter_payload() {
    // kind 6 (rx count) with a 3-byte value: length field 7.
    let raw: Vec<u8> = vec![0x07, 0x00, 0x06, 0x00, 0x01, 0x02, 0x03, 0x00];
    assert_eq!(
        EthtoolMessage::parse_with_param(&raw, 18),
        Err(DecodeError::InAttribute {
            kind: 6,
            cause: Box::new(DecodeError::InvalidNumber { expected: 4, received: 3 }),
        }),
    );
}

// A device name that is not UTF-8 is rejected.
#[test]
fn test_bad_device_name() {
    // header attr (kind 1 nested) containing a dev-name record (kind 2)
    // whose payload is an invalid UTF-8 byte.
    let raw: Vec<u8> = vec![
        0x0c, 0x00, 0x01, 0x80, 0x05, 0x00, 0x02, 0x00, 0xff, 0x00, 0x00, 0x00,
    ];
    assert_eq!(
        EthtoolMessage::parse_with_param(&raw, 18),
        Err(DecodeError::InAttribute {
            kind: 0x8001,
            cause: Box::new(DecodeError::InAttribute {
                kind: 2,
                cause: Box::new(DecodeError::InvalidString),
            }),
        }),
    );
}

// Unsupported command: decoding a reply with command code 255 fails
// with an error naming that code.
#[test]
fn test_unsupported_reply_command() {
    assert_eq!(
        EthtoolMessage::parse_with_param(&[], 255),
        Err(DecodeError::UnsupportedReplyCommand { cmd: 255 }),
    );
}

// Encoding keeps the caller's attribute order.
#[test]
fn test_encode_keeps_order() {
    let msg = EthtoolMessage {
        cmd: EthtoolCmd::ChannelSet,
        nlas: vec![
            EthtoolAttr::Channel(EthtoolChannelAttr::TxCount(1)),
            EthtoolAttr::Channel(EthtoolChannelAttr::RxCount(2)),
        ],
    };
    let mut raw = Vec::new();
    msg.emit(&mut raw);
    assert_eq!(
        raw,
        vec![
            0x08, 0x00, 0x07, 0x00, 0x01, 0x00, 0x00, 0x00,
            0x08, 0x00, 0x06, 0x00, 0x02, 0x00, 0x00, 0x00,
        ],
    );
}

// An empty header asks for a dump of all interfaces: the request holds
// one empty nested header attribute.
#[test]
fn test_get_request_without_interface() {
    let msg = EthtoolMessage::new_channel_get(None);
    assert_eq!(msg.cmd, EthtoolCmd::ChannelGet);
    let mut raw = Vec::new();
    msg.emit(&mut raw);
    assert_eq!(raw, vec![0x04, 0x00, 0x01, 0x80]);
}
