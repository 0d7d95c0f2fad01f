use ethtool::{
    EthtoolAttr, EthtoolCablePair, EthtoolCableTestTdrConfig, EthtoolCmd, EthtoolFecAttr,
    EthtoolHandle, EthtoolHeader, EthtoolMessage,
};

// The handle's builders produce the same messages as the message
// constructors.
#[test]
fn test_channel_get_request_message() {
    let mut handle = EthtoolHandle::new();
    let request = handle.channel().get(Some("eth0"));
    let msg = request.message();
    assert_eq!(msg, EthtoolMessage::new_channel_get(Some("eth0")));
    assert_eq!(msg.cmd, EthtoolCmd::ChannelGet);
}

#[test]
fn test_channel_set_request_message() {
    let mut handle = EthtoolHandle::new();
    let request = handle.channel().set("eth0").rx_count(2);
    let msg = request.message();
    let mut raw = Vec::new();
    msg.emit(&mut raw);
    assert_eq!(
        raw,
        vec![
            0x10, 0x00, 0x01, 0x80, 0x09, 0x00, 0x02, 0x00, 0x65, 0x74, 0x68, 0x30,
            0x00, 0x00, 0x00, 0x00, 0x08, 0x00, 0x06, 0x00, 0x02, 0x00, 0x00, 0x00,
        ],
    );
}

#[test]
fn test_tdr_request_message() {
    let mut handle = EthtoolHandle::new();
    let config = EthtoolCableTestTdrConfig {
        first: None,
        last: None,
        step: Some(50),
        pair: Some(EthtoolCablePair::B),
    };
    let request = handle.cable_test_tdr().start_with_config("eth1", config);
    let msg = request.message();
    assert_eq!(msg, EthtoolMessage::new_cable_test_tdr("eth1", Some(config)));
    assert_eq!(msg.cmd, EthtoolCmd::CableTestTdrAct);
}

#[test]
fn test_eeprom_request_message() {
    let mut handle = EthtoolHandle::new();
    let request = handle.module_eeprom().get(Some("eth0"), 0, 128, 1, 0, 0x51);
    let msg = request.message();
    assert_eq!(
        msg,
        EthtoolMessage::new_module_eeprom_get(Some("eth0"), 0, 128, 1, 0, 0x51),
    );
}

#[test]
fn test_fec_and_tsinfo_get_requests() {
    let mut handle = EthtoolHandle::new();
    assert_eq!(
        handle.fec().get(None).message(),
        EthtoolMessage::new_fec_get(None),
    );
    assert_eq!(
        handle.tsinfo().get(Some("lo")).message(),
        EthtoolMessage::new_tsinfo_get(Some("lo")),
    );
}

// Builder and decoder messages are encodable; a message holding a
// decode-only attribute is not, and the check says so.
#[test]
fn test_is_wf() {
    let good = EthtoolMessage::new_pause_get(Some("eth0"));
    assert!(good.is_wf());
    let decode_only = EthtoolMessage {
        cmd: EthtoolCmd::FecGetReply,
        nlas: vec![EthtoolAttr::Fec(EthtoolFecAttr::Auto(true))],
    };
    assert!(!decode_only.is_wf());
    let with_header = EthtoolMessage {
        cmd: EthtoolCmd::FecGetReply,
        nlas: vec![EthtoolAttr::Fec(EthtoolFecAttr::Header(vec![
            EthtoolHeader::DevIndex(1),
        ]))],
    };
    assert!(with_header.is_wf());
}
