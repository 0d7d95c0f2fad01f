use ethtool::{
    EthtoolAttr, EthtoolCableTestTdrNotifyAttr, EthtoolCableTestTdrStatus, EthtoolCmd,
    EthtoolFecAttr, EthtoolFecMode, EthtoolHeader, EthtoolMessage, EthtoolModuleEEPROMAttr,
    EthtoolTsInfoAttr,
};

// The FEC mode bitset decodes by the fixed kernel bit indices.
#[test]
fn test_fec_modes_reply() {
    // FEC MODES attr (kind 2) holding a BITS container with one bit:
    // index 50 (RS), named "rs", asserted.
    let mut bit = Vec::new();
    bit.extend_from_slice(&[0x08, 0x00, 0x01, 0x00, 50, 0, 0, 0]); // INDEX
    bit.extend_from_slice(&[0x07, 0x00, 0x02, 0x00]); // NAME, len 7
    bit.extend_from_slice(b"rs\0");
    bit.push(0); // padding
    bit.extend_from_slice(&[0x04, 0x00, 0x03, 0x00]); // VALUE
    let mut bits_bit = Vec::new();
    bits_bit.extend_from_slice(&(((bit.len() + 4) as u16).to_le_bytes()));
    bits_bit.extend_from_slice(&[0x01, 0x80]);
    bits_bit.extend_from_slice(&bit);
    let mut bits = Vec::new();
    bits.extend_from_slice(&(((bits_bit.len() + 4) as u16).to_le_bytes()));
    bits.extend_from_slice(&[0x03, 0x80]);
    bits.extend_from_slice(&bits_bit);
    let mut raw = Vec::new();
    raw.extend_from_slice(&(((bits.len() + 4) as u16).to_le_bytes()));
    raw.extend_from_slice(&[0x02, 0x80]); // FEC MODES, nested
    raw.extend_from_slice(&bits);

    let msg = EthtoolMessage::parse_with_param(&raw, 30).unwrap();
    assert_eq!(msg.cmd, EthtoolCmd::FecGetReply);
    assert_eq!(
        msg.nlas,
        vec![EthtoolAttr::Fec(EthtoolFecAttr::Modes(vec![EthtoolFecMode::Rs]))],
    );
}

// FEC AUTO decodes any nonzero byte as true.
#[test]
fn test_fec_auto_reply() {
    let raw: Vec<u8> = vec![0x05, 0x00, 0x03, 0x00, 0x01, 0x00, 0x00, 0x00];
    let msg = EthtoolMessage::parse_with_param(&raw, 30).unwrap();
    assert_eq!(msg.nlas, vec![EthtoolAttr::Fec(EthtoolFecAttr::Auto(true))]);
}

// The fixed kernel bit indices map to and from the named modes.
#[test]
fn test_fec_mode_indices() {
    assert_eq!(u32::from(EthtoolFecMode::NoFec), 49);
    assert_eq!(u32::from(EthtoolFecMode::Rs), 50);
    assert_eq!(u32::from(EthtoolFecMode::Baser), 51);
    assert_eq!(u32::from(EthtoolFecMode::Llrs), 74);
    assert_eq!(EthtoolFecMode::from(74u32), EthtoolFecMode::Llrs);
    assert_eq!(
        EthtoolFecMode::from(60u32),
        EthtoolFecMode::Other(60, String::new()),
    );
    assert_eq!(EthtoolFecMode::Rs.mode_name(), "rs".to_string());
}

// A TsInfo capability bitset decodes to the names of the asserted bits.
#[test]
fn test_tsinfo_filters_reply() {
    // RX_FILTERS (kind 4) holding a BITS container with one asserted bit.
    let mut bit = Vec::new();
    bit.extend_from_slice(&[0x08, 0x00, 0x01, 0x00, 0, 0, 0, 0]); // INDEX 0
    bit.extend_from_slice(&[0x08, 0x00, 0x02, 0x00]); // NAME "all", len 8
    bit.extend_from_slice(b"all\0");
    bit.extend_from_slice(&[0x04, 0x00, 0x03, 0x00]); // VALUE
    let mut bits_bit = Vec::new();
    bits_bit.extend_from_slice(&(((bit.len() + 4) as u16).to_le_bytes()));
    bits_bit.extend_from_slice(&[0x01, 0x80]);
    bits_bit.extend_from_slice(&bit);
    let mut bits = Vec::new();
    bits.extend_from_slice(&(((bits_bit.len() + 4) as u16).to_le_bytes()));
    bits.extend_from_slice(&[0x03, 0x80]);
    bits.extend_from_slice(&bits_bit);
    let mut raw = Vec::new();
    raw.extend_from_slice(&(((bits.len() + 4) as u16).to_le_bytes()));
    raw.extend_from_slice(&[0x04, 0x80]);
    raw.extend_from_slice(&bits);

    let msg = EthtoolMessage::parse_with_param(&raw, 26).unwrap();
    assert_eq!(msg.cmd, EthtoolCmd::TsInfoGetReply);
    assert_eq!(
        msg.nlas,
        vec![EthtoolAttr::TsInfo(EthtoolTsInfoAttr::RxFilters(vec!["all".to_string()]))],
    );
}

// An EEPROM data blob keeps its exact bytes, and an echoed request
// parameter decodes to its matching variant.
#[test]
fn test_eeprom_data_reply() {
    let raw: Vec<u8> = vec![
        0x07, 0x00, 0x07, 0x00, 0xaa, 0xbb, 0xcc, 0x00, // data blob
        0x08, 0x00, 0x02, 0x00, 0x00, 0x01, 0x00, 0x00, // offset 0x100
    ];
    let msg = EthtoolMessage::parse_with_param(&raw, 32).unwrap();
    assert_eq!(msg.cmd, EthtoolCmd::ModuleEEPROMGetReply);
    assert_eq!(
        msg.nlas,
        vec![
            EthtoolAttr::ModuleEEPROM(EthtoolModuleEEPROMAttr::Data(vec![0xaa, 0xbb, 0xcc])),
            EthtoolAttr::ModuleEEPROM(EthtoolModuleEEPROMAttr::Offset(0x100)),
        ],
    );
}

// The module-EEPROM codec is symmetric: an emitted page request
// decodes back to the same attributes.
#[test]
fn test_eeprom_request_round_trip() {
    let msg = EthtoolMessage::new_module_eeprom_get(Some("eth2"), 0x80, 0x20, 1, 2, 0x50);
    let mut raw = Vec::new();
    msg.emit(&mut raw);
    let decoded = EthtoolMessage::parse_with_param(&raw, 32).unwrap();
    assert_eq!(decoded.cmd, EthtoolCmd::ModuleEEPROMGetReply);
    assert_eq!(decoded.nlas, msg.nlas);
}

// An EEPROM page request carries the header and the five page
// parameters, in order.
#[test]
fn test_eeprom_get_request_bytes() {
    let msg = EthtoolMessage::new_module_eeprom_get(None, 0x100, 0x80, 0, 0, 0x50);
    assert_eq!(msg.cmd, EthtoolCmd::ModuleEEPROMGet);
    let mut raw = Vec::new();
    msg.emit(&mut raw);
    assert_eq!(
        raw,
        vec![
            0x04, 0x00, 0x01, 0x80, // empty header
            0x08, 0x00, 0x02, 0x00, 0x00, 0x01, 0x00, 0x00, // offset 0x100
            0x08, 0x00, 0x03, 0x00, 0x80, 0x00, 0x00, 0x00, // length 0x80
            0x05, 0x00, 0x04, 0x00, 0x00, 0x00, 0x00, 0x00, // page 0
            0x05, 0x00, 0x05, 0x00, 0x00, 0x00, 0x00, 0x00, // bank 0
            0x05, 0x00, 0x06, 0x00, 0x50, 0x00, 0x00, 0x00, // i2c address 0x50
        ],
    );
}

// A TDR notification reports its status.
#[test]
fn test_tdr_notify_status() {
    let raw: Vec<u8> = vec![0x05, 0x00, 0x02, 0x00, 0x02, 0x00, 0x00, 0x00];
    let msg = EthtoolMessage::parse_with_param(&raw, 28).unwrap();
    assert_eq!(msg.cmd, EthtoolCmd::CableTestTdrNtf);
    assert_eq!(
        msg.nlas,
        vec![EthtoolAttr::CableTestTdrNotify(EthtoolCableTestTdrNotifyAttr::Status(
            EthtoolCableTestTdrStatus::Completed,
        ))],
    );
}

// A TDR action request names the interface and carries the
// configuration record when one is given.
#[test]
fn test_tdr_action_request_bytes() {
    let config = ethtool::EthtoolCableTestTdrConfig {
        first: Some(100),
        last: Some(1000),
        step: None,
        pair: Some(ethtool::EthtoolCablePair::A),
    };
    let msg = EthtoolMessage::new_cable_test_tdr("eth0", Some(config));
    assert_eq!(msg.cmd, EthtoolCmd::CableTestTdrAct);
    let mut raw = Vec::new();
    msg.emit(&mut raw);
    assert_eq!(
        raw,
        vec![
            0x10, 0x00, 0x01, 0x80, // header, nested
            0x09, 0x00, 0x02, 0x00, 0x65, 0x74, 0x68, 0x30, // dev name "eth0"
            0x00, 0x00, 0x00, 0x00, // NUL and padding
            0x1c, 0x00, 0x02, 0x80, // config, nested
            0x08, 0x00, 0x01, 0x00, 100, 0x00, 0x00, 0x00, // first 100
            0x08, 0x00, 0x02, 0x00, 0xe8, 0x03, 0x00, 0x00, // last 1000
            0x05, 0x00, 0x04, 0x00, 0x00, 0x00, 0x00, 0x00, // pair A
        ],
    );
}

// The wire codes of each known command.
#[test]
fn test_command_codes() {
    assert_eq!(EthtoolCmd::ChannelGet.code(), 17);
    assert_eq!(EthtoolCmd::ChannelGetReply.code(), 18);
    assert_eq!(EthtoolCmd::ChannelSet.code(), 18);
    assert_eq!(u8::from(EthtoolCmd::PauseGetReply), 22);
    assert_eq!(u8::from(EthtoolCmd::FeatureGetReply), 11);
    assert_eq!(u8::from(EthtoolCmd::LinkModeGetReply), 4);
    assert_eq!(u8::from(EthtoolCmd::RingGetReply), 16);
    assert_eq!(u8::from(EthtoolCmd::CoalesceGetReply), 20);
    assert_eq!(u8::from(EthtoolCmd::TsInfoGetReply), 26);
    assert_eq!(u8::from(EthtoolCmd::FecGetReply), 30);
}

// Builders produce one header attribute, with the device name exactly
// when an interface is named.
#[test]
fn test_pause_get_request() {
    let msg = EthtoolMessage::new_pause_get(Some("lo"));
    assert_eq!(msg.cmd, EthtoolCmd::PauseGet);
    assert_eq!(
        msg.nlas,
        vec![EthtoolAttr::Pause(ethtool::EthtoolPauseAttr::Header(vec![
            EthtoolHeader::DevName("lo".to_string()),
        ]))],
    );
}
