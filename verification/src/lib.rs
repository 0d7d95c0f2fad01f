//! Client-side codec for the Linux kernel's generic-netlink "ethtool"
//! family: encoding of request messages and decoding of the kernel's
//! nested attribute replies into typed values.
//!
//! The wire format is the netlink attribute record: `u16 length | u16
//! type | value | padding to 4 bytes`, with nested attributes carrying
//! further records in their value. The record grammar lives in `nla`,
//! the fixed-width scalar and string payloads in `parsers`, the
//! ethtool bitset convention in `bitset_util`, and one codec per
//! feature object beside them; `message` maps command codes to codecs
//! and builds whole requests. Every decoder is total over arbitrary
//! bytes, and encoding then decoding an attribute list returns it
//! unchanged; see the round-trip lemmas in `message` and the `NlaCodec`
//! trait.
//!
//! The codec is pure: sockets and the generic-netlink envelope belong
//! to the surrounding transport, which sends the bytes that
//! `EthtoolMessage::emit` produces and hands reply payloads to
//! `EthtoolMessage::parse_with_param`.

mod bitset_util;
mod cable_pair;
mod cable_test_tdr;
mod channel;
mod coalesce;
mod eeprom;
mod error;
mod feature;
mod fec;
mod handle;
mod header;
mod link_mode;
mod message;
mod nla;
mod parsers;
mod pause;
mod ring;
mod tsinfo;

pub use bitset_util::{parse_bitset_bits_nlas, parse_bitset_bits_string_nlas, EthtoolBitSet};
pub use cable_pair::EthtoolCablePair;
pub use cable_test_tdr::{
    EthtoolCableTestTdrActionAttr, EthtoolCableTestTdrActionRequest, EthtoolCableTestTdrAmplitudeAttr,
    EthtoolCableTestTdrConfig, EthtoolCableTestTdrConfigAttr, EthtoolCableTestTdrHandle,
    EthtoolCableTestTdrNestAttr, EthtoolCableTestTdrNotifyAttr, EthtoolCableTestTdrPulseAttr,
    EthtoolCableTestTdrStatus, EthtoolCableTestTdrStepAttr,
};
pub use channel::{EthtoolChannelAttr, EthtoolChannelGetRequest, EthtoolChannelHandle, EthtoolChannelSetRequest};
pub use coalesce::{EthtoolCoalesceAttr, EthtoolCoalesceGetRequest};
pub use eeprom::{EthtoolModuleEEPROMAttr, EthtoolModuleEEPROMGetRequest, EthtoolModuleEEPROMHandle};
pub use error::DecodeError;
pub use feature::EthtoolFeatureAttr;
pub use fec::{EthtoolFecAttr, EthtoolFecGetRequest, EthtoolFecHandle, EthtoolFecMode, EthtoolFecStat};
pub use header::EthtoolHeader;
pub use handle::EthtoolHandle;
pub use link_mode::{EthtoolLinkModeAttr, EthtoolLinkModeGetRequest};
pub use message::{EthtoolAttr, EthtoolCmd, EthtoolMessage};
pub use nla::{DefaultNla, NlaCodec};
pub use pause::EthtoolPauseAttr;
pub use ring::{EthtoolRingAttr, EthtoolRingGetRequest};
pub use tsinfo::{EthtoolTsInfoAttr, EthtoolTsInfoGetRequest, EthtoolTsInfoHandle};
