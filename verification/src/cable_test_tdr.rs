mod action;
mod attr;
mod handle;

pub use action::EthtoolCableTestTdrActionRequest;
pub use action::EthtoolCableTestTdrActionRequestView;
pub use action::EthtoolCableTestTdrConfig;
pub use action::spec_config_attrs;
pub use attr::EthtoolCableTestTdrActionAttr;
pub use attr::EthtoolCableTestTdrActionAttrView;
pub use attr::EthtoolCableTestTdrAmplitudeAttr;
pub use attr::EthtoolCableTestTdrAmplitudeAttrView;
pub use attr::EthtoolCableTestTdrConfigAttr;
pub use attr::EthtoolCableTestTdrConfigAttrView;
pub use attr::EthtoolCableTestTdrNestAttr;
pub use attr::EthtoolCableTestTdrNestAttrView;
pub use attr::EthtoolCableTestTdrNotifyAttr;
pub use attr::EthtoolCableTestTdrNotifyAttrView;
pub use attr::EthtoolCableTestTdrPulseAttr;
pub use attr::EthtoolCableTestTdrPulseAttrView;
pub use attr::EthtoolCableTestTdrStatus;
pub use attr::EthtoolCableTestTdrStepAttr;
pub use attr::EthtoolCableTestTdrStepAttrView;
pub use attr::parse_cable_test_tdr_action_nlas;
pub use attr::parse_cable_test_tdr_notify_nlas;
pub use attr::spec_parse_cable_test_tdr_action_nlas;
pub use attr::spec_parse_cable_test_tdr_notify_nlas;
pub use handle::EthtoolCableTestTdrHandle;
