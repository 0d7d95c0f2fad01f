//! The four pairs of a twisted-pair cable, as the cable-test attributes
//! number them.

use vstd::prelude::*;

verus! {

pub const ETHTOOL_A_CABLE_PAIR_A: u8 = 0;

pub const ETHTOOL_A_CABLE_PAIR_B: u8 = 1;

pub const ETHTOOL_A_CABLE_PAIR_C: u8 = 2;

pub const ETHTOOL_A_CABLE_PAIR_D: u8 = 3;

/// One cable pair; unknown codes are kept as they came.
#[derive(Debug, PartialEq, Eq, Clone, Copy, Structural)]
pub enum EthtoolCablePair {
    A,
    B,
    C,
    D,
    Other(u8),
}

/// The pair a wire code stands for.
pub open spec fn spec_cable_pair_of_code(value: u8) -> EthtoolCablePair {
    if value == ETHTOOL_A_CABLE_PAIR_A {
        EthtoolCablePair::A
    } else if value == ETHTOOL_A_CABLE_PAIR_B {
        EthtoolCablePair::B
    } else if value == ETHTOOL_A_CABLE_PAIR_C {
        EthtoolCablePair::C
    } else if value == ETHTOOL_A_CABLE_PAIR_D {
        EthtoolCablePair::D
    } else {
        EthtoolCablePair::Other(value)
    }
}

/// The wire code a pair encodes to.
pub open spec fn spec_cable_pair_code(pair: EthtoolCablePair) -> u8 {
    match pair {
        EthtoolCablePair::A => ETHTOOL_A_CABLE_PAIR_A,
        EthtoolCablePair::B => ETHTOOL_A_CABLE_PAIR_B,
        EthtoolCablePair::C => ETHTOOL_A_CABLE_PAIR_C,
        EthtoolCablePair::D => ETHTOOL_A_CABLE_PAIR_D,
        EthtoolCablePair::Other(v) => v,
    }
}

impl EthtoolCablePair {
    /// The pair a wire code stands for.
    pub fn of_code(value: u8) -> (r: Self)
        ensures
            r == spec_cable_pair_of_code(value),
    {
        if value == ETHTOOL_A_CABLE_PAIR_A {
            EthtoolCablePair::A
        } else if value == ETHTOOL_A_CABLE_PAIR_B {
            EthtoolCablePair::B
        } else if value == ETHTOOL_A_CABLE_PAIR_C {
            EthtoolCablePair::C
        } else if value == ETHTOOL_A_CABLE_PAIR_D {
            EthtoolCablePair::D
        } else {
            EthtoolCablePair::Other(value)
        }
    }

    /// The wire code this pair encodes to.
    pub fn code(&self) -> (r: u8)
        ensures
            r == spec_cable_pair_code(*self),
    {
        match self {
            EthtoolCablePair::A => ETHTOOL_A_CABLE_PAIR_A,
            EthtoolCablePair::B => ETHTOOL_A_CABLE_PAIR_B,
            EthtoolCablePair::C => ETHTOOL_A_CABLE_PAIR_C,
            EthtoolCablePair::D => ETHTOOL_A_CABLE_PAIR_D,
            EthtoolCablePair::Other(v) => *v,
        }
    }
}

impl From<u8> for EthtoolCablePair {
    fn from(value: u8) -> (r: Self) {
        EthtoolCablePair::of_code(value)
    }
}

impl vstd::std_specs::convert::FromSpecImpl<u8> for EthtoolCablePair {
    open spec fn obeys_from_spec() -> bool {
        true
    }

    open spec fn from_spec(value: u8) -> Self {
        spec_cable_pair_of_code(value)
    }
}

impl From<EthtoolCablePair> for u8 {
    fn from(value: EthtoolCablePair) -> (r: u8) {
        value.code()
    }
}

impl vstd::std_specs::convert::FromSpecImpl<EthtoolCablePair> for u8 {
    open spec fn obeys_from_spec() -> bool {
        true
    }

    open spec fn from_spec(value: EthtoolCablePair) -> u8 {
        spec_cable_pair_code(value)
    }
}

/// Codes 0 to 3 name a pair and survive the trip through the typed
/// form; every other code is kept numerically.
pub proof fn lemma_cable_pair_code_round_trip(value: u8)
    ensures
        spec_cable_pair_code(spec_cable_pair_of_code(value)) == value,
{
}

} // verus!
