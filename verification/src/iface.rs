//! Interface-type scalar codec: a closed set of named modes plus one
//! catch-all variant carrying any unrecognized raw value.

use vstd::prelude::*;

verus! {

pub const NL80211_IFTYPE_UNSPECIFIED: u32 = 0;

pub const NL80211_IFTYPE_ADHOC: u32 = 1;

pub const NL80211_IFTYPE_STATION: u32 = 2;

pub const NL80211_IFTYPE_AP: u32 = 3;

pub const NL80211_IFTYPE_AP_VLAN: u32 = 4;

pub const NL80211_IFTYPE_WDS: u32 = 5;

pub const NL80211_IFTYPE_MONITOR: u32 = 6;

pub const NL80211_IFTYPE_MESH_POINT: u32 = 7;

pub const NL80211_IFTYPE_P2P_CLIENT: u32 = 8;

pub const NL80211_IFTYPE_P2P_GO: u32 = 9;

pub const NL80211_IFTYPE_P2P_DEVICE: u32 = 10;

pub const NL80211_IFTYPE_OCB: u32 = 11;

pub const NL80211_IFTYPE_NAN: u32 = 12;

#[derive(Debug, PartialEq, Eq, Clone, Copy)]
pub enum Nl80211InterfaceType {
    Unspecified,
    Adhoc,
    Station,
    Ap,
    ApVlan,
    Wds,
    Monitor,
    MeshPoint,
    P2pClient,
    P2pGo,
    P2pDevice,
    Ocb,
    Nan,
    Other(u32),
}

/// Total decoding: every raw value maps to a variant, unrecognized ones to
/// the catch-all.
pub open spec fn spec_iface_type_from(raw: u32) -> Nl80211InterfaceType {
    if raw == NL80211_IFTYPE_UNSPECIFIED {
        Nl80211InterfaceType::Unspecified
    } else if raw == NL80211_IFTYPE_ADHOC {
        Nl80211InterfaceType::Adhoc
    } else if raw == NL80211_IFTYPE_STATION {
        Nl80211InterfaceType::Station
    } else if raw == NL80211_IFTYPE_AP {
        Nl80211InterfaceType::Ap
    } else if raw == NL80211_IFTYPE_AP_VLAN {
        Nl80211InterfaceType::ApVlan
    } else if raw == NL80211_IFTYPE_WDS {
        Nl80211InterfaceType::Wds
    } else if raw == NL80211_IFTYPE_MONITOR {
        Nl80211InterfaceType::Monitor
    } else if raw == NL80211_IFTYPE_MESH_POINT {
        Nl80211InterfaceType::MeshPoint
    } else if raw == NL80211_IFTYPE_P2P_CLIENT {
        Nl80211InterfaceType::P2pClient
    } else if raw == NL80211_IFTYPE_P2P_GO {
        Nl80211InterfaceType::P2pGo
    } else if raw == NL80211_IFTYPE_P2P_DEVICE {
        Nl80211InterfaceType::P2pDevice
    } else if raw == NL80211_IFTYPE_OCB {
        Nl80211InterfaceType::Ocb
    } else if raw == NL80211_IFTYPE_NAN {
        Nl80211InterfaceType::Nan
    } else {
        Nl80211InterfaceType::Other(raw)
    }
}

pub open spec fn spec_iface_type_into(t: Nl80211InterfaceType) -> u32 {
    match t {
        Nl80211InterfaceType::Unspecified => NL80211_IFTYPE_UNSPECIFIED,
        Nl80211InterfaceType::Adhoc => NL80211_IFTYPE_ADHOC,
        Nl80211InterfaceType::Station => NL80211_IFTYPE_STATION,
        Nl80211InterfaceType::Ap => NL80211_IFTYPE_AP,
        Nl80211InterfaceType::ApVlan => NL80211_IFTYPE_AP_VLAN,
        Nl80211InterfaceType::Wds => NL80211_IFTYPE_WDS,
        Nl80211InterfaceType::Monitor => NL80211_IFTYPE_MONITOR,
        Nl80211InterfaceType::MeshPoint => NL80211_IFTYPE_MESH_POINT,
        Nl80211InterfaceType::P2pClient => NL80211_IFTYPE_P2P_CLIENT,
        Nl80211InterfaceType::P2pGo => NL80211_IFTYPE_P2P_GO,
        Nl80211InterfaceType::P2pDevice => NL80211_IFTYPE_P2P_DEVICE,
        Nl80211InterfaceType::Ocb => NL80211_IFTYPE_OCB,
        Nl80211InterfaceType::Nan => NL80211_IFTYPE_NAN,
        Nl80211InterfaceType::Other(raw) => raw,
    }
}

/// Holds when re-decoding the encoding of `t` gives `t` back: true of every
/// named variant, and of the catch-all exactly when its raw value is not a
/// recognized one.
pub open spec fn iface_type_canonical(t: Nl80211InterfaceType) -> bool {
    spec_iface_type_from(spec_iface_type_into(t)) == t
}

impl Nl80211InterfaceType {
    pub fn from(raw: u32) -> (t: Self)
        ensures
            t == spec_iface_type_from(raw),
            iface_type_canonical(t),
    {
        if raw == NL80211_IFTYPE_UNSPECIFIED {
            Nl80211InterfaceType::Unspecified
        } else if raw == NL80211_IFTYPE_ADHOC {
            Nl80211InterfaceType::Adhoc
        } else if raw == NL80211_IFTYPE_STATION {
            Nl80211InterfaceType::Station
        } else if raw == NL80211_IFTYPE_AP {
            Nl80211InterfaceType::Ap
        } else if raw == NL80211_IFTYPE_AP_VLAN {
            Nl80211InterfaceType::ApVlan
        } else if raw == NL80211_IFTYPE_WDS {
            Nl80211InterfaceType::Wds
        } else if raw == NL80211_IFTYPE_MONITOR {
            Nl80211InterfaceType::Monitor
        } else if raw == NL80211_IFTYPE_MESH_POINT {
            Nl80211InterfaceType::MeshPoint
        } else if raw == NL80211_IFTYPE_P2P_CLIENT {
            Nl80211InterfaceType::P2pClient
        } else if raw == NL80211_IFTYPE_P2P_GO {
            Nl80211InterfaceType::P2pGo
        } else if raw == NL80211_IFTYPE_P2P_DEVICE {
            Nl80211InterfaceType::P2pDevice
        } else if raw == NL80211_IFTYPE_OCB {
            Nl80211InterfaceType::Ocb
        } else if raw == NL80211_IFTYPE_NAN {
            Nl80211InterfaceType::Nan
        } else {
            Nl80211InterfaceType::Other(raw)
        }
    }

    pub fn into(self) -> (raw: u32)
        ensures
            raw == spec_iface_type_into(self),
    {
        match self {
            Nl80211InterfaceType::Unspecified => NL80211_IFTYPE_UNSPECIFIED,
            Nl80211InterfaceType::Adhoc => NL80211_IFTYPE_ADHOC,
            Nl80211InterfaceType::Station => NL80211_IFTYPE_STATION,
            Nl80211InterfaceType::Ap => NL80211_IFTYPE_AP,
            Nl80211InterfaceType::ApVlan => NL80211_IFTYPE_AP_VLAN,
            Nl80211InterfaceType::Wds => NL80211_IFTYPE_WDS,
            Nl80211InterfaceType::Monitor => NL80211_IFTYPE_MONITOR,
            Nl80211InterfaceType::MeshPoint => NL80211_IFTYPE_MESH_POINT,
            Nl80211InterfaceType::P2pClient => NL80211_IFTYPE_P2P_CLIENT,
            Nl80211InterfaceType::P2pGo => NL80211_IFTYPE_P2P_GO,
            Nl80211InterfaceType::P2pDevice => NL80211_IFTYPE_P2P_DEVICE,
            Nl80211InterfaceType::Ocb => NL80211_IFTYPE_OCB,
            Nl80211InterfaceType::Nan => NL80211_IFTYPE_NAN,
            Nl80211InterfaceType::Other(raw) => raw,
        }
    }
}

/// Encoding inverts decoding on every raw value: unrecognized values round
/// back to the same integer through the catch-all variant.
pub proof fn lemma_iface_type_into_from(raw: u32)
    ensures
        spec_iface_type_into(spec_iface_type_from(raw)) == raw,
{
}

/// Decoding inverts encoding on every recognized variant.
pub proof fn lemma_iface_type_from_into(t: Nl80211InterfaceType)
    requires
        !(t is Other),
    ensures
        spec_iface_type_from(spec_iface_type_into(t)) == t,
{
}

} // verus!
