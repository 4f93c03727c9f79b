//! The top-level attribute codec: the dispatch table from numeric
//! attribute kinds to typed values, and the reverse emission rules.
//!
//! The numeric constants are the protocol-defined identifiers from the
//! kernel's interface header and must be reproduced exactly.

use vstd::prelude::*;
use vstd::bytes::{spec_u16_to_le_bytes, spec_u32_to_le_bytes, spec_u64_to_le_bytes,
    spec_u16_from_le_bytes, spec_u32_from_le_bytes, spec_u64_from_le_bytes,
    lemma_auto_spec_u16_to_from_le_bytes, lemma_auto_spec_u32_to_from_le_bytes,
    lemma_auto_spec_u64_to_from_le_bytes, u16_to_le_bytes, u32_to_le_bytes, u64_to_le_bytes};
use vstd::slice::slice_to_vec;
use vstd::utf8::encode_utf8;
use crate::channel::{Nl80211ChannelWidth, Nl80211WiPhyChannelType, channel_type_canonical,
    channel_width_canonical, spec_channel_type_from, spec_channel_type_into,
    spec_channel_width_from, spec_channel_width_into};
use crate::cipher::{Nl80211CipherSuite, cipher_suite_canonical, spec_cipher_suite_into,
    spec_parse_suites, spec_suites_value};
use crate::error::{DecodeError, SpecDecodeError};
use crate::iface::{Nl80211InterfaceType, iface_type_canonical, spec_iface_type_from,
    spec_iface_type_into};
use crate::mlo::{Nl80211MloLink, SpecMloLink, spec_links_value, spec_mlo_link_wf,
    spec_parse_links_value};
use crate::stats::{Nl80211TransmitQueueStat, SpecTxStat, spec_parse_stats_value,
    spec_stat_canonical, spec_stat_encodable, spec_stats_value};
use crate::text::{spec_parse_text, spec_text_value};
use crate::wire::{self, RawNla, SpecRawNla, NLA_MAX_VALUE_LEN};
use crate::{cipher, mlo, stats, text};

verus! {

pub const NL80211_ATTR_WIPHY: u16 = 1;

pub const NL80211_ATTR_WIPHY_NAME: u16 = 2;

pub const NL80211_ATTR_IFINDEX: u16 = 3;

pub const NL80211_ATTR_IFNAME: u16 = 4;

pub const NL80211_ATTR_IFTYPE: u16 = 5;

pub const NL80211_ATTR_MAC: u16 = 6;

pub const NL80211_ATTR_WIPHY_FREQ: u16 = 38;

pub const NL80211_ATTR_WIPHY_CHANNEL_TYPE: u16 = 39;

pub const NL80211_ATTR_MAX_NUM_SCAN_SSIDS: u16 = 43;

pub const NL80211_ATTR_GENERATION: u16 = 46;

pub const NL80211_ATTR_SSID: u16 = 52;

pub const NL80211_ATTR_MAX_SCAN_IE_LEN: u16 = 56;

pub const NL80211_ATTR_CIPHER_SUITES: u16 = 57;

pub const NL80211_ATTR_WIPHY_RETRY_SHORT: u16 = 61;

pub const NL80211_ATTR_WIPHY_RETRY_LONG: u16 = 62;

pub const NL80211_ATTR_WIPHY_FRAG_THRESHOLD: u16 = 63;

pub const NL80211_ATTR_WIPHY_RTS_THRESHOLD: u16 = 64;

pub const NL80211_ATTR_4ADDR: u16 = 83;

pub const NL80211_ATTR_MAX_NUM_PMKIDS: u16 = 86;

pub const NL80211_ATTR_WIPHY_COVERAGE_CLASS: u16 = 89;

pub const NL80211_ATTR_WIPHY_TX_POWER_LEVEL: u16 = 98;

pub const NL80211_ATTR_CONTROL_PORT_ETHERTYPE: u16 = 102;

pub const NL80211_ATTR_SUPPORT_IBSS_RSN: u16 = 104;

pub const NL80211_ATTR_MAX_NUM_SCHED_SCAN_SSIDS: u16 = 123;

pub const NL80211_ATTR_MAX_SCHED_SCAN_IE_LEN: u16 = 124;

pub const NL80211_ATTR_SUPPORT_AP_UAPSD: u16 = 130;

pub const NL80211_ATTR_MAX_MATCH_SETS: u16 = 133;

pub const NL80211_ATTR_TDLS_SUPPORT: u16 = 139;

pub const NL80211_ATTR_TDLS_EXTERNAL_SETUP: u16 = 140;

pub const NL80211_ATTR_WDEV: u16 = 153;

pub const NL80211_ATTR_CHANNEL_WIDTH: u16 = 159;

pub const NL80211_ATTR_CENTER_FREQ1: u16 = 160;

pub const NL80211_ATTR_CENTER_FREQ2: u16 = 161;

pub const NL80211_ATTR_TXQ_STATS: u16 = 265;

pub const NL80211_ATTR_WIPHY_FREQ_OFFSET: u16 = 290;

pub const NL80211_ATTR_MLO_LINKS: u16 = 312;

pub const NL80211_ATTR_MLO_LINK_ID: u16 = 313;

/// How many bytes a hardware address has, exactly.
pub const ETH_ALEN: usize = 6;

/// One decoded attribute. Every named variant owns a semantically typed
/// payload; the catch-all carries an unrecognized wire type and its value
/// bytes verbatim, so that re-emission is byte-identical.
#[derive(Debug, PartialEq, Eq, Clone)]
pub enum Nl80211Attr {
    WiPhy(u32),
    WiPhyName(String),
    IfIndex(u32),
    IfName(String),
    IfType(Nl80211InterfaceType),
    Mac([u8; 6]),
    MaxNumScanSSIDs(u8),
    Generation(u32),
    MaxScanIELen(u16),
    WiPhyRetryShort(u8),
    WiPhyRetryLong(u8),
    WiPhyFragThreshold(u32),
    WiPhyRTSThreshold(u32),
    Use4Addr(bool),
    WiPhyFreq(u32),
    WiPhyFreqOffset(u32),
    WiPhyChannelType(Nl80211WiPhyChannelType),
    ControlPortEtherType,
    SupportIBSSRSN,
    MaxNumSchedScanSSIDs(u8),
    MaxSchedScanIELen(u16),
    CipherSuites(Vec<Nl80211CipherSuite>),
    SupportAPUAPSD,
    MaxMatchSets(u8),
    TDLSSupport,
    TDLSExternalSetup,
    Wdev(u64),
    ChannelWidth(Nl80211ChannelWidth),
    CenterFreq1(u32),
    CenterFreq2(u32),
    MaxNumPMKIDs(u8),
    WiPhyCoverageClass(u8),
    WiPhyTxPowerLevel(u32),
    Ssid(String),
    TransmitQueueStats(Vec<Nl80211TransmitQueueStat>),
    MloLinks(Vec<Nl80211MloLink>),
    Other(RawNla),
}

/// Mathematical image of one attribute.
#[verifier::ext_equal]
pub enum SpecAttr {
    WiPhy(u32),
    WiPhyName(Seq<char>),
    IfIndex(u32),
    IfName(Seq<char>),
    IfType(Nl80211InterfaceType),
    Mac(Seq<u8>),
    MaxNumScanSSIDs(u8),
    Generation(u32),
    MaxScanIELen(u16),
    WiPhyRetryShort(u8),
    WiPhyRetryLong(u8),
    WiPhyFragThreshold(u32),
    WiPhyRTSThreshold(u32),
    Use4Addr(bool),
    WiPhyFreq(u32),
    WiPhyFreqOffset(u32),
    WiPhyChannelType(Nl80211WiPhyChannelType),
    ControlPortEtherType,
    SupportIBSSRSN,
    MaxNumSchedScanSSIDs(u8),
    MaxSchedScanIELen(u16),
    CipherSuites(Seq<Nl80211CipherSuite>),
    SupportAPUAPSD,
    MaxMatchSets(u8),
    TDLSSupport,
    TDLSExternalSetup,
    Wdev(u64),
    ChannelWidth(Nl80211ChannelWidth),
    CenterFreq1(u32),
    CenterFreq2(u32),
    MaxNumPMKIDs(u8),
    WiPhyCoverageClass(u8),
    WiPhyTxPowerLevel(u32),
    Ssid(Seq<char>),
    TransmitQueueStats(Seq<SpecTxStat>),
    MloLinks(Seq<SpecMloLink>),
    Other(SpecRawNla),
}

impl View for Nl80211Attr {
    type V = SpecAttr;

    open spec fn view(&self) -> SpecAttr {
        match self {
            Nl80211Attr::WiPhy(d) => SpecAttr::WiPhy(*d),
            Nl80211Attr::WiPhyName(s) => SpecAttr::WiPhyName(s@),
            Nl80211Attr::IfIndex(d) => SpecAttr::IfIndex(*d),
            Nl80211Attr::IfName(s) => SpecAttr::IfName(s@),
            Nl80211Attr::IfType(t) => SpecAttr::IfType(*t),
            Nl80211Attr::Mac(m) => SpecAttr::Mac(m@),
            Nl80211Attr::MaxNumScanSSIDs(d) => SpecAttr::MaxNumScanSSIDs(*d),
            Nl80211Attr::Generation(d) => SpecAttr::Generation(*d),
            Nl80211Attr::MaxScanIELen(d) => SpecAttr::MaxScanIELen(*d),
            Nl80211Attr::WiPhyRetryShort(d) => SpecAttr::WiPhyRetryShort(*d),
            Nl80211Attr::WiPhyRetryLong(d) => SpecAttr::WiPhyRetryLong(*d),
            Nl80211Attr::WiPhyFragThreshold(d) => SpecAttr::WiPhyFragThreshold(*d),
            Nl80211Attr::WiPhyRTSThreshold(d) => SpecAttr::WiPhyRTSThreshold(*d),
            Nl80211Attr::Use4Addr(b) => SpecAttr::Use4Addr(*b),
            Nl80211Attr::WiPhyFreq(d) => SpecAttr::WiPhyFreq(*d),
            Nl80211Attr::WiPhyFreqOffset(d) => SpecAttr::WiPhyFreqOffset(*d),
            Nl80211Attr::WiPhyChannelType(t) => SpecAttr::WiPhyChannelType(*t),
            Nl80211Attr::ControlPortEtherType => SpecAttr::ControlPortEtherType,
            Nl80211Attr::SupportIBSSRSN => SpecAttr::SupportIBSSRSN,
            Nl80211Attr::MaxNumSchedScanSSIDs(d) => SpecAttr::MaxNumSchedScanSSIDs(*d),
            Nl80211Attr::MaxSchedScanIELen(d) => SpecAttr::MaxSchedScanIELen(*d),
            Nl80211Attr::CipherSuites(v) => SpecAttr::CipherSuites(v@),
            Nl80211Attr::SupportAPUAPSD => SpecAttr::SupportAPUAPSD,
            Nl80211Attr::MaxMatchSets(d) => SpecAttr::MaxMatchSets(*d),
            Nl80211Attr::TDLSSupport => SpecAttr::TDLSSupport,
            Nl80211Attr::TDLSExternalSetup => SpecAttr::TDLSExternalSetup,
            Nl80211Attr::Wdev(d) => SpecAttr::Wdev(*d),
            Nl80211Attr::ChannelWidth(w) => SpecAttr::ChannelWidth(*w),
            Nl80211Attr::CenterFreq1(d) => SpecAttr::CenterFreq1(*d),
            Nl80211Attr::CenterFreq2(d) => SpecAttr::CenterFreq2(*d),
            Nl80211Attr::MaxNumPMKIDs(d) => SpecAttr::MaxNumPMKIDs(*d),
            Nl80211Attr::WiPhyCoverageClass(d) => SpecAttr::WiPhyCoverageClass(*d),
            Nl80211Attr::WiPhyTxPowerLevel(d) => SpecAttr::WiPhyTxPowerLevel(*d),
            Nl80211Attr::Ssid(s) => SpecAttr::Ssid(s@),
            Nl80211Attr::TransmitQueueStats(v) => SpecAttr::TransmitQueueStats(v.deep_view()),
            Nl80211Attr::MloLinks(v) => SpecAttr::MloLinks(v.deep_view()),
            Nl80211Attr::Other(r) => SpecAttr::Other(r@),
        }
    }
}

impl DeepView for Nl80211Attr {
    type V = SpecAttr;

    open spec fn deep_view(&self) -> SpecAttr {
        self.view()
    }
}

/// The wire type each variant emits under. No two named variants share
/// one; the catch-all keeps what it captured.
pub open spec fn spec_attr_kind(a: SpecAttr) -> u16 {
    match a {
        SpecAttr::WiPhy(_) => NL80211_ATTR_WIPHY,
        SpecAttr::WiPhyName(_) => NL80211_ATTR_WIPHY_NAME,
        SpecAttr::IfIndex(_) => NL80211_ATTR_IFINDEX,
        SpecAttr::IfName(_) => NL80211_ATTR_IFNAME,
        SpecAttr::IfType(_) => NL80211_ATTR_IFTYPE,
        SpecAttr::Mac(_) => NL80211_ATTR_MAC,
        SpecAttr::MaxNumScanSSIDs(_) => NL80211_ATTR_MAX_NUM_SCAN_SSIDS,
        SpecAttr::Generation(_) => NL80211_ATTR_GENERATION,
        SpecAttr::MaxScanIELen(_) => NL80211_ATTR_MAX_SCAN_IE_LEN,
        SpecAttr::WiPhyRetryShort(_) => NL80211_ATTR_WIPHY_RETRY_SHORT,
        SpecAttr::WiPhyRetryLong(_) => NL80211_ATTR_WIPHY_RETRY_LONG,
        SpecAttr::WiPhyFragThreshold(_) => NL80211_ATTR_WIPHY_FRAG_THRESHOLD,
        SpecAttr::WiPhyRTSThreshold(_) => NL80211_ATTR_WIPHY_RTS_THRESHOLD,
        SpecAttr::Use4Addr(_) => NL80211_ATTR_4ADDR,
        SpecAttr::WiPhyFreq(_) => NL80211_ATTR_WIPHY_FREQ,
        SpecAttr::WiPhyFreqOffset(_) => NL80211_ATTR_WIPHY_FREQ_OFFSET,
        SpecAttr::WiPhyChannelType(_) => NL80211_ATTR_WIPHY_CHANNEL_TYPE,
        SpecAttr::ControlPortEtherType => NL80211_ATTR_CONTROL_PORT_ETHERTYPE,
        SpecAttr::SupportIBSSRSN => NL80211_ATTR_SUPPORT_IBSS_RSN,
        SpecAttr::MaxNumSchedScanSSIDs(_) => NL80211_ATTR_MAX_NUM_SCHED_SCAN_SSIDS,
        SpecAttr::MaxSchedScanIELen(_) => NL80211_ATTR_MAX_SCHED_SCAN_IE_LEN,
        SpecAttr::CipherSuites(_) => NL80211_ATTR_CIPHER_SUITES,
        SpecAttr::SupportAPUAPSD => NL80211_ATTR_SUPPORT_AP_UAPSD,
        SpecAttr::MaxMatchSets(_) => NL80211_ATTR_MAX_MATCH_SETS,
        SpecAttr::TDLSSupport => NL80211_ATTR_TDLS_SUPPORT,
        SpecAttr::TDLSExternalSetup => NL80211_ATTR_TDLS_EXTERNAL_SETUP,
        SpecAttr::Wdev(_) => NL80211_ATTR_WDEV,
        SpecAttr::ChannelWidth(_) => NL80211_ATTR_CHANNEL_WIDTH,
        SpecAttr::CenterFreq1(_) => NL80211_ATTR_CENTER_FREQ1,
        SpecAttr::CenterFreq2(_) => NL80211_ATTR_CENTER_FREQ2,
        SpecAttr::MaxNumPMKIDs(_) => NL80211_ATTR_MAX_NUM_PMKIDS,
        SpecAttr::WiPhyCoverageClass(_) => NL80211_ATTR_WIPHY_COVERAGE_CLASS,
        SpecAttr::WiPhyTxPowerLevel(_) => NL80211_ATTR_WIPHY_TX_POWER_LEVEL,
        SpecAttr::Ssid(_) => NL80211_ATTR_SSID,
        SpecAttr::TransmitQueueStats(_) => NL80211_ATTR_TXQ_STATS,
        SpecAttr::MloLinks(_) => NL80211_ATTR_MLO_LINKS,
        SpecAttr::Other(r) => r.kind,
    }
}

/// The value bytes each variant emits: a fixed-width integer in the wire
/// byte order, terminated text, the bare address, nothing for the
/// zero-length markers, a nested record sequence, or the captured bytes.
pub open spec fn spec_attr_value(a: SpecAttr) -> Seq<u8> {
    match a {
        SpecAttr::WiPhy(d) => spec_u32_to_le_bytes(d),
        SpecAttr::WiPhyName(s) => spec_text_value(s),
        SpecAttr::IfIndex(d) => spec_u32_to_le_bytes(d),
        SpecAttr::IfName(s) => spec_text_value(s),
        SpecAttr::IfType(t) => spec_u32_to_le_bytes(spec_iface_type_into(t)),
        SpecAttr::Mac(m) => m,
        SpecAttr::MaxNumScanSSIDs(d) => seq![d],
        SpecAttr::Generation(d) => spec_u32_to_le_bytes(d),
        SpecAttr::MaxScanIELen(d) => spec_u16_to_le_bytes(d),
        SpecAttr::WiPhyRetryShort(d) => seq![d],
        SpecAttr::WiPhyRetryLong(d) => seq![d],
        SpecAttr::WiPhyFragThreshold(d) => spec_u32_to_le_bytes(d),
        SpecAttr::WiPhyRTSThreshold(d) => spec_u32_to_le_bytes(d),
        SpecAttr::Use4Addr(b) => seq![if b { 1u8 } else { 0u8 }],
        SpecAttr::WiPhyFreq(d) => spec_u32_to_le_bytes(d),
        SpecAttr::WiPhyFreqOffset(d) => spec_u32_to_le_bytes(d),
        SpecAttr::WiPhyChannelType(t) => spec_u32_to_le_bytes(spec_channel_type_into(t)),
        SpecAttr::ControlPortEtherType => Seq::empty(),
        SpecAttr::SupportIBSSRSN => Seq::empty(),
        SpecAttr::MaxNumSchedScanSSIDs(d) => seq![d],
        SpecAttr::MaxSchedScanIELen(d) => spec_u16_to_le_bytes(d),
        SpecAttr::CipherSuites(ss) => spec_suites_value(ss),
        SpecAttr::SupportAPUAPSD => Seq::empty(),
        SpecAttr::MaxMatchSets(d) => seq![d],
        SpecAttr::TDLSSupport => Seq::empty(),
        SpecAttr::TDLSExternalSetup => Seq::empty(),
        SpecAttr::Wdev(d) => spec_u64_to_le_bytes(d),
        SpecAttr::ChannelWidth(w) => spec_u32_to_le_bytes(spec_channel_width_into(w)),
        SpecAttr::CenterFreq1(d) => spec_u32_to_le_bytes(d),
        SpecAttr::CenterFreq2(d) => spec_u32_to_le_bytes(d),
        SpecAttr::MaxNumPMKIDs(d) => seq![d],
        SpecAttr::WiPhyCoverageClass(d) => seq![d],
        SpecAttr::WiPhyTxPowerLevel(d) => spec_u32_to_le_bytes(d),
        SpecAttr::Ssid(s) => spec_text_value(s),
        SpecAttr::TransmitQueueStats(ss) => spec_stats_value(ss),
        SpecAttr::MloLinks(ls) => spec_links_value(ls),
        SpecAttr::Other(r) => r.value,
    }
}

/// The wire types the dispatch table recognizes. Anything else decodes as
/// the catch-all.
pub open spec fn spec_known_attr_kind(kind: u16) -> bool {
    ||| kind == NL80211_ATTR_WIPHY
    ||| kind == NL80211_ATTR_WIPHY_NAME
    ||| kind == NL80211_ATTR_IFINDEX
    ||| kind == NL80211_ATTR_IFNAME
    ||| kind == NL80211_ATTR_IFTYPE
    ||| kind == NL80211_ATTR_MAC
    ||| kind == NL80211_ATTR_MAX_NUM_SCAN_SSIDS
    ||| kind == NL80211_ATTR_GENERATION
    ||| kind == NL80211_ATTR_MAX_SCAN_IE_LEN
    ||| kind == NL80211_ATTR_WIPHY_RETRY_SHORT
    ||| kind == NL80211_ATTR_WIPHY_RETRY_LONG
    ||| kind == NL80211_ATTR_WIPHY_FRAG_THRESHOLD
    ||| kind == NL80211_ATTR_WIPHY_RTS_THRESHOLD
    ||| kind == NL80211_ATTR_4ADDR
    ||| kind == NL80211_ATTR_WIPHY_FREQ
    ||| kind == NL80211_ATTR_WIPHY_FREQ_OFFSET
    ||| kind == NL80211_ATTR_WIPHY_CHANNEL_TYPE
    ||| kind == NL80211_ATTR_CONTROL_PORT_ETHERTYPE
    ||| kind == NL80211_ATTR_SUPPORT_IBSS_RSN
    ||| kind == NL80211_ATTR_MAX_NUM_SCHED_SCAN_SSIDS
    ||| kind == NL80211_ATTR_MAX_SCHED_SCAN_IE_LEN
    ||| kind == NL80211_ATTR_CIPHER_SUITES
    ||| kind == NL80211_ATTR_SUPPORT_AP_UAPSD
    ||| kind == NL80211_ATTR_MAX_MATCH_SETS
    ||| kind == NL80211_ATTR_TDLS_SUPPORT
    ||| kind == NL80211_ATTR_TDLS_EXTERNAL_SETUP
    ||| kind == NL80211_ATTR_WDEV
    ||| kind == NL80211_ATTR_CHANNEL_WIDTH
    ||| kind == NL80211_ATTR_CENTER_FREQ1
    ||| kind == NL80211_ATTR_CENTER_FREQ2
    ||| kind == NL80211_ATTR_MAX_NUM_PMKIDS
    ||| kind == NL80211_ATTR_WIPHY_COVERAGE_CLASS
    ||| kind == NL80211_ATTR_WIPHY_TX_POWER_LEVEL
    ||| kind == NL80211_ATTR_SSID
    ||| kind == NL80211_ATTR_TXQ_STATS
    ||| kind == NL80211_ATTR_MLO_LINKS
}

pub open spec fn spec_err_short(kind: u16, required: int, v: Seq<u8>) -> SpecDecodeError {
    SpecDecodeError::ValueTooShort { attr_kind: kind, required, value: v }
}

/// The dispatch table. A fixed-width value needs at least its width and
/// reads its leading bytes; text needs its terminator and valid contents;
/// the address needs exactly six bytes; markers ignore their value; the
/// suite list needs a whole number of 4-byte groups; nested sequences
/// recurse; every other wire type is captured verbatim and never fails.
pub open spec fn spec_parse_attr(kind: u16, v: Seq<u8>) -> Result<SpecAttr, SpecDecodeError> {
    if kind == NL80211_ATTR_WIPHY {
        if v.len() >= 4 {
            Ok(SpecAttr::WiPhy(spec_u32_from_le_bytes(v.subrange(0, 4))))
        } else {
            Err(spec_err_short(kind, 4, v))
        }
    } else if kind == NL80211_ATTR_WIPHY_NAME {
        match spec_parse_text(v) {
            Some(s) => Ok(SpecAttr::WiPhyName(s)),
            None => Err(SpecDecodeError::InvalidText { attr_kind: kind, value: v }),
        }
    } else if kind == NL80211_ATTR_IFINDEX {
        if v.len() >= 4 {
            Ok(SpecAttr::IfIndex(spec_u32_from_le_bytes(v.subrange(0, 4))))
        } else {
            Err(spec_err_short(kind, 4, v))
        }
    } else if kind == NL80211_ATTR_IFNAME {
        match spec_parse_text(v) {
            Some(s) => Ok(SpecAttr::IfName(s)),
            None => Err(SpecDecodeError::InvalidText { attr_kind: kind, value: v }),
        }
    } else if kind == NL80211_ATTR_IFTYPE {
        if v.len() >= 4 {
            Ok(SpecAttr::IfType(spec_iface_type_from(spec_u32_from_le_bytes(v.subrange(0, 4)))))
        } else {
            Err(spec_err_short(kind, 4, v))
        }
    } else if kind == NL80211_ATTR_MAC {
        if v.len() == ETH_ALEN {
            Ok(SpecAttr::Mac(v))
        } else {
            Err(
                SpecDecodeError::WrongValueLength {
                    attr_kind: kind,
                    required: ETH_ALEN as int,
                    value: v,
                },
            )
        }
    } else if kind == NL80211_ATTR_MAX_NUM_SCAN_SSIDS {
        if v.len() >= 1 {
            Ok(SpecAttr::MaxNumScanSSIDs(v[0]))
        } else {
            Err(spec_err_short(kind, 1, v))
        }
    } else if kind == NL80211_ATTR_GENERATION {
        if v.len() >= 4 {
            Ok(SpecAttr::Generation(spec_u32_from_le_bytes(v.subrange(0, 4))))
        } else {
            Err(spec_err_short(kind, 4, v))
        }
    } else if kind == NL80211_ATTR_MAX_SCAN_IE_LEN {
        if v.len() >= 2 {
            Ok(SpecAttr::MaxScanIELen(spec_u16_from_le_bytes(v.subrange(0, 2))))
        } else {
            Err(spec_err_short(kind, 2, v))
        }
    } else if kind == NL80211_ATTR_WIPHY_RETRY_SHORT {
        if v.len() >= 1 {
            Ok(SpecAttr::WiPhyRetryShort(v[0]))
        } else {
            Err(spec_err_short(kind, 1, v))
        }
    } else if kind == NL80211_ATTR_WIPHY_RETRY_LONG {
        if v.len() >= 1 {
            Ok(SpecAttr::WiPhyRetryLong(v[0]))
        } else {
            Err(spec_err_short(kind, 1, v))
        }
    } else if kind == NL80211_ATTR_WIPHY_FRAG_THRESHOLD {
        if v.len() >= 4 {
            Ok(SpecAttr::WiPhyFragThreshold(spec_u32_from_le_bytes(v.subrange(0, 4))))
        } else {
            Err(spec_err_short(kind, 4, v))
        }
    } else if kind == NL80211_ATTR_WIPHY_RTS_THRESHOLD {
        if v.len() >= 4 {
            Ok(SpecAttr::WiPhyRTSThreshold(spec_u32_from_le_bytes(v.subrange(0, 4))))
        } else {
            Err(spec_err_short(kind, 4, v))
        }
    } else if kind == NL80211_ATTR_4ADDR {
        if v.len() >= 1 {
            Ok(SpecAttr::Use4Addr(v[0] > 0))
        } else {
            Err(spec_err_short(kind, 1, v))
        }
    } else if kind == NL80211_ATTR_WIPHY_FREQ {
        if v.len() >= 4 {
            Ok(SpecAttr::WiPhyFreq(spec_u32_from_le_bytes(v.subrange(0, 4))))
        } else {
            Err(spec_err_short(kind, 4, v))
        }
    } else if kind == NL80211_ATTR_WIPHY_FREQ_OFFSET {
        if v.len() >= 4 {
            Ok(SpecAttr::WiPhyFreqOffset(spec_u32_from_le_bytes(v.subrange(0, 4))))
        } else {
            Err(spec_err_short(kind, 4, v))
        }
    } else if kind == NL80211_ATTR_WIPHY_CHANNEL_TYPE {
        if v.len() >= 4 {
            Ok(
                SpecAttr::WiPhyChannelType(
                    spec_channel_type_from(spec_u32_from_le_bytes(v.subrange(0, 4))),
                ),
            )
        } else {
            Err(spec_err_short(kind, 4, v))
        }
    } else if kind == NL80211_ATTR_CONTROL_PORT_ETHERTYPE {
        Ok(SpecAttr::ControlPortEtherType)
    } else if kind == NL80211_ATTR_SUPPORT_IBSS_RSN {
        Ok(SpecAttr::SupportIBSSRSN)
    } else if kind == NL80211_ATTR_MAX_NUM_SCHED_SCAN_SSIDS {
        if v.len() >= 1 {
            Ok(SpecAttr::MaxNumSchedScanSSIDs(v[0]))
        } else {
            Err(spec_err_short(kind, 1, v))
        }
    } else if kind == NL80211_ATTR_MAX_SCHED_SCAN_IE_LEN {
        if v.len() >= 2 {
            Ok(SpecAttr::MaxSchedScanIELen(spec_u16_from_le_bytes(v.subrange(0, 2))))
        } else {
            Err(spec_err_short(kind, 2, v))
        }
    } else if kind == NL80211_ATTR_CIPHER_SUITES {
        if v.len() % 4 == 0 {
            Ok(SpecAttr::CipherSuites(spec_parse_suites(v)))
        } else {
            Err(SpecDecodeError::UnalignedList { attr_kind: kind, stride: 4, value: v })
        }
    } else if kind == NL80211_ATTR_SUPPORT_AP_UAPSD {
        Ok(SpecAttr::SupportAPUAPSD)
    } else if kind == NL80211_ATTR_MAX_MATCH_SETS {
        if v.len() >= 1 {
            Ok(SpecAttr::MaxMatchSets(v[0]))
        } else {
            Err(spec_err_short(kind, 1, v))
        }
    } else if kind == NL80211_ATTR_TDLS_SUPPORT {
        Ok(SpecAttr::TDLSSupport)
    } else if kind == NL80211_ATTR_TDLS_EXTERNAL_SETUP {
        Ok(SpecAttr::TDLSExternalSetup)
    } else if kind == NL80211_ATTR_WDEV {
        if v.len() >= 8 {
            Ok(SpecAttr::Wdev(spec_u64_from_le_bytes(v.subrange(0, 8))))
        } else {
            Err(spec_err_short(kind, 8, v))
        }
    } else if kind == NL80211_ATTR_CHANNEL_WIDTH {
        if v.len() >= 4 {
            Ok(
                SpecAttr::ChannelWidth(
                    spec_channel_width_from(spec_u32_from_le_bytes(v.subrange(0, 4))),
                ),
            )
        } else {
            Err(spec_err_short(kind, 4, v))
        }
    } else if kind == NL80211_ATTR_CENTER_FREQ1 {
        if v.len() >= 4 {
            Ok(SpecAttr::CenterFreq1(spec_u32_from_le_bytes(v.subrange(0, 4))))
        } else {
            Err(spec_err_short(kind, 4, v))
        }
    } else if kind == NL80211_ATTR_CENTER_FREQ2 {
        if v.len() >= 4 {
            Ok(SpecAttr::CenterFreq2(spec_u32_from_le_bytes(v.subrange(0, 4))))
        } else {
            Err(spec_err_short(kind, 4, v))
        }
    } else if kind == NL80211_ATTR_MAX_NUM_PMKIDS {
        if v.len() >= 1 {
            Ok(SpecAttr::MaxNumPMKIDs(v[0]))
        } else {
            Err(spec_err_short(kind, 1, v))
        }
    } else if kind == NL80211_ATTR_WIPHY_COVERAGE_CLASS {
        if v.len() >= 1 {
            Ok(SpecAttr::WiPhyCoverageClass(v[0]))
        } else {
            Err(spec_err_short(kind, 1, v))
        }
    } else if kind == NL80211_ATTR_WIPHY_TX_POWER_LEVEL {
        if v.len() >= 4 {
            Ok(SpecAttr::WiPhyTxPowerLevel(spec_u32_from_le_bytes(v.subrange(0, 4))))
        } else {
            Err(spec_err_short(kind, 4, v))
        }
    } else if kind == NL80211_ATTR_SSID {
        match spec_parse_text(v) {
            Some(s) => Ok(SpecAttr::Ssid(s)),
            None => Err(SpecDecodeError::InvalidText { attr_kind: kind, value: v }),
        }
    } else if kind == NL80211_ATTR_TXQ_STATS {
        match spec_parse_stats_value(v) {
            Ok(ss) => Ok(SpecAttr::TransmitQueueStats(ss)),
            Err(e) => Err(e),
        }
    } else if kind == NL80211_ATTR_MLO_LINKS {
        match spec_parse_links_value(v) {
            Ok(ls) => Ok(SpecAttr::MloLinks(ls)),
            Err(e) => Err(e),
        }
    } else {
        Ok(SpecAttr::Other(SpecRawNla { kind, value: v }))
    }
}

/// The attribute's value, and every nested record in it, fits its 16-bit
/// length field.
pub open spec fn spec_attr_encodable(a: SpecAttr) -> bool {
    match a {
        SpecAttr::WiPhyName(s) => encode_utf8(s).len() + 1 <= NLA_MAX_VALUE_LEN,
        SpecAttr::IfName(s) => encode_utf8(s).len() + 1 <= NLA_MAX_VALUE_LEN,
        SpecAttr::Ssid(s) => encode_utf8(s).len() + 1 <= NLA_MAX_VALUE_LEN,
        SpecAttr::Mac(m) => m.len() == ETH_ALEN,
        SpecAttr::CipherSuites(ss) => 4 * ss.len() <= NLA_MAX_VALUE_LEN,
        SpecAttr::TransmitQueueStats(ss) => {
            &&& forall|i: int| 0 <= i < ss.len() ==> spec_stat_encodable(#[trigger] ss[i])
            &&& spec_stats_value(ss).len() <= NLA_MAX_VALUE_LEN
        },
        SpecAttr::MloLinks(ls) => {
            &&& forall|i: int| 0 <= i < ls.len() ==> spec_mlo_link_wf(#[trigger] ls[i])
            &&& spec_links_value(ls).len() <= NLA_MAX_VALUE_LEN
        },
        SpecAttr::Other(r) => r.value.len() <= NLA_MAX_VALUE_LEN,
        _ => true,
    }
}

/// Re-decoding the attribute's encoding gives it back: every enumerated
/// payload is in the image of its decoder, nested catch-alls carry only
/// unrecognized sub-kinds, and the top-level catch-all carries a wire
/// type outside the dispatch table.
pub open spec fn spec_attr_canonical(a: SpecAttr) -> bool {
    match a {
        SpecAttr::IfType(t) => iface_type_canonical(t),
        SpecAttr::WiPhyChannelType(t) => channel_type_canonical(t),
        SpecAttr::ChannelWidth(w) => channel_width_canonical(w),
        SpecAttr::Mac(m) => m.len() == ETH_ALEN,
        SpecAttr::CipherSuites(ss) => forall|i: int|
            0 <= i < ss.len() ==> cipher_suite_canonical(#[trigger] ss[i]),
        SpecAttr::TransmitQueueStats(ss) => forall|i: int|
            0 <= i < ss.len() ==> spec_stat_canonical(#[trigger] ss[i]) && spec_stat_encodable(
                #[trigger] ss[i],
            ),
        SpecAttr::MloLinks(ls) => forall|i: int|
            0 <= i < ls.len() ==> spec_mlo_link_wf(#[trigger] ls[i]),
        SpecAttr::Other(r) => !spec_known_attr_kind(r.kind),
        _ => true,
    }
}

fn emit_u16(d: u16, out: &mut Vec<u8>)
    ensures
        final(out)@ == old(out)@ + spec_u16_to_le_bytes(d),
{
    let mut bytes = u16_to_le_bytes(d);
    out.append(&mut bytes);
}

fn emit_u32(d: u32, out: &mut Vec<u8>)
    ensures
        final(out)@ == old(out)@ + spec_u32_to_le_bytes(d),
{
    let mut bytes = u32_to_le_bytes(d);
    out.append(&mut bytes);
}

fn emit_u64(d: u64, out: &mut Vec<u8>)
    ensures
        final(out)@ == old(out)@ + spec_u64_to_le_bytes(d),
{
    let mut bytes = u64_to_le_bytes(d);
    out.append(&mut bytes);
}

fn take_u8(kind: u16, v: &[u8]) -> (r: Result<u8, DecodeError>)
    ensures
        match r {
            Ok(d) => v@.len() >= 1 && d == v@[0],
            Err(e) => v@.len() < 1 && e@ == spec_err_short(kind, 1, v@),
        },
{
    if v.len() >= 1 {
        Ok(v[0])
    } else {
        Err(DecodeError::ValueTooShort { attr_kind: kind, required: 1, value: slice_to_vec(v) })
    }
}

fn take_u16(kind: u16, v: &[u8]) -> (r: Result<u16, DecodeError>)
    ensures
        match r {
            Ok(d) => v@.len() >= 2 && d == spec_u16_from_le_bytes(v@.subrange(0, 2)),
            Err(e) => v@.len() < 2 && e@ == spec_err_short(kind, 2, v@),
        },
{
    if v.len() >= 2 {
        Ok(wire::read_u16_prefix(v))
    } else {
        Err(DecodeError::ValueTooShort { attr_kind: kind, required: 2, value: slice_to_vec(v) })
    }
}

fn take_u32(kind: u16, v: &[u8]) -> (r: Result<u32, DecodeError>)
    ensures
        match r {
            Ok(d) => v@.len() >= 4 && d == spec_u32_from_le_bytes(v@.subrange(0, 4)),
            Err(e) => v@.len() < 4 && e@ == spec_err_short(kind, 4, v@),
        },
{
    if v.len() >= 4 {
        Ok(wire::read_u32_prefix(v))
    } else {
        Err(DecodeError::ValueTooShort { attr_kind: kind, required: 4, value: slice_to_vec(v) })
    }
}

fn take_u64(kind: u16, v: &[u8]) -> (r: Result<u64, DecodeError>)
    ensures
        match r {
            Ok(d) => v@.len() >= 8 && d == spec_u64_from_le_bytes(v@.subrange(0, 8)),
            Err(e) => v@.len() < 8 && e@ == spec_err_short(kind, 8, v@),
        },
{
    if v.len() >= 8 {
        Ok(wire::read_u64_prefix(v))
    } else {
        Err(DecodeError::ValueTooShort { attr_kind: kind, required: 8, value: slice_to_vec(v) })
    }
}

fn take_text(kind: u16, v: &[u8]) -> (r: Result<String, DecodeError>)
    ensures
        match r {
            Ok(s) => spec_parse_text(v@) == Some(s@),
            Err(e) => spec_parse_text(v@) is None && e@ == (SpecDecodeError::InvalidText {
                attr_kind: kind,
                value: v@,
            }),
        },
{
    match text::parse_text(v) {
        Some(s) => Ok(s),
        None => Err(DecodeError::InvalidText { attr_kind: kind, value: slice_to_vec(v) }),
    }
}

/// An encodable attribute's value fits its 16-bit length field.
pub proof fn lemma_attr_value_len(a: SpecAttr)
    requires
        spec_attr_encodable(a),
    ensures
        spec_attr_value(a).len() <= NLA_MAX_VALUE_LEN,
{
    lemma_auto_spec_u16_to_from_le_bytes();
    lemma_auto_spec_u32_to_from_le_bytes();
    lemma_auto_spec_u64_to_from_le_bytes();
    match a {
        SpecAttr::CipherSuites(ss) => {
            cipher::lemma_suites_value_len(ss);
        },
        _ => {},
    }
}

impl Nl80211Attr {
    /// The wire type this attribute emits under.
    pub fn kind(&self) -> (k: u16)
        ensures
            k == spec_attr_kind(self@),
    {
        match self {
            Nl80211Attr::WiPhy(_) => NL80211_ATTR_WIPHY,
            Nl80211Attr::WiPhyName(_) => NL80211_ATTR_WIPHY_NAME,
            Nl80211Attr::IfIndex(_) => NL80211_ATTR_IFINDEX,
            Nl80211Attr::IfName(_) => NL80211_ATTR_IFNAME,
            Nl80211Attr::IfType(_) => NL80211_ATTR_IFTYPE,
            Nl80211Attr::Mac(_) => NL80211_ATTR_MAC,
            Nl80211Attr::MaxNumScanSSIDs(_) => NL80211_ATTR_MAX_NUM_SCAN_SSIDS,
            Nl80211Attr::Generation(_) => NL80211_ATTR_GENERATION,
            Nl80211Attr::MaxScanIELen(_) => NL80211_ATTR_MAX_SCAN_IE_LEN,
            Nl80211Attr::WiPhyRetryShort(_) => NL80211_ATTR_WIPHY_RETRY_SHORT,
            Nl80211Attr::WiPhyRetryLong(_) => NL80211_ATTR_WIPHY_RETRY_LONG,
            Nl80211Attr::WiPhyFragThreshold(_) => NL80211_ATTR_WIPHY_FRAG_THRESHOLD,
            Nl80211Attr::WiPhyRTSThreshold(_) => NL80211_ATTR_WIPHY_RTS_THRESHOLD,
            Nl80211Attr::Use4Addr(_) => NL80211_ATTR_4ADDR,
            Nl80211Attr::WiPhyFreq(_) => NL80211_ATTR_WIPHY_FREQ,
            Nl80211Attr::WiPhyFreqOffset(_) => NL80211_ATTR_WIPHY_FREQ_OFFSET,
            Nl80211Attr::WiPhyChannelType(_) => NL80211_ATTR_WIPHY_CHANNEL_TYPE,
            Nl80211Attr::ControlPortEtherType => NL80211_ATTR_CONTROL_PORT_ETHERTYPE,
            Nl80211Attr::SupportIBSSRSN => NL80211_ATTR_SUPPORT_IBSS_RSN,
            Nl80211Attr::MaxNumSchedScanSSIDs(_) => NL80211_ATTR_MAX_NUM_SCHED_SCAN_SSIDS,
            Nl80211Attr::MaxSchedScanIELen(_) => NL80211_ATTR_MAX_SCHED_SCAN_IE_LEN,
            Nl80211Attr::CipherSuites(_) => NL80211_ATTR_CIPHER_SUITES,
            Nl80211Attr::SupportAPUAPSD => NL80211_ATTR_SUPPORT_AP_UAPSD,
            Nl80211Attr::MaxMatchSets(_) => NL80211_ATTR_MAX_MATCH_SETS,
            Nl80211Attr::TDLSSupport => NL80211_ATTR_TDLS_SUPPORT,
            Nl80211Attr::TDLSExternalSetup => NL80211_ATTR_TDLS_EXTERNAL_SETUP,
            Nl80211Attr::Wdev(_) => NL80211_ATTR_WDEV,
            Nl80211Attr::ChannelWidth(_) => NL80211_ATTR_CHANNEL_WIDTH,
            Nl80211Attr::CenterFreq1(_) => NL80211_ATTR_CENTER_FREQ1,
            Nl80211Attr::CenterFreq2(_) => NL80211_ATTR_CENTER_FREQ2,
            Nl80211Attr::MaxNumPMKIDs(_) => NL80211_ATTR_MAX_NUM_PMKIDS,
            Nl80211Attr::WiPhyCoverageClass(_) => NL80211_ATTR_WIPHY_COVERAGE_CLASS,
            Nl80211Attr::WiPhyTxPowerLevel(_) => NL80211_ATTR_WIPHY_TX_POWER_LEVEL,
            Nl80211Attr::Ssid(_) => NL80211_ATTR_SSID,
            Nl80211Attr::TransmitQueueStats(_) => NL80211_ATTR_TXQ_STATS,
            Nl80211Attr::MloLinks(_) => NL80211_ATTR_MLO_LINKS,
            Nl80211Attr::Other(r) => r.kind,
        }
    }

    /// The number of value bytes `emit_value` writes for this attribute.
    pub fn value_len(&self) -> (n: usize)
        requires
            spec_attr_encodable(self@),
        ensures
            n == spec_attr_value(self@).len(),
    {
        proof {
            lemma_auto_spec_u16_to_from_le_bytes();
            lemma_auto_spec_u32_to_from_le_bytes();
            lemma_auto_spec_u64_to_from_le_bytes();
        }
        match self {
            Nl80211Attr::WiPhy(_) => 4,
            Nl80211Attr::WiPhyName(s) => s.as_str().len() + 1,
            Nl80211Attr::IfIndex(_) => 4,
            Nl80211Attr::IfName(s) => s.as_str().len() + 1,
            Nl80211Attr::IfType(_) => 4,
            Nl80211Attr::Mac(_) => ETH_ALEN,
            Nl80211Attr::MaxNumScanSSIDs(_) => 1,
            Nl80211Attr::Generation(_) => 4,
            Nl80211Attr::MaxScanIELen(_) => 2,
            Nl80211Attr::WiPhyRetryShort(_) => 1,
            Nl80211Attr::WiPhyRetryLong(_) => 1,
            Nl80211Attr::WiPhyFragThreshold(_) => 4,
            Nl80211Attr::WiPhyRTSThreshold(_) => 4,
            Nl80211Attr::Use4Addr(_) => 1,
            Nl80211Attr::WiPhyFreq(_) => 4,
            Nl80211Attr::WiPhyFreqOffset(_) => 4,
            Nl80211Attr::WiPhyChannelType(_) => 4,
            Nl80211Attr::ControlPortEtherType => 0,
            Nl80211Attr::SupportIBSSRSN => 0,
            Nl80211Attr::MaxNumSchedScanSSIDs(_) => 1,
            Nl80211Attr::MaxSchedScanIELen(_) => 2,
            Nl80211Attr::CipherSuites(ss) => {
                proof {
                    cipher::lemma_suites_value_len(ss@);
                }
                ss.len() * 4
            },
            Nl80211Attr::SupportAPUAPSD => 0,
            Nl80211Attr::MaxMatchSets(_) => 1,
            Nl80211Attr::TDLSSupport => 0,
            Nl80211Attr::TDLSExternalSetup => 0,
            Nl80211Attr::Wdev(_) => 8,
            Nl80211Attr::ChannelWidth(_) => 4,
            Nl80211Attr::CenterFreq1(_) => 4,
            Nl80211Attr::CenterFreq2(_) => 4,
            Nl80211Attr::MaxNumPMKIDs(_) => 1,
            Nl80211Attr::WiPhyCoverageClass(_) => 1,
            Nl80211Attr::WiPhyTxPowerLevel(_) => 4,
            Nl80211Attr::Ssid(s) => s.as_str().len() + 1,
            Nl80211Attr::TransmitQueueStats(ss) => stats::stats_value_len(ss),
            Nl80211Attr::MloLinks(ls) => mlo::links_value_len(ls),
            Nl80211Attr::Other(r) => r.value.len(),
        }
    }

    /// Whether this attribute, and every nested record in it, fits its
    /// 16-bit length field: the condition under which it can be emitted.
    pub fn is_encodable(&self) -> (r: bool)
        ensures
            r == spec_attr_encodable(self@),
    {
        match self {
            Nl80211Attr::WiPhyName(s) => s.as_str().as_bytes().len() <= NLA_MAX_VALUE_LEN - 1,
            Nl80211Attr::IfName(s) => s.as_str().as_bytes().len() <= NLA_MAX_VALUE_LEN - 1,
            Nl80211Attr::Ssid(s) => s.as_str().as_bytes().len() <= NLA_MAX_VALUE_LEN - 1,
            Nl80211Attr::CipherSuites(ss) => ss.len() <= NLA_MAX_VALUE_LEN / 4,
            Nl80211Attr::TransmitQueueStats(ss) => {
                let mut i: usize = 0;
                while i < ss.len()
                    invariant
                        i <= ss.deep_view().len(),
                        ss.deep_view().len() == ss@.len(),
                        self@ == SpecAttr::TransmitQueueStats(ss.deep_view()),
                        forall|j: int|
                            0 <= j < i ==> spec_stat_encodable(#[trigger] ss.deep_view()[j]),
                    decreases ss@.len() - i,
                {
                    if !ss[i].is_encodable() {
                        proof {
                            assert(!spec_stat_encodable(ss.deep_view()[i as int]));
                        }
                        return false;
                    }
                    i = i + 1;
                }
                let n = stats::stats_value_len(ss);
                n <= NLA_MAX_VALUE_LEN
            },
            Nl80211Attr::MloLinks(ls) => {
                proof {
                    assert forall|j: int| 0 <= j < ls.deep_view().len() implies spec_mlo_link_wf(
                        #[trigger] ls.deep_view()[j],
                    ) by {
                        assert(ls.deep_view()[j] == ls@[j]@);
                    }
                }
                let n = mlo::links_value_len(ls);
                n <= NLA_MAX_VALUE_LEN
            },
            Nl80211Attr::Other(r) => r.value.len() <= NLA_MAX_VALUE_LEN,
            _ => true,
        }
    }

    /// Appends exactly the value bytes of this attribute, unframed.
    pub fn emit_value(&self, out: &mut Vec<u8>)
        requires
            spec_attr_encodable(self@),
        ensures
            final(out)@ == old(out)@ + spec_attr_value(self@),
    {
        match self {
            Nl80211Attr::WiPhy(d) => emit_u32(*d, out),
            Nl80211Attr::WiPhyName(s) => text::emit_text(s.as_str(), out),
            Nl80211Attr::IfIndex(d) => emit_u32(*d, out),
            Nl80211Attr::IfName(s) => text::emit_text(s.as_str(), out),
            Nl80211Attr::IfType(t) => emit_u32((*t).into(), out),
            Nl80211Attr::Mac(m) => out.extend_from_slice(m.as_slice()),
            Nl80211Attr::MaxNumScanSSIDs(d) => push_byte(*d, out),
            Nl80211Attr::Generation(d) => emit_u32(*d, out),
            Nl80211Attr::MaxScanIELen(d) => emit_u16(*d, out),
            Nl80211Attr::WiPhyRetryShort(d) => push_byte(*d, out),
            Nl80211Attr::WiPhyRetryLong(d) => push_byte(*d, out),
            Nl80211Attr::WiPhyFragThreshold(d) => emit_u32(*d, out),
            Nl80211Attr::WiPhyRTSThreshold(d) => emit_u32(*d, out),
            Nl80211Attr::Use4Addr(b) => push_byte(if *b { 1 } else { 0 }, out),
            Nl80211Attr::WiPhyFreq(d) => emit_u32(*d, out),
            Nl80211Attr::WiPhyFreqOffset(d) => emit_u32(*d, out),
            Nl80211Attr::WiPhyChannelType(t) => emit_u32((*t).into(), out),
            Nl80211Attr::ControlPortEtherType => {
                proof {
                    assert(out@ =~= out@ + Seq::<u8>::empty());
                }
            },
            Nl80211Attr::SupportIBSSRSN => {
                proof {
                    assert(out@ =~= out@ + Seq::<u8>::empty());
                }
            },
            Nl80211Attr::MaxNumSchedScanSSIDs(d) => push_byte(*d, out),
            Nl80211Attr::MaxSchedScanIELen(d) => emit_u16(*d, out),
            Nl80211Attr::CipherSuites(ss) => cipher::emit_suites_value(ss, out),
            Nl80211Attr::SupportAPUAPSD => {
                proof {
                    assert(out@ =~= out@ + Seq::<u8>::empty());
                }
            },
            Nl80211Attr::MaxMatchSets(d) => push_byte(*d, out),
            Nl80211Attr::TDLSSupport => {
                proof {
                    assert(out@ =~= out@ + Seq::<u8>::empty());
                }
            },
            Nl80211Attr::TDLSExternalSetup => {
                proof {
                    assert(out@ =~= out@ + Seq::<u8>::empty());
                }
            },
            Nl80211Attr::Wdev(d) => emit_u64(*d, out),
            Nl80211Attr::ChannelWidth(w) => emit_u32((*w).into(), out),
            Nl80211Attr::CenterFreq1(d) => emit_u32(*d, out),
            Nl80211Attr::CenterFreq2(d) => emit_u32(*d, out),
            Nl80211Attr::MaxNumPMKIDs(d) => push_byte(*d, out),
            Nl80211Attr::WiPhyCoverageClass(d) => push_byte(*d, out),
            Nl80211Attr::WiPhyTxPowerLevel(d) => emit_u32(*d, out),
            Nl80211Attr::Ssid(s) => text::emit_text(s.as_str(), out),
            Nl80211Attr::TransmitQueueStats(ss) => stats::emit_stats_value(ss, out),
            Nl80211Attr::MloLinks(ls) => mlo::emit_links_value(ls, out),
            Nl80211Attr::Other(r) => out.extend_from_slice(r.value.as_slice()),
        }
    }

    /// Appends this attribute as one framed record: wire type, length,
    /// value, zero padding.
    pub fn emit(&self, out: &mut Vec<u8>)
        requires
            spec_attr_encodable(self@),
        ensures
            final(out)@ == old(out)@ + wire::spec_frame(
                spec_attr_kind(self@),
                spec_attr_value(self@),
            ),
    {
        let mut value: Vec<u8> = Vec::new();
        self.emit_value(&mut value);
        proof {
            lemma_attr_value_len(self@);
        }
        wire::emit_frame(self.kind(), value.as_slice(), out);
    }

    /// Decodes one attribute from its wire type and value bytes.
    pub fn parse(kind: u16, v: &[u8]) -> (r: Result<Self, DecodeError>)
        ensures
            match r {
                Ok(a) => spec_parse_attr(kind, v@) == Ok::<SpecAttr, SpecDecodeError>(a@),
                Err(e) => spec_parse_attr(kind, v@) == Err::<SpecAttr, SpecDecodeError>(e@),
            },
    {
        if kind == NL80211_ATTR_WIPHY {
            match take_u32(kind, v) {
                Ok(d) => Ok(Nl80211Attr::WiPhy(d)),
                Err(e) => Err(e),
            }
        } else if kind == NL80211_ATTR_WIPHY_NAME {
            match take_text(kind, v) {
                Ok(s) => Ok(Nl80211Attr::WiPhyName(s)),
                Err(e) => Err(e),
            }
        } else if kind == NL80211_ATTR_IFINDEX {
            match take_u32(kind, v) {
                Ok(d) => Ok(Nl80211Attr::IfIndex(d)),
                Err(e) => Err(e),
            }
        } else if kind == NL80211_ATTR_IFNAME {
            match take_text(kind, v) {
                Ok(s) => Ok(Nl80211Attr::IfName(s)),
                Err(e) => Err(e),
            }
        } else if kind == NL80211_ATTR_IFTYPE {
            match take_u32(kind, v) {
                Ok(d) => Ok(Nl80211Attr::IfType(Nl80211InterfaceType::from(d))),
                Err(e) => Err(e),
            }
        } else if kind == NL80211_ATTR_MAC {
            if v.len() == ETH_ALEN {
                let mac: [u8; 6] = [v[0], v[1], v[2], v[3], v[4], v[5]];
                proof {
                    assert(mac@ =~= v@);
                }
                Ok(Nl80211Attr::Mac(mac))
            } else {
                Err(
                    DecodeError::WrongValueLength {
                        attr_kind: kind,
                        required: ETH_ALEN,
                        value: slice_to_vec(v),
                    },
                )
            }
        } else if kind == NL80211_ATTR_MAX_NUM_SCAN_SSIDS {
            match take_u8(kind, v) {
                Ok(d) => Ok(Nl80211Attr::MaxNumScanSSIDs(d)),
                Err(e) => Err(e),
            }
        } else if kind == NL80211_ATTR_GENERATION {
            match take_u32(kind, v) {
                Ok(d) => Ok(Nl80211Attr::Generation(d)),
                Err(e) => Err(e),
            }
        } else if kind == NL80211_ATTR_MAX_SCAN_IE_LEN {
            match take_u16(kind, v) {
                Ok(d) => Ok(Nl80211Attr::MaxScanIELen(d)),
                Err(e) => Err(e),
            }
        } else if kind == NL80211_ATTR_WIPHY_RETRY_SHORT {
            match take_u8(kind, v) {
                Ok(d) => Ok(Nl80211Attr::WiPhyRetryShort(d)),
                Err(e) => Err(e),
            }
        } else if kind == NL80211_ATTR_WIPHY_RETRY_LONG {
            match take_u8(kind, v) {
                Ok(d) => Ok(Nl80211Attr::WiPhyRetryLong(d)),
                Err(e) => Err(e),
            }
        } else if kind == NL80211_ATTR_WIPHY_FRAG_THRESHOLD {
            match take_u32(kind, v) {
                Ok(d) => Ok(Nl80211Attr::WiPhyFragThreshold(d)),
                Err(e) => Err(e),
            }
        } else if kind == NL80211_ATTR_WIPHY_RTS_THRESHOLD {
            match take_u32(kind, v) {
                Ok(d) => Ok(Nl80211Attr::WiPhyRTSThreshold(d)),
                Err(e) => Err(e),
            }
        } else if kind == NL80211_ATTR_4ADDR {
            match take_u8(kind, v) {
                Ok(d) => Ok(Nl80211Attr::Use4Addr(d > 0)),
                Err(e) => Err(e),
            }
        } else if kind == NL80211_ATTR_WIPHY_FREQ {
            match take_u32(kind, v) {
                Ok(d) => Ok(Nl80211Attr::WiPhyFreq(d)),
                Err(e) => Err(e),
            }
        } else if kind == NL80211_ATTR_WIPHY_FREQ_OFFSET {
            match take_u32(kind, v) {
                Ok(d) => Ok(Nl80211Attr::WiPhyFreqOffset(d)),
                Err(e) => Err(e),
            }
        } else if kind == NL80211_ATTR_WIPHY_CHANNEL_TYPE {
            match take_u32(kind, v) {
                Ok(d) => Ok(Nl80211Attr::WiPhyChannelType(Nl80211WiPhyChannelType::from(d))),
                Err(e) => Err(e),
            }
        } else if kind == NL80211_ATTR_CONTROL_PORT_ETHERTYPE {
            Ok(Nl80211Attr::ControlPortEtherType)
        } else if kind == NL80211_ATTR_SUPPORT_IBSS_RSN {
            Ok(Nl80211Attr::SupportIBSSRSN)
        } else if kind == NL80211_ATTR_MAX_NUM_SCHED_SCAN_SSIDS {
            match take_u8(kind, v) {
                Ok(d) => Ok(Nl80211Attr::MaxNumSchedScanSSIDs(d)),
                Err(e) => Err(e),
            }
        } else if kind == NL80211_ATTR_MAX_SCHED_SCAN_IE_LEN {
            match take_u16(kind, v) {
                Ok(d) => Ok(Nl80211Attr::MaxSchedScanIELen(d)),
                Err(e) => Err(e),
            }
        } else if kind == NL80211_ATTR_CIPHER_SUITES {
            if v.len() % 4 == 0 {
                Ok(Nl80211Attr::CipherSuites(cipher::parse_suites_value(v)))
            } else {
                Err(
                    DecodeError::UnalignedList {
                        attr_kind: kind,
                        stride: 4,
                        value: slice_to_vec(v),
                    },
                )
            }
        } else if kind == NL80211_ATTR_SUPPORT_AP_UAPSD {
            Ok(Nl80211Attr::SupportAPUAPSD)
        } else if kind == NL80211_ATTR_MAX_MATCH_SETS {
            match take_u8(kind, v) {
                Ok(d) => Ok(Nl80211Attr::MaxMatchSets(d)),
                Err(e) => Err(e),
            }
        } else if kind == NL80211_ATTR_TDLS_SUPPORT {
            Ok(Nl80211Attr::TDLSSupport)
        } else if kind == NL80211_ATTR_TDLS_EXTERNAL_SETUP {
            Ok(Nl80211Attr::TDLSExternalSetup)
        } else if kind == NL80211_ATTR_WDEV {
            match take_u64(kind, v) {
                Ok(d) => Ok(Nl80211Attr::Wdev(d)),
                Err(e) => Err(e),
            }
        } else if kind == NL80211_ATTR_CHANNEL_WIDTH {
            match take_u32(kind, v) {
                Ok(d) => Ok(Nl80211Attr::ChannelWidth(Nl80211ChannelWidth::from(d))),
                Err(e) => Err(e),
            }
        } else if kind == NL80211_ATTR_CENTER_FREQ1 {
            match take_u32(kind, v) {
                Ok(d) => Ok(Nl80211Attr::CenterFreq1(d)),
                Err(e) => Err(e),
            }
        } else if kind == NL80211_ATTR_CENTER_FREQ2 {
            match take_u32(kind, v) {
                Ok(d) => Ok(Nl80211Attr::CenterFreq2(d)),
                Err(e) => Err(e),
            }
        } else if kind == NL80211_ATTR_MAX_NUM_PMKIDS {
            match take_u8(kind, v) {
                Ok(d) => Ok(Nl80211Attr::MaxNumPMKIDs(d)),
                Err(e) => Err(e),
            }
        } else if kind == NL80211_ATTR_WIPHY_COVERAGE_CLASS {
            match take_u8(kind, v) {
                Ok(d) => Ok(Nl80211Attr::WiPhyCoverageClass(d)),
                Err(e) => Err(e),
            }
        } else if kind == NL80211_ATTR_WIPHY_TX_POWER_LEVEL {
            match take_u32(kind, v) {
                Ok(d) => Ok(Nl80211Attr::WiPhyTxPowerLevel(d)),
                Err(e) => Err(e),
            }
        } else if kind == NL80211_ATTR_SSID {
            match take_text(kind, v) {
                Ok(s) => Ok(Nl80211Attr::Ssid(s)),
                Err(e) => Err(e),
            }
        } else if kind == NL80211_ATTR_TXQ_STATS {
            match stats::parse_stats_value(v) {
                Ok(ss) => Ok(Nl80211Attr::TransmitQueueStats(ss)),
                Err(e) => Err(e),
            }
        } else if kind == NL80211_ATTR_MLO_LINKS {
            match mlo::parse_links_value(v) {
                Ok(ls) => Ok(Nl80211Attr::MloLinks(ls)),
                Err(e) => Err(e),
            }
        } else {
            Ok(Nl80211Attr::Other(RawNla { kind, value: slice_to_vec(v) }))
        }
    }
}

fn push_byte(d: u8, out: &mut Vec<u8>)
    ensures
        final(out)@ == old(out)@ + seq![d],
{
    out.push(d);
    proof {
        assert(out@ =~= old(out)@ + seq![d]);
    }
}

/// Decoding a freshly encoded attribute gives it back, for every variant
/// whose payload its decoder can produce.
pub proof fn lemma_attr_value_round_trip(a: SpecAttr)
    requires
        spec_attr_canonical(a),
    ensures
        spec_parse_attr(spec_attr_kind(a), spec_attr_value(a)) == Ok::<SpecAttr, SpecDecodeError>(
            a,
        ),
{
    lemma_auto_spec_u16_to_from_le_bytes();
    lemma_auto_spec_u32_to_from_le_bytes();
    lemma_auto_spec_u64_to_from_le_bytes();
    let v = spec_attr_value(a);
    match a {
        SpecAttr::WiPhyName(s) => {
            text::lemma_text_round_trip(s);
        },
        SpecAttr::IfName(s) => {
            text::lemma_text_round_trip(s);
        },
        SpecAttr::Ssid(s) => {
            text::lemma_text_round_trip(s);
        },
        SpecAttr::CipherSuites(ss) => {
            cipher::lemma_suites_value_len(ss);
            cipher::lemma_suites_round_trip(ss);
        },
        SpecAttr::TransmitQueueStats(ss) => {
            stats::lemma_stats_value_round_trip(ss);
        },
        SpecAttr::MloLinks(ls) => {
            mlo::lemma_links_value_round_trip(ls);
        },
        SpecAttr::Other(r) => {
            assert(SpecRawNla { kind: r.kind, value: r.value } =~= r);
        },
        _ => {
            if v.len() >= 2 {
                assert(v.subrange(0, 2) =~= v.take(2));
            }
        },
    }
    if v.len() == 2 {
        assert(v.subrange(0, 2) =~= v);
    }
    if v.len() == 4 {
        assert(v.subrange(0, 4) =~= v);
    }
    if v.len() == 8 {
        assert(v.subrange(0, 8) =~= v);
    }
}

/// An unrecognized wire type decodes to the catch-all carrying exactly
/// the type and bytes observed, so re-emission reproduces the original
/// record byte for byte.
pub proof fn lemma_unknown_kind_preserved(kind: u16, value: Seq<u8>)
    requires
        !spec_known_attr_kind(kind),
    ensures
        spec_parse_attr(kind, value) == Ok::<SpecAttr, SpecDecodeError>(
            SpecAttr::Other(SpecRawNla { kind, value }),
        ),
        spec_attr_kind(SpecAttr::Other(SpecRawNla { kind, value })) == kind,
        spec_attr_value(SpecAttr::Other(SpecRawNla { kind, value })) == value,
{
}

/// A hardware-address attribute decodes exactly when its value has six
/// bytes, with no tolerance in either direction, and then to those bytes.
pub proof fn lemma_mac_exact_length(v: Seq<u8>)
    ensures
        v.len() == 6 ==> spec_parse_attr(NL80211_ATTR_MAC, v) == Ok::<SpecAttr, SpecDecodeError>(
            SpecAttr::Mac(v),
        ),
        v.len() != 6 ==> spec_parse_attr(NL80211_ATTR_MAC, v) == Err::<SpecAttr, SpecDecodeError>(
            SpecDecodeError::WrongValueLength {
                attr_kind: NL80211_ATTR_MAC,
                required: 6,
                value: v,
            },
        ),
{
}

/// A fixed-width integer attribute tolerates extra trailing bytes: any
/// value with at least the required width decodes from its leading bytes
/// alone, so appending more changes nothing.
pub proof fn lemma_fixed_width_extra_bytes(v: Seq<u8>, extra: Seq<u8>)
    requires
        v.len() >= 4,
    ensures
        spec_parse_attr(NL80211_ATTR_IFINDEX, v) is Ok,
        spec_parse_attr(NL80211_ATTR_IFINDEX, v + extra) == spec_parse_attr(
            NL80211_ATTR_IFINDEX,
            v,
        ),
{
    assert((v + extra).subrange(0, 4) =~= v.subrange(0, 4));
}

/// A cipher-suite list decodes exactly when its length is a whole number
/// of 4-byte groups, to one suite per group in byte order.
pub proof fn lemma_cipher_suites_boundary(v: Seq<u8>)
    ensures
        v.len() % 4 == 0 ==> spec_parse_attr(NL80211_ATTR_CIPHER_SUITES, v) == Ok::<
            SpecAttr,
            SpecDecodeError,
        >(SpecAttr::CipherSuites(spec_parse_suites(v))),
        v.len() % 4 == 0 ==> spec_parse_suites(v).len() == v.len() / 4,
        v.len() % 4 != 0 ==> spec_parse_attr(NL80211_ATTR_CIPHER_SUITES, v) == Err::<
            SpecAttr,
            SpecDecodeError,
        >(SpecDecodeError::UnalignedList { attr_kind: NL80211_ATTR_CIPHER_SUITES, stride: 4, value: v }),
{
    if v.len() % 4 == 0 {
        cipher::lemma_parse_suites_len(v);
    }
}

} // verus!
