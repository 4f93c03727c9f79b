//! Round-trip checks: for every named attribute variant with a concrete
//! sample value, decoding the encoding gives the value back, and the
//! encoded byte length equals the length the codec reports beforehand.

use wl_nl80211::{
    Nl80211Attr, Nl80211ChannelWidth, Nl80211CipherSuite, Nl80211InterfaceType, Nl80211MloLink,
    Nl80211TransmitQueueStat, Nl80211WiPhyChannelType, RawNla,
};

fn roundtrip(attr: Nl80211Attr) {
    let kind = attr.kind();
    let mut value: Vec<u8> = Vec::new();
    attr.emit_value(&mut value);
    assert_eq!(value.len(), attr.value_len());
    let decoded = Nl80211Attr::parse(kind, &value).expect("decode of fresh encoding failed");
    assert_eq!(decoded, attr);
}

#[test]
fn roundtrip_u32_attributes() {
    roundtrip(Nl80211Attr::WiPhy(7));
    roundtrip(Nl80211Attr::IfIndex(3));
    roundtrip(Nl80211Attr::Generation(9));
    roundtrip(Nl80211Attr::WiPhyFreq(2412));
    roundtrip(Nl80211Attr::WiPhyFreqOffset(2));
    roundtrip(Nl80211Attr::WiPhyFragThreshold(2346));
    roundtrip(Nl80211Attr::WiPhyRTSThreshold(2347));
    roundtrip(Nl80211Attr::CenterFreq1(5210));
    roundtrip(Nl80211Attr::CenterFreq2(5330));
    roundtrip(Nl80211Attr::WiPhyTxPowerLevel(2000));
}

#[test]
fn roundtrip_u8_u16_u64_attributes() {
    roundtrip(Nl80211Attr::MaxNumScanSSIDs(4));
    roundtrip(Nl80211Attr::WiPhyRetryShort(7));
    roundtrip(Nl80211Attr::WiPhyRetryLong(4));
    roundtrip(Nl80211Attr::MaxNumSchedScanSSIDs(16));
    roundtrip(Nl80211Attr::MaxMatchSets(8));
    roundtrip(Nl80211Attr::MaxNumPMKIDs(3));
    roundtrip(Nl80211Attr::WiPhyCoverageClass(1));
    roundtrip(Nl80211Attr::MaxScanIELen(2285));
    roundtrip(Nl80211Attr::MaxSchedScanIELen(11));
    roundtrip(Nl80211Attr::Wdev(0x1122_3344_5566_7788));
}

#[test]
fn roundtrip_bool_and_marker_attributes() {
    roundtrip(Nl80211Attr::Use4Addr(true));
    roundtrip(Nl80211Attr::Use4Addr(false));
    roundtrip(Nl80211Attr::ControlPortEtherType);
    roundtrip(Nl80211Attr::SupportIBSSRSN);
    roundtrip(Nl80211Attr::SupportAPUAPSD);
    roundtrip(Nl80211Attr::TDLSSupport);
    roundtrip(Nl80211Attr::TDLSExternalSetup);
}

#[test]
fn roundtrip_text_attributes() {
    roundtrip(Nl80211Attr::WiPhyName(String::from("radio0")));
    roundtrip(Nl80211Attr::IfName(String::from("wlan0")));
    roundtrip(Nl80211Attr::Ssid(String::from("lab")));
    roundtrip(Nl80211Attr::Ssid(String::new()));
    roundtrip(Nl80211Attr::Ssid(String::from("caf\u{e9} \u{1F4E1}")));
}

#[test]
fn roundtrip_mac_attribute() {
    roundtrip(Nl80211Attr::Mac([0x00, 0x11, 0x22, 0x33, 0x44, 0x55]));
}

#[test]
fn roundtrip_enum_attributes() {
    roundtrip(Nl80211Attr::IfType(Nl80211InterfaceType::Station));
    roundtrip(Nl80211Attr::IfType(Nl80211InterfaceType::Other(77)));
    roundtrip(Nl80211Attr::WiPhyChannelType(Nl80211WiPhyChannelType::Ht20));
    roundtrip(Nl80211Attr::WiPhyChannelType(Nl80211WiPhyChannelType::Other(12)));
    roundtrip(Nl80211Attr::ChannelWidth(Nl80211ChannelWidth::Mhz80));
    roundtrip(Nl80211Attr::ChannelWidth(Nl80211ChannelWidth::Other(99)));
}

#[test]
fn roundtrip_cipher_suites_attribute() {
    roundtrip(Nl80211Attr::CipherSuites(vec![
        Nl80211CipherSuite::TKIP,
        Nl80211CipherSuite::CCMP,
        Nl80211CipherSuite::Other(0xDEAD),
    ]));
    roundtrip(Nl80211Attr::CipherSuites(Vec::new()));
}

#[test]
fn roundtrip_transmit_queue_stats_attribute() {
    roundtrip(Nl80211Attr::TransmitQueueStats(vec![
        Nl80211TransmitQueueStat::BacklogBytes(1000),
        Nl80211TransmitQueueStat::BacklogPackets(10),
        Nl80211TransmitQueueStat::Flows(3),
        Nl80211TransmitQueueStat::Drops(0),
        Nl80211TransmitQueueStat::EcnMarks(1),
        Nl80211TransmitQueueStat::Overlimit(2),
        Nl80211TransmitQueueStat::Overmemory(4),
        Nl80211TransmitQueueStat::Collisions(5),
        Nl80211TransmitQueueStat::TxBytes(123456),
        Nl80211TransmitQueueStat::TxPackets(789),
        Nl80211TransmitQueueStat::MaxFlows(4096),
        Nl80211TransmitQueueStat::Other(RawNla { kind: 200, value: vec![1, 2, 3] }),
    ]));
}

#[test]
fn roundtrip_mlo_links_attribute() {
    roundtrip(Nl80211Attr::MloLinks(vec![
        Nl80211MloLink { id: 5, mac: [0xA0, 0xB1, 0xC2, 0xD3, 0xE4, 0xF5] },
        Nl80211MloLink { id: 0, mac: [1, 2, 3, 4, 5, 6] },
    ]));
}

#[test]
fn roundtrip_unknown_attribute() {
    roundtrip(Nl80211Attr::Other(RawNla { kind: 9999, value: vec![0xAB, 0xCD] }));
}

#[test]
fn oversized_values_are_not_encodable() {
    let huge = Nl80211Attr::Other(RawNla { kind: 9999, value: vec![0; 65532] });
    assert!(!huge.is_encodable());
    let fits = Nl80211Attr::Other(RawNla { kind: 9999, value: vec![0; 65531] });
    assert!(fits.is_encodable());
    let long_text = Nl80211Attr::Ssid("x".repeat(65531));
    assert!(!long_text.is_encodable());
    assert!(Nl80211Attr::Ssid(String::from("lab")).is_encodable());
}

#[test]
fn cipher_suite_from_into_are_mutual_inverses() {
    let named = [
        (Nl80211CipherSuite::WEP40, 0x000F_AC01),
        (Nl80211CipherSuite::TKIP, 0x000F_AC02),
        (Nl80211CipherSuite::CCMP, 0x000F_AC04),
        (Nl80211CipherSuite::WEP104, 0x000F_AC05),
        (Nl80211CipherSuite::CMAC, 0x000F_AC06),
        (Nl80211CipherSuite::GCMP128, 0x000F_AC08),
        (Nl80211CipherSuite::GCMP256, 0x000F_AC09),
        (Nl80211CipherSuite::CCMP256, 0x000F_AC0A),
        (Nl80211CipherSuite::GMAC128, 0x000F_AC0B),
        (Nl80211CipherSuite::GMAC256, 0x000F_AC0C),
        (Nl80211CipherSuite::CMAC256, 0x000F_AC0D),
        (Nl80211CipherSuite::SMS4, 0x0014_7201),
    ];
    for (suite, raw) in named {
        assert_eq!(suite.into(), raw);
        assert_eq!(Nl80211CipherSuite::from(raw), suite);
    }
    assert_eq!(Nl80211CipherSuite::from(0xBEEF), Nl80211CipherSuite::Other(0xBEEF));
    assert_eq!(Nl80211CipherSuite::Other(0xBEEF).into(), 0xBEEF_u32);
}

#[test]
fn interface_type_from_into_are_mutual_inverses() {
    for raw in 0u32..13 {
        let t = Nl80211InterfaceType::from(raw);
        assert!(!matches!(t, Nl80211InterfaceType::Other(_)));
        assert_eq!(t.into(), raw);
    }
    assert_eq!(Nl80211InterfaceType::from(13), Nl80211InterfaceType::Other(13));
}

#[test]
fn channel_width_from_into_are_mutual_inverses() {
    for raw in 0u32..14 {
        let w = Nl80211ChannelWidth::from(raw);
        assert!(!matches!(w, Nl80211ChannelWidth::Other(_)));
        assert_eq!(w.into(), raw);
    }
    assert_eq!(Nl80211ChannelWidth::from(14), Nl80211ChannelWidth::Other(14));
}

#[test]
fn channel_type_from_into_are_mutual_inverses() {
    for raw in 0u32..4 {
        let t = Nl80211WiPhyChannelType::from(raw);
        assert!(!matches!(t, Nl80211WiPhyChannelType::Other(_)));
        assert_eq!(t.into(), raw);
    }
    assert_eq!(Nl80211WiPhyChannelType::from(4), Nl80211WiPhyChannelType::Other(4));
}
