//! Checks of the nested sub-codecs on their own: per-link records and
//! transmit-queue statistics records.

use wl_nl80211::{Nl80211MloLink, Nl80211MloLinkNla, Nl80211TransmitQueueStat, RawNla};

#[test]
fn link_nlas_are_identifier_then_address() {
    let link = Nl80211MloLink { id: 9, mac: [9, 8, 7, 6, 5, 4] };
    assert_eq!(
        link.nlas(),
        vec![Nl80211MloLinkNla::Id(9), Nl80211MloLinkNla::Mac([9, 8, 7, 6, 5, 4])]
    );
}

#[test]
fn default_link_is_empty() {
    let link = Nl80211MloLink::default();
    assert_eq!(link, Nl80211MloLink { id: 0, mac: [0; 6] });
}

#[test]
fn link_value_roundtrips_through_its_own_codec() {
    let link = Nl80211MloLink { id: 3, mac: [0xDE, 0xAD, 0xBE, 0xEF, 0x00, 0x01] };
    assert_eq!(link.kind(), 4);
    let mut value: Vec<u8> = Vec::new();
    link.emit_value(&mut value);
    assert_eq!(value.len(), link.value_len());
    assert_eq!(value.len(), 20);
    assert_eq!(Nl80211MloLink::parse(&value).unwrap(), link);
}

#[test]
fn link_sub_record_codec_roundtrips() {
    for nla in [
        Nl80211MloLinkNla::Id(200),
        Nl80211MloLinkNla::Mac([1, 2, 3, 4, 5, 6]),
        Nl80211MloLinkNla::Other(RawNla { kind: 777, value: vec![0xAA] }),
    ] {
        let mut value: Vec<u8> = Vec::new();
        nla.emit_value(&mut value);
        assert_eq!(value.len(), nla.value_len());
        let decoded = Nl80211MloLinkNla::parse(nla.kind(), &value).unwrap();
        assert_eq!(decoded, nla);
    }
}

#[test]
fn link_id_sub_record_rejects_empty_value() {
    assert!(Nl80211MloLinkNla::parse(313, &[]).is_err());
}

#[test]
fn link_mac_sub_record_needs_exactly_six_bytes() {
    assert!(Nl80211MloLinkNla::parse(6, &[1, 2, 3]).is_err());
    assert!(Nl80211MloLinkNla::parse(6, &[1, 2, 3, 4, 5, 6, 7]).is_err());
}

#[test]
fn stat_record_codec_roundtrips() {
    for stat in [
        Nl80211TransmitQueueStat::BacklogBytes(0xDEADBEEF),
        Nl80211TransmitQueueStat::MaxFlows(1),
        Nl80211TransmitQueueStat::Other(RawNla { kind: 99, value: vec![5, 6] }),
    ] {
        let mut value: Vec<u8> = Vec::new();
        stat.emit_value(&mut value);
        assert_eq!(value.len(), stat.value_len());
        let decoded = Nl80211TransmitQueueStat::parse(stat.kind(), &value).unwrap();
        assert_eq!(decoded, stat);
    }
}

#[test]
fn link_decode_reports_discarded_sub_records() {
    let mac = [1, 2, 3, 4, 5, 6];
    let mut link_value: Vec<u8> = vec![0x39, 0x01, 5, 0, 7, 0, 0, 0];
    link_value.extend_from_slice(&[0xF4, 0x01, 5, 0, 9, 0, 0, 0]);
    link_value.extend_from_slice(&[6, 0, 10, 0]);
    link_value.extend_from_slice(&mac);
    link_value.extend_from_slice(&[0, 0]);
    let (link, discarded) = Nl80211MloLink::parse_with_discards(&link_value).unwrap();
    assert_eq!(link, Nl80211MloLink { id: 7, mac });
    assert_eq!(discarded, vec![RawNla { kind: 500, value: vec![9] }]);
}

#[test]
fn stat_record_tolerates_extra_value_bytes() {
    let decoded = Nl80211TransmitQueueStat::parse(3, &[7, 0, 0, 0, 0xFF]).unwrap();
    assert_eq!(decoded, Nl80211TransmitQueueStat::Flows(7));
}
