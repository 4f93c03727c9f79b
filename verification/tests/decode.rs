//! Decoding scenarios: unknown-kind preservation, exact-length and
//! alignment enforcement, extra-byte tolerance, the derived per-link
//! discriminant, error cases, and the end-to-end three-attribute message.

use wl_nl80211::message::{emit_attributes, parse_attributes};
use wl_nl80211::{
    DecodeError, Nl80211Attr, Nl80211CipherSuite, Nl80211Message, Nl80211MloLink,
    Nl80211PhyHandle, RawNla,
};

#[test]
fn unknown_kind_is_preserved_verbatim() {
    let value = vec![0xAB_u8, 0xCD];
    let decoded = Nl80211Attr::parse(9999, &value).unwrap();
    assert_eq!(decoded, Nl80211Attr::Other(RawNla { kind: 9999, value: vec![0xAB, 0xCD] }));
    let mut frame: Vec<u8> = Vec::new();
    decoded.emit(&mut frame);
    assert_eq!(frame, vec![0x0F, 0x27, 6, 0, 0xAB, 0xCD, 0, 0]);
}

#[test]
fn mac_rejects_five_bytes() {
    let r = Nl80211Attr::parse(6, &[1, 2, 3, 4, 5]);
    assert_eq!(
        r,
        Err(DecodeError::WrongValueLength { attr_kind: 6, required: 6, value: vec![1, 2, 3, 4, 5] })
    );
}

#[test]
fn mac_rejects_seven_bytes() {
    let r = Nl80211Attr::parse(6, &[1, 2, 3, 4, 5, 6, 7]);
    assert!(matches!(r, Err(DecodeError::WrongValueLength { required: 6, .. })));
}

#[test]
fn mac_accepts_exactly_six_bytes() {
    let r = Nl80211Attr::parse(6, &[1, 2, 3, 4, 5, 6]).unwrap();
    assert_eq!(r, Nl80211Attr::Mac([1, 2, 3, 4, 5, 6]));
}

#[test]
fn fixed_width_tolerates_extra_trailing_bytes() {
    let r = Nl80211Attr::parse(3, &[3, 0, 0, 0, 0xAA, 0xBB]).unwrap();
    assert_eq!(r, Nl80211Attr::IfIndex(3));
}

#[test]
fn fixed_width_rejects_short_value() {
    let r = Nl80211Attr::parse(3, &[3, 0, 0]);
    assert_eq!(
        r,
        Err(DecodeError::ValueTooShort { attr_kind: 3, required: 4, value: vec![3, 0, 0] })
    );
}

#[test]
fn cipher_suites_reject_unaligned_value() {
    let r = Nl80211Attr::parse(57, &[1, 2, 3, 4, 5, 6, 7]);
    assert_eq!(
        r,
        Err(DecodeError::UnalignedList {
            attr_kind: 57,
            stride: 4,
            value: vec![1, 2, 3, 4, 5, 6, 7],
        })
    );
}

#[test]
fn cipher_suites_decode_two_elements_in_byte_order() {
    let value = [0x01, 0xAC, 0x0F, 0x00, 0x02, 0xAC, 0x0F, 0x00];
    let r = Nl80211Attr::parse(57, &value).unwrap();
    assert_eq!(
        r,
        Nl80211Attr::CipherSuites(vec![Nl80211CipherSuite::WEP40, Nl80211CipherSuite::TKIP])
    );
}

#[test]
fn text_rejects_empty_value() {
    let r = Nl80211Attr::parse(52, &[]);
    assert_eq!(r, Err(DecodeError::InvalidText { attr_kind: 52, value: vec![] }));
}

#[test]
fn text_rejects_invalid_bytes() {
    let r = Nl80211Attr::parse(52, &[0xFF, 0xFE, 0]);
    assert_eq!(r, Err(DecodeError::InvalidText { attr_kind: 52, value: vec![0xFF, 0xFE, 0] }));
}

#[test]
fn text_keeps_bytes_before_the_terminator() {
    let r = Nl80211Attr::parse(52, &[108, 97, 98, 0]).unwrap();
    assert_eq!(r, Nl80211Attr::Ssid(String::from("lab")));
}

#[test]
fn per_link_record_emits_with_derived_wire_type() {
    let link = Nl80211MloLink { id: 5, mac: [1, 2, 3, 4, 5, 6] };
    assert_eq!(link.kind(), 6);
}

#[test]
fn per_link_record_decodes_from_derived_wire_type() {
    // One link framed under outer wire type 6 (identifier 5 offset by
    // one): a nested link-id record carrying 5 and a nested 6-byte
    // address record.
    let mac = [0xA0, 0xB1, 0xC2, 0xD3, 0xE4, 0xF5];
    let mut link_value: Vec<u8> = vec![0x39, 0x01, 5, 0, 5, 0, 0, 0];
    link_value.extend_from_slice(&[6, 0, 10, 0]);
    link_value.extend_from_slice(&mac);
    link_value.extend_from_slice(&[0, 0]);
    let mut outer: Vec<u8> = vec![6, 0, 24, 0];
    outer.extend_from_slice(&link_value);
    let decoded = Nl80211Attr::parse(312, &outer).unwrap();
    assert_eq!(decoded, Nl80211Attr::MloLinks(vec![Nl80211MloLink { id: 5, mac }]));
}

#[test]
fn per_link_record_discards_unknown_sub_kinds() {
    // The same link with a vendor sub-record (kind 500) between the two
    // recognized ones: decoding succeeds and keeps only the known fields.
    let mac = [1, 2, 3, 4, 5, 6];
    let mut link_value: Vec<u8> = vec![0x39, 0x01, 5, 0, 7, 0, 0, 0];
    link_value.extend_from_slice(&[0xF4, 0x01, 5, 0, 9, 0, 0, 0]);
    link_value.extend_from_slice(&[6, 0, 10, 0]);
    link_value.extend_from_slice(&mac);
    link_value.extend_from_slice(&[0, 0]);
    let link = Nl80211MloLink::parse(&link_value).unwrap();
    assert_eq!(link, Nl80211MloLink { id: 7, mac });
}

#[test]
fn truncated_header_aborts_the_decode() {
    let r = parse_attributes(&[1, 0]);
    assert_eq!(r, Err(DecodeError::Truncated { remaining: vec![1, 0] }));
}

#[test]
fn declared_length_beyond_buffer_aborts_the_decode() {
    let bytes = [3, 0, 12, 0, 0, 0, 0, 0];
    let r = parse_attributes(&bytes);
    assert_eq!(r, Err(DecodeError::Truncated { remaining: bytes.to_vec() }));
}

#[test]
fn nested_stat_too_short_aborts_the_attribute() {
    // A statistics attribute whose nested backlog-bytes record carries
    // only two value bytes.
    let value = [1, 0, 6, 0, 7, 7, 0, 0];
    let r = Nl80211Attr::parse(265, &value);
    assert_eq!(
        r,
        Err(DecodeError::ValueTooShort { attr_kind: 1, required: 4, value: vec![7, 7] })
    );
}

#[test]
fn unknown_nested_stat_kind_is_kept() {
    let value = [200, 0, 7, 0, 9, 9, 9, 0];
    let r = Nl80211Attr::parse(265, &value).unwrap();
    assert_eq!(
        r,
        Nl80211Attr::TransmitQueueStats(vec![wl_nl80211::Nl80211TransmitQueueStat::Other(
            RawNla { kind: 200, value: vec![9, 9, 9] },
        )])
    );
}

#[test]
fn three_sibling_attributes_roundtrip_byte_for_byte() {
    // An interface index of 3, the SSID "lab", and one unknown attribute
    // with wire type 9999 and two value bytes.
    let mut bytes: Vec<u8> = Vec::new();
    bytes.extend_from_slice(&[3, 0, 8, 0, 3, 0, 0, 0]);
    bytes.extend_from_slice(&[52, 0, 8, 0, 108, 97, 98, 0]);
    bytes.extend_from_slice(&[0x0F, 0x27, 6, 0, 0xAB, 0xCD, 0, 0]);

    let attrs = parse_attributes(&bytes).unwrap();
    assert_eq!(
        attrs,
        vec![
            Nl80211Attr::IfIndex(3),
            Nl80211Attr::Ssid(String::from("lab")),
            Nl80211Attr::Other(RawNla { kind: 9999, value: vec![0xAB, 0xCD] }),
        ]
    );

    let mut reencoded: Vec<u8> = Vec::new();
    emit_attributes(&attrs, &mut reencoded);
    assert_eq!(reencoded, bytes);
}

#[test]
fn phy_get_request_builds_the_phy_dump_message() {
    let mut handle = Nl80211PhyHandle::new();
    let message = handle.get().message();
    assert_eq!(message.cmd, 1);
    assert!(message.attributes.is_empty());
    let mut body: Vec<u8> = Vec::new();
    message.emit(&mut body);
    assert!(body.is_empty());
}

#[test]
fn interface_get_message_uses_its_own_command() {
    let message = Nl80211Message::new_interface_get();
    assert_eq!(message.cmd, 5);
    assert!(message.attributes.is_empty());
}

#[test]
fn message_parse_keeps_command_and_attributes() {
    let bytes = [3, 0, 8, 0, 9, 0, 0, 0];
    let m = Nl80211Message::parse(1, &bytes).unwrap();
    assert_eq!(m.cmd, 1);
    assert_eq!(m.attributes, vec![Nl80211Attr::IfIndex(9)]);
}
