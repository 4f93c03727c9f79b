//! Per-link records of a multi-link device: a link identifier and a
//! hardware address, carried as a nested record sequence whose outer wire
//! type is the link identifier offset by one.

use vstd::prelude::*;
use vstd::slice::slice_to_vec;
use crate::attr::{ETH_ALEN, NL80211_ATTR_MAC, NL80211_ATTR_MLO_LINK_ID};
use crate::error::{DecodeError, SpecDecodeError};
use crate::wire::{self, RawNla, SpecRawNla, spec_frame, spec_frame_seq, spec_parse_stream,
    NLA_MAX_VALUE_LEN};

verus! {

/// One nested record inside a per-link attribute.
#[derive(Debug, PartialEq, Eq, Clone)]
pub enum Nl80211MloLinkNla {
    Id(u8),
    Mac([u8; 6]),
    Other(RawNla),
}

/// Mathematical image of one nested per-link record.
#[verifier::ext_equal]
pub enum SpecMloLinkNla {
    Id(u8),
    Mac(Seq<u8>),
    Other(SpecRawNla),
}

impl View for Nl80211MloLinkNla {
    type V = SpecMloLinkNla;

    open spec fn view(&self) -> SpecMloLinkNla {
        match self {
            Nl80211MloLinkNla::Id(d) => SpecMloLinkNla::Id(*d),
            Nl80211MloLinkNla::Mac(m) => SpecMloLinkNla::Mac(m@),
            Nl80211MloLinkNla::Other(r) => SpecMloLinkNla::Other(r@),
        }
    }
}

impl DeepView for Nl80211MloLinkNla {
    type V = SpecMloLinkNla;

    open spec fn deep_view(&self) -> SpecMloLinkNla {
        self.view()
    }
}

pub open spec fn spec_mlo_nla_kind(n: SpecMloLinkNla) -> u16 {
    match n {
        SpecMloLinkNla::Id(_) => NL80211_ATTR_MLO_LINK_ID,
        SpecMloLinkNla::Mac(_) => NL80211_ATTR_MAC,
        SpecMloLinkNla::Other(r) => r.kind,
    }
}

pub open spec fn spec_mlo_nla_value(n: SpecMloLinkNla) -> Seq<u8> {
    match n {
        SpecMloLinkNla::Id(d) => seq![d],
        SpecMloLinkNla::Mac(m) => m,
        SpecMloLinkNla::Other(r) => r.value,
    }
}

/// One nested record: the link identifier needs at least one byte and
/// reads its first; the hardware address must be exactly six bytes; any
/// other sub-kind is captured verbatim.
pub open spec fn spec_parse_mlo_nla(kind: u16, v: Seq<u8>) -> Result<
    SpecMloLinkNla,
    SpecDecodeError,
> {
    if kind == NL80211_ATTR_MLO_LINK_ID {
        if v.len() >= 1 {
            Ok(SpecMloLinkNla::Id(v[0]))
        } else {
            Err(SpecDecodeError::ValueTooShort { attr_kind: kind, required: 1, value: v })
        }
    } else if kind == NL80211_ATTR_MAC {
        if v.len() == ETH_ALEN {
            Ok(SpecMloLinkNla::Mac(v))
        } else {
            Err(
                SpecDecodeError::WrongValueLength {
                    attr_kind: kind,
                    required: ETH_ALEN as int,
                    value: v,
                },
            )
        }
    } else {
        Ok(SpecMloLinkNla::Other(SpecRawNla { kind, value: v }))
    }
}

impl Nl80211MloLinkNla {
    pub fn kind(&self) -> (k: u16)
        ensures
            k == spec_mlo_nla_kind(self@),
    {
        match self {
            Nl80211MloLinkNla::Id(_) => NL80211_ATTR_MLO_LINK_ID,
            Nl80211MloLinkNla::Mac(_) => NL80211_ATTR_MAC,
            Nl80211MloLinkNla::Other(r) => r.kind,
        }
    }

    pub fn value_len(&self) -> (n: usize)
        ensures
            n == spec_mlo_nla_value(self@).len(),
    {
        match self {
            Nl80211MloLinkNla::Id(_) => 1,
            Nl80211MloLinkNla::Mac(_) => ETH_ALEN,
            Nl80211MloLinkNla::Other(r) => r.value.len(),
        }
    }

    pub fn emit_value(&self, out: &mut Vec<u8>)
        ensures
            final(out)@ == old(out)@ + spec_mlo_nla_value(self@),
    {
        match self {
            Nl80211MloLinkNla::Id(d) => {
                out.push(*d);
                proof {
                    assert(out@ =~= old(out)@ + spec_mlo_nla_value(self@));
                }
            },
            Nl80211MloLinkNla::Mac(m) => {
                out.extend_from_slice(m.as_slice());
            },
            Nl80211MloLinkNla::Other(r) => {
                out.extend_from_slice(r.value.as_slice());
            },
        }
    }

    /// Decodes one nested record of a per-link attribute.
    pub fn parse(kind: u16, v: &[u8]) -> (r: Result<Self, DecodeError>)
        ensures
            match r {
                Ok(n) => spec_parse_mlo_nla(kind, v@) == Ok::<SpecMloLinkNla, SpecDecodeError>(n@),
                Err(e) => spec_parse_mlo_nla(kind, v@) == Err::<SpecMloLinkNla, SpecDecodeError>(
                    e@,
                ),
            },
    {
        if kind == NL80211_ATTR_MLO_LINK_ID {
            if v.len() >= 1 {
                Ok(Nl80211MloLinkNla::Id(v[0]))
            } else {
                Err(
                    DecodeError::ValueTooShort {
                        attr_kind: kind,
                        required: 1,
                        value: slice_to_vec(v),
                    },
                )
            }
        } else if kind == NL80211_ATTR_MAC {
            if v.len() == ETH_ALEN {
                let mac: [u8; 6] = [v[0], v[1], v[2], v[3], v[4], v[5]];
                proof {
                    assert(mac@ =~= v@);
                }
                Ok(Nl80211MloLinkNla::Mac(mac))
            } else {
                Err(
                    DecodeError::WrongValueLength {
                        attr_kind: kind,
                        required: ETH_ALEN,
                        value: slice_to_vec(v),
                    },
                )
            }
        } else {
            Ok(Nl80211MloLinkNla::Other(RawNla { kind, value: slice_to_vec(v) }))
        }
    }
}

/// One link of a multi-link device.
#[derive(Debug, PartialEq, Eq, Clone, Copy)]
pub struct Nl80211MloLink {
    pub id: u8,
    pub mac: [u8; 6],
}

/// Mathematical image of one link.
#[verifier::ext_equal]
pub struct SpecMloLink {
    pub id: u8,
    pub mac: Seq<u8>,
}

impl View for Nl80211MloLink {
    type V = SpecMloLink;

    open spec fn view(&self) -> SpecMloLink {
        SpecMloLink { id: self.id, mac: self.mac@ }
    }
}

impl DeepView for Nl80211MloLink {
    type V = SpecMloLink;

    open spec fn deep_view(&self) -> SpecMloLink {
        self.view()
    }
}

impl Default for Nl80211MloLink {
    /// The empty link that decoding starts from: identifier zero, zero
    /// address.
    fn default() -> (l: Self)
        ensures
            l.id == 0,
            l.mac@ =~= spec_zero_mac(),
    {
        let l = Nl80211MloLink { id: 0, mac: [0, 0, 0, 0, 0, 0] };
        proof {
            assert(l.mac@ =~= spec_zero_mac());
        }
        l
    }
}

pub open spec fn spec_zero_mac() -> Seq<u8> {
    seq![0u8, 0u8, 0u8, 0u8, 0u8, 0u8]
}

/// The nested records a link is emitted as: its identifier, then its
/// hardware address.
pub open spec fn spec_mlo_link_records(l: SpecMloLink) -> Seq<SpecRawNla> {
    seq![
        SpecRawNla { kind: NL80211_ATTR_MLO_LINK_ID, value: seq![l.id] },
        SpecRawNla { kind: NL80211_ATTR_MAC, value: l.mac },
    ]
}

/// Value bytes of one framed per-link attribute.
pub open spec fn spec_mlo_link_value(l: SpecMloLink) -> Seq<u8> {
    spec_frame_seq(spec_mlo_link_records(l))
}

/// The outer wire type of a per-link record is not a table constant: the
/// kernel derives it from the link identifier, offset by one.
pub open spec fn spec_mlo_link_kind(l: SpecMloLink) -> u16 {
    (l.id + 1) as u16
}

/// A link is well formed when its address has exactly six bytes.
pub open spec fn spec_mlo_link_wf(l: SpecMloLink) -> bool {
    l.mac.len() == ETH_ALEN
}

/// Folds the nested records into a link, starting from `acc`: identifier
/// and address records overwrite the fields, unrecognized sub-kinds are
/// discarded, malformed ones are fatal.
pub open spec fn spec_fold_mlo(rs: Seq<SpecRawNla>, acc: SpecMloLink) -> Result<
    SpecMloLink,
    SpecDecodeError,
>
    decreases rs.len(),
{
    if rs.len() == 0 {
        Ok(acc)
    } else {
        match spec_parse_mlo_nla(rs[0].kind, rs[0].value) {
            Ok(SpecMloLinkNla::Id(d)) => spec_fold_mlo(
                rs.drop_first(),
                SpecMloLink { id: d, mac: acc.mac },
            ),
            Ok(SpecMloLinkNla::Mac(m)) => spec_fold_mlo(
                rs.drop_first(),
                SpecMloLink { id: acc.id, mac: m },
            ),
            Ok(SpecMloLinkNla::Other(_)) => spec_fold_mlo(rs.drop_first(), acc),
            Err(e) => Err(e),
        }
    }
}

/// Decodes the value of one per-link attribute: split it into nested
/// records, then fold them into a link starting from the empty one.
pub open spec fn spec_parse_mlo_link_value(v: Seq<u8>) -> Result<SpecMloLink, SpecDecodeError> {
    match spec_parse_stream(v) {
        Ok(rs) => spec_fold_mlo(rs, SpecMloLink { id: 0, mac: spec_zero_mac() }),
        Err(rem) => Err(SpecDecodeError::Truncated { remaining: rem }),
    }
}

/// The nested records a link decode discards: those whose sub-kind this
/// codec does not model.
pub open spec fn spec_mlo_discards(rs: Seq<SpecRawNla>) -> Seq<SpecRawNla>
    decreases rs.len(),
{
    if rs.len() == 0 {
        Seq::empty()
    } else {
        let rest = spec_mlo_discards(rs.drop_first());
        match spec_parse_mlo_nla(rs[0].kind, rs[0].value) {
            Ok(SpecMloLinkNla::Other(r)) => seq![r] + rest,
            _ => rest,
        }
    }
}

impl Nl80211MloLink {
    /// The nested records this link is emitted as.
    pub fn nlas(&self) -> (r: Vec<Nl80211MloLinkNla>)
        ensures
            r.deep_view() =~= seq![
                SpecMloLinkNla::Id(self.id),
                SpecMloLinkNla::Mac(self.mac@),
            ],
    {
        let mut r: Vec<Nl80211MloLinkNla> = Vec::new();
        r.push(Nl80211MloLinkNla::Id(self.id));
        r.push(Nl80211MloLinkNla::Mac(self.mac));
        r
    }

    /// The derived outer wire type: the link identifier offset by one.
    pub fn kind(&self) -> (k: u16)
        ensures
            k == spec_mlo_link_kind(self@),
            k == self.id + 1,
    {
        self.id as u16 + 1
    }

    pub fn value_len(&self) -> (n: usize)
        ensures
            n == spec_mlo_link_value(self@).len(),
    {
        let mut scratch: Vec<u8> = Vec::new();
        self.emit_value(&mut scratch);
        scratch.len()
    }

    /// Appends the nested record sequence this link encodes as.
    pub fn emit_value(&self, out: &mut Vec<u8>)
        ensures
            final(out)@ == old(out)@ + spec_mlo_link_value(self@),
    {
        let ghost records = spec_mlo_link_records(self@);
        let id_value: [u8; 1] = [self.id];
        proof {
            assert(id_value@ =~= seq![self.id]);
        }
        wire::emit_frame(NL80211_ATTR_MLO_LINK_ID, id_value.as_slice(), out);
        wire::emit_frame(NL80211_ATTR_MAC, self.mac.as_slice(), out);
        proof {
            reveal_with_fuel(spec_frame_seq, 3);
            assert(records.drop_first() =~= seq![records[1]]);
            assert(records.drop_first().drop_first() =~= Seq::<SpecRawNla>::empty());
            assert(spec_frame_seq(records) =~= spec_frame(NL80211_ATTR_MLO_LINK_ID, seq![self.id])
                + (spec_frame(NL80211_ATTR_MAC, self.mac@) + Seq::<u8>::empty()));
            assert(out@ =~= old(out)@ + spec_frame_seq(records));
        }
    }

    /// Decodes the value of one per-link attribute. The outer wire type is
    /// not consulted: the identifier is read from the nested records.
    pub fn parse(v: &[u8]) -> (r: Result<Self, DecodeError>)
        ensures
            match r {
                Ok(l) => spec_parse_mlo_link_value(v@) == Ok::<SpecMloLink, SpecDecodeError>(l@),
                Err(e) => spec_parse_mlo_link_value(v@) == Err::<SpecMloLink, SpecDecodeError>(e@),
            },
    {
        match Self::parse_with_discards(v) {
            Ok((link, _)) => Ok(link),
            Err(e) => Err(e),
        }
    }

    /// Decodes the value of one per-link attribute and also hands back the
    /// nested records it discarded: a link may carry vendor extensions
    /// this codec does not model, and a caller may want to report them.
    pub fn parse_with_discards(v: &[u8]) -> (r: Result<(Self, Vec<RawNla>), DecodeError>)
        ensures
            match r {
                Ok(pair) => {
                    &&& spec_parse_mlo_link_value(v@) == Ok::<SpecMloLink, SpecDecodeError>(
                        pair.0@,
                    )
                    &&& spec_parse_stream(v@) matches Ok(rs) && pair.1.deep_view()
                        == spec_mlo_discards(rs)
                },
                Err(e) => spec_parse_mlo_link_value(v@) == Err::<SpecMloLink, SpecDecodeError>(e@),
            },
    {
        let records = match wire::parse_stream(v) {
            Ok(rs) => rs,
            Err(rem) => {
                return Err(DecodeError::Truncated { remaining: rem });
            },
        };
        let ghost rs = records.deep_view();
        let mut link = Nl80211MloLink::default();
        let mut discards: Vec<RawNla> = Vec::new();
        let ghost init = link@;
        let mut i: usize = 0;
        proof {
            assert(rs.skip(0) =~= rs);
            assert(discards.deep_view() + spec_mlo_discards(rs) =~= spec_mlo_discards(rs));
        }
        while i < records.len()
            invariant
                i <= records@.len(),
                rs == records.deep_view(),
                rs.len() == records@.len(),
                spec_parse_stream(v@) == Ok::<Seq<SpecRawNla>, Seq<u8>>(rs),
                spec_fold_mlo(rs, init) == spec_fold_mlo(rs.skip(i as int), link@),
                spec_parse_mlo_link_value(v@) == spec_fold_mlo(rs, init),
                spec_mlo_discards(rs) == discards.deep_view() + spec_mlo_discards(
                    rs.skip(i as int),
                ),
            decreases records@.len() - i,
        {
            let ghost discards0 = discards.deep_view();
            let rec = &records[i];
            proof {
                assert(rs.skip(i as int)[0] == rs[i as int]);
                assert(rs.skip(i as int).drop_first() =~= rs.skip(i + 1));
            }
            match Nl80211MloLinkNla::parse(rec.kind, rec.value.as_slice()) {
                Ok(Nl80211MloLinkNla::Id(d)) => {
                    link.id = d;
                },
                Ok(Nl80211MloLinkNla::Mac(m)) => {
                    link.mac = m;
                },
                Ok(Nl80211MloLinkNla::Other(raw)) => {
                    discards.push(raw);
                    proof {
                        assert(discards.deep_view() =~= discards0 + seq![
                            discards.deep_view().last(),
                        ]);
                        assert((discards0 + seq![discards.deep_view().last()])
                            + spec_mlo_discards(rs.skip(i + 1)) =~= discards0 + (seq![
                            discards.deep_view().last(),
                        ] + spec_mlo_discards(rs.skip(i + 1))));
                    }
                },
                Err(e) => {
                    return Err(e);
                },
            }
            i = i + 1;
        }
        proof {
            assert(rs.skip(rs.len() as int) =~= Seq::<SpecRawNla>::empty());
            assert(discards.deep_view() + Seq::<SpecRawNla>::empty() =~= discards.deep_view());
        }
        Ok((link, discards))
    }
}

/// The value of a well-formed link is one 8-byte record and one 12-byte
/// record.
pub proof fn lemma_mlo_link_value_len(l: SpecMloLink)
    requires
        spec_mlo_link_wf(l),
    ensures
        spec_mlo_link_value(l).len() == 20,
{
    let records = spec_mlo_link_records(l);
    reveal_with_fuel(spec_frame_seq, 3);
    wire::lemma_frame_len(NL80211_ATTR_MLO_LINK_ID, seq![l.id]);
    wire::lemma_frame_len(NL80211_ATTR_MAC, l.mac);
    assert(records.drop_first() =~= seq![records[1]]);
    assert(records.drop_first().drop_first() =~= Seq::<SpecRawNla>::empty());
    assert(spec_frame_seq(records.drop_first()) == spec_frame(NL80211_ATTR_MAC, l.mac)
        + spec_frame_seq(records.drop_first().drop_first()));
}

/// Decoding a freshly encoded link recovers both fields: the nested
/// identifier and address records overwrite the empty link's.
pub proof fn lemma_mlo_link_round_trip(l: SpecMloLink)
    requires
        spec_mlo_link_wf(l),
    ensures
        spec_parse_mlo_link_value(spec_mlo_link_value(l)) == Ok::<SpecMloLink, SpecDecodeError>(l),
{
    let records = spec_mlo_link_records(l);
    assert forall|i: int| 0 <= i < records.len() implies (#[trigger] records[i]).value.len()
        <= NLA_MAX_VALUE_LEN by {}
    wire::lemma_frame_seq_parses(records);
    let init = SpecMloLink { id: 0, mac: spec_zero_mac() };
    assert(records.drop_first() =~= seq![records[1]]);
    assert(records.drop_first().drop_first() =~= Seq::<SpecRawNla>::empty());
    let after_id = SpecMloLink { id: l.id, mac: init.mac };
    let after_mac = SpecMloLink { id: l.id, mac: l.mac };
    assert(spec_parse_mlo_nla(NL80211_ATTR_MLO_LINK_ID, seq![l.id]) == Ok::<
        SpecMloLinkNla,
        SpecDecodeError,
    >(SpecMloLinkNla::Id(l.id)));
    assert(spec_parse_mlo_nla(NL80211_ATTR_MAC, l.mac) == Ok::<SpecMloLinkNla, SpecDecodeError>(
        SpecMloLinkNla::Mac(l.mac),
    ));
    assert(spec_fold_mlo(records, init) == spec_fold_mlo(records.drop_first(), after_id));
    assert(spec_fold_mlo(records.drop_first(), after_id) == spec_fold_mlo(
        records.drop_first().drop_first(),
        after_mac,
    ));
    assert(after_mac =~= l);
}

/// The records a sequence of links is emitted as: each link framed under
/// its derived wire type.
pub open spec fn spec_links_records(ls: Seq<SpecMloLink>) -> Seq<SpecRawNla> {
    ls.map_values(
        |l: SpecMloLink| SpecRawNla { kind: spec_mlo_link_kind(l), value: spec_mlo_link_value(l) },
    )
}

/// Value bytes of the whole multi-link attribute.
pub open spec fn spec_links_value(ls: Seq<SpecMloLink>) -> Seq<u8> {
    spec_frame_seq(spec_links_records(ls))
}

pub open spec fn spec_parse_links_records(rs: Seq<SpecRawNla>) -> Result<
    Seq<SpecMloLink>,
    SpecDecodeError,
>
    decreases rs.len(),
{
    if rs.len() == 0 {
        Ok(Seq::empty())
    } else {
        match spec_parse_mlo_link_value(rs[0].value) {
            Ok(l) => match spec_parse_links_records(rs.drop_first()) {
                Ok(rest) => Ok(seq![l] + rest),
                Err(e) => Err(e),
            },
            Err(e) => Err(e),
        }
    }
}

/// The whole multi-link attribute: split the value into per-link records,
/// then decode each one.
pub open spec fn spec_parse_links_value(v: Seq<u8>) -> Result<Seq<SpecMloLink>, SpecDecodeError> {
    match spec_parse_stream(v) {
        Ok(rs) => spec_parse_links_records(rs),
        Err(rem) => Err(SpecDecodeError::Truncated { remaining: rem }),
    }
}

/// Appends the whole multi-link attribute value: every link framed under
/// its derived wire type.
pub fn emit_links_value(links: &Vec<Nl80211MloLink>, out: &mut Vec<u8>)
    ensures
        final(out)@ == old(out)@ + spec_links_value(links.deep_view()),
{
    let ghost records = spec_links_records(links.deep_view());
    let mut i: usize = 0;
    proof {
        assert(records.take(0) =~= Seq::<SpecRawNla>::empty());
        assert(out@ + spec_frame_seq(records.take(0)) =~= out@);
    }
    while i < links.len()
        invariant
            i <= links.deep_view().len(),
            links.deep_view().len() == links@.len(),
            records == spec_links_records(links.deep_view()),
            out@ == old(out)@ + spec_frame_seq(records.take(i as int)),
        decreases links@.len() - i,
    {
        let link = &links[i];
        let mut value: Vec<u8> = Vec::new();
        link.emit_value(&mut value);
        proof {
            assert(link@.mac.len() == 6);
            lemma_mlo_link_value_len(link@);
            assert(value@.len() <= NLA_MAX_VALUE_LEN);
        }
        wire::emit_frame(link.kind(), value.as_slice(), out);
        proof {
            wire::lemma_frame_seq_take_step(records, i as int);
            assert((old(out)@ + spec_frame_seq(records.take(i as int))) + spec_frame(
                records[i as int].kind,
                records[i as int].value,
            ) =~= old(out)@ + spec_frame_seq(records.take(i + 1)));
        }
        i = i + 1;
    }
    proof {
        assert(records.take(links.deep_view().len() as int) =~= records);
    }
}

/// Length of the multi-link attribute value as it will be emitted.
pub fn links_value_len(links: &Vec<Nl80211MloLink>) -> (n: usize)
    ensures
        n == spec_links_value(links.deep_view()).len(),
{
    let mut scratch: Vec<u8> = Vec::new();
    emit_links_value(links, &mut scratch);
    scratch.len()
}

/// Decodes the whole multi-link attribute value.
pub fn parse_links_value(v: &[u8]) -> (r: Result<Vec<Nl80211MloLink>, DecodeError>)
    ensures
        match r {
            Ok(ls) => spec_parse_links_value(v@) == Ok::<Seq<SpecMloLink>, SpecDecodeError>(
                ls.deep_view(),
            ),
            Err(e) => spec_parse_links_value(v@) == Err::<Seq<SpecMloLink>, SpecDecodeError>(e@),
        },
{
    let records = match wire::parse_stream(v) {
        Ok(rs) => rs,
        Err(rem) => {
            return Err(DecodeError::Truncated { remaining: rem });
        },
    };
    let ghost rs = records.deep_view();
    let mut out: Vec<Nl80211MloLink> = Vec::new();
    let mut i: usize = 0;
    proof {
        assert(rs.skip(0) =~= rs);
        match spec_parse_links_records(rs) {
            Ok(rest) => {
                assert(out.deep_view() + rest =~= rest);
            },
            Err(_) => {},
        }
    }
    while i < records.len()
        invariant
            i <= records@.len(),
            rs == records.deep_view(),
            rs.len() == records@.len(),
            spec_parse_stream(v@) == Ok::<Seq<SpecRawNla>, Seq<u8>>(rs),
            spec_parse_links_records(rs) == (match spec_parse_links_records(rs.skip(i as int)) {
                Ok(rest) => Ok::<Seq<SpecMloLink>, SpecDecodeError>(out.deep_view() + rest),
                Err(e) => Err::<Seq<SpecMloLink>, SpecDecodeError>(e),
            }),
        decreases records@.len() - i,
    {
        let ghost out0 = out.deep_view();
        let rec = &records[i];
        proof {
            assert(rs.skip(i as int)[0] == rs[i as int]);
            assert(rs.skip(i as int).drop_first() =~= rs.skip(i + 1));
        }
        match Nl80211MloLink::parse(rec.value.as_slice()) {
            Ok(l) => {
                out.push(l);
                proof {
                    assert(out.deep_view() =~= out0 + seq![out.deep_view().last()]);
                    match spec_parse_links_records(rs.skip(i + 1)) {
                        Ok(rest) => {
                            assert((out0 + seq![out.deep_view().last()]) + rest =~= out0 + (seq![
                                out.deep_view().last(),
                            ] + rest));
                        },
                        Err(_) => {},
                    }
                }
            },
            Err(e) => {
                proof {
                    assert(spec_parse_links_records(rs.skip(i as int)) == Err::<
                        Seq<SpecMloLink>,
                        SpecDecodeError,
                    >(e@));
                }
                return Err(e);
            },
        }
        i = i + 1;
    }
    proof {
        assert(rs.skip(rs.len() as int) =~= Seq::<SpecRawNla>::empty());
        assert(out.deep_view() + Seq::<SpecMloLink>::empty() =~= out.deep_view());
    }
    Ok(out)
}

/// Decoding a freshly encoded link sequence gives the links back.
pub proof fn lemma_links_records_round_trip(ls: Seq<SpecMloLink>)
    requires
        forall|i: int| 0 <= i < ls.len() ==> spec_mlo_link_wf(#[trigger] ls[i]),
    ensures
        spec_parse_links_records(spec_links_records(ls)) == Ok::<Seq<SpecMloLink>, SpecDecodeError>(
            ls,
        ),
    decreases ls.len(),
{
    let rs = spec_links_records(ls);
    if ls.len() == 0 {
        assert(rs =~= Seq::<SpecRawNla>::empty());
        assert(ls =~= Seq::<SpecMloLink>::empty());
    } else {
        lemma_mlo_link_round_trip(ls[0]);
        assert(rs.drop_first() =~= spec_links_records(ls.drop_first()));
        lemma_links_records_round_trip(ls.drop_first());
        assert(seq![ls[0]] + ls.drop_first() =~= ls);
    }
}

/// Decoding the freshly emitted multi-link value gives the links back.
pub proof fn lemma_links_value_round_trip(ls: Seq<SpecMloLink>)
    requires
        forall|i: int| 0 <= i < ls.len() ==> spec_mlo_link_wf(#[trigger] ls[i]),
    ensures
        spec_parse_links_value(spec_links_value(ls)) == Ok::<Seq<SpecMloLink>, SpecDecodeError>(ls),
{
    let rs = spec_links_records(ls);
    assert forall|i: int| 0 <= i < rs.len() implies (#[trigger] rs[i]).value.len()
        <= NLA_MAX_VALUE_LEN by {
        lemma_mlo_link_value_len(ls[i]);
    }
    wire::lemma_frame_seq_parses(rs);
    lemma_links_records_round_trip(ls);
}

} // verus!
