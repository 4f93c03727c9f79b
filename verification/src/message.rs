//! The top-level codec: an ordered sequence of framed attributes, as it
//! appears in a message body, and the minimal request messages this
//! protocol family uses.

use vstd::prelude::*;
use crate::attr::{Nl80211Attr, SpecAttr, lemma_attr_value_round_trip, lemma_attr_value_len,
    spec_attr_canonical, spec_attr_encodable, spec_attr_kind, spec_attr_value, spec_parse_attr};
use crate::error::{DecodeError, SpecDecodeError};
use crate::wire::{self, SpecRawNla, spec_frame, spec_frame_seq, spec_parse_stream,
    NLA_MAX_VALUE_LEN};

verus! {

/// Command selector of a phy dump request.
pub const NL80211_CMD_GET_WIPHY: u8 = 1;

/// Command selector of an interface dump request.
pub const NL80211_CMD_GET_INTERFACE: u8 = 5;

/// The records an attribute sequence is emitted as.
pub open spec fn spec_attrs_records(attrs: Seq<SpecAttr>) -> Seq<SpecRawNla> {
    attrs.map_values(
        |a: SpecAttr| SpecRawNla { kind: spec_attr_kind(a), value: spec_attr_value(a) },
    )
}

/// Byte image of an attribute sequence: every attribute framed, in order.
pub open spec fn spec_attrs_value(attrs: Seq<SpecAttr>) -> Seq<u8> {
    spec_frame_seq(spec_attrs_records(attrs))
}

pub open spec fn spec_parse_attrs_records(rs: Seq<SpecRawNla>) -> Result<
    Seq<SpecAttr>,
    SpecDecodeError,
>
    decreases rs.len(),
{
    if rs.len() == 0 {
        Ok(Seq::empty())
    } else {
        match spec_parse_attr(rs[0].kind, rs[0].value) {
            Ok(a) => match spec_parse_attrs_records(rs.drop_first()) {
                Ok(rest) => Ok(seq![a] + rest),
                Err(e) => Err(e),
            },
            Err(e) => Err(e),
        }
    }
}

/// Decoding a message body: split it into records, then dispatch each;
/// the first failure aborts the whole decode.
pub open spec fn spec_parse_attrs(b: Seq<u8>) -> Result<Seq<SpecAttr>, SpecDecodeError> {
    match spec_parse_stream(b) {
        Ok(rs) => spec_parse_attrs_records(rs),
        Err(rem) => Err(SpecDecodeError::Truncated { remaining: rem }),
    }
}

/// Appends an attribute sequence: every attribute framed, in order.
pub fn emit_attributes(attrs: &Vec<Nl80211Attr>, out: &mut Vec<u8>)
    requires
        forall|i: int|
            0 <= i < attrs.deep_view().len() ==> spec_attr_encodable(
                #[trigger] attrs.deep_view()[i],
            ),
    ensures
        final(out)@ == old(out)@ + spec_attrs_value(attrs.deep_view()),
{
    let ghost records = spec_attrs_records(attrs.deep_view());
    let mut i: usize = 0;
    proof {
        assert(records.take(0) =~= Seq::<SpecRawNla>::empty());
        assert(out@ + spec_frame_seq(records.take(0)) =~= out@);
    }
    while i < attrs.len()
        invariant
            i <= attrs.deep_view().len(),
            attrs.deep_view().len() == attrs@.len(),
            records == spec_attrs_records(attrs.deep_view()),
            forall|j: int|
                0 <= j < attrs.deep_view().len() ==> spec_attr_encodable(
                    #[trigger] attrs.deep_view()[j],
                ),
            out@ == old(out)@ + spec_frame_seq(records.take(i as int)),
        decreases attrs@.len() - i,
    {
        let attr = &attrs[i];
        proof {
            assert(spec_attr_encodable(attrs.deep_view()[i as int]));
            assert(attr@ == attrs.deep_view()[i as int]);
        }
        attr.emit(out);
        proof {
            wire::lemma_frame_seq_take_step(records, i as int);
            assert((old(out)@ + spec_frame_seq(records.take(i as int))) + spec_frame(
                records[i as int].kind,
                records[i as int].value,
            ) =~= old(out)@ + spec_frame_seq(records.take(i + 1)));
        }
        i = i + 1;
    }
    proof {
        assert(records.take(attrs.deep_view().len() as int) =~= records);
    }
}

/// Decodes a message body into its attribute sequence, in input order.
pub fn parse_attributes(buf: &[u8]) -> (r: Result<Vec<Nl80211Attr>, DecodeError>)
    ensures
        match r {
            Ok(attrs) => spec_parse_attrs(buf@) == Ok::<Seq<SpecAttr>, SpecDecodeError>(
                attrs.deep_view(),
            ),
            Err(e) => spec_parse_attrs(buf@) == Err::<Seq<SpecAttr>, SpecDecodeError>(e@),
        },
{
    let records = match wire::parse_stream(buf) {
        Ok(rs) => rs,
        Err(rem) => {
            return Err(DecodeError::Truncated { remaining: rem });
        },
    };
    let ghost rs = records.deep_view();
    let mut out: Vec<Nl80211Attr> = Vec::new();
    let mut i: usize = 0;
    proof {
        assert(rs.skip(0) =~= rs);
        match spec_parse_attrs_records(rs) {
            Ok(rest) => {
                assert(out.deep_view() + rest =~= rest);
            },
            Err(_) => {},
        }
    }
    while i < records.len()
        invariant
            i <= records@.len(),
            rs == records.deep_view(),
            rs.len() == records@.len(),
            spec_parse_stream(buf@) == Ok::<Seq<SpecRawNla>, Seq<u8>>(rs),
            spec_parse_attrs_records(rs) == (match spec_parse_attrs_records(rs.skip(i as int)) {
                Ok(rest) => Ok::<Seq<SpecAttr>, SpecDecodeError>(out.deep_view() + rest),
                Err(e) => Err::<Seq<SpecAttr>, SpecDecodeError>(e),
            }),
        decreases records@.len() - i,
    {
        let ghost out0 = out.deep_view();
        let rec = &records[i];
        proof {
            assert(rs.skip(i as int)[0] == rs[i as int]);
            assert(rs.skip(i as int).drop_first() =~= rs.skip(i + 1));
        }
        match Nl80211Attr::parse(rec.kind, rec.value.as_slice()) {
            Ok(a) => {
                out.push(a);
                proof {
                    assert(out.deep_view() =~= out0 + seq![out.deep_view().last()]);
                    match spec_parse_attrs_records(rs.skip(i + 1)) {
                        Ok(rest) => {
                            assert((out0 + seq![out.deep_view().last()]) + rest =~= out0 + (seq![
                                out.deep_view().last(),
                            ] + rest));
                        },
                        Err(_) => {},
                    }
                }
            },
            Err(e) => {
                proof {
                    assert(spec_parse_attrs_records(rs.skip(i as int)) == Err::<
                        Seq<SpecAttr>,
                        SpecDecodeError,
                    >(e@));
                }
                return Err(e);
            },
        }
        i = i + 1;
    }
    proof {
        assert(rs.skip(rs.len() as int) =~= Seq::<SpecRawNla>::empty());
        assert(out.deep_view() + Seq::<SpecAttr>::empty() =~= out.deep_view());
    }
    Ok(out)
}

/// Decoding a freshly encoded record sequence gives the attributes back.
pub proof fn lemma_attrs_records_round_trip(attrs: Seq<SpecAttr>)
    requires
        forall|i: int| 0 <= i < attrs.len() ==> spec_attr_canonical(#[trigger] attrs[i]),
    ensures
        spec_parse_attrs_records(spec_attrs_records(attrs)) == Ok::<Seq<SpecAttr>, SpecDecodeError>(
            attrs,
        ),
    decreases attrs.len(),
{
    let rs = spec_attrs_records(attrs);
    if attrs.len() == 0 {
        assert(rs =~= Seq::<SpecRawNla>::empty());
        assert(attrs =~= Seq::<SpecAttr>::empty());
    } else {
        lemma_attr_value_round_trip(attrs[0]);
        assert(rs.drop_first() =~= spec_attrs_records(attrs.drop_first()));
        lemma_attrs_records_round_trip(attrs.drop_first());
        assert(seq![attrs[0]] + attrs.drop_first() =~= attrs);
    }
}

/// Decoding a freshly emitted attribute sequence gives the attributes
/// back, in input order, byte for byte through the framing.
pub proof fn lemma_attributes_round_trip(attrs: Seq<SpecAttr>)
    requires
        forall|i: int| 0 <= i < attrs.len() ==> spec_attr_canonical(#[trigger] attrs[i]),
        forall|i: int| 0 <= i < attrs.len() ==> spec_attr_encodable(#[trigger] attrs[i]),
    ensures
        spec_parse_attrs(spec_attrs_value(attrs)) == Ok::<Seq<SpecAttr>, SpecDecodeError>(attrs),
{
    let rs = spec_attrs_records(attrs);
    assert forall|i: int| 0 <= i < rs.len() implies (#[trigger] rs[i]).value.len()
        <= NLA_MAX_VALUE_LEN by {
        lemma_attr_value_len(attrs[i]);
    }
    wire::lemma_frame_seq_parses(rs);
    lemma_attrs_records_round_trip(attrs);
}

/// One protocol message body: a command selector and the attribute
/// sequence it carries. The transport layer frames it further.
#[derive(Debug, PartialEq, Eq, Clone)]
pub struct Nl80211Message {
    pub cmd: u8,
    pub attributes: Vec<Nl80211Attr>,
}

impl Nl80211Message {
    /// The request that dumps the wireless phys.
    pub fn new_phy_get() -> (m: Self)
        ensures
            m.cmd == NL80211_CMD_GET_WIPHY,
            m.attributes.deep_view() =~= Seq::<SpecAttr>::empty(),
    {
        Nl80211Message { cmd: NL80211_CMD_GET_WIPHY, attributes: Vec::new() }
    }

    /// The request that dumps the interfaces.
    pub fn new_interface_get() -> (m: Self)
        ensures
            m.cmd == NL80211_CMD_GET_INTERFACE,
            m.attributes.deep_view() =~= Seq::<SpecAttr>::empty(),
    {
        Nl80211Message { cmd: NL80211_CMD_GET_INTERFACE, attributes: Vec::new() }
    }

    /// Appends this message's attribute sequence as its body bytes.
    pub fn emit(&self, out: &mut Vec<u8>)
        requires
            forall|i: int|
                0 <= i < self.attributes.deep_view().len() ==> spec_attr_encodable(
                    #[trigger] self.attributes.deep_view()[i],
                ),
        ensures
            final(out)@ == old(out)@ + spec_attrs_value(self.attributes.deep_view()),
    {
        emit_attributes(&self.attributes, out);
    }

    /// Decodes a message body received under the given command selector.
    pub fn parse(cmd: u8, buf: &[u8]) -> (r: Result<Self, DecodeError>)
        ensures
            match r {
                Ok(m) => m.cmd == cmd && spec_parse_attrs(buf@) == Ok::<
                    Seq<SpecAttr>,
                    SpecDecodeError,
                >(m.attributes.deep_view()),
                Err(e) => spec_parse_attrs(buf@) == Err::<Seq<SpecAttr>, SpecDecodeError>(e@),
            },
    {
        match parse_attributes(buf) {
            Ok(attributes) => Ok(Nl80211Message { cmd, attributes }),
            Err(e) => Err(e),
        }
    }
}

} // verus!
