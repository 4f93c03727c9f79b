//! Transmit-queue statistics: a nested sequence of records, each one a
//! 32-bit counter under its own sub-kind, with a catch-all for sub-kinds
//! this codec does not model.

use vstd::prelude::*;
use vstd::bytes::{spec_u32_from_le_bytes, spec_u32_to_le_bytes, u32_to_le_bytes,
    lemma_auto_spec_u32_to_from_le_bytes};
use crate::error::{DecodeError, SpecDecodeError};
use crate::wire::{self, RawNla, SpecRawNla, spec_frame, spec_frame_seq, spec_parse_stream,
    NLA_MAX_VALUE_LEN};

verus! {

pub const NL80211_TXQ_STATS_BACKLOG_BYTES: u16 = 1;

pub const NL80211_TXQ_STATS_BACKLOG_PACKETS: u16 = 2;

pub const NL80211_TXQ_STATS_FLOWS: u16 = 3;

pub const NL80211_TXQ_STATS_DROPS: u16 = 4;

pub const NL80211_TXQ_STATS_ECN_MARKS: u16 = 5;

pub const NL80211_TXQ_STATS_OVERLIMIT: u16 = 6;

pub const NL80211_TXQ_STATS_OVERMEMORY: u16 = 7;

pub const NL80211_TXQ_STATS_COLLISIONS: u16 = 8;

pub const NL80211_TXQ_STATS_TX_BYTES: u16 = 9;

pub const NL80211_TXQ_STATS_TX_PACKETS: u16 = 10;

pub const NL80211_TXQ_STATS_MAX_FLOWS: u16 = 11;

#[derive(Debug, PartialEq, Eq, Clone)]
pub enum Nl80211TransmitQueueStat {
    BacklogBytes(u32),
    BacklogPackets(u32),
    Flows(u32),
    Drops(u32),
    EcnMarks(u32),
    Overlimit(u32),
    Overmemory(u32),
    Collisions(u32),
    TxBytes(u32),
    TxPackets(u32),
    MaxFlows(u32),
    Other(RawNla),
}

/// Mathematical image of one statistics record.
#[verifier::ext_equal]
pub enum SpecTxStat {
    BacklogBytes(u32),
    BacklogPackets(u32),
    Flows(u32),
    Drops(u32),
    EcnMarks(u32),
    Overlimit(u32),
    Overmemory(u32),
    Collisions(u32),
    TxBytes(u32),
    TxPackets(u32),
    MaxFlows(u32),
    Other(SpecRawNla),
}

impl View for Nl80211TransmitQueueStat {
    type V = SpecTxStat;

    open spec fn view(&self) -> SpecTxStat {
        match self {
            Nl80211TransmitQueueStat::BacklogBytes(d) => SpecTxStat::BacklogBytes(*d),
            Nl80211TransmitQueueStat::BacklogPackets(d) => SpecTxStat::BacklogPackets(*d),
            Nl80211TransmitQueueStat::Flows(d) => SpecTxStat::Flows(*d),
            Nl80211TransmitQueueStat::Drops(d) => SpecTxStat::Drops(*d),
            Nl80211TransmitQueueStat::EcnMarks(d) => SpecTxStat::EcnMarks(*d),
            Nl80211TransmitQueueStat::Overlimit(d) => SpecTxStat::Overlimit(*d),
            Nl80211TransmitQueueStat::Overmemory(d) => SpecTxStat::Overmemory(*d),
            Nl80211TransmitQueueStat::Collisions(d) => SpecTxStat::Collisions(*d),
            Nl80211TransmitQueueStat::TxBytes(d) => SpecTxStat::TxBytes(*d),
            Nl80211TransmitQueueStat::TxPackets(d) => SpecTxStat::TxPackets(*d),
            Nl80211TransmitQueueStat::MaxFlows(d) => SpecTxStat::MaxFlows(*d),
            Nl80211TransmitQueueStat::Other(r) => SpecTxStat::Other(r@),
        }
    }
}

impl DeepView for Nl80211TransmitQueueStat {
    type V = SpecTxStat;

    open spec fn deep_view(&self) -> SpecTxStat {
        self.view()
    }
}

pub open spec fn spec_known_stat_kind(kind: u16) -> bool {
    NL80211_TXQ_STATS_BACKLOG_BYTES <= kind <= NL80211_TXQ_STATS_MAX_FLOWS
}

pub open spec fn spec_stat_kind(s: SpecTxStat) -> u16 {
    match s {
        SpecTxStat::BacklogBytes(_) => NL80211_TXQ_STATS_BACKLOG_BYTES,
        SpecTxStat::BacklogPackets(_) => NL80211_TXQ_STATS_BACKLOG_PACKETS,
        SpecTxStat::Flows(_) => NL80211_TXQ_STATS_FLOWS,
        SpecTxStat::Drops(_) => NL80211_TXQ_STATS_DROPS,
        SpecTxStat::EcnMarks(_) => NL80211_TXQ_STATS_ECN_MARKS,
        SpecTxStat::Overlimit(_) => NL80211_TXQ_STATS_OVERLIMIT,
        SpecTxStat::Overmemory(_) => NL80211_TXQ_STATS_OVERMEMORY,
        SpecTxStat::Collisions(_) => NL80211_TXQ_STATS_COLLISIONS,
        SpecTxStat::TxBytes(_) => NL80211_TXQ_STATS_TX_BYTES,
        SpecTxStat::TxPackets(_) => NL80211_TXQ_STATS_TX_PACKETS,
        SpecTxStat::MaxFlows(_) => NL80211_TXQ_STATS_MAX_FLOWS,
        SpecTxStat::Other(r) => r.kind,
    }
}

pub open spec fn spec_stat_value(s: SpecTxStat) -> Seq<u8> {
    match s {
        SpecTxStat::BacklogBytes(d) => spec_u32_to_le_bytes(d),
        SpecTxStat::BacklogPackets(d) => spec_u32_to_le_bytes(d),
        SpecTxStat::Flows(d) => spec_u32_to_le_bytes(d),
        SpecTxStat::Drops(d) => spec_u32_to_le_bytes(d),
        SpecTxStat::EcnMarks(d) => spec_u32_to_le_bytes(d),
        SpecTxStat::Overlimit(d) => spec_u32_to_le_bytes(d),
        SpecTxStat::Overmemory(d) => spec_u32_to_le_bytes(d),
        SpecTxStat::Collisions(d) => spec_u32_to_le_bytes(d),
        SpecTxStat::TxBytes(d) => spec_u32_to_le_bytes(d),
        SpecTxStat::TxPackets(d) => spec_u32_to_le_bytes(d),
        SpecTxStat::MaxFlows(d) => spec_u32_to_le_bytes(d),
        SpecTxStat::Other(r) => r.value,
    }
}

/// The counter variant belonging to a recognized sub-kind.
pub open spec fn spec_stat_from(kind: u16, d: u32) -> SpecTxStat
    recommends
        spec_known_stat_kind(kind),
{
    if kind == NL80211_TXQ_STATS_BACKLOG_BYTES {
        SpecTxStat::BacklogBytes(d)
    } else if kind == NL80211_TXQ_STATS_BACKLOG_PACKETS {
        SpecTxStat::BacklogPackets(d)
    } else if kind == NL80211_TXQ_STATS_FLOWS {
        SpecTxStat::Flows(d)
    } else if kind == NL80211_TXQ_STATS_DROPS {
        SpecTxStat::Drops(d)
    } else if kind == NL80211_TXQ_STATS_ECN_MARKS {
        SpecTxStat::EcnMarks(d)
    } else if kind == NL80211_TXQ_STATS_OVERLIMIT {
        SpecTxStat::Overlimit(d)
    } else if kind == NL80211_TXQ_STATS_OVERMEMORY {
        SpecTxStat::Overmemory(d)
    } else if kind == NL80211_TXQ_STATS_COLLISIONS {
        SpecTxStat::Collisions(d)
    } else if kind == NL80211_TXQ_STATS_TX_BYTES {
        SpecTxStat::TxBytes(d)
    } else if kind == NL80211_TXQ_STATS_TX_PACKETS {
        SpecTxStat::TxPackets(d)
    } else {
        SpecTxStat::MaxFlows(d)
    }
}

/// One nested record: a recognized sub-kind needs at least four value
/// bytes and reads its counter from the first four; any other sub-kind is
/// captured verbatim.
pub open spec fn spec_parse_stat(kind: u16, v: Seq<u8>) -> Result<SpecTxStat, SpecDecodeError> {
    if spec_known_stat_kind(kind) {
        if v.len() >= 4 {
            Ok(spec_stat_from(kind, spec_u32_from_le_bytes(v.subrange(0, 4))))
        } else {
            Err(SpecDecodeError::ValueTooShort { attr_kind: kind, required: 4, value: v })
        }
    } else {
        Ok(SpecTxStat::Other(SpecRawNla { kind, value: v }))
    }
}

pub open spec fn spec_stat_records(ss: Seq<SpecTxStat>) -> Seq<SpecRawNla> {
    ss.map_values(|s: SpecTxStat| SpecRawNla { kind: spec_stat_kind(s), value: spec_stat_value(s) })
}

/// Value bytes of the whole statistics attribute: every record framed in
/// order.
pub open spec fn spec_stats_value(ss: Seq<SpecTxStat>) -> Seq<u8> {
    spec_frame_seq(spec_stat_records(ss))
}

pub open spec fn spec_parse_stats_records(rs: Seq<SpecRawNla>) -> Result<
    Seq<SpecTxStat>,
    SpecDecodeError,
>
    decreases rs.len(),
{
    if rs.len() == 0 {
        Ok(Seq::empty())
    } else {
        match spec_parse_stat(rs[0].kind, rs[0].value) {
            Ok(s) => match spec_parse_stats_records(rs.drop_first()) {
                Ok(rest) => Ok(seq![s] + rest),
                Err(e) => Err(e),
            },
            Err(e) => Err(e),
        }
    }
}

/// The whole statistics attribute: split the value into nested records,
/// then decode each; any framing failure is fatal to the attribute.
pub open spec fn spec_parse_stats_value(v: Seq<u8>) -> Result<Seq<SpecTxStat>, SpecDecodeError> {
    match spec_parse_stream(v) {
        Ok(rs) => spec_parse_stats_records(rs),
        Err(rem) => Err(SpecDecodeError::Truncated { remaining: rem }),
    }
}

/// The record fits its 16-bit length field.
pub open spec fn spec_stat_encodable(s: SpecTxStat) -> bool {
    match s {
        SpecTxStat::Other(r) => r.value.len() <= NLA_MAX_VALUE_LEN,
        _ => true,
    }
}

/// Re-decoding the record gives it back: its catch-all carries no
/// recognized sub-kind.
pub open spec fn spec_stat_canonical(s: SpecTxStat) -> bool {
    match s {
        SpecTxStat::Other(r) => !spec_known_stat_kind(r.kind),
        _ => true,
    }
}

impl Nl80211TransmitQueueStat {
    pub fn kind(&self) -> (k: u16)
        ensures
            k == spec_stat_kind(self@),
    {
        match self {
            Nl80211TransmitQueueStat::BacklogBytes(_) => NL80211_TXQ_STATS_BACKLOG_BYTES,
            Nl80211TransmitQueueStat::BacklogPackets(_) => NL80211_TXQ_STATS_BACKLOG_PACKETS,
            Nl80211TransmitQueueStat::Flows(_) => NL80211_TXQ_STATS_FLOWS,
            Nl80211TransmitQueueStat::Drops(_) => NL80211_TXQ_STATS_DROPS,
            Nl80211TransmitQueueStat::EcnMarks(_) => NL80211_TXQ_STATS_ECN_MARKS,
            Nl80211TransmitQueueStat::Overlimit(_) => NL80211_TXQ_STATS_OVERLIMIT,
            Nl80211TransmitQueueStat::Overmemory(_) => NL80211_TXQ_STATS_OVERMEMORY,
            Nl80211TransmitQueueStat::Collisions(_) => NL80211_TXQ_STATS_COLLISIONS,
            Nl80211TransmitQueueStat::TxBytes(_) => NL80211_TXQ_STATS_TX_BYTES,
            Nl80211TransmitQueueStat::TxPackets(_) => NL80211_TXQ_STATS_TX_PACKETS,
            Nl80211TransmitQueueStat::MaxFlows(_) => NL80211_TXQ_STATS_MAX_FLOWS,
            Nl80211TransmitQueueStat::Other(r) => r.kind,
        }
    }

    pub fn value_len(&self) -> (n: usize)
        ensures
            n == spec_stat_value(self@).len(),
    {
        match self {
            Nl80211TransmitQueueStat::Other(r) => r.value.len(),
            _ => {
                proof {
                    lemma_auto_spec_u32_to_from_le_bytes();
                }
                4
            },
        }
    }

    pub fn emit_value(&self, out: &mut Vec<u8>)
        ensures
            final(out)@ == old(out)@ + spec_stat_value(self@),
    {
        match self {
            Nl80211TransmitQueueStat::BacklogBytes(d) => push_u32(*d, out),
            Nl80211TransmitQueueStat::BacklogPackets(d) => push_u32(*d, out),
            Nl80211TransmitQueueStat::Flows(d) => push_u32(*d, out),
            Nl80211TransmitQueueStat::Drops(d) => push_u32(*d, out),
            Nl80211TransmitQueueStat::EcnMarks(d) => push_u32(*d, out),
            Nl80211TransmitQueueStat::Overlimit(d) => push_u32(*d, out),
            Nl80211TransmitQueueStat::Overmemory(d) => push_u32(*d, out),
            Nl80211TransmitQueueStat::Collisions(d) => push_u32(*d, out),
            Nl80211TransmitQueueStat::TxBytes(d) => push_u32(*d, out),
            Nl80211TransmitQueueStat::TxPackets(d) => push_u32(*d, out),
            Nl80211TransmitQueueStat::MaxFlows(d) => push_u32(*d, out),
            Nl80211TransmitQueueStat::Other(r) => {
                out.extend_from_slice(r.value.as_slice());
            },
        }
    }

    /// Whether this record fits its 16-bit length field when framed.
    pub fn is_encodable(&self) -> (r: bool)
        ensures
            r == spec_stat_encodable(self@),
    {
        match self {
            Nl80211TransmitQueueStat::Other(raw) => raw.value.len() <= NLA_MAX_VALUE_LEN,
            _ => true,
        }
    }

    /// Decodes one nested record of the statistics attribute.
    pub fn parse(kind: u16, v: &[u8]) -> (r: Result<Self, DecodeError>)
        ensures
            match r {
                Ok(s) => spec_parse_stat(kind, v@) == Ok::<SpecTxStat, SpecDecodeError>(s@),
                Err(e) => spec_parse_stat(kind, v@) == Err::<SpecTxStat, SpecDecodeError>(e@),
            },
    {
        if NL80211_TXQ_STATS_BACKLOG_BYTES <= kind && kind <= NL80211_TXQ_STATS_MAX_FLOWS {
            if v.len() >= 4 {
                let d = wire::read_u32_prefix(v);
                Ok(
                    if kind == NL80211_TXQ_STATS_BACKLOG_BYTES {
                        Nl80211TransmitQueueStat::BacklogBytes(d)
                    } else if kind == NL80211_TXQ_STATS_BACKLOG_PACKETS {
                        Nl80211TransmitQueueStat::BacklogPackets(d)
                    } else if kind == NL80211_TXQ_STATS_FLOWS {
                        Nl80211TransmitQueueStat::Flows(d)
                    } else if kind == NL80211_TXQ_STATS_DROPS {
                        Nl80211TransmitQueueStat::Drops(d)
                    } else if kind == NL80211_TXQ_STATS_ECN_MARKS {
                        Nl80211TransmitQueueStat::EcnMarks(d)
                    } else if kind == NL80211_TXQ_STATS_OVERLIMIT {
                        Nl80211TransmitQueueStat::Overlimit(d)
                    } else if kind == NL80211_TXQ_STATS_OVERMEMORY {
                        Nl80211TransmitQueueStat::Overmemory(d)
                    } else if kind == NL80211_TXQ_STATS_COLLISIONS {
                        Nl80211TransmitQueueStat::Collisions(d)
                    } else if kind == NL80211_TXQ_STATS_TX_BYTES {
                        Nl80211TransmitQueueStat::TxBytes(d)
                    } else if kind == NL80211_TXQ_STATS_TX_PACKETS {
                        Nl80211TransmitQueueStat::TxPackets(d)
                    } else {
                        Nl80211TransmitQueueStat::MaxFlows(d)
                    },
                )
            } else {
                Err(
                    DecodeError::ValueTooShort {
                        attr_kind: kind,
                        required: 4,
                        value: vstd::slice::slice_to_vec(v),
                    },
                )
            }
        } else {
            Ok(
                Nl80211TransmitQueueStat::Other(
                    RawNla { kind, value: vstd::slice::slice_to_vec(v) },
                ),
            )
        }
    }
}

/// Appends a 32-bit counter in the wire byte order.
fn push_u32(d: u32, out: &mut Vec<u8>)
    ensures
        final(out)@ == old(out)@ + spec_u32_to_le_bytes(d),
{
    let mut bytes = u32_to_le_bytes(d);
    out.append(&mut bytes);
}

/// Appends the whole statistics attribute value: every record framed in
/// order.
pub fn emit_stats_value(stats: &Vec<Nl80211TransmitQueueStat>, out: &mut Vec<u8>)
    requires
        forall|i: int|
            0 <= i < stats.deep_view().len() ==> spec_stat_encodable(#[trigger] stats.deep_view()[i]),
    ensures
        final(out)@ == old(out)@ + spec_stats_value(stats.deep_view()),
{
    let ghost records = spec_stat_records(stats.deep_view());
    let mut i: usize = 0;
    proof {
        assert(records.take(0) =~= Seq::<SpecRawNla>::empty());
        assert(out@ + spec_frame_seq(records.take(0)) =~= out@);
    }
    while i < stats.len()
        invariant
            i <= stats.deep_view().len(),
            stats.deep_view().len() == stats@.len(),
            records == spec_stat_records(stats.deep_view()),
            forall|j: int|
                0 <= j < stats.deep_view().len() ==> spec_stat_encodable(
                    #[trigger] stats.deep_view()[j],
                ),
            out@ == old(out)@ + spec_frame_seq(records.take(i as int)),
        decreases stats@.len() - i,
    {
        let stat = &stats[i];
        let mut value: Vec<u8> = Vec::new();
        stat.emit_value(&mut value);
        proof {
            assert(value@ =~= spec_stat_value(stats.deep_view()[i as int]));
            lemma_auto_spec_u32_to_from_le_bytes();
            assert(spec_stat_encodable(stats.deep_view()[i as int]));
            assert(value@.len() <= NLA_MAX_VALUE_LEN);
        }
        wire::emit_frame(stat.kind(), value.as_slice(), out);
        proof {
            wire::lemma_frame_seq_take_step(records, i as int);
            assert((old(out)@ + spec_frame_seq(records.take(i as int))) + spec_frame(
                records[i as int].kind,
                records[i as int].value,
            ) =~= old(out)@ + spec_frame_seq(records.take(i + 1)));
        }
        i = i + 1;
    }
    proof {
        assert(records.take(stats.deep_view().len() as int) =~= records);
    }
}

/// Length of the statistics attribute value as it will be emitted.
pub fn stats_value_len(stats: &Vec<Nl80211TransmitQueueStat>) -> (n: usize)
    requires
        forall|i: int|
            0 <= i < stats.deep_view().len() ==> spec_stat_encodable(#[trigger] stats.deep_view()[i]),
    ensures
        n == spec_stats_value(stats.deep_view()).len(),
{
    let mut scratch: Vec<u8> = Vec::new();
    emit_stats_value(stats, &mut scratch);
    scratch.len()
}

/// Decodes the whole statistics attribute value.
pub fn parse_stats_value(v: &[u8]) -> (r: Result<Vec<Nl80211TransmitQueueStat>, DecodeError>)
    ensures
        match r {
            Ok(ss) => spec_parse_stats_value(v@) == Ok::<Seq<SpecTxStat>, SpecDecodeError>(
                ss.deep_view(),
            ),
            Err(e) => spec_parse_stats_value(v@) == Err::<Seq<SpecTxStat>, SpecDecodeError>(e@),
        },
{
    let records = match wire::parse_stream(v) {
        Ok(rs) => rs,
        Err(rem) => {
            return Err(DecodeError::Truncated { remaining: rem });
        },
    };
    let ghost rs = records.deep_view();
    let mut out: Vec<Nl80211TransmitQueueStat> = Vec::new();
    let mut i: usize = 0;
    proof {
        assert(rs.skip(0) =~= rs);
        match spec_parse_stats_records(rs) {
            Ok(rest) => {
                assert(out.deep_view() + rest =~= rest);
            },
            Err(_) => {},
        }
    }
    while i < records.len()
        invariant
            i <= records@.len(),
            rs == records.deep_view(),
            rs.len() == records@.len(),
            spec_parse_stream(v@) == Ok::<Seq<SpecRawNla>, Seq<u8>>(rs),
            spec_parse_stats_records(rs) == (match spec_parse_stats_records(rs.skip(i as int)) {
                Ok(rest) => Ok::<Seq<SpecTxStat>, SpecDecodeError>(out.deep_view() + rest),
                Err(e) => Err::<Seq<SpecTxStat>, SpecDecodeError>(e),
            }),
        decreases records@.len() - i,
    {
        let ghost out0 = out.deep_view();
        let rec = &records[i];
        proof {
            assert(rs.skip(i as int)[0] == rs[i as int]);
            assert(rs.skip(i as int).drop_first() =~= rs.skip(i + 1));
        }
        match Nl80211TransmitQueueStat::parse(rec.kind, rec.value.as_slice()) {
            Ok(s) => {
                out.push(s);
                proof {
                    assert(out.deep_view() =~= out0 + seq![out.deep_view().last()]);
                    match spec_parse_stats_records(rs.skip(i + 1)) {
                        Ok(rest) => {
                            assert((out0 + seq![out.deep_view().last()]) + rest =~= out0 + (seq![
                                out.deep_view().last(),
                            ] + rest));
                        },
                        Err(_) => {},
                    }
                }
            },
            Err(e) => {
                proof {
                    assert(spec_parse_stat(rs[i as int].kind, rs[i as int].value)
                        == Err::<SpecTxStat, SpecDecodeError>(e@));
                    assert(spec_parse_stats_records(rs.skip(i as int)) == Err::<
                        Seq<SpecTxStat>,
                        SpecDecodeError,
                    >(e@));
                }
                return Err(e);
            },
        }
        i = i + 1;
    }
    proof {
        assert(rs.skip(rs.len() as int) =~= Seq::<SpecRawNla>::empty());
        assert(out.deep_view() + Seq::<SpecTxStat>::empty() =~= out.deep_view());
    }
    Ok(out)
}

/// Re-decoding one freshly encoded record gives it back.
pub proof fn lemma_stat_round_trip(s: SpecTxStat)
    requires
        spec_stat_canonical(s),
    ensures
        spec_parse_stat(spec_stat_kind(s), spec_stat_value(s)) == Ok::<SpecTxStat, SpecDecodeError>(
            s,
        ),
{
    lemma_auto_spec_u32_to_from_le_bytes();
    match s {
        SpecTxStat::Other(r) => {
            assert(SpecRawNla { kind: r.kind, value: r.value } =~= r);
        },
        _ => {
            let v = spec_stat_value(s);
            assert(v.subrange(0, 4) =~= v);
        },
    }
}

/// Re-decoding a freshly encoded record sequence gives it back.
pub proof fn lemma_stats_records_round_trip(ss: Seq<SpecTxStat>)
    requires
        forall|i: int| 0 <= i < ss.len() ==> spec_stat_canonical(#[trigger] ss[i]),
    ensures
        spec_parse_stats_records(spec_stat_records(ss)) == Ok::<Seq<SpecTxStat>, SpecDecodeError>(
            ss,
        ),
    decreases ss.len(),
{
    let rs = spec_stat_records(ss);
    if ss.len() == 0 {
        assert(rs =~= Seq::<SpecRawNla>::empty());
        assert(ss =~= Seq::<SpecTxStat>::empty());
    } else {
        lemma_stat_round_trip(ss[0]);
        assert(rs.drop_first() =~= spec_stat_records(ss.drop_first()));
        lemma_stats_records_round_trip(ss.drop_first());
        assert(seq![ss[0]] + ss.drop_first() =~= ss);
    }
}

/// Decoding the freshly emitted statistics value gives the records back.
pub proof fn lemma_stats_value_round_trip(ss: Seq<SpecTxStat>)
    requires
        forall|i: int| 0 <= i < ss.len() ==> spec_stat_canonical(#[trigger] ss[i]),
        forall|i: int| 0 <= i < ss.len() ==> spec_stat_encodable(#[trigger] ss[i]),
    ensures
        spec_parse_stats_value(spec_stats_value(ss)) == Ok::<Seq<SpecTxStat>, SpecDecodeError>(ss),
{
    let rs = spec_stat_records(ss);
    assert forall|i: int| 0 <= i < rs.len() implies (#[trigger] rs[i]).value.len()
        <= NLA_MAX_VALUE_LEN by {
        lemma_auto_spec_u32_to_from_le_bytes();
        assert(spec_stat_encodable(ss[i]));
    }
    wire::lemma_frame_seq_parses(rs);
    lemma_stats_records_round_trip(ss);
}

} // verus!
