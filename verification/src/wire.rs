//! Framing rules for one attribute record: a 16-bit type code, a 16-bit
//! length that counts the 4-byte header plus the value, the value bytes,
//! and zero padding up to the next multiple of 4.
//!
//! The kernel emits the two header fields in the host's native byte order;
//! this codec fixes the little-endian layout used by the targets it runs on.

use vstd::prelude::*;
use vstd::bytes::{
    spec_u16_to_le_bytes, spec_u16_from_le_bytes, lemma_auto_spec_u16_to_from_le_bytes,
    spec_u32_from_le_bytes, spec_u64_from_le_bytes, u16_from_le_bytes, u16_to_le_bytes,
    u32_from_le_bytes, u64_from_le_bytes,
};
use vstd::slice::{slice_subrange, slice_to_vec};

verus! {

/// Largest value that fits a record, since the 16-bit length field counts
/// the header too.
pub const NLA_MAX_VALUE_LEN: usize = 65531;

/// A raw record: a type code together with its value bytes, no framing.
#[derive(Debug, Clone, PartialEq, Eq)]
pub struct RawNla {
    pub kind: u16,
    pub value: Vec<u8>,
}

/// Mathematical image of a raw record.
#[verifier::ext_equal]
pub struct SpecRawNla {
    pub kind: u16,
    pub value: Seq<u8>,
}

impl View for RawNla {
    type V = SpecRawNla;

    open spec fn view(&self) -> SpecRawNla {
        SpecRawNla { kind: self.kind, value: self.value@ }
    }
}

impl DeepView for RawNla {
    type V = SpecRawNla;

    open spec fn deep_view(&self) -> SpecRawNla {
        self.view()
    }
}

/// Zero bytes that carry a record to the next 4-byte boundary.
pub open spec fn spec_pad_len(n: int) -> int {
    (4 - n % 4) % 4
}

/// Length of a span of `n` bytes once padded.
pub open spec fn spec_aligned_len(n: int) -> int {
    n + spec_pad_len(n)
}

pub open spec fn spec_zeros(n: int) -> Seq<u8> {
    Seq::new(n as nat, |i: int| 0u8)
}

/// One framed record: type code, length counting header plus value, the
/// value itself, and zero padding to the next multiple of 4.
pub open spec fn spec_frame(kind: u16, value: Seq<u8>) -> Seq<u8>
    recommends
        value.len() <= NLA_MAX_VALUE_LEN,
{
    spec_u16_to_le_bytes(kind) + spec_u16_to_le_bytes((value.len() + 4) as u16) + value
        + spec_zeros(spec_pad_len(value.len() + 4 as int))
}

/// A sequence of records framed back to back.
pub open spec fn spec_frame_seq(records: Seq<SpecRawNla>) -> Seq<u8>
    decreases records.len(),
{
    if records.len() == 0 {
        Seq::empty()
    } else {
        spec_frame(records[0].kind, records[0].value) + spec_frame_seq(records.drop_first())
    }
}

/// Splits a buffer into its raw records. Fails, yielding the remaining
/// bytes, when a header does not fit or a declared length is shorter than
/// a header or longer than what remains. Padding after the last record may
/// be truncated.
pub open spec fn spec_parse_stream(b: Seq<u8>) -> Result<Seq<SpecRawNla>, Seq<u8>>
    decreases b.len(),
{
    if b.len() == 0 {
        Ok(Seq::empty())
    } else if b.len() < 4 {
        Err(b)
    } else {
        let total = spec_u16_from_le_bytes(b.subrange(2, 4)) as int;
        if total < 4 || total > b.len() {
            Err(b)
        } else {
            let kind = spec_u16_from_le_bytes(b.subrange(0, 2));
            let value = b.subrange(4, total);
            let advance = if spec_aligned_len(total) > b.len() {
                b.len() as int
            } else {
                spec_aligned_len(total)
            };
            match spec_parse_stream(b.skip(advance)) {
                Ok(rest) => Ok(seq![SpecRawNla { kind, value }] + rest),
                Err(e) => Err(e),
            }
        }
    }
}

/// Reads the first byte of a value; bytes past it are ignored.
pub fn read_u8_prefix(v: &[u8]) -> (x: u8)
    requires
        v@.len() >= 1,
    ensures
        x == v@[0],
{
    v[0]
}

/// Reads a 16-bit integer from the first two bytes of a value.
pub fn read_u16_prefix(v: &[u8]) -> (x: u16)
    requires
        v@.len() >= 2,
    ensures
        x == spec_u16_from_le_bytes(v@.subrange(0, 2)),
{
    u16_from_le_bytes(slice_subrange(v, 0, 2))
}

/// Reads a 32-bit integer from the first four bytes of a value.
pub fn read_u32_prefix(v: &[u8]) -> (x: u32)
    requires
        v@.len() >= 4,
    ensures
        x == spec_u32_from_le_bytes(v@.subrange(0, 4)),
{
    u32_from_le_bytes(slice_subrange(v, 0, 4))
}

/// Reads a 64-bit integer from the first eight bytes of a value.
pub fn read_u64_prefix(v: &[u8]) -> (x: u64)
    requires
        v@.len() >= 8,
    ensures
        x == spec_u64_from_le_bytes(v@.subrange(0, 8)),
{
    u64_from_le_bytes(slice_subrange(v, 0, 8))
}

/// Appends one framed record: header, value, zero padding.
pub fn emit_frame(kind: u16, value: &[u8], out: &mut Vec<u8>)
    requires
        value@.len() <= NLA_MAX_VALUE_LEN,
    ensures
        final(out)@ == old(out)@ + spec_frame(kind, value@),
{
    let ghost base = out@;
    let total: usize = value.len() + 4;
    let mut header = u16_to_le_bytes(kind);
    out.append(&mut header);
    let mut length = u16_to_le_bytes(total as u16);
    out.append(&mut length);
    out.extend_from_slice(value);
    let pad: usize = (4 - total % 4) % 4;
    let mut i: usize = 0;
    while i < pad
        invariant
            i <= pad,
            pad == spec_pad_len(value@.len() as int + 4),
            out@ == base + spec_u16_to_le_bytes(kind) + spec_u16_to_le_bytes(
                (value@.len() + 4) as u16,
            ) + value@ + spec_zeros(i as int),
        decreases pad - i,
    {
        out.push(0);
        proof {
            assert(spec_zeros(i as int).push(0u8) =~= spec_zeros(i + 1 as int));
        }
        i = i + 1;
    }
    proof {
        assert(out@ =~= base + spec_frame(kind, value@));
    }
}

/// Splits a buffer into its raw records, or hands back the bytes at which
/// framing failed.
pub fn parse_stream(buf: &[u8]) -> (r: Result<Vec<RawNla>, Vec<u8>>)
    ensures
        match r {
            Ok(records) => spec_parse_stream(buf@) == Ok::<Seq<SpecRawNla>, Seq<u8>>(
                records.deep_view(),
            ),
            Err(rem) => spec_parse_stream(buf@) == Err::<Seq<SpecRawNla>, Seq<u8>>(rem@),
        },
{
    let mut acc: Vec<RawNla> = Vec::new();
    let mut off: usize = 0;
    proof {
        assert(buf@.skip(0) =~= buf@);
        match spec_parse_stream(buf@) {
            Ok(rest) => {
                assert(acc.deep_view() =~= Seq::<SpecRawNla>::empty());
                assert(acc.deep_view() + rest =~= rest);
            },
            Err(_) => {},
        }
    }
    while off < buf.len()
        invariant
            off <= buf@.len(),
            spec_parse_stream(buf@) == (match spec_parse_stream(buf@.skip(off as int)) {
                Ok(rest) => Ok::<Seq<SpecRawNla>, Seq<u8>>(acc.deep_view() + rest),
                Err(e) => Err::<Seq<SpecRawNla>, Seq<u8>>(e),
            }),
        decreases buf@.len() - off,
    {
        let ghost rem_bytes = buf@.skip(off as int);
        let ghost acc0 = acc.deep_view();
        let remaining = buf.len() - off;
        if remaining < 4 {
            let rem = slice_to_vec(slice_subrange(buf, off, buf.len()));
            proof {
                assert(rem@ =~= rem_bytes);
            }
            return Err(rem);
        }
        let head = slice_subrange(buf, off, buf.len());
        proof {
            assert(head@ =~= rem_bytes);
        }
        let kind = read_u16_prefix(head);
        let total = read_u16_prefix(slice_subrange(buf, off + 2, buf.len())) as usize;
        proof {
            assert(buf@.subrange(off + 2, buf@.len() as int).subrange(0, 2) =~= rem_bytes
                .subrange(2, 4));
        }
        if total < 4 || total > remaining {
            let rem = slice_to_vec(slice_subrange(buf, off, buf.len()));
            proof {
                assert(rem@ =~= rem_bytes);
            }
            return Err(rem);
        }
        let value = slice_to_vec(slice_subrange(buf, off + 4, off + total));
        proof {
            assert(value@ =~= rem_bytes.subrange(4, total as int));
        }
        let aligned = total + (4 - total % 4) % 4;
        let advance = if aligned > remaining {
            remaining
        } else {
            aligned
        };
        acc.push(RawNla { kind, value });
        proof {
            let adv = advance as int;
            let rec = SpecRawNla { kind, value: rem_bytes.subrange(4, total as int) };
            assert(rem_bytes.skip(adv) =~= buf@.skip(off + adv));
            assert(spec_parse_stream(rem_bytes) == (match spec_parse_stream(rem_bytes.skip(adv)) {
                Ok(rest) => Ok::<Seq<SpecRawNla>, Seq<u8>>(seq![rec] + rest),
                Err(e) => Err::<Seq<SpecRawNla>, Seq<u8>>(e),
            }));
            assert(acc.deep_view() =~= acc0 + seq![rec]);
            match spec_parse_stream(buf@.skip(off + adv)) {
                Ok(rest) => {
                    assert((acc0 + seq![rec]) + rest =~= acc0 + (seq![rec] + rest));
                },
                Err(_) => {},
            }
        }
        off = off + advance;
    }
    proof {
        assert(buf@.skip(off as int) =~= Seq::<u8>::empty());
        assert(acc.deep_view() + Seq::<SpecRawNla>::empty() =~= acc.deep_view());
    }
    Ok(acc)
}

/// Framing one more record appends one more frame.
pub proof fn lemma_frame_seq_take_step(records: Seq<SpecRawNla>, i: int)
    requires
        0 <= i < records.len(),
    ensures
        spec_frame_seq(records.take(i + 1)) == spec_frame_seq(records.take(i)) + spec_frame(
            records[i].kind,
            records[i].value,
        ),
    decreases i,
{
    if i == 0 {
        assert(records.take(1) =~= seq![records[0]]);
        assert(records.take(1).drop_first() =~= Seq::<SpecRawNla>::empty());
        assert(records.take(0) =~= Seq::<SpecRawNla>::empty());
        assert(spec_frame_seq(records.take(0)) + spec_frame(records[0].kind, records[0].value)
            =~= spec_frame(records[0].kind, records[0].value));
        assert(spec_frame_seq(records.take(1)) =~= spec_frame(records[0].kind, records[0].value));
    } else {
        let tail = records.drop_first();
        lemma_frame_seq_take_step(tail, i - 1);
        assert(records.take(i + 1).drop_first() =~= tail.take(i));
        assert(records.take(i).drop_first() =~= tail.take(i - 1));
        assert(records.take(i + 1)[0] == records[0]);
        assert(records.take(i)[0] == records[0]);
        assert(tail[i - 1] == records[i]);
        let head = spec_frame(records[0].kind, records[0].value);
        assert(spec_frame_seq(records.take(i + 1)) == head + spec_frame_seq(tail.take(i)));
        assert(spec_frame_seq(records.take(i)) == head + spec_frame_seq(tail.take(i - 1)));
        assert(head + (spec_frame_seq(tail.take(i - 1)) + spec_frame(
            records[i].kind,
            records[i].value,
        )) =~= (head + spec_frame_seq(tail.take(i - 1))) + spec_frame(
            records[i].kind,
            records[i].value,
        ));
    }
}

/// Every frame is as long as its padded record.
pub proof fn lemma_frame_len(kind: u16, value: Seq<u8>)
    requires
        value.len() <= NLA_MAX_VALUE_LEN,
    ensures
        spec_frame(kind, value).len() == spec_aligned_len(value.len() + 4 as int),
        spec_frame(kind, value).len() % 4 == 0,
{
    lemma_auto_spec_u16_to_from_le_bytes();
}

/// A framed sequence of records parses back to exactly those records: the
/// framing and the splitting rules are mutual inverses whenever every value
/// fits its 16-bit length field.
pub proof fn lemma_frame_seq_parses(records: Seq<SpecRawNla>)
    requires
        forall|i: int|
            0 <= i < records.len() ==> (#[trigger] records[i]).value.len() <= NLA_MAX_VALUE_LEN,
    ensures
        spec_parse_stream(spec_frame_seq(records)) == Ok::<Seq<SpecRawNla>, Seq<u8>>(records),
    decreases records.len(),
{
    lemma_auto_spec_u16_to_from_le_bytes();
    if records.len() == 0 {
        assert(records =~= Seq::<SpecRawNla>::empty());
        assert(spec_frame_seq(records).len() == 0);
    } else {
        let rec = records[0];
        let frame = spec_frame(rec.kind, rec.value);
        let rest = spec_frame_seq(records.drop_first());
        let whole = spec_frame_seq(records);
        assert(whole == frame + rest);
        let total = rec.value.len() + 4;
        assert(spec_u16_to_le_bytes(rec.kind).len() == 2);
        assert(spec_u16_to_le_bytes(total as u16).len() == 2);
        assert(frame.len() == spec_aligned_len(total as int));
        assert(whole.len() >= frame.len() >= 4);
        assert(whole.subrange(2, 4) =~= spec_u16_to_le_bytes(total as u16));
        let parsed_total = spec_u16_from_le_bytes(whole.subrange(2, 4)) as int;
        assert(parsed_total == total);
        assert(whole.subrange(0, 2) =~= spec_u16_to_le_bytes(rec.kind));
        let parsed_kind = spec_u16_from_le_bytes(whole.subrange(0, 2));
        assert(parsed_kind == rec.kind);
        assert(whole.subrange(4, total as int) =~= rec.value);
        lemma_frame_seq_parses(records.drop_first());
        assert(whole.skip(frame.len() as int) =~= rest);
        let advance = spec_aligned_len(parsed_total);
        assert(advance == frame.len());
        assert(!(advance > whole.len()));
        assert(spec_parse_stream(whole) == (match spec_parse_stream(whole.skip(advance)) {
            Ok(tail) => Ok::<Seq<SpecRawNla>, Seq<u8>>(
                seq![SpecRawNla { kind: parsed_kind, value: whole.subrange(4, parsed_total) }]
                    + tail,
            ),
            Err(e) => Err::<Seq<SpecRawNla>, Seq<u8>>(e),
        }));
        assert(spec_parse_stream(whole.skip(advance)) == Ok::<Seq<SpecRawNla>, Seq<u8>>(
            records.drop_first(),
        ));
        assert(seq![SpecRawNla { kind: parsed_kind, value: whole.subrange(4, parsed_total) }]
            + records.drop_first() =~~= records);
    }
}

} // verus!
