//! Cipher-suite scalar codec: the 4-byte OUI-plus-selector identifiers the
//! protocol defines, plus one catch-all variant for any other value. A
//! suite list is a flat concatenation of 4-byte values with no per-element
//! framing.

use vstd::prelude::*;
use vstd::bytes::{spec_u32_from_le_bytes, spec_u32_to_le_bytes, u32_to_le_bytes,
    lemma_auto_spec_u32_to_from_le_bytes};
use vstd::slice::slice_subrange;
use crate::wire;

verus! {

pub const CIPHER_SUITE_WEP40: u32 = 0x000FAC01;

pub const CIPHER_SUITE_TKIP: u32 = 0x000FAC02;

pub const CIPHER_SUITE_CCMP: u32 = 0x000FAC04;

pub const CIPHER_SUITE_WEP104: u32 = 0x000FAC05;

pub const CIPHER_SUITE_CMAC: u32 = 0x000FAC06;

pub const CIPHER_SUITE_GCMP128: u32 = 0x000FAC08;

pub const CIPHER_SUITE_GCMP256: u32 = 0x000FAC09;

pub const CIPHER_SUITE_CCMP256: u32 = 0x000FAC0A;

pub const CIPHER_SUITE_GMAC128: u32 = 0x000FAC0B;

pub const CIPHER_SUITE_GMAC256: u32 = 0x000FAC0C;

pub const CIPHER_SUITE_CMAC256: u32 = 0x000FAC0D;

pub const CIPHER_SUITE_SMS4: u32 = 0x00147201;

#[derive(Debug, PartialEq, Eq, Clone, Copy)]
pub enum Nl80211CipherSuite {
    WEP40,
    TKIP,
    CCMP,
    WEP104,
    CMAC,
    GCMP128,
    GCMP256,
    CCMP256,
    GMAC128,
    GMAC256,
    CMAC256,
    SMS4,
    Other(u32),
}

/// Total decoding: every raw value maps to a suite, unrecognized ones to
/// the catch-all.
pub open spec fn spec_cipher_suite_from(raw: u32) -> Nl80211CipherSuite {
    if raw == CIPHER_SUITE_WEP40 {
        Nl80211CipherSuite::WEP40
    } else if raw == CIPHER_SUITE_TKIP {
        Nl80211CipherSuite::TKIP
    } else if raw == CIPHER_SUITE_CCMP {
        Nl80211CipherSuite::CCMP
    } else if raw == CIPHER_SUITE_WEP104 {
        Nl80211CipherSuite::WEP104
    } else if raw == CIPHER_SUITE_CMAC {
        Nl80211CipherSuite::CMAC
    } else if raw == CIPHER_SUITE_GCMP128 {
        Nl80211CipherSuite::GCMP128
    } else if raw == CIPHER_SUITE_GCMP256 {
        Nl80211CipherSuite::GCMP256
    } else if raw == CIPHER_SUITE_CCMP256 {
        Nl80211CipherSuite::CCMP256
    } else if raw == CIPHER_SUITE_GMAC128 {
        Nl80211CipherSuite::GMAC128
    } else if raw == CIPHER_SUITE_GMAC256 {
        Nl80211CipherSuite::GMAC256
    } else if raw == CIPHER_SUITE_CMAC256 {
        Nl80211CipherSuite::CMAC256
    } else if raw == CIPHER_SUITE_SMS4 {
        Nl80211CipherSuite::SMS4
    } else {
        Nl80211CipherSuite::Other(raw)
    }
}

pub open spec fn spec_cipher_suite_into(s: Nl80211CipherSuite) -> u32 {
    match s {
        Nl80211CipherSuite::WEP40 => CIPHER_SUITE_WEP40,
        Nl80211CipherSuite::TKIP => CIPHER_SUITE_TKIP,
        Nl80211CipherSuite::CCMP => CIPHER_SUITE_CCMP,
        Nl80211CipherSuite::WEP104 => CIPHER_SUITE_WEP104,
        Nl80211CipherSuite::CMAC => CIPHER_SUITE_CMAC,
        Nl80211CipherSuite::GCMP128 => CIPHER_SUITE_GCMP128,
        Nl80211CipherSuite::GCMP256 => CIPHER_SUITE_GCMP256,
        Nl80211CipherSuite::CCMP256 => CIPHER_SUITE_CCMP256,
        Nl80211CipherSuite::GMAC128 => CIPHER_SUITE_GMAC128,
        Nl80211CipherSuite::GMAC256 => CIPHER_SUITE_GMAC256,
        Nl80211CipherSuite::CMAC256 => CIPHER_SUITE_CMAC256,
        Nl80211CipherSuite::SMS4 => CIPHER_SUITE_SMS4,
        Nl80211CipherSuite::Other(raw) => raw,
    }
}

/// Holds when re-decoding the encoding of `s` gives `s` back.
pub open spec fn cipher_suite_canonical(s: Nl80211CipherSuite) -> bool {
    spec_cipher_suite_from(spec_cipher_suite_into(s)) == s
}

impl Nl80211CipherSuite {
    pub fn from(raw: u32) -> (s: Self)
        ensures
            s == spec_cipher_suite_from(raw),
            cipher_suite_canonical(s),
    {
        if raw == CIPHER_SUITE_WEP40 {
            Nl80211CipherSuite::WEP40
        } else if raw == CIPHER_SUITE_TKIP {
            Nl80211CipherSuite::TKIP
        } else if raw == CIPHER_SUITE_CCMP {
            Nl80211CipherSuite::CCMP
        } else if raw == CIPHER_SUITE_WEP104 {
            Nl80211CipherSuite::WEP104
        } else if raw == CIPHER_SUITE_CMAC {
            Nl80211CipherSuite::CMAC
        } else if raw == CIPHER_SUITE_GCMP128 {
            Nl80211CipherSuite::GCMP128
        } else if raw == CIPHER_SUITE_GCMP256 {
            Nl80211CipherSuite::GCMP256
        } else if raw == CIPHER_SUITE_CCMP256 {
            Nl80211CipherSuite::CCMP256
        } else if raw == CIPHER_SUITE_GMAC128 {
            Nl80211CipherSuite::GMAC128
        } else if raw == CIPHER_SUITE_GMAC256 {
            Nl80211CipherSuite::GMAC256
        } else if raw == CIPHER_SUITE_CMAC256 {
            Nl80211CipherSuite::CMAC256
        } else if raw == CIPHER_SUITE_SMS4 {
            Nl80211CipherSuite::SMS4
        } else {
            Nl80211CipherSuite::Other(raw)
        }
    }

    pub fn into(self) -> (raw: u32)
        ensures
            raw == spec_cipher_suite_into(self),
    {
        match self {
            Nl80211CipherSuite::WEP40 => CIPHER_SUITE_WEP40,
            Nl80211CipherSuite::TKIP => CIPHER_SUITE_TKIP,
            Nl80211CipherSuite::CCMP => CIPHER_SUITE_CCMP,
            Nl80211CipherSuite::WEP104 => CIPHER_SUITE_WEP104,
            Nl80211CipherSuite::CMAC => CIPHER_SUITE_CMAC,
            Nl80211CipherSuite::GCMP128 => CIPHER_SUITE_GCMP128,
            Nl80211CipherSuite::GCMP256 => CIPHER_SUITE_GCMP256,
            Nl80211CipherSuite::CCMP256 => CIPHER_SUITE_CCMP256,
            Nl80211CipherSuite::GMAC128 => CIPHER_SUITE_GMAC128,
            Nl80211CipherSuite::GMAC256 => CIPHER_SUITE_GMAC256,
            Nl80211CipherSuite::CMAC256 => CIPHER_SUITE_CMAC256,
            Nl80211CipherSuite::SMS4 => CIPHER_SUITE_SMS4,
            Nl80211CipherSuite::Other(raw) => raw,
        }
    }
}

/// Encoding inverts decoding on every raw suite identifier.
pub proof fn lemma_cipher_suite_into_from(raw: u32)
    ensures
        spec_cipher_suite_into(spec_cipher_suite_from(raw)) == raw,
{
}

/// Decoding inverts encoding on every recognized suite.
pub proof fn lemma_cipher_suite_from_into(s: Nl80211CipherSuite)
    requires
        !(s is Other),
    ensures
        spec_cipher_suite_from(spec_cipher_suite_into(s)) == s,
{
}

/// Value bytes of a suite list: each suite's 4-byte identifier, in order,
/// with no per-element framing.
pub open spec fn spec_suites_value(ss: Seq<Nl80211CipherSuite>) -> Seq<u8>
    decreases ss.len(),
{
    if ss.len() == 0 {
        Seq::empty()
    } else {
        spec_u32_to_le_bytes(spec_cipher_suite_into(ss[0])) + spec_suites_value(ss.drop_first())
    }
}

/// Suites of a value whose length is a whole number of 4-byte groups, in
/// byte order.
pub open spec fn spec_parse_suites(v: Seq<u8>) -> Seq<Nl80211CipherSuite>
    recommends
        v.len() % 4 == 0,
    decreases v.len(),
{
    if v.len() < 4 {
        Seq::empty()
    } else {
        seq![spec_cipher_suite_from(spec_u32_from_le_bytes(v.subrange(0, 4)))]
            + spec_parse_suites(v.skip(4))
    }
}

pub proof fn lemma_suites_value_len(ss: Seq<Nl80211CipherSuite>)
    ensures
        spec_suites_value(ss).len() == 4 * ss.len(),
    decreases ss.len(),
{
    lemma_auto_spec_u32_to_from_le_bytes();
    if ss.len() == 0 {
    } else {
        lemma_suites_value_len(ss.drop_first());
    }
}

/// Encoding one more suite appends four more bytes.
pub proof fn lemma_suites_value_take_step(ss: Seq<Nl80211CipherSuite>, i: int)
    requires
        0 <= i < ss.len(),
    ensures
        spec_suites_value(ss.take(i + 1)) == spec_suites_value(ss.take(i)) + spec_u32_to_le_bytes(
            spec_cipher_suite_into(ss[i]),
        ),
    decreases i,
{
    if i == 0 {
        assert(ss.take(1) =~= seq![ss[0]]);
        assert(ss.take(1).drop_first() =~= Seq::<Nl80211CipherSuite>::empty());
        assert(ss.take(0) =~= Seq::<Nl80211CipherSuite>::empty());
        assert(spec_suites_value(ss.take(0)) + spec_u32_to_le_bytes(spec_cipher_suite_into(ss[0]))
            =~= spec_u32_to_le_bytes(spec_cipher_suite_into(ss[0])));
        assert(spec_suites_value(ss.take(1)) =~= spec_u32_to_le_bytes(
            spec_cipher_suite_into(ss[0]),
        ));
    } else {
        let tail = ss.drop_first();
        lemma_suites_value_take_step(tail, i - 1);
        assert(ss.take(i + 1).drop_first() =~= tail.take(i));
        assert(ss.take(i).drop_first() =~= tail.take(i - 1));
        assert(ss.take(i + 1)[0] == ss[0]);
        assert(ss.take(i)[0] == ss[0]);
        assert(tail[i - 1] == ss[i]);
        let head = spec_u32_to_le_bytes(spec_cipher_suite_into(ss[0]));
        let last = spec_u32_to_le_bytes(spec_cipher_suite_into(ss[i]));
        assert(head + (spec_suites_value(tail.take(i - 1)) + last) =~= (head + spec_suites_value(
            tail.take(i - 1),
        )) + last);
    }
}

/// A whole value decodes to one suite per 4-byte group.
pub proof fn lemma_parse_suites_len(v: Seq<u8>)
    requires
        v.len() % 4 == 0,
    ensures
        spec_parse_suites(v).len() == v.len() / 4,
    decreases v.len(),
{
    if v.len() < 4 {
    } else {
        lemma_parse_suites_len(v.skip(4));
    }
}

/// Appends a suite list value: each identifier in 4 bytes, in order.
pub fn emit_suites_value(suites: &Vec<Nl80211CipherSuite>, out: &mut Vec<u8>)
    ensures
        final(out)@ == old(out)@ + spec_suites_value(suites@),
{
    let mut i: usize = 0;
    proof {
        assert(suites@.take(0) =~= Seq::<Nl80211CipherSuite>::empty());
        assert(out@ + spec_suites_value(suites@.take(0)) =~= out@);
    }
    while i < suites.len()
        invariant
            i <= suites@.len(),
            out@ == old(out)@ + spec_suites_value(suites@.take(i as int)),
        decreases suites@.len() - i,
    {
        let raw = suites[i].into();
        let mut bytes = u32_to_le_bytes(raw);
        out.append(&mut bytes);
        proof {
            lemma_suites_value_take_step(suites@, i as int);
        }
        i = i + 1;
    }
    proof {
        assert(suites@.take(suites@.len() as int) =~= suites@);
    }
}

/// Decodes a suite list value whose length is a whole number of 4-byte
/// groups.
pub fn parse_suites_value(v: &[u8]) -> (r: Vec<Nl80211CipherSuite>)
    requires
        v@.len() % 4 == 0,
    ensures
        r@ == spec_parse_suites(v@),
{
    let mut out: Vec<Nl80211CipherSuite> = Vec::new();
    let mut i: usize = 0;
    proof {
        assert(v@.skip(0) =~= v@);
        assert(out@ + spec_parse_suites(v@) =~= spec_parse_suites(v@));
    }
    while i < v.len()
        invariant
            i <= v@.len(),
            i % 4 == 0,
            v@.len() % 4 == 0,
            spec_parse_suites(v@) == out@ + spec_parse_suites(v@.skip(i as int)),
        decreases v@.len() - i,
    {
        let ghost out0 = out@;
        proof {
            assert(i + 4 <= v@.len());
        }
        let raw = wire::read_u32_prefix(slice_subrange(v, i, v.len()));
        proof {
            assert(v@.subrange(i as int, v@.len() as int).subrange(0, 4) =~= v@.skip(
                i as int,
            ).subrange(0, 4));
        }
        out.push(Nl80211CipherSuite::from(raw));
        proof {
            assert(v@.skip(i as int).skip(4) =~= v@.skip(i + 4));
            assert(out@ =~= out0 + seq![out@.last()]);
            assert((out0 + seq![out@.last()]) + spec_parse_suites(v@.skip(i + 4)) =~= out0 + (seq![
                out@.last(),
            ] + spec_parse_suites(v@.skip(i + 4))));
        }
        i = i + 4;
    }
    proof {
        assert(v@.skip(v@.len() as int) =~= Seq::<u8>::empty());
        assert(out@ + Seq::<Nl80211CipherSuite>::empty() =~= out@);
    }
    out
}

/// Decoding a freshly encoded suite list gives the suites back, in order,
/// whenever every catch-all entry carries an unrecognized identifier.
pub proof fn lemma_suites_round_trip(ss: Seq<Nl80211CipherSuite>)
    requires
        forall|i: int| 0 <= i < ss.len() ==> cipher_suite_canonical(#[trigger] ss[i]),
    ensures
        spec_parse_suites(spec_suites_value(ss)) == ss,
    decreases ss.len(),
{
    lemma_auto_spec_u32_to_from_le_bytes();
    let v = spec_suites_value(ss);
    if ss.len() == 0 {
        assert(ss =~= Seq::<Nl80211CipherSuite>::empty());
    } else {
        let head = spec_u32_to_le_bytes(spec_cipher_suite_into(ss[0]));
        let rest = spec_suites_value(ss.drop_first());
        lemma_suites_value_len(ss.drop_first());
        assert(v.subrange(0, 4) =~= head);
        assert(v.skip(4) =~= rest);
        lemma_suites_round_trip(ss.drop_first());
        assert(seq![ss[0]] + ss.drop_first() =~= ss);
    }
}

} // verus!
