//! Channel-width and channel-type scalar codecs, each a closed set of named
//! values plus one catch-all variant carrying any unrecognized raw value.

use vstd::prelude::*;

verus! {

pub const NL80211_CHAN_WIDTH_20_NOHT: u32 = 0;

pub const NL80211_CHAN_WIDTH_20: u32 = 1;

pub const NL80211_CHAN_WIDTH_40: u32 = 2;

pub const NL80211_CHAN_WIDTH_80: u32 = 3;

pub const NL80211_CHAN_WIDTH_80P80: u32 = 4;

pub const NL80211_CHAN_WIDTH_160: u32 = 5;

pub const NL80211_CHAN_WIDTH_5: u32 = 6;

pub const NL80211_CHAN_WIDTH_10: u32 = 7;

pub const NL80211_CHAN_WIDTH_1: u32 = 8;

pub const NL80211_CHAN_WIDTH_2: u32 = 9;

pub const NL80211_CHAN_WIDTH_4: u32 = 10;

pub const NL80211_CHAN_WIDTH_8: u32 = 11;

pub const NL80211_CHAN_WIDTH_16: u32 = 12;

pub const NL80211_CHAN_WIDTH_320: u32 = 13;

#[derive(Debug, PartialEq, Eq, Clone, Copy)]
pub enum Nl80211ChannelWidth {
    NoHt20Mhz,
    Mhz20,
    Mhz40,
    Mhz80,
    Mhz80Plus80,
    Mhz160,
    Mhz5,
    Mhz10,
    Mhz1,
    Mhz2,
    Mhz4,
    Mhz8,
    Mhz16,
    Mhz320,
    Other(u32),
}

pub open spec fn spec_channel_width_from(raw: u32) -> Nl80211ChannelWidth {
    if raw == NL80211_CHAN_WIDTH_20_NOHT {
        Nl80211ChannelWidth::NoHt20Mhz
    } else if raw == NL80211_CHAN_WIDTH_20 {
        Nl80211ChannelWidth::Mhz20
    } else if raw == NL80211_CHAN_WIDTH_40 {
        Nl80211ChannelWidth::Mhz40
    } else if raw == NL80211_CHAN_WIDTH_80 {
        Nl80211ChannelWidth::Mhz80
    } else if raw == NL80211_CHAN_WIDTH_80P80 {
        Nl80211ChannelWidth::Mhz80Plus80
    } else if raw == NL80211_CHAN_WIDTH_160 {
        Nl80211ChannelWidth::Mhz160
    } else if raw == NL80211_CHAN_WIDTH_5 {
        Nl80211ChannelWidth::Mhz5
    } else if raw == NL80211_CHAN_WIDTH_10 {
        Nl80211ChannelWidth::Mhz10
    } else if raw == NL80211_CHAN_WIDTH_1 {
        Nl80211ChannelWidth::Mhz1
    } else if raw == NL80211_CHAN_WIDTH_2 {
        Nl80211ChannelWidth::Mhz2
    } else if raw == NL80211_CHAN_WIDTH_4 {
        Nl80211ChannelWidth::Mhz4
    } else if raw == NL80211_CHAN_WIDTH_8 {
        Nl80211ChannelWidth::Mhz8
    } else if raw == NL80211_CHAN_WIDTH_16 {
        Nl80211ChannelWidth::Mhz16
    } else if raw == NL80211_CHAN_WIDTH_320 {
        Nl80211ChannelWidth::Mhz320
    } else {
        Nl80211ChannelWidth::Other(raw)
    }
}

pub open spec fn spec_channel_width_into(w: Nl80211ChannelWidth) -> u32 {
    match w {
        Nl80211ChannelWidth::NoHt20Mhz => NL80211_CHAN_WIDTH_20_NOHT,
        Nl80211ChannelWidth::Mhz20 => NL80211_CHAN_WIDTH_20,
        Nl80211ChannelWidth::Mhz40 => NL80211_CHAN_WIDTH_40,
        Nl80211ChannelWidth::Mhz80 => NL80211_CHAN_WIDTH_80,
        Nl80211ChannelWidth::Mhz80Plus80 => NL80211_CHAN_WIDTH_80P80,
        Nl80211ChannelWidth::Mhz160 => NL80211_CHAN_WIDTH_160,
        Nl80211ChannelWidth::Mhz5 => NL80211_CHAN_WIDTH_5,
        Nl80211ChannelWidth::Mhz10 => NL80211_CHAN_WIDTH_10,
        Nl80211ChannelWidth::Mhz1 => NL80211_CHAN_WIDTH_1,
        Nl80211ChannelWidth::Mhz2 => NL80211_CHAN_WIDTH_2,
        Nl80211ChannelWidth::Mhz4 => NL80211_CHAN_WIDTH_4,
        Nl80211ChannelWidth::Mhz8 => NL80211_CHAN_WIDTH_8,
        Nl80211ChannelWidth::Mhz16 => NL80211_CHAN_WIDTH_16,
        Nl80211ChannelWidth::Mhz320 => NL80211_CHAN_WIDTH_320,
        Nl80211ChannelWidth::Other(raw) => raw,
    }
}

/// Holds when re-decoding the encoding of `w` gives `w` back.
pub open spec fn channel_width_canonical(w: Nl80211ChannelWidth) -> bool {
    spec_channel_width_from(spec_channel_width_into(w)) == w
}

impl Nl80211ChannelWidth {
    pub fn from(raw: u32) -> (w: Self)
        ensures
            w == spec_channel_width_from(raw),
            channel_width_canonical(w),
    {
        if raw == NL80211_CHAN_WIDTH_20_NOHT {
            Nl80211ChannelWidth::NoHt20Mhz
        } else if raw == NL80211_CHAN_WIDTH_20 {
            Nl80211ChannelWidth::Mhz20
        } else if raw == NL80211_CHAN_WIDTH_40 {
            Nl80211ChannelWidth::Mhz40
        } else if raw == NL80211_CHAN_WIDTH_80 {
            Nl80211ChannelWidth::Mhz80
        } else if raw == NL80211_CHAN_WIDTH_80P80 {
            Nl80211ChannelWidth::Mhz80Plus80
        } else if raw == NL80211_CHAN_WIDTH_160 {
            Nl80211ChannelWidth::Mhz160
        } else if raw == NL80211_CHAN_WIDTH_5 {
            Nl80211ChannelWidth::Mhz5
        } else if raw == NL80211_CHAN_WIDTH_10 {
            Nl80211ChannelWidth::Mhz10
        } else if raw == NL80211_CHAN_WIDTH_1 {
            Nl80211ChannelWidth::Mhz1
        } else if raw == NL80211_CHAN_WIDTH_2 {
            Nl80211ChannelWidth::Mhz2
        } else if raw == NL80211_CHAN_WIDTH_4 {
            Nl80211ChannelWidth::Mhz4
        } else if raw == NL80211_CHAN_WIDTH_8 {
            Nl80211ChannelWidth::Mhz8
        } else if raw == NL80211_CHAN_WIDTH_16 {
            Nl80211ChannelWidth::Mhz16
        } else if raw == NL80211_CHAN_WIDTH_320 {
            Nl80211ChannelWidth::Mhz320
        } else {
            Nl80211ChannelWidth::Other(raw)
        }
    }

    pub fn into(self) -> (raw: u32)
        ensures
            raw == spec_channel_width_into(self),
    {
        match self {
            Nl80211ChannelWidth::NoHt20Mhz => NL80211_CHAN_WIDTH_20_NOHT,
            Nl80211ChannelWidth::Mhz20 => NL80211_CHAN_WIDTH_20,
            Nl80211ChannelWidth::Mhz40 => NL80211_CHAN_WIDTH_40,
            Nl80211ChannelWidth::Mhz80 => NL80211_CHAN_WIDTH_80,
            Nl80211ChannelWidth::Mhz80Plus80 => NL80211_CHAN_WIDTH_80P80,
            Nl80211ChannelWidth::Mhz160 => NL80211_CHAN_WIDTH_160,
            Nl80211ChannelWidth::Mhz5 => NL80211_CHAN_WIDTH_5,
            Nl80211ChannelWidth::Mhz10 => NL80211_CHAN_WIDTH_10,
            Nl80211ChannelWidth::Mhz1 => NL80211_CHAN_WIDTH_1,
            Nl80211ChannelWidth::Mhz2 => NL80211_CHAN_WIDTH_2,
            Nl80211ChannelWidth::Mhz4 => NL80211_CHAN_WIDTH_4,
            Nl80211ChannelWidth::Mhz8 => NL80211_CHAN_WIDTH_8,
            Nl80211ChannelWidth::Mhz16 => NL80211_CHAN_WIDTH_16,
            Nl80211ChannelWidth::Mhz320 => NL80211_CHAN_WIDTH_320,
            Nl80211ChannelWidth::Other(raw) => raw,
        }
    }
}

/// Encoding inverts decoding on every raw channel-width value.
pub proof fn lemma_channel_width_into_from(raw: u32)
    ensures
        spec_channel_width_into(spec_channel_width_from(raw)) == raw,
{
}

/// Decoding inverts encoding on every recognized channel width.
pub proof fn lemma_channel_width_from_into(w: Nl80211ChannelWidth)
    requires
        !(w is Other),
    ensures
        spec_channel_width_from(spec_channel_width_into(w)) == w,
{
}

pub const NL80211_CHAN_NO_HT: u32 = 0;

pub const NL80211_CHAN_HT20: u32 = 1;

pub const NL80211_CHAN_HT40MINUS: u32 = 2;

pub const NL80211_CHAN_HT40PLUS: u32 = 3;

#[derive(Debug, PartialEq, Eq, Clone, Copy)]
pub enum Nl80211WiPhyChannelType {
    NoHt,
    Ht20,
    Ht40Minus,
    Ht40Plus,
    Other(u32),
}

pub open spec fn spec_channel_type_from(raw: u32) -> Nl80211WiPhyChannelType {
    if raw == NL80211_CHAN_NO_HT {
        Nl80211WiPhyChannelType::NoHt
    } else if raw == NL80211_CHAN_HT20 {
        Nl80211WiPhyChannelType::Ht20
    } else if raw == NL80211_CHAN_HT40MINUS {
        Nl80211WiPhyChannelType::Ht40Minus
    } else if raw == NL80211_CHAN_HT40PLUS {
        Nl80211WiPhyChannelType::Ht40Plus
    } else {
        Nl80211WiPhyChannelType::Other(raw)
    }
}

pub open spec fn spec_channel_type_into(t: Nl80211WiPhyChannelType) -> u32 {
    match t {
        Nl80211WiPhyChannelType::NoHt => NL80211_CHAN_NO_HT,
        Nl80211WiPhyChannelType::Ht20 => NL80211_CHAN_HT20,
        Nl80211WiPhyChannelType::Ht40Minus => NL80211_CHAN_HT40MINUS,
        Nl80211WiPhyChannelType::Ht40Plus => NL80211_CHAN_HT40PLUS,
        Nl80211WiPhyChannelType::Other(raw) => raw,
    }
}

/// Holds when re-decoding the encoding of `t` gives `t` back.
pub open spec fn channel_type_canonical(t: Nl80211WiPhyChannelType) -> bool {
    spec_channel_type_from(spec_channel_type_into(t)) == t
}

impl Nl80211WiPhyChannelType {
    pub fn from(raw: u32) -> (t: Self)
        ensures
            t == spec_channel_type_from(raw),
            channel_type_canonical(t),
    {
        if raw == NL80211_CHAN_NO_HT {
            Nl80211WiPhyChannelType::NoHt
        } else if raw == NL80211_CHAN_HT20 {
            Nl80211WiPhyChannelType::Ht20
        } else if raw == NL80211_CHAN_HT40MINUS {
            Nl80211WiPhyChannelType::Ht40Minus
        } else if raw == NL80211_CHAN_HT40PLUS {
            Nl80211WiPhyChannelType::Ht40Plus
        } else {
            Nl80211WiPhyChannelType::Other(raw)
        }
    }

    pub fn into(self) -> (raw: u32)
        ensures
            raw == spec_channel_type_into(self),
    {
        match self {
            Nl80211WiPhyChannelType::NoHt => NL80211_CHAN_NO_HT,
            Nl80211WiPhyChannelType::Ht20 => NL80211_CHAN_HT20,
            Nl80211WiPhyChannelType::Ht40Minus => NL80211_CHAN_HT40MINUS,
            Nl80211WiPhyChannelType::Ht40Plus => NL80211_CHAN_HT40PLUS,
            Nl80211WiPhyChannelType::Other(raw) => raw,
        }
    }
}

/// Encoding inverts decoding on every raw channel-type value.
pub proof fn lemma_channel_type_into_from(raw: u32)
    ensures
        spec_channel_type_into(spec_channel_type_from(raw)) == raw,
{
}

/// Decoding inverts encoding on every recognized channel type.
pub proof fn lemma_channel_type_from_into(t: Nl80211WiPhyChannelType)
    requires
        !(t is Other),
    ensures
        spec_channel_type_from(spec_channel_type_into(t)) == t,
{
}

} // verus!
