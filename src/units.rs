//! Strongly typed integer quantities used by the audio buffer: channel counts,
//! sample counts and bit depths.

use vstd::prelude::*;

verus! {

/// Represents a bit depth for an audio file.
pub enum BitDepth {
    Bits8,
    Bits16,
    Bits24,
    Bits32,
}

impl BitDepth {
    /// The number of bits of one sample at this depth.
    pub open spec fn bits(&self) -> nat {
        match self {
            BitDepth::Bits8 => 8,
            BitDepth::Bits16 => 16,
            BitDepth::Bits24 => 24,
            BitDepth::Bits32 => 32,
        }
    }

    /// Converts the number of bits to an integer.
    pub fn to_u16(&self) -> (r: u16)
        ensures
            r == self.bits(),
    {
        match self {
            BitDepth::Bits8 => 8,
            BitDepth::Bits16 => 16,
            BitDepth::Bits24 => 24,
            BitDepth::Bits32 => 32,
        }
    }
}

} // verus!

verus! {

/// Represents a number of audio channels.
#[derive(Copy, Clone, Debug, PartialEq, Eq, Structural, PartialOrd, Ord, Hash)]
pub struct Channels(pub u32);

impl Channels {
    /// Gives back the raw value as a `u32`.
    pub fn value(&self) -> (r: u32)
        ensures
            r == self.0,
    {
        self.0
    }

    /// Gives back the raw value as a `u32`.
    pub fn as_u32(&self) -> (r: u32)
        ensures
            r == self.0,
    {
        self.0
    }

    /// Gives back the raw value as a `usize`.
    pub fn as_usize(&self) -> (r: usize)
        ensures
            r == self.0,
    {
        self.0 as usize
    }

    /// Gives back the raw value as a `u64`.
    pub fn as_u64(&self) -> (r: u64)
        ensures
            r == self.0,
    {
        self.0 as u64
    }
}

impl From<u32> for Channels {
    fn from(value: u32) -> (r: Channels)
        ensures
            r.0 == value,
    {
        Channels(value)
    }
}

impl vstd::std_specs::convert::FromSpecImpl<u32> for Channels {
    open spec fn obeys_from_spec() -> bool {
        true
    }

    open spec fn from_spec(v: u32) -> Channels {
        Channels(v)
    }
}

impl From<Channels> for u32 {
    fn from(value: Channels) -> (r: u32)
        ensures
            r == value.0,
    {
        value.0
    }
}

impl vstd::std_specs::convert::FromSpecImpl<Channels> for u32 {
    open spec fn obeys_from_spec() -> bool {
        true
    }

    open spec fn from_spec(v: Channels) -> u32 {
        v.0
    }
}

/// Represents a number of samples, e.g. the length of one channel of a buffer.
#[derive(Copy, Clone, Debug, PartialEq, Eq, Structural, PartialOrd, Ord, Hash)]
pub struct Samples(pub u64);

impl Samples {
    /// Gives back the raw value as a `u64`.
    pub fn value(&self) -> (r: u64)
        ensures
            r == self.0,
    {
        self.0
    }

    /// Gives back the raw value as a `u64`.
    pub fn as_u64(&self) -> (r: u64)
        ensures
            r == self.0,
    {
        self.0
    }

    /// Gives back the raw value as a `usize`; a value beyond the range of
    /// `usize` is truncated, as `as` does.
    pub fn as_usize(&self) -> (r: usize)
        ensures
            r == self.0 as usize,
            self.0 <= usize::MAX ==> r == self.0,
    {
        self.0 as usize
    }
}

impl From<u64> for Samples {
    fn from(value: u64) -> (r: Samples)
        ensures
            r.0 == value,
    {
        Samples(value)
    }
}

impl vstd::std_specs::convert::FromSpecImpl<u64> for Samples {
    open spec fn obeys_from_spec() -> bool {
        true
    }

    open spec fn from_spec(v: u64) -> Samples {
        Samples(v)
    }
}

impl From<Samples> for u64 {
    fn from(value: Samples) -> (r: u64)
        ensures
            r == value.0,
    {
        value.0
    }
}

impl vstd::std_specs::convert::FromSpecImpl<Samples> for u64 {
    open spec fn obeys_from_spec() -> bool {
        true
    }

    open spec fn from_spec(v: Samples) -> u64 {
        v.0
    }
}

impl std::ops::Add for Samples {
    type Output = Samples;

    fn add(self, rhs: Samples) -> (r: Samples)
        ensures
            r.0 == self.0 + rhs.0,
    {
        Samples(self.0 + rhs.0)
    }
}

impl vstd::std_specs::ops::AddSpecImpl for Samples {
    open spec fn obeys_add_spec() -> bool {
        true
    }

    open spec fn add_req(self, rhs: Samples) -> bool {
        self.0 + rhs.0 <= u64::MAX
    }

    open spec fn add_spec(self, rhs: Samples) -> Samples {
        Samples((self.0 + rhs.0) as u64)
    }
}

impl std::ops::Sub for Samples {
    type Output = Samples;

    fn sub(self, rhs: Samples) -> (r: Samples)
        ensures
            r.0 == self.0 - rhs.0,
    {
        Samples(self.0 - rhs.0)
    }
}

impl vstd::std_specs::ops::SubSpecImpl for Samples {
    open spec fn obeys_sub_spec() -> bool {
        true
    }

    open spec fn sub_req(self, rhs: Samples) -> bool {
        self.0 >= rhs.0
    }

    open spec fn sub_spec(self, rhs: Samples) -> Samples {
        Samples((self.0 - rhs.0) as u64)
    }
}

impl std::ops::Add for Channels {
    type Output = Channels;

    fn add(self, rhs: Channels) -> (r: Channels)
        ensures
            r.0 == self.0 + rhs.0,
    {
        Channels(self.0 + rhs.0)
    }
}

impl vstd::std_specs::ops::AddSpecImpl for Channels {
    open spec fn obeys_add_spec() -> bool {
        true
    }

    open spec fn add_req(self, rhs: Channels) -> bool {
        self.0 + rhs.0 <= u32::MAX
    }

    open spec fn add_spec(self, rhs: Channels) -> Channels {
        Channels((self.0 + rhs.0) as u32)
    }
}

impl std::ops::Sub for Channels {
    type Output = Channels;

    fn sub(self, rhs: Channels) -> (r: Channels)
        ensures
            r.0 == self.0 - rhs.0,
    {
        Channels(self.0 - rhs.0)
    }
}

impl vstd::std_specs::ops::SubSpecImpl for Channels {
    open spec fn obeys_sub_spec() -> bool {
        true
    }

    open spec fn sub_req(self, rhs: Channels) -> bool {
        self.0 >= rhs.0
    }

    open spec fn sub_spec(self, rhs: Channels) -> Channels {
        Channels((self.0 - rhs.0) as u32)
    }
}

} // verus!
