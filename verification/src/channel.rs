//! The converter's eight inputs and its two conversion modes.

use crate::error::Mcp3208Error;
use crate::layout::{lemma_channel_count, CHANNEL_COUNT};
use vstd::prelude::*;
use vstd::std_specs::convert::TryFromSpecImpl;

verus! {

/// How the selected input is measured.
#[derive(Debug, Clone, Copy, PartialEq, Eq, Structural)]
pub enum ConversionMode {
    /// The input is measured against the common reference.
    SingleEnded,
    /// The input is measured against its partner input.
    PseudoDifferential,
}

/// One of the eight inputs of the converter.
#[derive(Debug, Clone, Copy, PartialEq, Eq, Structural)]
pub enum Channel {
    Ch0,
    Ch1,
    Ch2,
    Ch3,
    Ch4,
    Ch5,
    Ch6,
    Ch7,
}

impl Channel {
    /// All channels, each at the position of its number.
    pub const VALUES: [Channel; 8] = [
        Channel::Ch0,
        Channel::Ch1,
        Channel::Ch2,
        Channel::Ch3,
        Channel::Ch4,
        Channel::Ch5,
        Channel::Ch6,
        Channel::Ch7,
    ];

    /// The number of the channel, as a value.
    pub open spec fn spec_index(self) -> u8 {
        match self {
            Channel::Ch0 => 0,
            Channel::Ch1 => 1,
            Channel::Ch2 => 2,
            Channel::Ch3 => 3,
            Channel::Ch4 => 4,
            Channel::Ch5 => 5,
            Channel::Ch6 => 6,
            Channel::Ch7 => 7,
        }
    }

    /// The number of the channel, which fits the channel field of a frame.
    #[verifier::when_used_as_spec(spec_index)]
    pub fn index(self) -> (result: u8)
        ensures
            result == self.spec_index(),
            result < CHANNEL_COUNT,
    {
        proof {
            lemma_channel_count();
        }
        match self {
            Channel::Ch0 => 0,
            Channel::Ch1 => 1,
            Channel::Ch2 => 2,
            Channel::Ch3 => 3,
            Channel::Ch4 => 4,
            Channel::Ch5 => 5,
            Channel::Ch6 => 6,
            Channel::Ch7 => 7,
        }
    }

    /// The other channel of this channel's pair, as a value.
    pub open spec fn spec_partner(self) -> Channel {
        match self {
            Channel::Ch0 => Channel::Ch1,
            Channel::Ch1 => Channel::Ch0,
            Channel::Ch2 => Channel::Ch3,
            Channel::Ch3 => Channel::Ch2,
            Channel::Ch4 => Channel::Ch5,
            Channel::Ch5 => Channel::Ch4,
            Channel::Ch6 => Channel::Ch7,
            Channel::Ch7 => Channel::Ch6,
        }
    }

    /// Returns the channel that this one is measured against in
    /// pseudo-differential mode: the other channel of its pair, whose number
    /// differs in the lowest bit only.
    #[verifier::when_used_as_spec(spec_partner)]
    pub fn partner(self) -> (result: Self)
        ensures
            result == self.spec_partner(),
            result.index() == self.index() ^ 1,
    {
        let index: u8 = self.index();
        assert(index < 8 ==> (index ^ 1) < 8) by (bit_vector);
        assert(0u8 ^ 1 == 1 && 1u8 ^ 1 == 0 && 2u8 ^ 1 == 3 && 3u8 ^ 1 == 2 && 4u8 ^ 1 == 5 && 5u8
            ^ 1 == 4 && 6u8 ^ 1 == 7 && 7u8 ^ 1 == 6) by (bit_vector);
        Self::VALUES[(index ^ 1) as usize]
    }

    /// A channel is its partner's partner and never its own, and the list of
    /// channels holds each channel at the position of its number.
    pub proof fn lemma_partner_pairs(self)
        ensures
            self.spec_partner().spec_partner() == self,
            self.spec_partner() != self,
            self.spec_partner().index() / 2 == self.index() / 2,
            Channel::VALUES[self.index() as int] == self,
    {
    }
}

impl TryFromSpecImpl<u8> for Channel {
    open spec fn obeys_try_from_spec() -> bool {
        true
    }

    open spec fn try_from_spec(channel_index: u8) -> Result<Self, Mcp3208Error> {
        if channel_index < CHANNEL_COUNT {
            Ok(Channel::VALUES[channel_index as int])
        } else {
            Err(Mcp3208Error::ChannelOutOfRange(channel_index))
        }
    }
}

/// Turns a number into the channel of that number, if there is one.
impl TryFrom<u8> for Channel {
    type Error = Mcp3208Error;

    fn try_from(channel_index: u8) -> (result: Result<Self, Mcp3208Error>)
        ensures
            result is Ok <==> channel_index <= 7,
            channel_index < CHANNEL_COUNT ==> result is Ok && result->Ok_0.index() == channel_index,
            channel_index >= CHANNEL_COUNT ==> result == Err::<Channel, Mcp3208Error>(Mcp3208Error::ChannelOutOfRange(channel_index)),
    {
        proof {
            lemma_channel_count();
        }
        if channel_index < CHANNEL_COUNT {
            Ok(Channel::VALUES[channel_index as usize])
        } else {
            Err(Mcp3208Error::ChannelOutOfRange(channel_index))
        }
    }
}

} // verus!
