//! The observer program's rules on its settings and on the displayed channel range.
use vstd::prelude::*;
use vstd::arithmetic::power2::{lemma_pow2_pos, lemma_pow2_unfold, pow2};
use vstd::arithmetic::power::lemma_pow0;

verus! {

pub const SAMPLING_RATE_INVALID: &'static str = "Sampling rate can only be either 3 or 6 MSps";

pub const CHANNEL_COUNT_INVALID: &'static str = "Channel count must be a power of two between 1 and 8192";

pub const COUNTS_NOT_POSITIVE: &'static str = "PFB taps, displayed rows, and averaging count must be positive";

/// `n` is a power of two.
pub open spec fn is_power_of_two(n: nat) -> bool
    decreases n,
{
    if n == 1 {
        true
    } else if n < 1 || n % 2 == 1 {
        false
    } else {
        is_power_of_two(n / 2)
    }
}

/// Whether `n` is a power of two.
pub fn power_of_two(n: usize) -> (result: bool)
    ensures
        result == is_power_of_two(n as nat),
        result <==> exists|k: nat| pow2(k) == n,
    decreases n,
{
    proof {
        lemma_power_of_two_is_pow2(n as nat);
    }
    if n == 1 {
        true
    } else if n < 1 || n % 2 == 1 {
        false
    } else {
        power_of_two(n / 2)
    }
}

/// Checks the observer's integer settings, in this order: a sampling rate of 3 or 6
/// MHz; a channel count that is a power of two up to 8192; positive PFB taps,
/// displayed rows and averaging count.
pub fn check_settings(
    sampling_rate_mhz: u32,
    channel_count: usize,
    pfb_taps: usize,
    displayed_rows: usize,
    average_count: usize,
) -> (result: Result<(), &'static str>)
    ensures
        match result {
            Ok(()) => {
                &&& sampling_rate_mhz == 3 || sampling_rate_mhz == 6
                &&& 1 <= channel_count <= 8192 && is_power_of_two(channel_count as nat)
                &&& exists|k: nat| pow2(k) == channel_count
                &&& pfb_taps > 0 && displayed_rows > 0 && average_count > 0
            },
            Err(message) => if !(sampling_rate_mhz == 3 || sampling_rate_mhz == 6) {
                message@ == SAMPLING_RATE_INVALID@
            } else if !(1 <= channel_count <= 8192 && is_power_of_two(channel_count as nat)) {
                message@ == CHANNEL_COUNT_INVALID@
            } else {
                !(pfb_taps > 0 && displayed_rows > 0 && average_count > 0) && message@
                    == COUNTS_NOT_POSITIVE@
            },
        },
{
    if sampling_rate_mhz != 3 && sampling_rate_mhz != 6 {
        return Err(SAMPLING_RATE_INVALID);
    }
    if channel_count == 0 || channel_count > 8192 || !power_of_two(channel_count) {
        return Err(CHANNEL_COUNT_INVALID);
    }
    if pfb_taps == 0 || displayed_rows == 0 || average_count == 0 {
        return Err(COUNTS_NOT_POSITIVE);
    }
    Ok(())
}

/// The channels shown, from `min_channel` to `max_channel`, of `channel_count`
/// channels numbered from 0.
#[derive(Clone, Copy, Debug, PartialEq, Eq, Structural)]
pub struct ChannelRange {
    pub channel_count: usize,
    pub min_channel: usize,
    pub max_channel: usize,
}

impl ChannelRange {
    /// Both ends are existing channels, and the lowest lies below the highest; with a
    /// single channel, both ends are that channel.
    pub open spec fn is_valid(self) -> bool {
        &&& self.channel_count >= 1
        &&& self.max_channel <= self.channel_count - 1
        &&& (self.min_channel < self.max_channel || (self.channel_count == 1 && self.min_channel
            == 0 && self.max_channel == 0))
    }

    /// The range after the lowest channel is set to `channel`: the lowest is kept
    /// below the last channel, and the highest follows it when it would no longer
    /// lie above. A single channel stays as it is.
    pub open spec fn min_moved(self, channel: int) -> ChannelRange {
        if self.channel_count == 1 {
            self
        } else {
            let lowest = if channel <= self.channel_count - 2 {
                channel
            } else {
                self.channel_count - 2
            };
            ChannelRange {
                min_channel: lowest as usize,
                max_channel: if self.max_channel < lowest + 1 {
                    (lowest + 1) as usize
                } else {
                    self.max_channel
                },
                ..self
            }
        }
    }

    /// The range after the highest channel is set to `channel`: the highest is kept
    /// above the first channel and at most the last, and the lowest follows it when
    /// it would no longer lie below. A single channel stays as it is.
    pub open spec fn max_moved(self, channel: int) -> ChannelRange {
        if self.channel_count == 1 {
            self
        } else {
            let highest = if channel < 1 {
                1
            } else if channel > self.channel_count - 1 {
                self.channel_count - 1
            } else {
                channel
            };
            ChannelRange {
                max_channel: highest as usize,
                min_channel: if highest < self.min_channel + 1 {
                    (highest - 1) as usize
                } else {
                    self.min_channel
                },
                ..self
            }
        }
    }

    /// All `channel_count` channels: from 0 to the last.
    pub fn new(channel_count: usize) -> (range: ChannelRange)
        requires
            channel_count >= 1,
        ensures
            range == (ChannelRange { channel_count, min_channel: 0, max_channel: (channel_count
                - 1) as usize }),
            range.is_valid(),
    {
        ChannelRange { channel_count, min_channel: 0, max_channel: channel_count - 1 }
    }

    /// The range after the lowest channel is set to `channel`.
    pub fn with_min_channel(self, channel: usize) -> (range: ChannelRange)
        requires
            self.is_valid(),
        ensures
            range == self.min_moved(channel as int),
            range.is_valid(),
            range.channel_count == self.channel_count,
            self.channel_count >= 2 && channel <= self.channel_count - 2 ==> range.min_channel
                == channel,
            self.channel_count >= 2 && channel < self.max_channel ==> range.max_channel
                == self.max_channel,
            self.channel_count >= 2 && channel >= self.max_channel && channel
                <= self.channel_count - 2 ==> range.max_channel == channel + 1,
    {
        if self.channel_count == 1 {
            return self;
        }
        let lowest = if channel <= self.channel_count - 2 {
            channel
        } else {
            self.channel_count - 2
        };
        let mut range = self;
        range.min_channel = lowest;
        if range.max_channel < lowest + 1 {
            range.max_channel = lowest + 1;
        }
        range
    }

    /// The range after the highest channel is set to `channel`.
    pub fn with_max_channel(self, channel: usize) -> (range: ChannelRange)
        requires
            self.is_valid(),
        ensures
            range == self.max_moved(channel as int),
            range.is_valid(),
            range.channel_count == self.channel_count,
            self.channel_count >= 2 && 1 <= channel <= self.channel_count - 1 ==> range.max_channel
                == channel,
            self.channel_count >= 2 && channel > self.min_channel ==> range.min_channel
                == self.min_channel,
            self.channel_count >= 2 && 1 <= channel <= self.min_channel ==> range.min_channel
                == channel - 1,
    {
        if self.channel_count == 1 {
            return self;
        }
        let highest = if channel < 1 {
            1
        } else if channel > self.channel_count - 1 {
            self.channel_count - 1
        } else {
            channel
        };
        let mut range = self;
        range.max_channel = highest;
        if highest < range.min_channel + 1 {
            range.min_channel = highest - 1;
        }
        range
    }
}


/// Moving the lowest channel to an existing channel `c` below the last sets it to
/// `c`; the highest channel stays unless it would no longer lie above, when it
/// becomes `c + 1`. Beyond, the lowest stops one below the last channel.
pub proof fn lemma_min_slider(range: ChannelRange, c: int)
    requires
        range.is_valid(),
        range.channel_count >= 2,
        0 <= c,
    ensures
        c <= range.channel_count - 2 ==> range.min_moved(c).min_channel == c,
        c > range.channel_count - 2 ==> range.min_moved(c).min_channel == range.channel_count - 2,
        c < range.max_channel ==> range.min_moved(c).max_channel == range.max_channel,
        range.max_channel <= c <= range.channel_count - 2 ==> range.min_moved(c).max_channel == c
            + 1,
        range.min_moved(c).channel_count == range.channel_count,
        range.min_moved(c).is_valid(),
{
}

/// Moving the highest channel to an existing channel `c` above the first sets it to
/// `c`; the lowest channel stays unless it would no longer lie below, when it becomes
/// `c - 1`. Below, the highest stops at channel 1; beyond, at the last channel.
pub proof fn lemma_max_slider(range: ChannelRange, c: int)
    requires
        range.is_valid(),
        range.channel_count >= 2,
    ensures
        1 <= c <= range.channel_count - 1 ==> range.max_moved(c).max_channel == c,
        c < 1 ==> range.max_moved(c).max_channel == 1,
        c > range.channel_count - 1 ==> range.max_moved(c).max_channel == range.channel_count - 1,
        c > range.min_channel ==> range.max_moved(c).min_channel == range.min_channel,
        1 <= c <= range.min_channel ==> range.max_moved(c).min_channel == c - 1,
        range.max_moved(c).channel_count == range.channel_count,
        range.max_moved(c).is_valid(),
{
}


/// `is_power_of_two` holds of exactly the powers of two: the numbers `2^k`.
pub proof fn lemma_power_of_two_is_pow2(n: nat)
    ensures
        is_power_of_two(n) <==> exists|k: nat| pow2(k) == n,
    decreases n,
{
    if is_power_of_two(n) {
        if n == 1 {
            lemma_pow0(2);
            assert(pow2(0) == n);
        } else {
            lemma_power_of_two_is_pow2(n / 2);
            let k = choose|k: nat| pow2(k) == n / 2;
            lemma_pow2_unfold(k + 1);
            assert(pow2(k + 1) == n);
        }
    }
    if exists|k: nat| pow2(k) == n {
        let k = choose|k: nat| pow2(k) == n;
        if k == 0 {
            lemma_pow0(2);
        } else {
            lemma_pow2_unfold(k);
            lemma_pow2_pos((k - 1) as nat);
            assert(n / 2 == pow2((k - 1) as nat));
            lemma_power_of_two_is_pow2(n / 2);
        }
    }
}

} // verus!
