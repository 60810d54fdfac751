//! The settings of an observation, as both file formats record them.
//!
//! This library does no floating-point arithmetic: a floating-point setting is held
//! as its IEEE-754 bit pattern (`f64::to_bits`), which is exactly what the formats
//! store of it, and the values derived from the settings by floating-point
//! arithmetic are handed in already computed.
use vstd::prelude::*;

verus! {

/// The IEEE-754 binary64 bit pattern of an `f64`.
#[derive(Clone, Copy, Debug, PartialEq, Eq, Structural)]
pub struct F64Bits(pub u64);

/// The IEEE-754 binary32 bit pattern of an `f32`.
#[derive(Clone, Copy, Debug, PartialEq, Eq, Structural)]
pub struct F32Bits(pub u32);

/// The receiver settings and processing parameters of one observation.
#[derive(Clone, Copy, Debug, PartialEq, Eq, Structural)]
pub struct ObservationMetadata {
    pub center_frequency_hz: F64Bits,
    pub sample_rate_hz: F64Bits,
    pub channel_count: usize,
    pub average_count: usize,
    pub pfb_taps: usize,
    pub time_resolution_sec: F64Bits,
    pub lna_gain_db: F64Bits,
    pub mix_gain_db: F64Bits,
    pub vga_gain_db: F64Bits,
}

/// The band that the settings cover: `sample_rate / channel_count` wide channels
/// between `center - sample_rate / 2` and `center + sample_rate / 2`, in hertz.
#[derive(Clone, Copy, Debug, PartialEq, Eq, Structural)]
pub struct BandEdges {
    pub channel_width_hz: F64Bits,
    pub frequency_min_hz: F64Bits,
    pub frequency_max_hz: F64Bits,
}

} // verus!
