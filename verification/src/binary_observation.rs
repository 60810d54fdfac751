//! The versioned `.bin` observation file: a 256-byte little-endian header followed by
//! fixed-size spectrum records.
//!
//! Layout of the header (all integers little-endian, floating-point fields as their
//! bit patterns):
//!
//! | offset | field                     | offset | field                        |
//! |--------|---------------------------|--------|------------------------------|
//! | 0      | magic `HIOBIN01`          | 84     | value type (1: f32 power)    |
//! | 8      | version (u32)             | 88     | LNA gain (f64)               |
//! | 12     | header size (u32)         | 96     | mixer gain (f64)             |
//! | 16     | endian marker (u32)       | 104    | VGA gain (f64)               |
//! | 20     | format flags (u32)        | 112    | record header size (u32)     |
//! | 24     | start, unix ns (i64)      | 116    | value size (u32)             |
//! | 32     | center frequency (f64)    | 120    | record size (u64)            |
//! | 40     | sample rate (f64)         | 128    | record count (u64)           |
//! | 48     | bandwidth (f64)           | 136    | end, unix ns (i64)           |
//! | 56     | channel width (f64)       | 144    | elapsed seconds (f64)        |
//! | 64     | time resolution (f64)     | 152    | lower band edge (f64)        |
//! | 72     | channel count (u32)       | 160    | upper band edge (f64)        |
//! | 76     | average count (u32)       | 168    | zero                         |
//! | 80     | PFB taps (u32)            |        |                              |
//!
//! A record is the elapsed seconds (f64), the center frequency (f64) and one f32
//! power value per channel.
use vstd::prelude::*;
use crate::byte_codec::{
    field, i64_from_le, i64_le, lemma_i64_le_roundtrip, lemma_u32_le_roundtrip,
    lemma_u64_le_roundtrip, push_u32_le, push_u64_le, put_i64, put_u64, get_u32, get_u64,
    get_i64, i64_to_bits, splice, u32_from_le, u32_le, u64_from_le, u64_le,
};
use crate::error::{channel_mismatch, channel_mismatch_message, invalid_data, invalid_input, ErrorKind, ObsError};
use crate::metadata::{BandEdges, F32Bits, F64Bits, ObservationMetadata};

verus! {

broadcast use {lemma_u32_le_roundtrip, lemma_u64_le_roundtrip, lemma_i64_le_roundtrip};

pub const BINARY_VERSION: u32 = 1;

pub const BINARY_HEADER_SIZE: usize = 256;

pub const BINARY_ROW_HEADER_SIZE: usize = 16;

pub const ENDIAN_MARKER: u32 = 0x0102_0304;

pub const FORMAT_FLAGS: u32 = 3;

pub const VALUE_TYPE_FLOAT32_POWER: u32 = 1;

/// Bytes of one stored spectrum value (`size_of::<f32>()`).
pub const F32_SIZE: usize = 4;

/// Where the record count, end time and elapsed seconds stand in the header.
pub const ROW_COUNT_OFFSET: u64 = 128;

pub const END_UNIX_NS_OFFSET: u64 = 136;

pub const ELAPSED_SEC_OFFSET: u64 = 144;

pub const ROW_SIZE_OVERFLOW: &'static str = "binary row size overflow";

pub const CHANNEL_COUNT_TOO_LARGE: &'static str = "channel count does not fit in the binary header";

pub const AVERAGE_COUNT_TOO_LARGE: &'static str = "average count does not fit in the binary header";

pub const PFB_TAPS_TOO_LARGE: &'static str = "PFB tap count does not fit in the binary header";

pub const LEGACY_FORMAT: &'static str = "existing .bin file uses the legacy raw format; choose a new file name";

pub const UNSUPPORTED_VERSION: &'static str = "unsupported HI Observer binary version";

pub const INVALID_HEADER: &'static str = "invalid HI Observer binary header";

pub const STORED_ROW_SIZE_TOO_LARGE: &'static str = "binary row size is too large";

pub const INVALID_ROW_LAYOUT: &'static str = "binary header has an invalid row layout";

pub const SETTINGS_MISMATCH: &'static str = "cannot append: observation settings do not match the existing binary header";

pub const BINARY_CHANNELS_RECEIVED: &'static str = " binary channels, received ";

pub const SHORTER_THAN_HEADER: &'static str = "binary file is shorter than its header";

pub const INCOMPLETE_RECORD: &'static str = "binary file ends with an incomplete spectrum record";

/// The magic bytes `HIOBIN01` that open the header.
pub const BINARY_MAGIC: [u8; 8] = [0x48u8, 0x49u8, 0x4fu8, 0x42u8, 0x49u8, 0x4eu8, 0x30u8, 0x31u8];

/// The magic bytes `HIOBIN01` that open the header.
pub open spec fn binary_magic_bytes() -> Seq<u8> {
    seq![0x48u8, 0x49u8, 0x4fu8, 0x42u8, 0x49u8, 0x4eu8, 0x30u8, 0x31u8]
}

/// The magic bytes `HIOBIN01` that open the header, as a vector.
pub fn binary_magic() -> (magic: Vec<u8>)
    ensures
        magic@ == binary_magic_bytes(),
        magic@ == BINARY_MAGIC@,
{
    let mut magic: Vec<u8> = Vec::new();
    let mut i: usize = 0;
    while i < 8
        invariant
            i <= 8,
            magic@ == BINARY_MAGIC@.subrange(0, i as int),
        decreases 8 - i,
    {
        magic.push(BINARY_MAGIC[i]);
        i += 1;
        assert(magic@ =~= BINARY_MAGIC@.subrange(0, i as int));
    }
    assert(BINARY_MAGIC@ =~= binary_magic_bytes());
    assert(magic@ =~= BINARY_MAGIC@);
    magic
}

/// The size of one record for `channel_count` channels.
pub open spec fn row_size_for(channel_count: int) -> int {
    BINARY_ROW_HEADER_SIZE + channel_count * F32_SIZE
}

/// `n` zero bytes.
pub open spec fn zeros(n: nat) -> Seq<u8> {
    Seq::new(n, |i: int| 0u8)
}

/// Header bytes 0..24: magic, version, header size, endian marker and format flags.
pub open spec fn header_prologue() -> Seq<u8> {
    binary_magic_bytes() + u32_le(BINARY_VERSION) + u32_le(BINARY_HEADER_SIZE as u32) + u32_le(
        ENDIAN_MARKER,
    ) + u32_le(FORMAT_FLAGS)
}

/// Header bytes 24..72: start time, center frequency, sample rate, bandwidth (the
/// sample rate), channel width and time resolution.
pub open spec fn header_timing(
    metadata: ObservationMetadata,
    band: BandEdges,
    start_unix_ns: i64,
) -> Seq<u8> {
    i64_le(start_unix_ns) + u64_le(metadata.center_frequency_hz.0) + u64_le(
        metadata.sample_rate_hz.0,
    ) + u64_le(metadata.sample_rate_hz.0) + u64_le(band.channel_width_hz.0) + u64_le(
        metadata.time_resolution_sec.0,
    )
}

/// Header bytes 72..88: channel count, average count, PFB taps and value type.
pub open spec fn header_counts(metadata: ObservationMetadata) -> Seq<u8> {
    u32_le(metadata.channel_count as u32) + u32_le(metadata.average_count as u32) + u32_le(
        metadata.pfb_taps as u32,
    ) + u32_le(VALUE_TYPE_FLOAT32_POWER)
}

/// Header bytes 88..112: the three gains.
pub open spec fn header_gains(metadata: ObservationMetadata) -> Seq<u8> {
    u64_le(metadata.lna_gain_db.0) + u64_le(metadata.mix_gain_db.0) + u64_le(metadata.vga_gain_db.0)
}

/// Header bytes 112..128: record header size, value size and record size.
pub open spec fn header_record_layout(row_size: u64) -> Seq<u8> {
    u32_le(BINARY_ROW_HEADER_SIZE as u32) + u32_le(F32_SIZE as u32) + u64_le(row_size)
}

/// Header bytes 128..152, and the bytes that close a recording there: the record
/// count, the end time and the elapsed seconds.
pub open spec fn trailer_bytes(row_count: u64, end_unix_ns: i64, elapsed_sec: F64Bits) -> Seq<u8> {
    u64_le(row_count) + i64_le(end_unix_ns) + u64_le(elapsed_sec.0)
}

/// Header bytes 152..256: the band edges, then zeros.
#[verifier::opaque]
pub open spec fn header_epilogue(band: BandEdges) -> Seq<u8> {
    u64_le(band.frequency_min_hz.0) + u64_le(band.frequency_max_hz.0) + zeros(88)
}

/// Header bytes 0..128: everything before the trailer.
#[verifier::opaque]
pub open spec fn header_head(
    metadata: ObservationMetadata,
    band: BandEdges,
    start_unix_ns: i64,
    row_size: u64,
) -> Seq<u8> {
    header_prologue() + header_timing(metadata, band, start_unix_ns) + header_counts(metadata)
        + header_gains(metadata) + header_record_layout(row_size)
}

/// The header that records `metadata` and `band`, the start and end of the observation,
/// the record size, the record count and the elapsed seconds.
pub open spec fn header_bytes(
    metadata: ObservationMetadata,
    band: BandEdges,
    start_unix_ns: i64,
    end_unix_ns: i64,
    row_size: u64,
    row_count: u64,
    elapsed_sec: F64Bits,
) -> Seq<u8> {
    header_head(metadata, band, start_unix_ns, row_size) + trailer_bytes(
        row_count,
        end_unix_ns,
        elapsed_sec,
    ) + header_epilogue(band)
}

/// Why `metadata` cannot be written into a header, checked in this order, if it cannot.
pub open spec fn encode_fault(metadata: ObservationMetadata) -> Option<(ErrorKind, Seq<char>)> {
    if metadata.channel_count > u32::MAX {
        Some((ErrorKind::InvalidInput, CHANNEL_COUNT_TOO_LARGE@))
    } else if metadata.average_count > u32::MAX {
        Some((ErrorKind::InvalidInput, AVERAGE_COUNT_TOO_LARGE@))
    } else if metadata.pfb_taps > u32::MAX {
        Some((ErrorKind::InvalidInput, PFB_TAPS_TOO_LARGE@))
    } else {
        None
    }
}

/// The `u32` field at `offset` of a header.
pub open spec fn header_u32(h: Seq<u8>, offset: int) -> u32 {
    u32_from_le(field(h, offset, 4))
}

/// The `u64` field at `offset` of a header.
pub open spec fn header_u64(h: Seq<u8>, offset: int) -> u64 {
    u64_from_le(field(h, offset, 8))
}

/// The `i64` field at `offset` of a header.
pub open spec fn header_i64(h: Seq<u8>, offset: int) -> i64 {
    i64_from_le(field(h, offset, 8))
}

/// What a header read back from a file states of the observation.
#[derive(Clone, Copy, Debug, PartialEq, Eq, Structural)]
pub struct DecodedHeader {
    pub start_unix_ns: i64,
    pub center_frequency_hz: F64Bits,
    pub sample_rate_hz: F64Bits,
    pub channel_count: usize,
    pub average_count: usize,
    pub pfb_taps: usize,
    pub time_resolution_sec: F64Bits,
    pub lna_gain_db: F64Bits,
    pub mix_gain_db: F64Bits,
    pub vga_gain_db: F64Bits,
    pub row_size: usize,
}

/// The fields that `decode_header` reads from `h`.
pub open spec fn decoded_fields(h: Seq<u8>) -> DecodedHeader {
    DecodedHeader {
        start_unix_ns: header_i64(h, 24),
        center_frequency_hz: F64Bits(header_u64(h, 32)),
        sample_rate_hz: F64Bits(header_u64(h, 40)),
        channel_count: header_u32(h, 72) as usize,
        average_count: header_u32(h, 76) as usize,
        pfb_taps: header_u32(h, 80) as usize,
        time_resolution_sec: F64Bits(header_u64(h, 64)),
        lna_gain_db: F64Bits(header_u64(h, 88)),
        mix_gain_db: F64Bits(header_u64(h, 96)),
        vga_gain_db: F64Bits(header_u64(h, 104)),
        row_size: header_u64(h, 120) as usize,
    }
}

/// Why the 256 bytes `h` are not a header that can be appended to, checked in this
/// order, if they are not.
pub open spec fn header_fault(h: Seq<u8>) -> Option<(ErrorKind, Seq<char>)> {
    let channel_count = header_u32(h, 72) as int;
    if field(h, 0, 8) != binary_magic_bytes() {
        Some((ErrorKind::InvalidData, LEGACY_FORMAT@))
    } else if header_u32(h, 8) != BINARY_VERSION {
        Some((ErrorKind::InvalidData, UNSUPPORTED_VERSION@))
    } else if header_u32(h, 12) != BINARY_HEADER_SIZE || header_u32(h, 16) != ENDIAN_MARKER
        || header_u32(h, 84) != VALUE_TYPE_FLOAT32_POWER || header_u32(h, 112)
        != BINARY_ROW_HEADER_SIZE || header_u32(h, 116) != F32_SIZE {
        Some((ErrorKind::InvalidData, INVALID_HEADER@))
    } else if header_u64(h, 120) > usize::MAX {
        Some((ErrorKind::InvalidData, STORED_ROW_SIZE_TOO_LARGE@))
    } else if channel_count == 0 {
        Some((ErrorKind::InvalidData, INVALID_ROW_LAYOUT@))
    } else if row_size_for(channel_count) > usize::MAX {
        Some((ErrorKind::InvalidInput, ROW_SIZE_OVERFLOW@))
    } else if row_size_for(channel_count) != header_u64(h, 120) {
        Some((ErrorKind::InvalidData, INVALID_ROW_LAYOUT@))
    } else {
        None
    }
}

/// The size of one record for `channel_count` channels: 16 bytes of time and
/// frequency, then four bytes per channel.
pub fn checked_row_size(channel_count: usize) -> (result: Result<usize, ObsError>)
    ensures
        match result {
            Ok(size) => row_size_for(channel_count as int) <= usize::MAX && size == row_size_for(
                channel_count as int,
            ),
            Err(e) => row_size_for(channel_count as int) > usize::MAX && e.is(
                ErrorKind::InvalidInput,
                ROW_SIZE_OVERFLOW@,
            ),
        },
{
    match channel_count.checked_mul(F32_SIZE) {
        None => Err(invalid_input(ROW_SIZE_OVERFLOW)),
        Some(values) => match BINARY_ROW_HEADER_SIZE.checked_add(values) {
            None => Err(invalid_input(ROW_SIZE_OVERFLOW)),
            Some(size) => Ok(size),
        },
    }
}

/// The 256-byte header recording `metadata`, `band`, the start and end of the
/// observation, the record size, the record count and the elapsed seconds.
pub fn encode_header(
    metadata: &ObservationMetadata,
    band: &BandEdges,
    start_unix_ns: i64,
    end_unix_ns: i64,
    row_size: usize,
    row_count: u64,
    elapsed_sec: F64Bits,
) -> (result: Result<Vec<u8>, ObsError>)
    ensures
        match result {
            Ok(header) => encode_fault(*metadata) is None && header@ == header_bytes(
                *metadata,
                *band,
                start_unix_ns,
                end_unix_ns,
                row_size as u64,
                row_count,
                elapsed_sec,
            ),
            Err(e) => encode_fault(*metadata) == Some((e.kind, e.message@)),
        },
{
    if metadata.channel_count > u32::MAX as usize {
        return Err(invalid_input(CHANNEL_COUNT_TOO_LARGE));
    }
    if metadata.average_count > u32::MAX as usize {
        return Err(invalid_input(AVERAGE_COUNT_TOO_LARGE));
    }
    if metadata.pfb_taps > u32::MAX as usize {
        return Err(invalid_input(PFB_TAPS_TOO_LARGE));
    }
    let channel_count = metadata.channel_count as u32;
    let average_count = metadata.average_count as u32;
    let pfb_taps = metadata.pfb_taps as u32;
    let row_size = row_size as u64;

    let mut header = binary_magic();
    push_u32_le(&mut header, BINARY_VERSION);
    push_u32_le(&mut header, BINARY_HEADER_SIZE as u32);
    push_u32_le(&mut header, ENDIAN_MARKER);
    push_u32_le(&mut header, FORMAT_FLAGS);
    assert(header@ =~= header_prologue());
    let ghost prefix = header@;
    push_u64_le(&mut header, i64_to_bits(start_unix_ns));
    push_u64_le(&mut header, metadata.center_frequency_hz.0);
    push_u64_le(&mut header, metadata.sample_rate_hz.0);
    push_u64_le(&mut header, metadata.sample_rate_hz.0);
    push_u64_le(&mut header, band.channel_width_hz.0);
    push_u64_le(&mut header, metadata.time_resolution_sec.0);
    assert(header@ =~= prefix + header_timing(*metadata, *band, start_unix_ns));
    let ghost prefix = header@;
    push_u32_le(&mut header, channel_count);
    push_u32_le(&mut header, average_count);
    push_u32_le(&mut header, pfb_taps);
    push_u32_le(&mut header, VALUE_TYPE_FLOAT32_POWER);
    assert(header@ =~= prefix + header_counts(*metadata));
    let ghost prefix = header@;
    push_u64_le(&mut header, metadata.lna_gain_db.0);
    push_u64_le(&mut header, metadata.mix_gain_db.0);
    push_u64_le(&mut header, metadata.vga_gain_db.0);
    assert(header@ =~= prefix + header_gains(*metadata));
    let ghost prefix = header@;
    push_u32_le(&mut header, BINARY_ROW_HEADER_SIZE as u32);
    push_u32_le(&mut header, F32_SIZE as u32);
    push_u64_le(&mut header, row_size);
    assert(header@ =~= prefix + header_record_layout(row_size));
    let ghost prefix = header@;
    push_u64_le(&mut header, row_count);
    push_u64_le(&mut header, i64_to_bits(end_unix_ns));
    push_u64_le(&mut header, elapsed_sec.0);
    assert(header@ =~= prefix + trailer_bytes(row_count, end_unix_ns, elapsed_sec));
    push_u64_le(&mut header, band.frequency_min_hz.0);
    push_u64_le(&mut header, band.frequency_max_hz.0);
    let ghost filled = header@;
    let mut i: usize = 0;
    while i < 88
        invariant
            i <= 88,
            header@ == filled + zeros(i as nat),
        decreases 88 - i,
    {
        header.push(0u8);
        i += 1;
        assert(header@ =~= filled + zeros(i as nat));
    }
    reveal(header_head);
    reveal(header_epilogue);
    assert(header@ =~= header_bytes(
        *metadata,
        *band,
        start_unix_ns,
        end_unix_ns,
        row_size,
        row_count,
        elapsed_sec,
    ));
    Ok(header)
}

/// Whether `header` opens with the magic bytes `HIOBIN01`.
fn magic_matches(header: &[u8]) -> (matches: bool)
    requires
        header@.len() >= 8,
    ensures
        matches == (field(header@, 0, 8) == binary_magic_bytes()),
{
    let matches = header[0] == 0x48u8 && header[1] == 0x49u8 && header[2] == 0x4fu8 && header[3]
        == 0x42u8 && header[4] == 0x49u8 && header[5] == 0x4eu8 && header[6] == 0x30u8
        && header[7] == 0x31u8;
    if matches {
        assert(field(header@, 0, 8) =~= binary_magic_bytes());
    } else {
        let ghost f = field(header@, 0, 8);
        assert(f != binary_magic_bytes()) by {
            if f == binary_magic_bytes() {
                assert(f[0] == header@[0] && f[1] == header@[1] && f[2] == header@[2] && f[3]
                    == header@[3] && f[4] == header@[4] && f[5] == header@[5] && f[6] == header@[6]
                    && f[7] == header@[7]);
            }
        }
    }
    matches
}

/// Reads back a header: checks that it is a header of this version and layout, and
/// returns what it records.
pub fn decode_header(header: &[u8]) -> (result: Result<DecodedHeader, ObsError>)
    requires
        header@.len() == BINARY_HEADER_SIZE,
    ensures
        match result {
            Ok(decoded) => header_fault(header@) is None && decoded == decoded_fields(header@),
            Err(e) => header_fault(header@) == Some((e.kind, e.message@)),
        },
{
    if !magic_matches(header) {
        return Err(invalid_data(LEGACY_FORMAT));
    }
    if get_u32(header, 8) != BINARY_VERSION {
        return Err(invalid_data(UNSUPPORTED_VERSION));
    }
    if get_u32(header, 12) as usize != BINARY_HEADER_SIZE || get_u32(header, 16) != ENDIAN_MARKER
        || get_u32(header, 84) != VALUE_TYPE_FLOAT32_POWER || get_u32(header, 112) as usize
        != BINARY_ROW_HEADER_SIZE || get_u32(header, 116) as usize != F32_SIZE {
        return Err(invalid_data(INVALID_HEADER));
    }
    let channel_count = get_u32(header, 72) as usize;
    let stored_row_size = get_u64(header, 120);
    if stored_row_size > usize::MAX as u64 {
        return Err(invalid_data(STORED_ROW_SIZE_TOO_LARGE));
    }
    let row_size = stored_row_size as usize;
    if channel_count == 0 {
        return Err(invalid_data(INVALID_ROW_LAYOUT));
    }
    let expected = match checked_row_size(channel_count) {
        Ok(size) => size,
        Err(e) => return Err(e),
    };
    if expected != row_size {
        return Err(invalid_data(INVALID_ROW_LAYOUT));
    }
    Ok(
        DecodedHeader {
            start_unix_ns: get_i64(header, 24),
            center_frequency_hz: F64Bits(get_u64(header, 32)),
            sample_rate_hz: F64Bits(get_u64(header, 40)),
            channel_count,
            average_count: get_u32(header, 76) as usize,
            pfb_taps: get_u32(header, 80) as usize,
            time_resolution_sec: F64Bits(get_u64(header, 64)),
            lna_gain_db: F64Bits(get_u64(header, 88)),
            mix_gain_db: F64Bits(get_u64(header, 96)),
            vga_gain_db: F64Bits(get_u64(header, 104)),
            row_size,
        },
    )
}

/// The counted settings of a stored header agree with the current ones.
pub open spec fn counts_agree(stored: DecodedHeader, current: ObservationMetadata) -> bool {
    &&& stored.channel_count == current.channel_count
    &&& stored.average_count == current.average_count
    &&& stored.pfb_taps == current.pfb_taps
}

/// Checks that an observation with the settings `current` may be appended to a file
/// whose header records `stored`. `float_settings_close` tells whether each
/// floating-point setting (center frequency, sample rate, time resolution, the three
/// gains) is within a relative `1e-12` of the stored one.
pub fn validate_append_metadata(
    stored: &DecodedHeader,
    current: &ObservationMetadata,
    float_settings_close: bool,
) -> (result: Result<(), ObsError>)
    ensures
        match result {
            Ok(()) => counts_agree(*stored, *current) && float_settings_close,
            Err(e) => !(counts_agree(*stored, *current) && float_settings_close) && e.is(
                ErrorKind::InvalidInput,
                SETTINGS_MISMATCH@,
            ),
        },
        result is Ok <==> {
            &&& stored.channel_count == current.channel_count
            &&& stored.average_count == current.average_count
            &&& stored.pfb_taps == current.pfb_taps
            &&& float_settings_close
        },
{
    let matches = stored.channel_count == current.channel_count && stored.average_count
        == current.average_count && stored.pfb_taps == current.pfb_taps && float_settings_close;
    if matches {
        Ok(())
    } else {
        Err(invalid_input(SETTINGS_MISMATCH))
    }
}

/// Where an appending writer goes on in an existing file.
#[derive(Clone, Copy, Debug, PartialEq, Eq, Structural)]
pub struct AppendPosition {
    /// The number of complete records already in the file.
    pub row_count: u64,
    /// The offset of the last of them, if there is one.
    pub last_row_offset: Option<u64>,
}

/// What an appending writer finds in a file of `file_size` bytes with records of
/// `row_size` bytes: its record count and the offset of its last record, or why
/// it cannot go on in it.
pub open spec fn append_outcome(file_size: u64, row_size: usize) -> Result<
    AppendPosition,
    (ErrorKind, Seq<char>),
> {
    if file_size < BINARY_HEADER_SIZE {
        Err((ErrorKind::InvalidData, SHORTER_THAN_HEADER@))
    } else if (file_size - BINARY_HEADER_SIZE) % (row_size as int) != 0 {
        Err((ErrorKind::InvalidData, INCOMPLETE_RECORD@))
    } else {
        let row_count = (file_size - BINARY_HEADER_SIZE) / (row_size as int);
        Ok(
            AppendPosition {
                row_count: row_count as u64,
                last_row_offset: if row_count == 0 {
                    None
                } else {
                    Some((BINARY_HEADER_SIZE + (row_count - 1) * row_size) as u64)
                },
            },
        )
    }
}

/// The records that a file of `file_size` bytes holds after its header, for records of
/// `row_size` bytes: its record count and the offset of its last record.
pub fn append_position(file_size: u64, row_size: usize) -> (result: Result<
    AppendPosition,
    ObsError,
>)
    requires
        row_size > 0,
    ensures
        match result {
            Ok(position) => append_outcome(file_size, row_size) == Ok::<
                AppendPosition,
                (ErrorKind, Seq<char>),
            >(position),
            Err(e) => append_outcome(file_size, row_size) == Err::<
                AppendPosition,
                (ErrorKind, Seq<char>),
            >((e.kind, e.message@)),
        },
{
    if file_size < BINARY_HEADER_SIZE as u64 {
        return Err(invalid_data(SHORTER_THAN_HEADER));
    }
    let data_size = file_size - BINARY_HEADER_SIZE as u64;
    let row_size = row_size as u64;
    if data_size % row_size != 0 {
        return Err(invalid_data(INCOMPLETE_RECORD));
    }
    let row_count = data_size / row_size;
    if row_count == 0 {
        Ok(AppendPosition { row_count, last_row_offset: None })
    } else {
        assert(row_count * row_size == data_size) by (nonlinear_arith)
            requires
                data_size % row_size == 0,
                row_count == data_size / row_size,
                row_size > 0,
        ;
        assert((row_count - 1) * row_size == row_count * row_size - row_size) by (nonlinear_arith);
        let last = BINARY_HEADER_SIZE as u64 + (row_count - 1) * row_size;
        Ok(AppendPosition { row_count, last_row_offset: Some(last) })
    }
}

/// The little-endian bytes of each value of `values`, one after another.
pub open spec fn values_le(values: Seq<F32Bits>) -> Seq<u8>
    decreases values.len(),
{
    if values.len() == 0 {
        Seq::empty()
    } else {
        values_le(values.drop_last()) + u32_le(values.last().0)
    }
}

/// The record of a spectrum taken `elapsed_sec` after the start at
/// `center_frequency_hz`.
pub open spec fn row_bytes(
    elapsed_sec: F64Bits,
    center_frequency_hz: F64Bits,
    spectrum: Seq<F32Bits>,
) -> Seq<u8> {
    u64_le(elapsed_sec.0) + u64_le(center_frequency_hz.0) + values_le(spectrum)
}

/// Four bytes per value.
pub proof fn lemma_values_le_len(values: Seq<F32Bits>)
    ensures
        values_le(values).len() == 4 * values.len(),
    decreases values.len(),
{
    if values.len() > 0 {
        lemma_values_le_len(values.drop_last());
    }
}

/// Appends the little-endian bytes of each value of `values` to `out`.
pub fn push_values_le(out: &mut Vec<u8>, values: &[F32Bits])
    ensures
        final(out)@ == old(out)@ + values_le(values@),
{
    let mut i: usize = 0;
    while i < values.len()
        invariant
            i <= values@.len(),
            out@ == old(out)@ + values_le(values@.subrange(0, i as int)),
        decreases values@.len() - i,
    {
        push_u32_le(out, values[i].0);
        proof {
            assert(values@.subrange(0, i + 1).drop_last() =~= values@.subrange(0, i as int));
        }
        i += 1;
    }
    assert(values@.subrange(0, values@.len() as int) =~= values@);
}

/// The state of one `.bin` recording: its channel count, its start, and how many
/// records it holds. It decides what goes into the file; the caller writes it.
#[derive(Clone, Copy, Debug, PartialEq, Eq, Structural)]
pub struct BinaryRecorder {
    pub channel_count: usize,
    pub observation_start_unix_ns: i64,
    pub row_count: u64,
}

impl BinaryRecorder {
    /// Starts a new file: the recorder and the header to write first, which records
    /// `metadata`, `band` and the start time, no records and no elapsed time yet.
    pub fn create(metadata: &ObservationMetadata, band: &BandEdges, start_unix_ns: i64) -> (result:
        Result<(BinaryRecorder, Vec<u8>), ObsError>)
        ensures
            match result {
                Ok((recorder, header)) => {
                    &&& row_size_for(metadata.channel_count as int) <= usize::MAX
                    &&& encode_fault(*metadata) is None
                    &&& header@ == header_bytes(
                        *metadata,
                        *band,
                        start_unix_ns,
                        start_unix_ns,
                        row_size_for(metadata.channel_count as int) as u64,
                        0,
                        F64Bits(0),
                    )
                    &&& recorder == BinaryRecorder {
                        channel_count: metadata.channel_count,
                        observation_start_unix_ns: start_unix_ns,
                        row_count: 0,
                    }
                },
                Err(e) => if row_size_for(metadata.channel_count as int) > usize::MAX {
                    e.is(ErrorKind::InvalidInput, ROW_SIZE_OVERFLOW@)
                } else {
                    encode_fault(*metadata) == Some((e.kind, e.message@))
                },
            },
    {
        let row_size = match checked_row_size(metadata.channel_count) {
            Ok(size) => size,
            Err(e) => return Err(e),
        };
        let header = match encode_header(
            metadata,
            band,
            start_unix_ns,
            start_unix_ns,
            row_size,
            0,
            F64Bits(0),
        ) {
            Ok(header) => header,
            Err(e) => return Err(e),
        };
        let recorder = BinaryRecorder {
            channel_count: metadata.channel_count,
            observation_start_unix_ns: start_unix_ns,
            row_count: 0,
        };
        Ok((recorder, header))
    }

    /// Goes on in an existing file of `file_size` bytes whose header records `stored`,
    /// with the settings `current`; `float_settings_close` tells whether the
    /// floating-point settings agree (see `validate_append_metadata`).
    pub fn resume(
        stored: &DecodedHeader,
        current: &ObservationMetadata,
        float_settings_close: bool,
        file_size: u64,
    ) -> (result: Result<(BinaryRecorder, AppendPosition), ObsError>)
        requires
            stored.row_size > 0,
        ensures
            match result {
                Ok((recorder, position)) => {
                    &&& counts_agree(*stored, *current) && float_settings_close
                    &&& stored.channel_count == current.channel_count
                    &&& stored.average_count == current.average_count
                    &&& stored.pfb_taps == current.pfb_taps
                    &&& append_outcome(file_size, stored.row_size) == Ok::<
                        AppendPosition,
                        (ErrorKind, Seq<char>),
                    >(position)
                    &&& recorder == BinaryRecorder {
                        channel_count: current.channel_count,
                        observation_start_unix_ns: stored.start_unix_ns,
                        row_count: position.row_count,
                    }
                },
                Err(e) => if !(counts_agree(*stored, *current) && float_settings_close) {
                    e.is(ErrorKind::InvalidInput, SETTINGS_MISMATCH@)
                } else {
                    append_outcome(file_size, stored.row_size) == Err::<
                        AppendPosition,
                        (ErrorKind, Seq<char>),
                    >((e.kind, e.message@))
                },
            },
    {
        if let Err(e) = validate_append_metadata(stored, current, float_settings_close) {
            return Err(e);
        }
        let position = match append_position(file_size, stored.row_size) {
            Ok(position) => position,
            Err(e) => return Err(e),
        };
        let recorder = BinaryRecorder {
            channel_count: current.channel_count,
            observation_start_unix_ns: stored.start_unix_ns,
            row_count: position.row_count,
        };
        Ok((recorder, position))
    }

    /// The record for a spectrum taken `elapsed_sec` after the start at
    /// `center_frequency_hz`, counted as written; refused unless the spectrum has one
    /// value per channel.
    pub fn record_spectrum(
        &mut self,
        elapsed_sec: F64Bits,
        center_frequency_hz: F64Bits,
        spectrum: &[F32Bits],
    ) -> (result: Result<Vec<u8>, ObsError>)
        requires
            spectrum@.len() == old(self).channel_count ==> old(self).row_count < u64::MAX,
        ensures
            match result {
                Ok(row) => {
                    &&& spectrum@.len() == old(self).channel_count
                    &&& row@ == row_bytes(elapsed_sec, center_frequency_hz, spectrum@)
                    &&& *final(self) == BinaryRecorder {
                        row_count: (old(self).row_count + 1) as u64,
                        ..*old(self)
                    }
                },
                Err(e) => {
                    &&& spectrum@.len() != old(self).channel_count
                    &&& e.is(
                        ErrorKind::InvalidInput,
                        channel_mismatch_message(
                            BINARY_CHANNELS_RECEIVED@,
                            old(self).channel_count as nat,
                            spectrum@.len(),
                        ),
                    )
                    &&& *final(self) == *old(self)
                },
            },
    {
        if spectrum.len() != self.channel_count {
            return Err(channel_mismatch(BINARY_CHANNELS_RECEIVED, self.channel_count, spectrum.len()));
        }
        let mut row: Vec<u8> = Vec::new();
        push_u64_le(&mut row, elapsed_sec.0);
        push_u64_le(&mut row, center_frequency_hz.0);
        push_values_le(&mut row, spectrum);
        assert(row@ =~= row_bytes(elapsed_sec, center_frequency_hz, spectrum@));
        self.row_count = self.row_count + 1;
        Ok(row)
    }

    /// The bytes that close the recording, to be written at offset `ROW_COUNT_OFFSET`:
    /// the record count, the end time and the elapsed seconds.
    pub fn finish_trailer(&self, end_unix_ns: i64, elapsed_sec: F64Bits) -> (trailer: Vec<u8>)
        ensures
            trailer@ == trailer_bytes(self.row_count, end_unix_ns, elapsed_sec),
    {
        let mut trailer: Vec<u8> = Vec::new();
        let mut i: usize = 0;
        while i < 24
            invariant
                i <= 24,
                trailer@ == zeros(i as nat),
            decreases 24 - i,
        {
            trailer.push(0u8);
            i += 1;
            assert(trailer@ =~= zeros(i as nat));
        }
        let slice = trailer.as_mut_slice();
        put_u64(slice, 0, self.row_count);
        put_i64(slice, 8, end_unix_ns);
        put_u64(slice, 16, elapsed_sec.0);
        assert(trailer@ =~= trailer_bytes(self.row_count, end_unix_ns, elapsed_sec));
        trailer
    }

    /// When the observation started, in nanoseconds since the Unix epoch.
    pub fn observation_start_unix_ns(&self) -> (start: i64)
        ensures
            start == self.observation_start_unix_ns,
    {
        self.observation_start_unix_ns
    }
}

/// Whether opening with `append` goes on in an existing file: only when appending was
/// asked for and a file of nonzero length is there (`existing_len` is its length, or
/// `None` when there is none).
pub fn appends_to_existing(append: bool, existing_len: Option<u64>) -> (appends: bool)
    ensures
        appends == (append && match existing_len {
            Some(len) => len > 0,
            None => false,
        }),
{
    append && match existing_len {
        Some(len) => len > 0,
        None => false,
    }
}

/// A field of a field: the bytes at `offset + k` of `h`, where `part` stands at `offset`.
proof fn lemma_subfield(h: Seq<u8>, offset: int, len: int, part: Seq<u8>, k: int, n: int)
    requires
        0 <= offset,
        offset + len <= h.len(),
        field(h, offset, len) == part,
        0 <= k,
        0 <= n,
        k + n <= len,
    ensures
        field(h, offset + k, n) == field(part, k, n),
{
    assert(field(h, offset + k, n) =~= field(part, k, n));
}

/// Where the parts of a header stand.
#[verifier::rlimit(100)]
#[verifier::spinoff_prover]
proof fn lemma_header_parts(
    metadata: ObservationMetadata,
    band: BandEdges,
    start_unix_ns: i64,
    end_unix_ns: i64,
    row_size: u64,
    row_count: u64,
    elapsed_sec: F64Bits,
)
    ensures
        ({
            let h = header_bytes(
                metadata,
                band,
                start_unix_ns,
                end_unix_ns,
                row_size,
                row_count,
                elapsed_sec,
            );
            &&& h.len() == BINARY_HEADER_SIZE
            &&& field(h, 0, 24) == header_prologue()
            &&& field(h, 24, 48) == header_timing(metadata, band, start_unix_ns)
            &&& field(h, 72, 16) == header_counts(metadata)
            &&& field(h, 88, 24) == header_gains(metadata)
            &&& field(h, 112, 16) == header_record_layout(row_size)
            &&& field(h, 128, 24) == trailer_bytes(row_count, end_unix_ns, elapsed_sec)
            &&& field(h, 152, 104) == header_epilogue(band)
        }),
{
    let h = header_bytes(metadata, band, start_unix_ns, end_unix_ns, row_size, row_count, elapsed_sec);
    let head = header_head(metadata, band, start_unix_ns, row_size);
    let t = trailer_bytes(row_count, end_unix_ns, elapsed_sec);
    let z = header_epilogue(band);
    lemma_header_head_len(metadata, band, start_unix_ns, row_size);
    assert(z.len() == 104) by {
        reveal(header_epilogue);
    }
    assert(field(h, 0, 128) =~= head);
    assert(field(h, 128, 24) =~= t);
    assert(field(h, 152, 104) =~= z);
    reveal(header_head);
    let a = header_prologue();
    let b = header_timing(metadata, band, start_unix_ns);
    let c = header_counts(metadata);
    let d = header_gains(metadata);
    let l = header_record_layout(row_size);
    assert(field(head, 0, 24) =~= a);
    assert(field(head, 24, 48) =~= b);
    assert(field(head, 72, 16) =~= c);
    assert(field(head, 88, 24) =~= d);
    assert(field(head, 112, 16) =~= l);
    lemma_subfield(h, 0, 128, head, 0, 24);
    lemma_subfield(h, 0, 128, head, 24, 48);
    lemma_subfield(h, 0, 128, head, 72, 16);
    lemma_subfield(h, 0, 128, head, 88, 24);
    lemma_subfield(h, 0, 128, head, 112, 16);
}

/// Offsets of the header fields, as `header_bytes` lays them out.
#[verifier::rlimit(40)]
#[verifier::spinoff_prover]
proof fn lemma_header_fields(
    metadata: ObservationMetadata,
    band: BandEdges,
    start_unix_ns: i64,
    end_unix_ns: i64,
    row_size: u64,
    row_count: u64,
    elapsed_sec: F64Bits,
)
    ensures
        ({
            let h = header_bytes(
                metadata,
                band,
                start_unix_ns,
                end_unix_ns,
                row_size,
                row_count,
                elapsed_sec,
            );
            &&& h.len() == BINARY_HEADER_SIZE
            &&& field(h, 0, 8) == binary_magic_bytes()
            &&& field(h, 8, 4) == u32_le(BINARY_VERSION)
            &&& field(h, 12, 4) == u32_le(BINARY_HEADER_SIZE as u32)
            &&& field(h, 16, 4) == u32_le(ENDIAN_MARKER)
            &&& field(h, 24, 8) == i64_le(start_unix_ns)
            &&& field(h, 32, 8) == u64_le(metadata.center_frequency_hz.0)
            &&& field(h, 40, 8) == u64_le(metadata.sample_rate_hz.0)
            &&& field(h, 64, 8) == u64_le(metadata.time_resolution_sec.0)
            &&& field(h, 72, 4) == u32_le(metadata.channel_count as u32)
            &&& field(h, 76, 4) == u32_le(metadata.average_count as u32)
            &&& field(h, 80, 4) == u32_le(metadata.pfb_taps as u32)
            &&& field(h, 84, 4) == u32_le(VALUE_TYPE_FLOAT32_POWER)
            &&& field(h, 88, 8) == u64_le(metadata.lna_gain_db.0)
            &&& field(h, 96, 8) == u64_le(metadata.mix_gain_db.0)
            &&& field(h, 104, 8) == u64_le(metadata.vga_gain_db.0)
            &&& field(h, 112, 4) == u32_le(BINARY_ROW_HEADER_SIZE as u32)
            &&& field(h, 116, 4) == u32_le(F32_SIZE as u32)
            &&& field(h, 120, 8) == u64_le(row_size)
        }),
{
    let h = header_bytes(metadata, band, start_unix_ns, end_unix_ns, row_size, row_count, elapsed_sec);
    lemma_header_parts(metadata, band, start_unix_ns, end_unix_ns, row_size, row_count, elapsed_sec);
    let a = header_prologue();
    let b = header_timing(metadata, band, start_unix_ns);
    let c = header_counts(metadata);
    let d = header_gains(metadata);
    let l = header_record_layout(row_size);
    assert(field(a, 0, 8) =~= binary_magic_bytes());
    assert(field(a, 8, 4) =~= u32_le(BINARY_VERSION));
    assert(field(a, 12, 4) =~= u32_le(BINARY_HEADER_SIZE as u32));
    assert(field(a, 16, 4) =~= u32_le(ENDIAN_MARKER));
    lemma_subfield(h, 0, 24, a, 0, 8);
    lemma_subfield(h, 0, 24, a, 8, 4);
    lemma_subfield(h, 0, 24, a, 12, 4);
    lemma_subfield(h, 0, 24, a, 16, 4);
    assert(field(b, 0, 8) =~= i64_le(start_unix_ns));
    assert(field(b, 8, 8) =~= u64_le(metadata.center_frequency_hz.0));
    assert(field(b, 16, 8) =~= u64_le(metadata.sample_rate_hz.0));
    assert(field(b, 40, 8) =~= u64_le(metadata.time_resolution_sec.0));
    lemma_subfield(h, 24, 48, b, 0, 8);
    lemma_subfield(h, 24, 48, b, 8, 8);
    lemma_subfield(h, 24, 48, b, 16, 8);
    lemma_subfield(h, 24, 48, b, 40, 8);
    assert(field(c, 0, 4) =~= u32_le(metadata.channel_count as u32));
    assert(field(c, 4, 4) =~= u32_le(metadata.average_count as u32));
    assert(field(c, 8, 4) =~= u32_le(metadata.pfb_taps as u32));
    assert(field(c, 12, 4) =~= u32_le(VALUE_TYPE_FLOAT32_POWER));
    lemma_subfield(h, 72, 16, c, 0, 4);
    lemma_subfield(h, 72, 16, c, 4, 4);
    lemma_subfield(h, 72, 16, c, 8, 4);
    lemma_subfield(h, 72, 16, c, 12, 4);
    assert(field(d, 0, 8) =~= u64_le(metadata.lna_gain_db.0));
    assert(field(d, 8, 8) =~= u64_le(metadata.mix_gain_db.0));
    assert(field(d, 16, 8) =~= u64_le(metadata.vga_gain_db.0));
    lemma_subfield(h, 88, 24, d, 0, 8);
    lemma_subfield(h, 88, 24, d, 8, 8);
    lemma_subfield(h, 88, 24, d, 16, 8);
    assert(field(l, 0, 4) =~= u32_le(BINARY_ROW_HEADER_SIZE as u32));
    assert(field(l, 4, 4) =~= u32_le(F32_SIZE as u32));
    assert(field(l, 8, 8) =~= u64_le(row_size));
    lemma_subfield(h, 112, 16, l, 0, 4);
    lemma_subfield(h, 112, 16, l, 4, 4);
    lemma_subfield(h, 112, 16, l, 8, 8);
}

/// A header written for an observation reads back as that observation: decoding
/// the header of any settings whose counts fit the header, with a nonzero channel
/// count, succeeds and returns those settings, the start time and the record size.
pub proof fn lemma_header_roundtrip(
    metadata: ObservationMetadata,
    band: BandEdges,
    start_unix_ns: i64,
    end_unix_ns: i64,
    row_count: u64,
    elapsed_sec: F64Bits,
)
    requires
        encode_fault(metadata) is None,
        metadata.channel_count > 0,
        row_size_for(metadata.channel_count as int) <= usize::MAX,
    ensures
        ({
            let h = header_bytes(
                metadata,
                band,
                start_unix_ns,
                end_unix_ns,
                row_size_for(metadata.channel_count as int) as u64,
                row_count,
                elapsed_sec,
            );
            &&& header_fault(h) is None
            &&& decoded_fields(h) == DecodedHeader {
                start_unix_ns,
                center_frequency_hz: metadata.center_frequency_hz,
                sample_rate_hz: metadata.sample_rate_hz,
                channel_count: metadata.channel_count,
                average_count: metadata.average_count,
                pfb_taps: metadata.pfb_taps,
                time_resolution_sec: metadata.time_resolution_sec,
                lna_gain_db: metadata.lna_gain_db,
                mix_gain_db: metadata.mix_gain_db,
                vga_gain_db: metadata.vga_gain_db,
                row_size: row_size_for(metadata.channel_count as int) as usize,
            }
        }),
{
    lemma_header_fields(
        metadata,
        band,
        start_unix_ns,
        end_unix_ns,
        row_size_for(metadata.channel_count as int) as u64,
        row_count,
        elapsed_sec,
    );
}

/// The part of a header before its trailer holds 128 bytes.
proof fn lemma_header_head_len(
    metadata: ObservationMetadata,
    band: BandEdges,
    start_unix_ns: i64,
    row_size: u64,
)
    ensures
        header_head(metadata, band, start_unix_ns, row_size).len() == ROW_COUNT_OFFSET,
{
    reveal(header_head);
    assert(header_prologue().len() == 24);
    assert(header_timing(metadata, band, start_unix_ns).len() == 48);
    assert(header_counts(metadata).len() == 16);
    assert(header_gains(metadata).len() == 24);
    assert(header_record_layout(row_size).len() == 16);
}

/// Replacing the middle part of `x + y + z` by `w` of the same length gives `x + w + z`.
proof fn lemma_splice_middle(x: Seq<u8>, y: Seq<u8>, z: Seq<u8>, w: Seq<u8>)
    requires
        y.len() == w.len(),
    ensures
        splice(x + y + z, x.len() as int, w) == x + w + z,
{
    assert((x + y + z).subrange(0, x.len() as int) =~= x);
    assert((x + y + z).subrange(x.len() + w.len() as int, (x + y + z).len() as int) =~= z);
}

/// Closing a recording updates its header: writing the trailer at
/// `ROW_COUNT_OFFSET` over a header gives the header that records the final record
/// count, end time and elapsed seconds, all else unchanged.
#[verifier::rlimit(40)]
#[verifier::spinoff_prover]
pub proof fn lemma_finish_updates_header(
    metadata: ObservationMetadata,
    band: BandEdges,
    start_unix_ns: i64,
    end_unix_ns: i64,
    row_size: u64,
    row_count: u64,
    elapsed_sec: F64Bits,
    final_end_unix_ns: i64,
    final_row_count: u64,
    final_elapsed_sec: F64Bits,
)
    ensures
        splice(
            header_bytes(metadata, band, start_unix_ns, end_unix_ns, row_size, row_count, elapsed_sec),
            ROW_COUNT_OFFSET as int,
            trailer_bytes(final_row_count, final_end_unix_ns, final_elapsed_sec),
        ) == header_bytes(
            metadata,
            band,
            start_unix_ns,
            final_end_unix_ns,
            row_size,
            final_row_count,
            final_elapsed_sec,
        ),
{
    let before = header_bytes(
        metadata,
        band,
        start_unix_ns,
        end_unix_ns,
        row_size,
        row_count,
        elapsed_sec,
    );
    let after = header_bytes(
        metadata,
        band,
        start_unix_ns,
        final_end_unix_ns,
        row_size,
        final_row_count,
        final_elapsed_sec,
    );
    let trailer = trailer_bytes(final_row_count, final_end_unix_ns, final_elapsed_sec);
    let head = header_head(metadata, band, start_unix_ns, row_size);
    let tail = header_epilogue(band);
    let old_trailer = trailer_bytes(row_count, end_unix_ns, elapsed_sec);
    lemma_header_head_len(metadata, band, start_unix_ns, row_size);
    assert(before == head + old_trailer + tail);
    lemma_splice_middle(head, old_trailer, tail, trailer);
    assert(splice(before, 128, trailer) == head + trailer + tail);
    assert(after == head + trailer + tail);
}

/// A record holds `row_size_for(n)` bytes for a spectrum of `n` values.
pub proof fn lemma_row_size(
    elapsed_sec: F64Bits,
    center_frequency_hz: F64Bits,
    spectrum: Seq<F32Bits>,
)
    ensures
        row_bytes(elapsed_sec, center_frequency_hz, spectrum).len() == row_size_for(
            spectrum.len() as int,
        ),
{
    lemma_values_le_len(spectrum);
}

/// A file of one header and `k` whole records resumes after them: the appending
/// writer finds `k` records, the last at `256 + (k - 1) * row_size`.
pub proof fn lemma_resume_after_records(row_size: usize, k: u64)
    requires
        row_size > 0,
        BINARY_HEADER_SIZE + k * row_size <= u64::MAX,
    ensures
        append_outcome((BINARY_HEADER_SIZE + k * row_size) as u64, row_size) == Ok::<
            AppendPosition,
            (ErrorKind, Seq<char>),
        >(
            AppendPosition {
                row_count: k,
                last_row_offset: if k == 0 {
                    None
                } else {
                    Some((BINARY_HEADER_SIZE + (k - 1) * row_size) as u64)
                },
            },
        ),
{
    let data = k * row_size;
    assert(data % (row_size as int) == 0 && data / (row_size as int) == k) by (nonlinear_arith)
        requires
            data == k * row_size,
            row_size > 0,
    ;
}


/// The header has 256 bytes, and its trailer fields hold the record count, the end
/// time and the elapsed seconds.
pub proof fn lemma_trailer_fields(
    metadata: ObservationMetadata,
    band: BandEdges,
    start_unix_ns: i64,
    end_unix_ns: i64,
    row_size: u64,
    row_count: u64,
    elapsed_sec: F64Bits,
)
    ensures
        ({
            let h = header_bytes(metadata, band, start_unix_ns, end_unix_ns, row_size, row_count, elapsed_sec);
            &&& h.len() == BINARY_HEADER_SIZE
            &&& field(h, ROW_COUNT_OFFSET as int, 8) == u64_le(row_count)
            &&& field(h, END_UNIX_NS_OFFSET as int, 8) == i64_le(end_unix_ns)
            &&& field(h, ELAPSED_SEC_OFFSET as int, 8) == u64_le(elapsed_sec.0)
        }),
{
    let h = header_bytes(metadata, band, start_unix_ns, end_unix_ns, row_size, row_count, elapsed_sec);
    lemma_header_head_len(metadata, band, start_unix_ns, row_size);
    reveal(header_epilogue);
    assert(field(h, ROW_COUNT_OFFSET as int, 8) =~= u64_le(row_count));
    assert(field(h, END_UNIX_NS_OFFSET as int, 8) =~= i64_le(end_unix_ns));
    assert(field(h, ELAPSED_SEC_OFFSET as int, 8) =~= u64_le(elapsed_sec.0));
}


/// Appending needs the same channel count, average count and PFB tap count: the
/// stored and the current settings agree exactly when each of the three is equal,
/// and a difference in any one of them refuses the append.
pub proof fn lemma_append_needs_equal_counts(stored: DecodedHeader, current: ObservationMetadata)
    ensures
        counts_agree(stored, current) <==> {
            &&& stored.channel_count == current.channel_count
            &&& stored.average_count == current.average_count
            &&& stored.pfb_taps == current.pfb_taps
        },
        stored.average_count != current.average_count ==> !counts_agree(stored, current),
        stored.pfb_taps != current.pfb_taps ==> !counts_agree(stored, current),
        stored.channel_count != current.channel_count ==> !counts_agree(stored, current),
{
}

} // verus!
