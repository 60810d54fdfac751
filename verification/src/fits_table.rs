//! The FITS file of an observation: a primary header with no data, then a binary
//! table extension `SPECTRA` with one big-endian row per spectrum.
use vstd::prelude::*;
use vstd::string::{is_ascii, StringSliceAdditionalSpecFns};
use vstd::utf8::{encode_utf8, is_ascii_chars, is_ascii_chars_encode_utf8};
use crate::clock::{chrono_fits_datetime, chrono_representable, fits_datetime, UtcInstant};
use crate::fits_card::{
    ascii_bytes, end_card, lemma_ascii_encoding, lemma_card_keyword, lemma_end_card_keyword, quoted, end_card_bytes, integer_card, integer_card_bytes, logical_card, logical_card_bytes,
    padding_for, string_card, string_card_bytes, value_card, value_card_bytes, FITS_BLOCK_SIZE,
    FITS_CARD_SIZE,
};
use crate::binary_observation::row_size_for;
use crate::byte_codec::{lemma_splice_left, push_u32_be, push_u64_be, splice, u32_be, u64_be};
use crate::error::{
    channel_mismatch, channel_mismatch_message, invalid_input, other_error, ErrorKind, ObsError,
};
use crate::metadata::{F32Bits, F64Bits, ObservationMetadata};
use crate::text::{decimal_chars, format_decimal, pad_right, push_decimal, push_str};

verus! {

/// The bytes of `cards`, one after another.
pub open spec fn cards_bytes(cards: Seq<Seq<u8>>) -> Seq<u8>
    decreases cards.len(),
{
    if cards.len() == 0 {
        Seq::empty()
    } else {
        cards_bytes(cards.drop_last()) + cards.last()
    }
}

/// `n` spaces.
pub open spec fn spaces(n: nat) -> Seq<u8> {
    Seq::new(n, |i: int| 0x20u8)
}

/// A header of `cards`: the cards, then spaces up to whole FITS blocks.
pub open spec fn header_block_bytes(cards: Seq<Seq<u8>>) -> Seq<u8> {
    cards_bytes(cards) + spaces(
        ((FITS_BLOCK_SIZE - (cards.len() * FITS_CARD_SIZE) % FITS_BLOCK_SIZE as int)
            % FITS_BLOCK_SIZE as int) as nat,
    )
}

/// The contents of each card.
pub open spec fn card_views(cards: Seq<[u8; 80]>) -> Seq<Seq<u8>> {
    cards.map_values(|card: [u8; 80]| card@)
}

/// A keyword whose characters are ASCII and at most eight fits a card.
proof fn lemma_keyword_fits(keyword: &str)
    requires
        keyword@.len() <= 8,
        is_ascii(keyword),
    ensures
        keyword.spec_bytes().len() <= 8,
{
    is_ascii_chars_encode_utf8(keyword@);
}

/// A header: the cards, then spaces up to whole FITS blocks.
pub fn write_header(cards: &Vec<[u8; 80]>) -> (header: Vec<u8>)
    requires
        cards@.len() * FITS_CARD_SIZE + FITS_BLOCK_SIZE <= usize::MAX,
    ensures
        header@ == header_block_bytes(card_views(cards@)),
        header@.len() == cards@.len() * FITS_CARD_SIZE + (FITS_BLOCK_SIZE - (cards@.len()
            * FITS_CARD_SIZE) % FITS_BLOCK_SIZE as int) % FITS_BLOCK_SIZE as int,
        header@.len() % (FITS_BLOCK_SIZE as nat) == 0,
{
    let mut header: Vec<u8> = Vec::new();
    let mut i: usize = 0;
    while i < cards.len()
        invariant
            i <= cards@.len(),
            header@ == cards_bytes(card_views(cards@.subrange(0, i as int))),
            header@.len() == i * FITS_CARD_SIZE,
        decreases cards@.len() - i,
    {
        let card = &cards[i];
        let ghost before = header@;
        let mut j: usize = 0;
        while j < FITS_CARD_SIZE
            invariant
                j <= FITS_CARD_SIZE,
                header@ == before + card@.subrange(0, j as int),
            decreases FITS_CARD_SIZE - j,
        {
            header.push(card[j]);
            j += 1;
            assert(header@ =~= before + card@.subrange(0, j as int));
        }
        proof {
            let prefix = card_views(cards@.subrange(0, i + 1));
            assert(prefix.drop_last() =~= card_views(cards@.subrange(0, i as int)));
            assert(card@.subrange(0, 80) =~= card@);
        }
        i += 1;
    }
    assert(cards@.subrange(0, cards@.len() as int) =~= cards@);
    let padding = padding_for(cards.len() * FITS_CARD_SIZE);
    let ghost filled = header@;
    let mut k: usize = 0;
    while k < padding
        invariant
            k <= padding,
            header@ == filled + spaces(k as nat),
        decreases padding - k,
    {
        header.push(0x20u8);
        k += 1;
        assert(header@ =~= filled + spaces(k as nat));
    }
    header
}

/// The cards of the primary header: a FITS file with no primary data array whose
/// extensions follow, created at `created` (a FITS date).
pub open spec fn primary_header_cards(created: Seq<char>) -> Seq<Seq<u8>> {
    seq![
        logical_card_bytes("SIMPLE"@, true, "Conforms to FITS standard"@),
        integer_card_bytes("BITPIX"@, 8, "Character data"@),
        integer_card_bytes("NAXIS"@, 0, "No primary data array"@),
        logical_card_bytes("EXTEND"@, true, "Extensions may be present"@),
        string_card_bytes("DATE"@, created, "UTC file creation time"@),
        string_card_bytes("ORIGIN"@, "HI Observer"@, "Data acquisition software"@),
        string_card_bytes("CREATOR"@, "channelize"@, "HI Observer channelizer"@),
        end_card_bytes(),
    ]
}

/// The primary header of a file created at `created`.
pub fn write_primary_header(created: UtcInstant) -> (header: Vec<u8>)
    requires
        chrono_representable(created),
    ensures
        header@ == header_block_bytes(
            primary_header_cards(chrono_fits_datetime(created.seconds, created.nanos)),
        ),
        header@.len() == FITS_BLOCK_SIZE,
{
    proof {
        reveal_strlit("SIMPLE");
        reveal_strlit("BITPIX");
        reveal_strlit("NAXIS");
        reveal_strlit("EXTEND");
        reveal_strlit("DATE");
        reveal_strlit("ORIGIN");
        reveal_strlit("CREATOR");
        lemma_keyword_fits("SIMPLE");
        lemma_keyword_fits("BITPIX");
        lemma_keyword_fits("NAXIS");
        lemma_keyword_fits("EXTEND");
        lemma_keyword_fits("DATE");
        lemma_keyword_fits("ORIGIN");
        lemma_keyword_fits("CREATOR");
    }
    let date = fits_datetime(created);
    let mut cards: Vec<[u8; 80]> = Vec::new();
    cards.push(logical_card("SIMPLE", true, "Conforms to FITS standard"));
    cards.push(integer_card("BITPIX", 8, "Character data"));
    cards.push(integer_card("NAXIS", 0, "No primary data array"));
    cards.push(logical_card("EXTEND", true, "Extensions may be present"));
    cards.push(string_card("DATE", date.as_str(), "UTC file creation time"));
    cards.push(string_card("ORIGIN", "HI Observer", "Data acquisition software"));
    cards.push(string_card("CREATOR", "channelize", "HI Observer channelizer"));
    cards.push(end_card());
    assert(card_views(cards@) =~= primary_header_cards(
        chrono_fits_datetime(created.seconds, created.nanos),
    ));
    write_header(&cards)
}

/// The floating-point values of the table header, each as `format!("{value:.12E}")`
/// writes it: this library does no floating-point arithmetic or formatting.
#[derive(Debug)]
pub struct FitsFloatTexts {
    /// `MJDREF`: the start as a Modified Julian Date (Unix seconds / 86400 + 40587).
    pub mjd_reference: String,
    /// `TSTART`, and `TSTOP` and `TELAPSE` until the file is finished: zero.
    pub zero: String,
    /// `TIMEDEL`: the time resolution in seconds.
    pub time_resolution: String,
    /// `OBSFREQ`: the initial center frequency in hertz.
    pub center_frequency: String,
    /// `SAMPRATE` and `BANDWID`: the sample rate in hertz.
    pub sample_rate: String,
    /// `FREQMIN`: the lower band edge in hertz.
    pub frequency_min: String,
    /// `FREQMAX`: the upper band edge in hertz.
    pub frequency_max: String,
    /// `CHAN_BW`: the channel width in hertz.
    pub channel_width: String,
    /// `LNAGAIN`, `MIXGAIN`, `VGAGAIN`: the gains in dB.
    pub lna_gain: String,
    pub mix_gain: String,
    pub vga_gain: String,
}

/// The cards that lay out the table: its size and its three columns TIME, FREQUENCY and SPECTRUM.
#[verifier::opaque]
pub open spec fn table_structure_cards(metadata: ObservationMetadata, row_size: usize) -> Seq<Seq<u8>> {
    seq![
        string_card_bytes("XTENSION"@, "BINTABLE"@, "Binary table extension"@),
        integer_card_bytes("BITPIX"@, 8, "Character data"@),
        integer_card_bytes("NAXIS"@, 2, "Table is a matrix"@),
        integer_card_bytes("NAXIS1"@, row_size as nat, "Bytes per table row"@),
        integer_card_bytes("NAXIS2"@, 0, "Number of spectra"@),
        integer_card_bytes("PCOUNT"@, 0, "No heap data"@),
        integer_card_bytes("GCOUNT"@, 1, "One data group"@),
        integer_card_bytes("TFIELDS"@, 3, "Number of table fields"@),
        string_card_bytes("EXTNAME"@, "SPECTRA"@, "Spectrum time series"@),
        string_card_bytes("TTYPE1"@, "TIME"@, "Elapsed time from DATE-OBS"@),
        string_card_bytes("TFORM1"@, "1D"@, "64-bit floating point"@),
        string_card_bytes("TUNIT1"@, "s"@, "Seconds"@),
        string_card_bytes("TTYPE2"@, "FREQUENCY"@, "Center frequency"@),
        string_card_bytes("TFORM2"@, "1D"@, "64-bit floating point"@),
        string_card_bytes("TUNIT2"@, "Hz"@, "Frequency unit"@),
        string_card_bytes("TTYPE3"@, "SPECTRUM"@, "Averaged linear power"@),
        string_card_bytes("TFORM3"@, decimal_chars(metadata.channel_count as nat) + seq!['E'], "32-bit floating-point vector"@),
        string_card_bytes("TUNIT3"@, "arbitrary"@, "Uncalibrated linear power"@),
        string_card_bytes("TDIM3"@, seq!['('] + decimal_chars(metadata.channel_count as nat) + seq![')'], "Spectrum vector dimensions"@),
    ]
}

/// The cards of the observation's times: its start and end dates and the time axis.
#[verifier::opaque]
pub open spec fn table_time_cards(date: Seq<char>, floats: FitsFloatTexts) -> Seq<Seq<u8>> {
    seq![
        string_card_bytes("DATE-OBS"@, date, "UTC start of observation"@),
        string_card_bytes("DATE-END"@, date, "UTC end of observation"@),
        string_card_bytes("TIMESYS"@, "UTC"@, "Time scale"@),
        string_card_bytes("TIMEUNIT"@, "s"@, "Time unit"@),
        string_card_bytes("TREFPOS"@, "TOPOCENTER"@, "Time reference position"@),
        value_card_bytes("MJDREF"@, floats.mjd_reference@, "MJD at TIME=0"@, true),
        value_card_bytes("TSTART"@, floats.zero@, "Seconds from DATE-OBS"@, true),
        value_card_bytes("TSTOP"@, floats.zero@, "Seconds from DATE-OBS"@, true),
        value_card_bytes("TELAPSE"@, floats.zero@, "Elapsed observation time (s)"@, true),
    ]
}

/// The cards of the receiver settings, then `END`.
#[verifier::opaque]
pub open spec fn table_receiver_cards(metadata: ObservationMetadata, floats: FitsFloatTexts) -> Seq<Seq<u8>> {
    seq![
        value_card_bytes("TIMEDEL"@, floats.time_resolution@, "Nominal spectrum interval (s)"@, true),
        value_card_bytes("OBSFREQ"@, floats.center_frequency@, "Initial center frequency (Hz)"@, true),
        value_card_bytes("SAMPRATE"@, floats.sample_rate@, "ADC sample rate (sample/s)"@, true),
        value_card_bytes("BANDWID"@, floats.sample_rate@, "Bandwidth (Hz)"@, true),
        value_card_bytes("FREQMIN"@, floats.frequency_min@, "Lower band edge (Hz)"@, true),
        value_card_bytes("FREQMAX"@, floats.frequency_max@, "Upper band edge (Hz)"@, true),
        value_card_bytes("CHAN_BW"@, floats.channel_width@, "Channel width (Hz)"@, true),
        integer_card_bytes("NCHANS"@, metadata.channel_count as nat, "Number of frequency channels"@),
        integer_card_bytes("NAVG"@, metadata.average_count as nat, "Spectra averaged per row"@),
        integer_card_bytes("PFBTAPS"@, metadata.pfb_taps as nat, "PFB taps per channel"@),
        value_card_bytes("LNAGAIN"@, floats.lna_gain@, "LNA gain setting (dB)"@, true),
        value_card_bytes("MIXGAIN"@, floats.mix_gain@, "Mixer gain setting (dB)"@, true),
        value_card_bytes("VGAGAIN"@, floats.vga_gain@, "VGA gain setting (dB)"@, true),
        string_card_bytes("DATATYPE"@, "POWER"@, "Stored spectrum quantity"@),
        string_card_bytes("SPECSYS"@, "TOPOCENT"@, "Topocentric spectral frame"@),
        end_card_bytes(),
    ]
}

/// The cards of the binary table header for an observation that started at `date`
/// (a FITS date) with `metadata`, rows of `row_size` bytes, and the floating-point
/// values `floats`.
pub open spec fn binary_table_cards(
    date: Seq<char>,
    metadata: ObservationMetadata,
    row_size: usize,
    floats: FitsFloatTexts,
) -> Seq<Seq<u8>> {
    table_structure_cards(metadata, row_size) + table_time_cards(date, floats) + table_receiver_cards(
        metadata,
        floats,
    )
}

/// The binary table header holds 44 cards.
proof fn lemma_binary_table_cards_len(
    date: Seq<char>,
    metadata: ObservationMetadata,
    row_size: usize,
    floats: FitsFloatTexts,
)
    ensures
        binary_table_cards(date, metadata, row_size, floats).len() == 44,
{
    reveal(table_structure_cards);
    reveal(table_time_cards);
    reveal(table_receiver_cards);
}

/// The keywords of the binary table header, card by card.
pub open spec fn table_keywords() -> Seq<Seq<char>> {
    seq![
        seq!['X', 'T', 'E', 'N', 'S', 'I', 'O', 'N'],
        seq!['B', 'I', 'T', 'P', 'I', 'X'],
        seq!['N', 'A', 'X', 'I', 'S'],
        seq!['N', 'A', 'X', 'I', 'S', '1'],
        seq!['N', 'A', 'X', 'I', 'S', '2'],
        seq!['P', 'C', 'O', 'U', 'N', 'T'],
        seq!['G', 'C', 'O', 'U', 'N', 'T'],
        seq!['T', 'F', 'I', 'E', 'L', 'D', 'S'],
        seq!['E', 'X', 'T', 'N', 'A', 'M', 'E'],
        seq!['T', 'T', 'Y', 'P', 'E', '1'],
        seq!['T', 'F', 'O', 'R', 'M', '1'],
        seq!['T', 'U', 'N', 'I', 'T', '1'],
        seq!['T', 'T', 'Y', 'P', 'E', '2'],
        seq!['T', 'F', 'O', 'R', 'M', '2'],
        seq!['T', 'U', 'N', 'I', 'T', '2'],
        seq!['T', 'T', 'Y', 'P', 'E', '3'],
        seq!['T', 'F', 'O', 'R', 'M', '3'],
        seq!['T', 'U', 'N', 'I', 'T', '3'],
        seq!['T', 'D', 'I', 'M', '3'],
        seq!['D', 'A', 'T', 'E', '-', 'O', 'B', 'S'],
        seq!['D', 'A', 'T', 'E', '-', 'E', 'N', 'D'],
        seq!['T', 'I', 'M', 'E', 'S', 'Y', 'S'],
        seq!['T', 'I', 'M', 'E', 'U', 'N', 'I', 'T'],
        seq!['T', 'R', 'E', 'F', 'P', 'O', 'S'],
        seq!['M', 'J', 'D', 'R', 'E', 'F'],
        seq!['T', 'S', 'T', 'A', 'R', 'T'],
        seq!['T', 'S', 'T', 'O', 'P'],
        seq!['T', 'E', 'L', 'A', 'P', 'S', 'E'],
        seq!['T', 'I', 'M', 'E', 'D', 'E', 'L'],
        seq!['O', 'B', 'S', 'F', 'R', 'E', 'Q'],
        seq!['S', 'A', 'M', 'P', 'R', 'A', 'T', 'E'],
        seq!['B', 'A', 'N', 'D', 'W', 'I', 'D'],
        seq!['F', 'R', 'E', 'Q', 'M', 'I', 'N'],
        seq!['F', 'R', 'E', 'Q', 'M', 'A', 'X'],
        seq!['C', 'H', 'A', 'N', '_', 'B', 'W'],
        seq!['N', 'C', 'H', 'A', 'N', 'S'],
        seq!['N', 'A', 'V', 'G'],
        seq!['P', 'F', 'B', 'T', 'A', 'P', 'S'],
        seq!['L', 'N', 'A', 'G', 'A', 'I', 'N'],
        seq!['M', 'I', 'X', 'G', 'A', 'I', 'N'],
        seq!['V', 'G', 'A', 'G', 'A', 'I', 'N'],
        seq!['D', 'A', 'T', 'A', 'T', 'Y', 'P', 'E'],
        seq!['S', 'P', 'E', 'C', 'S', 'Y', 'S'],
        seq!['E', 'N', 'D'],
    ]
}

/// The first eight bytes of each card of the binary table header are its keyword,
/// padded with spaces.
#[verifier::rlimit(100)]
proof fn lemma_table_card_keywords(
    date: Seq<char>,
    metadata: ObservationMetadata,
    row_size: usize,
    floats: FitsFloatTexts,
)
    ensures
        ({
            let cards = binary_table_cards(date, metadata, row_size, floats);
            forall|j: int|
                0 <= j < 44 ==> (#[trigger] cards[j]).subrange(0, 8) == ascii_bytes(
                    pad_right(table_keywords()[j], 8),
                ) && cards[j].len() == FITS_CARD_SIZE
        }),
{
    reveal(table_structure_cards);
    reveal(table_time_cards);
    reveal(table_receiver_cards);
    reveal_strlit("XTENSION");
    reveal_strlit("BITPIX");
    reveal_strlit("NAXIS");
    reveal_strlit("NAXIS1");
    reveal_strlit("NAXIS2");
    reveal_strlit("PCOUNT");
    reveal_strlit("GCOUNT");
    reveal_strlit("TFIELDS");
    reveal_strlit("EXTNAME");
    reveal_strlit("TTYPE1");
    reveal_strlit("TFORM1");
    reveal_strlit("TUNIT1");
    reveal_strlit("TTYPE2");
    reveal_strlit("TFORM2");
    reveal_strlit("TUNIT2");
    reveal_strlit("TTYPE3");
    reveal_strlit("TFORM3");
    reveal_strlit("TUNIT3");
    reveal_strlit("TDIM3");
    reveal_strlit("DATE-OBS");
    reveal_strlit("DATE-END");
    reveal_strlit("TIMESYS");
    reveal_strlit("TIMEUNIT");
    reveal_strlit("TREFPOS");
    reveal_strlit("MJDREF");
    reveal_strlit("TSTART");
    reveal_strlit("TSTOP");
    reveal_strlit("TELAPSE");
    reveal_strlit("TIMEDEL");
    reveal_strlit("OBSFREQ");
    reveal_strlit("SAMPRATE");
    reveal_strlit("BANDWID");
    reveal_strlit("FREQMIN");
    reveal_strlit("FREQMAX");
    reveal_strlit("CHAN_BW");
    reveal_strlit("NCHANS");
    reveal_strlit("NAVG");
    reveal_strlit("PFBTAPS");
    reveal_strlit("LNAGAIN");
    reveal_strlit("MIXGAIN");
    reveal_strlit("VGAGAIN");
    reveal_strlit("DATATYPE");
    reveal_strlit("SPECSYS");
    assert("XTENSION"@ =~= seq!['X', 'T', 'E', 'N', 'S', 'I', 'O', 'N']);
    assert("BITPIX"@ =~= seq!['B', 'I', 'T', 'P', 'I', 'X']);
    assert("NAXIS"@ =~= seq!['N', 'A', 'X', 'I', 'S']);
    assert("NAXIS1"@ =~= seq!['N', 'A', 'X', 'I', 'S', '1']);
    assert("NAXIS2"@ =~= seq!['N', 'A', 'X', 'I', 'S', '2']);
    assert("PCOUNT"@ =~= seq!['P', 'C', 'O', 'U', 'N', 'T']);
    assert("GCOUNT"@ =~= seq!['G', 'C', 'O', 'U', 'N', 'T']);
    assert("TFIELDS"@ =~= seq!['T', 'F', 'I', 'E', 'L', 'D', 'S']);
    assert("EXTNAME"@ =~= seq!['E', 'X', 'T', 'N', 'A', 'M', 'E']);
    assert("TTYPE1"@ =~= seq!['T', 'T', 'Y', 'P', 'E', '1']);
    assert("TFORM1"@ =~= seq!['T', 'F', 'O', 'R', 'M', '1']);
    assert("TUNIT1"@ =~= seq!['T', 'U', 'N', 'I', 'T', '1']);
    assert("TTYPE2"@ =~= seq!['T', 'T', 'Y', 'P', 'E', '2']);
    assert("TFORM2"@ =~= seq!['T', 'F', 'O', 'R', 'M', '2']);
    assert("TUNIT2"@ =~= seq!['T', 'U', 'N', 'I', 'T', '2']);
    assert("TTYPE3"@ =~= seq!['T', 'T', 'Y', 'P', 'E', '3']);
    assert("TFORM3"@ =~= seq!['T', 'F', 'O', 'R', 'M', '3']);
    assert("TUNIT3"@ =~= seq!['T', 'U', 'N', 'I', 'T', '3']);
    assert("TDIM3"@ =~= seq!['T', 'D', 'I', 'M', '3']);
    assert("DATE-OBS"@ =~= seq!['D', 'A', 'T', 'E', '-', 'O', 'B', 'S']);
    assert("DATE-END"@ =~= seq!['D', 'A', 'T', 'E', '-', 'E', 'N', 'D']);
    assert("TIMESYS"@ =~= seq!['T', 'I', 'M', 'E', 'S', 'Y', 'S']);
    assert("TIMEUNIT"@ =~= seq!['T', 'I', 'M', 'E', 'U', 'N', 'I', 'T']);
    assert("TREFPOS"@ =~= seq!['T', 'R', 'E', 'F', 'P', 'O', 'S']);
    assert("MJDREF"@ =~= seq!['M', 'J', 'D', 'R', 'E', 'F']);
    assert("TSTART"@ =~= seq!['T', 'S', 'T', 'A', 'R', 'T']);
    assert("TSTOP"@ =~= seq!['T', 'S', 'T', 'O', 'P']);
    assert("TELAPSE"@ =~= seq!['T', 'E', 'L', 'A', 'P', 'S', 'E']);
    assert("TIMEDEL"@ =~= seq!['T', 'I', 'M', 'E', 'D', 'E', 'L']);
    assert("OBSFREQ"@ =~= seq!['O', 'B', 'S', 'F', 'R', 'E', 'Q']);
    assert("SAMPRATE"@ =~= seq!['S', 'A', 'M', 'P', 'R', 'A', 'T', 'E']);
    assert("BANDWID"@ =~= seq!['B', 'A', 'N', 'D', 'W', 'I', 'D']);
    assert("FREQMIN"@ =~= seq!['F', 'R', 'E', 'Q', 'M', 'I', 'N']);
    assert("FREQMAX"@ =~= seq!['F', 'R', 'E', 'Q', 'M', 'A', 'X']);
    assert("CHAN_BW"@ =~= seq!['C', 'H', 'A', 'N', '_', 'B', 'W']);
    assert("NCHANS"@ =~= seq!['N', 'C', 'H', 'A', 'N', 'S']);
    assert("NAVG"@ =~= seq!['N', 'A', 'V', 'G']);
    assert("PFBTAPS"@ =~= seq!['P', 'F', 'B', 'T', 'A', 'P', 'S']);
    assert("LNAGAIN"@ =~= seq!['L', 'N', 'A', 'G', 'A', 'I', 'N']);
    assert("MIXGAIN"@ =~= seq!['M', 'I', 'X', 'G', 'A', 'I', 'N']);
    assert("VGAGAIN"@ =~= seq!['V', 'G', 'A', 'G', 'A', 'I', 'N']);
    assert("DATATYPE"@ =~= seq!['D', 'A', 'T', 'A', 'T', 'Y', 'P', 'E']);
    assert("SPECSYS"@ =~= seq!['S', 'P', 'E', 'C', 'S', 'Y', 'S']);
    let cards = binary_table_cards(date, metadata, row_size, floats);
    assert forall|j: int| 0 <= j < 44 implies (#[trigger] cards[j]).subrange(0, 8) == ascii_bytes(
        pad_right(table_keywords()[j], 8),
    ) && cards[j].len() == FITS_CARD_SIZE by {
            if j == 0 {
                lemma_card_keyword("XTENSION"@, quoted("BINTABLE"@), "Binary table extension"@, false);
            }
            if j == 1 {
                lemma_card_keyword("BITPIX"@, decimal_chars(8), "Character data"@, true);
            }
            if j == 2 {
                lemma_card_keyword("NAXIS"@, decimal_chars(2), "Table is a matrix"@, true);
            }
            if j == 3 {
                lemma_card_keyword("NAXIS1"@, decimal_chars(row_size as nat), "Bytes per table row"@, true);
            }
            if j == 4 {
                lemma_card_keyword("NAXIS2"@, decimal_chars(0), "Number of spectra"@, true);
            }
            if j == 5 {
                lemma_card_keyword("PCOUNT"@, decimal_chars(0), "No heap data"@, true);
            }
            if j == 6 {
                lemma_card_keyword("GCOUNT"@, decimal_chars(1), "One data group"@, true);
            }
            if j == 7 {
                lemma_card_keyword("TFIELDS"@, decimal_chars(3), "Number of table fields"@, true);
            }
            if j == 8 {
                lemma_card_keyword("EXTNAME"@, quoted("SPECTRA"@), "Spectrum time series"@, false);
            }
            if j == 9 {
                lemma_card_keyword("TTYPE1"@, quoted("TIME"@), "Elapsed time from DATE-OBS"@, false);
            }
            if j == 10 {
                lemma_card_keyword("TFORM1"@, quoted("1D"@), "64-bit floating point"@, false);
            }
            if j == 11 {
                lemma_card_keyword("TUNIT1"@, quoted("s"@), "Seconds"@, false);
            }
            if j == 12 {
                lemma_card_keyword("TTYPE2"@, quoted("FREQUENCY"@), "Center frequency"@, false);
            }
            if j == 13 {
                lemma_card_keyword("TFORM2"@, quoted("1D"@), "64-bit floating point"@, false);
            }
            if j == 14 {
                lemma_card_keyword("TUNIT2"@, quoted("Hz"@), "Frequency unit"@, false);
            }
            if j == 15 {
                lemma_card_keyword("TTYPE3"@, quoted("SPECTRUM"@), "Averaged linear power"@, false);
            }
            if j == 16 {
                lemma_card_keyword("TFORM3"@, quoted(decimal_chars(metadata.channel_count as nat) + seq!['E']), "32-bit floating-point vector"@, false);
            }
            if j == 17 {
                lemma_card_keyword("TUNIT3"@, quoted("arbitrary"@), "Uncalibrated linear power"@, false);
            }
            if j == 18 {
                lemma_card_keyword("TDIM3"@, quoted(seq!['('] + decimal_chars(metadata.channel_count as nat) + seq![')']), "Spectrum vector dimensions"@, false);
            }
            if j == 19 {
                lemma_card_keyword("DATE-OBS"@, quoted(date), "UTC start of observation"@, false);
            }
            if j == 20 {
                lemma_card_keyword("DATE-END"@, quoted(date), "UTC end of observation"@, false);
            }
            if j == 21 {
                lemma_card_keyword("TIMESYS"@, quoted("UTC"@), "Time scale"@, false);
            }
            if j == 22 {
                lemma_card_keyword("TIMEUNIT"@, quoted("s"@), "Time unit"@, false);
            }
            if j == 23 {
                lemma_card_keyword("TREFPOS"@, quoted("TOPOCENTER"@), "Time reference position"@, false);
            }
            if j == 24 {
                lemma_card_keyword("MJDREF"@, floats.mjd_reference@, "MJD at TIME=0"@, true);
            }
            if j == 25 {
                lemma_card_keyword("TSTART"@, floats.zero@, "Seconds from DATE-OBS"@, true);
            }
            if j == 26 {
                lemma_card_keyword("TSTOP"@, floats.zero@, "Seconds from DATE-OBS"@, true);
            }
            if j == 27 {
                lemma_card_keyword("TELAPSE"@, floats.zero@, "Elapsed observation time (s)"@, true);
            }
            if j == 28 {
                lemma_card_keyword("TIMEDEL"@, floats.time_resolution@, "Nominal spectrum interval (s)"@, true);
            }
            if j == 29 {
                lemma_card_keyword("OBSFREQ"@, floats.center_frequency@, "Initial center frequency (Hz)"@, true);
            }
            if j == 30 {
                lemma_card_keyword("SAMPRATE"@, floats.sample_rate@, "ADC sample rate (sample/s)"@, true);
            }
            if j == 31 {
                lemma_card_keyword("BANDWID"@, floats.sample_rate@, "Bandwidth (Hz)"@, true);
            }
            if j == 32 {
                lemma_card_keyword("FREQMIN"@, floats.frequency_min@, "Lower band edge (Hz)"@, true);
            }
            if j == 33 {
                lemma_card_keyword("FREQMAX"@, floats.frequency_max@, "Upper band edge (Hz)"@, true);
            }
            if j == 34 {
                lemma_card_keyword("CHAN_BW"@, floats.channel_width@, "Channel width (Hz)"@, true);
            }
            if j == 35 {
                lemma_card_keyword("NCHANS"@, decimal_chars(metadata.channel_count as nat), "Number of frequency channels"@, true);
            }
            if j == 36 {
                lemma_card_keyword("NAVG"@, decimal_chars(metadata.average_count as nat), "Spectra averaged per row"@, true);
            }
            if j == 37 {
                lemma_card_keyword("PFBTAPS"@, decimal_chars(metadata.pfb_taps as nat), "PFB taps per channel"@, true);
            }
            if j == 38 {
                lemma_card_keyword("LNAGAIN"@, floats.lna_gain@, "LNA gain setting (dB)"@, true);
            }
            if j == 39 {
                lemma_card_keyword("MIXGAIN"@, floats.mix_gain@, "Mixer gain setting (dB)"@, true);
            }
            if j == 40 {
                lemma_card_keyword("VGAGAIN"@, floats.vga_gain@, "VGA gain setting (dB)"@, true);
            }
            if j == 41 {
                lemma_card_keyword("DATATYPE"@, quoted("POWER"@), "Stored spectrum quantity"@, false);
            }
            if j == 42 {
                lemma_card_keyword("SPECSYS"@, quoted("TOPOCENT"@), "Topocentric spectral frame"@, false);
            }
            if j == 43 {
                lemma_end_card_keyword();
            }
    }
}

/// A card whose first eight bytes are the ASCII characters `p` starts with the bytes
/// of `k` when `k` begins `p`.
proof fn lemma_card_prefixed(card: Seq<u8>, p: Seq<char>, k: Seq<char>)
    requires
        card.len() >= 8,
        p.len() == 8,
        card.subrange(0, 8) == ascii_bytes(p),
        k.len() <= 8,
        p.subrange(0, k.len() as int) == k,
    ensures
        starts_with(card, ascii_bytes(k)),
{
    assert(card.subrange(0, k.len() as int) =~= ascii_bytes(k)) by {
        assert forall|i: int| 0 <= i < k.len() implies card.subrange(0, k.len() as int)[i]
            == ascii_bytes(k)[i] by {
            assert(card[i] == card.subrange(0, 8)[i]);
            assert(p[i] == k[i]);
        }
    }
}

/// The cards that finishing rewrites are all present in the binary table header.
#[verifier::rlimit(40)]
proof fn lemma_table_patched_cards_present(
    date: Seq<char>,
    metadata: ObservationMetadata,
    row_size: usize,
    floats: FitsFloatTexts,
)
    ensures
        ({
            let cards = binary_table_cards(date, metadata, row_size, floats);
            &&& cards.len() == 44
            &&& starts_with(cards[4], encode_utf8("NAXIS2"@))
            &&& starts_with(cards[20], encode_utf8("DATE-END"@))
            &&& starts_with(cards[26], encode_utf8("TSTOP"@))
            &&& starts_with(cards[27], encode_utf8("TELAPSE"@))
        }),
{
    let cards = binary_table_cards(date, metadata, row_size, floats);
    lemma_binary_table_cards_len(date, metadata, row_size, floats);
    lemma_table_card_keywords(date, metadata, row_size, floats);
    reveal_strlit("NAXIS2");
    reveal_strlit("DATE-END");
    reveal_strlit("TSTOP");
    reveal_strlit("TELAPSE");
    assert(is_ascii_chars("NAXIS2"@));
    assert(is_ascii_chars("DATE-END"@));
    assert(is_ascii_chars("TSTOP"@));
    assert(is_ascii_chars("TELAPSE"@));
    lemma_ascii_encoding("NAXIS2"@);
    lemma_ascii_encoding("DATE-END"@);
    lemma_ascii_encoding("TSTOP"@);
    lemma_ascii_encoding("TELAPSE"@);
    let naxis2 = seq!['N', 'A', 'X', 'I', 'S', '2', ' ', ' '];
    let date_end = seq!['D', 'A', 'T', 'E', '-', 'E', 'N', 'D'];
    let tstop = seq!['T', 'S', 'T', 'O', 'P', ' ', ' ', ' '];
    let telapse = seq!['T', 'E', 'L', 'A', 'P', 'S', 'E', ' '];
    assert(pad_right(table_keywords()[4], 8) =~= naxis2);
    assert(pad_right(table_keywords()[20], 8) =~= date_end);
    assert(pad_right(table_keywords()[26], 8) =~= tstop);
    assert(pad_right(table_keywords()[27], 8) =~= telapse);
    assert(naxis2.subrange(0, 6) =~= "NAXIS2"@);
    assert(date_end.subrange(0, 8) =~= "DATE-END"@);
    assert(tstop.subrange(0, 5) =~= "TSTOP"@);
    assert(telapse.subrange(0, 7) =~= "TELAPSE"@);
    lemma_card_prefixed(cards[4], naxis2, "NAXIS2"@);
    lemma_card_prefixed(cards[20], date_end, "DATE-END"@);
    lemma_card_prefixed(cards[26], tstop, "TSTOP"@);
    lemma_card_prefixed(cards[27], telapse, "TELAPSE"@);
}

/// `card` begins with the bytes `prefix`.
pub open spec fn starts_with(card: Seq<u8>, prefix: Seq<u8>) -> bool {
    prefix.len() <= card.len() && card.subrange(0, prefix.len() as int) == prefix
}

/// `i` is the first of `cards` that starts with `prefix`.
pub open spec fn is_first_card_with(cards: Seq<Seq<u8>>, prefix: Seq<u8>, i: int) -> bool {
    &&& 0 <= i < cards.len()
    &&& starts_with(cards[i], prefix)
    &&& forall|j: int| 0 <= j < i ==> !starts_with(#[trigger] cards[j], prefix)
}

/// The first card of `cards` that starts with the bytes of `keyword` stands at `offset`,
/// counting from `start_offset`.
pub open spec fn card_found_at(
    cards: Seq<Seq<u8>>,
    keyword: Seq<char>,
    start_offset: u64,
    offset: u64,
) -> bool {
    exists|i: int|
        is_first_card_with(cards, encode_utf8(keyword), i) && offset == start_offset + i
            * FITS_CARD_SIZE
}

/// Where the cards that `finish` rewrites stand in the file.
#[derive(Clone, Copy, Debug, PartialEq, Eq, Structural)]
pub struct HeaderOffsets {
    pub naxis2: u64,
    pub date_end: u64,
    pub tstop: u64,
    pub telapse: u64,
}

pub const MISSING_CARD: &'static str = "missing FITS card ";

/// The offset, from `start_offset` on, of the first of `cards` that starts with the
/// bytes of `keyword`; an error of kind `Other` when none does.
fn card_offset(cards: &Vec<[u8; 80]>, keyword: &str, start_offset: u64) -> (result: Result<
    u64,
    ObsError,
>)
    requires
        start_offset + cards@.len() * FITS_CARD_SIZE <= u64::MAX,
    ensures
        match result {
            Ok(offset) => exists|i: int|
                #![trigger cards@[i]]
                is_first_card_with(card_views(cards@), keyword.spec_bytes(), i) && offset
                    == start_offset + i * FITS_CARD_SIZE,
            Err(e) => {
                &&& forall|j: int|
                    0 <= j < cards@.len() ==> !starts_with(
                        #[trigger] card_views(cards@)[j],
                        keyword.spec_bytes(),
                    )
                &&& e.is(ErrorKind::Other, MISSING_CARD@ + keyword@)
            },
        },
{
    let prefix = keyword.as_bytes();
    let mut i: usize = 0;
    while i < cards.len()
        invariant
            i <= cards@.len(),
            prefix@ == keyword.spec_bytes(),
            start_offset + cards@.len() * FITS_CARD_SIZE <= u64::MAX,
            forall|j: int|
                0 <= j < i ==> !starts_with(#[trigger] card_views(cards@)[j], keyword.spec_bytes()),
        decreases cards@.len() - i,
    {
        let card = &cards[i];
        let mut matches = false;
        if prefix.len() <= FITS_CARD_SIZE {
            let mut k: usize = 0;
            while k < prefix.len() && card[k] == prefix[k]
                invariant
                    prefix@.len() <= 80,
                    k <= prefix@.len(),
                    forall|m: int| 0 <= m < k ==> card@[m] == prefix@[m],
                decreases prefix@.len() - k,
            {
                k += 1;
            }
            matches = k == prefix.len();
            proof {
                if matches {
                    assert(card@.subrange(0, prefix@.len() as int) =~= prefix@);
                } else {
                    assert(card@.subrange(0, prefix@.len() as int)[k as int] != prefix@[k as int]);
                }
            }
        }
        proof {
            assert(card_views(cards@)[i as int] == card@);
        }
        if matches {
            assert(start_offset + i * FITS_CARD_SIZE <= u64::MAX) by (nonlinear_arith)
                requires
                    i < cards@.len(),
                    start_offset + cards@.len() * FITS_CARD_SIZE <= u64::MAX,
            ;
            return Ok(start_offset + (i as u64) * (FITS_CARD_SIZE as u64));
        }
        i += 1;
    }
    let mut message = String::new();
    push_str(&mut message, MISSING_CARD);
    push_str(&mut message, keyword);
    Err(ObsError { kind: ErrorKind::Other, message })
}

/// Appends the cards of `table_structure_cards`.
fn push_table_structure_cards(cards: &mut Vec<[u8; 80]>, metadata: &ObservationMetadata, row_size: usize)
    ensures
        card_views(final(cards)@) == card_views(old(cards)@) + table_structure_cards(*metadata, row_size),
{
    proof {
        reveal_strlit("XTENSION");
        lemma_keyword_fits("XTENSION");
        reveal_strlit("BITPIX");
        lemma_keyword_fits("BITPIX");
        reveal_strlit("NAXIS");
        lemma_keyword_fits("NAXIS");
        reveal_strlit("NAXIS1");
        lemma_keyword_fits("NAXIS1");
        reveal_strlit("NAXIS2");
        lemma_keyword_fits("NAXIS2");
        reveal_strlit("PCOUNT");
        lemma_keyword_fits("PCOUNT");
        reveal_strlit("GCOUNT");
        lemma_keyword_fits("GCOUNT");
        reveal_strlit("TFIELDS");
        lemma_keyword_fits("TFIELDS");
        reveal_strlit("EXTNAME");
        lemma_keyword_fits("EXTNAME");
        reveal_strlit("TTYPE1");
        lemma_keyword_fits("TTYPE1");
        reveal_strlit("TFORM1");
        lemma_keyword_fits("TFORM1");
        reveal_strlit("TUNIT1");
        lemma_keyword_fits("TUNIT1");
        reveal_strlit("TTYPE2");
        lemma_keyword_fits("TTYPE2");
        reveal_strlit("TFORM2");
        lemma_keyword_fits("TFORM2");
        reveal_strlit("TUNIT2");
        lemma_keyword_fits("TUNIT2");
        reveal_strlit("TTYPE3");
        lemma_keyword_fits("TTYPE3");
        reveal_strlit("TFORM3");
        lemma_keyword_fits("TFORM3");
        reveal_strlit("TUNIT3");
        lemma_keyword_fits("TUNIT3");
        reveal_strlit("TDIM3");
        lemma_keyword_fits("TDIM3");
    }
    let tform3 = {
        let mut text = format_decimal(metadata.channel_count as u64);
        text.push('E');
        text
    };
    assert(tform3@ =~= decimal_chars(metadata.channel_count as nat) + seq!['E']);
    let tdim3 = {
        let mut text = String::new();
        text.push('(');
        push_decimal(&mut text, metadata.channel_count as u64);
        text.push(')');
        text
    };
    proof {
        assert(tdim3@ =~= seq!['('] + decimal_chars(metadata.channel_count as nat) + seq![')']);
    }
    let ghost before = cards@;
    cards.push(string_card("XTENSION", "BINTABLE", "Binary table extension"));
    cards.push(integer_card("BITPIX", 8, "Character data"));
    cards.push(integer_card("NAXIS", 2, "Table is a matrix"));
    cards.push(integer_card("NAXIS1", row_size as u64, "Bytes per table row"));
    cards.push(integer_card("NAXIS2", 0, "Number of spectra"));
    cards.push(integer_card("PCOUNT", 0, "No heap data"));
    cards.push(integer_card("GCOUNT", 1, "One data group"));
    cards.push(integer_card("TFIELDS", 3, "Number of table fields"));
    cards.push(string_card("EXTNAME", "SPECTRA", "Spectrum time series"));
    cards.push(string_card("TTYPE1", "TIME", "Elapsed time from DATE-OBS"));
    cards.push(string_card("TFORM1", "1D", "64-bit floating point"));
    cards.push(string_card("TUNIT1", "s", "Seconds"));
    cards.push(string_card("TTYPE2", "FREQUENCY", "Center frequency"));
    cards.push(string_card("TFORM2", "1D", "64-bit floating point"));
    cards.push(string_card("TUNIT2", "Hz", "Frequency unit"));
    cards.push(string_card("TTYPE3", "SPECTRUM", "Averaged linear power"));
    cards.push(string_card("TFORM3", tform3.as_str(), "32-bit floating-point vector"));
    cards.push(string_card("TUNIT3", "arbitrary", "Uncalibrated linear power"));
    cards.push(string_card("TDIM3", tdim3.as_str(), "Spectrum vector dimensions"));
    proof {
        reveal(table_structure_cards);
        assert(card_views(cards@) =~= card_views(before) + table_structure_cards(*metadata, row_size));
    }
}

/// Appends the cards of `table_time_cards`.
fn push_table_time_cards(cards: &mut Vec<[u8; 80]>, date: &str, floats: &FitsFloatTexts)
    ensures
        card_views(final(cards)@) == card_views(old(cards)@) + table_time_cards(date@, *floats),
{
    proof {
        reveal_strlit("DATE-OBS");
        lemma_keyword_fits("DATE-OBS");
        reveal_strlit("DATE-END");
        lemma_keyword_fits("DATE-END");
        reveal_strlit("TIMESYS");
        lemma_keyword_fits("TIMESYS");
        reveal_strlit("TIMEUNIT");
        lemma_keyword_fits("TIMEUNIT");
        reveal_strlit("TREFPOS");
        lemma_keyword_fits("TREFPOS");
        reveal_strlit("MJDREF");
        lemma_keyword_fits("MJDREF");
        reveal_strlit("TSTART");
        lemma_keyword_fits("TSTART");
        reveal_strlit("TSTOP");
        lemma_keyword_fits("TSTOP");
        reveal_strlit("TELAPSE");
        lemma_keyword_fits("TELAPSE");
    }
    let ghost before = cards@;
    cards.push(string_card("DATE-OBS", date, "UTC start of observation"));
    cards.push(string_card("DATE-END", date, "UTC end of observation"));
    cards.push(string_card("TIMESYS", "UTC", "Time scale"));
    cards.push(string_card("TIMEUNIT", "s", "Time unit"));
    cards.push(string_card("TREFPOS", "TOPOCENTER", "Time reference position"));
    cards.push(value_card("MJDREF", floats.mjd_reference.as_str(), "MJD at TIME=0", true));
    cards.push(value_card("TSTART", floats.zero.as_str(), "Seconds from DATE-OBS", true));
    cards.push(value_card("TSTOP", floats.zero.as_str(), "Seconds from DATE-OBS", true));
    cards.push(value_card("TELAPSE", floats.zero.as_str(), "Elapsed observation time (s)", true));
    proof {
        reveal(table_time_cards);
        assert(card_views(cards@) =~= card_views(before) + table_time_cards(date@, *floats));
    }
}

/// Appends the cards of `table_receiver_cards`.
fn push_table_receiver_cards(cards: &mut Vec<[u8; 80]>, metadata: &ObservationMetadata, floats: &FitsFloatTexts)
    ensures
        card_views(final(cards)@) == card_views(old(cards)@) + table_receiver_cards(*metadata, *floats),
{
    proof {
        reveal_strlit("TIMEDEL");
        lemma_keyword_fits("TIMEDEL");
        reveal_strlit("OBSFREQ");
        lemma_keyword_fits("OBSFREQ");
        reveal_strlit("SAMPRATE");
        lemma_keyword_fits("SAMPRATE");
        reveal_strlit("BANDWID");
        lemma_keyword_fits("BANDWID");
        reveal_strlit("FREQMIN");
        lemma_keyword_fits("FREQMIN");
        reveal_strlit("FREQMAX");
        lemma_keyword_fits("FREQMAX");
        reveal_strlit("CHAN_BW");
        lemma_keyword_fits("CHAN_BW");
        reveal_strlit("NCHANS");
        lemma_keyword_fits("NCHANS");
        reveal_strlit("NAVG");
        lemma_keyword_fits("NAVG");
        reveal_strlit("PFBTAPS");
        lemma_keyword_fits("PFBTAPS");
        reveal_strlit("LNAGAIN");
        lemma_keyword_fits("LNAGAIN");
        reveal_strlit("MIXGAIN");
        lemma_keyword_fits("MIXGAIN");
        reveal_strlit("VGAGAIN");
        lemma_keyword_fits("VGAGAIN");
        reveal_strlit("DATATYPE");
        lemma_keyword_fits("DATATYPE");
        reveal_strlit("SPECSYS");
        lemma_keyword_fits("SPECSYS");
    }
    let ghost before = cards@;
    cards.push(value_card("TIMEDEL", floats.time_resolution.as_str(), "Nominal spectrum interval (s)", true));
    cards.push(value_card("OBSFREQ", floats.center_frequency.as_str(), "Initial center frequency (Hz)", true));
    cards.push(value_card("SAMPRATE", floats.sample_rate.as_str(), "ADC sample rate (sample/s)", true));
    cards.push(value_card("BANDWID", floats.sample_rate.as_str(), "Bandwidth (Hz)", true));
    cards.push(value_card("FREQMIN", floats.frequency_min.as_str(), "Lower band edge (Hz)", true));
    cards.push(value_card("FREQMAX", floats.frequency_max.as_str(), "Upper band edge (Hz)", true));
    cards.push(value_card("CHAN_BW", floats.channel_width.as_str(), "Channel width (Hz)", true));
    cards.push(integer_card("NCHANS", metadata.channel_count as u64, "Number of frequency channels"));
    cards.push(integer_card("NAVG", metadata.average_count as u64, "Spectra averaged per row"));
    cards.push(integer_card("PFBTAPS", metadata.pfb_taps as u64, "PFB taps per channel"));
    cards.push(value_card("LNAGAIN", floats.lna_gain.as_str(), "LNA gain setting (dB)", true));
    cards.push(value_card("MIXGAIN", floats.mix_gain.as_str(), "Mixer gain setting (dB)", true));
    cards.push(value_card("VGAGAIN", floats.vga_gain.as_str(), "VGA gain setting (dB)", true));
    cards.push(string_card("DATATYPE", "POWER", "Stored spectrum quantity"));
    cards.push(string_card("SPECSYS", "TOPOCENT", "Topocentric spectral frame"));
    cards.push(end_card());
    proof {
        reveal(table_receiver_cards);
        assert(card_views(cards@) =~= card_views(before) + table_receiver_cards(*metadata, *floats));
    }
}

/// The header of the binary table extension `SPECTRA` for an observation that
/// started at `observation_start` with `metadata`, rows of `row_size` bytes and the
/// floating-point values `floats`; the header goes at `start_offset` in the file,
/// and the offsets returned are where its `NAXIS2`, `DATE-END`, `TSTOP` and `TELAPSE`
/// cards stand there.
pub fn write_binary_table_header(
    observation_start: UtcInstant,
    metadata: &ObservationMetadata,
    row_size: usize,
    floats: &FitsFloatTexts,
    start_offset: u64,
) -> (result: Result<(Vec<u8>, HeaderOffsets), ObsError>)
    requires
        chrono_representable(observation_start),
        start_offset + 44 * FITS_CARD_SIZE <= u64::MAX,
    ensures
        ({
            let cards = binary_table_cards(
                chrono_fits_datetime(observation_start.seconds, observation_start.nanos),
                *metadata,
                row_size,
                *floats,
            );
            match result {
                Ok((header, offsets)) => {
                    &&& header@ == header_block_bytes(cards)
                    &&& header@.len() % (FITS_BLOCK_SIZE as nat) == 0
                    &&& card_found_at(cards, "NAXIS2"@, start_offset, offsets.naxis2)
                    &&& card_found_at(cards, "DATE-END"@, start_offset, offsets.date_end)
                    &&& card_found_at(cards, "TSTOP"@, start_offset, offsets.tstop)
                    &&& card_found_at(cards, "TELAPSE"@, start_offset, offsets.telapse)
                    &&& offsets.naxis2 == start_offset + 4 * FITS_CARD_SIZE
                    &&& offsets.date_end == start_offset + 20 * FITS_CARD_SIZE
                    &&& offsets.tstop == start_offset + 26 * FITS_CARD_SIZE
                    &&& offsets.telapse == start_offset + 27 * FITS_CARD_SIZE
                },
                Err(_) => false,
            }
        }),
{
    let date = fits_datetime(observation_start);
    let mut cards: Vec<[u8; 80]> = Vec::new();
    push_table_structure_cards(&mut cards, metadata, row_size);
    push_table_time_cards(&mut cards, date.as_str(), floats);
    push_table_receiver_cards(&mut cards, metadata, floats);
    proof {
        assert(card_views(cards@) =~= binary_table_cards(
            chrono_fits_datetime(observation_start.seconds, observation_start.nanos),
            *metadata,
            row_size,
            *floats,
        ));
        lemma_table_patched_cards_present(
            chrono_fits_datetime(observation_start.seconds, observation_start.nanos),
            *metadata,
            row_size,
            *floats,
        );
        let date = chrono_fits_datetime(observation_start.seconds, observation_start.nanos);
        lemma_naxis2_card_position(date, *metadata, row_size, *floats);
        lemma_date_end_card_position(date, *metadata, row_size, *floats);
        lemma_tstop_card_position(date, *metadata, row_size, *floats);
        lemma_telapse_card_position(date, *metadata, row_size, *floats);
        reveal_strlit("NAXIS2");
        reveal_strlit("DATE-END");
        reveal_strlit("TSTOP");
        reveal_strlit("TELAPSE");
    }
    let naxis2 = match card_offset(&cards, "NAXIS2", start_offset) {
        Ok(offset) => offset,
        Err(e) => return Err(e),
    };
    let date_end = match card_offset(&cards, "DATE-END", start_offset) {
        Ok(offset) => offset,
        Err(e) => return Err(e),
    };
    let tstop = match card_offset(&cards, "TSTOP", start_offset) {
        Ok(offset) => offset,
        Err(e) => return Err(e),
    };
    let telapse = match card_offset(&cards, "TELAPSE", start_offset) {
        Ok(offset) => offset,
        Err(e) => return Err(e),
    };
    proof {
        let views = card_views(cards@);
        lemma_found_card_offset(views, "NAXIS2"@, start_offset, naxis2, 4);
        lemma_found_card_offset(views, "DATE-END"@, start_offset, date_end, 20);
        lemma_found_card_offset(views, "TSTOP"@, start_offset, tstop, 26);
        lemma_found_card_offset(views, "TELAPSE"@, start_offset, telapse, 27);
    }
    let header = write_header(&cards);
    Ok((header, HeaderOffsets { naxis2, date_end, tstop, telapse }))
}

pub const FITS_ROW_SIZE_OVERFLOW: &'static str = "FITS row size overflow";

pub const FITS_DATA_SIZE_OVERFLOW: &'static str = "FITS data size overflow";

pub const FITS_CHANNELS_RECEIVED: &'static str = " FITS channels, received ";

/// The size of one table row for `channel_count` channels: two `f64` columns, then
/// one `f32` per channel.
pub fn fits_row_size(channel_count: usize) -> (result: Result<usize, ObsError>)
    ensures
        match result {
            Ok(size) => row_size_for(channel_count as int) <= usize::MAX && size == row_size_for(
                channel_count as int,
            ),
            Err(e) => row_size_for(channel_count as int) > usize::MAX && e.is(
                ErrorKind::InvalidInput,
                FITS_ROW_SIZE_OVERFLOW@,
            ),
        },
{
    match channel_count.checked_mul(4) {
        None => Err(invalid_input(FITS_ROW_SIZE_OVERFLOW)),
        Some(values) => match 16usize.checked_add(values) {
            None => Err(invalid_input(FITS_ROW_SIZE_OVERFLOW)),
            Some(size) => Ok(size),
        },
    }
}

/// The big-endian bytes of each value of `values`, one after another.
pub open spec fn values_be(values: Seq<F32Bits>) -> Seq<u8>
    decreases values.len(),
{
    if values.len() == 0 {
        Seq::empty()
    } else {
        values_be(values.drop_last()) + u32_be(values.last().0)
    }
}

/// The table row of a spectrum taken `elapsed_sec` after the start at
/// `center_frequency_hz`: `TIME`, `FREQUENCY`, `SPECTRUM`, all big-endian.
pub open spec fn fits_row_bytes(
    elapsed_sec: F64Bits,
    center_frequency_hz: F64Bits,
    spectrum: Seq<F32Bits>,
) -> Seq<u8> {
    u64_be(elapsed_sec.0) + u64_be(center_frequency_hz.0) + values_be(spectrum)
}

/// Four bytes per value.
pub proof fn lemma_values_be_len(values: Seq<F32Bits>)
    ensures
        values_be(values).len() == 4 * values.len(),
    decreases values.len(),
{
    if values.len() > 0 {
        lemma_values_be_len(values.drop_last());
    }
}

/// A table row holds `row_size_for(n)` bytes, the `NAXIS1` of the table, for a
/// spectrum of `n` values.
pub proof fn lemma_fits_row_size(
    elapsed_sec: F64Bits,
    center_frequency_hz: F64Bits,
    spectrum: Seq<F32Bits>,
)
    ensures
        fits_row_bytes(elapsed_sec, center_frequency_hz, spectrum).len() == row_size_for(
            spectrum.len() as int,
        ),
{
    lemma_values_be_len(spectrum);
}

/// The padding after `byte_count` bytes of table data.
pub open spec fn block_padding(byte_count: int) -> int {
    (FITS_BLOCK_SIZE - byte_count % FITS_BLOCK_SIZE as int) % FITS_BLOCK_SIZE as int
}

/// What closes a FITS recording: the zero bytes that pad the table data to whole
/// blocks, and the `NAXIS2` and `DATE-END` cards that replace those of the header.
#[derive(Debug)]
pub struct FitsFinish {
    pub data_padding: usize,
    pub naxis2_card: [u8; 80],
    pub date_end_card: [u8; 80],
}

/// The state of one FITS recording: its channel count, row size and row count, and
/// where the cards that finishing rewrites stand. It decides what goes into the
/// file; the caller writes it.
#[derive(Clone, Copy, Debug, PartialEq, Eq, Structural)]
pub struct FitsRecorder {
    pub channel_count: usize,
    pub row_size: usize,
    pub row_count: u64,
    pub offsets: HeaderOffsets,
}

impl FitsRecorder {
    /// Starts the table of an observation that started at `observation_start`, with
    /// the primary header already written before `start_offset`: the recorder and
    /// the table header to write next.
    pub fn create(
        observation_start: UtcInstant,
        metadata: &ObservationMetadata,
        floats: &FitsFloatTexts,
        start_offset: u64,
    ) -> (result: Result<(FitsRecorder, Vec<u8>), ObsError>)
        requires
            chrono_representable(observation_start),
            start_offset + 44 * FITS_CARD_SIZE <= u64::MAX,
        ensures
            match result {
                Ok((recorder, header)) => {
                    let row_size = row_size_for(metadata.channel_count as int);
                    let cards = binary_table_cards(
                        chrono_fits_datetime(observation_start.seconds, observation_start.nanos),
                        *metadata,
                        row_size as usize,
                        *floats,
                    );
                    &&& row_size <= usize::MAX
                    &&& header@ == header_block_bytes(cards)
                    &&& recorder.channel_count == metadata.channel_count
                    &&& recorder.row_size == row_size
                    &&& recorder.row_count == 0
                    &&& card_found_at(cards, "NAXIS2"@, start_offset, recorder.offsets.naxis2)
                    &&& card_found_at(cards, "DATE-END"@, start_offset, recorder.offsets.date_end)
                    &&& card_found_at(cards, "TSTOP"@, start_offset, recorder.offsets.tstop)
                    &&& card_found_at(cards, "TELAPSE"@, start_offset, recorder.offsets.telapse)
                    &&& recorder.offsets.naxis2 == start_offset + 4 * FITS_CARD_SIZE
                    &&& recorder.offsets.date_end == start_offset + 20 * FITS_CARD_SIZE
                    &&& recorder.offsets.tstop == start_offset + 26 * FITS_CARD_SIZE
                    &&& recorder.offsets.telapse == start_offset + 27 * FITS_CARD_SIZE
                },
                Err(e) => {
                    &&& row_size_for(metadata.channel_count as int) > usize::MAX
                    &&& e.is(ErrorKind::InvalidInput, FITS_ROW_SIZE_OVERFLOW@)
                },
            },
    {
        let row_size = match fits_row_size(metadata.channel_count) {
            Ok(size) => size,
            Err(e) => return Err(e),
        };
        let (header, offsets) = match write_binary_table_header(
            observation_start,
            metadata,
            row_size,
            floats,
            start_offset,
        ) {
            Ok(written) => written,
            Err(e) => return Err(e),
        };
        let recorder = FitsRecorder {
            channel_count: metadata.channel_count,
            row_size,
            row_count: 0,
            offsets,
        };
        Ok((recorder, header))
    }

    /// The table row for a spectrum taken `elapsed_sec` after the start at
    /// `center_frequency_hz`, counted as written; refused unless the spectrum has one
    /// value per channel.
    pub fn record_spectrum(
        &mut self,
        elapsed_sec: F64Bits,
        center_frequency_hz: F64Bits,
        spectrum: &[F32Bits],
    ) -> (result: Result<Vec<u8>, ObsError>)
        requires
            spectrum@.len() == old(self).channel_count ==> old(self).row_count < u64::MAX,
        ensures
            match result {
                Ok(row) => {
                    &&& spectrum@.len() == old(self).channel_count
                    &&& row@ == fits_row_bytes(elapsed_sec, center_frequency_hz, spectrum@)
                    &&& *final(self) == FitsRecorder {
                        row_count: (old(self).row_count + 1) as u64,
                        ..*old(self)
                    }
                },
                Err(e) => {
                    &&& spectrum@.len() != old(self).channel_count
                    &&& e.is(
                        ErrorKind::InvalidInput,
                        channel_mismatch_message(
                            FITS_CHANNELS_RECEIVED@,
                            old(self).channel_count as nat,
                            spectrum@.len(),
                        ),
                    )
                    &&& *final(self) == *old(self)
                },
            },
    {
        if spectrum.len() != self.channel_count {
            return Err(channel_mismatch(FITS_CHANNELS_RECEIVED, self.channel_count, spectrum.len()));
        }
        let mut row: Vec<u8> = Vec::new();
        push_u64_be(&mut row, elapsed_sec.0);
        push_u64_be(&mut row, center_frequency_hz.0);
        let ghost head = row@;
        let mut i: usize = 0;
        while i < spectrum.len()
            invariant
                i <= spectrum@.len(),
                row@ == head + values_be(spectrum@.subrange(0, i as int)),
            decreases spectrum@.len() - i,
        {
            push_u32_be(&mut row, spectrum[i].0);
            proof {
                assert(spectrum@.subrange(0, i + 1).drop_last() =~= spectrum@.subrange(0, i as int));
            }
            i += 1;
        }
        assert(spectrum@.subrange(0, spectrum@.len() as int) =~= spectrum@);
        assert(row@ =~= fits_row_bytes(elapsed_sec, center_frequency_hz, spectrum@));
        self.row_count = self.row_count + 1;
        Ok(row)
    }

    /// What closes the recording at `end`: the padding of the table data to whole
    /// blocks and the final `NAXIS2` and `DATE-END` cards. An error of kind `Other`
    /// when the data size does not fit a `usize`.
    pub fn finish(&self, end: UtcInstant) -> (result: Result<FitsFinish, ObsError>)
        requires
            chrono_representable(end),
        ensures
            ({
                let data_size = (self.row_count as usize) * self.row_size;
                match result {
                    Ok(finish) => {
                        &&& data_size <= usize::MAX
                        &&& finish.data_padding == block_padding(data_size)
                        &&& (data_size + finish.data_padding) % (FITS_BLOCK_SIZE as int) == 0
                        &&& finish.naxis2_card@ == integer_card_bytes(
                            "NAXIS2"@,
                            self.row_count as nat,
                            "Number of spectra"@,
                        )
                        &&& finish.date_end_card@ == string_card_bytes(
                            "DATE-END"@,
                            chrono_fits_datetime(end.seconds, end.nanos),
                            "UTC end of observation"@,
                        )
                    },
                    Err(e) => data_size > usize::MAX && e.is(
                        ErrorKind::Other,
                        FITS_DATA_SIZE_OVERFLOW@,
                    ),
                }
            }),
    {
        let data_size = match (self.row_count as usize).checked_mul(self.row_size) {
            Some(size) => size,
            None => return Err(other_error(FITS_DATA_SIZE_OVERFLOW)),
        };
        let data_padding = padding_for(data_size);
        proof {
            reveal_strlit("NAXIS2");
            reveal_strlit("DATE-END");
            lemma_keyword_fits("NAXIS2");
            lemma_keyword_fits("DATE-END");
        }
        let naxis2_card = integer_card("NAXIS2", self.row_count, "Number of spectra");
        let date = fits_datetime(end);
        let date_end_card = string_card("DATE-END", date.as_str(), "UTC end of observation");
        Ok(FitsFinish { data_padding, naxis2_card, date_end_card })
    }
}

/// Every card of `cards` holds 80 bytes.
pub open spec fn all_cards(cards: Seq<Seq<u8>>) -> bool {
    forall|i: int| 0 <= i < cards.len() ==> (#[trigger] cards[i]).len() == FITS_CARD_SIZE
}

/// Cards of 80 bytes take 80 bytes each.
pub proof fn lemma_cards_bytes_len(cards: Seq<Seq<u8>>)
    requires
        all_cards(cards),
    ensures
        cards_bytes(cards).len() == cards.len() * FITS_CARD_SIZE,
    decreases cards.len(),
{
    if cards.len() > 0 {
        assert(all_cards(cards.drop_last())) by {
            assert forall|i: int| 0 <= i < cards.drop_last().len() implies (
            #[trigger] cards.drop_last()[i]).len() == FITS_CARD_SIZE by {
                assert(cards.drop_last()[i] == cards[i]);
            }
        }
        lemma_cards_bytes_len(cards.drop_last());
        assert(cards[cards.len() - 1].len() == FITS_CARD_SIZE);
    }
}

/// Writing a card of 80 bytes over card `i` of a header gives the header whose card
/// `i` is the new card, all else unchanged: finishing a recording rewrites its
/// `NAXIS2`, `DATE-END`, `TSTOP` and `TELAPSE` cards in place.
pub proof fn lemma_patch_card(cards: Seq<Seq<u8>>, i: int, card: Seq<u8>)
    requires
        all_cards(cards),
        0 <= i < cards.len(),
        card.len() == FITS_CARD_SIZE,
    ensures
        splice(header_block_bytes(cards), i * FITS_CARD_SIZE, card) == header_block_bytes(
            cards.update(i, card),
        ),
    decreases cards.len(),
{
    lemma_patch_cards_bytes(cards, i, card);
    lemma_cards_bytes_len(cards);
    let pad = spaces(
        ((FITS_BLOCK_SIZE - (cards.len() * FITS_CARD_SIZE) % FITS_BLOCK_SIZE as int)
            % FITS_BLOCK_SIZE as int) as nat,
    );
    assert(i * FITS_CARD_SIZE + FITS_CARD_SIZE <= cards.len() * FITS_CARD_SIZE) by (nonlinear_arith)
        requires
            i < cards.len(),
    ;
    lemma_splice_left(cards_bytes(cards), pad, i * FITS_CARD_SIZE, card);
}

/// Writing a card over card `i` of the concatenated cards.
proof fn lemma_patch_cards_bytes(cards: Seq<Seq<u8>>, i: int, card: Seq<u8>)
    requires
        all_cards(cards),
        0 <= i < cards.len(),
        card.len() == FITS_CARD_SIZE,
    ensures
        splice(cards_bytes(cards), i * FITS_CARD_SIZE, card) == cards_bytes(cards.update(i, card)),
    decreases cards.len(),
{
    let rest = cards.drop_last();
    let last = cards.last();
    assert(all_cards(rest)) by {
        assert forall|j: int| 0 <= j < rest.len() implies (#[trigger] rest[j]).len()
            == FITS_CARD_SIZE by {
            assert(rest[j] == cards[j]);
        }
    }
    lemma_cards_bytes_len(rest);
    assert(cards.update(i, card).drop_last() =~= if i == cards.len() - 1 {
        rest
    } else {
        rest.update(i, card)
    });
    if i == cards.len() - 1 {
        assert(last.len() == FITS_CARD_SIZE);
        assert(i * FITS_CARD_SIZE == rest.len() * FITS_CARD_SIZE);
        assert(splice(cards_bytes(rest) + last, i * FITS_CARD_SIZE, card) =~= cards_bytes(rest)
            + card);
    } else {
        lemma_patch_cards_bytes(rest, i, card);
        assert(i * FITS_CARD_SIZE + FITS_CARD_SIZE <= rest.len() * FITS_CARD_SIZE) by (nonlinear_arith)
            requires
                i < rest.len(),
        ;
        lemma_splice_left(cards_bytes(rest), last, i * FITS_CARD_SIZE, card);
    }
}


/// Every card of the binary table header holds 80 bytes, and the header fills two
/// FITS blocks.
pub proof fn lemma_table_header_size(
    date: Seq<char>,
    metadata: ObservationMetadata,
    row_size: usize,
    floats: FitsFloatTexts,
)
    ensures
        binary_table_cards(date, metadata, row_size, floats).len() == 44,
        all_cards(binary_table_cards(date, metadata, row_size, floats)),
        header_block_bytes(binary_table_cards(date, metadata, row_size, floats)).len() == 2
            * FITS_BLOCK_SIZE,
{
    let a = table_structure_cards(metadata, row_size);
    let b = table_time_cards(date, floats);
    let c = table_receiver_cards(metadata, floats);
    lemma_structure_cards_size(metadata, row_size);
    lemma_time_cards_size(date, floats);
    lemma_receiver_cards_size(metadata, floats);
    lemma_binary_table_cards_len(date, metadata, row_size, floats);
    let cards = binary_table_cards(date, metadata, row_size, floats);
    assert forall|i: int| 0 <= i < cards.len() implies (#[trigger] cards[i]).len() == FITS_CARD_SIZE by {
        if i < a.len() {
            assert(cards[i] == a[i]);
        } else if i < a.len() + b.len() {
            assert(cards[i] == b[i - a.len()]);
        } else {
            assert(cards[i] == c[i - a.len() - b.len()]);
        }
    }
    lemma_cards_bytes_len(cards);
}

/// Every card of the primary header holds 80 bytes, and the header fills one FITS
/// block.
pub proof fn lemma_primary_header_size(created: Seq<char>)
    ensures
        all_cards(primary_header_cards(created)),
        header_block_bytes(primary_header_cards(created)).len() == FITS_BLOCK_SIZE,
{
    assert(all_cards(primary_header_cards(created)));
    lemma_cards_bytes_len(primary_header_cards(created));
}

/// Writing an 80-byte card over a card keeps every card 80 bytes long.
pub proof fn lemma_all_cards_update(cards: Seq<Seq<u8>>, i: int, card: Seq<u8>)
    requires
        all_cards(cards),
        0 <= i < cards.len(),
        card.len() == FITS_CARD_SIZE,
    ensures
        all_cards(cards.update(i, card)),
{
    assert forall|j: int| 0 <= j < cards.len() implies (#[trigger] cards.update(i, card)[j]).len()
        == FITS_CARD_SIZE by {
        if j != i {
            assert(cards.update(i, card)[j] == cards[j]);
        }
    }
}


/// The structure cards of the table header hold 80 bytes each.
#[verifier::rlimit(40)]
proof fn lemma_structure_cards_size(metadata: ObservationMetadata, row_size: usize)
    ensures
        all_cards(table_structure_cards(metadata, row_size)),
{
    reveal(table_structure_cards);
}

/// The time cards of the table header hold 80 bytes each.
#[verifier::rlimit(40)]
proof fn lemma_time_cards_size(date: Seq<char>, floats: FitsFloatTexts)
    ensures
        all_cards(table_time_cards(date, floats)),
{
    reveal(table_time_cards);
}

/// The receiver cards of the table header hold 80 bytes each.
#[verifier::rlimit(40)]
proof fn lemma_receiver_cards_size(metadata: ObservationMetadata, floats: FitsFloatTexts)
    ensures
        all_cards(table_receiver_cards(metadata, floats)),
{
    reveal(table_receiver_cards);
}


/// The table header's `DATE-OBS` card, and its `DATE-END` card until the recording
/// is closed, carry the date the header was written for.
pub proof fn lemma_table_dates(
    date: Seq<char>,
    metadata: ObservationMetadata,
    row_size: usize,
    floats: FitsFloatTexts,
)
    ensures
        binary_table_cards(date, metadata, row_size, floats)[19] == string_card_bytes(
            "DATE-OBS"@,
            date,
            "UTC start of observation"@,
        ),
        binary_table_cards(date, metadata, row_size, floats)[20] == string_card_bytes(
            "DATE-END"@,
            date,
            "UTC end of observation"@,
        ),
{
    lemma_binary_table_cards_len(date, metadata, row_size, floats);
    reveal(table_structure_cards);
    reveal(table_time_cards);
    let a = table_structure_cards(metadata, row_size);
    let b = table_time_cards(date, floats);
    let cards = binary_table_cards(date, metadata, row_size, floats);
    assert(a.len() == 19);
    assert(cards[19] == b[0]);
    assert(cards[20] == b[1]);
}


/// A card whose first eight bytes are the ASCII characters `p` does not start with
/// the ASCII characters `k` when the two differ at `d`.
proof fn lemma_card_not_prefixed(card: Seq<u8>, p: Seq<char>, k: Seq<char>, d: int)
    requires
        card.len() >= 8,
        p.len() == 8,
        card.subrange(0, 8) == ascii_bytes(p),
        0 <= d < k.len() <= 8,
        p[d] != k[d],
        '\0' <= p[d] <= '\u{7f}',
        '\0' <= k[d] <= '\u{7f}',
    ensures
        !starts_with(card, ascii_bytes(k)),
{
    if starts_with(card, ascii_bytes(k)) {
        let a = p[d];
        let b = k[d];
        assert(card.subrange(0, k.len() as int)[d] == ascii_bytes(k)[d]);
        assert(card.subrange(0, 8)[d] == card[d]);
        assert((a as u8) as int == a as int);
        assert((b as u8) as int == b as int);
    }
}

/// The first card of the binary table header that starts with `NAXIS2` is its fifth:
/// finishing rewrites the row count 320 bytes into the table header.
pub proof fn lemma_naxis2_card_position(
    date: Seq<char>,
    metadata: ObservationMetadata,
    row_size: usize,
    floats: FitsFloatTexts,
)
    ensures
        is_first_card_with(
            binary_table_cards(date, metadata, row_size, floats),
            encode_utf8("NAXIS2"@),
            4,
        ),
{
    let cards = binary_table_cards(date, metadata, row_size, floats);
    lemma_table_patched_cards_present(date, metadata, row_size, floats);
    lemma_table_card_keywords(date, metadata, row_size, floats);
    reveal_strlit("NAXIS2");
    let k = seq!['N', 'A', 'X', 'I', 'S', '2'];
    assert("NAXIS2"@ =~= k);
    assert(is_ascii_chars(k));
    lemma_ascii_encoding(k);
    let p0 = seq!['X', 'T', 'E', 'N', 'S', 'I', 'O', 'N'];
    let p1 = seq!['B', 'I', 'T', 'P', 'I', 'X', ' ', ' '];
    let p2 = seq!['N', 'A', 'X', 'I', 'S', ' ', ' ', ' '];
    let p3 = seq!['N', 'A', 'X', 'I', 'S', '1', ' ', ' '];
    assert(pad_right(table_keywords()[0], 8) =~= p0);
    assert(pad_right(table_keywords()[1], 8) =~= p1);
    assert(pad_right(table_keywords()[2], 8) =~= p2);
    assert(pad_right(table_keywords()[3], 8) =~= p3);
    lemma_card_not_prefixed(cards[0], p0, k, 0);
    lemma_card_not_prefixed(cards[1], p1, k, 0);
    lemma_card_not_prefixed(cards[2], p2, k, 5);
    lemma_card_not_prefixed(cards[3], p3, k, 5);
    assert forall|j: int| 0 <= j < 4 implies !starts_with(#[trigger] cards[j], encode_utf8("NAXIS2"@)) by {
    }
}


/// Card `j` of the binary table header does not start with the ASCII characters `k`
/// when its padded keyword differs from `k` at `d`.
proof fn lemma_table_card_not_prefixed(
    date: Seq<char>,
    metadata: ObservationMetadata,
    row_size: usize,
    floats: FitsFloatTexts,
    j: int,
    k: Seq<char>,
    d: int,
)
    requires
        0 <= j < 44,
        0 <= d < k.len() <= 8,
        pad_right(table_keywords()[j], 8)[d] != k[d],
        '\0' <= pad_right(table_keywords()[j], 8)[d] <= '\u{7f}',
        '\0' <= k[d] <= '\u{7f}',
    ensures
        !starts_with(binary_table_cards(date, metadata, row_size, floats)[j], ascii_bytes(k)),
{
    lemma_table_card_keywords(date, metadata, row_size, floats);
    lemma_binary_table_cards_len(date, metadata, row_size, floats);
    let p = pad_right(table_keywords()[j], 8);
    assert(table_keywords()[j].len() <= 8);
    lemma_card_not_prefixed(binary_table_cards(date, metadata, row_size, floats)[j], p, k, d);
}

/// The first card of the binary table header that starts with `DATE-END` is card 20.
pub proof fn lemma_date_end_card_position(
    date: Seq<char>,
    metadata: ObservationMetadata,
    row_size: usize,
    floats: FitsFloatTexts,
)
    ensures
        is_first_card_with(
            binary_table_cards(date, metadata, row_size, floats),
            encode_utf8("DATE-END"@),
            20,
        ),
{
    let cards = binary_table_cards(date, metadata, row_size, floats);
    lemma_table_patched_cards_present(date, metadata, row_size, floats);
    reveal_strlit("DATE-END");
    let k = seq!['D', 'A', 'T', 'E', '-', 'E', 'N', 'D'];
    assert("DATE-END"@ =~= k);
    assert(is_ascii_chars(k));
    lemma_ascii_encoding(k);
    assert forall|j: int| 0 <= j < 19 implies !starts_with(#[trigger] cards[j], ascii_bytes(k)) by {
        lemma_table_card_not_prefixed(date, metadata, row_size, floats, j, k, 0);
    }
    lemma_table_card_not_prefixed(date, metadata, row_size, floats, 19, k, 5);
}


/// The first card of the binary table header that starts with `TSTOP` is card 26.
pub proof fn lemma_tstop_card_position(
    date: Seq<char>,
    metadata: ObservationMetadata,
    row_size: usize,
    floats: FitsFloatTexts,
)
    ensures
        is_first_card_with(
            binary_table_cards(date, metadata, row_size, floats),
            encode_utf8("TSTOP"@),
            26,
        ),
{
    let cards = binary_table_cards(date, metadata, row_size, floats);
    lemma_table_patched_cards_present(date, metadata, row_size, floats);
    reveal_strlit("TSTOP");
    let k = seq!['T', 'S', 'T', 'O', 'P'];
    assert("TSTOP"@ =~= k);
    assert(is_ascii_chars(k));
    lemma_ascii_encoding(k);
    assert forall|j: int| 0 <= j < 25 implies !starts_with(#[trigger] cards[j], ascii_bytes(k)) by {
        if pad_right(table_keywords()[j], 8)[0] != 'T' {
            lemma_table_card_not_prefixed(date, metadata, row_size, floats, j, k, 0);
        } else {
            lemma_table_card_not_prefixed(date, metadata, row_size, floats, j, k, 1);
        }
    }
    lemma_table_card_not_prefixed(date, metadata, row_size, floats, 25, k, 3);
}

/// The first card of the binary table header that starts with `TELAPSE` is card 27.
pub proof fn lemma_telapse_card_position(
    date: Seq<char>,
    metadata: ObservationMetadata,
    row_size: usize,
    floats: FitsFloatTexts,
)
    ensures
        is_first_card_with(
            binary_table_cards(date, metadata, row_size, floats),
            encode_utf8("TELAPSE"@),
            27,
        ),
{
    let cards = binary_table_cards(date, metadata, row_size, floats);
    lemma_table_patched_cards_present(date, metadata, row_size, floats);
    reveal_strlit("TELAPSE");
    let k = seq!['T', 'E', 'L', 'A', 'P', 'S', 'E'];
    assert("TELAPSE"@ =~= k);
    assert(is_ascii_chars(k));
    lemma_ascii_encoding(k);
    assert forall|j: int| 0 <= j < 27 implies !starts_with(#[trigger] cards[j], ascii_bytes(k)) by {
        if pad_right(table_keywords()[j], 8)[0] != 'T' {
            lemma_table_card_not_prefixed(date, metadata, row_size, floats, j, k, 0);
        } else {
            lemma_table_card_not_prefixed(date, metadata, row_size, floats, j, k, 1);
        }
    }
}


/// The offset of the first card that starts with `keyword` is that of card `index`
/// when card `index` is that first card.
proof fn lemma_found_card_offset(
    cards: Seq<Seq<u8>>,
    keyword: Seq<char>,
    start_offset: u64,
    offset: u64,
    index: int,
)
    requires
        card_found_at(cards, keyword, start_offset, offset),
        is_first_card_with(cards, encode_utf8(keyword), index),
    ensures
        offset == start_offset + index * FITS_CARD_SIZE,
{
    let i = choose|i: int|
        is_first_card_with(cards, encode_utf8(keyword), i) && offset == start_offset + i
            * FITS_CARD_SIZE;
    if i < index {
        assert(!starts_with(cards[i], encode_utf8(keyword)));
    } else if i > index {
        assert(!starts_with(cards[index], encode_utf8(keyword)));
    }
}


/// The table header records the observation's counts in their own cards: card 3
/// (`NAXIS1`) the row size, card 16 (`TFORM3`) and card 18 (`TDIM3`) the channel
/// count as the spectrum's form and dimension, card 35 (`NCHANS`) the channel count,
/// card 36 (`NAVG`) the number of spectra averaged per row and card 37 (`PFBTAPS`)
/// the PFB taps per channel, each as its decimal numeral.
pub proof fn lemma_table_count_cards(
    date: Seq<char>,
    metadata: ObservationMetadata,
    row_size: usize,
    floats: FitsFloatTexts,
)
    ensures
        ({
            let cards = binary_table_cards(date, metadata, row_size, floats);
            &&& cards[3] == value_card_bytes(
                seq!['N', 'A', 'X', 'I', 'S', '1'],
                decimal_chars(row_size as nat),
                "Bytes per table row"@,
                true,
            )
            &&& cards[16] == value_card_bytes(
                seq!['T', 'F', 'O', 'R', 'M', '3'],
                quoted(decimal_chars(metadata.channel_count as nat) + seq!['E']),
                "32-bit floating-point vector"@,
                false,
            )
            &&& cards[18] == value_card_bytes(
                seq!['T', 'D', 'I', 'M', '3'],
                quoted(seq!['('] + decimal_chars(metadata.channel_count as nat) + seq![')']),
                "Spectrum vector dimensions"@,
                false,
            )
            &&& cards[35] == value_card_bytes(
                seq!['N', 'C', 'H', 'A', 'N', 'S'],
                decimal_chars(metadata.channel_count as nat),
                "Number of frequency channels"@,
                true,
            )
            &&& cards[36] == value_card_bytes(
                seq!['N', 'A', 'V', 'G'],
                decimal_chars(metadata.average_count as nat),
                "Spectra averaged per row"@,
                true,
            )
            &&& cards[37] == value_card_bytes(
                seq!['P', 'F', 'B', 'T', 'A', 'P', 'S'],
                decimal_chars(metadata.pfb_taps as nat),
                "PFB taps per channel"@,
                true,
            )
        }),
{
    lemma_binary_table_cards_len(date, metadata, row_size, floats);
    lemma_structure_count_cards(metadata, row_size);
    lemma_receiver_count_cards(metadata, floats);
    lemma_time_cards_count(date, floats);
    let a = table_structure_cards(metadata, row_size);
    let b = table_time_cards(date, floats);
    let c = table_receiver_cards(metadata, floats);
    let cards = binary_table_cards(date, metadata, row_size, floats);
    assert(cards[3] == a[3]);
    assert(cards[16] == a[16]);
    assert(cards[18] == a[18]);
    assert(cards[35] == c[7]);
    assert(cards[36] == c[8]);
    assert(cards[37] == c[9]);
}

/// The structure cards are 19, and cards 3, 16 and 18 hold the row size and the
/// channel count.
#[verifier::rlimit(40)]
proof fn lemma_structure_count_cards(metadata: ObservationMetadata, row_size: usize)
    ensures
        ({
            let a = table_structure_cards(metadata, row_size);
            &&& a.len() == 19
            &&& a[3] == value_card_bytes(
                seq!['N', 'A', 'X', 'I', 'S', '1'],
                decimal_chars(row_size as nat),
                "Bytes per table row"@,
                true,
            )
            &&& a[16] == value_card_bytes(
                seq!['T', 'F', 'O', 'R', 'M', '3'],
                quoted(decimal_chars(metadata.channel_count as nat) + seq!['E']),
                "32-bit floating-point vector"@,
                false,
            )
            &&& a[18] == value_card_bytes(
                seq!['T', 'D', 'I', 'M', '3'],
                quoted(seq!['('] + decimal_chars(metadata.channel_count as nat) + seq![')']),
                "Spectrum vector dimensions"@,
                false,
            )
        }),
{
    reveal(table_structure_cards);
    reveal_strlit("NAXIS1");
    reveal_strlit("TFORM3");
    reveal_strlit("TDIM3");
    assert("NAXIS1"@ =~= seq!['N', 'A', 'X', 'I', 'S', '1']);
    assert("TFORM3"@ =~= seq!['T', 'F', 'O', 'R', 'M', '3']);
    assert("TDIM3"@ =~= seq!['T', 'D', 'I', 'M', '3']);
}

/// The time cards are 9.
proof fn lemma_time_cards_count(date: Seq<char>, floats: FitsFloatTexts)
    ensures
        table_time_cards(date, floats).len() == 9,
{
    reveal(table_time_cards);
}

/// Cards 7, 8 and 9 of the receiver cards hold the channel count, the average count
/// and the PFB taps.
#[verifier::rlimit(40)]
proof fn lemma_receiver_count_cards(metadata: ObservationMetadata, floats: FitsFloatTexts)
    ensures
        ({
            let c = table_receiver_cards(metadata, floats);
            &&& c.len() == 16
            &&& c[7] == value_card_bytes(
                seq!['N', 'C', 'H', 'A', 'N', 'S'],
                decimal_chars(metadata.channel_count as nat),
                "Number of frequency channels"@,
                true,
            )
            &&& c[8] == value_card_bytes(
                seq!['N', 'A', 'V', 'G'],
                decimal_chars(metadata.average_count as nat),
                "Spectra averaged per row"@,
                true,
            )
            &&& c[9] == value_card_bytes(
                seq!['P', 'F', 'B', 'T', 'A', 'P', 'S'],
                decimal_chars(metadata.pfb_taps as nat),
                "PFB taps per channel"@,
                true,
            )
        }),
{
    reveal(table_receiver_cards);
    reveal_strlit("NCHANS");
    reveal_strlit("NAVG");
    reveal_strlit("PFBTAPS");
    assert("NCHANS"@ =~= seq!['N', 'C', 'H', 'A', 'N', 'S']);
    assert("NAVG"@ =~= seq!['N', 'A', 'V', 'G']);
    assert("PFBTAPS"@ =~= seq!['P', 'F', 'B', 'T', 'A', 'P', 'S']);
}

} // verus!
