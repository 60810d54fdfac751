use hi_observer::clock::{fits_datetime, UtcInstant};
use hi_observer::error::ErrorKind;
use hi_observer::fits_card::{
    end_card, integer_card, logical_card, make_card, padding_for, string_card, value_card,
    FITS_BLOCK_SIZE, FITS_CARD_SIZE,
};
use hi_observer::fits_table::{
    fits_row_size, write_header, write_primary_header, FitsFloatTexts, FitsRecorder,
};
use hi_observer::metadata::{F32Bits, F64Bits, ObservationMetadata};

fn metadata(channel_count: usize) -> ObservationMetadata {
    ObservationMetadata {
        center_frequency_hz: F64Bits(1_420_405_751.0_f64.to_bits()),
        sample_rate_hz: F64Bits(6_000_000.0_f64.to_bits()),
        channel_count,
        average_count: 128,
        pfb_taps: 4,
        time_resolution_sec: F64Bits(0.01_f64.to_bits()),
        lna_gain_db: F64Bits(5.0_f64.to_bits()),
        mix_gain_db: F64Bits(6.0_f64.to_bits()),
        vga_gain_db: F64Bits(7.0_f64.to_bits()),
    }
}

fn text(value: f64) -> String {
    format!("{value:.12E}")
}

fn floats(start: UtcInstant, channel_count: usize) -> FitsFloatTexts {
    let unix_seconds = start.seconds as f64 + start.nanos as f64 * 1e-9;
    FitsFloatTexts {
        mjd_reference: text(unix_seconds / 86_400.0 + 40_587.0),
        zero: text(0.0),
        time_resolution: text(0.01),
        center_frequency: text(1_420_405_751.0),
        sample_rate: text(6_000_000.0),
        frequency_min: text(1_420_405_751.0 - 3_000_000.0),
        frequency_max: text(1_420_405_751.0 + 3_000_000.0),
        channel_width: text(6_000_000.0 / channel_count as f64),
        lna_gain: text(5.0),
        mix_gain: text(6.0),
        vga_gain: text(7.0),
    }
}

fn header_size(bytes: &[u8], offset: usize) -> usize {
    let mut card_offset = offset;
    loop {
        if &bytes[card_offset..card_offset + 3] == b"END" {
            let used = card_offset + FITS_CARD_SIZE - offset;
            return used.div_ceil(FITS_BLOCK_SIZE) * FITS_BLOCK_SIZE;
        }
        card_offset += FITS_CARD_SIZE;
    }
}

fn patch(bytes: &mut [u8], offset: u64, card: &[u8]) {
    let offset = offset as usize;
    bytes[offset..offset + card.len()].copy_from_slice(card);
}

#[test]
fn writes_padded_big_endian_binary_table() {
    let values = [1.25_f32, 2.5_f32, 5.0_f32];
    let center_frequency_hz = 1_420_405_751.0_f64;
    let start = UtcInstant { seconds: 1_700_000_000, nanos: 250_000_000 };
    let mut bytes = write_primary_header(start);
    let (mut recorder, table_header) =
        FitsRecorder::create(start, &metadata(values.len()), &floats(start, 3), bytes.len() as u64)
            .unwrap();
    bytes.extend_from_slice(&table_header);
    let spectrum: Vec<F32Bits> = values.iter().map(|v| F32Bits(v.to_bits())).collect();
    let row = recorder
        .record_spectrum(F64Bits(0.5_f64.to_bits()), F64Bits(center_frequency_hz.to_bits()), &spectrum)
        .unwrap();
    bytes.extend_from_slice(&row);
    let end = UtcInstant { seconds: 1_700_000_001, nanos: 0 };
    let finish = recorder.finish(end).unwrap();
    bytes.extend(std::iter::repeat(0_u8).take(finish.data_padding));
    patch(&mut bytes, recorder.offsets.naxis2, &finish.naxis2_card);
    patch(&mut bytes, recorder.offsets.date_end, &finish.date_end_card);
    patch(&mut bytes, recorder.offsets.tstop, &value_card("TSTOP", &text(1.0), "Seconds from DATE-OBS", true));
    patch(
        &mut bytes,
        recorder.offsets.telapse,
        &value_card("TELAPSE", &text(1.0), "Elapsed observation time (s)", true),
    );

    assert_eq!(bytes.len() % FITS_BLOCK_SIZE, 0);
    assert_eq!(&bytes[..8], b"SIMPLE  ");

    let primary_size = header_size(&bytes, 0);
    assert_eq!(&bytes[primary_size..primary_size + 8], b"XTENSION");
    let extension_size = header_size(&bytes, primary_size);
    let extension_header = &bytes[primary_size..primary_size + extension_size];
    assert!(extension_header.windows(30).any(|window| {
        String::from_utf8_lossy(window).contains("NAXIS2  =                    1")
    }));

    let data_offset = primary_size + extension_size;
    let stored_frequency =
        f64::from_be_bytes(bytes[data_offset + 8..data_offset + 16].try_into().unwrap());
    assert_eq!(stored_frequency, center_frequency_hz);
    for (index, expected) in values.iter().enumerate() {
        let start = data_offset + 16 + index * 4;
        let stored = f32::from_be_bytes(bytes[start..start + 4].try_into().unwrap());
        assert_eq!(stored, *expected);
    }
}

#[test]
fn table_header_cards_and_offsets() {
    let start = UtcInstant { seconds: 0, nanos: 0 };
    let (recorder, header) =
        FitsRecorder::create(start, &metadata(512), &floats(start, 512), 2880).unwrap();
    assert_eq!(header.len(), FITS_BLOCK_SIZE * 2);
    let card = |i: usize| String::from_utf8(header[i * 80..(i + 1) * 80].to_vec()).unwrap();
    assert_eq!(
        card(0),
        format!("{:<80}", "XTENSION= 'BINTABLE'           / Binary table extension")
    );
    assert_eq!(card(3), format!("{:<80}", "NAXIS1  =                 2064 / Bytes per table row"));
    assert_eq!(
        card(16),
        format!("{:<80}", format!("{:<8}= {:<20} / {}", "TFORM3", "'512E'", "32-bit floating-point vector"))
    );
    assert_eq!(
        card(18),
        format!("{:<80}", format!("{:<8}= {:<20} / {}", "TDIM3", "'(512)'", "Spectrum vector dimensions"))
    );
    assert_eq!(
        card(19),
        format!("{:<80}", "DATE-OBS= '1970-01-01T00:00:00.000' / UTC start of observation")
    );
    assert_eq!(card(35), format!("{:<80}", "NCHANS  =                  512 / Number of frequency channels"));
    assert_eq!(card(43), format!("{:<80}", "END"));
    assert!(header[44 * 80..].iter().all(|&b| b == b' '));
    assert_eq!(recorder.offsets.naxis2, 2880 + 4 * 80);
    assert_eq!(recorder.offsets.date_end, 2880 + 20 * 80);
    assert_eq!(recorder.offsets.tstop, 2880 + 26 * 80);
    assert_eq!(recorder.offsets.telapse, 2880 + 27 * 80);
    assert_eq!(recorder.row_size, 16 + 512 * 4);
}

#[test]
fn primary_header_is_one_block() {
    let header = write_primary_header(UtcInstant { seconds: 86_400, nanos: 1_500_000 });
    assert_eq!(header.len(), FITS_BLOCK_SIZE);
    let text = String::from_utf8(header.clone()).unwrap();
    assert!(text.starts_with("SIMPLE  =                    T / Conforms to FITS standard"));
    assert!(text.contains("DATE    = '1970-01-02T00:00:00.001' / UTC file creation time"));
    assert!(text.contains("ORIGIN  = 'HI Observer'        / Data acquisition software"));
    assert_eq!(&header[7 * 80..7 * 80 + 3], b"END");
}

#[test]
fn cards_are_formatted_like_fits() {
    let card = logical_card("SIMPLE", false, "");
    assert_eq!(&card[..], format!("{:<80}", "SIMPLE  =                    F").as_bytes());
    let card = integer_card("BITPIX", 8, "Character data");
    assert_eq!(&card[..], format!("{:<80}", "BITPIX  =                    8 / Character data").as_bytes());
    let card = string_card("OBSERVER", "O'Neil", "name");
    assert_eq!(
        &card[..],
        format!("{:<80}", format!("{:<8}= {:<20} / {}", "OBSERVER", "'O''Neil'", "name")).as_bytes()
    );
    let card = end_card();
    assert_eq!(&card[..], format!("{:<80}", "END").as_bytes());
    let long = "x".repeat(100);
    let card = make_card(&long);
    assert_eq!(&card[..], "x".repeat(80).as_bytes());
    let card = value_card("A", "a-very-long-value-that-exceeds-twenty", "c", true);
    assert_eq!(
        &card[..],
        format!("{:<80}", "A       = a-very-long-value-that-exceeds-twenty / c").as_bytes()
    );
}

#[test]
fn padding_reaches_block_boundaries() {
    assert_eq!(padding_for(0), 0);
    assert_eq!(padding_for(1), 2879);
    assert_eq!(padding_for(2880), 0);
    assert_eq!(padding_for(2881), 2879);
    assert_eq!(padding_for(640), 2240);
    let cards = vec![end_card(); 37];
    let header = write_header(&cards);
    assert_eq!(header.len(), 2 * FITS_BLOCK_SIZE);
}

#[test]
fn fits_errors() {
    let e = fits_row_size(usize::MAX / 2).unwrap_err();
    assert_eq!(e.kind, ErrorKind::InvalidInput);
    assert_eq!(e.message, "FITS row size overflow");
    let start = UtcInstant { seconds: 0, nanos: 0 };
    let (mut recorder, _) =
        FitsRecorder::create(start, &metadata(2), &floats(start, 2), 2880).unwrap();
    let e = recorder.record_spectrum(F64Bits(0), F64Bits(0), &[F32Bits(0)]).unwrap_err();
    assert_eq!(e.message, "expected 2 FITS channels, received 1");
    recorder.row_count = u64::MAX;
    let e = recorder.finish(start).unwrap_err();
    assert_eq!(e.kind, ErrorKind::Other);
    assert_eq!(e.message, "FITS data size overflow");
}

#[test]
fn finish_closes_the_data_and_the_header() {
    let start = UtcInstant { seconds: 0, nanos: 0 };
    let (mut recorder, _) =
        FitsRecorder::create(start, &metadata(2), &floats(start, 2), 2880).unwrap();
    for _ in 0..3 {
        recorder.record_spectrum(F64Bits(0), F64Bits(0), &[F32Bits(0), F32Bits(1)]).unwrap();
    }
    let finish = recorder.finish(UtcInstant { seconds: 60, nanos: 0 }).unwrap();
    assert_eq!(finish.data_padding, 2880 - 3 * 24);
    assert_eq!(&finish.naxis2_card[..], format!("{:<80}", "NAXIS2  =                    3 / Number of spectra").as_bytes());
    assert_eq!(
        &finish.date_end_card[..],
        format!("{:<80}", "DATE-END= '1970-01-01T00:01:00.000' / UTC end of observation").as_bytes()
    );
}

#[test]
fn datetime_text_comes_from_chrono() {
    assert_eq!(fits_datetime(UtcInstant { seconds: 0, nanos: 0 }), "1970-01-01T00:00:00.000");
    assert_eq!(
        fits_datetime(UtcInstant { seconds: 1_700_000_000, nanos: 123_456_789 }),
        "2023-11-14T22:13:20.123"
    );
}

#[test]
fn fits_session_rows_follow_the_headers_in_order() {
    let channels = 2;
    let start = UtcInstant { seconds: 1_700_000_000, nanos: 0 };
    let mut bytes = write_primary_header(start);
    let (mut recorder, table_header) =
        FitsRecorder::create(start, &metadata(channels), &floats(start, channels), bytes.len() as u64)
            .unwrap();
    bytes.extend_from_slice(&table_header);
    assert_eq!(bytes.len(), 3 * FITS_BLOCK_SIZE);
    for i in 0..3 {
        let spectrum = [F32Bits((i as f32).to_bits()), F32Bits(7.0_f32.to_bits())];
        let row = recorder
            .record_spectrum(F64Bits((i as f64).to_bits()), F64Bits(1.0e9_f64.to_bits()), &spectrum)
            .unwrap();
        bytes.extend_from_slice(&row);
    }
    let finish = recorder.finish(UtcInstant { seconds: 1_700_000_003, nanos: 0 }).unwrap();
    bytes.extend(std::iter::repeat(0_u8).take(finish.data_padding));
    let before = bytes.clone();
    patch(&mut bytes, recorder.offsets.naxis2, &finish.naxis2_card);

    assert_eq!(bytes.len() % FITS_BLOCK_SIZE, 0);
    assert_eq!(recorder.offsets.naxis2, 3200);
    assert_eq!(&bytes[3200..3280], &integer_card("NAXIS2", 3, "Number of spectra"));
    assert_eq!(&bytes[..3200], &before[..3200]);
    assert_eq!(&bytes[3280..], &before[3280..]);
    let row_size = 16 + channels * 4;
    for i in 0..3 {
        let at = 3 * FITS_BLOCK_SIZE + i * row_size;
        assert_eq!(f64::from_be_bytes(bytes[at..at + 8].try_into().unwrap()), i as f64);
        assert_eq!(f32::from_be_bytes(bytes[at + 16..at + 20].try_into().unwrap()), i as f32);
    }
    let date = fits_datetime(start);
    let date_card = string_card("DATE", &date, "UTC file creation time");
    let date_obs_card = string_card("DATE-OBS", &date, "UTC start of observation");
    assert_eq!(&bytes[4 * 80..5 * 80], &date_card);
    assert_eq!(&bytes[FITS_BLOCK_SIZE + 19 * 80..FITS_BLOCK_SIZE + 20 * 80], &date_obs_card);
}
