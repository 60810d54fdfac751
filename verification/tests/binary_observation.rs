use hi_observer::binary_observation::{
    append_position, appends_to_existing, binary_magic, checked_row_size, decode_header,
    encode_header, validate_append_metadata, BinaryRecorder, BINARY_HEADER_SIZE, BINARY_MAGIC,
    BINARY_ROW_HEADER_SIZE, BINARY_VERSION, ROW_COUNT_OFFSET,
};
use hi_observer::byte_codec::{get_i64, get_u32, get_u64, put_i64, put_u32, put_u64};
use hi_observer::error::ErrorKind;
use hi_observer::metadata::{BandEdges, F32Bits, F64Bits, ObservationMetadata};

fn metadata(channel_count: usize) -> ObservationMetadata {
    ObservationMetadata {
        center_frequency_hz: F64Bits(1_420_405_751.0_f64.to_bits()),
        sample_rate_hz: F64Bits(6_000_000.0_f64.to_bits()),
        channel_count,
        average_count: 128,
        pfb_taps: 4,
        time_resolution_sec: F64Bits(0.01_f64.to_bits()),
        lna_gain_db: F64Bits(5.0_f64.to_bits()),
        mix_gain_db: F64Bits(6.0_f64.to_bits()),
        vga_gain_db: F64Bits(7.0_f64.to_bits()),
    }
}

fn band(channel_count: usize) -> BandEdges {
    let center = 1_420_405_751.0_f64;
    let rate = 6_000_000.0_f64;
    BandEdges {
        channel_width_hz: F64Bits((rate / channel_count as f64).to_bits()),
        frequency_min_hz: F64Bits((center - rate / 2.0).to_bits()),
        frequency_max_hz: F64Bits((center + rate / 2.0).to_bits()),
    }
}

fn bits(values: &[f32]) -> Vec<F32Bits> {
    values.iter().map(|v| F32Bits(v.to_bits())).collect()
}

fn get_f64(bytes: &[u8], offset: usize) -> f64 {
    f64::from_bits(get_u64(bytes, offset))
}

/// Writes the trailer of `recorder` into the header at the start of `file`.
fn finish(file: &mut [u8], recorder: &BinaryRecorder, end_unix_ns: i64, elapsed_sec: f64) {
    let trailer = recorder.finish_trailer(end_unix_ns, F64Bits(elapsed_sec.to_bits()));
    let offset = ROW_COUNT_OFFSET as usize;
    file[offset..offset + trailer.len()].copy_from_slice(&trailer);
}

#[test]
fn writes_versioned_header_and_timed_rows() {
    let values = [1.25_f32, 2.5_f32, 5.0_f32];
    let center_frequency_hz = 1_420_405_751.0_f64;
    let start = 1_700_000_000_000_000_000_i64;
    let (mut recorder, mut bytes) =
        BinaryRecorder::create(&metadata(values.len()), &band(values.len()), start).unwrap();
    let row = recorder
        .record_spectrum(
            F64Bits(0.5_f64.to_bits()),
            F64Bits(center_frequency_hz.to_bits()),
            &bits(&values),
        )
        .unwrap();
    bytes.extend_from_slice(&row);
    finish(&mut bytes, &recorder, start + 1_000_000_000, 1.0);

    assert_eq!(&bytes[0..8], &BINARY_MAGIC);
    assert_eq!(get_u32(&bytes, 8), BINARY_VERSION);
    assert_eq!(get_u32(&bytes, 72), values.len() as u32);
    assert_eq!(get_u64(&bytes, 128), 1);
    assert_eq!(
        bytes.len(),
        BINARY_HEADER_SIZE + BINARY_ROW_HEADER_SIZE + values.len() * 4
    );

    let data_offset = BINARY_HEADER_SIZE;
    assert!(get_f64(&bytes, data_offset) >= 0.0);
    assert_eq!(get_f64(&bytes, data_offset + 8), center_frequency_hz);
    for (index, expected) in values.iter().enumerate() {
        let start = data_offset + BINARY_ROW_HEADER_SIZE + index * 4;
        let stored = f32::from_le_bytes(bytes[start..start + 4].try_into().unwrap());
        assert_eq!(stored, *expected);
    }
}

#[test]
fn appends_compatible_observation_rows() {
    let values = [1.0_f32, 2.0_f32];
    let start = 1_700_000_000_000_000_000_i64;
    let (mut recorder, mut bytes) =
        BinaryRecorder::create(&metadata(values.len()), &band(values.len()), start).unwrap();
    let row = recorder
        .record_spectrum(F64Bits(0.0_f64.to_bits()), F64Bits(100.0_f64.to_bits()), &bits(&values))
        .unwrap();
    bytes.extend_from_slice(&row);
    finish(&mut bytes, &recorder, start + 10, 0.01);

    let stored = decode_header(&bytes[..BINARY_HEADER_SIZE]).unwrap();
    let (mut recorder, position) =
        BinaryRecorder::resume(&stored, &metadata(values.len()), true, bytes.len() as u64).unwrap();
    assert_eq!(position.row_count, 1);
    assert_eq!(position.last_row_offset, Some(BINARY_HEADER_SIZE as u64));
    let row = recorder
        .record_spectrum(F64Bits(0.02_f64.to_bits()), F64Bits(200.0_f64.to_bits()), &bits(&values))
        .unwrap();
    bytes.extend_from_slice(&row);
    finish(&mut bytes, &recorder, start + 20, 0.02);

    let row_size = BINARY_ROW_HEADER_SIZE + values.len() * 4;
    assert_eq!(get_u64(&bytes, 128), 2);
    assert_eq!(bytes.len(), BINARY_HEADER_SIZE + row_size * 2);
    assert_eq!(get_f64(&bytes, BINARY_HEADER_SIZE + row_size + 8), 200.0);
}

#[test]
fn refuses_to_append_to_legacy_raw_binary() {
    let bytes = [0_u8; BINARY_HEADER_SIZE];
    let error = decode_header(&bytes).err().expect("legacy append should fail");
    assert_eq!(error.kind, ErrorKind::InvalidData);
    assert_eq!(
        error.message,
        "existing .bin file uses the legacy raw format; choose a new file name"
    );
}

#[test]
fn header_reads_back_what_was_written() {
    let m = metadata(4096);
    let header = encode_header(&m, &band(4096), -5, 17, 16 + 4096 * 4, 9, F64Bits(2.5_f64.to_bits()))
        .unwrap();
    assert_eq!(header.len(), BINARY_HEADER_SIZE);
    let decoded = decode_header(&header).unwrap();
    assert_eq!(decoded.start_unix_ns, -5);
    assert_eq!(decoded.center_frequency_hz, m.center_frequency_hz);
    assert_eq!(decoded.sample_rate_hz, m.sample_rate_hz);
    assert_eq!(decoded.channel_count, 4096);
    assert_eq!(decoded.average_count, 128);
    assert_eq!(decoded.pfb_taps, 4);
    assert_eq!(decoded.time_resolution_sec, m.time_resolution_sec);
    assert_eq!(decoded.lna_gain_db, m.lna_gain_db);
    assert_eq!(decoded.mix_gain_db, m.mix_gain_db);
    assert_eq!(decoded.vga_gain_db, m.vga_gain_db);
    assert_eq!(decoded.row_size, 16 + 4096 * 4);
    assert_eq!(get_i64(&header, 136), 17);
    assert_eq!(get_u64(&header, 128), 9);
    assert_eq!(get_f64(&header, 144), 2.5);
    assert_eq!(get_f64(&header, 48), 6_000_000.0);
    assert_eq!(get_f64(&header, 56), 6_000_000.0 / 4096.0);
    assert_eq!(get_f64(&header, 152), 1_420_405_751.0 - 3_000_000.0);
    assert_eq!(get_f64(&header, 160), 1_420_405_751.0 + 3_000_000.0);
    assert_eq!(get_u32(&header, 12), 256);
    assert_eq!(get_u32(&header, 16), 0x0102_0304);
    assert_eq!(get_u32(&header, 20), 3);
    assert_eq!(get_u32(&header, 84), 1);
    assert_eq!(get_u32(&header, 112), 16);
    assert_eq!(get_u32(&header, 116), 4);
    assert!(header[168..].iter().all(|&b| b == 0));
}

#[test]
fn finishing_patches_only_the_trailer() {
    let m = metadata(2);
    let b = band(2);
    let mut header = encode_header(&m, &b, 1, 1, 24, 0, F64Bits(0)).unwrap();
    let recorder = BinaryRecorder { channel_count: 2, observation_start_unix_ns: 1, row_count: 5 };
    finish(&mut header, &recorder, 99, 3.0);
    let expected = encode_header(&m, &b, 1, 99, 24, 5, F64Bits(3.0_f64.to_bits())).unwrap();
    assert_eq!(header, expected);
}

#[test]
fn decode_reports_each_fault() {
    let good = encode_header(&metadata(2), &band(2), 0, 0, 24, 0, F64Bits(0)).unwrap();

    let mut bad_version = good.clone();
    put_u32(&mut bad_version, 8, 2);
    let e = decode_header(&bad_version).unwrap_err();
    assert_eq!(e.kind, ErrorKind::InvalidData);
    assert_eq!(e.message, "unsupported HI Observer binary version");

    let mut bad_marker = good.clone();
    put_u32(&mut bad_marker, 16, 0x0403_0201);
    let e = decode_header(&bad_marker).unwrap_err();
    assert_eq!(e.kind, ErrorKind::InvalidData);
    assert_eq!(e.message, "invalid HI Observer binary header");

    let mut no_channels = good.clone();
    put_u32(&mut no_channels, 72, 0);
    let e = decode_header(&no_channels).unwrap_err();
    assert_eq!(e.kind, ErrorKind::InvalidData);
    assert_eq!(e.message, "binary header has an invalid row layout");

    let mut wrong_row_size = good.clone();
    put_u64(&mut wrong_row_size, 120, 25);
    let e = decode_header(&wrong_row_size).unwrap_err();
    assert_eq!(e.kind, ErrorKind::InvalidData);
    assert_eq!(e.message, "binary header has an invalid row layout");

    let mut huge_row_size = good.clone();
    put_u64(&mut huge_row_size, 120, u64::MAX);
    let e = decode_header(&huge_row_size).unwrap_err();
    if usize::BITS < 64 {
        assert_eq!(e.message, "binary row size is too large");
    } else {
        assert_eq!(e.message, "binary header has an invalid row layout");
    }
}

#[test]
fn row_size_and_header_limits() {
    assert_eq!(checked_row_size(3).unwrap(), 28);
    assert_eq!(checked_row_size(0).unwrap(), 16);
    let e = checked_row_size(usize::MAX / 2).unwrap_err();
    assert_eq!(e.kind, ErrorKind::InvalidInput);
    assert_eq!(e.message, "binary row size overflow");

    if usize::BITS == 64 {
        let mut m = metadata(2);
        m.channel_count = (u32::MAX as usize) + 1;
        let e = encode_header(&m, &band(2), 0, 0, 24, 0, F64Bits(0)).unwrap_err();
        assert_eq!(e.kind, ErrorKind::InvalidInput);
        assert_eq!(e.message, "channel count does not fit in the binary header");
        let mut m = metadata(2);
        m.average_count = (u32::MAX as usize) + 1;
        let e = encode_header(&m, &band(2), 0, 0, 24, 0, F64Bits(0)).unwrap_err();
        assert_eq!(e.message, "average count does not fit in the binary header");
        let mut m = metadata(2);
        m.pfb_taps = (u32::MAX as usize) + 1;
        let e = encode_header(&m, &band(2), 0, 0, 24, 0, F64Bits(0)).unwrap_err();
        assert_eq!(e.message, "PFB tap count does not fit in the binary header");
    }
}

#[test]
fn record_refuses_wrong_channel_count() {
    let (mut recorder, _) = BinaryRecorder::create(&metadata(3), &band(3), 0).unwrap();
    let e = recorder
        .record_spectrum(F64Bits(0), F64Bits(0), &bits(&[1.0, 2.0]))
        .unwrap_err();
    assert_eq!(e.kind, ErrorKind::InvalidInput);
    assert_eq!(e.message, "expected 3 binary channels, received 2");
    assert_eq!(recorder.row_count, 0);
}

#[test]
fn append_position_cases() {
    let p = append_position(256, 24).unwrap();
    assert_eq!(p.row_count, 0);
    assert_eq!(p.last_row_offset, None);
    let p = append_position(256 + 3 * 24, 24).unwrap();
    assert_eq!(p.row_count, 3);
    assert_eq!(p.last_row_offset, Some(256 + 2 * 24));
    let e = append_position(100, 24).unwrap_err();
    assert_eq!(e.kind, ErrorKind::InvalidData);
    assert_eq!(e.message, "binary file is shorter than its header");
    let e = append_position(256 + 25, 24).unwrap_err();
    assert_eq!(e.kind, ErrorKind::InvalidData);
    assert_eq!(e.message, "binary file ends with an incomplete spectrum record");
}

#[test]
fn append_settings_must_match() {
    let header = encode_header(&metadata(2), &band(2), 7, 7, 24, 0, F64Bits(0)).unwrap();
    let stored = decode_header(&header).unwrap();
    assert!(validate_append_metadata(&stored, &metadata(2), true).is_ok());
    let e = validate_append_metadata(&stored, &metadata(3), true).unwrap_err();
    assert_eq!(e.kind, ErrorKind::InvalidInput);
    assert_eq!(
        e.message,
        "cannot append: observation settings do not match the existing binary header"
    );
    assert!(validate_append_metadata(&stored, &metadata(2), false).is_err());
    let e = BinaryRecorder::resume(&stored, &metadata(2), true, 256 + 23).unwrap_err();
    assert_eq!(e.message, "binary file ends with an incomplete spectrum record");
    let (recorder, _) = BinaryRecorder::resume(&stored, &metadata(2), true, 256 + 48).unwrap();
    assert_eq!(recorder.observation_start_unix_ns(), 7);
    assert_eq!(recorder.row_count, 2);
}

#[test]
fn opening_appends_only_to_nonempty_files() {
    assert!(appends_to_existing(true, Some(10)));
    assert!(!appends_to_existing(true, Some(0)));
    assert!(!appends_to_existing(true, None));
    assert!(!appends_to_existing(false, Some(10)));
}

#[test]
fn magic_bytes_open_the_header() {
    assert_eq!(&BINARY_MAGIC, b"HIOBIN01");
    assert_eq!(binary_magic(), BINARY_MAGIC.to_vec());
}

#[test]
fn session_keeps_records_in_call_order() {
    let channels = 3;
    let start = 1_700_000_000_000_000_000_i64;
    let (mut recorder, mut bytes) =
        BinaryRecorder::create(&metadata(channels), &band(channels), start).unwrap();
    for i in 0..2 {
        let values = [i as f32, 10.0 + i as f32, 20.0 + i as f32];
        let row = recorder
            .record_spectrum(F64Bits((i as f64).to_bits()), F64Bits(1.0e9_f64.to_bits()), &bits(&values))
            .unwrap();
        bytes.extend_from_slice(&row);
    }
    finish(&mut bytes, &recorder, start + 5, 2.0);
    let before = bytes.clone();

    let stored = decode_header(&bytes[..BINARY_HEADER_SIZE]).unwrap();
    let (mut recorder, position) =
        BinaryRecorder::resume(&stored, &metadata(channels), true, bytes.len() as u64).unwrap();
    assert_eq!(position.row_count, 2);
    for i in 2..5 {
        let values = [i as f32, 10.0 + i as f32, 20.0 + i as f32];
        let row = recorder
            .record_spectrum(F64Bits((i as f64).to_bits()), F64Bits(1.0e9_f64.to_bits()), &bits(&values))
            .unwrap();
        bytes.extend_from_slice(&row);
    }
    finish(&mut bytes, &recorder, start + 9, 5.0);

    let row_size = BINARY_ROW_HEADER_SIZE + channels * 4;
    assert_eq!(get_u64(&bytes, 128), 5);
    assert_eq!(get_i64(&bytes, 136), start + 9);
    assert_eq!(get_f64(&bytes, 144), 5.0);
    assert_eq!(bytes.len(), BINARY_HEADER_SIZE + 5 * row_size);
    assert_eq!(&bytes[..128], &before[..128]);
    assert_eq!(&bytes[152..before.len()], &before[152..]);
    for i in 0..5 {
        let at = BINARY_HEADER_SIZE + i * row_size;
        assert_eq!(get_f64(&bytes, at), i as f64);
        let first = f32::from_le_bytes(bytes[at + 16..at + 20].try_into().unwrap());
        assert_eq!(first, i as f32);
    }
    assert_eq!(decode_header(&bytes[..BINARY_HEADER_SIZE]).unwrap(), stored);
}
