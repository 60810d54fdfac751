use hi_observer::clock::{clock_instant, now, unix_nanoseconds, unix_nanoseconds_now, UtcInstant};
use hi_observer::error::ErrorKind;
use hi_observer::save_format::{output_format, selected_format_name, start_format, OutputFormat};
use hi_observer::text::format_decimal;

#[test]
fn decimal_numerals() {
    assert_eq!(format_decimal(0), "0");
    assert_eq!(format_decimal(7), "7");
    assert_eq!(format_decimal(4096), "4096");
    assert_eq!(format_decimal(u64::MAX), u64::MAX.to_string());
}

#[test]
fn formats_from_extensions() {
    assert_eq!(output_format(Some("bin")), Some(OutputFormat::Binary));
    assert_eq!(output_format(Some("BIN")), Some(OutputFormat::Binary));
    assert_eq!(output_format(Some("fits")), Some(OutputFormat::Fits));
    assert_eq!(output_format(Some("Fit")), Some(OutputFormat::Fits));
    assert_eq!(output_format(Some("fitz")), None);
    assert_eq!(output_format(Some("")), None);
    assert_eq!(output_format(None), None);
    assert_eq!(selected_format_name(Some("bin")), "HI binary v1");
    assert_eq!(selected_format_name(Some("FITS")), "FITS table");
    assert_eq!(selected_format_name(Some("txt")), "Unsupported format");
    assert_eq!(start_format(false, Some("bin")), Err("Select a file before starting to save"));
    assert_eq!(
        start_format(true, Some("txt")),
        Err("Unsupported file type; use .bin, .fits, or .fit")
    );
    assert_eq!(start_format(true, Some("fit")), Ok(OutputFormat::Fits));
}

#[test]
fn nanoseconds_since_the_epoch() {
    assert_eq!(unix_nanoseconds(UtcInstant { seconds: 1, nanos: 5 }), Some(1_000_000_005));
    assert_eq!(unix_nanoseconds(UtcInstant { seconds: -1, nanos: 5 }), Some(-999_999_995));
    assert_eq!(
        unix_nanoseconds(UtcInstant { seconds: 9_223_372_036, nanos: 854_775_807 }),
        Some(i64::MAX)
    );
    assert_eq!(unix_nanoseconds(UtcInstant { seconds: 9_223_372_036, nanos: 854_775_808 }), None);
    let t = now().unwrap();
    assert!(t.seconds > 1_600_000_000);
    assert!(t.nanos < 1_000_000_000);
    assert!(unix_nanoseconds_now().unwrap() > 1_600_000_000_000_000_000);
}

#[test]
fn clock_readings_become_instants() {
    assert_eq!(
        clock_instant(Some((1_700_000_000, 250))).unwrap(),
        UtcInstant { seconds: 1_700_000_000, nanos: 250 }
    );
    assert_eq!(
        clock_instant(Some((8_210_266_876_799, 0))).unwrap(),
        UtcInstant { seconds: 8_210_266_876_799, nanos: 0 }
    );
    let before = clock_instant(None).unwrap_err();
    assert_eq!(before.kind, ErrorKind::Other);
    assert_eq!(before.message, "system time before Unix epoch");
    let late = clock_instant(Some((8_210_266_876_800, 0))).unwrap_err();
    assert_eq!(late.kind, ErrorKind::Other);
    assert_eq!(late.message, "system time is outside the dates that chrono represents");
    let huge = clock_instant(Some((u64::MAX, 0))).unwrap_err();
    assert_eq!(huge.message, late.message);
}
