use hi_observer::file_chooser::{chooser_outcome, contains, trim};

#[test]
fn chooser_success_gives_the_trimmed_path() {
    assert_eq!(
        chooser_outcome(true, "  /tmp/observation.fits\n", ""),
        Ok(Some("/tmp/observation.fits".to_owned()))
    );
    assert_eq!(chooser_outcome(true, " \n\t", "ignored"), Ok(None));
}

#[test]
fn chooser_cancel_is_no_choice() {
    assert_eq!(
        chooser_outcome(false, "", "execution error: User canceled. (-128)\n"),
        Ok(None)
    );
    assert_eq!(chooser_outcome(false, "", "error (-128)"), Ok(None));
    assert_eq!(chooser_outcome(false, "", "User canceled"), Ok(None));
}

#[test]
fn chooser_failure_reports_its_error() {
    assert_eq!(
        chooser_outcome(false, "/tmp/x.bin", "  no permission \n"),
        Err("no permission".to_owned())
    );
    assert_eq!(
        chooser_outcome(false, "", " \u{a0}\u{3000}"),
        Err("The file chooser closed unexpectedly".to_owned())
    );
}

#[test]
fn trim_and_contains_match_std() {
    for text in ["", "  ", "\u{2003}a b\u{85}", "abc", "\n x \r\n", "\u{200b}x"] {
        assert_eq!(trim(text), text.trim());
    }
    assert!(contains("abc(-128)", "(-128)"));
    assert!(contains("abc", ""));
    assert!(!contains("ab", "abc"));
    assert!(!contains("User cancelled", "User canceled"));
}
