use hi_observer::save_control::{next_status, SaveEvent, SaveStatus};

fn idle() -> SaveStatus {
    SaveStatus { saving: false, error: None }
}

#[test]
fn status_follows_each_step() {
    let opened = next_status(idle(), SaveEvent::Opened);
    assert!(opened.saving);
    assert_eq!(opened.error, None);

    let refused = next_status(
        SaveStatus { saving: true, error: None },
        SaveEvent::StartedWithoutFile,
    );
    assert!(refused.saving);
    assert_eq!(refused.error.as_deref(), Some("Select a file before starting to save"));

    let unsupported = next_status(opened, SaveEvent::UnsupportedFile);
    assert!(!unsupported.saving);
    assert_eq!(
        unsupported.error.as_deref(),
        Some("Unsupported file type; use .bin, .fits, or .fit")
    );

    let failed = next_status(
        idle(),
        SaveEvent::OpenFailed { path: "/tmp/x.fits".to_owned(), reason: "denied".to_owned() },
    );
    assert!(!failed.saving);
    assert_eq!(failed.error.as_deref(), Some("Could not open /tmp/x.fits: denied"));

    let finished = next_status(failed, SaveEvent::Finished);
    assert_eq!(finished.error.as_deref(), Some("Could not open /tmp/x.fits: denied"));

    let stopped = next_status(
        SaveStatus { saving: true, error: None },
        SaveEvent::WriteFailed { reason: "disk full".to_owned() },
    );
    assert!(!stopped.saving);
    assert_eq!(stopped.error.as_deref(), Some("Saving stopped: disk full"));

    let close_failed = next_status(
        SaveStatus { saving: true, error: None },
        SaveEvent::FinishFailed { reason: "io".to_owned() },
    );
    assert_eq!(close_failed.error.as_deref(), Some("Could not finish saving: io"));

    let selected = next_status(close_failed, SaveEvent::Selected);
    assert!(!selected.saving);
    assert_eq!(selected.error, None);
}
