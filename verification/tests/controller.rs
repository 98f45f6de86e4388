use binderbase::catalog::bulk::{terminal_progress, ImportController, ImportProgress};
use binderbase::domain::{Error, Game};
use binderbase::scanning::index::{IndexController, IndexProgress};

fn progress(processed: u64, total: Option<u64>) -> ImportProgress {
    ImportProgress {
        game: Some(Game::Mtg),
        stage: "importing".into(),
        processed,
        total,
        message: None,
    }
}

#[test]
fn bulk_try_start_is_exclusive() {
    let mut c = ImportController::new();
    assert!(c.try_start(), "first try_start should succeed");
    assert!(!c.try_start(), "second try_start while running should fail");
    c.finish();
    assert!(c.try_start(), "try_start after finish should succeed");
}

#[test]
fn bulk_try_start_clears_stale_cancel_flag() {
    let mut c = ImportController::new();
    c.cancel();
    assert!(c.is_cancelled());
    c.finish();
    assert!(c.try_start(), "try_start acquires the slot");
    assert!(
        !c.is_cancelled(),
        "try_start must reset cancel_flag for the new run"
    );
}

#[test]
fn bulk_snapshot_reflects_latest_recorded_progress() {
    let mut c = ImportController::new();
    assert!(c.snapshot().is_none());
    c.record_progress(progress(10, Some(100)));
    let s = c.snapshot().unwrap();
    assert_eq!(s.processed, 10);
    assert_eq!(s.total, Some(100));
}

#[test]
fn mod_try_start_is_exclusive() {
    let mut c = ImportController::new();
    assert!(c.try_start(), "first try_start should succeed");
    assert!(!c.try_start(), "second try_start while running should fail");
    c.finish();
    assert!(c.try_start(), "try_start after finish should succeed");
}

#[test]
fn mod_try_start_clears_stale_cancel_flag() {
    let mut c = ImportController::new();
    c.cancel();
    assert!(c.is_cancelled());
    c.finish();
    assert!(c.try_start(), "try_start acquires the slot");
    assert!(
        !c.is_cancelled(),
        "try_start must reset cancel_flag for the new run"
    );
}

#[test]
fn mod_snapshot_reflects_latest_recorded_progress() {
    let mut c = ImportController::new();
    assert!(c.snapshot().is_none());
    c.record_progress(progress(10, Some(100)));
    let s = c.snapshot().unwrap();
    assert_eq!(s.processed, 10);
    assert_eq!(s.total, Some(100));
}

#[test]
fn try_start_discards_previous_progress() {
    let mut c = ImportController::new();
    assert!(c.try_start());
    c.record_progress(progress(5, None));
    c.finish();
    assert!(c.snapshot().is_some());
    assert!(c.try_start());
    assert!(c.snapshot().is_none());
    assert!(c.is_in_progress());
}

#[test]
fn cancel_does_not_release_the_slot() {
    let mut c = ImportController::new();
    assert!(c.try_start());
    c.cancel();
    assert!(c.is_in_progress());
    assert!(!c.try_start());
    assert!(c.is_cancelled());
}

#[test]
fn index_controller_is_exclusive_and_resets() {
    let mut c = IndexController::new();
    assert!(!c.is_in_progress());
    assert!(c.try_start());
    assert!(!c.try_start());
    c.cancel();
    assert!(c.is_cancelled());
    c.record_progress(IndexProgress {
        game: Game::Pokemon,
        processed: 3,
        total: 9,
        stage: "downloading".into(),
        message: None,
    });
    let s = c.snapshot().unwrap();
    assert_eq!((s.processed, s.total, s.stage.as_str()), (3, 9, "downloading"));
    c.finish();
    assert!(c.try_start());
    assert!(!c.is_cancelled());
    assert!(c.snapshot().is_none());
}

#[test]
fn terminal_progress_stages() {
    let ok = terminal_progress(Some(Game::Mtg), false, None);
    assert_eq!(ok.stage, "finished");
    assert!(ok.message.is_none());
    let err = Error::Network("boom".into());
    let failed = terminal_progress(Some(Game::Pokemon), false, Some(&err));
    assert_eq!(failed.stage, "failed");
    assert_eq!(failed.message.as_deref(), Some("network error: boom"));
    let cancelled_err = Error::Internal("import cancelled".into());
    let cancelled = terminal_progress(None, true, Some(&cancelled_err));
    assert_eq!(cancelled.stage, "cancelled");
    assert_eq!(cancelled.processed, 0);
    assert_eq!(cancelled.total, None);
    // A cancel request without an error still finishes normally.
    assert_eq!(terminal_progress(None, true, None).stage, "finished");
}
