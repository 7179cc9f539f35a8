use oracles::upload::{
    upload_enabled, UploadAction, UploadEvent, UploadOutcome, UploadTask, MAX_RETRIES,
};

fn ready(shutdown: bool) -> UploadEvent {
    UploadEvent::Ready { shutdown }
}

#[test]
fn upload_enabled_reads_setting() {
    assert!(upload_enabled(None));
    assert!(upload_enabled(Some("true".to_string())));
    assert!(!upload_enabled(Some("false".to_string())));
    assert!(!upload_enabled(Some("TRUE".to_string())));
    assert!(!upload_enabled(Some(String::new())));
}

#[test]
fn disabled_upload_leaves_file() {
    let mut task = UploadTask::new(false);
    assert_eq!(task.step(ready(false)), UploadAction::Finish(UploadOutcome::Disabled));
}

#[test]
fn stored_file_is_removed() {
    let mut task = UploadTask::new(true);
    assert_eq!(task.step(ready(false)), UploadAction::Put);
    assert_eq!(task.step(UploadEvent::Stored { stored: true }), UploadAction::Remove);
    assert_eq!(
        task.step(UploadEvent::Removed { removed: true }),
        UploadAction::Finish(UploadOutcome::Stored { removed: true })
    );
}

#[test]
fn failed_removal_is_reported() {
    let mut task = UploadTask::new(true);
    assert_eq!(task.step(ready(false)), UploadAction::Put);
    assert_eq!(task.step(UploadEvent::Stored { stored: true }), UploadAction::Remove);
    assert_eq!(
        task.step(UploadEvent::Removed { removed: false }),
        UploadAction::Finish(UploadOutcome::Stored { removed: false })
    );
}

#[test]
fn store_is_attempted_six_times_then_given_up() {
    let mut task = UploadTask::new(true);
    let mut puts = 0;
    let mut action = task.step(ready(false));
    loop {
        match action {
            UploadAction::Put => {
                puts += 1;
                action = task.step(UploadEvent::Stored { stored: false });
            }
            UploadAction::Wait => action = task.step(ready(false)),
            UploadAction::Finish(outcome) => {
                assert_eq!(outcome, UploadOutcome::GaveUp);
                break;
            }
            UploadAction::Remove => panic!("nothing was stored"),
        }
    }
    assert_eq!(puts, MAX_RETRIES as usize + 1);
    assert_eq!(puts, 6);
}

#[test]
fn retry_succeeds_after_failures() {
    let mut task = UploadTask::new(true);
    assert_eq!(task.step(ready(false)), UploadAction::Put);
    assert_eq!(task.step(UploadEvent::Stored { stored: false }), UploadAction::Wait);
    assert_eq!(task.step(ready(false)), UploadAction::Put);
    assert_eq!(task.step(UploadEvent::Stored { stored: true }), UploadAction::Remove);
}

#[test]
fn shutdown_stops_before_store() {
    let mut task = UploadTask::new(true);
    assert_eq!(task.step(ready(true)), UploadAction::Finish(UploadOutcome::Shutdown));

    let mut task = UploadTask::new(true);
    assert_eq!(task.step(ready(false)), UploadAction::Put);
    assert_eq!(task.step(UploadEvent::Stored { stored: false }), UploadAction::Wait);
    assert_eq!(task.step(ready(true)), UploadAction::Finish(UploadOutcome::Shutdown));
}

#[test]
fn expects_only_the_answer_to_the_last_action() {
    let mut task = UploadTask::new(true);
    assert!(task.expects(&ready(false)));
    assert!(!task.expects(&UploadEvent::Stored { stored: true }));
    task.step(ready(false));
    assert!(task.expects(&UploadEvent::Stored { stored: false }));
    assert!(!task.expects(&ready(false)));
}
