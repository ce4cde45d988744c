use url_uploader::file_info::ResponseInfo;
use url_uploader::registry::{BeginUpload, CancelOutcome, UploadRegistry};
use url_uploader::upload::{UploadAction, UploadEvent, UploadPhase, UploadSession};

fn response(length: Option<u64>) -> UploadEvent {
    UploadEvent::Response(ResponseInfo {
        content_length: length,
        content_disposition: Some("attachment; filename=\"a.mp4\"".to_string()),
        content_type: None,
        last_path_segment: None,
    })
}

fn started(registry: &mut UploadRegistry, chat: i64) -> UploadSession {
    assert_eq!(registry.begin_upload(chat, Some(1)), BeginUpload::Started);
    UploadSession::new(chat)
}

#[test]
fn completed_upload_unlocks_the_chat() {
    let mut reg = UploadRegistry::new();
    let mut s = started(&mut reg, 4);
    match s.step(&mut reg, response(Some(10))) {
        UploadAction::Stream(info) => {
            assert_eq!(info.name, "a.mp4");
            assert_eq!(info.size, 10);
            assert!(info.is_video);
        }
        _ => panic!("expected a stream"),
    }
    assert_eq!(s.phase, UploadPhase::Downloading);
    assert!(matches!(
        s.step(&mut reg, UploadEvent::StreamReady(stream_cancel::Tripwire::new().0)),
        UploadAction::Nothing
    ));
    assert_eq!(s.phase, UploadPhase::Streaming);
    assert!(matches!(s.step(&mut reg, UploadEvent::Completed), UploadAction::Nothing));
    assert_eq!(s.phase, UploadPhase::Finished);
    assert!(!reg.cancel_upload(4));
    assert_eq!(reg.begin_upload(4, Some(2)), BeginUpload::Started);
}

#[test]
fn refused_size_keeps_the_lock_until_the_failure() {
    let mut reg = UploadRegistry::new();
    let mut s = started(&mut reg, 4);
    assert!(matches!(s.step(&mut reg, response(Some(0))), UploadAction::Refuse("⚠️ File is empty")));
    assert_eq!(s.phase, UploadPhase::Downloading);
    assert_eq!(reg.started_by(4), Some(1));
    assert_eq!(reg.begin_upload(4, Some(2)), BeginUpload::Busy);
    s.step(&mut reg, UploadEvent::Failed);
    assert_eq!(s.phase, UploadPhase::Finished);
    assert_eq!(reg.started_by(4), None);
    assert_eq!(reg.begin_upload(4, Some(2)), BeginUpload::Started);
    let mut s = started(&mut reg, 5);
    let too_large = 2u64 * 1024 * 1024 * 1024 + 1;
    assert!(matches!(s.step(&mut reg, response(Some(too_large))), UploadAction::Refuse("⚠️ File is too large")));
}

#[test]
fn failure_at_any_stage_unlocks_the_chat() {
    let mut reg = UploadRegistry::new();
    let mut s = started(&mut reg, 4);
    s.step(&mut reg, UploadEvent::Failed);
    assert_eq!(s.phase, UploadPhase::Finished);
    assert_eq!(reg.begin_upload(4, Some(2)), BeginUpload::Started);

    let mut s = started(&mut reg, 6);
    s.step(&mut reg, UploadEvent::StreamReady(stream_cancel::Tripwire::new().0));
    s.step(&mut reg, UploadEvent::Failed);
    assert_eq!(s.phase, UploadPhase::Finished);
    assert!(!reg.cancel_upload(6));
    assert_eq!(reg.begin_upload(6, Some(2)), BeginUpload::Started);
}

#[test]
fn cancelled_upload_ends_when_its_stream_fails() {
    let mut reg = UploadRegistry::new();
    let mut s = started(&mut reg, 7);
    s.step(&mut reg, UploadEvent::StreamReady(stream_cancel::Tripwire::new().0));
    assert_eq!(reg.handle_cancel(7, 1), CancelOutcome::Cancelled);
    assert_eq!(reg.begin_upload(7, Some(3)), BeginUpload::Busy);
    s.step(&mut reg, UploadEvent::Failed);
    assert_eq!(reg.begin_upload(7, Some(3)), BeginUpload::Started);
}

#[test]
fn finished_upload_ignores_further_events() {
    let mut reg = UploadRegistry::new();
    let mut s = started(&mut reg, 8);
    s.step(&mut reg, UploadEvent::Completed);
    assert_eq!(reg.begin_upload(8, Some(2)), BeginUpload::Started);
    assert!(matches!(s.step(&mut reg, UploadEvent::Failed), UploadAction::Nothing));
    assert_eq!(s.phase, UploadPhase::Finished);
    assert_eq!(reg.begin_upload(8, Some(3)), BeginUpload::Busy);
}
