use futures::StreamExt;
use url_uploader::registry::{is_authorized_to_cancel, BeginUpload, CancelOutcome, UploadRegistry};

fn trigger() -> stream_cancel::Trigger {
    stream_cancel::Tripwire::new().0
}

#[test]
fn one_upload_per_chat() {
    let mut r = UploadRegistry::new();
    assert_eq!(r.begin_upload(10, Some(1)), BeginUpload::Started);
    assert_eq!(r.begin_upload(10, Some(2)), BeginUpload::Busy);
    assert_eq!(r.begin_upload(11, Some(2)), BeginUpload::Started);
    assert_eq!(r.started_by(10), Some(1));
    assert_eq!(r.started_by(11), Some(2));
}

#[test]
fn message_without_sender_changes_nothing() {
    let mut r = UploadRegistry::new();
    assert_eq!(r.begin_upload(10, None), BeginUpload::NoSender);
    assert_eq!(r.started_by(10), None);
    assert_eq!(r.begin_upload(10, Some(1)), BeginUpload::Started);
}

#[test]
fn finishing_frees_the_chat() {
    let mut r = UploadRegistry::new();
    assert_eq!(r.begin_upload(10, Some(1)), BeginUpload::Started);
    r.finish_upload(10);
    assert_eq!(r.started_by(10), None);
    assert_eq!(r.begin_upload(10, Some(2)), BeginUpload::Started);
}

#[test]
fn try_lock_reports_whether_it_locked() {
    let mut r = UploadRegistry::new();
    assert!(r.try_lock_chat(5));
    assert!(!r.try_lock_chat(5));
}

#[test]
fn only_the_starter_may_cancel() {
    let mut r = UploadRegistry::new();
    assert_eq!(r.begin_upload(10, Some(1)), BeginUpload::Started);
    r.register_trigger(10, trigger());
    assert_eq!(r.handle_cancel(10, 2), CancelOutcome::Denied);
    assert_eq!(r.started_by(10), Some(1));
    assert_eq!(r.handle_cancel(10, 1), CancelOutcome::Cancelled);
    assert_eq!(r.started_by(10), None);
    assert_eq!(r.handle_cancel(10, 1), CancelOutcome::Nothing);
    assert_eq!(r.begin_upload(10, Some(3)), BeginUpload::Busy);
}

#[test]
fn cancel_before_download_or_without_upload_does_nothing() {
    let mut r = UploadRegistry::new();
    assert_eq!(r.handle_cancel(10, 1), CancelOutcome::Nothing);
    assert_eq!(r.begin_upload(10, Some(1)), BeginUpload::Started);
    assert_eq!(r.handle_cancel(10, 1), CancelOutcome::Nothing);
    assert_eq!(r.started_by(10), Some(1));
    r.register_trigger(10, trigger());
    r.release_trigger(10);
    assert!(!r.cancel_upload(10));
}

#[test]
fn cancelling_drops_the_trigger() {
    let (trigger, tripwire) = stream_cancel::Tripwire::new();
    let mut r = UploadRegistry::new();
    assert_eq!(r.begin_upload(10, Some(1)), BeginUpload::Started);
    r.register_trigger(10, trigger);
    assert!(r.cancel_upload(10));
    let rt = tokio::runtime::Builder::new_current_thread().build().unwrap();
    let stopped = rt.block_on(async {
        let mut stream =
            Box::pin(stream_cancel::StreamExt::take_until_if(futures::stream::pending::<u8>(), tripwire));
        stream.next().await
    });
    assert_eq!(stopped, None);
}

#[test]
fn authorisation_compares_users() {
    assert!(is_authorized_to_cancel(7, 7));
    assert!(!is_authorized_to_cancel(7, 8));
}
