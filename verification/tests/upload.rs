use critter::upload::{
    choose_upload_path, chunk_count, resolve_media_type, split_chunks, SessionAction,
    SessionEvent, SessionState, UploadPlan, UploadSession, CHUNK_SIZE,
};
use critter::error::Error;
use critter::{MediaStatus, TwitterMediaResponse, TwitterMediaResponseProcessingInfo};

fn media(info: Option<TwitterMediaResponseProcessingInfo>) -> TwitterMediaResponse {
    TwitterMediaResponse::new(777, String::from("777"), None, info)
}

fn in_progress(wait: Option<u64>) -> TwitterMediaResponse {
    media(Some(TwitterMediaResponseProcessingInfo::new(
        String::from("in_progress"),
        Some(10),
        wait,
    )))
}

fn succeeded() -> TwitterMediaResponse {
    media(Some(TwitterMediaResponseProcessingInfo::new(
        String::from("succeeded"),
        Some(100),
        None,
    )))
}

#[test]
fn boundary_payload_takes_simple_path() {
    assert_eq!(choose_upload_path(CHUNK_SIZE), UploadPlan::Simple);
    assert_eq!(choose_upload_path(CHUNK_SIZE + 1), UploadPlan::Chunked);
    assert_eq!(choose_upload_path(0), UploadPlan::Simple);
}

#[test]
fn chunk_count_is_the_ceiling() {
    assert_eq!(chunk_count(0), 0);
    assert_eq!(chunk_count(1), 1);
    assert_eq!(chunk_count(CHUNK_SIZE), 1);
    assert_eq!(chunk_count(CHUNK_SIZE + 1), 2);
    assert_eq!(chunk_count(2 * CHUNK_SIZE), 2);
    assert_eq!(chunk_count(2_500_000), 3);
}

#[test]
fn chunks_reassemble_the_payload() {
    let payload: Vec<u8> = (0..2_500_000u32).map(|i| (i % 251) as u8).collect();
    let chunks = split_chunks(&payload);
    assert_eq!(chunks.len(), 3);
    assert_eq!(chunks[0].len(), CHUNK_SIZE);
    assert_eq!(chunks[1].len(), CHUNK_SIZE);
    assert_eq!(chunks[2].len(), 2_500_000 - 2 * CHUNK_SIZE);
    let mut glued: Vec<u8> = Vec::new();
    for c in &chunks {
        glued.extend_from_slice(c);
    }
    assert_eq!(glued, payload);
}

#[test]
fn exact_chunk_payload_is_one_chunk() {
    let payload: Vec<u8> = vec![7u8; CHUNK_SIZE];
    let chunks = split_chunks(&payload);
    assert_eq!(chunks.len(), 1);
    assert_eq!(chunks[0], payload);
    assert!(split_chunks(&Vec::new()).is_empty());
}

#[test]
fn chunked_session_appends_strictly_in_order() {
    let mut s = UploadSession::start(2_500_000, String::from("video/mp4"));
    assert_eq!(s.state, SessionState::AwaitingInit);

    let a = s.step(SessionEvent::InitOk(media(None)));
    assert!(matches!(a, SessionAction::SendAppend { index: 0 }));
    assert_eq!(s.media_id, "777");

    let a = s.step(SessionEvent::AppendStatus(204));
    assert!(matches!(a, SessionAction::SendAppend { index: 1 }));
    let a = s.step(SessionEvent::AppendStatus(204));
    assert!(matches!(a, SessionAction::SendAppend { index: 2 }));
    let a = s.step(SessionEvent::AppendStatus(204));
    assert!(matches!(a, SessionAction::SendFinalize { allow_async: true }));
    assert_eq!(s.state, SessionState::Finalizing);

    let a = s.step(SessionEvent::FinalizeOk(media(None)));
    assert!(matches!(a, SessionAction::Succeed(_)));
    assert_eq!(s.state, SessionState::Done);
}

#[test]
fn append_failure_aborts_the_whole_session() {
    let mut s = UploadSession::start(2_500_000, String::from("video/mp4"));
    s.step(SessionEvent::InitOk(media(None)));
    let a = s.step(SessionEvent::AppendStatus(500));
    assert!(matches!(a, SessionAction::Fail(Error::BadMedia)));
    assert_eq!(s.state, SessionState::Failed);
}

#[test]
fn init_failure_surfaces_its_classified_error() {
    let mut s = UploadSession::start(CHUNK_SIZE + 1, String::from("image/png"));
    let a = s.step(SessionEvent::InitFailed(Error::Transport(String::from(
        "connection reset",
    ))));
    assert!(matches!(a, SessionAction::Fail(Error::Transport(m)) if m == "connection reset"));
    assert_eq!(s.state, SessionState::Failed);

    let mut s = UploadSession::start(CHUNK_SIZE + 1, String::from("image/png"));
    let a = s.step(SessionEvent::InitFailed(Error::BadMedia));
    assert!(matches!(a, SessionAction::Fail(Error::BadMedia)));
    assert_eq!(s.state, SessionState::Failed);
}

#[test]
fn poll_transport_failure_surfaces_as_transport() {
    let mut s = UploadSession::start(2_500_000, String::from("video/mp4"));
    s.step(SessionEvent::InitOk(media(None)));
    s.step(SessionEvent::AppendStatus(204));
    s.step(SessionEvent::AppendStatus(204));
    s.step(SessionEvent::AppendStatus(204));
    s.step(SessionEvent::FinalizeOk(in_progress(None)));
    let a = s.step(SessionEvent::PollFailed(Error::Transport(String::from(
        "timed out",
    ))));
    assert!(matches!(a, SessionAction::Fail(Error::Transport(m)) if m == "timed out"));
    assert_eq!(s.state, SessionState::Failed);
}

#[test]
fn scripted_poll_sequence_takes_three_polls() {
    // responses: in progress (wait 2), in progress (wait 1), succeeded
    let mut s = UploadSession::start(2_500_000, String::from("video/mp4"));
    s.step(SessionEvent::InitOk(media(None)));
    s.step(SessionEvent::AppendStatus(204));
    s.step(SessionEvent::AppendStatus(204));
    s.step(SessionEvent::AppendStatus(204));
    let a = s.step(SessionEvent::FinalizeOk(in_progress(None)));
    assert!(matches!(a, SessionAction::SendPoll));
    assert_eq!(s.state, SessionState::Polling);

    let mut polls = 1; // the shell performs the SendPoll above
    let a = s.step(SessionEvent::PollOk(in_progress(Some(2))));
    assert!(matches!(a, SessionAction::WaitThenPoll { seconds: 2 }));
    polls += 1;
    let a = s.step(SessionEvent::PollOk(in_progress(Some(1))));
    assert!(matches!(a, SessionAction::WaitThenPoll { seconds: 1 }));
    polls += 1;
    let a = s.step(SessionEvent::PollOk(succeeded()));
    match a {
        SessionAction::Succeed(resp) => assert_eq!(resp.media_id_string, "777"),
        other => panic!("expected success, got {:?}", other),
    }
    assert_eq!(polls, 3);
    assert_eq!(s.state, SessionState::Done);
}

#[test]
fn poll_default_wait_is_one_second() {
    let mut s = UploadSession::start(2_500_000, String::from("video/mp4"));
    s.step(SessionEvent::InitOk(media(None)));
    s.step(SessionEvent::AppendStatus(204));
    s.step(SessionEvent::AppendStatus(204));
    s.step(SessionEvent::AppendStatus(204));
    s.step(SessionEvent::FinalizeOk(in_progress(None)));
    let a = s.step(SessionEvent::PollOk(in_progress(None)));
    assert!(matches!(a, SessionAction::WaitThenPoll { seconds: 1 }));
}

#[test]
fn failed_or_unrecognized_processing_fails_the_session() {
    let mut s = UploadSession::start(2_500_000, String::from("video/mp4"));
    s.step(SessionEvent::InitOk(media(None)));
    s.step(SessionEvent::AppendStatus(204));
    s.step(SessionEvent::AppendStatus(204));
    s.step(SessionEvent::AppendStatus(204));
    s.step(SessionEvent::FinalizeOk(in_progress(None)));
    let a = s.step(SessionEvent::PollOk(media(Some(
        TwitterMediaResponseProcessingInfo::new(String::from("failed"), None, None),
    ))));
    assert!(matches!(a, SessionAction::Fail(Error::BadMedia)));
    assert_eq!(s.state, SessionState::Failed);
}

#[test]
fn declared_media_type_wins_over_detected() {
    let declared = Some(String::from("video/mp4"));
    let detected = Some(String::from("image/png"));
    assert_eq!(resolve_media_type(declared, detected), "video/mp4");
    assert_eq!(
        resolve_media_type(None, Some(String::from("image/png"))),
        "image/png"
    );
    assert_eq!(resolve_media_type(Some(String::from("text/plain")), None), "text/plain");
}

#[test]
fn media_response_reports_its_status() {
    assert_eq!(in_progress(None).status(), MediaStatus::InProgress);
    assert_eq!(succeeded().status(), MediaStatus::Succeeded);
    let failed = media(Some(TwitterMediaResponseProcessingInfo::new(
        String::from("failed"),
        None,
        None,
    )));
    assert_eq!(failed.status(), MediaStatus::Failed);
    let odd = media(Some(TwitterMediaResponseProcessingInfo::new(
        String::from("warming_up"),
        None,
        None,
    )));
    assert_eq!(odd.status(), MediaStatus::Bad);
    assert_eq!(media(None).status(), MediaStatus::Bad);

    assert_eq!(in_progress(Some(9)).seconds_left(), 9);
    assert_eq!(in_progress(None).seconds_left(), 1);
    assert_eq!(media(None).id(), "777");
}
