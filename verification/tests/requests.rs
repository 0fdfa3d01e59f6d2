use salvo_core::http::{HeaderMap, HeaderValue};
use tus_handlers::common::{Reply, TusOptions};
use tus_handlers::delete::{delete, DeleteAction, DeleteEvent, DeleteState};
use tus_handlers::error::{InternalError, ProtocolError, Status, TusError};
use tus_handlers::expiration::{ExpirationPolicy, Period, Timestamp, MAX_PERIOD_SECS};
use tus_handlers::finish::{BodyOutcome, FinishPatch};
use tus_handlers::get::{get, GetAction, GetEvent, GetState};
use tus_handlers::head::{head, HeadAction, HeadEvent, HeadState};
use tus_handlers::metadata::Metadata;
use tus_handlers::patch::{max_allowed, patch, PatchAction, PatchEvent, PatchState};
use tus_handlers::upload::{Fault, StorageInfo, StoreCapabilities, UploadInfo};

const NOW: Timestamp = Timestamp { secs: 1_705_314_600, nanos: 0 };

fn fields(list: &[(&'static str, &str)]) -> HeaderMap {
    let mut map = HeaderMap::new();
    for (name, value) in list {
        map.insert(*name, HeaderValue::from_bytes(value.as_bytes()).expect("value"));
    }
    map
}

fn write_request(more: &[(&'static str, &str)]) -> HeaderMap {
    let mut map = fields(&[
        ("tus-resumable", "1.0.0"),
        ("content-type", "application/offset+octet-stream"),
        ("upload-offset", "3"),
    ]);
    for (name, value) in fields(more) {
        map.insert(name.expect("name"), value);
    }
    map
}

fn reply() -> Reply {
    Reply { status_code: None, headers: HeaderMap::new() }
}

fn caps() -> StoreCapabilities {
    StoreCapabilities {
        creation_defer_length: true,
        termination: true,
        expiration: ExpirationPolicy {
            supported: true,
            period: Some(Period { secs: 3600, nanos: 0 }),
        },
    }
}

fn info(offset: Option<u64>, size: Option<u64>) -> UploadInfo {
    UploadInfo {
        id: "u".to_string(),
        size,
        offset,
        metadata: None,
        storage: Some(StorageInfo { kind: "file".to_string(), path: "/data/u".to_string() }),
        creation_date: "2024-01-15T10:00:00Z".to_string(),
    }
}

fn refusal(e: ProtocolError) -> Option<Status> {
    Some(Status::Failure(TusError::Protocol(e)))
}

/// Begins a write and goes on until the store is to say what it knows.
fn begin_write(req: &HeaderMap, max_size: u64, reply: &mut Reply) -> PatchState {
    let (state, action) = patch(Ok(()), req, &TusOptions::default(), reply);
    assert!(matches!(action, PatchAction::NotifyIncoming));
    let (state, action) = state.step(PatchEvent::IncomingNotified, req, caps(), reply);
    assert!(matches!(action, PatchAction::AskMaxSize));
    let (state, action) = state.step(PatchEvent::MaxSize(max_size), req, caps(), reply);
    assert!(matches!(action, PatchAction::Lock));
    let (state, action) = state.step(PatchEvent::Locked(Ok(())), req, caps(), reply);
    assert!(matches!(action, PatchAction::Inspect));
    state
}

/// What becomes of a write to an upload of which the store knows this.
fn inspected(
    req: &HeaderMap,
    max_size: u64,
    info: UploadInfo,
    caps: StoreCapabilities,
    now: Timestamp,
) -> (PatchAction, Option<Status>) {
    let mut reply = reply();
    let state = begin_write(req, max_size, &mut reply);
    let (_, action) = state.step(PatchEvent::Inspected(Ok(info), now), req, caps, &mut reply);
    (action, reply.status_code)
}

#[test]
fn write_that_completes_an_upload() {
    let req = write_request(&[("content-length", "2")]);
    let mut reply = reply();
    let state = begin_write(&req, 0, &mut reply);
    let found = PatchEvent::Inspected(Ok(info(Some(3), Some(5))), NOW);
    let (state, action) = state.step(found, &req, caps(), &mut reply);
    assert!(matches!(action, PatchAction::Write(3)));
    let (state, action) = state.step(PatchEvent::Written(Ok(2)), &req, caps(), &mut reply);
    match action {
        PatchAction::RunHook(done) => {
            assert_eq!(done.offset, Some(5));
            assert_eq!(done.size, Some(5));
        }
        other => panic!("{:?}", other),
    }
    assert_eq!(reply.status_code, Some(Status::Code(204)));
    assert_eq!(reply.headers["upload-offset"], "5");
    assert!(!reply.headers.contains_key("upload-expires"));
    let outcome = FinishPatch {
        status_code: Some(200),
        body: BodyOutcome::Absent,
        headers: Some(fields(&[("upload-offset", "9"), ("x-done", "yes")])),
    };
    let (state, action) =
        state.step(PatchEvent::HookRan(Some(Ok(outcome))), &req, caps(), &mut reply);
    assert!(matches!(action, PatchAction::Respond));
    assert!(matches!(state, PatchState::Closed));
    assert_eq!(reply.status_code, Some(Status::Code(200)));
    assert_eq!(reply.headers["upload-offset"], "5");
    assert_eq!(reply.headers["x-done"], "yes");
    assert_eq!(reply.headers["tus-resumable"], "1.0.0");
}

#[test]
fn write_that_does_not_complete_an_upload() {
    let req = write_request(&[]);
    let mut reply = reply();
    let state = begin_write(&req, 0, &mut reply);
    let found = PatchEvent::Inspected(Ok(info(Some(3), Some(5))), NOW);
    let (state, _) = state.step(found, &req, caps(), &mut reply);
    let (state, action) = state.step(PatchEvent::Written(Ok(1)), &req, caps(), &mut reply);
    assert!(matches!(action, PatchAction::Respond));
    assert!(matches!(state, PatchState::Closed));
    assert_eq!(reply.status_code, Some(Status::Code(204)));
    assert_eq!(reply.headers["upload-offset"], "4");
    assert_eq!(reply.headers["upload-expires"], "Mon, 15 Jan 2024 11:00:00 GMT");
}

#[test]
fn finished_upload_without_hook() {
    let req = write_request(&[]);
    let mut reply = reply();
    let state = begin_write(&req, 0, &mut reply);
    let found = PatchEvent::Inspected(Ok(info(Some(3), Some(3))), NOW);
    let (state, _) = state.step(found, &req, caps(), &mut reply);
    let (state, action) = state.step(PatchEvent::Written(Ok(0)), &req, caps(), &mut reply);
    assert!(matches!(action, PatchAction::RunHook(_)));
    let (_, action) = state.step(PatchEvent::HookRan(None), &req, caps(), &mut reply);
    assert!(matches!(action, PatchAction::Respond));
    assert_eq!(reply.status_code, Some(Status::Code(204)));
}

#[test]
fn write_that_is_refused_at_once() {
    let opts = TusOptions::default();
    let mut lost = reply();
    let (state, action) = patch(Err(404), &HeaderMap::new(), &opts, &mut lost);
    assert!(matches!((state, action), (PatchState::Closed, PatchAction::Respond)));
    assert_eq!(lost.status_code, Some(Status::Code(404)));
    assert_eq!(lost.headers["cache-control"], "no-store");
    let cases = [
        (fields(&[]), ProtocolError::MissingHeader("tus-resumable")),
        (
            fields(&[("tus-resumable", "0.1")]),
            ProtocolError::UnsupportedTusVersion("0.1".to_string()),
        ),
        (fields(&[("tus-resumable", "1.0.0")]), ProtocolError::InvalidContentType),
        (write_request(&[("content-type", "text/plain")]), ProtocolError::InvalidContentType),
        (write_request(&[("upload-offset", "x")]), ProtocolError::InvalidInt("upload-offset")),
        (
            fields(&[
                ("tus-resumable", "1.0.0"),
                ("content-type", "application/offset+octet-stream"),
            ]),
            ProtocolError::MissingHeader("upload-offset"),
        ),
        (
            write_request(&[("upload-offset", "\u{fc}")]),
            ProtocolError::MissingHeader("upload-offset"),
        ),
    ];
    for (req, e) in cases {
        let mut reply = reply();
        let (_, action) = patch(Ok(()), &req, &opts, &mut reply);
        assert!(matches!(action, PatchAction::Respond));
        assert_eq!(reply.status_code, refusal(e));
    }
}

#[test]
fn write_that_others_refuse() {
    let req = write_request(&[]);
    let mut locked = reply();
    let (state, _) = patch(Ok(()), &req, &TusOptions::default(), &mut locked);
    let (state, _) = state.step(PatchEvent::IncomingNotified, &req, caps(), &mut locked);
    let (state, _) = state.step(PatchEvent::MaxSize(0), &req, caps(), &mut locked);
    let (_, action) = state.step(PatchEvent::Locked(Err(423)), &req, caps(), &mut locked);
    assert!(matches!(action, PatchAction::Respond));
    assert_eq!(locked.status_code, Some(Status::Code(423)));
    let mut unknown = reply();
    let state = begin_write(&req, 0, &mut unknown);
    let event = PatchEvent::Inspected(Err(404), NOW);
    let (_, action) = state.step(event, &req, caps(), &mut unknown);
    assert!(matches!(action, PatchAction::Respond));
    assert_eq!(unknown.status_code, Some(Status::Code(404)));
    let mut failed = reply();
    let state = begin_write(&req, 0, &mut failed);
    let found = PatchEvent::Inspected(Ok(info(Some(3), Some(5))), NOW);
    let (state, _) = state.step(found, &req, caps(), &mut failed);
    let (_, action) = state.step(PatchEvent::Written(Err(500)), &req, caps(), &mut failed);
    assert!(matches!(action, PatchAction::Respond));
    assert_eq!(failed.status_code, Some(Status::Code(500)));
    assert!(!failed.headers.contains_key("upload-offset"));
}

#[test]
fn write_to_an_expired_upload() {
    let req = write_request(&[]);
    let end = Timestamp { secs: 1_705_316_400, nanos: 0 };
    let (action, _) = inspected(&req, 0, info(Some(3), Some(5)), caps(), end);
    assert!(matches!(action, PatchAction::Write(3)));
    let late = Timestamp { nanos: 1, ..end };
    let (action, status) = inspected(&req, 0, info(Some(3), Some(5)), caps(), late);
    assert!(matches!(action, PatchAction::Respond));
    assert_eq!(status, Some(Status::Failure(TusError::FileNoLongerExists)));
}

#[test]
fn write_at_another_offset() {
    let req = write_request(&[]);
    for offset in [None, Some(2), Some(4)] {
        let (action, status) = inspected(&req, 0, info(offset, Some(5)), caps(), NOW);
        assert!(matches!(action, PatchAction::Respond));
        assert_eq!(status, Some(Status::Failure(TusError::InvalidOffset)));
    }
}

#[test]
fn write_that_declares_a_length() {
    let req = write_request(&[("upload-length", "7"), ("content-length", "4")]);
    let mut reply = reply();
    let state = begin_write(&req, 7, &mut reply);
    let found = PatchEvent::Inspected(Ok(info(Some(3), None)), NOW);
    let (state, action) = state.step(found, &req, caps(), &mut reply);
    assert!(matches!(action, PatchAction::DeclareLength(7)));
    let (state, action) = state.step(PatchEvent::LengthDeclared, &req, caps(), &mut reply);
    assert!(matches!(action, PatchAction::Write(3)));
    let (_, action) = state.step(PatchEvent::Written(Ok(4)), &req, caps(), &mut reply);
    assert!(matches!(action, PatchAction::RunHook(_)));
    assert_eq!(reply.headers["upload-offset"], "7");
}

#[test]
fn declared_length_that_does_not_fit_the_body() {
    let req = write_request(&[("upload-length", "7"), ("content-length", "5")]);
    let mut reply = reply();
    let state = begin_write(&req, 0, &mut reply);
    let found = PatchEvent::Inspected(Ok(info(Some(3), None)), NOW);
    let (state, action) = state.step(found, &req, caps(), &mut reply);
    assert!(matches!(action, PatchAction::DeclareLength(7)));
    let (_, action) = state.step(PatchEvent::LengthDeclared, &req, caps(), &mut reply);
    assert!(matches!(action, PatchAction::Respond));
    assert_eq!(reply.status_code, refusal(ProtocolError::ErrMaxSizeExceeded));
}

#[test]
fn lengths_that_cannot_be_declared() {
    let fixed = StoreCapabilities { creation_defer_length: false, ..caps() };
    let cases = [
        ("x", None, caps(), ProtocolError::InvalidInt("upload-length")),
        ("\u{fc}", None, caps(), ProtocolError::InvalidInt("upload-length")),
        ("7", None, fixed, ProtocolError::UnsupportedCreationDeferLengthExtension),
        ("7", Some(7), caps(), ProtocolError::InvalidLength),
        ("2", None, caps(), ProtocolError::InvalidLength),
        ("9", None, caps(), ProtocolError::ErrMaxSizeExceeded),
    ];
    for (length, size, caps, e) in cases {
        let req = write_request(&[("upload-length", length)]);
        let (action, status) = inspected(&req, 8, info(Some(3), size), caps, NOW);
        assert!(matches!(action, PatchAction::Respond));
        assert_eq!(status, refusal(e));
    }
}

#[test]
fn bodies_that_do_not_fit() {
    let req = write_request(&[("content-length", "3")]);
    let cases = [
        (0, Some(6), true),
        (0, Some(5), false),
        (6, Some(9), true),
        (5, Some(9), false),
        (5, None, false),
        (6, None, true),
        (0, None, true),
    ];
    for (max_size, size, fits) in cases {
        let (action, status) = inspected(&req, max_size, info(Some(3), size), caps(), NOW);
        if fits {
            assert!(matches!(action, PatchAction::Write(3)));
        } else {
            assert!(matches!(action, PatchAction::Respond));
            assert_eq!(status, refusal(ProtocolError::ErrMaxSizeExceeded));
        }
    }
    let bad = write_request(&[("content-length", "many")]);
    let (_, status) = inspected(&bad, 0, info(Some(3), Some(5)), caps(), NOW);
    assert_eq!(status, refusal(ProtocolError::InvalidInt("content-length")));
}

#[test]
fn limits_of_uploads() {
    assert_eq!(max_allowed(Some(5), 0), Some(5));
    assert_eq!(max_allowed(Some(5), 3), Some(3));
    assert_eq!(max_allowed(Some(3), 5), Some(3));
    assert_eq!(max_allowed(None, 5), Some(5));
    assert_eq!(max_allowed(None, 0), None);
}

#[test]
fn writes_that_cannot_be_answered() {
    let req = write_request(&[("content-length", "18446744073709551615")]);
    let (action, _) = inspected(&req, 0, info(Some(3), Some(5)), caps(), NOW);
    assert!(matches!(action, PatchAction::Abort(Fault::OffsetOverflow)));
    let endless = StoreCapabilities {
        expiration: ExpirationPolicy {
            supported: true,
            period: Some(Period { secs: MAX_PERIOD_SECS, nanos: 0 }),
        },
        ..caps()
    };
    let (action, _) = inspected(&write_request(&[]), 0, info(Some(3), Some(5)), endless, NOW);
    assert!(matches!(action, PatchAction::Abort(Fault::ExpirationOverflow)));
    let req = write_request(&[]);
    let mut reply = reply();
    let state = begin_write(&req, 0, &mut reply);
    let found = PatchEvent::Inspected(Ok(info(Some(3), Some(5))), NOW);
    let (state, _) = state.step(found, &req, caps(), &mut reply);
    let (_, action) = state.step(PatchEvent::Written(Ok(u64::MAX)), &req, caps(), &mut reply);
    assert!(matches!(action, PatchAction::Abort(Fault::OffsetOverflow)));
}

/// Asks about an upload of which the store knows this.
fn asked(info: Result<UploadInfo, u16>, now: Timestamp) -> (HeadAction, Reply) {
    let req = fields(&[("tus-resumable", "1.0.0")]);
    let mut reply = reply();
    let (state, action) = head(Ok(()), &req, &TusOptions::default(), &mut reply);
    assert_eq!(action, HeadAction::NotifyIncoming);
    let policy = caps().expiration;
    let (state, action) = state.step(HeadEvent::IncomingNotified, policy, &mut reply);
    assert_eq!(action, HeadAction::Lock);
    let (state, action) = state.step(HeadEvent::Locked(Ok(())), policy, &mut reply);
    assert_eq!(action, HeadAction::Inspect);
    let found = info.map(|info| {
        let deferred = info.size.is_none();
        (info, deferred)
    });
    let (state, action) = state.step(HeadEvent::Inspected(found, now), policy, &mut reply);
    assert_eq!(state, HeadState::Closed);
    (action, reply)
}

#[test]
fn progress_is_told() {
    let mut known = info(Some(3), Some(5));
    known.metadata = Some(Metadata(vec![("key".to_string(), Some("value".to_string()))]));
    let (action, reply) = asked(Ok(known), NOW);
    assert_eq!(action, HeadAction::Respond);
    assert_eq!(reply.status_code, Some(Status::Code(200)));
    assert_eq!(reply.headers["upload-offset"], "3");
    assert_eq!(reply.headers["upload-length"], "5");
    assert_eq!(reply.headers["upload-metadata"], "key dmFsdWU=");
    assert_eq!(reply.headers["upload-expires"], "Mon, 15 Jan 2024 11:00:00 GMT");
    assert!(!reply.headers.contains_key("upload-defer-length"));
    assert_eq!(reply.headers["tus-resumable"], "1.0.0");
}

#[test]
fn deferred_length_is_told() {
    let (_, reply) = asked(Ok(info(Some(3), None)), NOW);
    assert_eq!(reply.status_code, Some(Status::Code(200)));
    assert_eq!(reply.headers["upload-defer-length"], "1");
    assert!(!reply.headers.contains_key("upload-length"));
}

#[test]
fn progress_of_a_finished_upload() {
    let (_, reply) = asked(Ok(info(Some(5), Some(5))), NOW);
    assert_eq!(reply.headers["upload-offset"], "5");
    assert!(!reply.headers.contains_key("upload-expires"));
}

#[test]
fn progress_that_cannot_be_told() {
    let late = Timestamp { secs: NOW.secs + 86_400, nanos: 0 };
    let (_, reply) = asked(Ok(info(Some(3), Some(5))), late);
    assert_eq!(reply.status_code, Some(Status::Failure(TusError::FileNoLongerExists)));
    assert!(!reply.headers.contains_key("upload-offset"));
    let (_, reply) = asked(Ok(info(None, Some(5))), NOW);
    assert_eq!(
        reply.status_code,
        Some(Status::Failure(TusError::Internal(InternalError::OffsetMissing)))
    );
    let (_, reply) = asked(Err(404), NOW);
    assert_eq!(reply.status_code, Some(Status::Code(404)));
    let mut strange = info(Some(3), Some(5));
    strange.metadata = Some(Metadata(vec![("a\nb".to_string(), None)]));
    let (action, _) = asked(Ok(strange), NOW);
    assert_eq!(action, HeadAction::Abort(Fault::MetadataUnprintable));
}

#[test]
fn question_that_is_refused() {
    let opts = TusOptions::default();
    let mut old = reply();
    let begun = head(Ok(()), &fields(&[("tus-resumable", "2")]), &opts, &mut old);
    assert_eq!(begun, (HeadState::Closed, HeadAction::Respond));
    assert_eq!(old.headers["tus-version"], "1.0.0");
    let req = fields(&[("tus-resumable", "1.0.0")]);
    let mut locked = reply();
    let (state, _) = head(Ok(()), &req, &opts, &mut locked);
    let policy = caps().expiration;
    let (state, _) = state.step(HeadEvent::IncomingNotified, policy, &mut locked);
    let next = state.step(HeadEvent::Locked(Err(423)), policy, &mut locked);
    assert_eq!(next, (HeadState::Closed, HeadAction::Respond));
    assert_eq!(locked.status_code, Some(Status::Code(423)));
}

#[test]
fn progress_agrees_with_what_was_acknowledged() {
    let req = write_request(&[]);
    let mut written = reply();
    let state = begin_write(&req, 0, &mut written);
    let found = PatchEvent::Inspected(Ok(info(Some(3), Some(9))), NOW);
    let (state, _) = state.step(found, &req, caps(), &mut written);
    state.step(PatchEvent::Written(Ok(4)), &req, caps(), &mut written);
    let (_, told) = asked(Ok(info(Some(7), Some(9))), NOW);
    assert_eq!(written.headers["upload-offset"], told.headers["upload-offset"]);
}

/// Fetches an upload of which the store knows this.
fn fetched(info: Result<UploadInfo, u16>) -> (GetAction, Reply) {
    let req = fields(&[("tus-resumable", "1.0.0")]);
    let mut reply = reply();
    let (state, action) = get(Ok(()), &req, &TusOptions::default(), &mut reply);
    assert!(matches!(action, GetAction::NotifyIncoming));
    let (state, action) = state.step(GetEvent::IncomingNotified, &mut reply);
    assert!(matches!(action, GetAction::Lock));
    let (state, action) = state.step(GetEvent::Locked(Ok(())), &mut reply);
    assert!(matches!(action, GetAction::Inspect));
    let (state, action) = state.step(GetEvent::Inspected(info), &mut reply);
    assert_eq!(state, GetState::Closed);
    (action, reply)
}

#[test]
fn complete_uploads_are_sent() {
    for offset in [Some(5), Some(6), None] {
        let (action, reply) = fetched(Ok(info(offset, Some(5))));
        match action {
            GetAction::SendFile(path) => assert_eq!(path, "/data/u"),
            other => panic!("{:?}", other),
        }
        assert_eq!(reply.status_code, None);
    }
}

#[test]
fn partial_uploads_are_not_sent() {
    for (offset, size) in [(Some(4), Some(5)), (Some(5), None), (None, None)] {
        let (action, reply) = fetched(Ok(info(offset, size)));
        assert!(matches!(action, GetAction::Respond));
        assert_eq!(reply.status_code, Some(Status::Code(403)));
    }
}

#[test]
fn uploads_that_are_no_files() {
    let mut nowhere = info(Some(5), Some(5));
    nowhere.storage = None;
    let (action, reply) = fetched(Ok(nowhere));
    assert!(matches!(action, GetAction::Respond));
    assert_eq!(
        reply.status_code,
        Some(Status::Failure(TusError::Internal(InternalError::StorageMissing)))
    );
    let mut remote = info(Some(5), Some(5));
    remote.storage = Some(StorageInfo { kind: "s3".to_string(), path: "k".to_string() });
    let (action, reply) = fetched(Ok(remote));
    assert!(matches!(action, GetAction::Respond));
    assert_eq!(
        reply.status_code,
        Some(Status::Failure(TusError::Internal(InternalError::UnsupportedStorage(
            "s3".to_string()
        ))))
    );
    let (_, reply) = fetched(Err(404));
    assert_eq!(reply.status_code, Some(Status::Code(404)));
}

#[test]
fn fetch_that_is_refused() {
    let opts = TusOptions::default();
    let mut lost = reply();
    let (state, _) = get(Err(400), &fields(&[("tus-resumable", "1.0.0")]), &opts, &mut lost);
    assert_eq!(state, GetState::Closed);
    assert_eq!(lost.status_code, Some(Status::Code(400)));
    let mut locked = reply();
    GetState::Locking.step(GetEvent::Locked(Err(423)), &mut locked);
    assert_eq!(locked.status_code, Some(Status::Code(423)));
}

#[test]
fn uploads_are_removed() {
    let req = fields(&[("tus-resumable", "1.0.0")]);
    let opts = TusOptions::default();
    let mut reply = reply();
    let (state, action) = delete(Ok(()), &req, &opts, caps(), &mut reply);
    assert_eq!(action, DeleteAction::NotifyIncoming);
    let (state, action) = state.step(DeleteEvent::IncomingNotified, &opts, &mut reply);
    assert_eq!(action, DeleteAction::Lock);
    let (state, action) = state.step(DeleteEvent::Locked(Ok(())), &opts, &mut reply);
    assert_eq!(action, DeleteAction::Remove);
    let (state, action) = state.step(DeleteEvent::Removed(Ok(())), &opts, &mut reply);
    assert_eq!(action, DeleteAction::ForgetLock);
    assert_eq!(reply.status_code, Some(Status::Code(204)));
    let next = state.step(DeleteEvent::LockForgotten, &opts, &mut reply);
    assert_eq!(next, (DeleteState::Closed, DeleteAction::Respond));
    assert_eq!(reply.status_code, Some(Status::Code(204)));
}

#[test]
fn finished_uploads_are_spared() {
    let opts = TusOptions {
        disable_termination_for_finished_uploads: true,
        ..TusOptions::default()
    };
    let mut spared = reply();
    let (state, action) = DeleteState::Locking.step(DeleteEvent::Locked(Ok(())), &opts, &mut spared);
    assert_eq!(action, DeleteAction::Inspect);
    let finished = DeleteEvent::Inspected(Ok(info(Some(5), Some(5))));
    let next = state.step(finished, &opts, &mut spared);
    assert_eq!(next, (DeleteState::Closed, DeleteAction::Respond));
    assert_eq!(spared.status_code, Some(Status::Code(403)));
    for known in [Ok(info(Some(4), Some(5))), Ok(info(None, None)), Err(404)] {
        let mut reply = reply();
        let next = DeleteState::Inspecting.step(DeleteEvent::Inspected(known), &opts, &mut reply);
        assert_eq!(next, (DeleteState::Removing, DeleteAction::Remove));
        assert_eq!(reply.status_code, None);
    }
}

#[test]
fn removal_that_is_refused() {
    let req = fields(&[("tus-resumable", "1.0.0")]);
    let opts = TusOptions::default();
    let mut barred = reply();
    let fixed = StoreCapabilities { termination: false, ..caps() };
    let begun = delete(Ok(()), &req, &opts, fixed, &mut barred);
    assert_eq!(begun, (DeleteState::Closed, DeleteAction::Respond));
    assert_eq!(barred.status_code, refusal(ProtocolError::UnsupportedTerminationExtension));
    let mut locked = reply();
    DeleteState::Locking.step(DeleteEvent::Locked(Err(423)), &opts, &mut locked);
    assert_eq!(locked.status_code, Some(Status::Code(423)));
    let mut failed = reply();
    let next = DeleteState::Removing.step(DeleteEvent::Removed(Err(404)), &opts, &mut failed);
    assert_eq!(next, (DeleteState::Closed, DeleteAction::Respond));
    assert_eq!(failed.status_code, Some(Status::Code(404)));
}

#[test]
fn write_in_another_version() {
    let mut reply = reply();
    let req = write_request(&[("tus-resumable", "0.2.2")]);
    let (_, action) = patch(Ok(()), &req, &TusOptions::default(), &mut reply);
    assert!(matches!(action, PatchAction::Respond));
    assert_eq!(reply.headers["tus-version"], "1.0.0");
    assert_eq!(
        reply.status_code,
        refusal(ProtocolError::UnsupportedTusVersion("0.2.2".to_string()))
    );
}

#[test]
fn chunk_that_is_sent_twice() {
    let req = write_request(&[("content-length", "2")]);
    let mut first = reply();
    let state = begin_write(&req, 0, &mut first);
    let found = PatchEvent::Inspected(Ok(info(Some(3), Some(9))), NOW);
    let (state, action) = state.step(found, &req, caps(), &mut first);
    assert!(matches!(action, PatchAction::Write(3)));
    state.step(PatchEvent::Written(Ok(2)), &req, caps(), &mut first);
    assert_eq!(first.headers["upload-offset"], "5");
    let (action, status) = inspected(&req, 0, info(Some(5), Some(9)), caps(), NOW);
    assert!(matches!(action, PatchAction::Respond));
    assert_eq!(status, Some(Status::Failure(TusError::InvalidOffset)));
}

#[test]
fn deferred_length_hides_the_size() {
    let mut reply = reply();
    let found = HeadEvent::Inspected(Ok((info(Some(3), Some(5)), true)), NOW);
    HeadState::Inspecting.step(found, caps().expiration, &mut reply);
    assert_eq!(reply.headers["upload-defer-length"], "1");
    assert!(!reply.headers.contains_key("upload-length"));
}

#[test]
fn unexpected_events_change_nothing() {
    let opts = TusOptions::default();
    let mut reply = reply();
    let next = HeadState::Locking.step(HeadEvent::IncomingNotified, caps().expiration, &mut reply);
    assert_eq!(next, (HeadState::Locking, HeadAction::Respond));
    let next = DeleteState::Closed.step(DeleteEvent::Removed(Ok(())), &opts, &mut reply);
    assert_eq!(next, (DeleteState::Closed, DeleteAction::Respond));
    let (state, action) = GetState::Notifying.step(GetEvent::Locked(Err(423)), &mut reply);
    assert!(matches!((state, action), (GetState::Notifying, GetAction::Respond)));
    let req = write_request(&[]);
    let (state, _) = PatchState::Closed.step(PatchEvent::HookRan(None), &req, caps(), &mut reply);
    assert!(matches!(state, PatchState::Closed));
    assert_eq!(reply.status_code, None);
    assert!(reply.headers.is_empty());
}

#[test]
fn any_value_can_be_told() {
    let mut known = info(Some(3), Some(5));
    known.metadata = Some(Metadata(vec![("k".to_string(), Some("a\nb\u{0}".to_string()))]));
    let (action, reply) = asked(Ok(known), NOW);
    assert_eq!(action, HeadAction::Respond);
    assert_eq!(reply.status_code, Some(Status::Code(200)));
    assert_eq!(reply.headers["upload-metadata"], "k YQpiAA==");
}
