//! Writing to an upload: the `PATCH` request.
//!
//! [`patch`] looks at the request and says what to do first. Whatever has to be
//! done then, the caller does, and tells [`PatchState::step`] what came of it;
//! the step says what to do next, until it says that the reply is complete.

use salvo_core::http::HeaderMap;
use vstd::prelude::*;

use crate::common;
use crate::common::{Reply, Turn, TusOptions};
use crate::error::{ProtocolError, Status, TusError, STATUS_NO_CONTENT};
use crate::expiration;
use crate::expiration::Timestamp;
use crate::finish;
use crate::finish::FinishPatch;
use crate::headers;
use crate::headers::{
    H_CONTENT_TYPE, H_TUS_RESUMABLE, H_TUS_VERSION, H_UPLOAD_EXPIRES, H_UPLOAD_LENGTH,
    H_UPLOAD_OFFSET,
};
use crate::text;
use crate::text::TUS_VERSION;
use crate::upload::{Fault, StoreCapabilities, UploadInfo};

verus! {

/// The type of the body of a write.
pub const CT_OFFSET_OCTET_STREAM: &'static str = "application/offset+octet-stream";

/// What has been found out about a write, and what is still to be found out.
#[derive(Debug)]
pub enum PatchState {
    /// The hook for incoming requests is to be told.
    Notifying { offset: u64 },
    /// The largest size of an upload is to be asked for.
    Sizing { offset: u64 },
    /// The upload is to be locked.
    Locking { offset: u64, max_size: u64 },
    /// The store is to say what it knows of the upload.
    Inspecting { offset: u64, max_size: u64 },
    /// The store is to be told how long the upload will be.
    Declaring { offset: u64, max_size: u64, info: UploadInfo, expires_at: Option<Timestamp> },
    /// The body is to be written.
    Writing { offset: u64, info: UploadInfo, expires_at: Option<Timestamp> },
    /// The hook for finished uploads is to be run.
    Finishing,
    /// Nothing is left to do.
    Closed,
}

/// What came of an action.
#[derive(Debug)]
pub enum PatchEvent {
    IncomingNotified,
    /// The largest size of an upload; 0 where there is none.
    MaxSize(u64),
    /// Whether the upload is locked now, or else the status code of the error.
    Locked(Result<(), u16>),
    /// What the store knows of the upload, or else the status code of the error;
    /// and what time it is.
    Inspected(Result<UploadInfo, u16>, Timestamp),
    LengthDeclared,
    /// How many bytes have been written, or else the status code of the error.
    Written(Result<u64, u16>),
    /// What the hook for finished uploads returned, where there is one.
    HookRan(Option<Result<FinishPatch, u16>>),
}

/// What is to be done next.
#[derive(Debug)]
pub enum PatchAction {
    /// Tell the hook for incoming requests.
    NotifyIncoming,
    /// Ask for the largest size of an upload.
    AskMaxSize,
    /// Lock the upload for writing.
    Lock,
    /// Ask the store what it knows of the upload, and the clock for the time.
    Inspect,
    /// Tell the store how long the upload will be.
    DeclareLength(u64),
    /// Write the body of the request at this offset.
    Write(u64),
    /// Run the hook for finished uploads.
    RunHook(UploadInfo),
    /// Send the reply.
    Respond,
    /// Give up.
    Abort(Fault),
}

/// Why a request does not get any further.
#[derive(Debug)]
pub enum Stop {
    /// It is refused.
    Refuse(TusError),
    /// It cannot be answered.
    Abort(Fault),
}

/// The length that a write declares for its upload. That is possible once, for
/// an upload that was created without a length, in a store that knows such
/// uploads; and the length must not be less than what is there, nor more than
/// what is allowed.
pub open spec fn declared_length(
    req: headers::Fields,
    size: Option<u64>,
    offset: u64,
    max_size: u64,
    deferrable: bool,
) -> Result<Option<u64>, TusError> {
    match headers::field_text(req, H_UPLOAD_LENGTH@) {
        Some(Some(text)) => match text::parsed_u64(Some(text), H_UPLOAD_LENGTH) {
            Ok(length) => if !deferrable {
                Err(TusError::Protocol(ProtocolError::UnsupportedCreationDeferLengthExtension))
            } else if size is Some || length < offset {
                Err(TusError::Protocol(ProtocolError::InvalidLength))
            } else if max_size > 0 && length > max_size {
                Err(TusError::Protocol(ProtocolError::ErrMaxSizeExceeded))
            } else {
                Ok(Some(length))
            },
            Err(e) => Err(TusError::Protocol(e)),
        },
        Some(None) => Err(TusError::Protocol(ProtocolError::InvalidInt(H_UPLOAD_LENGTH))),
        None => Ok(None),
    }
}

/// How long an upload may become: not longer than its own length, where that is
/// known, nor than the largest size, where there is one.
pub open spec fn size_limit(size: Option<u64>, max_size: u64) -> Option<u64> {
    match size {
        Some(size) => if 0 < max_size && max_size < size {
            Some(max_size)
        } else {
            Some(size)
        },
        None => if max_size > 0 {
            Some(max_size)
        } else {
            None
        },
    }
}

/// Whether the body of a write fits, as far as its length is declared.
pub open spec fn body_fits(
    req: headers::Fields,
    offset: u64,
    size: Option<u64>,
    max_size: u64,
) -> Result<(), Stop> {
    match common::content_length(req) {
        Ok(incoming) => match (incoming, size_limit(size, max_size)) {
            (Some(incoming), Some(limit)) => if offset + incoming > u64::MAX {
                Err(Stop::Abort(Fault::OffsetOverflow))
            } else if offset + incoming > limit {
                Err(Stop::Refuse(TusError::Protocol(ProtocolError::ErrMaxSizeExceeded)))
            } else {
                Ok(())
            },
            _ => Ok(()),
        },
        Err(e) => Err(Stop::Refuse(e)),
    }
}

/// What is said of a write to an upload of which the store knows this: when the
/// upload expires, and the length that the write declares for it. The upload
/// must not have expired, and it must end where the write begins.
pub open spec fn upload_checked(
    req: headers::Fields,
    caps: StoreCapabilities,
    offset: u64,
    max_size: u64,
    info: UploadInfo,
    now: Timestamp,
) -> Result<(Option<Timestamp>, Option<u64>), Stop> {
    match expiration::expiration(caps.expiration, info.creation_date@) {
        Ok(expires_at) => if expires_at matches Some(at) && now.spec_after(at) {
            Err(Stop::Refuse(TusError::FileNoLongerExists))
        } else if info.offset != Some(offset) {
            Err(Stop::Refuse(TusError::InvalidOffset))
        } else {
            match declared_length(req, info.size, offset, max_size, caps.creation_defer_length) {
                Ok(length) => Ok((expires_at, length)),
                Err(e) => Err(Stop::Refuse(e)),
            }
        },
        Err(_) => Err(Stop::Abort(Fault::ExpirationOverflow)),
    }
}

/// A write in progress.
pub type PatchTurn = Turn<PatchState, PatchAction>;

impl Turn<PatchState, PatchAction> {
    /// The write is answered with this status.
    pub open spec fn answered(self, status: Status) -> PatchTurn {
        self.with_status(PatchState::Closed, PatchAction::Respond, status)
    }

    /// The write does not get any further.
    pub open spec fn stopped(self, stop: Stop) -> PatchTurn {
        match stop {
            Stop::Refuse(e) => self.answered(Status::Failure(e)),
            Stop::Abort(fault) => self.goes_on(PatchState::Closed, PatchAction::Abort(fault)),
        }
    }

    /// The body is written, if it fits.
    pub open spec fn admitted(
        self,
        req: headers::Fields,
        offset: u64,
        max_size: u64,
        info: UploadInfo,
        expires_at: Option<Timestamp>,
    ) -> PatchTurn {
        match body_fits(req, offset, info.size, max_size) {
            Ok(()) => self.goes_on(
                PatchState::Writing { offset, info, expires_at },
                PatchAction::Write(offset),
            ),
            Err(stop) => self.stopped(stop),
        }
    }

    /// The store has said what it knows of the upload.
    pub open spec fn inspected(
        self,
        req: headers::Fields,
        caps: StoreCapabilities,
        offset: u64,
        max_size: u64,
        info: UploadInfo,
        now: Timestamp,
    ) -> PatchTurn {
        match upload_checked(req, caps, offset, max_size, info, now) {
            Ok((expires_at, Some(length))) => self.goes_on(
                PatchState::Declaring {
                    offset,
                    max_size,
                    info: UploadInfo { size: Some(length), ..info },
                    expires_at,
                },
                PatchAction::DeclareLength(length),
            ),
            Ok((expires_at, None)) => self.admitted(req, offset, max_size, info, expires_at),
            Err(stop) => self.stopped(stop),
        }
    }

    /// The body, or some of it, has been written.
    pub open spec fn written(
        self,
        offset: u64,
        info: UploadInfo,
        expires_at: Option<Timestamp>,
        count: u64,
    ) -> PatchTurn {
        if offset + count > u64::MAX {
            self.stopped(Stop::Abort(Fault::OffsetOverflow))
        } else {
            let end = (offset + count) as u64;
            let fields = match expires_at {
                Some(at) => expiration::with_expiration(self.fields, at, Some(end), info.size),
                None => self.fields,
            };
            let done = PatchTurn {
                fields: headers::put(fields, H_UPLOAD_OFFSET@, text::decimal(end as nat)),
                ..self.answered(Status::Code(STATUS_NO_CONTENT))
            };
            if info.size == Some(end) {
                done.goes_on(
                    PatchState::Finishing,
                    PatchAction::RunHook(UploadInfo { offset: Some(end), ..info }),
                )
            } else {
                done
            }
        }
    }

    /// The hook for finished uploads has been run.
    pub open spec fn hook_ran(self, outcome: Option<Result<FinishPatch, u16>>) -> PatchTurn {
        let closed = self.goes_on(PatchState::Closed, PatchAction::Respond);
        match outcome {
            Some(outcome) => PatchTurn {
                status: finish::hook_status(self.status, outcome),
                fields: finish::hook_fields(self.fields, outcome),
                ..closed
            },
            None => closed,
        }
    }

    /// The write after what came of its last action has been told.
    pub open spec fn next(
        self,
        event: PatchEvent,
        req: headers::Fields,
        caps: StoreCapabilities,
    ) -> PatchTurn {
        match (self.state, event) {
            (PatchState::Notifying { offset }, PatchEvent::IncomingNotified) => self.goes_on(
                PatchState::Sizing { offset },
                PatchAction::AskMaxSize,
            ),
            (PatchState::Sizing { offset }, PatchEvent::MaxSize(max_size)) => self.goes_on(
                PatchState::Locking { offset, max_size },
                PatchAction::Lock,
            ),
            (
                PatchState::Locking { offset, max_size },
                PatchEvent::Locked(Ok(_)),
            ) => self.goes_on(
                PatchState::Inspecting { offset, max_size },
                PatchAction::Inspect,
            ),
            (PatchState::Locking { .. }, PatchEvent::Locked(Err(code))) => self.answered(
                Status::Code(code),
            ),
            (
                PatchState::Inspecting { offset, max_size },
                PatchEvent::Inspected(Ok(info), now),
            ) => self.inspected(req, caps, offset, max_size, info, now),
            (
                PatchState::Inspecting { .. },
                PatchEvent::Inspected(Err(code), _),
            ) => self.answered(Status::Code(code)),
            (
                PatchState::Declaring { offset, max_size, info, expires_at },
                PatchEvent::LengthDeclared,
            ) => self.admitted(req, offset, max_size, info, expires_at),
            (
                PatchState::Writing { offset, info, expires_at },
                PatchEvent::Written(Ok(count)),
            ) => self.written(offset, info, expires_at, count),
            (PatchState::Writing { .. }, PatchEvent::Written(Err(code))) => self.answered(
                Status::Code(code),
            ),
            (PatchState::Finishing, PatchEvent::HookRan(outcome)) => self.hook_ran(outcome),
            _ => self,
        }
    }
}

impl PatchState {
    /// Whether the event tells what came of what the state waits for.
    pub open spec fn awaits(self, event: PatchEvent) -> bool {
        match self {
            PatchState::Notifying { .. } => event is IncomingNotified,
            PatchState::Sizing { .. } => event is MaxSize,
            PatchState::Locking { .. } => event is Locked,
            PatchState::Inspecting { .. } => event is Inspected,
            PatchState::Declaring { .. } => event is LengthDeclared,
            PatchState::Writing { .. } => event is Written,
            PatchState::Finishing => event is HookRan,
            PatchState::Closed => false,
        }
    }

    /// Whether the moments that the state holds can be told, and whether there
    /// is room in the reply for the fields that are still to come.
    pub open spec fn wf(self, f: headers::Fields) -> bool {
        match self {
            PatchState::Finishing | PatchState::Closed => true,
            PatchState::Declaring { expires_at, .. }
            | PatchState::Writing { expires_at, .. } => headers::has_room(f, 2) && (
            expires_at matches Some(at) ==> at.wf()),
            _ => headers::has_room(f, 2),
        }
    }
}

/// Reads the length that a write declares for its upload.
fn check_declared_length(
    req: &HeaderMap,
    size: Option<u64>,
    offset: u64,
    max_size: u64,
    deferrable: bool,
) -> (length: Result<Option<u64>, TusError>)
    ensures
        length == declared_length(headers::fields(*req), size, offset, max_size, deferrable),
{
    proof {
        headers::lemma_field_names();
    }
    let length = match headers::read(req, H_UPLOAD_LENGTH) {
        Some(Some(text)) => match text::parse_u64(Some(text), H_UPLOAD_LENGTH) {
            Ok(length) => length,
            Err(e) => {
                return Err(TusError::Protocol(e));
            },
        },
        Some(None) => {
            return Err(TusError::Protocol(ProtocolError::InvalidInt(H_UPLOAD_LENGTH)));
        },
        None => {
            return Ok(None);
        },
    };
    if !deferrable {
        return Err(TusError::Protocol(ProtocolError::UnsupportedCreationDeferLengthExtension));
    }
    if size.is_some() {
        return Err(TusError::Protocol(ProtocolError::InvalidLength));
    }
    if length < offset {
        return Err(TusError::Protocol(ProtocolError::InvalidLength));
    }
    if max_size > 0 && length > max_size {
        return Err(TusError::Protocol(ProtocolError::ErrMaxSizeExceeded));
    }
    Ok(Some(length))
}

/// How long an upload may become.
pub fn max_allowed(size: Option<u64>, max_size: u64) -> (limit: Option<u64>)
    ensures
        limit == size_limit(size, max_size),
{
    match size {
        Some(size) => if max_size > 0 && max_size < size {
            Some(max_size)
        } else {
            Some(size)
        },
        None => if max_size > 0 {
            Some(max_size)
        } else {
            None
        },
    }
}

/// Checks that the body of a write fits.
fn check_body(req: &HeaderMap, offset: u64, size: Option<u64>, max_size: u64) -> (fits: Result<
    (),
    Stop,
>)
    ensures
        fits == body_fits(headers::fields(*req), offset, size, max_size),
{
    let incoming = match common::parse_content_length(req) {
        Ok(incoming) => incoming,
        Err(e) => {
            return Err(Stop::Refuse(e));
        },
    };
    if let (Some(incoming), Some(limit)) = (incoming, max_allowed(size, max_size)) {
        match offset.checked_add(incoming) {
            Some(end) => if end > limit {
                return Err(Stop::Refuse(TusError::Protocol(ProtocolError::ErrMaxSizeExceeded)));
            },
            None => {
                return Err(Stop::Abort(Fault::OffsetOverflow));
            },
        }
    }
    Ok(())
}

/// Checks a write against what the store knows of the upload.
fn check_upload(
    req: &HeaderMap,
    caps: StoreCapabilities,
    offset: u64,
    max_size: u64,
    info: &UploadInfo,
    now: Timestamp,
) -> (checked: Result<(Option<Timestamp>, Option<u64>), Stop>)
    requires
        caps.expiration.wf(),
    ensures
        checked == upload_checked(headers::fields(*req), caps, offset, max_size, *info, now),
        checked matches Ok((Some(at), _)) ==> at.wf(),
{
    let expires_at = match expiration::checked_expiration(
        caps.expiration,
        info.creation_date.as_str(),
    ) {
        Ok(expires_at) => expires_at,
        Err(_) => {
            return Err(Stop::Abort(Fault::ExpirationOverflow));
        },
    };
    if let Some(at) = expires_at {
        if now.after(at) {
            return Err(Stop::Refuse(TusError::FileNoLongerExists));
        }
    }
    match info.offset {
        Some(known) => if known != offset {
            return Err(Stop::Refuse(TusError::InvalidOffset));
        },
        None => {
            return Err(Stop::Refuse(TusError::InvalidOffset));
        },
    }
    match check_declared_length(req, info.size, offset, max_size, caps.creation_defer_length) {
        Ok(length) => Ok((expires_at, length)),
        Err(e) => Err(Stop::Refuse(e)),
    }
}

/// What a request to write is answered at first, before anybody else is asked.
/// `id` says whether the request names an upload, or else the status code of the
/// error.
pub open spec fn started(
    before: Reply,
    after: PatchTurn,
    id: Result<(), u16>,
    req: headers::Fields,
    opts: TusOptions,
) -> bool {
    let begun = PatchTurn {
        state: PatchState::Closed,
        action: PatchAction::Respond,
        status: before.status_code,
        fields: common::with_common(before.fields(), req, opts),
    };
    match id {
        Err(code) => after == begun.answered(Status::Code(code)),
        Ok(_) => if !common::speaks_tus(req) {
            &&& common::is_version_status(after.status, req)
            &&& after == PatchTurn {
                status: after.status,
                fields: common::with_version(begun.fields, req),
                ..begun
            }
        } else if headers::readable_text(req, H_CONTENT_TYPE@) != Some(CT_OFFSET_OCTET_STREAM@) {
            after == begun.answered(
                Status::Failure(TusError::Protocol(ProtocolError::InvalidContentType)),
            )
        } else {
            match text::parsed_u64(
                headers::readable_text(req, H_UPLOAD_OFFSET@),
                H_UPLOAD_OFFSET,
            ) {
                Ok(offset) => after == begun.goes_on(
                    PatchState::Notifying { offset },
                    PatchAction::NotifyIncoming,
                ),
                Err(e) => after == begun.answered(Status::Failure(TusError::Protocol(e))),
            }
        },
    }
}

/// Begins to handle a `PATCH` request. `id` says whether the request names an
/// upload, or else the status code of the error.
pub fn patch(id: Result<(), u16>, req: &HeaderMap, opts: &TusOptions, reply: &mut Reply) -> (begun:
    (PatchState, PatchAction))
    requires
        headers::has_room(old(reply).fields(), 8),
    ensures
        started(
            *old(reply),
            final(reply).turn(begun.0, begun.1),
            id,
            headers::fields(*req),
            *opts,
        ),
        begun.0.wf(final(reply).fields()),
{
    common::apply_common_headers(&mut reply.headers, req, opts);
    assert(headers::has_room(reply.fields(), 3));
    if let Err(code) = id {
        reply.status_code = Some(Status::Code(code));
        return (PatchState::Closed, PatchAction::Respond);
    }
    if !common::check_tus_version_or_respond(req, reply) {
        return (PatchState::Closed, PatchAction::Respond);
    }
    assert(headers::has_room(reply.fields(), 2));
    proof {
        headers::lemma_field_names();
    }
    let content_type_ok = match headers::read_text(req, H_CONTENT_TYPE) {
        Some(content_type) => text::same_text(content_type, CT_OFFSET_OCTET_STREAM),
        None => false,
    };
    if !content_type_ok {
        reply.status_code = Some(
            Status::Failure(TusError::Protocol(ProtocolError::InvalidContentType)),
        );
        return (PatchState::Closed, PatchAction::Respond);
    }
    match text::parse_u64(headers::read_text(req, H_UPLOAD_OFFSET), H_UPLOAD_OFFSET) {
        Ok(offset) => (PatchState::Notifying { offset }, PatchAction::NotifyIncoming),
        Err(e) => {
            reply.status_code = Some(Status::Failure(TusError::Protocol(e)));
            (PatchState::Closed, PatchAction::Respond)
        },
    }
}

fn close(stop: Stop, reply: &mut Reply) -> (next: (PatchState, PatchAction))
    ensures
        forall|state: PatchState, action: PatchAction|
            final(reply).turn(next.0, next.1) == #[trigger] old(reply).turn(
                state,
                action,
            ).stopped(stop),
        next.0 is Closed,
{
    match stop {
        Stop::Refuse(e) => {
            reply.status_code = Some(Status::Failure(e));
            (PatchState::Closed, PatchAction::Respond)
        },
        Stop::Abort(fault) => (PatchState::Closed, PatchAction::Abort(fault)),
    }
}

impl PatchState {
    /// Goes on after what the state waits for has happened. Any other event changes
    /// nothing, and calls for nothing but the reply.
    pub fn step(
        self,
        event: PatchEvent,
        req: &HeaderMap,
        caps: StoreCapabilities,
        reply: &mut Reply,
    ) -> (next: (PatchState, PatchAction))
        requires
            self.wf(old(reply).fields()),
            caps.expiration.wf(),
            self is Finishing ==> (event matches PatchEvent::HookRan(Some(outcome))
                ==> finish::hook_fits(old(reply).fields(), outcome)),
        ensures
            final(reply).turn(next.0, next.1) == old(reply).turn(
                self,
                PatchAction::Respond,
            ).next(event, headers::fields(*req), caps),
            next.0.wf(final(reply).fields()),
    {
        match (self, event) {
            (PatchState::Notifying { offset }, PatchEvent::IncomingNotified) => (
                PatchState::Sizing { offset },
                PatchAction::AskMaxSize,
            ),
            (PatchState::Sizing { offset }, PatchEvent::MaxSize(max_size)) => (
                PatchState::Locking { offset, max_size },
                PatchAction::Lock,
            ),
            (PatchState::Locking { offset, max_size }, PatchEvent::Locked(locked)) => {
                match locked {
                    Ok(_) => (PatchState::Inspecting { offset, max_size }, PatchAction::Inspect),
                    Err(code) => {
                        reply.status_code = Some(Status::Code(code));
                        (PatchState::Closed, PatchAction::Respond)
                    },
                }
            },
            (
                PatchState::Inspecting { offset, max_size },
                PatchEvent::Inspected(info, now),
            ) => match info {
                Ok(info) => Self::inspected(req, caps, offset, max_size, info, now, reply),
                Err(code) => {
                    reply.status_code = Some(Status::Code(code));
                    (PatchState::Closed, PatchAction::Respond)
                },
            },
            (
                PatchState::Declaring { offset, max_size, info, expires_at },
                PatchEvent::LengthDeclared,
            ) => Self::begin_write(req, offset, max_size, info, expires_at, reply),
            (
                PatchState::Writing { offset, info, expires_at },
                PatchEvent::Written(written),
            ) => match written {
                Ok(count) => Self::written(offset, info, expires_at, count, reply),
                Err(code) => {
                    reply.status_code = Some(Status::Code(code));
                    (PatchState::Closed, PatchAction::Respond)
                },
            },
            (PatchState::Finishing, PatchEvent::HookRan(outcome)) => {
                if let Some(outcome) = outcome {
                    finish::apply_upload_finish_hook(outcome, reply);
                }
                (PatchState::Closed, PatchAction::Respond)
            },
            (state, _) => (state, PatchAction::Respond),
        }
    }

    fn begin_write(
        req: &HeaderMap,
        offset: u64,
        max_size: u64,
        info: UploadInfo,
        expires_at: Option<Timestamp>,
        reply: &mut Reply,
    ) -> (next: (PatchState, PatchAction))
        requires
            headers::has_room(old(reply).fields(), 2),
            expires_at matches Some(at) ==> at.wf(),
        ensures
            forall|state: PatchState, action: PatchAction|
                final(reply).turn(next.0, next.1) == #[trigger] old(reply).turn(
                    state,
                    action,
                ).admitted(headers::fields(*req), offset, max_size, info, expires_at),
            next.0.wf(final(reply).fields()),
    {
        match check_body(req, offset, info.size, max_size) {
            Ok(()) => (
                PatchState::Writing { offset, info, expires_at },
                PatchAction::Write(offset),
            ),
            Err(e) => close(e, reply),
        }
    }

    fn inspected(
        req: &HeaderMap,
        caps: StoreCapabilities,
        offset: u64,
        max_size: u64,
        info: UploadInfo,
        now: Timestamp,
        reply: &mut Reply,
    ) -> (next: (PatchState, PatchAction))
        requires
            headers::has_room(old(reply).fields(), 2),
            caps.expiration.wf(),
        ensures
            forall|state: PatchState, action: PatchAction|
                final(reply).turn(next.0, next.1) == #[trigger] old(reply).turn(
                    state,
                    action,
                ).inspected(headers::fields(*req), caps, offset, max_size, info, now),
            next.0.wf(final(reply).fields()),
    {
        match check_upload(req, caps, offset, max_size, &info, now) {
            Ok((expires_at, Some(length))) => (
                PatchState::Declaring {
                    offset,
                    max_size,
                    info: UploadInfo { size: Some(length), ..info },
                    expires_at,
                },
                PatchAction::DeclareLength(length),
            ),
            Ok((expires_at, None)) => Self::begin_write(req, offset, max_size, info, expires_at, reply),
            Err(e) => close(e, reply),
        }
    }

    fn written(
        offset: u64,
        info: UploadInfo,
        expires_at: Option<Timestamp>,
        count: u64,
        reply: &mut Reply,
    ) -> (next: (PatchState, PatchAction))
        requires
            headers::has_room(old(reply).fields(), 2),
            expires_at matches Some(at) ==> at.wf(),
        ensures
            forall|state: PatchState, action: PatchAction|
                final(reply).turn(next.0, next.1) == #[trigger] old(reply).turn(
                    state,
                    action,
                ).written(offset, info, expires_at, count),
            next.0.wf(final(reply).fields()),
    {
        let end = match offset.checked_add(count) {
            Some(end) => end,
            None => {
                return close(Stop::Abort(Fault::OffsetOverflow), reply);
            },
        };
        if let Some(at) = expires_at {
            expiration::set_expiration_header(&mut reply.headers, at, Some(end), info.size);
        }
        assert(headers::has_room(reply.fields(), 1));
        reply.status_code = Some(Status::Code(STATUS_NO_CONTENT));
        proof {
            headers::lemma_field_names();
        }
        headers::write_number(&mut reply.headers, H_UPLOAD_OFFSET, end);
        let complete = match info.size {
            Some(size) => size == end,
            None => false,
        };
        if complete {
            (
                PatchState::Finishing,
                PatchAction::RunHook(UploadInfo { offset: Some(end), ..info }),
            )
        } else {
            (PatchState::Closed, PatchAction::Respond)
        }
    }
}

/// Whether what a state holds fits together: a write begins where the upload
/// ends, and a length that is declared with it is neither less than what is
/// there nor more than what is allowed.
pub open spec fn is_consistent(state: PatchState, status: Option<Status>) -> bool {
    match state {
        PatchState::Declaring { offset, max_size, info, .. } => {
            &&& info.offset == Some(offset)
            &&& info.size matches Some(size)
            &&& offset <= size
            &&& max_size > 0 ==> size <= max_size
        },
        PatchState::Writing { offset, info, .. } => info.offset == Some(offset),
        PatchState::Finishing => status is Some,
        _ => true,
    }
}

/// Whether an action is the one that a state waits for. A reply that is sent has
/// a status, and the hook for finished uploads is run for an upload all of which
/// is there.
pub open spec fn is_due(action: PatchAction, state: PatchState, status: Option<Status>) -> bool {
    match action {
        PatchAction::NotifyIncoming => state is Notifying,
        PatchAction::AskMaxSize => state is Sizing,
        PatchAction::Lock => state is Locking,
        PatchAction::Inspect => state is Inspecting,
        PatchAction::DeclareLength(length) => state matches PatchState::Declaring { info, .. }
            && info.size == Some(length),
        PatchAction::Write(at) => state matches PatchState::Writing { offset, .. } && at == offset,
        PatchAction::RunHook(info) => state is Finishing && expiration::is_finished(
            info.offset,
            info.size,
        ),
        PatchAction::Respond => state is Closed && status is Some,
        PatchAction::Abort(_) => state is Closed,
    }
}

/// What a write is begun with fits together.
pub proof fn lemma_patch_begins(
    before: Reply,
    after: PatchTurn,
    id: Result<(), u16>,
    req: headers::Fields,
    opts: TusOptions,
)
    requires
        started(before, after, id, req, opts),
    ensures
        is_consistent(after.state, after.status),
        is_due(after.action, after.state, after.status),
{
}

/// Every event leaves a write in a state that fits together, and asks for the
/// action that this state waits for.
pub proof fn lemma_patch_stays_consistent(
    turn: PatchTurn,
    event: PatchEvent,
    req: headers::Fields,
    caps: StoreCapabilities,
)
    requires
        turn.state.awaits(event),
        is_consistent(turn.state, turn.status),
    ensures
        ({
            let next = turn.next(event, req, caps);
            is_consistent(next.state, next.status) && is_due(next.action, next.state, next.status)
        }),
{
}

impl PatchState {
    /// How many events a write in this state can wait for.
    pub open spec fn remaining(self) -> nat {
        match self {
            PatchState::Notifying { .. } => 7,
            PatchState::Sizing { .. } => 6,
            PatchState::Locking { .. } => 5,
            PatchState::Inspecting { .. } => 4,
            PatchState::Declaring { .. } => 3,
            PatchState::Writing { .. } => 2,
            PatchState::Finishing => 1,
            PatchState::Closed => 0,
        }
    }
}

/// Each event brings a write nearer to its end.
pub proof fn lemma_patch_ends(
    turn: PatchTurn,
    event: PatchEvent,
    req: headers::Fields,
    caps: StoreCapabilities,
)
    requires
        turn.state.awaits(event),
    ensures
        turn.next(event, req, caps).state.remaining() < turn.state.remaining(),
{
}

/// Nobody is told of a request to write, and no store is asked, unless the
/// request names an upload, speaks the version of the protocol that is spoken
/// here, has a body of the right type and says where to write.
pub proof fn lemma_bad_request_goes_nowhere(
    before: Reply,
    after: PatchTurn,
    id: Result<(), u16>,
    req: headers::Fields,
    opts: TusOptions,
)
    requires
        started(before, after, id, req, opts),
    ensures
        after.action is Respond || after.action is NotifyIncoming,
        after.action is NotifyIncoming <==> {
            &&& id is Ok
            &&& common::speaks_tus(req)
            &&& headers::readable_text(req, H_CONTENT_TYPE@) == Some(CT_OFFSET_OCTET_STREAM@)
            &&& headers::readable_text(req, H_UPLOAD_OFFSET@) matches Some(text)
            &&& text::u64_value(text) is Some
        },
{
}

/// A request to write that names another version of the protocol is answered at
/// once, and is told the version that is spoken here.
pub proof fn lemma_other_version_turned_away(
    before: Reply,
    after: PatchTurn,
    id: Result<(), u16>,
    req: headers::Fields,
    opts: TusOptions,
)
    requires
        started(before, after, id, req, opts),
        id is Ok,
        headers::readable_text(req, H_TUS_RESUMABLE@) is Some,
        headers::readable_text(req, H_TUS_RESUMABLE@) != Some(TUS_VERSION@),
    ensures
        after.action is Respond,
        headers::readable_text(after.fields, H_TUS_VERSION@) == Some(TUS_VERSION@),
{
    common::lemma_version_told(common::with_common(before.fields(), req, opts), req);
}

impl Turn<PatchState, PatchAction> {
    /// The write after these events.
    pub open spec fn after(
        self,
        events: Seq<PatchEvent>,
        req: headers::Fields,
        caps: StoreCapabilities,
    ) -> PatchTurn
        decreases events.len(),
    {
        if events.len() == 0 {
            self
        } else {
            self.after(events.drop_last(), req, caps).next(events.last(), req, caps)
        }
    }

    /// Whether each of the events is what the write waits for when it comes.
    pub open spec fn accepts(
        self,
        events: Seq<PatchEvent>,
        req: headers::Fields,
        caps: StoreCapabilities,
    ) -> bool
        decreases events.len(),
    {
        events.len() > 0 ==> {
            &&& self.accepts(events.drop_last(), req, caps)
            &&& self.after(events.drop_last(), req, caps).state.awaits(events.last())
        }
    }
}

impl PatchState {
    /// Where the write begins, as long as the body has not been written.
    pub open spec fn start(self) -> Option<u64> {
        match self {
            PatchState::Notifying { offset } => Some(offset),
            PatchState::Sizing { offset } => Some(offset),
            PatchState::Locking { offset, .. } => Some(offset),
            PatchState::Inspecting { offset, .. } => Some(offset),
            PatchState::Declaring { offset, .. } => Some(offset),
            PatchState::Writing { offset, .. } => Some(offset),
            PatchState::Finishing | PatchState::Closed => None,
        }
    }
}

/// No event moves the place at which a write begins, or opens a write again.
pub proof fn lemma_event_keeps_start(
    turn: PatchTurn,
    event: PatchEvent,
    req: headers::Fields,
    caps: StoreCapabilities,
)
    ensures
        turn.next(event, req, caps).state.start() matches Some(offset) ==> turn.state.start()
            == Some(offset),
        turn.state is Closed ==> turn.next(event, req, caps).state is Closed,
{
}

/// A write begins where its request says, whatever happens, and it gets nowhere
/// unless it was begun.
pub proof fn lemma_write_keeps_its_start(
    before: Reply,
    begun: PatchTurn,
    id: Result<(), u16>,
    req: headers::Fields,
    opts: TusOptions,
    events: Seq<PatchEvent>,
    caps: StoreCapabilities,
)
    requires
        started(before, begun, id, req, opts),
    ensures
        begun.after(events, req, caps).state.start() matches Some(offset)
            ==> text::parsed_u64(headers::readable_text(req, H_UPLOAD_OFFSET@), H_UPLOAD_OFFSET)
            == Ok::<_, ProtocolError>(offset),
        !(begun.after(events, req, caps).state is Closed) ==> begun.state is Notifying,
    decreases events.len(),
{
    if events.len() > 0 {
        let rest = begun.after(events.drop_last(), req, caps);
        lemma_write_keeps_its_start(before, begun, id, req, opts, events.drop_last(), caps);
        lemma_event_keeps_start(rest, events.last(), req, caps);
    }
}

/// Whether an action changes an upload, or tells that one is complete.
pub open spec fn is_change(action: PatchAction) -> bool {
    action is DeclareLength || action is Write || action is RunHook
}

/// Whether the store always says, when it is asked, that the upload ends here.
pub open spec fn ends_at(events: Seq<PatchEvent>, end: u64) -> bool {
    forall|i: int|
        0 <= i < events.len() ==> ((#[trigger] events[i]) matches PatchEvent::Inspected(Ok(info), _)
            ==> info.offset == Some(end))
}

/// A chunk that is sent a second time is not written again. The first request
/// came to write at some place, and at least one byte was written; whatever
/// happens to a second request with the same header fields, as long as the store
/// says that the upload ends behind what was written, nothing is written, no
/// length is declared and the hook for finished uploads is not run. The second
/// request is begun if it names an upload; once the store has said what it knows
/// of the upload, the request is answered that its offset is wrong, unless the
/// upload has expired.
pub proof fn lemma_replayed_write_is_refused(
    before: Reply,
    begun: PatchTurn,
    id: Result<(), u16>,
    opts: TusOptions,
    events: Seq<PatchEvent>,
    caps: StoreCapabilities,
    count: u64,
    again_before: Reply,
    again_begun: PatchTurn,
    again_id: Result<(), u16>,
    again_opts: TusOptions,
    again_events: Seq<PatchEvent>,
    again_caps: StoreCapabilities,
    req: headers::Fields,
)
    requires
        started(before, begun, id, req, opts),
        begun.after(events, req, caps).state is Writing,
        count > 0,
        begun.after(events, req, caps).state->Writing_offset + count <= u64::MAX,
        started(again_before, again_begun, again_id, req, again_opts),
        again_begun.accepts(again_events, req, again_caps),
        ends_at(
            again_events,
            (begun.after(events, req, caps).state->Writing_offset + count) as u64,
        ),
    ensures
        again_id is Ok ==> again_begun.state is Notifying,
        !is_change(again_begun.after(again_events, req, again_caps).action),
        again_events.len() > 0 ==> (again_events.last() matches PatchEvent::Inspected(Ok(info), now)
            ==> {
            let end = again_begun.after(again_events, req, again_caps);
            let expiration = expiration::expiration(again_caps.expiration, info.creation_date@);
            &&& end.state is Closed
            &&& expiration is Ok && !(expiration->Ok_0 matches Some(at) && now.spec_after(at)) ==> {
                &&& end.action is Respond
                &&& end.status == Some(Status::Failure(TusError::InvalidOffset))
            }
        }),
{
    let offset = begun.after(events, req, caps).state->Writing_offset;
    lemma_write_keeps_its_start(before, begun, id, req, opts, events, caps);
    lemma_write_elsewhere_is_refused(
        again_before,
        again_begun,
        again_id,
        req,
        again_opts,
        again_events,
        again_caps,
        offset,
        (offset + count) as u64,
    );
}

/// A write that begins elsewhere than where the upload ends changes nothing.
proof fn lemma_write_elsewhere_is_refused(
    before: Reply,
    begun: PatchTurn,
    id: Result<(), u16>,
    req: headers::Fields,
    opts: TusOptions,
    events: Seq<PatchEvent>,
    caps: StoreCapabilities,
    offset: u64,
    end: u64,
)
    requires
        started(before, begun, id, req, opts),
        text::parsed_u64(headers::readable_text(req, H_UPLOAD_OFFSET@), H_UPLOAD_OFFSET)
            == Ok::<_, ProtocolError>(offset),
        begun.accepts(events, req, caps),
        ends_at(events, end),
        offset != end,
    ensures
        ({
            let turn = begun.after(events, req, caps);
            &&& !is_change(turn.action)
            &&& !(turn.state is Declaring || turn.state is Writing || turn.state is Finishing)
            &&& turn.state.start() is Some ==> turn.state.start() == Some(offset)
            &&& events.len() > 0 ==> (events.last() matches PatchEvent::Inspected(Ok(info), now)
                ==> {
                let expiration = expiration::expiration(caps.expiration, info.creation_date@);
                &&& turn.state is Closed
                &&& expiration is Ok && !(expiration->Ok_0 matches Some(at) && now.spec_after(at))
                    ==> {
                    &&& turn.action is Respond
                    &&& turn.status == Some(Status::Failure(TusError::InvalidOffset))
                }
            })
        }),
    decreases events.len(),
{
    if events.len() > 0 {
        let rest = events.drop_last();
        assert forall|i: int| 0 <= i < rest.len() implies ((
        #[trigger] rest[i]) matches PatchEvent::Inspected(Ok(info), _) ==> info.offset == Some(end))
            by {
            assert(rest[i] == events[i]);
        }
        lemma_write_elsewhere_is_refused(before, begun, id, req, opts, rest, caps, offset, end);
        assert(events.last() == events[events.len() - 1]);
    }
}

/// A store is told to change an upload only if the upload has not expired and
/// ends where the write begins.
pub proof fn lemma_stale_upload_is_untouched(
    turn: PatchTurn,
    info: UploadInfo,
    now: Timestamp,
    req: headers::Fields,
    caps: StoreCapabilities,
)
    requires
        turn.state is Inspecting,
        ({
            let action = turn.next(PatchEvent::Inspected(Ok(info), now), req, caps).action;
            action is DeclareLength || action is Write
        }),
    ensures
        expiration::expiration(caps.expiration, info.creation_date@) is Ok,
        expiration::expiration(caps.expiration, info.creation_date@)->Ok_0 matches Some(at)
            ==> !now.spec_after(at),
        info.offset == Some(turn.state->Inspecting_offset),
{
}

/// A length is declared only for an upload that has none yet, and only where the
/// store can be told.
pub proof fn lemma_length_declared_once(
    turn: PatchTurn,
    info: UploadInfo,
    now: Timestamp,
    req: headers::Fields,
    caps: StoreCapabilities,
)
    requires
        turn.state is Inspecting,
        turn.next(PatchEvent::Inspected(Ok(info), now), req, caps).action is DeclareLength,
    ensures
        info.size is None,
        caps.creation_defer_length,
{
}

/// A body is written only if it does not make the upload longer than the upload
/// is to be or than an upload may be, as far as its length is declared.
pub proof fn lemma_written_body_fits(
    turn: PatchTurn,
    event: PatchEvent,
    req: headers::Fields,
    caps: StoreCapabilities,
    length: u64,
)
    requires
        turn.state.awaits(event),
        turn.next(event, req, caps).action is Write,
        common::content_length(req) == Ok::<_, TusError>(Some(length)),
    ensures
        ({
            let max_size = match turn.state {
                PatchState::Inspecting { max_size, .. } => max_size,
                PatchState::Declaring { max_size, .. } => max_size,
                _ => 0,
            };
            let next = turn.next(event, req, caps);
            let end = next.action->Write_0 + length;
            &&& next.state is Writing
            &&& next.state->Writing_info.size matches Some(size) ==> end <= size
            &&& max_size > 0 ==> end <= max_size
        }),
{
}

/// A write that succeeds is acknowledged without content, and the reply tells
/// where the upload ends now, and when it expires, unless all of it is there.
pub proof fn lemma_write_acknowledged(
    turn: PatchTurn,
    count: u64,
    req: headers::Fields,
    caps: StoreCapabilities,
)
    requires
        turn.state is Writing,
        turn.state->Writing_offset + count <= u64::MAX,
    ensures
        ({
            let next = turn.next(PatchEvent::Written(Ok(count)), req, caps);
            let end = (turn.state->Writing_offset + count) as u64;
            &&& next.status == Some(Status::Code(STATUS_NO_CONTENT))
            &&& headers::readable_text(next.fields, H_UPLOAD_OFFSET@) == Some(
                text::decimal(end as nat),
            )
            &&& text::parsed_u64(
                headers::readable_text(next.fields, H_UPLOAD_OFFSET@),
                H_UPLOAD_OFFSET,
            ) == Ok::<_, ProtocolError>(end)
            &&& next.action is RunHook <==> turn.state->Writing_info.size == Some(end)
            &&& turn.state->Writing_expires_at is Some && !(next.action is RunHook)
                ==> expiration::tells_expiration(next.fields, turn.state->Writing_expires_at->0)
        }),
{
    let end = (turn.state->Writing_offset + count) as u64;
    let info = turn.state->Writing_info;
    let fields = match turn.state->Writing_expires_at {
        Some(at) => expiration::with_expiration(turn.fields, at, Some(end), info.size),
        None => turn.fields,
    };
    headers::lemma_number_is_visible(end as nat);
    headers::lemma_put_read_back(fields, H_UPLOAD_OFFSET@, text::decimal(end as nat));
    text::lemma_decimal_read_back(end);
    headers::lemma_names_differ(4, 8);
}

/// What a reply to a write has been given before stays in it: after the first
/// checks only the end of the upload and its expiration are written, and the
/// hook for finished uploads changes no field that is there.
pub proof fn lemma_reply_keeps_fields(
    turn: PatchTurn,
    event: PatchEvent,
    req: headers::Fields,
    caps: StoreCapabilities,
    name: Seq<char>,
)
    requires
        turn.fields.contains_key(name),
        name != H_UPLOAD_OFFSET@,
        name != H_UPLOAD_EXPIRES@,
    ensures
        turn.next(event, req, caps).fields.contains_key(name),
        turn.next(event, req, caps).fields[name] == turn.fields[name],
{
}

/// A request to write is begun, with the reply's common fields and its status as
/// it was, if it names an upload, speaks the version that is spoken here, has a
/// body of the right type, and says in a number, be that 0, where to write.
pub proof fn lemma_good_request_is_begun(
    before: Reply,
    after: PatchTurn,
    id: Result<(), u16>,
    req: headers::Fields,
    opts: TusOptions,
    offset: u64,
)
    requires
        started(before, after, id, req, opts),
        id is Ok,
        headers::readable_text(req, H_TUS_RESUMABLE@) == Some("1.0.0"@),
        headers::readable_text(req, H_CONTENT_TYPE@) == Some("application/offset+octet-stream"@),
        headers::readable_text(req, H_UPLOAD_OFFSET@) matches Some(text) && text::u64_value(text)
            == Some(offset),
    ensures
        after == (Turn {
            state: PatchState::Notifying { offset },
            action: PatchAction::NotifyIncoming,
            status: before.status_code,
            fields: common::with_common(headers::fields(before.headers), req, opts),
        }),
{
}

/// Any other request to write is answered at once, with the status of the first
/// thing that is wrong with it: the name of the upload, the version, which is told
/// if another one is named, the type of the body, and the place to write.
pub proof fn lemma_bad_request_is_answered(
    before: Reply,
    after: PatchTurn,
    id: Result<(), u16>,
    req: headers::Fields,
    opts: TusOptions,
)
    requires
        started(before, after, id, req, opts),
    ensures
        ({
            let version = headers::readable_text(req, H_TUS_RESUMABLE@);
            let spoken = id is Ok && version == Some("1.0.0"@);
            let typed = spoken && headers::readable_text(req, H_CONTENT_TYPE@) == Some(
                "application/offset+octet-stream"@,
            );
            let place = headers::readable_text(req, H_UPLOAD_OFFSET@);
            let common = common::with_common(headers::fields(before.headers), req, opts);
            let refused = |error: ProtocolError| Turn {
                state: PatchState::Closed,
                action: PatchAction::Respond,
                status: Some(Status::Failure(TusError::Protocol(error))),
                fields: common,
            };
            &&& id matches Err(code) ==> after == (Turn {
                state: PatchState::Closed,
                action: PatchAction::Respond,
                status: Some(Status::Code(code)),
                fields: common,
            })
            &&& id is Ok && version is None ==> after == refused(
                ProtocolError::MissingHeader(H_TUS_RESUMABLE),
            )
            &&& id is Ok && version is Some && !spoken ==> {
                &&& after.state is Closed
                &&& after.action is Respond
                &&& common::quotes_version(after.status, version->0)
                &&& after.fields == headers::put(common, H_TUS_VERSION@, "1.0.0"@)
            }
            &&& spoken && !typed ==> after == refused(ProtocolError::InvalidContentType)
            &&& typed && place is None ==> after == refused(
                ProtocolError::MissingHeader(H_UPLOAD_OFFSET),
            )
            &&& typed && place is Some && text::u64_value(place->0) is None ==> after == refused(
                ProtocolError::InvalidInt(H_UPLOAD_OFFSET),
            )
        }),
{
}

/// Whether an upload that expires at this moment, if at all, has expired.
pub open spec fn is_late(expires_at: Option<Timestamp>, now: Timestamp) -> bool {
    expires_at matches Some(at) && (now.secs > at.secs || (now.secs == at.secs && now.nanos
        > at.nanos))
}

/// Whether a body of the declared length, where it is declared, ends at most where
/// the upload is to end, where that is known, and is within the largest size of an
/// upload, where there is one.
pub open spec fn is_within(
    offset: u64,
    length: Option<u64>,
    size: Option<u64>,
    max_size: u64,
) -> bool {
    length matches Some(length) ==> {
        &&& size matches Some(size) ==> offset + length <= size
        &&& max_size > 0 ==> offset + length <= max_size
    }
}

/// A write that keeps to the rules is accepted: if the upload has not expired and
/// ends where the write begins, be that at 0, if no length is declared for the
/// upload, and if the body, as far as its length is declared, fits, then the body
/// is written there. What the store knows of the upload, when it expires, and the
/// reply are kept as they are.
pub proof fn lemma_good_write_is_accepted(
    turn: PatchTurn,
    offset: u64,
    max_size: u64,
    info: UploadInfo,
    now: Timestamp,
    req: headers::Fields,
    caps: StoreCapabilities,
    expires_at: Option<Timestamp>,
    length: Option<u64>,
)
    requires
        turn.state == (PatchState::Inspecting { offset, max_size }),
        expiration::expiration(caps.expiration, info.creation_date@) == Ok::<
            _,
            expiration::TimestampOverflow,
        >(expires_at),
        !is_late(expires_at, now),
        info.offset == Some(offset),
        !req.contains_key(H_UPLOAD_LENGTH@),
        common::content_length(req) == Ok::<_, TusError>(length),
        is_within(offset, length, info.size, max_size),
    ensures
        turn.next(PatchEvent::Inspected(Ok(info), now), req, caps) == (Turn {
            state: PatchState::Writing { offset, info, expires_at },
            action: PatchAction::Write(offset),
            ..turn
        }),
{
}

/// A write that declares a length for its upload is accepted if the upload has
/// not expired, ends where the write begins and has no length, if the store knows
/// such uploads, and if the length is not less than what is there and not more
/// than is allowed. The store is told the length, and the upload has it from then
/// on; all else that is known of it stays.
pub proof fn lemma_good_length_is_accepted(
    turn: PatchTurn,
    offset: u64,
    max_size: u64,
    info: UploadInfo,
    now: Timestamp,
    req: headers::Fields,
    caps: StoreCapabilities,
    expires_at: Option<Timestamp>,
    declared: u64,
)
    requires
        turn.state == (PatchState::Inspecting { offset, max_size }),
        expiration::expiration(caps.expiration, info.creation_date@) == Ok::<
            _,
            expiration::TimestampOverflow,
        >(expires_at),
        !is_late(expires_at, now),
        info.offset == Some(offset),
        headers::readable_text(req, H_UPLOAD_LENGTH@) matches Some(text) && text::u64_value(text)
            == Some(declared),
        caps.creation_defer_length,
        info.size is None,
        offset <= declared,
        max_size == 0 || declared <= max_size,
    ensures
        turn.next(PatchEvent::Inspected(Ok(info), now), req, caps) == (Turn {
            state: PatchState::Declaring {
                offset,
                max_size,
                info: UploadInfo { size: Some(declared), ..info },
                expires_at,
            },
            action: PatchAction::DeclareLength(declared),
            ..turn
        }),
{
}

/// Once the store has been told the length of the upload, the body is written if
/// it fits; what is known of the upload, when it expires, and the reply are kept.
pub proof fn lemma_write_after_length(
    turn: PatchTurn,
    offset: u64,
    max_size: u64,
    info: UploadInfo,
    expires_at: Option<Timestamp>,
    req: headers::Fields,
    caps: StoreCapabilities,
    length: Option<u64>,
)
    requires
        turn.state == (PatchState::Declaring { offset, max_size, info, expires_at }),
        common::content_length(req) == Ok::<_, TusError>(length),
        is_within(offset, length, info.size, max_size),
    ensures
        turn.next(PatchEvent::LengthDeclared, req, caps) == (Turn {
            state: PatchState::Writing { offset, info, expires_at },
            action: PatchAction::Write(offset),
            ..turn
        }),
{
}

/// The write as it was, refused for this reason.
pub open spec fn refused_for(turn: PatchTurn, error: TusError) -> PatchTurn {
    Turn {
        state: PatchState::Closed,
        action: PatchAction::Respond,
        status: Some(Status::Failure(error)),
        fields: turn.fields,
    }
}

/// What is wrong with a write to an upload of which the store knows this, taken in
/// order: the upload has expired; it is not known where it ends, or it ends
/// elsewhere than the write begins; and of a length that is declared for it, that
/// it is no number, that the store cannot be told, that the upload has one, that
/// it is less than what is there, or that it is more than is allowed. The write is
/// refused for the first of these that holds.
pub proof fn lemma_bad_write_is_refused(
    turn: PatchTurn,
    offset: u64,
    max_size: u64,
    info: UploadInfo,
    now: Timestamp,
    req: headers::Fields,
    caps: StoreCapabilities,
)
    requires
        turn.state == (PatchState::Inspecting { offset, max_size }),
    ensures
        ({
            let next = turn.next(PatchEvent::Inspected(Ok(info), now), req, caps);
            let expiration = expiration::expiration(caps.expiration, info.creation_date@);
            let late = expiration is Ok && is_late(expiration->Ok_0, now);
            let on_time = expiration is Ok && !late;
            let placed = on_time && info.offset == Some(offset);
            let declares = placed && req.contains_key(H_UPLOAD_LENGTH@);
            let text = headers::readable_text(req, H_UPLOAD_LENGTH@);
            let number = match text {
                Some(text) => text::u64_value(text),
                None => None,
            };
            let counted = declares && number is Some;
            let told = counted && caps.creation_defer_length;
            let invalid_length = TusError::Protocol(ProtocolError::InvalidLength);
            &&& expiration is Err ==> next == (Turn {
                state: PatchState::Closed,
                action: PatchAction::Abort(Fault::ExpirationOverflow),
                ..turn
            })
            &&& late ==> next == refused_for(turn, TusError::FileNoLongerExists)
            &&& on_time && !placed ==> next == refused_for(turn, TusError::InvalidOffset)
            &&& declares && number is None ==> next == refused_for(
                turn,
                TusError::Protocol(ProtocolError::InvalidInt(H_UPLOAD_LENGTH)),
            )
            &&& counted && !caps.creation_defer_length ==> next == refused_for(
                turn,
                TusError::Protocol(ProtocolError::UnsupportedCreationDeferLengthExtension),
            )
            &&& told && info.size is Some ==> next == refused_for(turn, invalid_length)
            &&& told && number->0 < offset ==> next == refused_for(turn, invalid_length)
            &&& told && info.size is None && number->0 >= offset && 0 < max_size < number->0
                ==> next == refused_for(turn, TusError::Protocol(ProtocolError::ErrMaxSizeExceeded))
        }),
{
}

/// A write whose offset is answered to be wrong begins elsewhere than where the
/// upload ends, as far as that is known.
pub proof fn lemma_only_wrong_offsets_are_refused(
    turn: PatchTurn,
    offset: u64,
    max_size: u64,
    info: UploadInfo,
    now: Timestamp,
    req: headers::Fields,
    caps: StoreCapabilities,
)
    requires
        turn.state == (PatchState::Inspecting { offset, max_size }),
        turn.status != Some(Status::Failure(TusError::InvalidOffset)),
        turn.next(PatchEvent::Inspected(Ok(info), now), req, caps).status == Some(
            Status::Failure(TusError::InvalidOffset),
        ),
    ensures
        info.offset is None || info.offset->0 != offset,
{
    if common::content_length(req) matches Err(e) {
        common::lemma_declared_body_length(req);
    }
}

/// A body does not fit if its declared length is no number, or if it would end
/// beyond where the upload is to end or beyond the largest size. One that would
/// end beyond what can be counted is not answered, where there is a limit at all.
/// It does not matter whether a length has been declared for the upload before.
pub proof fn lemma_bad_body_is_refused(
    turn: PatchTurn,
    event: PatchEvent,
    offset: u64,
    max_size: u64,
    info: UploadInfo,
    req: headers::Fields,
    caps: StoreCapabilities,
)
    requires
        ({
            ||| {
                &&& turn.state == (PatchState::Inspecting { offset, max_size })
                &&& event matches PatchEvent::Inspected(Ok(known), now)
                &&& known == info
                &&& expiration::expiration(caps.expiration, info.creation_date@) matches Ok(at)
                &&& !is_late(at, now)
                &&& info.offset == Some(offset)
                &&& !req.contains_key(H_UPLOAD_LENGTH@)
            }
            ||| {
                &&& turn.state matches PatchState::Declaring { offset: at, max_size: max, info: known, .. }
                &&& at == offset && max == max_size && known == info
                &&& event is LengthDeclared
            }
        }),
    ensures
        ({
            let next = turn.next(event, req, caps);
            let limited = info.size is Some || max_size > 0;
            &&& common::content_length(req) matches Err(e) ==> next == refused_for(turn, e)
            &&& common::content_length(req) matches Ok(length) ==> (length matches Some(length) ==> {
                let end = offset + length;
                &&& limited && end > u64::MAX ==> next == (Turn {
                    state: PatchState::Closed,
                    action: PatchAction::Abort(Fault::OffsetOverflow),
                    ..turn
                })
                &&& end <= u64::MAX && ((info.size matches Some(size) && end > size) || 0 < max_size
                    < end) ==> next == refused_for(
                    turn,
                    TusError::Protocol(ProtocolError::ErrMaxSizeExceeded),
                )
            })
        }),
{
}

/// The limit of an upload is the least of its length, where that is known, and of
/// the largest size, where there is one; without either there is none.
pub proof fn lemma_limit_of_upload(size: Option<u64>, max_size: u64)
    ensures
        size_limit(size, max_size) is None <==> size is None && max_size == 0,
        size_limit(size, max_size) matches Some(limit) ==> {
            &&& size matches Some(size) ==> limit <= size
            &&& max_size > 0 ==> limit <= max_size
            &&& size == Some(limit) || (max_size > 0 && limit == max_size)
        },
{
}

/// After any number of bytes, be that none, the upload ends so much further on.
/// If that is where it is to end, the hook for finished uploads is run for the
/// upload as it is known, with its new end; else the reply is sent. What was said
/// of the expiration of a finished upload stays. An end beyond what can be counted
/// is not answered.
pub proof fn lemma_after_the_write(
    turn: PatchTurn,
    offset: u64,
    info: UploadInfo,
    expires_at: Option<Timestamp>,
    count: u64,
    req: headers::Fields,
    caps: StoreCapabilities,
)
    requires
        turn.state == (PatchState::Writing { offset, info, expires_at }),
    ensures
        ({
            let next = turn.next(PatchEvent::Written(Ok(count)), req, caps);
            let end = offset + count;
            &&& end > u64::MAX ==> next == (Turn {
                state: PatchState::Closed,
                action: PatchAction::Abort(Fault::OffsetOverflow),
                ..turn
            })
            &&& end <= u64::MAX ==> {
                &&& next.status == Some(Status::Code(204))
                &&& text::parsed_u64(
                    headers::readable_text(next.fields, H_UPLOAD_OFFSET@),
                    H_UPLOAD_OFFSET,
                ) == Ok::<_, ProtocolError>(end as u64)
                &&& info.size == Some(end as u64) ==> {
                    &&& next.state is Finishing
                    &&& next.action == PatchAction::RunHook(
                        UploadInfo { offset: Some(end as u64), ..info },
                    )
                    &&& common::agree_on(turn.fields, next.fields, H_UPLOAD_EXPIRES@)
                }
                &&& info.size != Some(end as u64) ==> {
                    &&& next.state is Closed
                    &&& next.action is Respond
                    &&& expires_at matches Some(at) ==> expiration::tells_expiration(
                        next.fields,
                        at,
                    )
                }
                &&& expires_at is None ==> common::agree_on(
                    turn.fields,
                    next.fields,
                    H_UPLOAD_EXPIRES@,
                )
            }
        }),
{
    if offset + count <= u64::MAX {
        lemma_write_acknowledged(turn, count, req, caps);
        headers::lemma_names_differ(4, 8);
    }
}

/// A write goes on from the hook to the largest size, to the lock and to the store,
/// with what it has been told and with the reply as it is. An error of the lock or
/// of the store ends it with the status code of the error, whatever that is.
pub proof fn lemma_patch_goes_on(
    turn: PatchTurn,
    size: u64,
    code: u16,
    now: Timestamp,
    req: headers::Fields,
    caps: StoreCapabilities,
)
    ensures
        ({
            let failed = Turn {
                state: PatchState::Closed,
                action: PatchAction::Respond,
                status: Some(Status::Code(code)),
                fields: turn.fields,
            };
            &&& turn.state matches PatchState::Notifying { offset } ==> turn.next(
                PatchEvent::IncomingNotified,
                req,
                caps,
            ) == (Turn {
                state: PatchState::Sizing { offset },
                action: PatchAction::AskMaxSize,
                ..turn
            })
            &&& turn.state matches PatchState::Sizing { offset } ==> turn.next(
                PatchEvent::MaxSize(size),
                req,
                caps,
            ) == (Turn {
                state: PatchState::Locking { offset, max_size: size },
                action: PatchAction::Lock,
                ..turn
            })
            &&& turn.state matches PatchState::Locking { offset, max_size } ==> turn.next(
                PatchEvent::Locked(Ok(())),
                req,
                caps,
            ) == (Turn {
                state: PatchState::Inspecting { offset, max_size },
                action: PatchAction::Inspect,
                ..turn
            })
            &&& turn.state is Locking ==> turn.next(PatchEvent::Locked(Err(code)), req, caps)
                == failed
            &&& turn.state is Inspecting ==> turn.next(
                PatchEvent::Inspected(Err(code), now),
                req,
                caps,
            ) == failed
            &&& turn.state is Writing ==> turn.next(PatchEvent::Written(Err(code)), req, caps)
                == failed
        }),
{
}

/// After the hook for finished uploads the reply is sent: as it is where there is
/// no hook, and else with the status and the fields that the hook leaves.
pub proof fn lemma_after_the_hook(
    turn: PatchTurn,
    outcome: Result<FinishPatch, u16>,
    req: headers::Fields,
    caps: StoreCapabilities,
)
    requires
        turn.state is Finishing,
    ensures
        turn.next(PatchEvent::HookRan(None), req, caps) == (Turn {
            state: PatchState::Closed,
            action: PatchAction::Respond,
            ..turn
        }),
        turn.next(PatchEvent::HookRan(Some(outcome)), req, caps) == (Turn {
            state: PatchState::Closed,
            action: PatchAction::Respond,
            status: finish::hook_status(turn.status, outcome),
            fields: finish::hook_fields(turn.fields, outcome),
        }),
{
}

/// Before the hook for finished uploads, a write touches no field of its reply but
/// those that tell where the upload ends and when it expires.
pub proof fn lemma_write_touches_two_fields(
    turn: PatchTurn,
    event: PatchEvent,
    req: headers::Fields,
    caps: StoreCapabilities,
    name: Seq<char>,
)
    requires
        !(event is HookRan),
        name != H_UPLOAD_OFFSET@,
        name != H_UPLOAD_EXPIRES@,
    ensures
        common::agree_on(turn.fields, turn.next(event, req, caps).fields, name),
{
}

/// An event that a request does not wait for changes nothing, and a request that
/// has come to its end waits for none.
pub proof fn lemma_unexpected_event(
    turn: PatchTurn,
    event: PatchEvent,
    req: headers::Fields,
    caps: StoreCapabilities,
)
    ensures
        !turn.state.awaits(event) ==> turn.next(event, req, caps) == turn,
        turn.state is Closed ==> turn.next(event, req, caps) == turn,
{
}

} // verus!
