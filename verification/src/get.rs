//! Fetching the content of an upload: the `GET` request.
//!
//! [`get`] looks at the request and says what to do first. Whatever has to be
//! done then, the caller does, and tells [`GetState::step`] what came of it.

use salvo_core::http::HeaderMap;
use vstd::prelude::*;

use crate::common;
use crate::common::{Reply, Turn, TusOptions};
use crate::error::{InternalError, Status, TusError, STATUS_FORBIDDEN};
use crate::headers;
use crate::headers::H_TUS_RESUMABLE;
use crate::text;
use crate::text::TUS_VERSION;
use crate::upload::UploadInfo;

verus! {

/// The storage whose content can be sent.
pub const FILE_STORAGE: &'static str = "file";

/// What is still to be found out.
#[derive(Clone, Copy, Debug, PartialEq, Eq, Structural)]
pub enum GetState {
    /// The hook for incoming requests is to be told.
    Notifying,
    /// The upload is to be locked.
    Locking,
    /// The store is to say what it knows of the upload.
    Inspecting,
    /// Nothing is left to do.
    Closed,
}

/// What came of an action.
#[derive(Debug)]
pub enum GetEvent {
    IncomingNotified,
    /// Whether the upload is locked now, or else the status code of the error.
    Locked(Result<(), u16>),
    /// What the store knows of the upload, or else the status code of the error.
    Inspected(Result<UploadInfo, u16>),
}

/// What is to be done next.
#[derive(Debug)]
pub enum GetAction {
    /// Tell the hook for incoming requests.
    NotifyIncoming,
    /// Lock the upload for reading.
    Lock,
    /// Ask the store what it knows of the upload; the lock is not needed any
    /// longer.
    Inspect,
    /// Send the reply with the file at this path.
    SendFile(String),
    /// Send the reply.
    Respond,
}

/// A request in progress.
pub type GetTurn = Turn<GetState, GetAction>;

/// Whether some of an upload is still to come, as far as that is known. An
/// upload without a length is never complete.
pub open spec fn is_partial(offset: Option<u64>, size: Option<u64>) -> bool {
    match (offset, size) {
        (Some(offset), Some(size)) => offset < size,
        (_, None) => true,
        (None, Some(_)) => false,
    }
}

impl Turn<GetState, GetAction> {
    /// The request is answered with this status.
    pub open spec fn answered(self, status: Status) -> GetTurn {
        self.with_status(GetState::Closed, GetAction::Respond, status)
    }

    /// The store has said what it knows of the upload.
    pub open spec fn inspected(self, info: UploadInfo) -> GetTurn {
        if is_partial(info.offset, info.size) {
            self.answered(Status::Code(STATUS_FORBIDDEN))
        } else {
            match info.storage {
                None => self.answered(
                    Status::Failure(TusError::Internal(InternalError::StorageMissing)),
                ),
                Some(storage) => if storage.kind@ != FILE_STORAGE@ {
                    self.answered(
                        Status::Failure(
                            TusError::Internal(InternalError::UnsupportedStorage(storage.kind)),
                        ),
                    )
                } else {
                    self.goes_on(GetState::Closed, GetAction::SendFile(storage.path))
                },
            }
        }
    }

    /// The request after what came of its last action has been told.
    pub open spec fn next(self, event: GetEvent) -> GetTurn {
        match (self.state, event) {
            (GetState::Notifying, GetEvent::IncomingNotified) => self.goes_on(
                GetState::Locking,
                GetAction::Lock,
            ),
            (GetState::Locking, GetEvent::Locked(Ok(_))) => self.goes_on(
                GetState::Inspecting,
                GetAction::Inspect,
            ),
            (GetState::Locking, GetEvent::Locked(Err(code))) => self.answered(Status::Code(code)),
            (GetState::Inspecting, GetEvent::Inspected(Ok(info))) => self.inspected(info),
            (GetState::Inspecting, GetEvent::Inspected(Err(code))) => self.answered(
                Status::Code(code),
            ),
            _ => self,
        }
    }
}

/// Begins to handle a `GET` request. `id` says whether the request names an
/// upload, or else the status code of the error.
pub fn get(id: Result<(), u16>, req: &HeaderMap, opts: &TusOptions, reply: &mut Reply) -> (begun: (
    GetState,
    GetAction,
))
    requires
        headers::has_room(old(reply).fields(), 6),
    ensures
        common::entered(*old(reply), *final(reply), headers::fields(*req), *opts, None, id),
        begun == if common::enters(headers::fields(*req), None, id) {
            (GetState::Notifying, GetAction::NotifyIncoming)
        } else {
            (GetState::Closed, GetAction::Respond)
        },
        begun.1 is NotifyIncoming <==> headers::readable_text(
            headers::fields(*req),
            H_TUS_RESUMABLE@,
        ) == Some(TUS_VERSION@) && id is Ok,
{
    if common::enter(req, opts, None, id, reply) {
        (GetState::Notifying, GetAction::NotifyIncoming)
    } else {
        (GetState::Closed, GetAction::Respond)
    }
}

impl GetState {
    /// Whether the event tells what came of what the state waits for.
    pub open spec fn awaits(self, event: GetEvent) -> bool {
        match self {
            GetState::Notifying => event is IncomingNotified,
            GetState::Locking => event is Locked,
            GetState::Inspecting => event is Inspected,
            GetState::Closed => false,
        }
    }

    /// Goes on after what the state waits for has happened. Any other event changes
    /// nothing, and calls for nothing but the reply.
    pub fn step(self, event: GetEvent, reply: &mut Reply) -> (next: (GetState, GetAction))
        ensures
            final(reply).turn(next.0, next.1) == old(reply).turn(self, GetAction::Respond).next(
                event,
            ),
            final(reply).headers == old(reply).headers,
    {
        match (self, event) {
            (GetState::Notifying, GetEvent::IncomingNotified) => (
                GetState::Locking,
                GetAction::Lock,
            ),
            (GetState::Locking, GetEvent::Locked(locked)) => match locked {
                Ok(_) => (GetState::Inspecting, GetAction::Inspect),
                Err(code) => {
                    reply.status_code = Some(Status::Code(code));
                    (GetState::Closed, GetAction::Respond)
                },
            },
            (GetState::Inspecting, GetEvent::Inspected(info)) => match info {
                Ok(info) => Self::inspected(info, reply),
                Err(code) => {
                    reply.status_code = Some(Status::Code(code));
                    (GetState::Closed, GetAction::Respond)
                },
            },
            (state, _) => (state, GetAction::Respond),
        }
    }

    fn inspected(info: UploadInfo, reply: &mut Reply) -> (next: (GetState, GetAction))
        ensures
            forall|state: GetState, action: GetAction|
                final(reply).turn(next.0, next.1) == #[trigger] old(reply).turn(
                    state,
                    action,
                ).inspected(info),
            final(reply).headers == old(reply).headers,
    {
        // Uploads that are not complete are not served.
        let partial = match (info.offset, info.size) {
            (Some(offset), Some(size)) => offset < size,
            (_, None) => true,
            _ => false,
        };
        if partial {
            reply.status_code = Some(Status::Code(STATUS_FORBIDDEN));
            return (GetState::Closed, GetAction::Respond);
        }
        match info.storage {
            Some(storage) => {
                if !text::same_text(storage.kind.as_str(), FILE_STORAGE) {
                    reply.status_code = Some(
                        Status::Failure(
                            TusError::Internal(InternalError::UnsupportedStorage(storage.kind)),
                        ),
                    );
                    return (GetState::Closed, GetAction::Respond);
                }
                (GetState::Closed, GetAction::SendFile(storage.path))
            },
            None => {
                reply.status_code = Some(
                    Status::Failure(TusError::Internal(InternalError::StorageMissing)),
                );
                (GetState::Closed, GetAction::Respond)
            },
        }
    }
}

/// An upload is sent if and only if all of it is there, as far as that is known,
/// and it is a file; then the file of the upload is sent.
pub proof fn lemma_only_complete_files_sent(turn: GetTurn, info: UploadInfo)
    requires
        turn.state is Inspecting,
    ensures
        turn.next(GetEvent::Inspected(Ok(info))).action is SendFile <==> {
            &&& !is_partial(info.offset, info.size)
            &&& info.storage matches Some(storage)
            &&& storage.kind@ == FILE_STORAGE@
        },
        turn.next(GetEvent::Inspected(Ok(info))).action matches GetAction::SendFile(path)
            ==> path == info.storage->0.path,
        is_partial(info.offset, info.size) ==> turn.next(GetEvent::Inspected(Ok(info))).status
            == Some(Status::Code(STATUS_FORBIDDEN)),
{
}

impl GetState {
    /// How many events a request in this state can wait for.
    pub open spec fn remaining(self) -> nat {
        match self {
            GetState::Notifying => 3,
            GetState::Locking => 2,
            GetState::Inspecting => 1,
            GetState::Closed => 0,
        }
    }
}

/// The store is asked what it knows of an upload if and only if the upload has
/// just been locked.
pub proof fn lemma_inspected_under_lock(turn: GetTurn, event: GetEvent)
    requires
        turn.state.awaits(event),
    ensures
        turn.next(event).action is Inspect <==> turn.state is Locking
            && event matches GetEvent::Locked(Ok(_)),
{
}

/// Each event brings a request nearer to its end, at which there is a reply with
/// a status, or a file.
pub proof fn lemma_get_ends(turn: GetTurn, event: GetEvent)
    requires
        turn.state.awaits(event),
    ensures
        turn.next(event).state.remaining() < turn.state.remaining(),
        turn.next(event).state is Closed ==> turn.next(event).action is SendFile || (turn.next(
            event,
        ).action is Respond && turn.next(event).status is Some),
{
}

/// A file is sent only if the upload has a length and, where it is known how much
/// of it is there, that is not less. An upload of which less is there, or which
/// has no length, is forbidden.
pub proof fn lemma_no_partial_file_sent(turn: GetTurn, info: UploadInfo, offset: u64, size: u64)
    requires
        turn.state is Inspecting,
    ensures
        ({
            let next = turn.next(GetEvent::Inspected(Ok(info)));
            let forbidden = {
                &&& next.state is Closed
                &&& next.action is Respond
                &&& next.status == Some(Status::Code(403))
                &&& next.fields == turn.fields
            };
            &&& info.offset == Some(offset) && info.size == Some(size) && offset < size ==> forbidden
            &&& info.size is None ==> forbidden
            &&& info.offset == Some(offset) && info.size == Some(size) && next.action is SendFile
                ==> offset >= size
        }),
{
}

/// An upload with a length, of which not less is there as far as is known, is sent
/// where it is a file, with the reply as it is; without a storage, or in another
/// one, it cannot be sent, and the reply says why.
pub proof fn lemma_complete_upload_sent(turn: GetTurn, info: UploadInfo)
    requires
        turn.state is Inspecting,
        info.size is Some,
        info.offset is None || info.offset->0 >= info.size->0,
    ensures
        ({
            let next = turn.next(GetEvent::Inspected(Ok(info)));
            &&& next.state is Closed
            &&& next.fields == turn.fields
            &&& info.storage is None ==> {
                &&& next.action is Respond
                &&& next.status == Some(
                    Status::Failure(TusError::Internal(InternalError::StorageMissing)),
                )
            }
            &&& info.storage is Some && (info.storage->0).kind@ == "file"@ ==> {
                &&& next.action == GetAction::SendFile((info.storage->0).path)
                &&& next.status == turn.status
            }
            &&& info.storage is Some && (info.storage->0).kind@ != "file"@ ==> {
                &&& next.action is Respond
                &&& next.status == Some(
                    Status::Failure(
                        TusError::Internal(
                            InternalError::UnsupportedStorage((info.storage->0).kind),
                        ),
                    ),
                )
            }
        }),
{
}

/// A request goes on from the hook to the lock, and from the lock to the store,
/// with the reply as it is. An error of the lock or of the store ends it with the
/// status code of the error, whatever that is.
pub proof fn lemma_get_goes_on(turn: GetTurn, code: u16)
    ensures
        turn.state is Notifying ==> turn.next(GetEvent::IncomingNotified) == (Turn {
            state: GetState::Locking,
            action: GetAction::Lock,
            ..turn
        }),
        turn.state is Locking ==> turn.next(GetEvent::Locked(Ok(()))) == (Turn {
            state: GetState::Inspecting,
            action: GetAction::Inspect,
            ..turn
        }),
        turn.state is Locking ==> turn.next(GetEvent::Locked(Err(code))) == (Turn {
            state: GetState::Closed,
            action: GetAction::Respond,
            status: Some(Status::Code(code)),
            fields: turn.fields,
        }),
        turn.state is Inspecting ==> turn.next(GetEvent::Inspected(Err(code))) == (Turn {
            state: GetState::Closed,
            action: GetAction::Respond,
            status: Some(Status::Code(code)),
            fields: turn.fields,
        }),
{
}

/// An event that a request does not wait for changes nothing, and a request that
/// has come to its end waits for none.
pub proof fn lemma_unexpected_event(
    turn: GetTurn,
    event: GetEvent,
)
    ensures
        !turn.state.awaits(event) ==> turn.next(event) == turn,
        turn.state is Closed ==> turn.next(event) == turn,
{
}

} // verus!
