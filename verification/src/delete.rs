//! Removing an upload: the `DELETE` request.
//!
//! [`delete`] looks at the request and says what to do first. Whatever has to be
//! done then, the caller does, and tells [`DeleteState::step`] what came of it.

use salvo_core::http::HeaderMap;
use vstd::prelude::*;

use crate::common;
use crate::common::{Reply, Turn, TusOptions};
use crate::error::{ProtocolError, Status, TusError, STATUS_FORBIDDEN, STATUS_NO_CONTENT};
use crate::expiration;
use crate::headers;
use crate::headers::H_TUS_RESUMABLE;
use crate::text::TUS_VERSION;
use crate::upload::{StoreCapabilities, UploadInfo};

verus! {

/// What is still to be found out or done.
#[derive(Clone, Copy, Debug, PartialEq, Eq, Structural)]
pub enum DeleteState {
    /// The hook for incoming requests is to be told.
    Notifying,
    /// The upload is to be locked.
    Locking,
    /// The store is to say what it knows of the upload.
    Inspecting,
    /// The store is to remove the upload.
    Removing,
    /// The locker is to forget the upload.
    Forgetting,
    /// Nothing is left to do.
    Closed,
}

/// What came of an action.
#[derive(Debug)]
pub enum DeleteEvent {
    IncomingNotified,
    /// Whether the upload is locked now, or else the status code of the error.
    Locked(Result<(), u16>),
    /// What the store knows of the upload, or else the status code of the error.
    Inspected(Result<UploadInfo, u16>),
    /// Whether the upload is removed, or else the status code of the error.
    Removed(Result<(), u16>),
    LockForgotten,
}

/// What is to be done next.
#[derive(Clone, Copy, Debug, PartialEq, Eq, Structural)]
pub enum DeleteAction {
    /// Tell the hook for incoming requests.
    NotifyIncoming,
    /// Lock the upload for writing.
    Lock,
    /// Ask the store what it knows of the upload.
    Inspect,
    /// Tell the store to remove the upload.
    Remove,
    /// Give the lock back, and tell the locker to forget the upload.
    ForgetLock,
    /// Send the reply.
    Respond,
}

/// A request in progress.
pub type DeleteTurn = Turn<DeleteState, DeleteAction>;

/// What bars the removal of uploads.
pub open spec fn removal_bar(caps: StoreCapabilities) -> Option<TusError> {
    if caps.termination {
        None
    } else {
        Some(TusError::Protocol(ProtocolError::UnsupportedTerminationExtension))
    }
}

impl Turn<DeleteState, DeleteAction> {
    /// The request is answered with this status.
    pub open spec fn answered(self, status: Status) -> DeleteTurn {
        self.with_status(DeleteState::Closed, DeleteAction::Respond, status)
    }

    /// The upload is removed.
    pub open spec fn removes(self) -> DeleteTurn {
        self.goes_on(DeleteState::Removing, DeleteAction::Remove)
    }

    /// The request after what came of its last action has been told. Where
    /// finished uploads must not be removed, the store is asked whether this is
    /// one; if it does not know the upload, the upload is removed all the same.
    pub open spec fn next(self, event: DeleteEvent, opts: TusOptions) -> DeleteTurn {
        match (self.state, event) {
            (DeleteState::Notifying, DeleteEvent::IncomingNotified) => self.goes_on(
                DeleteState::Locking,
                DeleteAction::Lock,
            ),
            (
                DeleteState::Locking,
                DeleteEvent::Locked(Ok(_)),
            ) => if opts.disable_termination_for_finished_uploads {
                self.goes_on(DeleteState::Inspecting, DeleteAction::Inspect)
            } else {
                self.removes()
            },
            (DeleteState::Locking, DeleteEvent::Locked(Err(code))) => self.answered(
                Status::Code(code),
            ),
            (
                DeleteState::Inspecting,
                DeleteEvent::Inspected(Ok(info)),
            ) => if expiration::is_finished(info.offset, info.size) {
                self.answered(Status::Code(STATUS_FORBIDDEN))
            } else {
                self.removes()
            },
            (DeleteState::Inspecting, DeleteEvent::Inspected(Err(_))) => self.removes(),
            (DeleteState::Removing, DeleteEvent::Removed(Ok(_))) => self.with_status(
                DeleteState::Forgetting,
                DeleteAction::ForgetLock,
                Status::Code(STATUS_NO_CONTENT),
            ),
            (DeleteState::Removing, DeleteEvent::Removed(Err(code))) => self.answered(
                Status::Code(code),
            ),
            (DeleteState::Forgetting, DeleteEvent::LockForgotten) => self.goes_on(
                DeleteState::Closed,
                DeleteAction::Respond,
            ),
            _ => self,
        }
    }
}

/// Begins to handle a `DELETE` request. `id` says whether the request names an
/// upload, or else the status code of the error.
pub fn delete(
    id: Result<(), u16>,
    req: &HeaderMap,
    opts: &TusOptions,
    caps: StoreCapabilities,
    reply: &mut Reply,
) -> (begun: (DeleteState, DeleteAction))
    requires
        headers::has_room(old(reply).fields(), 6),
    ensures
        common::entered(
            *old(reply),
            *final(reply),
            headers::fields(*req),
            *opts,
            removal_bar(caps),
            id,
        ),
        begun == if common::enters(headers::fields(*req), removal_bar(caps), id) {
            (DeleteState::Notifying, DeleteAction::NotifyIncoming)
        } else {
            (DeleteState::Closed, DeleteAction::Respond)
        },
        begun.1 is NotifyIncoming <==> headers::readable_text(
            headers::fields(*req),
            H_TUS_RESUMABLE@,
        ) == Some(TUS_VERSION@) && id is Ok && caps.termination,
        final(reply).turn(begun.0, begun.1).begins(),
{
    let bar = if caps.termination {
        None
    } else {
        Some(TusError::Protocol(ProtocolError::UnsupportedTerminationExtension))
    };
    if common::enter(req, opts, bar, id, reply) {
        (DeleteState::Notifying, DeleteAction::NotifyIncoming)
    } else {
        (DeleteState::Closed, DeleteAction::Respond)
    }
}

impl DeleteState {
    /// Whether the event tells what came of what the state waits for.
    pub open spec fn awaits(self, event: DeleteEvent) -> bool {
        match self {
            DeleteState::Notifying => event is IncomingNotified,
            DeleteState::Locking => event is Locked,
            DeleteState::Inspecting => event is Inspected,
            DeleteState::Removing => event is Removed,
            DeleteState::Forgetting => event is LockForgotten,
            DeleteState::Closed => false,
        }
    }

    /// Goes on after what the state waits for has happened. Any other event changes
    /// nothing, and calls for nothing but the reply.
    pub fn step(self, event: DeleteEvent, opts: &TusOptions, reply: &mut Reply) -> (next: (
        DeleteState,
        DeleteAction,
    ))
        ensures
            final(reply).turn(next.0, next.1) == old(reply).turn(
                self,
                DeleteAction::Respond,
            ).next(event, *opts),
            final(reply).headers == old(reply).headers,
    {
        match (self, event) {
            (DeleteState::Notifying, DeleteEvent::IncomingNotified) => (
                DeleteState::Locking,
                DeleteAction::Lock,
            ),
            (DeleteState::Locking, DeleteEvent::Locked(locked)) => match locked {
                Ok(_) => if opts.disable_termination_for_finished_uploads {
                    (DeleteState::Inspecting, DeleteAction::Inspect)
                } else {
                    (DeleteState::Removing, DeleteAction::Remove)
                },
                Err(code) => {
                    reply.status_code = Some(Status::Code(code));
                    (DeleteState::Closed, DeleteAction::Respond)
                },
            },
            (DeleteState::Inspecting, DeleteEvent::Inspected(info)) => {
                if let Ok(info) = info {
                    if let (Some(size), Some(offset)) = (info.size, info.offset) {
                        if size == offset {
                            reply.status_code = Some(Status::Code(STATUS_FORBIDDEN));
                            return (DeleteState::Closed, DeleteAction::Respond);
                        }
                    }
                }
                (DeleteState::Removing, DeleteAction::Remove)
            },
            (DeleteState::Removing, DeleteEvent::Removed(removed)) => match removed {
                Ok(_) => {
                    reply.status_code = Some(Status::Code(STATUS_NO_CONTENT));
                    (DeleteState::Forgetting, DeleteAction::ForgetLock)
                },
                Err(code) => {
                    reply.status_code = Some(Status::Code(code));
                    (DeleteState::Closed, DeleteAction::Respond)
                },
            },
            (DeleteState::Forgetting, DeleteEvent::LockForgotten) => (
                DeleteState::Closed,
                DeleteAction::Respond,
            ),
            (state, _) => (state, DeleteAction::Respond),
        }
    }
}

/// Where finished uploads must not be removed, an upload is removed only after
/// the store has been asked whether it is one, and has not said that it is.
pub proof fn lemma_finished_upload_is_spared(turn: DeleteTurn, event: DeleteEvent, opts: TusOptions)
    requires
        turn.state.awaits(event),
        opts.disable_termination_for_finished_uploads,
        turn.next(event, opts).action is Remove,
    ensures
        turn.state is Inspecting,
        event matches DeleteEvent::Inspected(Ok(info)) ==> !expiration::is_finished(
            info.offset,
            info.size,
        ),
{
}

/// The locker forgets an upload if and only if the upload has just been removed,
/// and the removal is acknowledged.
pub proof fn lemma_lock_forgotten_after_removal(
    turn: DeleteTurn,
    event: DeleteEvent,
    opts: TusOptions,
)
    requires
        turn.state.awaits(event),
    ensures
        turn.next(event, opts).action is ForgetLock <==> event matches DeleteEvent::Removed(Ok(_)),
        turn.next(event, opts).action is ForgetLock ==> turn.next(event, opts).status == Some(
            Status::Code(STATUS_NO_CONTENT),
        ),
{
}

impl DeleteState {
    /// How many events a request in this state can wait for.
    pub open spec fn remaining(self) -> nat {
        match self {
            DeleteState::Notifying => 5,
            DeleteState::Locking => 4,
            DeleteState::Inspecting => 3,
            DeleteState::Removing => 2,
            DeleteState::Forgetting => 1,
            DeleteState::Closed => 0,
        }
    }
}

/// Each event brings a request nearer to its end, at which there is a reply with
/// a status. A request that has been acknowledged stays so.
pub proof fn lemma_delete_ends(turn: DeleteTurn, event: DeleteEvent, opts: TusOptions)
    requires
        turn.state.awaits(event),
        turn.state is Forgetting ==> turn.status is Some,
    ensures
        turn.next(event, opts).state.remaining() < turn.state.remaining(),
        turn.next(event, opts).state is Closed || turn.next(event, opts).state is Forgetting
            ==> turn.next(event, opts).status is Some,
        turn.state is Forgetting ==> turn.next(event, opts).status == turn.status,
{
}

impl Turn<DeleteState, DeleteAction> {
    /// Whether this is how a request is begun, or answered at once.
    pub open spec fn begins(self) -> bool {
        ||| self.state is Notifying && self.action is NotifyIncoming
        ||| self.state is Closed && self.action is Respond
    }

    /// The request after these events.
    pub open spec fn after(self, events: Seq<DeleteEvent>, opts: TusOptions) -> DeleteTurn
        decreases events.len(),
    {
        if events.len() == 0 {
            self
        } else {
            self.after(events.drop_last(), opts).next(events.last(), opts)
        }
    }

    /// Whether each of the events is what the request waits for when it comes.
    pub open spec fn accepts(self, events: Seq<DeleteEvent>, opts: TusOptions) -> bool
        decreases events.len(),
    {
        events.len() > 0 ==> {
            &&& self.accepts(events.drop_last(), opts)
            &&& self.after(events.drop_last(), opts).state.awaits(events.last())
        }
    }
}

/// How often the store has said that the upload is removed.
pub open spec fn removals(events: Seq<DeleteEvent>) -> nat
    decreases events.len(),
{
    if events.len() == 0 {
        0
    } else if events.last() matches DeleteEvent::Removed(Ok(_)) {
        removals(events.drop_last()) + 1
    } else {
        removals(events.drop_last())
    }
}

/// Whatever happens to a request, the locker is told to forget the upload if and
/// only if the store was told to remove it and has just done so, and that happens
/// at most once. Where the request is refused, or the removal fails, the locker
/// is not told.
pub proof fn lemma_lock_forgotten_once(
    turn: DeleteTurn,
    events: Seq<DeleteEvent>,
    opts: TusOptions,
)
    requires
        turn.begins(),
        turn.accepts(events, opts),
    ensures
        ({
            let last = turn.after(events, opts);
            &&& last.action is ForgetLock <==> events.len() > 0 && (
            events.last() matches DeleteEvent::Removed(Ok(_)))
            &&& events.len() > 0 && last.action is ForgetLock ==> turn.after(
                events.drop_last(),
                opts,
            ).action is Remove && removals(events.drop_last()) == 0
            &&& last.action is Remove <==> last.state is Removing
            &&& removals(events) <= 1
            &&& removals(events) == 1 ==> last.state is Forgetting || last.state is Closed
        }),
    decreases events.len(),
{
    if events.len() > 0 {
        lemma_lock_forgotten_once(turn, events.drop_last(), opts);
    }
}

/// Uploads can be removed if and only if the store has the termination extension.
pub proof fn lemma_removal_barred(caps: StoreCapabilities)
    ensures
        caps.termination ==> removal_bar(caps) is None,
        !caps.termination ==> removal_bar(caps) == Some(
            TusError::Protocol(ProtocolError::UnsupportedTerminationExtension),
        ),
{
}

/// Once it is locked, an upload is removed, whatever it is, unless finished uploads
/// must not be. Then an upload is spared if and only if the store says that it ends
/// where it is to end; an upload of which less, more or nothing is known to be
/// there, or of which the store knows nothing, is removed.
pub proof fn lemma_what_is_removed(
    turn: DeleteTurn,
    info: UploadInfo,
    code: u16,
    opts: TusOptions,
)
    ensures
        ({
            let removing = Turn {
                state: DeleteState::Removing,
                action: DeleteAction::Remove,
                ..turn
            };
            let complete = match (info.offset, info.size) {
                (Some(offset), Some(size)) => offset == size,
                _ => false,
            };
            let locked = turn.next(DeleteEvent::Locked(Ok(())), opts);
            let known = turn.next(DeleteEvent::Inspected(Ok(info)), opts);
            let unknown = turn.next(DeleteEvent::Inspected(Err(code)), opts);
            &&& turn.state is Locking && !opts.disable_termination_for_finished_uploads ==> locked
                == removing
            &&& turn.state is Locking && opts.disable_termination_for_finished_uploads ==> locked
                == (Turn { state: DeleteState::Inspecting, action: DeleteAction::Inspect, ..turn })
            &&& turn.state is Inspecting && complete ==> known == (Turn {
                state: DeleteState::Closed,
                action: DeleteAction::Respond,
                status: Some(Status::Code(403)),
                fields: turn.fields,
            })
            &&& turn.state is Inspecting && !complete ==> known == removing
            &&& turn.state is Inspecting ==> unknown == removing
        }),
{
}

/// A removal is acknowledged without content, and then the lock is forgotten. An
/// error of the lock or of the removal ends the request with the status code of
/// the error, whatever that is. No step changes a header field.
pub proof fn lemma_delete_goes_on(
    turn: DeleteTurn,
    event: DeleteEvent,
    code: u16,
    opts: TusOptions,
)
    ensures
        turn.next(event, opts).fields == turn.fields,
        turn.state is Notifying ==> turn.next(DeleteEvent::IncomingNotified, opts) == (Turn {
            state: DeleteState::Locking,
            action: DeleteAction::Lock,
            ..turn
        }),
        turn.state is Locking ==> turn.next(DeleteEvent::Locked(Err(code)), opts) == (Turn {
            state: DeleteState::Closed,
            action: DeleteAction::Respond,
            status: Some(Status::Code(code)),
            fields: turn.fields,
        }),
        turn.state is Removing ==> turn.next(DeleteEvent::Removed(Err(code)), opts) == (Turn {
            state: DeleteState::Closed,
            action: DeleteAction::Respond,
            status: Some(Status::Code(code)),
            fields: turn.fields,
        }),
        turn.state is Removing ==> turn.next(DeleteEvent::Removed(Ok(())), opts) == (Turn {
            state: DeleteState::Forgetting,
            action: DeleteAction::ForgetLock,
            status: Some(Status::Code(204)),
            fields: turn.fields,
        }),
        turn.state is Forgetting ==> turn.next(DeleteEvent::LockForgotten, opts) == (Turn {
            state: DeleteState::Closed,
            action: DeleteAction::Respond,
            ..turn
        }),
{
}

/// An event that a request does not wait for changes nothing, and a request that
/// has come to its end waits for none.
pub proof fn lemma_unexpected_event(
    turn: DeleteTurn,
    event: DeleteEvent,
    opts: TusOptions,
)
    ensures
        !turn.state.awaits(event) ==> turn.next(event, opts) == turn,
        turn.state is Closed ==> turn.next(event, opts) == turn,
{
}

} // verus!
