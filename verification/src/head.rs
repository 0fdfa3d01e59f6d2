//! Asking how far an upload is: the `HEAD` request.
//!
//! [`head`] looks at the request and says what to do first. Whatever has to be
//! done then, the caller does, and tells [`HeadState::step`] what came of it.

use salvo_core::http::HeaderMap;
use vstd::prelude::*;
use vstd::utf8::*;

use crate::common;
use crate::common::{Reply, Turn, TusOptions};
use crate::error::{InternalError, ProtocolError, Status, TusError, STATUS_OK};
use crate::expiration;
use crate::expiration::{ExpirationPolicy, Timestamp};
use crate::headers;
use crate::headers::{
    H_TUS_RESUMABLE, H_UPLOAD_DEFER_LENGTH, H_UPLOAD_EXPIRES, H_UPLOAD_LENGTH, H_UPLOAD_METADATA,
    H_UPLOAD_OFFSET,
};
use crate::metadata;
use crate::metadata::Metadata;
use crate::patch;
use crate::patch::{PatchEvent, PatchTurn};
use crate::text;
use crate::text::TUS_VERSION;
use crate::upload::{Fault, StoreCapabilities, UploadInfo};

verus! {

/// What is still to be found out.
#[derive(Clone, Copy, Debug, PartialEq, Eq, Structural)]
pub enum HeadState {
    /// The hook for incoming requests is to be told.
    Notifying,
    /// The upload is to be locked.
    Locking,
    /// The store is to say what it knows of the upload.
    Inspecting,
    /// Nothing is left to do.
    Closed,
}

/// What came of an action.
#[derive(Debug)]
pub enum HeadEvent {
    IncomingNotified,
    /// Whether the upload is locked now, or else the status code of the error.
    Locked(Result<(), u16>),
    /// What the store knows of the upload and whether its length is yet to be
    /// declared, or else the status code of the error; and what time it is.
    Inspected(Result<(UploadInfo, bool), u16>, Timestamp),
}

/// What is to be done next.
#[derive(Clone, Copy, Debug, PartialEq, Eq, Structural)]
pub enum HeadAction {
    /// Tell the hook for incoming requests.
    NotifyIncoming,
    /// Lock the upload for reading.
    Lock,
    /// Ask the store what it knows of the upload, and the clock for the time;
    /// the lock is not needed any longer.
    Inspect,
    /// Send the reply.
    Respond,
    /// Give up.
    Abort(Fault),
}

/// A request in progress.
pub type HeadTurn = Turn<HeadState, HeadAction>;

/// The text of the metadata field of a reply, where there is metadata.
pub open spec fn metadata_field(metadata: Option<Metadata>) -> Result<Option<Seq<char>>, Fault> {
    match metadata {
        Some(metadata) => if !metadata.spec_encodable() {
            Err(Fault::MetadataTooLong)
        } else if !headers::is_value_text(metadata::metadata_text(metadata@)) {
            Err(Fault::MetadataUnprintable)
        } else {
            Ok(Some(metadata::metadata_text(metadata@)))
        },
        None => Ok(None),
    }
}

/// Whether a header field can hold each of the keys of the metadata, where there
/// is metadata.
pub open spec fn has_printable_metadata(metadata: Option<Metadata>) -> bool {
    metadata matches Some(metadata) ==> metadata::has_printable_keys(metadata@)
}

/// The fields after the length of the upload has been told: that it is yet to be
/// declared, or what it is.
pub open spec fn with_length(
    f: headers::Fields,
    size: Option<u64>,
    deferred: bool,
) -> headers::Fields {
    if deferred {
        headers::put(f, H_UPLOAD_DEFER_LENGTH@, "1"@)
    } else if let Some(size) = size {
        headers::put(f, H_UPLOAD_LENGTH@, text::decimal(size as nat))
    } else {
        f
    }
}

/// The fields of a reply that tells how far an upload is.
pub open spec fn with_progress(
    f: headers::Fields,
    info: UploadInfo,
    deferred: bool,
    offset: u64,
    metadata: Option<Seq<char>>,
    expires_at: Option<Timestamp>,
) -> headers::Fields {
    let placed = with_length(
        headers::put(f, H_UPLOAD_OFFSET@, text::decimal(offset as nat)),
        info.size,
        deferred,
    );
    let described = match metadata {
        Some(text) => headers::put(placed, H_UPLOAD_METADATA@, text),
        None => placed,
    };
    match expires_at {
        Some(at) => expiration::with_expiration(described, at, info.offset, info.size),
        None => described,
    }
}

impl Turn<HeadState, HeadAction> {
    /// The request is answered with this status.
    pub open spec fn answered(self, status: Status) -> HeadTurn {
        self.with_status(HeadState::Closed, HeadAction::Respond, status)
    }

    /// The store has said what it knows of the upload.
    pub open spec fn inspected(
        self,
        policy: ExpirationPolicy,
        info: UploadInfo,
        deferred: bool,
        now: Timestamp,
    ) -> HeadTurn {
        match expiration::expiration(policy, info.creation_date@) {
            Err(_) => self.goes_on(
                HeadState::Closed,
                HeadAction::Abort(Fault::ExpirationOverflow),
            ),
            Ok(expires_at) => if expires_at matches Some(at) && now.spec_after(at) {
                self.answered(Status::Failure(TusError::FileNoLongerExists))
            } else {
                match info.offset {
                    None => self.answered(
                        Status::Failure(TusError::Internal(InternalError::OffsetMissing)),
                    ),
                    Some(offset) => match metadata_field(info.metadata) {
                        Err(fault) => self.goes_on(HeadState::Closed, HeadAction::Abort(fault)),
                        Ok(metadata) => Turn {
                            fields: with_progress(
                                self.fields,
                                info,
                                deferred,
                                offset,
                                metadata,
                                expires_at,
                            ),
                            ..self.answered(Status::Code(STATUS_OK))
                        },
                    },
                }
            },
        }
    }

    /// The request after what came of its last action has been told.
    pub open spec fn next(self, event: HeadEvent, policy: ExpirationPolicy) -> HeadTurn {
        match (self.state, event) {
            (HeadState::Notifying, HeadEvent::IncomingNotified) => self.goes_on(
                HeadState::Locking,
                HeadAction::Lock,
            ),
            (HeadState::Locking, HeadEvent::Locked(Ok(_))) => self.goes_on(
                HeadState::Inspecting,
                HeadAction::Inspect,
            ),
            (HeadState::Locking, HeadEvent::Locked(Err(code))) => self.answered(
                Status::Code(code),
            ),
            (
                HeadState::Inspecting,
                HeadEvent::Inspected(Ok((info, deferred)), now),
            ) => self.inspected(policy, info, deferred, now),
            (HeadState::Inspecting, HeadEvent::Inspected(Err(code), _)) => self.answered(
                Status::Code(code),
            ),
            _ => self,
        }
    }
}

/// Begins to handle a `HEAD` request. `id` says whether the request names an
/// upload, or else the status code of the error.
pub fn head(id: Result<(), u16>, req: &HeaderMap, opts: &TusOptions, reply: &mut Reply) -> (begun: (
    HeadState,
    HeadAction,
))
    requires
        headers::has_room(old(reply).fields(), 10),
    ensures
        common::entered(*old(reply), *final(reply), headers::fields(*req), *opts, None, id),
        begun == if common::enters(headers::fields(*req), None, id) {
            (HeadState::Notifying, HeadAction::NotifyIncoming)
        } else {
            (HeadState::Closed, HeadAction::Respond)
        },
        begun.1 is NotifyIncoming <==> headers::readable_text(
            headers::fields(*req),
            H_TUS_RESUMABLE@,
        ) == Some(TUS_VERSION@) && id is Ok,
        begun.0.wf(final(reply).fields()),
        final(reply).turn(begun.0, begun.1).begins(),
{
    if common::enter(req, opts, None, id, reply) {
        assert(headers::has_room(reply.fields(), 4));
        (HeadState::Notifying, HeadAction::NotifyIncoming)
    } else {
        (HeadState::Closed, HeadAction::Respond)
    }
}

/// Writes the text of the metadata field of a reply.
fn write_metadata(metadata: Option<Metadata>) -> (field: Result<Option<String>, Fault>)
    ensures
        match metadata_field(metadata) {
            Ok(Some(text)) => field matches Ok(Some(t)) && t@ == text,
            Ok(None) => field == Ok::<Option<String>, Fault>(None),
            Err(fault) => field == Err::<Option<String>, Fault>(fault),
        },
        field is Ok ==> has_printable_metadata(metadata),
        field matches Err(Fault::MetadataUnprintable) ==> !has_printable_metadata(metadata),
{
    match metadata {
        Some(metadata) => {
            if !metadata.encodable() {
                return Err(Fault::MetadataTooLong);
            }
            let text = Metadata::stringify(metadata);
            if headers::is_printable(text.as_str()) {
                Ok(Some(text))
            } else {
                Err(Fault::MetadataUnprintable)
            }
        },
        None => Ok(None),
    }
}

impl HeadState {
    /// Whether the event tells what came of what the state waits for.
    pub open spec fn awaits(self, event: HeadEvent) -> bool {
        match self {
            HeadState::Notifying => event is IncomingNotified,
            HeadState::Locking => event is Locked,
            HeadState::Inspecting => event is Inspected,
            HeadState::Closed => false,
        }
    }

    /// Whether there is room in the reply for the fields that are still to come.
    pub open spec fn wf(self, f: headers::Fields) -> bool {
        self is Closed || headers::has_room(f, 4)
    }

    /// Goes on after what the state waits for has happened. Any other event changes
    /// nothing, and calls for nothing but the reply.
    pub fn step(self, event: HeadEvent, policy: ExpirationPolicy, reply: &mut Reply) -> (next: (
        HeadState,
        HeadAction,
    ))
        requires
            self.wf(old(reply).fields()),
            policy.wf(),
        ensures
            final(reply).turn(next.0, next.1) == old(reply).turn(self, HeadAction::Respond).next(
                event,
                policy,
            ),
            next.0.wf(final(reply).fields()),
            // Only a key can make metadata unprintable, and each key that a header
            // field cannot hold does.
            self is Inspecting ==> (event matches HeadEvent::Inspected(Ok((info, _)), _) ==> {
                &&& next.1 == HeadAction::Abort(Fault::MetadataUnprintable)
                    ==> !has_printable_metadata(info.metadata)
                &&& final(reply).status_code == Some(Status::Code(STATUS_OK)) && next.1 is Respond
                    ==> has_printable_metadata(info.metadata)
            }),
    {
        match (self, event) {
            (HeadState::Notifying, HeadEvent::IncomingNotified) => (
                HeadState::Locking,
                HeadAction::Lock,
            ),
            (HeadState::Locking, HeadEvent::Locked(locked)) => match locked {
                Ok(_) => (HeadState::Inspecting, HeadAction::Inspect),
                Err(code) => {
                    reply.status_code = Some(Status::Code(code));
                    (HeadState::Closed, HeadAction::Respond)
                },
            },
            (HeadState::Inspecting, HeadEvent::Inspected(info, now)) => match info {
                Ok((info, deferred)) => Self::inspected(policy, info, deferred, now, reply),
                Err(code) => {
                    reply.status_code = Some(Status::Code(code));
                    (HeadState::Closed, HeadAction::Respond)
                },
            },
            (state, _) => (state, HeadAction::Respond),
        }
    }

    fn inspected(
        policy: ExpirationPolicy,
        info: UploadInfo,
        deferred: bool,
        now: Timestamp,
        reply: &mut Reply,
    ) -> (next: (HeadState, HeadAction))
        requires
            headers::has_room(old(reply).fields(), 4),
            policy.wf(),
        ensures
            forall|state: HeadState, action: HeadAction|
                final(reply).turn(next.0, next.1) == #[trigger] old(reply).turn(
                    state,
                    action,
                ).inspected(policy, info, deferred, now),
            next.0.wf(final(reply).fields()),
            next.1 == HeadAction::Abort(Fault::MetadataUnprintable) ==> !has_printable_metadata(
                info.metadata,
            ),
            final(reply).status_code == Some(Status::Code(STATUS_OK)) && next.1 is Respond
                ==> has_printable_metadata(info.metadata),
    {
        let expires_at = match expiration::checked_expiration(
            policy,
            info.creation_date.as_str(),
        ) {
            Ok(expires_at) => expires_at,
            Err(_) => {
                return (HeadState::Closed, HeadAction::Abort(Fault::ExpirationOverflow));
            },
        };
        if let Some(at) = expires_at {
            if now.after(at) {
                reply.status_code = Some(Status::Failure(TusError::FileNoLongerExists));
                return (HeadState::Closed, HeadAction::Respond);
            }
        }
        let offset = match info.offset {
            Some(offset) => offset,
            None => {
                reply.status_code = Some(
                    Status::Failure(TusError::Internal(InternalError::OffsetMissing)),
                );
                return (HeadState::Closed, HeadAction::Respond);
            },
        };
        let metadata = match write_metadata(info.metadata) {
            Ok(metadata) => metadata,
            Err(fault) => {
                return (HeadState::Closed, HeadAction::Abort(fault));
            },
        };
        proof {
            headers::lemma_field_names();
            reveal_strlit("1");
        }
        reply.status_code = Some(Status::Code(STATUS_OK));
        headers::write_number(&mut reply.headers, H_UPLOAD_OFFSET, offset);
        assert(headers::has_room(reply.fields(), 3));
        if deferred {
            headers::write_static(&mut reply.headers, H_UPLOAD_DEFER_LENGTH, "1");
        } else if let Some(size) = info.size {
            headers::write_number(&mut reply.headers, H_UPLOAD_LENGTH, size);
        }
        assert(headers::has_room(reply.fields(), 2));
        if let Some(text) = metadata {
            headers::write_text(&mut reply.headers, H_UPLOAD_METADATA, text.as_str());
        }
        assert(headers::has_room(reply.fields(), 1));
        if let Some(at) = expires_at {
            expiration::set_expiration_header(&mut reply.headers, at, info.offset, info.size);
        }
        (HeadState::Closed, HeadAction::Respond)
    }
}

impl HeadState {
    /// How many events a request in this state can wait for.
    pub open spec fn remaining(self) -> nat {
        match self {
            HeadState::Notifying => 3,
            HeadState::Locking => 2,
            HeadState::Inspecting => 1,
            HeadState::Closed => 0,
        }
    }
}

/// Each event brings a request nearer to its end, at which there is a reply with
/// a status, unless the request cannot be answered.
pub proof fn lemma_head_ends(turn: HeadTurn, event: HeadEvent, policy: ExpirationPolicy)
    requires
        turn.state.awaits(event),
    ensures
        turn.next(event, policy).state.remaining() < turn.state.remaining(),
        turn.next(event, policy).state is Closed ==> turn.next(event, policy).action is Abort || (
        turn.next(event, policy).action is Respond && turn.next(event, policy).status is Some),
{
}

/// The store is asked what it knows of an upload if and only if the upload has
/// just been locked.
pub proof fn lemma_inspected_under_lock(turn: HeadTurn, event: HeadEvent, policy: ExpirationPolicy)
    requires
        turn.state.awaits(event),
    ensures
        turn.next(event, policy).action is Inspect <==> turn.state is Locking
            && event matches HeadEvent::Locked(Ok(_)),
{
}

impl Turn<HeadState, HeadAction> {
    /// Whether this is how a request is begun, or answered at once.
    pub open spec fn begins(self) -> bool {
        ||| self.state is Notifying && self.action is NotifyIncoming
        ||| self.state is Closed && self.action is Respond
    }

    /// The request after these events.
    pub open spec fn after(self, events: Seq<HeadEvent>, policy: ExpirationPolicy) -> HeadTurn
        decreases events.len(),
    {
        if events.len() == 0 {
            self
        } else {
            self.after(events.drop_last(), policy).next(events.last(), policy)
        }
    }

    /// Whether each of the events is what the request waits for when it comes.
    pub open spec fn accepts(self, events: Seq<HeadEvent>, policy: ExpirationPolicy) -> bool
        decreases events.len(),
    {
        events.len() > 0 ==> {
            &&& self.accepts(events.drop_last(), policy)
            &&& self.after(events.drop_last(), policy).state.awaits(events.last())
        }
    }
}

/// A request that asks how far an upload is changes no upload: whatever happens,
/// all that is done besides telling the hook for incoming requests is to lock the
/// upload for reading, once, and to ask the store what it knows of it, once, if
/// the upload could be locked.
pub proof fn lemma_head_only_looks(
    turn: HeadTurn,
    events: Seq<HeadEvent>,
    policy: ExpirationPolicy,
)
    requires
        turn.begins(),
        turn.accepts(events, policy),
    ensures
        ({
            let last = turn.after(events, policy);
            &&& last.action is NotifyIncoming ==> events.len() == 0
            &&& last.action is Lock <==> events.len() == 1
            &&& last.action is Inspect <==> events.len() == 2 && (
            events[1] matches HeadEvent::Locked(Ok(_)))
            &&& events.len() > 2 ==> last.action is Respond || last.action is Abort
            &&& events.len() <= 3
        }),
    decreases events.len(),
{
    if events.len() > 0 {
        let rest = events.drop_last();
        lemma_head_only_looks(turn, rest, policy);
        lemma_head_state(turn, rest, policy);
        assert(events.last() == events[events.len() - 1]);
    }
}

/// Where a request stands after so many events.
proof fn lemma_head_state(turn: HeadTurn, events: Seq<HeadEvent>, policy: ExpirationPolicy)
    requires
        turn.begins(),
        turn.accepts(events, policy),
    ensures
        ({
            let state = turn.after(events, policy).state;
            &&& state is Notifying ==> events.len() == 0
            &&& state is Locking ==> events.len() == 1
            &&& state is Inspecting ==> events.len() == 2
        }),
    decreases events.len(),
{
    if events.len() > 0 {
        lemma_head_state(turn, events.drop_last(), policy);
    }
}

/// A reply that describes an upload tells how much of it is there, and either
/// that its length is yet to be declared or, where it is known, what it is. It
/// tells when the upload expires, unless all of it is there.
pub proof fn lemma_progress_told(
    turn: HeadTurn,
    info: UploadInfo,
    deferred: bool,
    now: Timestamp,
    policy: ExpirationPolicy,
)
    requires
        turn.state is Inspecting,
        turn.next(HeadEvent::Inspected(Ok((info, deferred)), now), policy).status == Some(
            Status::Code(STATUS_OK),
        ),
        turn.next(HeadEvent::Inspected(Ok((info, deferred)), now), policy).action is Respond,
    ensures
        info.offset is Some,
        ({
            let told = turn.next(HeadEvent::Inspected(Ok((info, deferred)), now), policy).fields;
            &&& headers::readable_text(told, H_UPLOAD_OFFSET@) == Some(
                text::decimal(info.offset->0 as nat),
            )
            &&& deferred ==> headers::readable_text(told, H_UPLOAD_DEFER_LENGTH@)
                == Some("1"@)
            &&& !deferred && info.size is Some ==> headers::readable_text(
                told,
                H_UPLOAD_LENGTH@,
            ) == Some(text::decimal(info.size->0 as nat))
            &&& info.metadata is Some && headers::is_visible_text(
                metadata::metadata_text(info.metadata->0@),
            ) ==> headers::readable_text(told, H_UPLOAD_METADATA@) == Some(
                metadata::metadata_text(info.metadata->0@),
            )
            &&& expiration::expiration(policy, info.creation_date@)->Ok_0 is Some
                && !expiration::is_finished(info.offset, info.size)
                ==> expiration::tells_expiration(
                told,
                (expiration::expiration(policy, info.creation_date@)->Ok_0)->0,
            )
        }),
{
    reveal_strlit("1");
    let offset = info.offset->0;
    let digits = text::decimal(offset as nat);
    headers::lemma_number_is_visible(offset as nat);
    headers::lemma_put_read_back(turn.fields, H_UPLOAD_OFFSET@, digits);
    let placed = headers::put(turn.fields, H_UPLOAD_OFFSET@, digits);
    headers::lemma_put_read_back(placed, H_UPLOAD_DEFER_LENGTH@, "1"@);
    if let Some(size) = info.size {
        headers::lemma_number_is_visible(size as nat);
        headers::lemma_put_read_back(placed, H_UPLOAD_LENGTH@, text::decimal(size as nat));
    }
    if let Some(metadata) = info.metadata {
        let text = metadata::metadata_text(metadata@);
        if headers::is_visible_text(text) {
            headers::lemma_put_read_back(with_length(placed, info.size, deferred), H_UPLOAD_METADATA@, text);
        }
    }
    headers::lemma_names_differ(4, 5);
    headers::lemma_names_differ(4, 6);
    headers::lemma_names_differ(4, 7);
    headers::lemma_names_differ(4, 8);
    headers::lemma_names_differ(5, 7);
    headers::lemma_names_differ(5, 8);
    headers::lemma_names_differ(6, 7);
    headers::lemma_names_differ(6, 8);
    headers::lemma_names_differ(7, 8);
}

/// A write is acknowledged with the offset that a client is told when it asks
/// how far the upload is, once the store knows of the write.
pub proof fn lemma_head_agrees_with_patch(
    write: PatchTurn,
    count: u64,
    req: headers::Fields,
    caps: StoreCapabilities,
    turn: HeadTurn,
    info: UploadInfo,
    deferred: bool,
    now: Timestamp,
    policy: ExpirationPolicy,
)
    requires
        write.state is Writing,
        write.state->Writing_offset + count <= u64::MAX,
        turn.state is Inspecting,
        info.offset == Some((write.state->Writing_offset + count) as u64),
        turn.next(HeadEvent::Inspected(Ok((info, deferred)), now), policy).status == Some(
            Status::Code(STATUS_OK),
        ),
        turn.next(HeadEvent::Inspected(Ok((info, deferred)), now), policy).action is Respond,
    ensures
        headers::readable_text(
            turn.next(HeadEvent::Inspected(Ok((info, deferred)), now), policy).fields,
            H_UPLOAD_OFFSET@,
        ) == headers::readable_text(
            write.next(PatchEvent::Written(Ok(count)), req, caps).fields,
            H_UPLOAD_OFFSET@,
        ),
{
    lemma_progress_told(turn, info, deferred, now, policy);
    patch::lemma_write_acknowledged(write, count, req, caps);
}

/// An upload that is known to the store is described: if it has not expired, if
/// it is known how much of it is there, be that nothing, and if its metadata can
/// stand in a header field, then the reply is sent with the status 200 and tells
/// how much is there as a number that can be read back. It tells that the length
/// is yet to be declared, or else the length, where it is known; the metadata,
/// where there is any; and when the upload expires, unless all of it is there.
pub proof fn lemma_known_upload_described(
    turn: HeadTurn,
    info: UploadInfo,
    deferred: bool,
    now: Timestamp,
    policy: ExpirationPolicy,
    offset: u64,
)
    requires
        turn.state is Inspecting,
        info.offset == Some(offset),
        expiration::expiration(policy, info.creation_date@) is Ok,
        expiration::expiration(policy, info.creation_date@)->Ok_0 matches Some(at)
            ==> now.secs < at.secs || (now.secs == at.secs && now.nanos <= at.nanos),
        info.metadata matches Some(metadata) ==> metadata.spec_encodable()
            && headers::is_value_text(metadata::metadata_text(metadata@)),
    ensures
        ({
            let next = turn.next(HeadEvent::Inspected(Ok((info, deferred)), now), policy);
            let expires_at = expiration::expiration(policy, info.creation_date@)->Ok_0;
            let told = next.fields;
            &&& next.state is Closed
            &&& next.action is Respond
            &&& next.status == Some(Status::Code(200))
            &&& text::parsed_u64(headers::readable_text(told, H_UPLOAD_OFFSET@), H_UPLOAD_OFFSET)
                == Ok::<_, ProtocolError>(offset)
            &&& deferred ==> {
                &&& headers::readable_text(told, H_UPLOAD_DEFER_LENGTH@) == Some("1"@)
                &&& common::agree_on(turn.fields, told, H_UPLOAD_LENGTH@)
            }
            &&& !deferred ==> common::agree_on(turn.fields, told, H_UPLOAD_DEFER_LENGTH@)
            &&& !deferred && info.size is Some ==> text::parsed_u64(
                headers::readable_text(told, H_UPLOAD_LENGTH@),
                H_UPLOAD_LENGTH,
            ) == Ok::<_, ProtocolError>(info.size->0)
            &&& !deferred && info.size is None ==> common::agree_on(
                turn.fields,
                told,
                H_UPLOAD_LENGTH@,
            )
            &&& info.metadata is None ==> common::agree_on(turn.fields, told, H_UPLOAD_METADATA@)
            &&& info.metadata is Some ==> {
                &&& told.contains_key(H_UPLOAD_METADATA@)
                &&& told[H_UPLOAD_METADATA@] == seq![
                    encode_utf8(metadata::metadata_text((info.metadata->0)@)),
                ]
            }
            &&& expires_at is Some && info.size != Some(offset) ==> expiration::tells_expiration(
                told,
                expires_at->0,
            )
            &&& expires_at is None || info.size == Some(offset) ==> common::agree_on(
                turn.fields,
                told,
                H_UPLOAD_EXPIRES@,
            )
        }),
{
    reveal_strlit("1");
    let digits = text::decimal(offset as nat);
    headers::lemma_number_is_visible(offset as nat);
    headers::lemma_put_read_back(turn.fields, H_UPLOAD_OFFSET@, digits);
    text::lemma_decimal_read_back(offset);
    let placed = headers::put(turn.fields, H_UPLOAD_OFFSET@, digits);
    headers::lemma_put_read_back(placed, H_UPLOAD_DEFER_LENGTH@, "1"@);
    if let Some(size) = info.size {
        headers::lemma_number_is_visible(size as nat);
        headers::lemma_put_read_back(placed, H_UPLOAD_LENGTH@, text::decimal(size as nat));
        text::lemma_decimal_read_back(size);
    }
    headers::lemma_names_differ(4, 5);
    headers::lemma_names_differ(4, 6);
    headers::lemma_names_differ(4, 7);
    headers::lemma_names_differ(4, 8);
    headers::lemma_names_differ(5, 6);
    headers::lemma_names_differ(5, 7);
    headers::lemma_names_differ(5, 8);
    headers::lemma_names_differ(6, 7);
    headers::lemma_names_differ(6, 8);
    headers::lemma_names_differ(7, 8);
}

/// An upload is not described if it has expired, or if it is not known how much
/// of it is there; the reply has the status of the first of these that holds, and
/// no new field. A request cannot be answered if it cannot be told when the upload
/// expires, or if its metadata cannot stand in a header field.
pub proof fn lemma_upload_not_described(
    turn: HeadTurn,
    info: UploadInfo,
    deferred: bool,
    now: Timestamp,
    policy: ExpirationPolicy,
)
    requires
        turn.state is Inspecting,
    ensures
        ({
            let next = turn.next(HeadEvent::Inspected(Ok((info, deferred)), now), policy);
            let expiration = expiration::expiration(policy, info.creation_date@);
            let late = expiration is Ok && (expiration->Ok_0 matches Some(at) && (now.secs > at.secs
                || (now.secs == at.secs && now.nanos > at.nanos)));
            let on_time = expiration is Ok && !late;
            let refused = |error: TusError| Turn {
                state: HeadState::Closed,
                action: HeadAction::Respond,
                status: Some(Status::Failure(error)),
                fields: turn.fields,
            };
            let aborted = |fault: Fault| Turn {
                state: HeadState::Closed,
                action: HeadAction::Abort(fault),
                ..turn
            };
            &&& expiration is Err ==> next == aborted(Fault::ExpirationOverflow)
            &&& late ==> next == refused(TusError::FileNoLongerExists)
            &&& on_time && info.offset is None ==> next == refused(
                TusError::Internal(InternalError::OffsetMissing),
            )
            &&& on_time && info.offset is Some && info.metadata is Some ==> {
                let metadata = info.metadata->0;
                &&& !metadata.spec_encodable() ==> next == aborted(Fault::MetadataTooLong)
                &&& metadata.spec_encodable() && !headers::is_value_text(
                    metadata::metadata_text(metadata@),
                ) ==> next == aborted(Fault::MetadataUnprintable)
            }
        }),
{
}

/// A request goes on from the hook to the lock, and from the lock to the store,
/// with the reply as it is. An error of the lock or of the store ends it with the
/// status code of the error, whatever that is. No field is written but those that
/// describe the upload.
pub proof fn lemma_head_goes_on(
    turn: HeadTurn,
    event: HeadEvent,
    code: u16,
    now: Timestamp,
    policy: ExpirationPolicy,
    name: Seq<char>,
)
    ensures
        turn.state is Notifying ==> turn.next(HeadEvent::IncomingNotified, policy) == (Turn {
            state: HeadState::Locking,
            action: HeadAction::Lock,
            ..turn
        }),
        turn.state is Locking ==> turn.next(HeadEvent::Locked(Ok(())), policy) == (Turn {
            state: HeadState::Inspecting,
            action: HeadAction::Inspect,
            ..turn
        }),
        turn.state is Locking ==> turn.next(HeadEvent::Locked(Err(code)), policy) == (Turn {
            state: HeadState::Closed,
            action: HeadAction::Respond,
            status: Some(Status::Code(code)),
            fields: turn.fields,
        }),
        turn.state is Inspecting ==> turn.next(HeadEvent::Inspected(Err(code), now), policy) == (
        Turn {
            state: HeadState::Closed,
            action: HeadAction::Respond,
            status: Some(Status::Code(code)),
            fields: turn.fields,
        }),
        ({
            let describes = name == H_UPLOAD_OFFSET@ || name == H_UPLOAD_LENGTH@ || name
                == H_UPLOAD_DEFER_LENGTH@ || name == H_UPLOAD_METADATA@ || name
                == H_UPLOAD_EXPIRES@;
            !describes ==> common::agree_on(turn.fields, turn.next(event, policy).fields, name)
        }),
{
}

/// An event that a request does not wait for changes nothing, and a request that
/// has come to its end waits for none.
pub proof fn lemma_unexpected_event(
    turn: HeadTurn,
    event: HeadEvent,
    policy: ExpirationPolicy,
)
    ensures
        !turn.state.awaits(event) ==> turn.next(event, policy) == turn,
        turn.state is Closed ==> turn.next(event, policy) == turn,
{
}

} // verus!
