//! What the handlers have in common: the reply, the header fields that every
//! reply carries, and the checks that every request goes through.

use salvo_core::http::HeaderMap;
use vstd::prelude::*;

use crate::error::{ProtocolError, Status, TusError};
use crate::headers;
use crate::headers::{
    H_ACCESS_CONTROL_ALLOW_CREDENTIALS, H_ACCESS_CONTROL_ALLOW_ORIGIN,
    H_ACCESS_CONTROL_EXPOSE_HEADERS, H_CACHE_CONTROL, H_CONTENT_LENGTH, H_ORIGIN, H_TUS_RESUMABLE,
    H_TUS_VERSION,
};
use crate::text;
use crate::text::TUS_VERSION;

verus! {

/// The fields of a reply that a script in a browser may read.
pub const EXPOSE_HEADERS: &'static str = "Location, Upload-Offset, Upload-Length, Upload-Metadata, Upload-Expires, Tus-Resumable, Tus-Version, Tus-Extension, Tus-Max-Size";

/// How the server is set up.
#[derive(Debug, Default)]
pub struct TusOptions {
    /// The origins whose scripts may use the server; all of them, where none is
    /// named.
    pub allowed_origins: Vec<String>,
    /// Whether requests may carry credentials.
    pub allowed_credentials: bool,
    /// Further header fields that a request may have.
    pub allowed_headers: Vec<String>,
    /// Further header fields of a reply that a script may read.
    pub exposed_headers: Vec<String>,
    /// Whether uploads that are complete cannot be removed.
    pub disable_termination_for_finished_uploads: bool,
}

/// What is answered to a request.
#[derive(Debug)]
pub struct Reply {
    pub status_code: Option<Status>,
    pub headers: HeaderMap,
}

impl Reply {
    /// The header fields of the reply.
    pub open spec fn fields(self) -> headers::Fields {
        headers::fields(self.headers)
    }
}

/// The fields after the origin of the request has been answered: any origin is
/// allowed by a star, unless there are credentials; then, and where only some
/// origins are allowed, the origin itself is named.
pub open spec fn with_origin(
    f: headers::Fields,
    req: headers::Fields,
    opts: TusOptions,
) -> headers::Fields {
    match headers::readable_text(req, H_ORIGIN@) {
        _ if opts.allowed_origins@.len() == 0 && !opts.allowed_credentials => headers::put(
            f,
            H_ACCESS_CONTROL_ALLOW_ORIGIN@,
            "*"@,
        ),
        Some(origin) if opts.allowed_origins@.len() == 0 || text::string_texts(
            opts.allowed_origins@,
        ).contains(origin) => headers::put(f, H_ACCESS_CONTROL_ALLOW_ORIGIN@, origin),
        _ => f,
    }
}

/// The fields after credentials have been allowed, where they are.
pub open spec fn with_credentials(f: headers::Fields, opts: TusOptions) -> headers::Fields {
    if opts.allowed_credentials {
        headers::put(f, H_ACCESS_CONTROL_ALLOW_CREDENTIALS@, "true"@)
    } else {
        f
    }
}

/// A list of names with the names of another list behind it.
pub open spec fn extended_list(names: Seq<char>, more: Seq<String>) -> Seq<char> {
    if more.len() == 0 {
        names
    } else {
        names + ", "@ + text::joined(text::string_texts(more), ", "@)
    }
}

/// The fields after those have been named that a script may read.
pub open spec fn with_exposed(f: headers::Fields, opts: TusOptions) -> headers::Fields {
    headers::put_valid(
        f,
        H_ACCESS_CONTROL_EXPOSE_HEADERS@,
        extended_list(EXPOSE_HEADERS@, opts.exposed_headers@),
    )
}

/// The fields after cross-origin requests have been answered.
pub open spec fn with_cors(
    f: headers::Fields,
    req: headers::Fields,
    opts: TusOptions,
) -> headers::Fields {
    with_exposed(with_credentials(with_origin(f, req, opts), opts), opts)
}

/// The fields that every reply but one to an `OPTIONS` request begins with.
pub open spec fn with_common(
    f: headers::Fields,
    req: headers::Fields,
    opts: TusOptions,
) -> headers::Fields {
    headers::put(
        with_cors(headers::put(f, H_TUS_RESUMABLE@, TUS_VERSION@), req, opts),
        H_CACHE_CONTROL@,
        "no-store"@,
    )
}

proof fn lemma_literals()
    ensures
        headers::is_visible_text("*"@),
        headers::is_visible_text("true"@),
        headers::is_visible_text("no-store"@),
        headers::is_visible_text(TUS_VERSION@),
        headers::is_visible_text(EXPOSE_HEADERS@),
        headers::is_value_text(EXPOSE_HEADERS@),
{
    reveal_strlit("*");
    reveal_strlit("true");
    reveal_strlit("no-store");
    reveal_strlit("1.0.0");
    reveal_strlit(
        "Location, Upload-Offset, Upload-Length, Upload-Metadata, Upload-Expires, Tus-Resumable, Tus-Version, Tus-Extension, Tus-Max-Size",
    );
}

/// Whether a text is in a list.
fn in_list(list: &Vec<String>, item: &str) -> (found: bool)
    ensures
        found == text::string_texts(list@).contains(item@),
{
    let ghost texts = text::string_texts(list@);
    let mut i: usize = 0;
    while i < list.len()
        invariant
            texts == text::string_texts(list@),
            i <= list.len(),
            forall|k: int| 0 <= k < i ==> texts[k] != item@,
        decreases list.len() - i,
    {
        if text::same_text(list[i].as_str(), item) {
            assert(texts[i as int] == item@);
            return true;
        }
        i += 1;
    }
    false
}

/// A list of names with the names of another list behind it.
pub fn extend_list(names: &str, more: &Vec<String>) -> (list: String)
    ensures
        list@ == extended_list(names@, more@),
{
    let mut list = names.to_owned();
    if more.len() > 0 {
        list.append(", ");
        list.append(text::join_texts(more, ", ").as_str());
        assert(list@ =~= extended_list(names@, more@));
    }
    list
}

/// Answers a cross-origin request.
pub fn apply_cors_headers(map: &mut HeaderMap, req: &HeaderMap, opts: &TusOptions)
    requires
        headers::has_room(headers::fields(*old(map)), 3),
    ensures
        headers::fields(*final(map)) == with_cors(
            headers::fields(*old(map)),
            headers::fields(*req),
            *opts,
        ),
        forall|n: nat|
            headers::has_room(headers::fields(*old(map)), n + 3) ==> #[trigger] headers::has_room(
                headers::fields(*final(map)),
                n,
            ),
{
    let ghost f = headers::fields(*map);
    let ghost r = headers::fields(*req);
    proof {
        headers::lemma_field_names();
        lemma_literals();
        if let Some(origin) = headers::readable_text(r, H_ORIGIN@) {
            headers::lemma_visible_is_value_text(origin);
        }
    }
    if opts.allowed_origins.len() == 0 {
        if opts.allowed_credentials {
            // A star is not allowed together with credentials: name the origin.
            if let Some(origin) = headers::read_text(req, H_ORIGIN) {
                headers::write_text(map, H_ACCESS_CONTROL_ALLOW_ORIGIN, origin);
            }
        } else {
            headers::write_static(map, H_ACCESS_CONTROL_ALLOW_ORIGIN, "*");
        }
    } else if let Some(origin) = headers::read_text(req, H_ORIGIN) {
        if in_list(&opts.allowed_origins, origin) {
            headers::write_text(map, H_ACCESS_CONTROL_ALLOW_ORIGIN, origin);
        }
    }
    assert(headers::fields(*map) == with_origin(f, r, *opts));
    assert(headers::has_room(headers::fields(*map), 2));
    if opts.allowed_credentials {
        headers::write_static(map, H_ACCESS_CONTROL_ALLOW_CREDENTIALS, "true");
    }
    assert(headers::has_room(headers::fields(*map), 1));
    if opts.exposed_headers.len() == 0 {
        headers::write_static(map, H_ACCESS_CONTROL_EXPOSE_HEADERS, EXPOSE_HEADERS);
    } else {
        let exposed = extend_list(EXPOSE_HEADERS, &opts.exposed_headers);
        headers::write_text(map, H_ACCESS_CONTROL_EXPOSE_HEADERS, exposed.as_str());
    }
}

/// Gives a reply the fields that every reply but one to an `OPTIONS` request
/// carries.
pub fn apply_common_headers(map: &mut HeaderMap, req: &HeaderMap, opts: &TusOptions)
    requires
        headers::has_room(headers::fields(*old(map)), 5),
    ensures
        headers::fields(*final(map)) == with_common(
            headers::fields(*old(map)),
            headers::fields(*req),
            *opts,
        ),
        forall|n: nat|
            headers::has_room(headers::fields(*old(map)), n + 5) ==> #[trigger] headers::has_room(
                headers::fields(*final(map)),
                n,
            ),
{
    proof {
        headers::lemma_field_names();
        lemma_literals();
    }
    headers::write_static(map, H_TUS_RESUMABLE, TUS_VERSION);
    assert(headers::has_room(headers::fields(*map), 4));
    apply_cors_headers(map, req, opts);
    assert(headers::has_room(headers::fields(*map), 1));
    headers::write_static(map, H_CACHE_CONTROL, "no-store");
}

/// The fields that a reply to an `OPTIONS` request begins with.
pub open spec fn with_options(
    f: headers::Fields,
    req: headers::Fields,
    opts: TusOptions,
) -> headers::Fields {
    headers::put(with_cors(f, req, opts), H_CACHE_CONTROL@, "no-store"@)
}

/// Gives a reply to an `OPTIONS` request the fields that it begins with.
pub fn apply_options_headers(map: &mut HeaderMap, req: &HeaderMap, opts: &TusOptions)
    requires
        headers::has_room(headers::fields(*old(map)), 4),
    ensures
        headers::fields(*final(map)) == with_options(
            headers::fields(*old(map)),
            headers::fields(*req),
            *opts,
        ),
        forall|n: nat|
            headers::has_room(headers::fields(*old(map)), n + 4) ==> #[trigger] headers::has_room(
                headers::fields(*final(map)),
                n,
            ),
{
    proof {
        headers::lemma_field_names();
        lemma_literals();
    }
    apply_cors_headers(map, req, opts);
    assert(headers::has_room(headers::fields(*map), 1));
    headers::write_static(map, H_CACHE_CONTROL, "no-store");
}

/// Whether this is what is wrong with the version that a request names.
pub open spec fn is_version_error(e: ProtocolError, version: Option<Seq<char>>) -> bool {
    match version {
        Some(version) => e matches ProtocolError::UnsupportedTusVersion(v) && v@ == version,
        None => e == ProtocolError::MissingHeader(H_TUS_RESUMABLE),
    }
}

/// Checks that a request names the version of the protocol that is spoken here.
pub fn check_tus_version(version: Option<&str>) -> (checked: Result<(), ProtocolError>)
    ensures
        checked is Ok <==> headers::opt_view(version) == Some(TUS_VERSION@),
        checked matches Err(e) ==> is_version_error(e, headers::opt_view(version)),
{
    match version {
        Some(version) => if text::same_text(version, TUS_VERSION) {
            Ok(())
        } else {
            Err(ProtocolError::UnsupportedTusVersion(version.to_owned()))
        },
        None => Err(ProtocolError::MissingHeader(H_TUS_RESUMABLE)),
    }
}

/// Whether a request names the version of the protocol that is spoken here.
pub open spec fn speaks_tus(req: headers::Fields) -> bool {
    headers::readable_text(req, H_TUS_RESUMABLE@) == Some(TUS_VERSION@)
}

/// The status of a reply to a request that does not name the version that is
/// spoken here.
pub open spec fn is_version_status(status: Option<Status>, req: headers::Fields) -> bool {
    status matches Some(Status::Failure(TusError::Protocol(e))) && is_version_error(
        e,
        headers::readable_text(req, H_TUS_RESUMABLE@),
    )
}

/// The fields of a reply to such a request: where it names another version, it
/// is told the one that is spoken here.
pub open spec fn with_version(f: headers::Fields, req: headers::Fields) -> headers::Fields {
    if headers::readable_text(req, H_TUS_RESUMABLE@) is Some {
        headers::put(f, H_TUS_VERSION@, TUS_VERSION@)
    } else {
        f
    }
}

/// What a request with these fields is answered as far as the version of the
/// protocol goes: nothing, where it is the one that is spoken here.
pub open spec fn version_answered(before: Reply, after: Reply, req: headers::Fields) -> bool {
    if speaks_tus(req) {
        after == before
    } else {
        &&& is_version_status(after.status_code, req)
        &&& after.fields() == with_version(before.fields(), req)
    }
}

/// Checks the version of the protocol. Where it is not the one that is spoken
/// here, the reply says so.
pub fn check_tus_version_or_respond(req: &HeaderMap, reply: &mut Reply) -> (ok: bool)
    requires
        headers::has_room(old(reply).fields(), 1),
    ensures
        ok == speaks_tus(headers::fields(*req)),
        version_answered(*old(reply), *final(reply), headers::fields(*req)),
        forall|n: nat|
            headers::has_room(old(reply).fields(), n + 1) ==> #[trigger] headers::has_room(
                final(reply).fields(),
                n,
            ),
{
    proof {
        headers::lemma_field_names();
        lemma_literals();
    }
    match check_tus_version(headers::read_text(req, H_TUS_RESUMABLE)) {
        Ok(()) => true,
        Err(e) => {
            if let ProtocolError::UnsupportedTusVersion(_) = e {
                headers::write_static(&mut reply.headers, H_TUS_VERSION, TUS_VERSION);
            }
            reply.status_code = Some(Status::Failure(TusError::Protocol(e)));
            false
        },
    }
}

/// The length that a request declares for its body.
pub open spec fn content_length(req: headers::Fields) -> Result<Option<u64>, TusError> {
    match headers::field_text(req, H_CONTENT_LENGTH@) {
        Some(Some(text)) => match text::parsed_u64(Some(text), H_CONTENT_LENGTH) {
            Ok(length) => Ok(Some(length)),
            Err(e) => Err(TusError::Protocol(e)),
        },
        Some(None) => Err(TusError::Protocol(ProtocolError::InvalidInt(H_CONTENT_LENGTH))),
        None => Ok(None),
    }
}

/// Reads the length that a request declares for its body.
pub fn parse_content_length(req: &HeaderMap) -> (length: Result<Option<u64>, TusError>)
    ensures
        length == content_length(headers::fields(*req)),
{
    proof {
        headers::lemma_field_names();
    }
    match headers::read(req, H_CONTENT_LENGTH) {
        Some(Some(text)) => match text::parse_u64(Some(text), H_CONTENT_LENGTH) {
            Ok(length) => Ok(Some(length)),
            Err(e) => Err(TusError::Protocol(e)),
        },
        Some(None) => Err(TusError::Protocol(ProtocolError::InvalidInt(H_CONTENT_LENGTH))),
        None => Ok(None),
    }
}

/// A request that is being handled: where it stands, what is to be done next,
/// and the reply as far as it goes.
pub struct Turn<S, A> {
    pub state: S,
    pub action: A,
    pub status: Option<Status>,
    pub fields: headers::Fields,
}

impl<S, A> Turn<S, A> {
    /// The request goes on, and the reply stays as it is.
    pub open spec fn goes_on(self, state: S, action: A) -> Turn<S, A> {
        Turn { state, action, ..self }
    }

    /// The request goes on, and the reply gets this status.
    pub open spec fn with_status(self, state: S, action: A, status: Status) -> Turn<S, A> {
        Turn { state, action, status: Some(status), ..self }
    }
}

impl Reply {
    /// The request in this state, with this reply so far.
    pub open spec fn turn<S, A>(self, state: S, action: A) -> Turn<S, A> {
        Turn { state, action, status: self.status_code, fields: self.fields() }
    }
}

/// Whether a request gets past the first checks: it speaks the version of the
/// protocol that is spoken here, nothing bars it, and it names an upload.
pub open spec fn enters(
    req: headers::Fields,
    bar: Option<TusError>,
    id: Result<(), u16>,
) -> bool {
    speaks_tus(req) && bar is None && id is Ok
}

/// What the first checks make of a reply. The version of the protocol comes
/// first, then what bars the request, then the upload that it names.
pub open spec fn entered(
    before: Reply,
    after: Reply,
    req: headers::Fields,
    opts: TusOptions,
    bar: Option<TusError>,
    id: Result<(), u16>,
) -> bool {
    let f = with_common(before.fields(), req, opts);
    if !speaks_tus(req) {
        &&& is_version_status(after.status_code, req)
        &&& after.fields() == with_version(f, req)
    } else {
        &&& after.fields() == f
        &&& after.status_code == match (bar, id) {
            (Some(e), _) => Some(Status::Failure(e)),
            (None, Err(code)) => Some(Status::Code(code)),
            (None, Ok(_)) => before.status_code,
        }
    }
}

/// Gives a reply its common fields and makes the first checks. `bar` is what
/// bars the request, and `id` says whether the request names an upload, or else
/// the status code of the error.
pub fn enter(
    req: &HeaderMap,
    opts: &TusOptions,
    bar: Option<TusError>,
    id: Result<(), u16>,
    reply: &mut Reply,
) -> (ok: bool)
    requires
        headers::has_room(old(reply).fields(), 6),
    ensures
        ok == enters(headers::fields(*req), bar, id),
        entered(*old(reply), *final(reply), headers::fields(*req), *opts, bar, id),
        forall|n: nat|
            headers::has_room(old(reply).fields(), n + 6) ==> #[trigger] headers::has_room(
                final(reply).fields(),
                n,
            ),
{
    apply_common_headers(&mut reply.headers, req, opts);
    assert(headers::has_room(reply.fields(), 1));
    assert forall|n: nat| headers::has_room(old(reply).fields(), n + 6) implies
        #[trigger] headers::has_room(reply.fields(), n + 1) by {
        assert(headers::has_room(old(reply).fields(), (n + 1) + 5));
    }
    if !check_tus_version_or_respond(req, reply) {
        return false;
    }
    if let Some(e) = bar {
        reply.status_code = Some(Status::Failure(e));
        return false;
    }
    if let Err(code) = id {
        reply.status_code = Some(Status::Code(code));
        return false;
    }
    true
}

/// A star is never answered to a request that may carry credentials, unless the
/// request names a star as its origin.
pub proof fn lemma_no_star_with_credentials(
    f: headers::Fields,
    req: headers::Fields,
    opts: TusOptions,
)
    requires
        opts.allowed_credentials,
        !f.contains_key(H_ACCESS_CONTROL_ALLOW_ORIGIN@),
        headers::readable_text(req, H_ORIGIN@) != Some("*"@),
    ensures
        headers::readable_text(with_cors(f, req, opts), H_ACCESS_CONTROL_ALLOW_ORIGIN@) != Some(
            "*"@,
        ),
        headers::readable_text(with_cors(f, req, opts), H_ACCESS_CONTROL_ALLOW_CREDENTIALS@)
            == Some("true"@),
{
    lemma_origin_answered(f, req, opts);
    lemma_literals();
    let named = with_origin(f, req, opts);
    headers::lemma_put_read_back(named, H_ACCESS_CONTROL_ALLOW_CREDENTIALS@, "true"@);
    headers::lemma_names_differ(14, 15);
}

/// Which origin a reply names: any, where the server is open to all and takes no
/// credentials; else that of the request, where it is one that is allowed; else
/// none.
pub proof fn lemma_origin_answered(f: headers::Fields, req: headers::Fields, opts: TusOptions)
    requires
        !f.contains_key(H_ACCESS_CONTROL_ALLOW_ORIGIN@),
    ensures
        headers::readable_text(with_cors(f, req, opts), H_ACCESS_CONTROL_ALLOW_ORIGIN@) == (
        if opts.allowed_origins@.len() == 0 && !opts.allowed_credentials {
            Some("*"@)
        } else {
            match headers::readable_text(req, H_ORIGIN@) {
                Some(origin) => if opts.allowed_origins@.len() == 0 || text::string_texts(
                    opts.allowed_origins@,
                ).contains(origin) {
                    Some(origin)
                } else {
                    None
                },
                None => None,
            }
        }),
{
    lemma_literals();
    headers::lemma_put_read_back(f, H_ACCESS_CONTROL_ALLOW_ORIGIN@, "*"@);
    if let Some(origin) = headers::readable_text(req, H_ORIGIN@) {
        headers::lemma_put_read_back(f, H_ACCESS_CONTROL_ALLOW_ORIGIN@, origin);
    }
    headers::lemma_names_differ(13, 14);
    headers::lemma_names_differ(13, 15);
}

/// Every reply but one to an `OPTIONS` request names the version of the protocol,
/// and none may be kept by a cache.
pub proof fn lemma_common_fields(f: headers::Fields, req: headers::Fields, opts: TusOptions)
    ensures
        headers::readable_text(with_common(f, req, opts), H_TUS_RESUMABLE@) == Some(TUS_VERSION@),
        headers::readable_text(with_common(f, req, opts), H_CACHE_CONTROL@) == Some("no-store"@),
        headers::readable_text(with_options(f, req, opts), H_CACHE_CONTROL@) == Some("no-store"@),
{
    lemma_literals();
    headers::lemma_put_read_back(f, H_TUS_RESUMABLE@, TUS_VERSION@);
    let begun = with_cors(headers::put(f, H_TUS_RESUMABLE@, TUS_VERSION@), req, opts);
    headers::lemma_put_read_back(begun, H_CACHE_CONTROL@, "no-store"@);
    headers::lemma_put_read_back(with_cors(f, req, opts), H_CACHE_CONTROL@, "no-store"@);
    headers::lemma_names_differ(0, 11);
    headers::lemma_names_differ(0, 13);
    headers::lemma_names_differ(0, 14);
    headers::lemma_names_differ(0, 15);
}

/// The names of the fields by which a cross-origin request is answered.
pub open spec fn is_cors_name(name: Seq<char>) -> bool {
    ||| name == H_ACCESS_CONTROL_ALLOW_ORIGIN@
    ||| name == H_ACCESS_CONTROL_ALLOW_CREDENTIALS@
    ||| name == H_ACCESS_CONTROL_EXPOSE_HEADERS@
}

/// Whether two maps say the same of a field.
pub open spec fn agree_on(f: headers::Fields, g: headers::Fields, name: Seq<char>) -> bool {
    &&& f.contains_key(name) == g.contains_key(name)
    &&& f.contains_key(name) ==> f[name] == g[name]
}

/// Answering a cross-origin request a second time changes nothing: values are
/// replaced and not added, so that each field that is written has one value. No
/// other field is touched.
pub proof fn lemma_cors_again(f: headers::Fields, req: headers::Fields, opts: TusOptions)
    ensures
        with_cors(with_cors(f, req, opts), req, opts) == with_cors(f, req, opts),
        forall|name: Seq<char>|
            !agree_on(f, with_cors(f, req, opts), name) ==> #[trigger] with_cors(
                f,
                req,
                opts,
            ).contains_key(name) && with_cors(f, req, opts)[name].len() == 1,
        forall|name: Seq<char>|
            !is_cors_name(name) ==> #[trigger] agree_on(f, with_cors(f, req, opts), name),
{
    headers::lemma_names_differ(13, 14);
    headers::lemma_names_differ(13, 15);
    headers::lemma_names_differ(14, 15);
    assert(with_cors(with_cors(f, req, opts), req, opts) =~= with_cors(f, req, opts));
}

/// A reply to an `OPTIONS` request begins with the fields of any other reply, but
/// for the version of the protocol, of which it says nothing. Neither touches a
/// field that is not among these.
pub proof fn lemma_common_and_options(f: headers::Fields, req: headers::Fields, opts: TusOptions)
    ensures
        forall|name: Seq<char>|
            name != H_TUS_RESUMABLE@ ==> #[trigger] agree_on(
                with_common(f, req, opts),
                with_options(f, req, opts),
                name,
            ),
        headers::readable_text(with_common(f, req, opts), H_TUS_RESUMABLE@) == Some(TUS_VERSION@),
        agree_on(f, with_options(f, req, opts), H_TUS_RESUMABLE@),
        headers::readable_text(with_common(f, req, opts), H_CACHE_CONTROL@) == Some("no-store"@),
        headers::readable_text(with_options(f, req, opts), H_CACHE_CONTROL@) == Some("no-store"@),
        forall|name: Seq<char>|
            !is_cors_name(name) && name != H_CACHE_CONTROL@ && name != H_TUS_RESUMABLE@
                ==> #[trigger] agree_on(f, with_common(f, req, opts), name),
        forall|name: Seq<char>|
            !is_cors_name(name) && name != H_CACHE_CONTROL@ ==> #[trigger] agree_on(
                f,
                with_options(f, req, opts),
                name,
            ),
{
    lemma_common_fields(f, req, opts);
    headers::lemma_names_differ(0, 11);
    headers::lemma_names_differ(0, 13);
    headers::lemma_names_differ(0, 14);
    headers::lemma_names_differ(0, 15);
}

/// A reply to a request that names another version of the protocol tells the one
/// that is spoken here.
pub proof fn lemma_version_told(f: headers::Fields, req: headers::Fields)
    requires
        headers::readable_text(req, H_TUS_RESUMABLE@) is Some,
    ensures
        headers::readable_text(with_version(f, req), H_TUS_VERSION@) == Some(TUS_VERSION@),
{
    lemma_literals();
    headers::lemma_put_read_back(f, H_TUS_VERSION@, TUS_VERSION@);
}

/// A request that names another version of the protocol does not get past the
/// first checks, and is told the version that is spoken here.
pub proof fn lemma_other_version_turned_away(
    before: Reply,
    after: Reply,
    req: headers::Fields,
    opts: TusOptions,
    bar: Option<TusError>,
    id: Result<(), u16>,
)
    requires
        entered(before, after, req, opts, bar, id),
        headers::readable_text(req, H_TUS_RESUMABLE@) is Some,
        headers::readable_text(req, H_TUS_RESUMABLE@) != Some(TUS_VERSION@),
    ensures
        !enters(req, bar, id),
        headers::readable_text(after.fields(), H_TUS_VERSION@) == Some(TUS_VERSION@),
{
    lemma_version_told(with_common(before.fields(), req, opts), req);
}

/// A list that is extended by one more name has the name behind a comma and a
/// space; one that is extended by nothing stays as it is.
pub proof fn lemma_list_extended(names: Seq<char>, more: Seq<String>, last: String)
    ensures
        extended_list(names, Seq::empty()) == names,
        extended_list(names, more.push(last)) == extended_list(names, more) + ", "@ + last@,
{
    let all = text::string_texts(more.push(last));
    assert(all.drop_last() =~= text::string_texts(more));
    assert(all.last() == last@);
    assert(extended_list(names, more.push(last)) =~= extended_list(names, more) + ", "@ + last@);
}

/// How a cross-origin request is answered. Any origin is allowed where the server
/// names none and takes no credentials. Else the origin of the request is named,
/// if the server names none or names this one; if not, the field stays as it was.
/// Credentials are allowed where the server takes them, and the fields that a
/// script may read are named.
pub proof fn lemma_cors_answered(f: headers::Fields, req: headers::Fields, opts: TusOptions)
    ensures
        ({
            let told = with_cors(f, req, opts);
            let asked = headers::readable_text(req, H_ORIGIN@);
            let named = headers::readable_text(told, H_ACCESS_CONTROL_ALLOW_ORIGIN@);
            let none_listed = opts.allowed_origins@.len() == 0;
            let listed = asked is Some && exists|i: int|
                0 <= i < opts.allowed_origins@.len() && (#[trigger] opts.allowed_origins@[i])@
                    == asked->0;
            &&& none_listed && !opts.allowed_credentials ==> named == Some("*"@)
            &&& none_listed && opts.allowed_credentials && asked is Some ==> named == asked
            &&& listed ==> named == asked
            &&& asked is None && (opts.allowed_credentials || !none_listed) ==> agree_on(
                f,
                told,
                H_ACCESS_CONTROL_ALLOW_ORIGIN@,
            )
            &&& !none_listed && !listed ==> agree_on(f, told, H_ACCESS_CONTROL_ALLOW_ORIGIN@)
            &&& opts.allowed_credentials ==> headers::readable_text(
                told,
                H_ACCESS_CONTROL_ALLOW_CREDENTIALS@,
            ) == Some("true"@)
            &&& !opts.allowed_credentials ==> agree_on(f, told, H_ACCESS_CONTROL_ALLOW_CREDENTIALS@)
            &&& opts.exposed_headers@.len() == 0 ==> headers::readable_text(
                told,
                H_ACCESS_CONTROL_EXPOSE_HEADERS@,
            ) == Some(EXPOSE_HEADERS@)
            &&& headers::is_visible_text(extended_list(EXPOSE_HEADERS@, opts.exposed_headers@))
                ==> headers::readable_text(told, H_ACCESS_CONTROL_EXPOSE_HEADERS@) == Some(
                extended_list(EXPOSE_HEADERS@, opts.exposed_headers@),
            )
            &&& agree_on(
                told,
                headers::put_valid(
                    f,
                    H_ACCESS_CONTROL_EXPOSE_HEADERS@,
                    extended_list(EXPOSE_HEADERS@, opts.exposed_headers@),
                ),
                H_ACCESS_CONTROL_EXPOSE_HEADERS@,
            )
        }),
{
    lemma_literals();
    headers::lemma_names_differ(13, 14);
    headers::lemma_names_differ(13, 15);
    headers::lemma_names_differ(14, 15);
    let origins = text::string_texts(opts.allowed_origins@);
    headers::lemma_put_read_back(f, H_ACCESS_CONTROL_ALLOW_ORIGIN@, "*"@);
    if let Some(origin) = headers::readable_text(req, H_ORIGIN@) {
        headers::lemma_put_read_back(f, H_ACCESS_CONTROL_ALLOW_ORIGIN@, origin);
        if exists|i: int|
            0 <= i < opts.allowed_origins@.len() && (#[trigger] opts.allowed_origins@[i])@
                == origin {
            let i = choose|i: int|
                0 <= i < opts.allowed_origins@.len() && (#[trigger] opts.allowed_origins@[i])@
                    == origin;
            assert(origins[i] == origin);
        }
        if origins.contains(origin) {
            let i = choose|i: int| 0 <= i < origins.len() && origins[i] == origin;
            assert(opts.allowed_origins@[i]@ == origin);
        }
    }
    let placed = with_origin(f, req, opts);
    headers::lemma_put_read_back(placed, H_ACCESS_CONTROL_ALLOW_CREDENTIALS@, "true"@);
    let list = extended_list(EXPOSE_HEADERS@, opts.exposed_headers@);
    if headers::is_visible_text(list) {
        headers::lemma_visible_is_value_text(list);
        headers::lemma_put_read_back(
            with_credentials(placed, opts),
            H_ACCESS_CONTROL_EXPOSE_HEADERS@,
            list,
        );
    }
}

/// Every reply answers a cross-origin request in the same way.
pub proof fn lemma_cors_in_every_reply(
    f: headers::Fields,
    req: headers::Fields,
    opts: TusOptions,
    name: Seq<char>,
)
    requires
        is_cors_name(name),
    ensures
        agree_on(with_common(f, req, opts), with_cors(f, req, opts), name),
        agree_on(with_options(f, req, opts), with_cors(f, req, opts), name),
{
    headers::lemma_names_differ(0, 13);
    headers::lemma_names_differ(0, 14);
    headers::lemma_names_differ(0, 15);
    headers::lemma_names_differ(11, 13);
    headers::lemma_names_differ(11, 14);
    headers::lemma_names_differ(11, 15);
    headers::lemma_names_differ(13, 14);
    headers::lemma_names_differ(13, 15);
    headers::lemma_names_differ(14, 15);
}

/// A request gets past the first checks if and only if it names the version that
/// is spoken here, nothing bars it, and it names an upload. Else its reply has the
/// status of the first of these that fails: the version is missing, or it is
/// another one, which the reply quotes; then the bar; then the error of the name.
/// A request that gets past them keeps the status that the reply had.
pub proof fn lemma_first_checks(
    before: Reply,
    after: Reply,
    req: headers::Fields,
    opts: TusOptions,
    bar: Option<TusError>,
    id: Result<(), u16>,
)
    requires
        entered(before, after, req, opts, bar, id),
    ensures
        ({
            let version = headers::readable_text(req, H_TUS_RESUMABLE@);
            let spoken = version == Some(TUS_VERSION@);
            &&& speaks_tus(req) == spoken
            &&& enters(req, bar, id) <==> spoken && bar is None && id is Ok
            &&& version is None ==> after.status_code == Some(
                Status::Failure(TusError::Protocol(ProtocolError::MissingHeader(H_TUS_RESUMABLE))),
            )
            &&& version is Some && !spoken ==> quotes_version(after.status_code, version->0)
            &&& spoken && bar is Some ==> after.status_code == Some(Status::Failure(bar->0))
            &&& spoken && bar is None && id is Err ==> after.status_code == Some(
                Status::Code(id->Err_0),
            )
            &&& spoken && bar is None && id is Ok ==> after.status_code == before.status_code
            &&& spoken || version is None ==> headers::fields(after.headers) == with_common(
                headers::fields(before.headers),
                req,
                opts,
            )
            &&& version is Some && !spoken ==> headers::fields(after.headers) == headers::put(
                with_common(headers::fields(before.headers), req, opts),
                H_TUS_VERSION@,
                TUS_VERSION@,
            )
        }),
{
}

/// Whether a status says that the version of the protocol is not spoken here.
pub open spec fn quotes_version(status: Option<Status>, version: Seq<char>) -> bool {
    status matches Some(
        Status::Failure(TusError::Protocol(ProtocolError::UnsupportedTusVersion(quoted))),
    ) && quoted@ == version
}

/// What is wrong with the version that a request names: there is none, or it is
/// quoted. A reply is changed for that if and only if the version is not the one
/// that is spoken here.
pub proof fn lemma_version_answered(
    e: ProtocolError,
    version: Option<Seq<char>>,
    before: Reply,
    after: Reply,
    req: headers::Fields,
)
    requires
        version_answered(before, after, req),
    ensures
        version is None ==> (is_version_error(e, version) <==> e == ProtocolError::MissingHeader(
            H_TUS_RESUMABLE,
        )),
        version matches Some(v) ==> (is_version_error(e, version) <==> (
        e matches ProtocolError::UnsupportedTusVersion(quoted) && quoted@ == v)),
        ({
            let named = headers::readable_text(req, H_TUS_RESUMABLE@);
            &&& named == Some(TUS_VERSION@) ==> after == before
            &&& named is None ==> {
                &&& after.status_code == Some(
                    Status::Failure(
                        TusError::Protocol(ProtocolError::MissingHeader(H_TUS_RESUMABLE)),
                    ),
                )
                &&& headers::fields(after.headers) == headers::fields(before.headers)
            }
            &&& named is Some && named != Some(TUS_VERSION@) ==> {
                &&& quotes_version(after.status_code, named->0)
                &&& headers::fields(after.headers) == headers::put(
                    headers::fields(before.headers),
                    H_TUS_VERSION@,
                    TUS_VERSION@,
                )
            }
        }),
{
}

/// The length that a request declares for its body: none where the field is
/// absent, the number that its text stands for, and an error where the field has
/// no text or the text stands for no number.
pub proof fn lemma_declared_body_length(req: headers::Fields)
    ensures
        ({
            let text = headers::readable_text(req, H_CONTENT_LENGTH@);
            let invalid = Err::<Option<u64>, _>(
                TusError::Protocol(ProtocolError::InvalidInt(H_CONTENT_LENGTH)),
            );
            &&& !req.contains_key(H_CONTENT_LENGTH@) ==> content_length(req)
                == Ok::<Option<u64>, TusError>(None)
            &&& req.contains_key(H_CONTENT_LENGTH@) && text is None ==> content_length(req)
                == invalid
            &&& text is Some && text::u64_value(text->0) is None ==> content_length(req) == invalid
            &&& text is Some && text::u64_value(text->0) is Some ==> content_length(req) == Ok::<
                _,
                TusError,
            >(text::u64_value(text->0))
        }),
        forall|n: u64|
            content_length(
                #[trigger] headers::put(req, H_CONTENT_LENGTH@, text::decimal(n as nat)),
            ) == Ok::<_, TusError>(Some(n)),
{
    assert forall|n: u64|
        content_length(
            #[trigger] headers::put(req, H_CONTENT_LENGTH@, text::decimal(n as nat)),
        ) == Ok::<_, TusError>(Some(n)) by {
        headers::lemma_number_is_visible(n as nat);
        headers::lemma_put_read_back(req, H_CONTENT_LENGTH@, text::decimal(n as nat));
        text::lemma_decimal_read_back(n);
    }
}

/// A request in progress shows the status and the header fields of its reply, and
/// keeps them where it only goes on.
pub proof fn lemma_turn_shows_reply<S, A>(
    reply: Reply,
    state: S,
    action: A,
    next: S,
    then_do: A,
    status: Status,
)
    ensures
        reply.turn(state, action) == (Turn {
            state,
            action,
            status: reply.status_code,
            fields: headers::fields(reply.headers),
        }),
        reply.turn(state, action).goes_on(next, then_do) == reply.turn(next, then_do),
        reply.turn(state, action).with_status(next, then_do, status) == (Turn {
            state: next,
            action: then_do,
            status: Some(status),
            fields: headers::fields(reply.headers),
        }),
{
}

} // verus!
