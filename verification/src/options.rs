//! Asking what the server can do: the `OPTIONS` request.

use salvo_core::http::{HeaderMap, HeaderValue};
use vstd::prelude::*;

use crate::common;
use crate::common::{Reply, TusOptions};
use crate::error::{Status, STATUS_NO_CONTENT};
use crate::headers;
use crate::headers::{
    H_ACCESS_CONTROL_ALLOW_HEADERS, H_ACCESS_CONTROL_ALLOW_METHODS, H_ACCESS_CONTROL_MAX_AGE,
    H_ACCESS_CONTROL_REQUEST_HEADERS, H_TUS_EXTENSION, H_TUS_MAX_SIZE, H_TUS_VERSION,
};
use crate::text;
use crate::text::TUS_VERSION;

verus! {

/// The methods that a request may have.
pub const ALLOW_METHODS: &'static str = "OPTIONS, POST, HEAD, PATCH, DELETE, GET";

/// The header fields that a request may have.
pub const ALLOW_HEADERS: &'static str = "Tus-Resumable, Upload-Length, Upload-Offset, Upload-Metadata, Content-Type, Content-Length";

/// For how many seconds a browser may remember what is allowed.
pub const MAX_AGE: &'static str = "86400";

/// The fields after the version of the protocol has been told, the extensions of
/// the store, where it has any, and the largest size of an upload, where there
/// is one.
pub open spec fn with_abilities(
    f: headers::Fields,
    extensions: Option<HeaderValue>,
    max_size: u64,
) -> headers::Fields {
    let spoken = headers::put(f, H_TUS_VERSION@, TUS_VERSION@);
    let extended = match extensions {
        Some(value) => spoken.insert(H_TUS_EXTENSION@, seq![headers::value_bytes(value)]),
        None => spoken,
    };
    if max_size > 0 {
        headers::put(extended, H_TUS_MAX_SIZE@, text::decimal(max_size as nat))
    } else {
        extended
    }
}

/// The names of the header fields that a request is allowed: those that it asks
/// for, or else those that are known and those that the server is set up for.
pub open spec fn allowed_headers(req: headers::Fields, opts: TusOptions) -> Seq<char> {
    match headers::readable_text(req, H_ACCESS_CONTROL_REQUEST_HEADERS@) {
        Some(asked) => asked,
        None => common::extended_list(ALLOW_HEADERS@, opts.allowed_headers@),
    }
}

/// The fields of a reply to an `OPTIONS` request.
pub open spec fn options_fields(
    f: headers::Fields,
    extensions: Option<HeaderValue>,
    max_size: u64,
    req: headers::Fields,
    opts: TusOptions,
) -> headers::Fields {
    let able = with_abilities(common::with_options(f, req, opts), extensions, max_size);
    let allowed = headers::put_valid(
        headers::put(able, H_ACCESS_CONTROL_ALLOW_METHODS@, ALLOW_METHODS@),
        H_ACCESS_CONTROL_ALLOW_HEADERS@,
        allowed_headers(req, opts),
    );
    headers::put(allowed, H_ACCESS_CONTROL_MAX_AGE@, MAX_AGE@)
}

proof fn lemma_literals()
    ensures
        headers::is_visible_text(TUS_VERSION@),
        headers::is_visible_text(ALLOW_METHODS@),
        headers::is_visible_text(MAX_AGE@),
{
    reveal_strlit("1.0.0");
    reveal_strlit("OPTIONS, POST, HEAD, PATCH, DELETE, GET");
    reveal_strlit("86400");
}

/// Handles an `OPTIONS` request: tells what the server can do, and what a
/// browser may send to it. The extensions of the store are given as the value of
/// a header field, and the largest size of an upload is 0 where there is none.
pub fn options(
    extensions: Option<HeaderValue>,
    max_size: u64,
    req: &HeaderMap,
    opts: &TusOptions,
    reply: &mut Reply,
)
    requires
        headers::has_room(old(reply).fields(), 10),
    ensures
        final(reply).fields() == options_fields(
            old(reply).fields(),
            extensions,
            max_size,
            headers::fields(*req),
            *opts,
        ),
        final(reply).status_code == Some(Status::Code(STATUS_NO_CONTENT)),
{
    let map = &mut reply.headers;
    common::apply_options_headers(map, req, opts);
    assert(headers::has_room(headers::fields(*map), 6));
    proof {
        headers::lemma_field_names();
        lemma_literals();
    }
    headers::write_static(map, H_TUS_VERSION, TUS_VERSION);
    assert(headers::has_room(headers::fields(*map), 5));
    if let Some(value) = extensions {
        headers::write_value(map, H_TUS_EXTENSION, value);
    }
    assert(headers::has_room(headers::fields(*map), 4));
    if max_size > 0 {
        headers::write_number(map, H_TUS_MAX_SIZE, max_size);
    }
    assert(headers::has_room(headers::fields(*map), 3));
    headers::write_static(map, H_ACCESS_CONTROL_ALLOW_METHODS, ALLOW_METHODS);
    assert(headers::has_room(headers::fields(*map), 2));
    if let Some(asked) = headers::read_text(req, H_ACCESS_CONTROL_REQUEST_HEADERS) {
        headers::write_text(map, H_ACCESS_CONTROL_ALLOW_HEADERS, asked);
    } else {
        let known = common::extend_list(ALLOW_HEADERS, &opts.allowed_headers);
        headers::write_text(map, H_ACCESS_CONTROL_ALLOW_HEADERS, known.as_str());
    }
    assert(headers::has_room(headers::fields(*map), 1));
    headers::write_static(map, H_ACCESS_CONTROL_MAX_AGE, MAX_AGE);
    reply.status_code = Some(Status::Code(STATUS_NO_CONTENT));
}

/// A reply to an `OPTIONS` request tells the version of the protocol, the methods
/// that are allowed, the header fields that the request asks for, and the largest
/// size of an upload, where there is one, as a number that can be read back.
pub proof fn lemma_options_told(
    f: headers::Fields,
    extensions: Option<HeaderValue>,
    max_size: u64,
    req: headers::Fields,
    opts: TusOptions,
)
    requires
        !f.contains_key(H_TUS_MAX_SIZE@),
    ensures
        ({
            let told = options_fields(f, extensions, max_size, req, opts);
            &&& headers::readable_text(told, H_TUS_VERSION@) == Some(TUS_VERSION@)
            &&& headers::readable_text(told, H_ACCESS_CONTROL_ALLOW_METHODS@) == Some(
                ALLOW_METHODS@,
            )
            &&& headers::readable_text(req, H_ACCESS_CONTROL_REQUEST_HEADERS@) is Some
                ==> headers::readable_text(told, H_ACCESS_CONTROL_ALLOW_HEADERS@)
                == headers::readable_text(req, H_ACCESS_CONTROL_REQUEST_HEADERS@)
            &&& told.contains_key(H_TUS_MAX_SIZE@) <==> max_size > 0
            &&& max_size > 0 ==> text::parsed_u64(
                headers::readable_text(told, H_TUS_MAX_SIZE@),
                H_TUS_MAX_SIZE,
            ) == Ok::<_, crate::error::ProtocolError>(max_size)
        }),
{
    lemma_literals();
    let begun = common::with_options(f, req, opts);
    headers::lemma_put_read_back(begun, H_TUS_VERSION@, TUS_VERSION@);
    headers::lemma_number_is_visible(max_size as nat);
    text::lemma_decimal_read_back(max_size);
    let spoken = headers::put(begun, H_TUS_VERSION@, TUS_VERSION@);
    let extended = match extensions {
        Some(value) => spoken.insert(H_TUS_EXTENSION@, seq![headers::value_bytes(value)]),
        None => spoken,
    };
    headers::lemma_put_read_back(extended, H_TUS_MAX_SIZE@, text::decimal(max_size as nat));
    let able = with_abilities(begun, extensions, max_size);
    headers::lemma_put_read_back(able, H_ACCESS_CONTROL_ALLOW_METHODS@, ALLOW_METHODS@);
    if let Some(asked) = headers::readable_text(req, H_ACCESS_CONTROL_REQUEST_HEADERS@) {
        let open = headers::put(able, H_ACCESS_CONTROL_ALLOW_METHODS@, ALLOW_METHODS@);
        headers::lemma_visible_is_value_text(asked);
        headers::lemma_put_read_back(open, H_ACCESS_CONTROL_ALLOW_HEADERS@, asked);
    }
    headers::lemma_names_differ(16, 17);
    headers::lemma_names_differ(16, 19);
    headers::lemma_names_differ(17, 19);
    headers::lemma_names_differ(1, 2);
    headers::lemma_names_differ(1, 3);
    headers::lemma_names_differ(1, 16);
    headers::lemma_names_differ(1, 17);
    headers::lemma_names_differ(1, 19);
    headers::lemma_names_differ(3, 2);
    headers::lemma_names_differ(3, 11);
    headers::lemma_names_differ(3, 13);
    headers::lemma_names_differ(3, 14);
    headers::lemma_names_differ(3, 15);
    headers::lemma_names_differ(3, 16);
    headers::lemma_names_differ(3, 17);
    headers::lemma_names_differ(3, 19);
}

/// All that a reply to an `OPTIONS` request tells: the extensions of the store,
/// where it has any; the methods; for how long that may be remembered; and the
/// header fields that the request asks for or else, where it asks for none, those
/// that are known and those that the server is set up for. It begins with the
/// fields of every such reply, and has no others than before.
pub proof fn lemma_options_fields(
    f: headers::Fields,
    extensions: Option<HeaderValue>,
    max_size: u64,
    req: headers::Fields,
    opts: TusOptions,
    name: Seq<char>,
)
    ensures
        ({
            let begun = common::with_options(f, req, opts);
            let told = options_fields(f, extensions, max_size, req, opts);
            let asked = headers::readable_text(req, H_ACCESS_CONTROL_REQUEST_HEADERS@);
            let written = name == H_TUS_VERSION@ || name == H_TUS_EXTENSION@ || name
                == H_TUS_MAX_SIZE@ || name == H_ACCESS_CONTROL_ALLOW_METHODS@ || name
                == H_ACCESS_CONTROL_ALLOW_HEADERS@ || name == H_ACCESS_CONTROL_MAX_AGE@;
            &&& !written ==> common::agree_on(begun, told, name)
            &&& extensions matches Some(value) ==> told.contains_key(H_TUS_EXTENSION@)
                && told[H_TUS_EXTENSION@] == seq![headers::value_bytes(value)]
            &&& extensions is None ==> common::agree_on(begun, told, H_TUS_EXTENSION@)
            &&& max_size == 0 ==> common::agree_on(begun, told, H_TUS_MAX_SIZE@)
            &&& headers::readable_text(told, H_ACCESS_CONTROL_MAX_AGE@) == Some("86400"@)
            &&& headers::readable_text(told, H_ACCESS_CONTROL_ALLOW_METHODS@) == Some(
                "OPTIONS, POST, HEAD, PATCH, DELETE, GET"@,
            )
            &&& asked is None ==> common::agree_on(
                told,
                headers::put_valid(
                    begun,
                    H_ACCESS_CONTROL_ALLOW_HEADERS@,
                    common::extended_list(ALLOW_HEADERS@, opts.allowed_headers@),
                ),
                H_ACCESS_CONTROL_ALLOW_HEADERS@,
            )
            &&& asked is Some ==> headers::readable_text(told, H_ACCESS_CONTROL_ALLOW_HEADERS@)
                == asked
            &&& allowed_headers(req, opts) == match asked {
                Some(asked) => asked,
                None => common::extended_list(ALLOW_HEADERS@, opts.allowed_headers@),
            }
        }),
{
    lemma_literals();
    let begun = common::with_options(f, req, opts);
    let able = with_abilities(begun, extensions, max_size);
    let open = headers::put(able, H_ACCESS_CONTROL_ALLOW_METHODS@, ALLOW_METHODS@);
    let list = allowed_headers(req, opts);
    headers::lemma_put_read_back(able, H_ACCESS_CONTROL_ALLOW_METHODS@, ALLOW_METHODS@);
    if let Some(asked) = headers::readable_text(req, H_ACCESS_CONTROL_REQUEST_HEADERS@) {
        headers::lemma_visible_is_value_text(asked);
        headers::lemma_put_read_back(open, H_ACCESS_CONTROL_ALLOW_HEADERS@, asked);
    }
    headers::lemma_put_read_back(
        headers::put_valid(open, H_ACCESS_CONTROL_ALLOW_HEADERS@, list),
        H_ACCESS_CONTROL_MAX_AGE@,
        MAX_AGE@,
    );
    headers::lemma_names_differ(1, 2);
    headers::lemma_names_differ(1, 3);
    headers::lemma_names_differ(1, 17);
    headers::lemma_names_differ(2, 3);
    headers::lemma_names_differ(2, 16);
    headers::lemma_names_differ(2, 17);
    headers::lemma_names_differ(2, 19);
    headers::lemma_names_differ(3, 16);
    headers::lemma_names_differ(3, 17);
    headers::lemma_names_differ(3, 19);
    headers::lemma_names_differ(16, 17);
    headers::lemma_names_differ(16, 19);
    headers::lemma_names_differ(17, 19);
}

} // verus!
