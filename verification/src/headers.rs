//! HTTP header fields.
//!
//! Header maps are kept in `salvo_core::http::HeaderMap`. Contracts speak of the
//! mathematical content of such a map: which field names it has, and which
//! values each of them carries, in order.

use salvo_core::http::header::{HeaderName, InvalidHeaderValue, ToStrError};
use salvo_core::http::{HeaderMap, HeaderValue};
use vstd::prelude::*;
use vstd::utf8::*;

use crate::text;

verus! {

/// The content of a header map: for each lower case field name, the values of
/// the field in the order in which they were added.
pub type Fields = Map<Seq<char>, Seq<Seq<u8>>>;

#[verifier::external_type_specification]
#[verifier::external_body]
#[verifier::reject_recursive_types(T)]
pub struct ExHeaderMap<T>(HeaderMap<T>);

#[verifier::external_type_specification]
#[verifier::external_body]
pub struct ExHeaderValue(HeaderValue);

#[verifier::external_type_specification]
#[verifier::external_body]
pub struct ExHeaderName(HeaderName);

#[verifier::external_type_specification]
#[verifier::external_body]
pub struct ExInvalidHeaderValue(InvalidHeaderValue);

#[verifier::external_type_specification]
#[verifier::external_body]
pub struct ExToStrError(ToStrError);

/// What a `HeaderMap` holds.
pub uninterp spec fn fields(map: HeaderMap<HeaderValue>) -> Fields;

/// The bytes that a `HeaderValue` holds.
pub uninterp spec fn value_bytes(value: HeaderValue) -> Seq<u8>;

/// The characters that a `HeaderName` holds.
pub uninterp spec fn name_text(name: HeaderName) -> Seq<char>;

/// How many field names a `HeaderMap` can have after an insertion that cannot
/// fail.
///
/// The table behind the map has at most 32768 slots, and an insertion may ask
/// for a larger one as soon as a fifth of the slots is taken.
pub const MAX_FIELD_NAMES: usize = 6554;

pub const H_TUS_RESUMABLE: &'static str = "tus-resumable";

pub const H_TUS_VERSION: &'static str = "tus-version";

pub const H_TUS_EXTENSION: &'static str = "tus-extension";

pub const H_TUS_MAX_SIZE: &'static str = "tus-max-size";

pub const H_UPLOAD_OFFSET: &'static str = "upload-offset";

pub const H_UPLOAD_LENGTH: &'static str = "upload-length";

pub const H_UPLOAD_DEFER_LENGTH: &'static str = "upload-defer-length";

pub const H_UPLOAD_METADATA: &'static str = "upload-metadata";

pub const H_UPLOAD_EXPIRES: &'static str = "upload-expires";

pub const H_CONTENT_TYPE: &'static str = "content-type";

pub const H_CONTENT_LENGTH: &'static str = "content-length";

pub const H_CACHE_CONTROL: &'static str = "cache-control";

pub const H_ORIGIN: &'static str = "origin";

pub const H_ACCESS_CONTROL_ALLOW_ORIGIN: &'static str = "access-control-allow-origin";

pub const H_ACCESS_CONTROL_ALLOW_CREDENTIALS: &'static str = "access-control-allow-credentials";

pub const H_ACCESS_CONTROL_EXPOSE_HEADERS: &'static str = "access-control-expose-headers";

pub const H_ACCESS_CONTROL_ALLOW_METHODS: &'static str = "access-control-allow-methods";

pub const H_ACCESS_CONTROL_ALLOW_HEADERS: &'static str = "access-control-allow-headers";

pub const H_ACCESS_CONTROL_REQUEST_HEADERS: &'static str = "access-control-request-headers";

pub const H_ACCESS_CONTROL_MAX_AGE: &'static str = "access-control-max-age";

/// The names of the fields that this library reads and writes.
pub open spec fn known_names() -> Seq<Seq<char>> {
    seq![
        H_TUS_RESUMABLE@,
        H_TUS_VERSION@,
        H_TUS_EXTENSION@,
        H_TUS_MAX_SIZE@,
        H_UPLOAD_OFFSET@,
        H_UPLOAD_LENGTH@,
        H_UPLOAD_DEFER_LENGTH@,
        H_UPLOAD_METADATA@,
        H_UPLOAD_EXPIRES@,
        H_CONTENT_TYPE@,
        H_CONTENT_LENGTH@,
        H_CACHE_CONTROL@,
        H_ORIGIN@,
        H_ACCESS_CONTROL_ALLOW_ORIGIN@,
        H_ACCESS_CONTROL_ALLOW_CREDENTIALS@,
        H_ACCESS_CONTROL_EXPOSE_HEADERS@,
        H_ACCESS_CONTROL_ALLOW_METHODS@,
        H_ACCESS_CONTROL_ALLOW_HEADERS@,
        H_ACCESS_CONTROL_REQUEST_HEADERS@,
        H_ACCESS_CONTROL_MAX_AGE@,
    ]
}

/// Characters that may stand in a field name: lower case letters, digits and
/// the dash.
pub open spec fn is_name_char(c: char) -> bool {
    'a' <= c <= 'z' || '0' <= c <= '9' || c == '-'
}

/// A short field name in its canonical, lower case form.
pub open spec fn is_field_name(s: Seq<char>) -> bool {
    &&& 0 < s.len() <= 64
    &&& forall|i: int| 0 <= i < s.len() ==> is_name_char(#[trigger] s[i])
}

/// Printable ASCII and the tab.
pub open spec fn is_visible(c: char) -> bool {
    ' ' <= c <= '~' || c == '\t'
}

/// Characters that a field value made from text may hold: everything but the
/// ASCII control characters, of which only the tab is accepted.
pub open spec fn is_value_char(c: char) -> bool {
    (' ' <= c && c != '\u{7f}') || c == '\t'
}

pub open spec fn is_value_text(s: Seq<char>) -> bool {
    forall|i: int| 0 <= i < s.len() ==> is_value_char(#[trigger] s[i])
}

pub open spec fn is_visible_text(s: Seq<char>) -> bool {
    forall|i: int| 0 <= i < s.len() ==> is_visible(#[trigger] s[i])
}

/// The text of a field value, where every byte of it is visible ASCII.
pub open spec fn visible_text(bytes: Seq<u8>) -> Option<Seq<char>> {
    let text = Seq::new(bytes.len(), |i: int| bytes[i] as char);
    if is_visible_text(text) {
        Some(text)
    } else {
        None
    }
}

/// Whether a map with this content has exactly `n` field names.
pub open spec fn has_names(f: Fields, n: nat) -> bool {
    f.dom().finite() && f.dom().len() == n
}

/// Whether `extra` names more can be added to a map with this content.
pub open spec fn has_room(f: Fields, extra: nat) -> bool {
    f.dom().finite() && f.dom().len() + extra <= MAX_FIELD_NAMES
}

/// Whether the items are those of a map with this content, field by field: an
/// item with a name opens a field, and the items without one that follow it
/// hold the field's further values.
pub open spec fn lists_fields(items: Seq<(Option<HeaderName>, HeaderValue)>, f: Fields) -> bool {
    &&& f.dom().finite()
    &&& forall|i: int|
        0 <= i < items.len() && (#[trigger] items[i]).0 is Some ==> {
            let name = name_text(items[i].0->0);
            &&& f.contains_key(name)
            &&& 0 < f[name].len() <= items.len() - i
            &&& forall|k: int|
                0 <= k < f[name].len() ==> f[name][k] == value_bytes(#[trigger] items[i + k].1)
            &&& forall|k: int| 0 < k < f[name].len() ==> (#[trigger] items[i + k]).0 is None
        }
    &&& forall|i: int, j: int|
        0 <= i < j < items.len() && (#[trigger] items[i]).0 is Some && (
        #[trigger] items[j]).0 is Some ==> name_text(items[i].0->0) != name_text(items[j].0->0)
    &&& forall|name: Seq<char>| #[trigger]
        f.contains_key(name) ==> exists|i: int|
            0 <= i < items.len() && (#[trigger] items[i]).0 is Some && name_text(items[i].0->0)
                == name
}

/// `HeaderName::from_static`: the name made of these characters.
#[verifier::external_body]
fn name_from_static(s: &'static str) -> (name: HeaderName)
    requires
        is_field_name(s@),
    ensures
        name_text(name) == s@,
{
    HeaderName::from_static(s)
}

/// `HeaderMap::get`: the first value of the field, where the map has it.
#[verifier::external_body]
fn map_get<'a>(map: &'a HeaderMap, name: &HeaderName) -> (value: Option<&'a HeaderValue>)
    ensures
        value is Some <==> fields(*map).contains_key(name_text(*name)),
        value matches Some(v) ==> {
            &&& fields(*map)[name_text(*name)].len() > 0
            &&& value_bytes(*v) == fields(*map)[name_text(*name)][0]
        },
{
    map.get(name)
}

/// `HeaderMap::contains_key`: whether the map has the field.
#[verifier::external_body]
pub(crate) fn map_contains_key(map: &HeaderMap, name: &HeaderName) -> (found: bool)
    ensures
        found == fields(*map).contains_key(name_text(*name)),
{
    map.contains_key(name)
}

/// `HeaderMap::insert`: the value replaces every value that the field had.
#[verifier::external_body]
pub(crate) fn map_insert(map: &mut HeaderMap, name: HeaderName, value: HeaderValue)
    requires
        has_room(fields(*old(map)), 1),
    ensures
        fields(*final(map)) == fields(*old(map)).insert(
            name_text(name),
            seq![value_bytes(value)],
        ),
{
    map.insert(name, value);
}

/// `HeaderMap::keys_len`: how many field names the map has.
#[verifier::external_body]
pub(crate) fn map_keys_len(map: &HeaderMap) -> (n: usize)
    ensures
        has_names(fields(*map), n as nat),
{
    map.keys_len()
}

/// `HeaderMap::into_iter`: each field of the map once, in no particular order;
/// the name stands beside the first value of the field, and the other values
/// follow without a name.
#[verifier::external_body]
pub(crate) fn map_into_items(map: HeaderMap) -> (items: Vec<(Option<HeaderName>, HeaderValue)>)
    ensures
        lists_fields(items@, fields(map)),
{
    map.into_iter().collect()
}

/// `HeaderValue::from_static`: the value made of these characters, all of them
/// visible ASCII.
#[verifier::external_body]
fn value_from_static(s: &'static str) -> (value: HeaderValue)
    requires
        is_visible_text(s@),
    ensures
        value_bytes(value) == encode_utf8(s@),
{
    HeaderValue::from_static(s)
}

/// `HeaderValue::from_str`: the value that holds the text, which may have no
/// control character but the tab.
#[verifier::external_body]
fn value_from_str(s: &str) -> (value: Result<HeaderValue, InvalidHeaderValue>)
    ensures
        value is Ok <==> is_value_text(s@),
        value matches Ok(v) ==> value_bytes(v) == encode_utf8(s@),
{
    HeaderValue::from_str(s)
}

/// `HeaderValue::to_str`: the text of a value all of whose bytes are visible
/// ASCII.
#[verifier::external_body]
fn value_to_str(value: &HeaderValue) -> (text: Result<&str, ToStrError>)
    ensures
        text is Ok <==> visible_text(value_bytes(*value)) is Some,
        text matches Ok(t) ==> visible_text(value_bytes(*value)) == Some(t@),
{
    value.to_str()
}

/// The text of the first value of a field: nothing where the map lacks the
/// field, and `Some(None)` where the value holds something else than visible
/// ASCII.
pub open spec fn field_text(f: Fields, name: Seq<char>) -> Option<Option<Seq<char>>> {
    if f.contains_key(name) {
        Some(visible_text(f[name][0]))
    } else {
        None
    }
}

/// The text of the first value of a field, where there is one that is visible
/// ASCII.
pub open spec fn readable_text(f: Fields, name: Seq<char>) -> Option<Seq<char>> {
    match field_text(f, name) {
        Some(text) => text,
        None => None,
    }
}

/// The content after the field has been given this text as its only value.
pub open spec fn put(f: Fields, name: Seq<char>, text: Seq<char>) -> Fields {
    f.insert(name, seq![encode_utf8(text)])
}

/// The content after the field has been given this text, where a field value
/// can hold it.
pub open spec fn put_valid(f: Fields, name: Seq<char>, text: Seq<char>) -> Fields {
    if is_value_text(text) {
        put(f, name, text)
    } else {
        f
    }
}

pub open spec fn opt_view(text: Option<&str>) -> Option<Seq<char>> {
    match text {
        Some(t) => Some(t@),
        None => None,
    }
}

/// The names of the known fields are field names, and differ from each other.
pub proof fn lemma_known_names()
    ensures
        known_names().no_duplicates(),
        forall|i: int|
            0 <= i < known_names().len() ==> is_field_name(#[trigger] known_names()[i]),
{
    reveal_strlit("tus-resumable");
    reveal_strlit("tus-version");
    reveal_strlit("tus-extension");
    reveal_strlit("tus-max-size");
    reveal_strlit("upload-offset");
    reveal_strlit("upload-length");
    reveal_strlit("upload-defer-length");
    reveal_strlit("upload-metadata");
    reveal_strlit("upload-expires");
    reveal_strlit("content-type");
    reveal_strlit("content-length");
    reveal_strlit("cache-control");
    reveal_strlit("origin");
    reveal_strlit("access-control-allow-origin");
    reveal_strlit("access-control-allow-credentials");
    reveal_strlit("access-control-expose-headers");
    reveal_strlit("access-control-allow-methods");
    reveal_strlit("access-control-allow-headers");
    reveal_strlit("access-control-request-headers");
    reveal_strlit("access-control-max-age");
    let names = known_names();
    assert forall|i: int| 0 <= i < names.len() implies is_field_name(#[trigger] names[i]) by {}
    assert forall|i: int, j: int| 0 <= i < j < names.len() implies names[i] != names[j] by {
        // Length, first character and one further character tell the names apart.
        assert(names[i].len() != names[j].len() || names[i][0] != names[j][0] || names[i][7]
            != names[j][7] || names[i][21] != names[j][21]);
    }
}

/// Each name of a known field is a field name.
pub proof fn lemma_field_names()
    ensures
        is_field_name(H_TUS_RESUMABLE@),
        is_field_name(H_TUS_VERSION@),
        is_field_name(H_TUS_EXTENSION@),
        is_field_name(H_TUS_MAX_SIZE@),
        is_field_name(H_UPLOAD_OFFSET@),
        is_field_name(H_UPLOAD_LENGTH@),
        is_field_name(H_UPLOAD_DEFER_LENGTH@),
        is_field_name(H_UPLOAD_METADATA@),
        is_field_name(H_UPLOAD_EXPIRES@),
        is_field_name(H_CONTENT_TYPE@),
        is_field_name(H_CONTENT_LENGTH@),
        is_field_name(H_CACHE_CONTROL@),
        is_field_name(H_ORIGIN@),
        is_field_name(H_ACCESS_CONTROL_ALLOW_ORIGIN@),
        is_field_name(H_ACCESS_CONTROL_ALLOW_CREDENTIALS@),
        is_field_name(H_ACCESS_CONTROL_EXPOSE_HEADERS@),
        is_field_name(H_ACCESS_CONTROL_ALLOW_METHODS@),
        is_field_name(H_ACCESS_CONTROL_ALLOW_HEADERS@),
        is_field_name(H_ACCESS_CONTROL_REQUEST_HEADERS@),
        is_field_name(H_ACCESS_CONTROL_MAX_AGE@),
{
    lemma_known_names();
    let names = known_names();
    assert(names[0] == H_TUS_RESUMABLE@);
    assert(names[1] == H_TUS_VERSION@);
    assert(names[2] == H_TUS_EXTENSION@);
    assert(names[3] == H_TUS_MAX_SIZE@);
    assert(names[4] == H_UPLOAD_OFFSET@);
    assert(names[5] == H_UPLOAD_LENGTH@);
    assert(names[6] == H_UPLOAD_DEFER_LENGTH@);
    assert(names[7] == H_UPLOAD_METADATA@);
    assert(names[8] == H_UPLOAD_EXPIRES@);
    assert(names[9] == H_CONTENT_TYPE@);
    assert(names[10] == H_CONTENT_LENGTH@);
    assert(names[11] == H_CACHE_CONTROL@);
    assert(names[12] == H_ORIGIN@);
    assert(names[13] == H_ACCESS_CONTROL_ALLOW_ORIGIN@);
    assert(names[14] == H_ACCESS_CONTROL_ALLOW_CREDENTIALS@);
    assert(names[15] == H_ACCESS_CONTROL_EXPOSE_HEADERS@);
    assert(names[16] == H_ACCESS_CONTROL_ALLOW_METHODS@);
    assert(names[17] == H_ACCESS_CONTROL_ALLOW_HEADERS@);
    assert(names[18] == H_ACCESS_CONTROL_REQUEST_HEADERS@);
    assert(names[19] == H_ACCESS_CONTROL_MAX_AGE@);
}

pub proof fn lemma_visible_is_value_text(text: Seq<char>)
    requires
        is_visible_text(text),
    ensures
        is_value_text(text),
{
    assert forall|i: int| 0 <= i < text.len() implies is_value_char(#[trigger] text[i]) by {
        assert(is_visible(text[i]));
    }
}

/// A number in decimal is visible ASCII.
pub proof fn lemma_number_is_visible(n: nat)
    ensures
        is_visible_text(text::decimal(n)),
{
    text::lemma_decimal_digits(n);
    let digits = text::decimal(n);
    assert forall|i: int| 0 <= i < digits.len() implies is_visible(#[trigger] digits[i]) by {
        assert(text::is_digit(digits[i]));
    }
}

/// Text made of visible ASCII is read back from a field as it was written.
pub proof fn lemma_visible_text_read_back(text: Seq<char>)
    requires
        is_visible_text(text),
    ensures
        visible_text(encode_utf8(text)) == Some(text),
{
    assert(is_ascii_chars(text)) by {
        assert forall|i: int| 0 <= i < text.len() implies '\0' <= #[trigger] text[i] <= '\u{7f}' by {
            assert(is_visible(text[i]));
        }
    }
    is_ascii_chars_encode_utf8(text);
    let bytes = encode_utf8(text);
    let shown = Seq::new(bytes.len(), |i: int| bytes[i] as char);
    assert(shown =~= text);
}

/// Whether `extra` field names more can be added to the map.
pub fn room(map: &HeaderMap, extra: usize) -> (fits: bool)
    ensures
        fits == has_room(fields(*map), extra as nat),
{
    let n = map_keys_len(map);
    n <= MAX_FIELD_NAMES && extra <= MAX_FIELD_NAMES - n
}

/// Reads the text of a field.
pub(crate) fn read<'a>(map: &'a HeaderMap, name: &'static str) -> (text: Option<Option<&'a str>>)
    requires
        is_field_name(name@),
    ensures
        text is Some <==> field_text(fields(*map), name@) is Some,
        text matches Some(t) ==> field_text(fields(*map), name@) == Some(opt_view(t)),
{
    let name = name_from_static(name);
    match map_get(map, &name) {
        Some(value) => match value_to_str(value) {
            Ok(text) => Some(Some(text)),
            Err(_) => Some(None),
        },
        None => None,
    }
}

/// Reads the text of a field, where there is one that is visible ASCII.
pub(crate) fn read_text<'a>(map: &'a HeaderMap, name: &'static str) -> (text: Option<&'a str>)
    requires
        is_field_name(name@),
    ensures
        opt_view(text) == readable_text(fields(*map), name@),
{
    match read(map, name) {
        Some(text) => text,
        None => None,
    }
}

/// Gives a field a fixed text as its only value.
pub(crate) fn write_static(map: &mut HeaderMap, name: &'static str, text: &'static str)
    requires
        is_field_name(name@),
        is_visible_text(text@),
        has_room(fields(*old(map)), 1),
    ensures
        fields(*final(map)) == put(fields(*old(map)), name@, text@),
        forall|n: nat|
            has_room(fields(*old(map)), n + 1) ==> #[trigger] has_room(fields(*final(map)), n),
{
    let ghost f = fields(*map);
    map_insert(map, name_from_static(name), value_from_static(text));
    assert(fields(*map).dom() =~= f.dom().insert(name@));
}

/// Gives a field a text as its only value; a text that no field value can hold
/// is left out.
pub(crate) fn write_text(map: &mut HeaderMap, name: &'static str, text: &str) -> (written: bool)
    requires
        is_field_name(name@),
        has_room(fields(*old(map)), 1),
    ensures
        written == is_value_text(text@),
        fields(*final(map)) == put_valid(fields(*old(map)), name@, text@),
        forall|n: nat|
            has_room(fields(*old(map)), n + 1) ==> #[trigger] has_room(fields(*final(map)), n),
{
    let ghost f = fields(*map);
    match value_from_str(text) {
        Ok(value) => {
            map_insert(map, name_from_static(name), value);
            assert(fields(*map).dom() =~= f.dom().insert(name@));
            true
        },
        Err(_) => false,
    }
}

/// Whether a field value can hold the text.
pub fn is_printable(text: &str) -> (fits: bool)
    ensures
        fits == is_value_text(text@),
{
    value_from_str(text).is_ok()
}

/// Gives a field a number as its only value.
pub(crate) fn write_number(map: &mut HeaderMap, name: &'static str, number: u64)
    requires
        is_field_name(name@),
        has_room(fields(*old(map)), 1),
    ensures
        fields(*final(map)) == put(fields(*old(map)), name@, text::decimal(number as nat)),
        forall|n: nat|
            has_room(fields(*old(map)), n + 1) ==> #[trigger] has_room(fields(*final(map)), n),
{
    let digits = text::decimal_text(number);
    proof {
        lemma_number_is_visible(number as nat);
        lemma_visible_is_value_text(digits@);
    }
    write_text(map, name, digits.as_str());
}

/// Gives a field an existing value as its only value.
pub(crate) fn write_value(map: &mut HeaderMap, name: &'static str, value: HeaderValue)
    requires
        is_field_name(name@),
        has_room(fields(*old(map)), 1),
    ensures
        fields(*final(map)) == fields(*old(map)).insert(name@, seq![value_bytes(value)]),
        forall|n: nat|
            has_room(fields(*old(map)), n + 1) ==> #[trigger] has_room(fields(*final(map)), n),
{
    let ghost f = fields(*map);
    map_insert(map, name_from_static(name), value);
    assert(fields(*map).dom() =~= f.dom().insert(name@));
}

/// Two known fields at different places of the list have different names.
pub proof fn lemma_names_differ(i: int, j: int)
    requires
        0 <= i < known_names().len(),
        0 <= j < known_names().len(),
        i != j,
    ensures
        known_names()[i] != known_names()[j],
{
    lemma_known_names();
}

/// Visible ASCII that a field has been given is read back.
pub proof fn lemma_put_read_back(f: Fields, name: Seq<char>, text: Seq<char>)
    requires
        is_visible_text(text),
    ensures
        readable_text(put(f, name, text), name) == Some(text),
{
    lemma_visible_text_read_back(text);
}

/// The text of a field is made of the bytes of its first value, one character
/// for each of them. A field whose first value holds another byte than printable
/// ASCII and the tab has no text, but it is there.
pub proof fn lemma_text_of_field(f: Fields, name: Seq<char>)
    ensures
        !f.contains_key(name) ==> field_text(f, name) is None && readable_text(f, name) is None,
        f.contains_key(name) ==> {
            let bytes = f[name][0];
            let plain = forall|i: int|
                0 <= i < bytes.len() ==> 32 <= #[trigger] bytes[i] <= 126 || bytes[i] == 9;
            &&& field_text(f, name) is Some
            &&& field_text(f, name)->0 == readable_text(f, name)
            &&& readable_text(f, name) is Some <==> plain
            &&& plain ==> {
                &&& (readable_text(f, name)->0).len() == bytes.len()
                &&& forall|i: int|
                    0 <= i < bytes.len() ==> (#[trigger] (readable_text(f, name)->0)[i]) as int
                        == bytes[i] as int
            }
        },
{
    if f.contains_key(name) {
        let bytes = f[name][0];
        let text = Seq::new(bytes.len(), |i: int| bytes[i] as char);
        assert forall|i: int| 0 <= i < bytes.len() implies (is_visible(#[trigger] text[i]) <==> (32
            <= bytes[i] <= 126 || bytes[i] == 9)) by {}
        if is_visible_text(text) {
            assert forall|i: int| 0 <= i < bytes.len() implies 32 <= #[trigger] bytes[i] <= 126
                || bytes[i] == 9 by {
                assert(is_visible(text[i]));
            }
        }
    }
}

/// A field that is given a text has it as its only value afterwards, and no other
/// field changes.
pub proof fn lemma_put_replaces(f: Fields, name: Seq<char>, text: Seq<char>, other: Seq<char>)
    ensures
        put(f, name, text).contains_key(name),
        put(f, name, text)[name].len() == 1,
        put(f, name, text)[name][0] == encode_utf8(text),
        other != name ==> put(f, name, text).contains_key(other) == f.contains_key(other),
        other != name && f.contains_key(other) ==> put(f, name, text)[other] == f[other],
{
}

/// A text is put into a field if and only if it has no control character but the
/// tab; else no field changes.
pub proof fn lemma_put_valid_text(f: Fields, name: Seq<char>, text: Seq<char>)
    ensures
        is_value_text(text) <==> forall|i: int|
            0 <= i < text.len() ==> (#[trigger] text[i]) as int >= 32 && text[i] as int != 127
                || text[i] == '\t',
        is_value_text(text) ==> put_valid(f, name, text) == put(f, name, text),
        !is_value_text(text) ==> put_valid(f, name, text) == f,
{
    if is_value_text(text) {
        assert forall|i: int| 0 <= i < text.len() implies (#[trigger] text[i]) as int >= 32
            && text[i] as int != 127 || text[i] == '\t' by {
            assert(is_value_char(text[i]));
        }
    }
}

/// A map has room for names as long as there are not more than a map can have.
pub proof fn lemma_room_for_names(f: Fields, extra: nat)
    ensures
        has_room(f, extra) <==> f.dom().finite() && f.dom().len() + extra <= 6554,
{
}

/// A text that may be absent is told by its characters, where it is there.
pub proof fn lemma_optional_text(text: &str)
    ensures
        opt_view(Some(text)) == Some(text@),
        opt_view(None) is None,
{
}

} // verus!
