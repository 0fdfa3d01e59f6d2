//! The metadata of an upload and the header field that carries it.
//!
//! The field is a list of items, separated by commas. An item is a key, or a
//! key and a value in base64 with a space between them.

use base64::engine::general_purpose::STANDARD;
use base64::{DecodeError, Engine};
use std::ops::{Deref, DerefMut};
use vstd::prelude::*;
use vstd::utf8::*;

use crate::error::ProtocolError;
use crate::headers;
use crate::text;

verus! {

#[verifier::external_type_specification]
#[verifier::external_body]
pub struct ExDecodeError(DecodeError);

/// The bytes that a text in base64 stands for, where it is well formed.
pub uninterp spec fn base64_decoded(text: Seq<char>) -> Option<Seq<u8>>;

/// The text in base64 that stands for the bytes.
pub uninterp spec fn base64_encoded(bytes: Seq<u8>) -> Seq<char>;

/// The text that bytes hold which are not well formed UTF-8, with a replacement
/// for what is wrong in them.
pub uninterp spec fn utf8_repaired(bytes: Seq<u8>) -> Seq<char>;

/// The text that the bytes hold in UTF-8, with a replacement for what is not
/// well formed.
pub open spec fn utf8_lossy(bytes: Seq<u8>) -> Seq<char> {
    if valid_utf8(bytes) {
        decode_utf8(bytes)
    } else {
        utf8_repaired(bytes)
    }
}

/// How long the base64 form of `n` bytes is.
pub open spec fn base64_len(n: nat) -> nat {
    (n + 2) / 3 * 4
}

/// Characters of the base64 alphabet, and the padding.
pub open spec fn is_base64_char(c: char) -> bool {
    'A' <= c <= 'Z' || 'a' <= c <= 'z' || '0' <= c <= '9' || c == '+' || c == '/' || c == '='
}

/// `Engine::decode` of the standard engine: a function of the text, which
/// accepts nothing but what `Engine::encode` writes.
#[verifier::external_body]
fn decode_standard(text: &str) -> (bytes: Result<Vec<u8>, DecodeError>)
    ensures
        bytes is Ok <==> base64_decoded(text@) is Some,
        bytes matches Ok(b) ==> {
            &&& base64_decoded(text@) == Some(b@)
            &&& base64_encoded(b@) == text@
        },
{
    STANDARD.decode(text)
}

/// `Engine::encode` of the standard engine: a function of the bytes, in the
/// standard alphabet and padded, from which `Engine::decode` gets the bytes
/// back. The text must not be longer than an allocation can be.
#[verifier::external_body]
fn encode_standard(bytes: &[u8]) -> (text: String)
    requires
        base64_len(bytes@.len()) <= isize::MAX,
    ensures
        text@ == base64_encoded(bytes@),
        base64_decoded(text@) == Some(bytes@),
        text@.len() == base64_len(bytes@.len()),
        forall|i: int| 0 <= i < text@.len() ==> is_base64_char(#[trigger] text@[i]),
{
    STANDARD.encode(bytes)
}

/// `String::from_utf8_lossy`: well formed UTF-8 is decoded; what becomes of
/// other bytes is a function of them.
#[verifier::external_body]
fn string_from_utf8_lossy(bytes: &Vec<u8>) -> (text: String)
    ensures
        valid_utf8(bytes@) ==> text@ == decode_utf8(bytes@),
        !valid_utf8(bytes@) ==> text@ == utf8_repaired(bytes@),
{
    String::from_utf8_lossy(bytes).to_string()
}

/// A key and, where there is one, its value.
pub type Entry = (Seq<char>, Option<Seq<char>>);

pub open spec fn entry_view(entry: (String, Option<String>)) -> Entry {
    match entry.1 {
        Some(value) => (entry.0@, Some(value@)),
        None => (entry.0@, None),
    }
}

pub open spec fn entries_view(entries: Seq<(String, Option<String>)>) -> Seq<Entry> {
    entries.map_values(|e: (String, Option<String>)| entry_view(e))
}

/// No key occurs twice.
pub open spec fn distinct_keys(entries: Seq<Entry>) -> bool {
    forall|i: int, j: int|
        0 <= i < j < entries.len() ==> (#[trigger] entries[i]).0 != (#[trigger] entries[j]).0
}

/// The metadata of an upload: keys, each with a value or without one, in the
/// order in which they were given.
#[derive(Clone, Debug, Default)]
pub struct Metadata(pub Vec<(String, Option<String>)>);

impl View for Metadata {
    type V = Seq<Entry>;

    open spec fn view(&self) -> Seq<Entry> {
        entries_view(self.0@)
    }
}

impl Metadata {
    /// Whether no key occurs twice.
    pub open spec fn wf(self) -> bool {
        distinct_keys(self@)
    }
}

impl Deref for Metadata {
    type Target = Vec<(String, Option<String>)>;

    fn deref(&self) -> (entries: &Vec<(String, Option<String>)>)
        ensures
            *entries == self.0,
    {
        &self.0
    }
}

impl DerefMut for Metadata {
    /// The entries, to be changed at will; [`Metadata::insert`] keeps the keys
    /// distinct.
    fn deref_mut(&mut self) -> (entries: &mut Vec<(String, Option<String>)>)
        ensures
            *entries == old(self).0,
            final(self).0 == *final(entries),
    {
        &mut self.0
    }
}

/// White space as Unicode has it.
pub open spec fn is_white_space(c: char) -> bool {
    ||| '\u{9}' <= c <= '\u{d}'
    ||| c == '\u{20}'
    ||| c == '\u{85}'
    ||| c == '\u{a0}'
    ||| c == '\u{1680}'
    ||| '\u{2000}' <= c <= '\u{200a}'
    ||| c == '\u{2028}'
    ||| c == '\u{2029}'
    ||| c == '\u{202f}'
    ||| c == '\u{205f}'
    ||| c == '\u{3000}'
}

/// Nothing but white space.
pub open spec fn is_blank(s: Seq<char>) -> bool {
    forall|i: int| 0 <= i < s.len() ==> is_white_space(#[trigger] s[i])
}

pub open spec fn is_valid_key(key: Seq<char>) -> bool {
    key.len() > 0 && !key.contains(' ') && !key.contains(',')
}

/// A value in base64 that is not empty.
pub open spec fn is_valid_value(value: Seq<char>) -> bool {
    value.len() > 0 && base64_decoded(value) is Some
}

/// The key and the encoded value of an item.
pub open spec fn item_parts(item: Seq<char>) -> Option<Entry> {
    let tokens = text::split_on(item, ' ');
    if tokens.len() > 2 || !is_valid_key(tokens[0]) {
        None
    } else if tokens.len() == 1 {
        Some((tokens[0], None))
    } else if tokens[1].len() == 0 {
        None
    } else {
        Some((tokens[0], Some(tokens[1])))
    }
}

/// The keys and encoded values of a metadata field, where it follows the
/// grammar.
pub open spec fn field_items(raw: Seq<char>) -> Option<Seq<Entry>> {
    let items = text::split_on(raw, ',');
    let parts = items.map_values(|item: Seq<char>| item_parts(item));
    let entries = parts.map_values(|part: Option<Entry>| part->0);
    if is_blank(raw) || parts.contains(None) || !distinct_keys(entries) {
        None
    } else {
        Some(entries)
    }
}

/// An entry with its value decoded.
pub open spec fn decoded_entry(entry: Entry) -> Option<Entry> {
    match entry.1 {
        Some(value) => match base64_decoded(value) {
            Some(bytes) => Some((entry.0, Some(utf8_lossy(bytes)))),
            None => None,
        },
        None => Some(entry),
    }
}

/// The entries with their values decoded, where each of them can be.
pub open spec fn decoded_entries(entries: Seq<Entry>) -> Option<Seq<Entry>> {
    let decoded = entries.map_values(|entry: Entry| decoded_entry(entry));
    if decoded.contains(None) {
        None
    } else {
        Some(decoded.map_values(|entry: Option<Entry>| entry->0))
    }
}

/// The metadata that a field carries, where it is well formed.
pub open spec fn field_metadata(raw: Seq<char>) -> Option<Seq<Entry>> {
    match field_items(raw) {
        Some(entries) => decoded_entries(entries),
        None => None,
    }
}

fn white_space(c: char) -> (white: bool)
    ensures
        white == is_white_space(c),
{
    ('\u{9}' <= c && c <= '\u{d}') || c == '\u{20}' || c == '\u{85}' || c == '\u{a0}' || c
        == '\u{1680}' || ('\u{2000}' <= c && c <= '\u{200a}') || c == '\u{2028}' || c == '\u{2029}'
        || c == '\u{202f}' || c == '\u{205f}' || c == '\u{3000}'
}

/// Whether nothing is left of a text when white space is trimmed.
pub fn blank(text: &str) -> (all: bool)
    ensures
        all == is_blank(text@),
{
    let chars = text::chars_of(text);
    let mut i: usize = 0;
    while i < chars.len()
        invariant
            chars@ == text@,
            i <= chars.len(),
            forall|k: int| 0 <= k < i ==> is_white_space(#[trigger] text@[k]),
        decreases chars.len() - i,
    {
        if !white_space(chars[i]) {
            assert(!is_white_space(text@[i as int]));
            return false;
        }
        i += 1;
    }
    true
}

/// Whether a text can be a metadata key.
pub fn validate_key(key: &str) -> (valid: bool)
    ensures
        valid == is_valid_key(key@),
{
    !key.is_empty() && !text::has_char(key, ' ') && !text::has_char(key, ',')
}

/// Whether a text can be the value of a metadata item.
pub fn validate_value(value: &str) -> (valid: bool)
    ensures
        valid == is_valid_value(value@),
{
    if value.is_empty() {
        return false;
    }
    decode_standard(value).is_ok()
}

/// An item with this key and, where there is one, this encoded value.
pub open spec fn item_of(key: Seq<char>, encoded: Option<Seq<char>>) -> Seq<char> {
    match encoded {
        Some(value) => key + " "@ + value,
        None => key,
    }
}

/// The item that stands for an entry.
pub open spec fn entry_text(entry: Entry) -> Seq<char> {
    match entry.1 {
        Some(value) => item_of(entry.0, Some(base64_encoded(encode_utf8(value)))),
        None => item_of(entry.0, None),
    }
}

/// The items that stand for the entries, with a comma and a space between them.
pub open spec fn metadata_text(entries: Seq<Entry>) -> Seq<char> {
    text::joined(entries.map_values(|entry: Entry| entry_text(entry)), ", "@)
}

/// Whether the value of the entry is short enough to be written in base64.
pub open spec fn is_encodable(entry: Entry) -> bool {
    entry.1 matches Some(value) ==> base64_len(encode_utf8(value).len()) <= isize::MAX
}

/// Whether an entry can be told from its item: the key must be one that an
/// item can have, and the item must not be blank, nor its value empty.
pub open spec fn is_readable(entry: Entry) -> bool {
    is_valid_key(entry.0) && match entry.1 {
        Some(value) => value.len() > 0,
        None => !is_blank(entry.0),
    }
}

/// Whether the value of an entry is encoded in the base64 alphabet, in a way
/// that can be decoded.
pub open spec fn encodes_value(entry: Entry) -> bool {
    entry.1 matches Some(value) ==> {
        let bytes = encode_utf8(value);
        let encoded = base64_encoded(bytes);
        &&& base64_decoded(encoded) == Some(bytes)
        &&& encoded.len() == base64_len(bytes.len())
        &&& forall|i: int| 0 <= i < encoded.len() ==> is_base64_char(#[trigger] encoded[i])
    }
}

/// The item of an entry holds no comma.
proof fn lemma_entry_has_no_comma(entry: Entry)
    requires
        is_readable(entry),
        encodes_value(entry),
    ensures
        !entry_text(entry).contains(','),
{
    reveal_strlit(" ");
    let item = entry_text(entry);
    assert forall|i: int| 0 <= i < item.len() implies item[i] != ',' by {
        if i < entry.0.len() {
            assert(entry.0.contains(entry.0[i]));
        } else if let Some(value) = entry.1 {
            let encoded = base64_encoded(encode_utf8(value));
            if i > entry.0.len() {
                assert(item[i] == encoded[i - entry.0.len() - 1]);
                assert(is_base64_char(encoded[i - entry.0.len() - 1]));
            }
        }
    }
}

/// A single entry is read back as it was written.
proof fn lemma_entry_read_back(entry: Entry)
    requires
        is_readable(entry),
        encodes_value(entry),
    ensures
        field_metadata(entry_text(entry)) == Some(seq![entry]),
{
    reveal_strlit(" ");
    let raw = entry_text(entry);
    lemma_entry_has_no_comma(entry);
    text::lemma_split_without_separator(raw, ',');
    text::lemma_split_without_separator(entry.0, ' ');
    let encoded: Entry = match entry.1 {
        Some(value) => (entry.0, Some(base64_encoded(encode_utf8(value)))),
        None => entry,
    };
    match entry.1 {
        Some(value) => {
            let bytes = encode_utf8(value);
            let written = base64_encoded(bytes);
            assert(encode_scalar(value[0] as u32).len() > 0);
            assert(bytes.len() > 0);
            assert(!written.contains(' ')) by {
                assert forall|i: int| 0 <= i < written.len() implies written[i] != ' ' by {
                    assert(is_base64_char(written[i]));
                }
            }
            text::lemma_split_without_separator(written, ' ');
            assert(" "@ =~= seq![' ']);
            text::lemma_split_between(entry.0, written, ' ');
            assert(text::split_on(raw, ' ') =~= seq![entry.0, written]);
            assert(is_base64_char(written[0]));
            assert(raw[entry.0.len() as int + 1] == written[0]);
            assert(!is_white_space(raw[entry.0.len() as int + 1]));
            encode_utf8_valid_utf8(value);
            encode_utf8_decode_utf8(value);
        },
        None => {},
    }
    assert(item_parts(raw) == Some(encoded));
    let parts = seq![raw].map_values(|item: Seq<char>| item_parts(item));
    assert(parts =~= seq![Some(encoded)]);
    assert(!parts.contains(None));
    assert(parts.map_values(|part: Option<Entry>| part->0) =~= seq![encoded]);
    assert(field_items(raw) == Some(seq![encoded]));
    let decoded = seq![encoded].map_values(|entry: Entry| decoded_entry(entry));
    assert(decoded =~= seq![Some(entry)]);
    assert(!decoded.contains(None));
    assert(decoded.map_values(|entry: Option<Entry>| entry->0) =~= seq![entry]);
}

/// An entry that cannot be told from its item is not read back.
proof fn lemma_entry_not_read_back(entry: Entry)
    requires
        !is_readable(entry),
        encodes_value(entry),
    ensures
        field_metadata(entry_text(entry)) != Some(seq![entry]),
{
    reveal_strlit(" ");
    let raw = entry_text(entry);
    if field_metadata(raw) == Some(seq![entry]) {
        lemma_metadata_keys(raw);
        assert(field_metadata(raw)->0[0] == entry);
        if let Some(value) = entry.1 {
            let written = base64_encoded(encode_utf8(value));
            assert(written =~= Seq::<char>::empty());
            assert(raw =~= entry.0 + seq![' '] + written);
            assert(!raw.contains(',')) by {
                assert forall|i: int| 0 <= i < raw.len() implies raw[i] != ',' by {
                    if i < entry.0.len() {
                        assert(entry.0.contains(entry.0[i]));
                    }
                }
            }
            text::lemma_split_without_separator(raw, ',');
            text::lemma_split_without_separator(entry.0, ' ');
            text::lemma_split_between(entry.0, written, ' ');
            text::lemma_split_without_separator(written, ' ');
            assert(text::split_on(raw, ' ') =~= seq![entry.0, written]);
            assert(item_parts(raw) is None);
            let parts = seq![raw].map_values(|item: Seq<char>| item_parts(item));
            assert(parts[0] is None);
            assert(parts.contains(None));
        }
    }
}

/// No list but that of a single item is read back, because an item must not
/// begin with a space.
proof fn lemma_list_not_read_back(list: Seq<Seq<char>>)
    requires
        list.len() != 1,
    ensures
        field_items(text::joined(list, ", "@)) is None,
{
    reveal_strlit(", ");
    let raw = text::joined(list, ", "@);
    if list.len() > 1 {
        let front = text::joined(list.drop_last(), ", "@);
        let back = seq![' '] + list.last();
        assert(raw =~= front + seq![','] + back);
        text::lemma_split_between(front, back, ',');
        text::lemma_split_first_piece(back, ',');
        let n = text::split_on(front, ',').len() as int;
        let item = text::split_on(raw, ',')[n];
        assert(item == text::split_on(back, ',')[0]);
        text::lemma_split_first_piece(item, ' ');
        assert(item_parts(item) is None);
        let parts = text::split_on(raw, ',').map_values(|item: Seq<char>| item_parts(item));
        assert(parts[n] == item_parts(item));
        assert(parts.contains(None));
    }
}

/// Whether a header field can hold each of the keys.
pub open spec fn has_printable_keys(entries: Seq<Entry>) -> bool {
    forall|i: int| 0 <= i < entries.len() ==> headers::is_value_text((#[trigger] entries[i]).0)
}

/// A header field can hold two texts, one behind the other, if and only if it
/// can hold each of them.
proof fn lemma_value_text_concat(a: Seq<char>, b: Seq<char>)
    ensures
        headers::is_value_text(a + b) <==> headers::is_value_text(a) && headers::is_value_text(b),
{
    if headers::is_value_text(a + b) {
        assert forall|i: int| 0 <= i < a.len() implies headers::is_value_char(#[trigger] a[i]) by {
            assert((a + b)[i] == a[i]);
        }
        assert forall|i: int| 0 <= i < b.len() implies headers::is_value_char(#[trigger] b[i]) by {
            assert((a + b)[a.len() + i] == b[i]);
        }
    }
}

/// A header field can hold the item of an entry if and only if it can hold the
/// key.
proof fn lemma_printable_entry(entry: Entry)
    requires
        encodes_value(entry),
    ensures
        headers::is_value_text(entry_text(entry)) <==> headers::is_value_text(entry.0),
{
    reveal_strlit(" ");
    if let Some(value) = entry.1 {
        let encoded = base64_encoded(encode_utf8(value));
        assert forall|i: int| 0 <= i < encoded.len() implies headers::is_value_char(
            #[trigger] encoded[i],
        ) by {
            assert(is_base64_char(encoded[i]));
        }
        lemma_value_text_concat(entry.0, " "@);
        lemma_value_text_concat(entry.0 + " "@, encoded);
    }
}

/// A header field can hold metadata if and only if it can hold each of the keys.
proof fn lemma_printable_metadata(entries: Seq<Entry>)
    requires
        forall|i: int| 0 <= i < entries.len() ==> encodes_value(#[trigger] entries[i]),
    ensures
        headers::is_value_text(metadata_text(entries)) <==> has_printable_keys(entries),
    decreases entries.len(),
{
    reveal_strlit(", ");
    let all = entries.map_values(|entry: Entry| entry_text(entry));
    if entries.len() > 0 {
        let rest = entries.drop_last();
        assert(encodes_value(entries[entries.len() - 1]));
        lemma_printable_entry(entries.last());
        assert(all.drop_last() =~= rest.map_values(|entry: Entry| entry_text(entry)));
        assert(all.last() == entry_text(entries.last()));
        assert forall|i: int| 0 <= i < rest.len() implies encodes_value(#[trigger] rest[i]) by {
            assert(rest[i] == entries[i]);
        }
        lemma_printable_metadata(rest);
        assert(has_printable_keys(entries) <==> has_printable_keys(rest) && headers::is_value_text(
            entries.last().0,
        )) by {
            if has_printable_keys(entries) {
                assert forall|i: int| 0 <= i < rest.len() implies headers::is_value_text(
                    (#[trigger] rest[i]).0,
                ) by {
                    assert(rest[i] == entries[i]);
                }
                assert(headers::is_value_text(entries[entries.len() - 1].0));
            }
            if has_printable_keys(rest) && headers::is_value_text(entries.last().0) {
                assert forall|i: int| 0 <= i < entries.len() implies headers::is_value_text(
                    (#[trigger] entries[i]).0,
                ) by {
                    if i < rest.len() {
                        assert(rest[i] == entries[i]);
                    }
                }
            }
        }
        if entries.len() > 1 {
            let front = metadata_text(rest);
            lemma_value_text_concat(front, ", "@);
            lemma_value_text_concat(front + ", "@, all.last());
        }
    }
}

/// Writes an item.
pub fn item_text(key: &str, encoded: Option<&str>) -> (item: String)
    ensures
        item@ == item_of(key@, headers::opt_view(encoded)),
{
    match encoded {
        Some(value) => {
            let mut item = key.to_owned();
            item.append(" ");
            item.append(value);
            item
        },
        None => key.to_owned(),
    }
}

/// The encoded values of a field are not empty.
proof fn lemma_item_values(raw: Seq<char>, i: int)
    requires
        field_items(raw) is Some,
        0 <= i < field_items(raw)->0.len(),
    ensures
        field_items(raw)->0[i].1 matches Some(value) ==> value.len() > 0,
{
    let parts = text::split_on(raw, ',').map_values(|item: Seq<char>| item_parts(item));
    assert(parts.contains(parts[i]));
}

/// The key and the encoded value of an item make up the item.
proof fn lemma_item_of_parts(item: Seq<char>)
    requires
        item_parts(item) is Some,
    ensures
        item_of((item_parts(item)->0).0, (item_parts(item)->0).1) == item,
{
    reveal_strlit(" ");
    let tokens = text::split_on(item, ' ');
    text::lemma_split_nonempty(item, ' ');
    text::lemma_split_joined(item, ' ');
    if tokens.len() == 2 {
        assert(tokens.drop_last() =~= seq![tokens[0]]);
        assert(text::joined(tokens.drop_last(), seq![' ']) == tokens[0]);
        assert(" "@ =~= seq![' ']);
    }
}

/// Metadata that was read from a field, and whose values are text, is written
/// as the items of the field.
proof fn lemma_written_again(raw: Seq<char>)
    requires
        field_metadata(raw) is Some,
        forall|i: int| 0 <= i < field_items(raw)->0.len() ==> is_textual(#[trigger] field_items(raw)->0[i]),
        forall|i: int| 0 <= i < field_items(raw)->0.len() ==> is_canonical(#[trigger] field_items(raw)->0[i]),
    ensures
        metadata_text(field_metadata(raw)->0) == text::joined(text::split_on(raw, ','), ", "@),
{
    let items = text::split_on(raw, ',');
    let parts = items.map_values(|item: Seq<char>| item_parts(item));
    let encoded = field_items(raw)->0;
    let decoded = encoded.map_values(|entry: Entry| decoded_entry(entry));
    let entries = field_metadata(raw)->0;
    let written = entries.map_values(|entry: Entry| entry_text(entry));
    assert forall|i: int| 0 <= i < items.len() implies written[i] == items[i] by {
        assert(parts.contains(parts[i]));
        assert(parts[i] == Some(encoded[i]));
        lemma_item_of_parts(items[i]);
        assert(decoded.contains(decoded[i]));
        assert(decoded[i] == Some(entries[i]));
        assert(is_textual(encoded[i]) && is_canonical(encoded[i]));
        if let Some(value) = encoded[i].1 {
            decode_utf8_encode_utf8(base64_decoded(value)->0);
        }
    }
    assert(written =~= items);
}

/// The keys of the metadata that a field carries can be told from the rest of
/// the field, and none of them occurs twice.
pub proof fn lemma_metadata_keys(raw: Seq<char>)
    requires
        field_metadata(raw) is Some,
    ensures
        distinct_keys(field_metadata(raw)->0),
        forall|i: int|
            0 <= i < field_metadata(raw)->0.len() ==> is_valid_key(
                (#[trigger] field_metadata(raw)->0[i]).0,
            ),
{
    let items = text::split_on(raw, ',');
    let parts = items.map_values(|item: Seq<char>| item_parts(item));
    let encoded = field_items(raw)->0;
    let decoded = encoded.map_values(|entry: Entry| decoded_entry(entry));
    let entries = field_metadata(raw)->0;
    assert forall|i: int| 0 <= i < entries.len() implies (#[trigger] entries[i]).0 == encoded[i].0
        && is_valid_key(entries[i].0) by {
        assert(parts.contains(parts[i]));
        assert(parts[i] == Some(encoded[i]));
        assert(decoded.contains(decoded[i]));
        assert(decoded[i] == Some(entries[i]));
    }
}

/// Reads the key and the encoded value of an item.
pub fn parse_item(item: &str) -> (parts: Option<(String, Option<String>)>)
    ensures
        parts is Some <==> item_parts(item@) is Some,
        parts matches Some(p) ==> item_parts(item@) == Some(entry_view(p)),
{
    let tokens = text::split_text(item, ' ');
    proof {
        text::lemma_split_nonempty(item@, ' ');
        assert(text::texts(tokens@).len() == tokens.len());
        assert(text::texts(tokens@)[0] == tokens[0]@);
    }
    if tokens.len() > 2 {
        return None;
    }
    let key = tokens[0];
    if !validate_key(key) {
        return None;
    }
    if tokens.len() == 1 {
        return Some((key.to_owned(), None));
    }
    let value = tokens[1];
    assert(text::texts(tokens@)[1] == value@);
    if value.is_empty() {
        return None;
    }
    Some((key.to_owned(), Some(value.to_owned())))
}

/// Whether an entry with this key is in the list.
fn has_key(entries: &Vec<(String, Option<String>)>, key: &str) -> (found: bool)
    ensures
        found == exists|k: int|
            0 <= k < entries.len() && (#[trigger] entries_view(entries@)[k]).0 == key@,
{
    let mut i: usize = 0;
    while i < entries.len()
        invariant
            i <= entries.len(),
            forall|k: int| 0 <= k < i ==> (#[trigger] entries_view(entries@)[k]).0 != key@,
        decreases entries.len() - i,
    {
        assert(entries_view(entries@)[i as int] == entry_view(entries[i as int]));
        if text::same_text(entries[i].0.as_str(), key) {
            return true;
        }
        i += 1;
    }
    false
}

/// Reads the keys and the encoded values of a metadata field.
pub fn parse_items(raw: &str) -> (entries: Option<Vec<(String, Option<String>)>>)
    ensures
        entries is Some <==> field_items(raw@) is Some,
        entries matches Some(e) ==> field_items(raw@) == Some(entries_view(e@)),
{
    if blank(raw) {
        return None;
    }
    let items = text::split_text(raw, ',');
    let ghost texts = text::split_on(raw@, ',');
    let ghost parts = texts.map_values(|item: Seq<char>| item_parts(item));
    let ghost all = parts.map_values(|part: Option<Entry>| part->0);
    assert(items.len() == texts.len());
    let mut entries: Vec<(String, Option<String>)> = Vec::new();
    let mut i: usize = 0;
    while i < items.len()
        invariant
            texts == text::split_on(raw@, ','),
            texts == text::texts(items@),
            parts == texts.map_values(|item: Seq<char>| item_parts(item)),
            all == parts.map_values(|part: Option<Entry>| part->0),
            !is_blank(raw@),
            i <= items.len(),
            entries.len() == i,
            forall|k: int| 0 <= k < i ==> (#[trigger] parts[k]) is Some,
            forall|k: int| 0 <= k < i ==> (#[trigger] entries_view(entries@)[k]) == all[k],
            distinct_keys(entries_view(entries@)),
        decreases items.len() - i,
    {
        let item = items[i];
        assert(texts[i as int] == item@);
        assert(parts[i as int] == item_parts(item@));
        match parse_item(item) {
            Some(entry) => {
                let ghost before = entries_view(entries@);
                if has_key(&entries, entry.0.as_str()) {
                    proof {
                        let k = choose|k: int|
                            0 <= k < before.len() && (#[trigger] before[k]).0 == entry.0@;
                        assert(all[k].0 == all[i as int].0);
                    }
                    return None;
                }
                let ghost seen = entry_view(entry);
                entries.push(entry);
                assert(entries_view(entries@) =~= before.push(seen));
            },
            None => {
                assert(parts.contains(parts[i as int]));
                return None;
            },
        }
        i += 1;
    }
    assert(entries_view(entries@) =~= all);
    assert(!parts.contains(None));
    Some(entries)
}

/// The entry for a key whose value was decoded to these bytes, where it could
/// be.
pub fn value_entry(key: String, decoded: Option<Vec<u8>>) -> (entry: Result<
    (String, Option<String>),
    ProtocolError,
>)
    ensures
        match decoded {
            Some(bytes) => entry matches Ok(e) && entry_view(e) == (
                key@,
                Some(utf8_lossy(bytes@)),
            ),
            None => entry == Err::<(String, Option<String>), _>(ProtocolError::InvalidMetadata),
        },
{
    match decoded {
        Some(bytes) => Ok((key, Some(string_from_utf8_lossy(&bytes)))),
        None => Err(ProtocolError::InvalidMetadata),
    }
}

/// Whether the encoded value of an entry is the base64 form of the bytes that
/// it is decoded to.
pub open spec fn is_canonical(entry: Entry) -> bool {
    entry.1 matches Some(value) ==> base64_decoded(value) is Some && base64_encoded(
        base64_decoded(value)->0,
    ) == value
}

/// Whether the encoded value of an entry stands for text in UTF-8.
pub open spec fn is_textual(entry: Entry) -> bool {
    entry.1 matches Some(value) ==> valid_utf8(base64_decoded(value)->0)
}

/// Decodes the value of an entry.
fn decode_entry(entry: (String, Option<String>)) -> (decoded: Result<
    (String, Option<String>),
    ProtocolError,
>)
    requires
        entry.1 matches Some(value) ==> value@.len() > 0,
    ensures
        match decoded_entry(entry_view(entry)) {
            Some(e) => decoded matches Ok(d) && entry_view(d) == e,
            None => decoded == Err::<(String, Option<String>), _>(ProtocolError::InvalidMetadata),
        },
        decoded is Ok ==> is_canonical(entry_view(entry)),
{
    let (key, value) = entry;
    match value {
        Some(value) => {
            if !validate_value(value.as_str()) {
                return Err(ProtocolError::InvalidMetadata);
            }
            match decode_standard(value.as_str()) {
                Ok(bytes) => value_entry(key, Some(bytes)),
                Err(_) => value_entry(key, None),
            }
        },
        None => Ok((key, None)),
    }
}

impl Metadata {
    /// Reads the metadata that a header field carries.
    pub fn parse_metadata(raw: &str) -> (metadata: Result<Metadata, ProtocolError>)
        ensures
            match field_metadata(raw@) {
                Some(entries) => metadata matches Ok(m) && m@ == entries && m.wf(),
                None => metadata matches Err(e) && e == ProtocolError::InvalidMetadata,
            },
            // Written again, metadata whose values are text gives the items of
            // the field back.
            metadata matches Ok(m) && (forall|i: int|
                0 <= i < field_items(raw@)->0.len() ==> is_textual(
                    #[trigger] field_items(raw@)->0[i],
                )) ==> metadata_text(metadata->Ok_0@) == text::joined(
                text::split_on(raw@, ','),
                ", "@,
            ),
    {
        let entries = match parse_items(raw) {
            Some(entries) => entries,
            None => {
                return Err(ProtocolError::InvalidMetadata);
            },
        };
        let ghost encoded = entries_view(entries@);
        let ghost decoded = encoded.map_values(|entry: Entry| decoded_entry(entry));
        let mut metadata: Vec<(String, Option<String>)> = Vec::new();
        for entry in it: entries
            invariant
                encoded == entries_view(it.seq()),
                decoded == encoded.map_values(|entry: Entry| decoded_entry(entry)),
                field_items(raw@) == Some(encoded),
                metadata.len() == it.index(),
                forall|k: int| 0 <= k < it.index() ==> (#[trigger] decoded[k]) is Some,
                forall|k: int| 0 <= k < it.index() ==> is_canonical(#[trigger] encoded[k]),
                forall|k: int|
                    0 <= k < it.index() ==> decoded[k] == Some(
                        #[trigger] entries_view(metadata@)[k],
                    ),
        {
            let ghost i = it.index() as int;
            let ghost before = entries_view(metadata@);
            assert(encoded[i] == entry_view(entry));
            assert(decoded[i] == decoded_entry(encoded[i]));
            proof {
                lemma_item_values(raw@, i);
            }
            match decode_entry(entry) {
                Ok(entry) => {
                    let ghost seen = entry_view(entry);
                    metadata.push(entry);
                    assert(entries_view(metadata@) =~= before.push(seen));
                },
                Err(e) => {
                    assert(decoded.contains(decoded[i]));
                    return Err(e);
                },
            }
        }
        assert(entries_view(metadata@) =~= decoded.map_values(|entry: Option<Entry>| entry->0));
        assert(!decoded.contains(None));
        proof {
            lemma_metadata_keys(raw@);
            if forall|i: int| 0 <= i < encoded.len() ==> is_textual(#[trigger] encoded[i]) {
                lemma_written_again(raw@);
            }
        }
        Ok(Metadata(metadata))
    }

    /// The value that a key has, where the key is there; of two entries with the
    /// same key the first counts.
    pub fn get(&self, key: &str) -> (value: Option<&Option<String>>)
        ensures
            match value {
                Some(v) => exists|i: int|
                    #![trigger self@[i]]
                    0 <= i < self@.len() && self@[i].0 == key@ && *v == self.0[i].1 && (forall|k: int|
                        0 <= k < i ==> (#[trigger] self@[k]).0 != key@),
                None => forall|k: int| 0 <= k < self@.len() ==> (#[trigger] self@[k]).0 != key@,
            },
    {
        let mut i: usize = 0;
        while i < self.0.len()
            invariant
                i <= self.0.len(),
                forall|k: int| 0 <= k < i ==> (#[trigger] self@[k]).0 != key@,
            decreases self.0.len() - i,
        {
            assert(self@[i as int] == entry_view(self.0[i as int]));
            if text::same_text(self.0[i].0.as_str(), key) {
                return Some(&self.0[i].1);
            }
            i += 1;
        }
        None
    }

    /// Gives a key a value, and returns the one that it had, where it was there; of
    /// two entries with the same key the first counts. No key comes to occur twice.
    pub fn insert(&mut self, key: String, value: Option<String>) -> (replaced: Option<
        Option<String>,
    >)
        ensures
            match replaced {
                Some(was) => exists|i: int|
                    #![trigger old(self)@[i]]
                    0 <= i < old(self)@.len() && old(self)@[i] == entry_view((key, was)) && (
                    forall|k: int| 0 <= k < i ==> (#[trigger] old(self)@[k]).0 != key@)
                        && final(self)@ == old(self)@.update(i, entry_view((key, value))),
                None => {
                    &&& forall|k: int|
                        0 <= k < old(self)@.len() ==> (#[trigger] old(self)@[k]).0 != key@
                    &&& final(self)@ == old(self)@.push(entry_view((key, value)))
                },
            },
            old(self).wf() ==> final(self).wf(),
    {
        let ghost before = self@;
        let ghost entry = entry_view((key, value));
        let mut i: usize = 0;
        while i < self.0.len()
            invariant
                self@ == before,
                before == old(self)@,
                entry == entry_view((key, value)),
                i <= self.0.len(),
                forall|k: int| 0 <= k < i ==> (#[trigger] before[k]).0 != key@,
            decreases self.0.len() - i,
        {
            assert(before[i as int] == entry_view(self.0[i as int]));
            if text::same_text(self.0[i].0.as_str(), key.as_str()) {
                let ghost stored = self.0@;
                self.0.push((key, value));
                assert(entries_view(stored) == before);
                let (_, was) = self.0.swap_remove(i);
                assert(self.0@ =~= stored.update(i as int, (key, value)));
                assert(self@ =~= before.update(i as int, entry));
                assert(before[i as int] == entry_view((key, was)));
                return Some(was);
            }
            i += 1;
        }
        self.0.push((key, value));
        assert(self@ =~= before.push(entry));
        None
    }

    /// Whether the value of each entry is short enough to be written in base64.
    pub open spec fn spec_encodable(&self) -> bool {
        forall|i: int| 0 <= i < self@.len() ==> is_encodable(#[trigger] self@[i])
    }

    /// Whether the value of each entry is short enough to be written in base64.
    pub fn encodable(&self) -> (fits: bool)
        ensures
            fits == self.spec_encodable(),
    {
        let mut i: usize = 0;
        while i < self.0.len()
            invariant
                i <= self.0.len(),
                forall|k: int| 0 <= k < i ==> is_encodable(#[trigger] self@[k]),
            decreases self.0.len() - i,
        {
            assert(self@[i as int] == entry_view(self.0[i as int]));
            if let Some(value) = &self.0[i].1 {
                let len = value.as_str().as_bytes().len();
                let chunks = if len % 3 > 0 {
                    len / 3 + 1
                } else {
                    len / 3
                };
                assert((len + 2) / 3 == chunks);
                if chunks > isize::MAX as usize / 4 {
                    assert(!is_encodable(self@[i as int]));
                    return false;
                }
            }
            i += 1;
        }
        true
    }

    /// Writes metadata as the text of a header field, entry after entry.
    pub fn stringify(metadata: Metadata) -> (text: String)
        requires
            metadata.spec_encodable(),
        ensures
            text@ == metadata_text(metadata@),
            // A single entry is read back as it was written, and nothing else is
            // read back: the space after a comma is no part of the grammar.
            field_metadata(text@) == Some(metadata@) <==> metadata@.len() == 1 && is_readable(
                metadata@[0],
            ),
            metadata@.len() != 1 ==> field_metadata(text@) is None,
            forall|i: int| 0 <= i < metadata@.len() ==> encodes_value(#[trigger] metadata@[i]),
            // What a header field cannot hold can only come from a key.
            headers::is_value_text(text@) <==> has_printable_keys(metadata@),
    {
        let mut items: Vec<String> = Vec::new();
        let ghost all = metadata@.map_values(|entry: Entry| entry_text(entry));
        let mut i: usize = 0;
        while i < metadata.0.len()
            invariant
                metadata.spec_encodable(),
                all == metadata@.map_values(|entry: Entry| entry_text(entry)),
                i <= metadata.0.len(),
                items.len() == i,
                forall|k: int| 0 <= k < i ==> (#[trigger] items[k])@ == all[k],
                forall|k: int| 0 <= k < i ==> encodes_value(#[trigger] metadata@[k]),
            decreases metadata.0.len() - i,
        {
            let ghost entry = metadata@[i as int];
            assert(entry == entry_view(metadata.0[i as int]));
            assert(is_encodable(entry));
            assert(all[i as int] == entry_text(entry));
            let key = metadata.0[i].0.as_str();
            let item = match &metadata.0[i].1 {
                Some(value) => {
                    let encoded = encode_standard(value.as_str().as_bytes());
                    item_text(key, Some(encoded.as_str()))
                },
                None => item_text(key, None),
            };
            items.push(item);
            i += 1;
        }
        assert(text::string_texts(items@) =~= all);
        proof {
            if metadata@.len() == 1 {
                assert(all =~= seq![entry_text(metadata@[0])]);
                assert(metadata@ =~= seq![metadata@[0]]);
                if is_readable(metadata@[0]) {
                    lemma_entry_read_back(metadata@[0]);
                } else {
                    lemma_entry_not_read_back(metadata@[0]);
                }
            } else {
                lemma_list_not_read_back(all);
            }
            lemma_printable_metadata(metadata@);
        }
        text::join_texts(&items, ", ")
    }
}

/// Which characters are white space, by their number: tab to carriage return,
/// space, next line, and the spaces and separators beyond ASCII. A text is blank
/// if it has no other character.
pub proof fn lemma_blank_text(s: Seq<char>)
    ensures
        is_blank(s) <==> forall|i: int|
            0 <= i < s.len() ==> {
                let n = (#[trigger] s[i]) as int;
                9 <= n <= 13 || n == 32 || n == 133 || n == 160 || n == 5760 || 8192 <= n <= 8202
                    || n == 8232 || n == 8233 || n == 8239 || n == 8287 || n == 12288
            },
{
    if is_blank(s) {
        assert forall|i: int| 0 <= i < s.len() implies {
            let n = (#[trigger] s[i]) as int;
            9 <= n <= 13 || n == 32 || n == 133 || n == 160 || n == 5760 || 8192 <= n <= 8202 || n
                == 8232 || n == 8233 || n == 8239 || n == 8287 || n == 12288
        } by {
            assert(is_white_space(s[i]));
        }
    }
}

/// A key is any text that is not empty and has neither a space nor a comma, and a
/// value any text that is not empty and can be decoded.
pub proof fn lemma_keys_and_values(s: Seq<char>)
    ensures
        is_valid_key(s) <==> s.len() > 0 && forall|i: int|
            0 <= i < s.len() ==> #[trigger] s[i] != ' ' && s[i] != ',',
        is_valid_value(s) <==> s.len() > 0 && base64_decoded(s) is Some,
{
    if is_valid_key(s) {
        assert forall|i: int| 0 <= i < s.len() implies #[trigger] s[i] != ' ' && s[i] != ',' by {
            assert(s.contains(s[i]));
        }
    }
}

/// Whether a text is the item made of a key and, where there is one, an encoded
/// value behind a space; neither is empty, and neither has a space or a comma.
pub open spec fn is_item(item: Seq<char>, parts: Entry) -> bool {
    &&& parts.0.len() > 0 && !parts.0.contains(' ') && !parts.0.contains(',')
    &&& match parts.1 {
        Some(value) => {
            &&& value.len() > 0 && !value.contains(' ') && !value.contains(',')
            &&& item == parts.0 + seq![' '] + value
        },
        None => item == parts.0,
    }
}

/// An item without a comma is taken apart if and only if it is made of a key and
/// a value, or of a key alone.
pub proof fn lemma_item_taken_apart(item: Seq<char>, parts: Entry)
    requires
        !item.contains(','),
    ensures
        item_parts(item) == Some(parts) <==> is_item(item, parts),
{
    if is_item(item, parts) {
        text::lemma_split_without_separator(parts.0, ' ');
        if let Some(value) = parts.1 {
            text::lemma_split_without_separator(value, ' ');
            text::lemma_split_between(parts.0, value, ' ');
            assert(text::split_on(item, ' ') =~= seq![parts.0, value]);
        }
    }
    if item_parts(item) == Some(parts) {
        reveal_strlit(" ");
        lemma_item_of_parts(item);
        assert(" "@ =~= seq![' ']);
        text::lemma_split_nonempty(item, ' ');
        if let Some(value) = parts.1 {
            text::lemma_split_without_separator(parts.0, ' ');
            text::lemma_split_between(parts.0, value, ' ');
            let tail = text::split_on(value, ' ');
            text::lemma_split_joined(value, ' ');
            text::lemma_split_nonempty(value, ' ');
            assert(text::split_on(item, ' ') =~= seq![parts.0] + tail);
            assert(tail.len() == 1);
            assert(!value.contains(',')) by {
                if value.contains(',') {
                    let i = choose|i: int| 0 <= i < value.len() && value[i] == ',';
                    assert(item[parts.0.len() + 1 + i] == ',');
                }
            }
            assert(!value.contains(' ')) by {
                if value.contains(' ') {
                    let i = choose|i: int| 0 <= i < value.len() && value[i] == ' ';
                    let a = value.take(i);
                    let b = value.skip(i + 1);
                    assert(value =~= a + seq![' '] + b);
                    text::lemma_split_between(a, b, ' ');
                    text::lemma_split_nonempty(a, ' ');
                    text::lemma_split_nonempty(b, ' ');
                }
            }
        }
    }
}

/// Any list of items whose keys are distinct is read from the field in which the
/// items stand with commas between them: all the keys, in order, each with the
/// value that it was given. Only a blank field is refused.
pub proof fn lemma_list_of_items_read(
    raw: Seq<char>,
    list: Seq<Seq<char>>,
    parts: Seq<Entry>,
)
    requires
        list.len() > 0,
        list.len() == parts.len(),
        forall|i: int| 0 <= i < list.len() ==> is_item(#[trigger] list[i], parts[i]),
        forall|i: int, j: int|
            0 <= i < j < parts.len() ==> (#[trigger] parts[i]).0 != (#[trigger] parts[j]).0,
        raw == text::joined(list, seq![',']),
        !is_blank(raw),
    ensures
        field_items(raw) == Some(parts),
        (forall|i: int|
            0 <= i < parts.len() ==> ((#[trigger] parts[i]).1 matches Some(value)
                ==> base64_decoded(value) is Some)) ==> {
            let read = field_metadata(raw);
            &&& read is Some
            &&& (read->0).len() == parts.len()
            &&& forall|i: int|
                0 <= i < parts.len() ==> is_decoded(#[trigger] (read->0)[i], parts[i])
        },
        (exists|i: int|
            0 <= i < parts.len() && ((#[trigger] parts[i]).1 is Some && base64_decoded(
                (parts[i].1)->0,
            ) is None)) ==> field_metadata(raw) is None,
{
    assert forall|i: int| 0 <= i < list.len() implies !(#[trigger] list[i]).contains(',') by {
        lemma_item_has_no_comma(list[i], parts[i]);
    }
    text::lemma_joined_split(list, ',');
    let found = list.map_values(|item: Seq<char>| item_parts(item));
    assert forall|i: int| 0 <= i < list.len() implies #[trigger] found[i] == Some(parts[i]) by {
        assert(is_item(list[i], parts[i]));
        lemma_item_taken_apart(list[i], parts[i]);
    }
    assert(!found.contains(None));
    assert(found.map_values(|part: Option<Entry>| part->0) =~= parts);
    assert(field_items(raw) == Some(parts));
    let decoded = parts.map_values(|entry: Entry| decoded_entry(entry));
    if forall|i: int|
        0 <= i < parts.len() ==> ((#[trigger] parts[i]).1 matches Some(value)
            ==> base64_decoded(value) is Some) {
        assert forall|i: int| 0 <= i < parts.len() implies (#[trigger] decoded[i]) is Some by {
            assert(decoded[i] == decoded_entry(parts[i]));
        }
        assert(!decoded.contains(None));
        let read = field_metadata(raw)->0;
        assert(read =~= decoded.map_values(|entry: Option<Entry>| entry->0));
        assert forall|i: int| 0 <= i < parts.len() implies is_decoded(
            #[trigger] read[i],
            parts[i],
        ) by {
            assert(decoded[i] == decoded_entry(parts[i]));
            if let Some(value) = parts[i].1 {
                let bytes = base64_decoded(value)->0;
                if valid_utf8(bytes) {
                    decode_utf8_encode_utf8(bytes);
                }
            }
        }
    }
    if exists|i: int|
        0 <= i < parts.len() && ((#[trigger] parts[i]).1 is Some && base64_decoded(
            (parts[i].1)->0,
        ) is None) {
        let i = choose|i: int|
            0 <= i < parts.len() && ((#[trigger] parts[i]).1 is Some && base64_decoded(
                (parts[i].1)->0,
            ) is None);
        assert(decoded[i] == decoded_entry(parts[i]));
        assert(decoded.contains(None));
    }
}

/// Whether an entry has the key of an item, and the text for which the encoded
/// value of the item stands: the text whose UTF-8 form was encoded, where there is
/// one.
pub open spec fn is_decoded(entry: Entry, parts: Entry) -> bool {
    &&& entry.0 == parts.0
    &&& match parts.1 {
        Some(value) => {
            let bytes = base64_decoded(value)->0;
            &&& entry.1 is Some
            &&& valid_utf8(bytes) ==> encode_utf8((entry.1)->0) == bytes
            &&& !valid_utf8(bytes) ==> (entry.1)->0 == utf8_repaired(bytes)
        },
        None => entry.1 is None,
    }
}

proof fn lemma_item_has_no_comma(item: Seq<char>, parts: Entry)
    requires
        is_item(item, parts),
    ensures
        !item.contains(','),
{
    if item.contains(',') {
        let i = choose|i: int| 0 <= i < item.len() && item[i] == ',';
        if i < parts.0.len() {
            assert(parts.0[i] == ',');
        } else if let Some(value) = parts.1 {
            if i > parts.0.len() {
                assert(value[i - parts.0.len() - 1] == ',');
            }
        }
    }
}

/// Metadata is read only from a field that is not blank and is a list of items
/// with commas between them, whose keys are distinct and whose values can be
/// decoded; and it is what these items say.
pub proof fn lemma_read_metadata_was_listed(raw: Seq<char>)
    requires
        field_metadata(raw) is Some,
    ensures
        !is_blank(raw),
        ({
            let list = text::split_on(raw, ',');
            let parts = field_items(raw)->0;
            let read = field_metadata(raw)->0;
            &&& text::joined(list, seq![',']) == raw
            &&& list.len() == parts.len() == read.len()
            &&& forall|i: int, j: int|
                0 <= i < j < read.len() ==> (#[trigger] read[i]).0 != (#[trigger] read[j]).0
            &&& forall|i: int|
                #![trigger list[i]]
                0 <= i < list.len() ==> {
                    &&& is_item(list[i], parts[i])
                    &&& parts[i].1 is Some ==> base64_decoded((parts[i].1)->0) is Some
                    &&& is_decoded(read[i], parts[i])
                }
        }),
{
    let list = text::split_on(raw, ',');
    let found = list.map_values(|item: Seq<char>| item_parts(item));
    let parts = field_items(raw)->0;
    let decoded = parts.map_values(|entry: Entry| decoded_entry(entry));
    let read = field_metadata(raw)->0;
    text::lemma_split_joined(raw, ',');
    lemma_metadata_keys(raw);
    assert forall|i: int|
        #![trigger list[i]]
        0 <= i < list.len() implies {
        &&& is_item(list[i], parts[i])
        &&& parts[i].1 is Some ==> base64_decoded((parts[i].1)->0) is Some
        &&& is_decoded(read[i], parts[i])
    } by {
        assert(found.contains(found[i]));
        assert(found[i] == Some(parts[i]));
        text::lemma_split_pieces(raw, ',', i);
        lemma_item_taken_apart(list[i], parts[i]);
        assert(decoded.contains(decoded[i]));
        assert(decoded[i] == Some(read[i]));
        assert(decoded[i] == decoded_entry(parts[i]));
        if let Some(value) = parts[i].1 {
            let bytes = base64_decoded(value)->0;
            if valid_utf8(bytes) {
                decode_utf8_encode_utf8(bytes);
            }
        }
    }
}

/// Metadata is written entry by entry, with a comma and a space between two of
/// them: an entry without a value is its key, and one with a value the key, a
/// space and the base64 form of the value in UTF-8.
pub proof fn lemma_entries_written(entries: Seq<Entry>, last: Entry, item: Seq<char>)
    requires
        match last.1 {
            Some(value) => item == last.0 + seq![' '] + base64_encoded(encode_utf8(value)),
            None => item == last.0,
        },
    ensures
        metadata_text(Seq::empty()).len() == 0,
        entries.len() == 0 ==> metadata_text(entries.push(last)) == item,
        entries.len() > 0 ==> metadata_text(entries.push(last)) == metadata_text(entries) + ", "@
            + item,
{
    reveal_strlit(" ");
    assert(" "@ =~= seq![' ']);
    let all = entries.push(last).map_values(|entry: Entry| entry_text(entry));
    assert(all.drop_last() =~= entries.map_values(|entry: Entry| entry_text(entry)));
    assert(entry_text(last) =~= item);
    assert(all.last() == item);
    if entries.len() == 0 {
        assert(all[0] == item);
    }
}

/// A value can be written in base64 if four characters for every three bytes,
/// or fewer at the end, are no more than memory can hold.
pub proof fn lemma_encodable_values(metadata: Metadata)
    ensures
        metadata.spec_encodable() <==> forall|i: int|
            0 <= i < metadata@.len() ==> ((#[trigger] metadata@[i]).1 matches Some(value)
                ==> 4 * ((encode_utf8(value).len() + 2) / 3) <= isize::MAX),
{
    if metadata.spec_encodable() {
        assert forall|i: int| 0 <= i < metadata@.len() implies ((
        #[trigger] metadata@[i]).1 matches Some(value) ==> 4 * ((encode_utf8(value).len() + 2) / 3)
            <= isize::MAX) by {
            assert(is_encodable(metadata@[i]));
        }
    }
}

/// The entries of metadata are those that it holds, in order, key by key and
/// value by value.
pub proof fn lemma_entries_shown(metadata: Metadata, i: int)
    requires
        0 <= i < metadata.0@.len(),
    ensures
        metadata@.len() == metadata.0@.len(),
        metadata@[i].0 == metadata.0@[i].0@,
        metadata@[i].1 is Some <==> metadata.0@[i].1 is Some,
        metadata.0@[i].1 is Some ==> (metadata@[i].1)->0 == (metadata.0@[i].1)->0@,
        metadata.wf() <==> forall|j: int, k: int|
            0 <= j < k < metadata.0@.len() ==> (#[trigger] metadata.0@[j]).0@ != (
            #[trigger] metadata.0@[k]).0@,
{
    assert(forall|j: int|
        0 <= j < metadata.0@.len() ==> (#[trigger] metadata@[j]).0 == metadata.0@[j].0@);
    if metadata.wf() {
        assert forall|j: int, k: int| 0 <= j < k < metadata.0@.len() implies (
        #[trigger] metadata.0@[j]).0@ != (#[trigger] metadata.0@[k]).0@ by {
            assert(metadata@[j].0 != metadata@[k].0);
        }
    }
}

} // verus!
