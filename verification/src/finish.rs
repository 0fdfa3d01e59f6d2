//! What the hook for finished uploads adds to a reply.

use salvo_core::http::header::HeaderName;
use salvo_core::http::{HeaderMap, HeaderValue};
use vstd::prelude::*;
use vstd::set_lib::*;

use crate::common::Reply;
use crate::error::{InternalError, Status, TusError};
use crate::headers;

verus! {

/// What became of the body that the hook asked for.
#[derive(Clone, Copy, Debug, PartialEq, Eq, Structural)]
pub enum BodyOutcome {
    /// The hook asked for none.
    Absent,
    /// It is part of the reply.
    Written,
    /// It could not be made part of the reply.
    Failed,
}

/// What the hook changes in a reply.
#[derive(Debug)]
pub struct FinishPatch {
    pub status_code: Option<u16>,
    pub body: BodyOutcome,
    pub headers: Option<HeaderMap>,
}

/// The fields of a reply after those of the hook have been added: what the
/// reply has stays as it is, and of the other fields the first value counts.
pub open spec fn merged(f: headers::Fields, extra: headers::Fields) -> headers::Fields {
    Map::new(
        |name: Seq<char>| f.contains_key(name) || extra.contains_key(name),
        |name: Seq<char>|
            if f.contains_key(name) {
                f[name]
            } else {
                seq![extra[name][0]]
            },
    )
}

/// The fields of the first items of a list, beside those that were there.
spec fn merged_items(
    f: headers::Fields,
    items: Seq<(Option<HeaderName>, HeaderValue)>,
    n: int,
) -> headers::Fields
    decreases n,
{
    if n <= 0 {
        f
    } else {
        let rest = merged_items(f, items, n - 1);
        let item = items[n - 1];
        match item.0 {
            Some(name) => if rest.contains_key(headers::name_text(name)) {
                rest
            } else {
                rest.insert(headers::name_text(name), seq![headers::value_bytes(item.1)])
            },
            None => rest,
        }
    }
}

/// Whether one of the first items of a list opens the field.
spec fn opens_field(
    items: Seq<(Option<HeaderName>, HeaderValue)>,
    n: int,
    name: Seq<char>,
) -> bool {
    exists|i: int|
        0 <= i < n && (#[trigger] items[i]).0 is Some && headers::name_text(items[i].0->0) == name
}

/// What the first items of a list make of a field.
proof fn lemma_merged_items(
    f: headers::Fields,
    items: Seq<(Option<HeaderName>, HeaderValue)>,
    extra: headers::Fields,
    n: int,
    name: Seq<char>,
)
    requires
        headers::lists_fields(items, extra),
        0 <= n <= items.len(),
    ensures
        f.contains_key(name) ==> merged_items(f, items, n).contains_key(name) && merged_items(
            f,
            items,
            n,
        )[name] == f[name],
        !f.contains_key(name) ==> (merged_items(f, items, n).contains_key(name) <==> opens_field(
            items,
            n,
            name,
        )),
        !f.contains_key(name) && opens_field(items, n, name) ==> extra.contains_key(name)
            && merged_items(f, items, n)[name] == seq![extra[name][0]],
    decreases n,
{
    if n > 0 {
        lemma_merged_items(f, items, extra, n - 1, name);
        let item = items[n - 1];
        if opens_field(items, n - 1, name) {
            assert(opens_field(items, n, name));
        }
        if item.0 is Some {
            let opened = headers::name_text(item.0->0);
            assert(extra[opened][0] == headers::value_bytes(items[n - 1 + 0].1));
            if opened == name {
                assert(opens_field(items, n, name));
            }
        }
    }
}

/// All the items of a map, added one after the other, are the fields of the map.
proof fn lemma_merged_all(
    f: headers::Fields,
    items: Seq<(Option<HeaderName>, HeaderValue)>,
    extra: headers::Fields,
)
    requires
        headers::lists_fields(items, extra),
    ensures
        merged_items(f, items, items.len() as int) == merged(f, extra),
{
    let n = items.len() as int;
    let all = merged_items(f, items, n);
    let expected = merged(f, extra);
    assert forall|name: Seq<char>| all.dom().contains(name) == expected.dom().contains(name) by {
        lemma_merged_items(f, items, extra, n, name);
        if extra.contains_key(name) {
            assert(opens_field(items, n, name));
        }
    }
    assert forall|name: Seq<char>| all.dom().contains(name) implies all[name]
        == expected[name] by {
        lemma_merged_items(f, items, extra, n, name);
    }
    assert(all =~= expected);
}

/// There is room for a field that is not there yet.
proof fn lemma_room_for_new(
    f: headers::Fields,
    extra: headers::Fields,
    now: headers::Fields,
    name: Seq<char>,
)
    requires
        extra.dom().finite(),
        headers::has_room(f, extra.dom().len()),
        forall|k: Seq<char>| #[trigger]
            now.contains_key(k) ==> f.contains_key(k) || extra.contains_key(k),
        extra.contains_key(name),
        !now.contains_key(name),
    ensures
        headers::has_room(now, 1),
{
    let all = f.dom().union(extra.dom());
    lemma_len_union(f.dom(), extra.dom());
    let next = now.dom().insert(name);
    assert(next.subset_of(all)) by {
        assert forall|k: Seq<char>| next.contains(k) implies all.contains(k) by {
            if k != name {
                assert(now.contains_key(k));
            }
        }
    }
    lemma_len_subset(next, all);
    assert(now.dom().subset_of(next));
    lemma_len_subset(now.dom(), next);
}

/// Adds the fields of one map to another that does not have them yet.
pub fn merge_headers(map: &mut HeaderMap, extra: HeaderMap)
    requires
        headers::fields(extra).dom().finite(),
        headers::has_room(headers::fields(*old(map)), headers::fields(extra).dom().len()),
    ensures
        headers::fields(*final(map)) == merged(
            headers::fields(*old(map)),
            headers::fields(extra),
        ),
{
    let ghost f = headers::fields(*map);
    let ghost g = headers::fields(extra);
    let items = headers::map_into_items(extra);
    let ghost list = items@;
    for item in it: items
        invariant
            it.seq() == list,
            headers::lists_fields(list, g),
            g.dom().finite(),
            headers::has_room(f, g.dom().len()),
            headers::fields(*map) == merged_items(f, list, it.index() as int),
    {
        let ghost i = it.index() as int;
        assert(item == list[i]);
        if let (Some(name), value) = item {
            if !headers::map_contains_key(map, &name) {
                proof {
                    assert forall|k: Seq<char>| #[trigger]
                        headers::fields(*map).contains_key(k) implies f.contains_key(k)
                        || g.contains_key(k) by {
                        lemma_merged_items(f, list, g, i, k);
                    }
                    assert(list[i].0 is Some);
                    lemma_room_for_new(f, g, headers::fields(*map), headers::name_text(name));
                }
                headers::map_insert(map, name, value);
            }
        }
        assert(headers::fields(*map) == merged_items(f, list, i + 1));
    }
    proof {
        lemma_merged_all(f, list, g);
    }
}

/// The status of a reply after the hook; an error of the hook is given by its
/// status code.
pub open spec fn hook_status(before: Option<Status>, outcome: Result<FinishPatch, u16>) -> Option<
    Status,
> {
    match outcome {
        Ok(patch) => if patch.body == BodyOutcome::Failed {
            Some(Status::Failure(TusError::Internal(InternalError::ResponseBody)))
        } else if let Some(code) = patch.status_code {
            Some(Status::Code(code))
        } else {
            before
        },
        Err(code) => Some(Status::Code(code)),
    }
}

/// The fields of a reply after the hook.
pub open spec fn hook_fields(
    before: headers::Fields,
    outcome: Result<FinishPatch, u16>,
) -> headers::Fields {
    match outcome {
        Ok(patch) => match patch.headers {
            Some(extra) if patch.body != BodyOutcome::Failed => merged(
                before,
                headers::fields(extra),
            ),
            _ => before,
        },
        Err(_) => before,
    }
}

/// Whether the fields that the hook adds fit into the reply.
pub open spec fn hook_fits(f: headers::Fields, outcome: Result<FinishPatch, u16>) -> bool {
    match outcome {
        Ok(patch) => match patch.headers {
            Some(extra) if patch.body != BodyOutcome::Failed => {
                &&& headers::fields(extra).dom().finite()
                &&& headers::has_room(f, headers::fields(extra).dom().len())
            },
            _ => true,
        },
        Err(_) => true,
    }
}

/// Whether the fields that the hook adds fit into a reply with these fields.
pub fn outcome_fits(map: &HeaderMap, outcome: &Result<FinishPatch, u16>) -> (fits: bool)
    ensures
        fits == hook_fits(headers::fields(*map), *outcome),
{
    match outcome {
        Ok(patch) => match (&patch.headers, patch.body) {
            (_, BodyOutcome::Failed) | (None, _) => true,
            (Some(extra), _) => headers::room(map, headers::map_keys_len(extra)),
        },
        Err(_) => true,
    }
}

/// Applies the outcome of the hook for finished uploads to a reply. An error of
/// the hook is given by its status code.
pub fn apply_upload_finish_hook(outcome: Result<FinishPatch, u16>, reply: &mut Reply)
    requires
        hook_fits(old(reply).fields(), outcome),
    ensures
        final(reply).status_code == hook_status(old(reply).status_code, outcome),
        final(reply).fields() == hook_fields(old(reply).fields(), outcome),
{
    match outcome {
        Ok(patch) => {
            if let Some(code) = patch.status_code {
                reply.status_code = Some(Status::Code(code));
            }
            if let BodyOutcome::Failed = patch.body {
                reply.status_code = Some(
                    Status::Failure(TusError::Internal(InternalError::ResponseBody)),
                );
                return;
            }
            if let Some(extra) = patch.headers {
                merge_headers(&mut reply.headers, extra);
            }
        },
        Err(code) => {
            reply.status_code = Some(Status::Code(code));
        },
    }
}

/// The hook for finished uploads takes no field from a reply and changes none.
pub proof fn lemma_hook_keeps_fields(
    f: headers::Fields,
    outcome: Result<FinishPatch, u16>,
    name: Seq<char>,
)
    requires
        f.contains_key(name),
    ensures
        hook_fields(f, outcome).contains_key(name),
        hook_fields(f, outcome)[name] == f[name],
{
}

/// Two maps that are merged have the fields of both and no others. A field of the
/// first stays as it was; one that only the second has comes with its first value
/// alone.
pub proof fn lemma_merged_fields(f: headers::Fields, extra: headers::Fields, name: Seq<char>)
    ensures
        merged(f, extra).contains_key(name) <==> f.contains_key(name) || extra.contains_key(name),
        f.contains_key(name) ==> merged(f, extra)[name] == f[name],
        !f.contains_key(name) && extra.contains_key(name) ==> {
            &&& merged(f, extra)[name].len() == 1
            &&& merged(f, extra)[name][0] == extra[name][0]
        },
{
}

/// A hook that succeeds, and whose body does not fail, adds every field that it
/// names and the reply lacks, with its first value as the only one, whatever status
/// it returns, if any. It adds no other field.
pub proof fn lemma_hook_adds_fields(f: headers::Fields, patch: FinishPatch, name: Seq<char>)
    requires
        patch.body == BodyOutcome::Absent || patch.body == BodyOutcome::Written,
        !f.contains_key(name),
    ensures
        ({
            let after = hook_fields(f, Ok(patch));
            let named = patch.headers is Some && headers::fields(patch.headers->0).contains_key(
                name,
            );
            &&& after.contains_key(name) <==> named
            &&& named ==> after[name] == seq![headers::fields(patch.headers->0)[name][0]]
        }),
{
}

/// A hook that fails, or whose body cannot be written, adds no field.
pub proof fn lemma_failed_hook_adds_nothing(f: headers::Fields, outcome: Result<FinishPatch, u16>)
    requires
        outcome matches Ok(patch) ==> patch.body == BodyOutcome::Failed,
    ensures
        hook_fields(f, outcome) == f,
{
}

/// The status of a reply after the hook: the one of the error of the hook; that
/// the body could not be written; the one that the hook asks for; or, where it
/// asks for none, the one that the reply had.
pub proof fn lemma_status_after_hook(
    before: Option<Status>,
    patch: FinishPatch,
    code: u16,
)
    ensures
        hook_status(before, Err(code)) == Some(Status::Code(code)),
        patch.body == BodyOutcome::Failed ==> hook_status(before, Ok(patch)) == Some(
            Status::Failure(TusError::Internal(InternalError::ResponseBody)),
        ),
        patch.body != BodyOutcome::Failed ==> (patch.status_code matches Some(asked)
            ==> hook_status(before, Ok(patch)) == Some(Status::Code(asked))),
        patch.body != BodyOutcome::Failed && patch.status_code is None ==> hook_status(
            before,
            Ok(patch),
        ) == before,
{
}

/// What a hook returns fits into a reply as long as the names of both are not
/// more than a map can have, and always where it adds no field.
pub proof fn lemma_what_fits(f: headers::Fields, outcome: Result<FinishPatch, u16>)
    ensures
        outcome is Err ==> hook_fits(f, outcome),
        outcome matches Ok(patch) ==> {
            &&& patch.headers is None || patch.body == BodyOutcome::Failed ==> hook_fits(f, outcome)
            &&& patch.headers is Some && f.dom().finite() && headers::fields(
                patch.headers->0,
            ).dom().finite() && f.dom().len() + headers::fields(patch.headers->0).dom().len()
                <= 6554 ==> hook_fits(f, outcome)
        },
{
}

} // verus!
