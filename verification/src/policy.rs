//! The rules that pages and articles share: how a slug is resolved and when
//! it collides, how a partial update merges, when an item can be restored,
//! when a scheduled item is due for publication and when a trashed item may
//! be erased for good.

use vstd::prelude::*;
use crate::db::models::{CategoryLinkView, opt_text};
use crate::db::{status_scheduled, status_trashed};
use crate::helpers::{slug_of, slugify};
use crate::text::str_eq;

verus! {

/// Length of the grace period of a trashed item, in seconds: 30 days.
pub const RETENTION_SECONDS: i64 = 2592000;

/// Whether an item is due for publication at `clock`: it is scheduled and
/// its publication time has come.
pub open spec fn due_for_publication(
    status: Seq<char>,
    publish_at: Option<i64>,
    clock: i64,
) -> bool {
    status == status_scheduled() && publish_at is Some && publish_at->Some_0 <= clock
}

/// Whether an item may be erased for good at `clock`: it is trashed and was
/// trashed more than the retention period ago.
pub open spec fn expired_trash(status: Seq<char>, trashed_at: Option<i64>, clock: i64) -> bool {
    status == status_trashed() && trashed_at is Some && trashed_at->Some_0 + RETENTION_SECONDS
        < clock
}

/// Whether an item is due for publication at `now`.
pub fn is_due_for_publication(status: &str, publish_at: Option<i64>, now: i64) -> (r: bool)
    ensures
        r == due_for_publication(status@, publish_at, now),
{
    match publish_at {
        Some(at) => at <= now && str_eq(status, "scheduled"),
        None => false,
    }
}

/// Whether an item may be erased for good at `now`.
pub fn is_expired_trash(status: &str, trashed_at: Option<i64>, now: i64) -> (r: bool)
    ensures
        r == expired_trash(status@, trashed_at, now),
{
    match trashed_at {
        Some(at) => {
            let elapsed: i128 = now as i128 - at as i128;
            elapsed > RETENTION_SECONDS as i128 && str_eq(status, "trashed")
        },
        None => false,
    }
}

/// A trashed item is kept for the whole grace period: it cannot be erased
/// while no more than the retention period has passed since it was trashed.
pub proof fn lemma_trash_is_retained(status: Seq<char>, trashed_at: i64, clock: i64)
    requires
        clock <= trashed_at + RETENTION_SECONDS,
    ensures
        !expired_trash(status, Some(trashed_at), clock),
{
}

/// The value of an optional text, or `default` where it is absent.
pub open spec fn or_text(o: Option<Seq<char>>, default: Seq<char>) -> Seq<char> {
    match o {
        Some(s) => s,
        None => default,
    }
}

/// The slug of a new item: the explicit one where the caller gave one, else
/// the slug derived from the title.
pub open spec fn resolved_slug(title: Seq<char>, explicit: Option<Seq<char>>) -> Seq<char> {
    match explicit {
        Some(s) => s,
        None => slug_of(title),
    }
}

/// The detail of the storage failure on an id that is already in use.
pub open spec fn duplicate_key_message() -> Seq<char> {
    "duplicate key"@
}

/// Selects the links that do not belong to `owner`.
pub open spec fn not_owned_by(owner: Seq<char>) -> spec_fn(CategoryLinkView) -> bool {
    |link: CategoryLinkView| link.owner_id != owner
}

/// Selects the links that belong to `owner`.
pub open spec fn owned_by(owner: Seq<char>) -> spec_fn(CategoryLinkView) -> bool {
    |link: CategoryLinkView| link.owner_id == owner
}

/// The categories that `links` assign to `owner`, in the order of the
/// links.
pub open spec fn categories_of(links: Seq<CategoryLinkView>, owner: Seq<char>) -> Seq<Seq<char>> {
    links.filter(owned_by(owner)).map_values(|link: CategoryLinkView| link.category_id)
}

/// One link from `owner` to each category of `ids`, in order.
pub open spec fn links_for(owner: Seq<char>, ids: Seq<Seq<char>>) -> Seq<CategoryLinkView> {
    Seq::new(ids.len(), |i: int| CategoryLinkView { owner_id: owner, category_id: ids[i] })
}

/// The category links after the set of `owner` was replaced: where `ids`
/// is given, all of the owner's links leave and one per id comes in; else
/// nothing changes.
pub open spec fn replaced_links(
    links: Seq<CategoryLinkView>,
    owner: Seq<char>,
    ids: Option<Seq<Seq<char>>>,
) -> Seq<CategoryLinkView> {
    match ids {
        Some(ids) => links.filter(not_owned_by(owner)) + links_for(owner, ids),
        None => links,
    }
}

/// View of an optional string slice.
pub open spec fn opt_str_view(o: Option<&str>) -> Option<Seq<char>> {
    match o {
        Some(s) => Some(s@),
        None => None,
    }
}

/// The text of an optional field, or a copy of `default` where it is absent.
pub fn text_or(o: &Option<String>, default: &str) -> (r: String)
    ensures
        r@ == or_text(opt_text(*o), default@),
{
    match o {
        Some(s) => s.clone(),
        None => default.to_owned(),
    }
}

/// The slug of a new item: the explicit one where there is one, else the
/// slug derived from the title.
pub fn resolve_slug(title: &str, explicit: &Option<String>) -> (slug: String)
    ensures
        slug@ == resolved_slug(title@, opt_text(*explicit)),
{
    match explicit {
        Some(s) => s.clone(),
        None => slugify(title),
    }
}

/// Whether a slug lookup shows a collision: some row holds the slug, and it
/// is not the row that is being updated.
pub fn slug_collides(found_id: Option<&str>, exclude_id: Option<&str>) -> (r: bool)
    ensures
        r == match found_id {
            None => false,
            Some(found) => match exclude_id {
                Some(excluded) => found@ != excluded@,
                None => true,
            },
        },
{
    match found_id {
        None => false,
        Some(found) => match exclude_id {
            Some(excluded) => !str_eq(found, excluded),
            None => true,
        },
    }
}

/// Whether a page with this status can be restored: only a trashed one.
pub fn can_restore(status: &str) -> (r: bool)
    ensures
        r == (status@ == status_trashed()),
{
    str_eq(status, "trashed")
}

} // verus!
