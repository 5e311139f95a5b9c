//! The app catalogue: an explicitly ordered list of entries.
//!
//! The functions here decide; the rows that they ask for are looked up by
//! the caller, and the rows that they return are stored by the caller.

use vstd::prelude::*;
use crate::db::models::{App, AppView, CreateApp, UpdateApp, copy_opt_text, opt_text};
use crate::policy::{or_text, text_or};

verus! {

/// The place of a new app: behind the last one; the first place is 0. The
/// place after the largest number there is wraps round to the smallest.
pub open spec fn next_place(max_order: Option<i32>) -> i32 {
    match max_order {
        None => 0,
        Some(m) => if m == i32::MAX {
            i32::MIN
        } else {
            (m + 1) as i32
        },
    }
}

/// The place of a new app, given the largest place in use, if any.
pub fn next_sort_order(max_order: Option<i32>) -> (r: i32)
    ensures
        r == next_place(max_order),
{
    match max_order {
        None => 0,
        Some(m) => if m == i32::MAX {
            i32::MIN
        } else {
            m + 1
        },
    }
}

/// One of two optional texts: the first where it is present, else the
/// second.
pub open spec fn first_of(a: Option<Seq<char>>, b: Option<Seq<char>>) -> Option<Seq<char>> {
    if a is Some {
        a
    } else {
        b
    }
}

/// The first of two optional texts that is present.
pub fn first_present(a: &Option<String>, b: &Option<String>) -> (r: Option<String>)
    ensures
        opt_text(r) == first_of(opt_text(*a), opt_text(*b)),
{
    if a.is_some() {
        copy_opt_text(a)
    } else {
        copy_opt_text(b)
    }
}

/// The row of a new app with the id `id`, placed behind the last one and
/// created at `now`.
pub fn create_app(input: CreateApp, id: String, max_order: Option<i32>, now: i64) -> (app: App)
    ensures
        app@ == (AppView {
            id: id@,
            name: input.name@,
            description: or_text(opt_text(input.description), Seq::empty()),
            icon_id: opt_text(input.icon_id),
            url: opt_text(input.url),
            page_id: opt_text(input.page_id),
            sort_order: next_place(max_order),
            created_at: now,
            updated_at: now,
        }),
{
    proof {
        reveal_strlit("");
        assert(""@ =~= Seq::<char>::empty());
    }
    App {
        id,
        name: input.name,
        description: text_or(&input.description, ""),
        icon_id: input.icon_id,
        url: input.url,
        page_id: input.page_id,
        sort_order: next_sort_order(max_order),
        created_at: now,
        updated_at: now,
    }
}

/// An app after a partial update at `now`: supplied fields replace, absent
/// fields keep their value; the place stays.
pub fn update_app(existing: &App, input: UpdateApp, now: i64) -> (app: App)
    ensures
        app@ == (AppView {
            name: or_text(opt_text(input.name), existing@.name),
            description: or_text(opt_text(input.description), existing@.description),
            icon_id: first_of(opt_text(input.icon_id), existing@.icon_id),
            url: first_of(opt_text(input.url), existing@.url),
            page_id: first_of(opt_text(input.page_id), existing@.page_id),
            updated_at: now,
            ..existing@
        }),
{
    App {
        id: existing.id.clone(),
        name: text_or(&input.name, existing.name.as_str()),
        description: text_or(&input.description, existing.description.as_str()),
        icon_id: first_present(&input.icon_id, &existing.icon_id),
        url: first_present(&input.url, &existing.url),
        page_id: first_present(&input.page_id, &existing.page_id),
        sort_order: existing.sort_order,
        created_at: existing.created_at,
        updated_at: now,
    }
}

/// The new place of one app.
#[derive(Debug, Clone, PartialEq, Eq)]
pub struct Placement {
    pub app_id: String,
    pub sort_order: i32,
}

/// Whether a list of ids is short enough for every position in it to be a
/// place.
pub fn can_reorder(ids: &Vec<String>) -> (r: bool)
    ensures
        r == (ids.len() <= i32::MAX),
{
    ids.len() <= 0x7FFF_FFFF
}

/// The places that a reordering gives: each app of the list gets its
/// position in the list, counted from 0.
pub fn reorder_apps(ids: Vec<String>) -> (placements: Vec<Placement>)
    requires
        ids.len() <= i32::MAX,
    ensures
        placements.len() == ids.len(),
        forall|i: int|
            0 <= i < ids.len() ==> (#[trigger] placements[i]).app_id@ == ids[i]@
                && placements[i].sort_order == i,
{
    let mut placements: Vec<Placement> = Vec::new();
    let mut i: usize = 0;
    while i < ids.len()
        invariant
            i <= ids.len(),
            ids.len() <= i32::MAX,
            placements.len() == i,
            forall|k: int|
                0 <= k < i ==> (#[trigger] placements[k]).app_id@ == ids[k]@
                    && placements[k].sort_order == k,
        decreases ids.len() - i,
    {
        placements.push(Placement { app_id: ids[i].clone(), sort_order: i as i32 });
        i += 1;
    }
    placements
}

} // verus!
