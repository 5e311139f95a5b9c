//! Site settings: a fixed set of keys, all of them public.

use vstd::prelude::*;
use vstd::string::*;
use crate::db::models::{lemma_filter_step, lemma_prefix_full};
use crate::error::{AppError, AppErrorView, AppResult};
use crate::services::audit::pair_views;
use crate::text::str_eq;

verus! {

/// Whether `key` is a known setting. Updates of any other key are
/// rejected.
pub open spec fn allowed_key(key: Seq<char>) -> bool {
    ||| key == "site_title"@
    ||| key == "site_description"@
    ||| key == "front_page_type"@
    ||| key == "front_page_slug"@
    ||| key == "apps_per_page"@
    ||| key == "app_catalogue_intro"@
    ||| key == "dark_mode_default"@
}

/// Whether `key` may be shown without authentication.
pub open spec fn public_key(key: Seq<char>) -> bool {
    allowed_key(key)
}

/// Whether `key` is a known setting.
pub fn is_allowed_key(key: &str) -> (r: bool)
    ensures
        r == allowed_key(key@),
{
    str_eq(key, "site_title") || str_eq(key, "site_description") || str_eq(key, "front_page_type")
        || str_eq(key, "front_page_slug") || str_eq(key, "apps_per_page") || str_eq(
        key,
        "app_catalogue_intro",
    ) || str_eq(key, "dark_mode_default")
}

/// Whether `key` may be shown without authentication.
pub fn is_public_key(key: &str) -> (r: bool)
    ensures
        r == public_key(key@),
{
    is_allowed_key(key)
}

/// The reason given for an update of an unknown key.
pub open spec fn unknown_key_message(key: Seq<char>) -> Seq<char> {
    "Unknown setting key: '"@ + key + "'"@
}

/// Position of the first pair with an unknown key, or the length of the
/// list where every key is known.
pub open spec fn first_unknown(updates: Seq<(Seq<char>, Seq<char>)>, from: int) -> int
    decreases updates.len() - from,
{
    if from < 0 || from >= updates.len() {
        updates.len() as int
    } else if !allowed_key(updates[from].0) {
        from
    } else {
        first_unknown(updates, from + 1)
    }
}

/// Checks a batch of updates before anything is written: every key must
/// be a known setting. `BadRequest`, naming the first unknown key,
/// otherwise.
pub fn update_settings(updates: &Vec<(String, String)>) -> (r: AppResult<()>)
    ensures
        match r {
            Ok(_) => forall|i: int|
                0 <= i < updates.len() ==> allowed_key((#[trigger] pair_views(updates@)[i]).0),
            Err(e) => {
                let at = first_unknown(pair_views(updates@), 0);
                &&& 0 <= at < updates.len()
                &&& !allowed_key(pair_views(updates@)[at].0)
                &&& e@ == AppErrorView::BadRequest(unknown_key_message(pair_views(updates@)[at].0))
            },
        },
{
    let ghost pairs = pair_views(updates@);
    let mut i: usize = 0;
    while i < updates.len()
        invariant
            i <= updates.len(),
            pairs == pair_views(updates@),
            forall|k: int| 0 <= k < i ==> allowed_key((#[trigger] pairs[k]).0),
            first_unknown(pairs, 0) == first_unknown(pairs, i as int),
        decreases updates.len() - i,
    {
        if !is_allowed_key(updates[i].0.as_str()) {
            let message = String::from_str("Unknown setting key: '").concat(
                updates[i].0.as_str(),
            ).concat("'");
            return Err(AppError::BadRequest(message));
        }
        i += 1;
    }
    Ok(())
}

/// Selects the settings that may be shown without authentication.
pub open spec fn setting_is_public() -> spec_fn((Seq<char>, Seq<char>)) -> bool {
    |pair: (Seq<char>, Seq<char>)| public_key(pair.0)
}

/// The settings that may be shown without authentication, out of all that
/// are stored. A key without a stored value does not occur.
pub fn get_public_settings(all: &Vec<(String, String)>) -> (shown: Vec<(String, String)>)
    ensures
        pair_views(shown@) == pair_views(all@).filter(setting_is_public()),
{
    let ghost pairs = pair_views(all@);
    let ghost keep = setting_is_public();
    let mut shown: Vec<(String, String)> = Vec::new();
    let mut i: usize = 0;
    proof {
        lemma_prefix_full(pairs);
        reveal(Seq::filter);
    }
    while i < all.len()
        invariant
            i <= all.len(),
            pairs == pair_views(all@),
            keep == setting_is_public(),
            pair_views(shown@) == pairs.subrange(0, i as int).filter(keep),
        decreases all.len() - i,
    {
        proof {
            lemma_filter_step(pairs, i as int, keep);
        }
        if is_public_key(all[i].0.as_str()) {
            let pair = (all[i].0.clone(), all[i].1.clone());
            assert(pair_views(shown@.push(pair)) =~= pair_views(shown@).push(pairs[i as int]));
            shown.push(pair);
        }
        i += 1;
    }
    proof {
        lemma_prefix_full(pairs);
    }
    shown
}

} // verus!
