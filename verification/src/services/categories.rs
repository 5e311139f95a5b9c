//! Categories: a flat taxonomy whose slugs are unique.
//!
//! The functions here decide; the rows that they ask for are looked up by
//! the caller, and the rows that they return are stored by the caller.

use vstd::prelude::*;
use vstd::string::*;
use crate::db::models::{Category, CategoryView, CreateCategory, opt_text};
use crate::error::{AppError, AppErrorView, AppResult};
use crate::policy::{opt_str_view, or_text, resolve_slug, resolved_slug, slug_collides, text_or};
use crate::text::str_eq;

verus! {

/// The reason given when a category's slug is taken.
pub open spec fn category_conflict_message(slug: Seq<char>) -> Seq<char> {
    "A category with slug '"@ + slug + "' already exists"@
}

/// Whether a slug is taken, given the id of the category that holds it, if
/// any, and the id of the category that is being updated, if any.
pub open spec fn slug_is_taken(holder: Option<Seq<char>>, exclude: Option<Seq<char>>) -> bool {
    match holder {
        None => false,
        Some(found) => exclude != Some(found),
    }
}

/// Reports a conflict where `slug` is held by a category, `holder`, other
/// than the one that is being updated, `exclude_id`.
pub fn ensure_slug_unique(slug: &str, holder: Option<&str>, exclude_id: Option<&str>) -> (r:
    AppResult<()>)
    ensures
        match r {
            Ok(_) => !slug_is_taken(opt_str_view(holder), opt_str_view(exclude_id)),
            Err(e) => slug_is_taken(opt_str_view(holder), opt_str_view(exclude_id)) && e@
                == AppErrorView::Conflict(category_conflict_message(slug@)),
        },
{
    if slug_collides(holder, exclude_id) {
        let message = String::from_str("A category with slug '").concat(slug).concat(
            "' already exists",
        );
        Err(AppError::Conflict(message))
    } else {
        Ok(())
    }
}

/// The slug of a new category: the explicit one, else the one derived from
/// its name.
pub fn category_slug(input: &CreateCategory) -> (slug: String)
    ensures
        slug@ == resolved_slug(input.name@, opt_text(input.slug)),
{
    resolve_slug(input.name.as_str(), &input.slug)
}

/// The row of a new category with the id `id`. `holder` is the id of the
/// category that holds the new category's slug, if any: with one the
/// creation fails with `Conflict`.
pub fn create_category(input: CreateCategory, id: String, holder: Option<&str>) -> (r: AppResult<
    Category,
>)
    ensures
        match r {
            Ok(category) => holder is None && category@ == (CategoryView {
                id: id@,
                name: input.name@,
                slug: resolved_slug(input.name@, opt_text(input.slug)),
            }),
            Err(e) => holder is Some && e@ == AppErrorView::Conflict(
                category_conflict_message(resolved_slug(input.name@, opt_text(input.slug))),
            ),
        },
{
    let slug = category_slug(&input);
    match ensure_slug_unique(slug.as_str(), holder, None) {
        Err(e) => Err(e),
        Ok(_) => Ok(Category { id, name: input.name, slug }),
    }
}

/// The slug of a category after an update: the one supplied, else its own.
pub fn updated_slug(existing: &Category, slug: &Option<String>) -> (r: String)
    ensures
        r@ == or_text(opt_text(*slug), existing@.slug),
{
    text_or(slug, existing.slug.as_str())
}

/// A category after an update of its name and, where one is supplied, its
/// slug. `holder` is the id of the category that holds the new slug, if
/// any; it is only looked at where the slug changes, and the update then
/// fails with `Conflict` if another category holds the new slug.
pub fn update_category(
    existing: &Category,
    name: String,
    slug: Option<String>,
    holder: Option<&str>,
) -> (r: AppResult<Category>)
    ensures
        match r {
            Ok(category) => {
                &&& category@ == (CategoryView {
                    id: existing@.id,
                    name: name@,
                    slug: or_text(opt_text(slug), existing@.slug),
                })
                &&& category@.slug == existing@.slug || !slug_is_taken(
                    opt_str_view(holder),
                    Some(existing@.id),
                )
            },
            Err(e) => {
                &&& or_text(opt_text(slug), existing@.slug) != existing@.slug
                &&& slug_is_taken(opt_str_view(holder), Some(existing@.id))
                &&& e@ == AppErrorView::Conflict(
                    category_conflict_message(or_text(opt_text(slug), existing@.slug)),
                )
            },
        },
{
    let new_slug = updated_slug(existing, &slug);
    if !str_eq(new_slug.as_str(), existing.slug.as_str()) {
        match ensure_slug_unique(new_slug.as_str(), holder, Some(existing.id.as_str())) {
            Err(e) => {
                return Err(e);
            },
            Ok(_) => {},
        }
    }
    Ok(Category { id: existing.id.clone(), name, slug: new_slug })
}

} // verus!
