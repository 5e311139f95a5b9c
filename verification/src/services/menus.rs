//! Menus: named, ordered lists of items that are replaced as a whole.

use vstd::prelude::*;
use crate::db::models::{MenuItem, MenuItemInput, MenuItemView, copy_opt_text, opt_text};
use crate::ids::new_id;

verus! {

/// Whether `item` is what the input `input` becomes in the menu
/// `menu_id`: the input's fields, and the input's id where it has one.
pub open spec fn stores_input(item: MenuItemView, input: MenuItemInput, menu_id: Seq<char>) -> bool {
    &&& item.menu_id == menu_id
    &&& item.label == input.label@
    &&& item.link_type == input.link_type@
    &&& item.link_target == input.link_target@
    &&& item.parent_id == opt_text(input.parent_id)
    &&& item.sort_order == input.sort_order
    &&& input.id is Some ==> item.id == input.id->Some_0@
}

/// The item of the menu `menu_id` that an input becomes. An input that
/// names its id keeps it, so that an item can be told across saves; one
/// without gets `fresh_id`.
pub fn menu_item(input: &MenuItemInput, menu_id: &str, fresh_id: String) -> (item: MenuItem)
    ensures
        stores_input(item@, *input, menu_id@),
        input.id is None ==> item@.id == fresh_id@,
{
    let id = match &input.id {
        Some(id) => id.clone(),
        None => fresh_id,
    };
    MenuItem {
        id,
        menu_id: menu_id.to_owned(),
        label: input.label.clone(),
        link_type: input.link_type.clone(),
        link_target: input.link_target.clone(),
        parent_id: copy_opt_text(&input.parent_id),
        sort_order: input.sort_order,
    }
}

/// The items that replace those of the menu `menu_id`: one per input, in
/// order. An input without an id gets a fresh random one.
pub fn update_menu(menu_id: &str, items: Vec<MenuItemInput>) -> (stored: Vec<MenuItem>)
    ensures
        stored.len() == items.len(),
        forall|i: int| 0 <= i < items.len() ==> stores_input((#[trigger] stored[i])@, items[i], menu_id@),
{
    let mut stored: Vec<MenuItem> = Vec::new();
    let mut i: usize = 0;
    while i < items.len()
        invariant
            i <= items.len(),
            stored.len() == i,
            forall|k: int| 0 <= k < i ==> stores_input((#[trigger] stored[k])@, items[k], menu_id@),
        decreases items.len() - i,
    {
        let fresh_id = new_id();
        stored.push(menu_item(&items[i], menu_id, fresh_id));
        i += 1;
    }
    stored
}

/// The id of the menu to write to: the one found under the name, else
/// `fresh_id`, under which the menu is then created.
pub fn menu_id_for(found: Option<String>, fresh_id: String) -> (r: (String, bool))
    ensures
        r.0@ == match found {
            Some(id) => id@,
            None => fresh_id@,
        },
        r.1 == (found is None),
{
    match found {
        Some(id) => (id, false),
        None => (fresh_id, true),
    }
}

} // verus!
