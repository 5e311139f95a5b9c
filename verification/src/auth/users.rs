//! Users and their roles.

use vstd::prelude::*;
use vstd::string::*;
use crate::auth::middleware::{role_admin, role_editor};
use crate::db::models::{
    User, UserView, lemma_prefix_full, lemma_prefix_step, lemma_views_push, lemma_views_update,
    views,
};
use crate::db::{Database, DatabaseView};
use crate::error::{AppError, AppErrorView, AppResult};
use crate::ids::new_id;
use crate::policy::duplicate_key_message;
use crate::text::str_eq;

verus! {

/// No two users share an id or an external id.
pub open spec fn users_wf(users: Seq<UserView>) -> bool {
    &&& forall|i: int, j: int|
        0 <= i < users.len() && 0 <= j < users.len() && i != j ==> (#[trigger] users[i]).id != (
        #[trigger] users[j]).id
    &&& forall|i: int, j: int|
        0 <= i < users.len() && 0 <= j < users.len() && i != j ==> (
        #[trigger] users[i]).external_id != (#[trigger] users[j]).external_id
}

/// Whether some user has the id `id`.
pub open spec fn has_user(users: Seq<UserView>, id: Seq<char>) -> bool {
    exists|i: int| 0 <= i < users.len() && (#[trigger] users[i]).id == id
}

/// Position of the user with the id `id`, where there is one.
pub open spec fn user_pos(users: Seq<UserView>, id: Seq<char>) -> int {
    choose|i: int| 0 <= i < users.len() && (#[trigger] users[i]).id == id
}

/// Whether some user has the external id `external_id`.
pub open spec fn has_external_user(users: Seq<UserView>, external_id: Seq<char>) -> bool {
    exists|i: int| 0 <= i < users.len() && (#[trigger] users[i]).external_id == external_id
}

/// Position of the user with the external id `external_id`, where there is
/// one.
pub open spec fn external_user_pos(users: Seq<UserView>, external_id: Seq<char>) -> int {
    choose|i: int| 0 <= i < users.len() && (#[trigger] users[i]).external_id == external_id
}

/// The role of a new user: the first user of all is an admin, every later
/// one an editor.
pub open spec fn first_role(user_count: int) -> Seq<char> {
    if user_count == 0 {
        role_admin()
    } else {
        role_editor()
    }
}

/// The role of a new user, given how many users there are.
pub fn initial_role(user_count: i64) -> (role: String)
    ensures
        role@ == first_role(user_count as int),
{
    if user_count == 0 {
        String::from_str("admin")
    } else {
        String::from_str("editor")
    }
}

/// The name to show for a user: the full name, else the preferred user
/// name, else the subject identifier.
pub fn display_name_of(name: Option<String>, preferred_username: Option<String>, sub: &str) -> (r:
    String)
    ensures
        r@ == match name {
            Some(n) => n@,
            None => match preferred_username {
                Some(p) => p@,
                None => sub@,
            },
        },
{
    match name {
        Some(n) => n,
        None => match preferred_username {
            Some(p) => p,
            None => sub.to_owned(),
        },
    }
}

/// A user after a login: mail address and name as the identity provider
/// gives them now.
pub open spec fn logged_in_user(
    user: UserView,
    email: Seq<char>,
    display_name: Seq<char>,
    clock: i64,
) -> UserView {
    UserView { email, display_name, last_login: Some(clock), ..user }
}

/// The store after a login of the user with the external id `external_id`:
/// a known user is brought up to date, an unknown one is added under the
/// id `fresh_id`.
pub open spec fn after_upsert_user(
    db: DatabaseView,
    fresh_id: Seq<char>,
    external_id: Seq<char>,
    email: Seq<char>,
    display_name: Seq<char>,
) -> DatabaseView {
    if has_external_user(db.users, external_id) {
        let pos = external_user_pos(db.users, external_id);
        DatabaseView {
            users: db.users.update(
                pos,
                logged_in_user(db.users[pos], email, display_name, db.clock),
            ),
            ..db
        }
    } else {
        DatabaseView {
            users: db.users.push(
                UserView {
                    id: fresh_id,
                    external_id,
                    email,
                    display_name,
                    role: first_role(db.users.len() as int),
                    created_at: db.clock,
                    last_login: Some(db.clock),
                },
            ),
            ..db
        }
    }
}

/// Position of the first user with the external id `external_id`.
fn find_external_user(users: &Vec<User>, external_id: &str) -> (r: Option<usize>)
    ensures
        match r {
            Some(i) => i < users.len() && users[i as int]@.external_id == external_id@,
            None => !has_external_user(views(users@), external_id@),
        },
{
    let mut i: usize = 0;
    while i < users.len()
        invariant
            i <= users.len(),
            forall|j: int| 0 <= j < i ==> (#[trigger] views(users@)[j]).external_id != external_id@,
        decreases users.len() - i,
    {
        if str_eq(users[i].external_id.as_str(), external_id) {
            return Some(i);
        }
        i += 1;
    }
    None
}

/// Position of the first user with the id `id`.
fn find_user_by_id(users: &Vec<User>, id: &str) -> (r: Option<usize>)
    ensures
        match r {
            Some(i) => i < users.len() && users[i as int]@.id == id@,
            None => !has_user(views(users@), id@),
        },
{
    let mut i: usize = 0;
    while i < users.len()
        invariant
            i <= users.len(),
            forall|j: int| 0 <= j < i ==> (#[trigger] views(users@)[j]).id != id@,
        decreases users.len() - i,
    {
        if str_eq(users[i].id.as_str(), id) {
            return Some(i);
        }
        i += 1;
    }
    None
}

/// Records a login: the user with the external id `external_id` gets the
/// mail address and name given and the login time of the store's clock; a
/// user not known yet is added under the id `fresh_id`, as admin if it is
/// the first user of all, else as editor. Returns the user's id.
/// `StorageFailure`, with the store unchanged, where a new user's id is in
/// use.
pub fn upsert_user_with_id(
    db: &mut Database,
    fresh_id: String,
    external_id: &str,
    email: &str,
    display_name: &str,
) -> (r: AppResult<String>)
    requires
        old(db)@.wf(),
    ensures
        final(db)@.wf(),
        match r {
            Ok(id) => {
                &&& has_external_user(old(db)@.users, external_id@) || !has_user(
                    old(db)@.users,
                    fresh_id@,
                )
                &&& final(db)@ == after_upsert_user(
                    old(db)@,
                    fresh_id@,
                    external_id@,
                    email@,
                    display_name@,
                )
                &&& id@ == if has_external_user(old(db)@.users, external_id@) {
                    old(db)@.users[external_user_pos(old(db)@.users, external_id@)].id
                } else {
                    fresh_id@
                }
            },
            Err(e) => {
                &&& !has_external_user(old(db)@.users, external_id@)
                &&& has_user(old(db)@.users, fresh_id@)
                &&& e@ == AppErrorView::StorageFailure(duplicate_key_message())
                &&& final(db)@ == old(db)@
            },
        },
{
    let ghost before = db@;
    match find_external_user(&db.users, external_id) {
        Some(pos) => {
            proof {
                let chosen = external_user_pos(before.users, external_id@);
                assert(before.users[pos as int].external_id == external_id@);
                if chosen != pos as int {
                    assert(before.users[chosen].external_id != before.users[pos as int].external_id);
                }
            }
            let user = User {
                id: db.users[pos].id.clone(),
                external_id: db.users[pos].external_id.clone(),
                email: email.to_owned(),
                display_name: display_name.to_owned(),
                role: db.users[pos].role.clone(),
                created_at: db.users[pos].created_at,
                last_login: Some(db.clock),
            };
            let id = user.id.clone();
            proof {
                lemma_views_update(db.users@, pos as int, user);
                let after = before.users.update(pos as int, user@);
                assert forall|i: int, j: int|
                    0 <= i < after.len() && 0 <= j < after.len() && i != j implies (
                #[trigger] after[i]).id != (#[trigger] after[j]).id && after[i].external_id
                    != after[j].external_id by {
                    assert(before.users[i].id != before.users[j].id);
                    assert(before.users[i].external_id != before.users[j].external_id);
                }
            }
            db.users.set(pos, user);
            Ok(id)
        },
        None => {
            match find_user_by_id(&db.users, fresh_id.as_str()) {
                Some(i) => {
                    proof {
                        assert(before.users[i as int].id == fresh_id@);
                    }
                    return Err(AppError::StorageFailure(String::from_str("duplicate key")));
                },
                None => {},
            }
            let role = if db.users.len() == 0 {
                String::from_str("admin")
            } else {
                String::from_str("editor")
            };
            let id = fresh_id.clone();
            let user = User {
                id: fresh_id,
                external_id: external_id.to_owned(),
                email: email.to_owned(),
                display_name: display_name.to_owned(),
                role,
                created_at: db.clock,
                last_login: Some(db.clock),
            };
            proof {
                lemma_views_push(db.users@, user);
                let after = before.users.push(user@);
                assert forall|i: int, j: int|
                    0 <= i < after.len() && 0 <= j < after.len() && i != j implies (
                #[trigger] after[i]).id != (#[trigger] after[j]).id && after[i].external_id
                    != after[j].external_id by {
                    if i < before.users.len() && j < before.users.len() {
                        assert(before.users[i].id != before.users[j].id);
                        assert(before.users[i].external_id != before.users[j].external_id);
                    } else if i < before.users.len() {
                        assert(before.users[i].id != fresh_id@);
                        assert(before.users[i].external_id != external_id@);
                    } else {
                        assert(before.users[j].id != fresh_id@);
                        assert(before.users[j].external_id != external_id@);
                    }
                }
            }
            db.users.push(user);
            Ok(id)
        },
    }
}

/// Records a login as [`upsert_user_with_id`] does, with a fresh random id
/// for a user not known yet. The login of a known user succeeds, and so
/// does the first login of all; any other fails only where the storage
/// fails on the new id.
pub fn upsert_user(db: &mut Database, external_id: &str, email: &str, display_name: &str) -> (r:
    AppResult<String>)
    requires
        old(db)@.wf(),
    ensures
        final(db)@.wf(),
        old(db)@.users.len() == 0 || has_external_user(old(db)@.users, external_id@) ==> r is Ok,
        match r {
            Ok(id) => final(db)@ == after_upsert_user(
                old(db)@,
                id@,
                external_id@,
                email@,
                display_name@,
            ),
            Err(e) => {
                &&& !has_external_user(old(db)@.users, external_id@)
                &&& e@ == AppErrorView::StorageFailure(duplicate_key_message())
                &&& final(db)@ == old(db)@
            },
        },
{
    let fresh_id = new_id();
    upsert_user_with_id(db, fresh_id, external_id, email, display_name)
}

/// All users, in the order in which they were added.
pub fn list_users(db: &Database) -> (r: AppResult<Vec<User>>)
    ensures
        r is Ok,
        views(r->Ok_0@) == db@.users,
{
    let mut users: Vec<User> = Vec::new();
    let mut i: usize = 0;
    proof {
        lemma_prefix_full(db@.users);
    }
    while i < db.users.len()
        invariant
            i <= db.users.len(),
            views(users@) == db@.users.subrange(0, i as int),
        decreases db.users.len() - i,
    {
        let user = db.users[i].duplicate();
        proof {
            lemma_views_push(users@, user);
            lemma_prefix_step(db@.users, i as int);
        }
        users.push(user);
        i += 1;
    }
    proof {
        lemma_prefix_full(db@.users);
    }
    Ok(users)
}

/// The reason given when a role is neither `admin` nor `editor`.
pub open spec fn invalid_role_message(role: Seq<char>) -> Seq<char> {
    "Invalid role '"@ + role + "'. Must be 'admin' or 'editor'."@
}

/// The reason given when users try to change their own role.
pub open spec fn own_role_message() -> Seq<char> {
    "You cannot change your own role."@
}

/// Why a role change is rejected before the store is asked, if it is: the
/// role is unknown, or the users would change their own role.
pub open spec fn role_change_rejection(
    current_user: UserView,
    id: Seq<char>,
    role: Seq<char>,
) -> Option<AppErrorView> {
    if role != role_admin() && role != role_editor() {
        Some(AppErrorView::BadRequest(invalid_role_message(role)))
    } else if id == current_user.id && role != current_user.role {
        Some(AppErrorView::BadRequest(own_role_message()))
    } else {
        None
    }
}

/// Checks a role change before the store is asked: the role must be
/// `admin` or `editor`, and users cannot change their own role, so that no
/// admin is locked out.
pub fn validate_role_change(current_user: &User, id: &str, role: &str) -> (r: AppResult<()>)
    ensures
        match r {
            Ok(_) => role_change_rejection(current_user@, id@, role@) is None,
            Err(e) => role_change_rejection(current_user@, id@, role@) == Some(e@),
        },
{
    if !str_eq(role, "admin") && !str_eq(role, "editor") {
        let message = String::from_str("Invalid role '").concat(role).concat(
            "'. Must be 'admin' or 'editor'.",
        );
        return Err(AppError::BadRequest(message));
    }
    if str_eq(id, current_user.id.as_str()) && !str_eq(role, current_user.role.as_str()) {
        return Err(AppError::BadRequest(String::from_str("You cannot change your own role.")));
    }
    Ok(())
}

/// Gives the user `id` the role `role` and returns the user. Rejected as
/// [`validate_role_change`] says; `NotFound` if there is no such user. The
/// store is unchanged where the change fails.
pub fn update_user_role(db: &mut Database, current_user: &User, id: &str, role: &str) -> (r:
    AppResult<User>)
    requires
        old(db)@.wf(),
    ensures
        final(db)@.wf(),
        match r {
            Ok(user) => {
                &&& role_change_rejection(current_user@, id@, role@) is None
                &&& has_user(old(db)@.users, id@)
                &&& user@ == (UserView {
                    role: role@,
                    ..old(db)@.users[user_pos(old(db)@.users, id@)]
                })
                &&& final(db)@ == (DatabaseView {
                    users: old(db)@.users.update(user_pos(old(db)@.users, id@), user@),
                    ..old(db)@
                })
            },
            Err(e) => {
                &&& final(db)@ == old(db)@
                &&& match role_change_rejection(current_user@, id@, role@) {
                    Some(rejection) => e@ == rejection,
                    None => !has_user(old(db)@.users, id@) && e@ == AppErrorView::NotFound,
                }
            },
        },
{
    let ghost before = db@;
    match validate_role_change(current_user, id, role) {
        Err(e) => {
            return Err(e);
        },
        Ok(_) => {},
    }
    let pos = match find_user_by_id(&db.users, id) {
        Some(i) => i,
        None => {
            return Err(AppError::NotFound);
        },
    };
    proof {
        let chosen = user_pos(before.users, id@);
        assert(before.users[pos as int].id == id@);
        if chosen != pos as int {
            assert(before.users[chosen].id != before.users[pos as int].id);
        }
    }
    let mut user = db.users[pos].duplicate();
    user.role = role.to_owned();
    let stored = user.duplicate();
    proof {
        lemma_views_update(db.users@, pos as int, stored);
        let after = before.users.update(pos as int, user@);
        assert forall|i: int, j: int|
            0 <= i < after.len() && 0 <= j < after.len() && i != j implies (#[trigger] after[i]).id
            != (#[trigger] after[j]).id && after[i].external_id != after[j].external_id by {
            assert(before.users[i].id != before.users[j].id);
            assert(before.users[i].external_id != before.users[j].external_id);
        }
    }
    db.users.set(pos, stored);
    Ok(user)
}

} // verus!
