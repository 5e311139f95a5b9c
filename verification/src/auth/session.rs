//! The session store: sessions are created with a fixed lifetime, are valid
//! until it has passed, and are swept once expired.

use vstd::prelude::*;
use crate::db::models::{
    Session, SessionView, User, lemma_filter_step, lemma_prefix_full, lemma_views_push,
    views,
};
use crate::db::{Database, DatabaseView};
use crate::error::{AppError, AppErrorView, AppResult};
use crate::ids::new_id;
use crate::text::str_eq;

verus! {

/// How long a session lives, in seconds: 7 days.
pub const SESSION_TTL_SECONDS: i64 = 604800;

/// The time at which a session created at `clock` expires; a time beyond
/// the range of the clock counts as its maximum.
pub open spec fn session_expiry(clock: i64) -> i64 {
    if clock + SESSION_TTL_SECONDS > i64::MAX {
        i64::MAX
    } else {
        (clock + SESSION_TTL_SECONDS) as i64
    }
}

/// Whether a session has expired at `clock`.
pub open spec fn session_expired(session: SessionView, clock: i64) -> bool {
    session.expires_at <= clock
}

/// Selects the sessions that are still alive at `clock`.
pub open spec fn session_is_alive(clock: i64) -> spec_fn(SessionView) -> bool {
    |session: SessionView| !session_expired(session, clock)
}

/// Selects the sessions with another token than `token`.
pub open spec fn session_has_other_token(token: Seq<char>) -> spec_fn(SessionView) -> bool {
    |session: SessionView| session.token != token
}

/// Whether `i` is the position of a session that makes `token` valid at
/// `clock`: the session carries the token and is alive, and its user exists.
pub open spec fn validates(db: DatabaseView, token: Seq<char>, i: int) -> bool {
    &&& 0 <= i < db.sessions.len()
    &&& db.sessions[i].token == token
    &&& !session_expired(db.sessions[i], db.clock)
    &&& exists|u: int| 0 <= u < db.users.len() && (#[trigger] db.users[u]).id == db.sessions[i].user_id
}

/// Whether `token` is valid at the store's clock.
pub open spec fn token_is_valid(db: DatabaseView, token: Seq<char>) -> bool {
    exists|i: int| validates(db, token, i)
}

/// The time at which a session created at `now` expires.
pub fn expiry_of(now: i64) -> (r: i64)
    ensures
        r == session_expiry(now),
{
    if now > i64::MAX - SESSION_TTL_SECONDS {
        i64::MAX
    } else {
        now + SESSION_TTL_SECONDS
    }
}

/// Whether a session has expired at `now`.
pub fn is_session_expired(expires_at: i64, now: i64) -> (r: bool)
    ensures
        r == (expires_at <= now),
{
    expires_at <= now
}

/// Creates a session for `user_id` under the id `session_id` and with the
/// token `token`, which is returned. The session expires one session
/// lifetime after the store's clock.
pub fn create_session_with_ids(
    db: &mut Database,
    user_id: &str,
    session_id: String,
    token: String,
) -> (r: AppResult<String>)
    requires
        old(db)@.wf(),
    ensures
        final(db)@.wf(),
        r is Ok,
        r->Ok_0@ == token@,
        final(db)@ == (DatabaseView {
            sessions: old(db)@.sessions.push(
                SessionView {
                    id: session_id@,
                    user_id: user_id@,
                    token: token@,
                    expires_at: session_expiry(old(db)@.clock),
                    created_at: old(db)@.clock,
                },
            ),
            ..old(db)@
        }),
{
    let expires_at = expiry_of(db.clock);
    let session = Session {
        id: session_id,
        user_id: user_id.to_owned(),
        token: token.clone(),
        expires_at,
        created_at: db.clock,
    };
    proof {
        lemma_views_push(db.sessions@, session);
    }
    db.sessions.push(session);
    Ok(token)
}

/// Creates a session for `user_id` under a fresh random id and token, and
/// returns the token. The session expires one session lifetime after the
/// store's clock.
pub fn create_session(db: &mut Database, user_id: &str) -> (r: AppResult<String>)
    requires
        old(db)@.wf(),
    ensures
        final(db)@.wf(),
        r is Ok,
        final(db)@.sessions.len() == old(db)@.sessions.len() + 1,
        final(db)@ == (DatabaseView {
            sessions: old(db)@.sessions.push(
                SessionView {
                    id: final(db)@.sessions.last().id,
                    user_id: user_id@,
                    token: r->Ok_0@,
                    expires_at: session_expiry(old(db)@.clock),
                    created_at: old(db)@.clock,
                },
            ),
            ..old(db)@
        }),
{
    let session_id = new_id();
    let token = new_id();
    create_session_with_ids(db, user_id, session_id, token)
}

/// Position of the first user with the id `id`.
pub fn find_user(users: &Vec<User>, id: &str) -> (r: Option<usize>)
    ensures
        match r {
            Some(i) => i < users.len() && users[i as int]@.id == id@,
            None => forall|j: int| 0 <= j < users.len() ==> (#[trigger] views(users@)[j]).id != id@,
        },
{
    let mut i: usize = 0;
    while i < users.len()
        invariant
            i <= users.len(),
            forall|j: int| 0 <= j < i ==> (#[trigger] views(users@)[j]).id != id@,
        decreases users.len() - i,
    {
        if str_eq(users[i].id.as_str(), id) {
            return Some(i);
        }
        i += 1;
    }
    None
}

/// The user of the session that `token` belongs to. `Unauthorized` if no
/// session carries the token, or if each one that does has expired or
/// belongs to no user.
pub fn validate_session(db: &Database, token: &str) -> (r: AppResult<User>)
    requires
        db@.wf(),
    ensures
        match r {
            Ok(user) => exists|i: int, u: int|
                validates(db@, token@, i) && 0 <= u < db@.users.len() && (#[trigger] db@.users[u])
                    == user@ && user@.id == (#[trigger] db@.sessions[i]).user_id,
            Err(e) => !token_is_valid(db@, token@) && e@ == AppErrorView::Unauthorized,
        },
{
    let mut i: usize = 0;
    while i < db.sessions.len()
        invariant
            i <= db.sessions.len(),
            forall|j: int| 0 <= j < i ==> !validates(db@, token@, j),
        decreases db.sessions.len() - i,
    {
        if str_eq(db.sessions[i].token.as_str(), token) && !is_session_expired(
            db.sessions[i].expires_at,
            db.clock,
        ) {
            match find_user(&db.users, db.sessions[i].user_id.as_str()) {
                Some(u) => {
                    proof {
                        assert(db@.users[u as int].id == db@.sessions[i as int].user_id);
                        assert(validates(db@, token@, i as int));
                    }
                    return Ok(db.users[u].duplicate());
                },
                None => {
                    proof {
                        assert forall|u: int| 0 <= u < db@.users.len() implies (
                        #[trigger] db@.users[u]).id != db@.sessions[i as int].user_id by {
                            assert(views(db.users@)[u].id != db@.sessions[i as int].user_id);
                        }
                    }
                },
            }
        }
        i += 1;
    }
    Err(AppError::Unauthorized)
}

/// Deletes every session that carries `token`. Succeeds also where there
/// is none.
pub fn delete_session(db: &mut Database, token: &str) -> (r: AppResult<()>)
    requires
        old(db)@.wf(),
    ensures
        final(db)@.wf(),
        r is Ok,
        final(db)@ == (DatabaseView {
            sessions: old(db)@.sessions.filter(session_has_other_token(token@)),
            ..old(db)@
        }),
{
    let ghost before = db@;
    let ghost keep = session_has_other_token(token@);
    let mut sessions: Vec<Session> = Vec::new();
    let mut i: usize = 0;
    proof {
        lemma_prefix_full(before.sessions);
        reveal(Seq::filter);
    }
    while i < db.sessions.len()
        invariant
            i <= db.sessions.len(),
            before == db@,
            keep == session_has_other_token(token@),
            views(sessions@) == before.sessions.subrange(0, i as int).filter(keep),
        decreases db.sessions.len() - i,
    {
        proof {
            lemma_filter_step(before.sessions, i as int, keep);
        }
        if !str_eq(db.sessions[i].token.as_str(), token) {
            let session = db.sessions[i].duplicate();
            proof {
                lemma_views_push(sessions@, session);
            }
            sessions.push(session);
        }
        i += 1;
    }
    proof {
        lemma_prefix_full(before.sessions);
    }
    db.sessions = sessions;
    Ok(())
}

/// Deletes every session that has expired at the store's clock and returns
/// how many there were. The sessions that are still alive stay.
pub fn cleanup_expired_sessions(db: &mut Database) -> (r: AppResult<u64>)
    requires
        old(db)@.wf(),
    ensures
        final(db)@.wf(),
        r is Ok,
        r->Ok_0 == old(db)@.sessions.len() - final(db)@.sessions.len(),
        final(db)@ == (DatabaseView {
            sessions: old(db)@.sessions.filter(session_is_alive(old(db)@.clock)),
            ..old(db)@
        }),
{
    let ghost before = db@;
    let ghost keep = session_is_alive(before.clock);
    let mut sessions: Vec<Session> = Vec::new();
    let mut i: usize = 0;
    proof {
        lemma_prefix_full(before.sessions);
        reveal(Seq::filter);
    }
    while i < db.sessions.len()
        invariant
            i <= db.sessions.len(),
            before == db@,
            keep == session_is_alive(before.clock),
            views(sessions@) == before.sessions.subrange(0, i as int).filter(keep),
            sessions@.len() <= i,
        decreases db.sessions.len() - i,
    {
        proof {
            lemma_filter_step(before.sessions, i as int, keep);
        }
        if !is_session_expired(db.sessions[i].expires_at, db.clock) {
            let session = db.sessions[i].duplicate();
            proof {
                lemma_views_push(sessions@, session);
            }
            sessions.push(session);
        }
        i += 1;
    }
    proof {
        lemma_prefix_full(before.sessions);
    }
    let removed = db.sessions.len() - sessions.len();
    db.sessions = sessions;
    Ok(removed as u64)
}

/// After the sweep no session in the store has expired.
pub proof fn lemma_no_session_expired_after_sweep(sessions: Seq<SessionView>, clock: i64, i: int)
    requires
        0 <= i < sessions.filter(session_is_alive(clock)).len(),
    ensures
        !session_expired(sessions.filter(session_is_alive(clock))[i], clock),
{
    sessions.lemma_filter_pred(session_is_alive(clock), i);
}

} // verus!
