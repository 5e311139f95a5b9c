//! The audit log: an append-only record of every significant action.

use vstd::prelude::*;
use crate::db::models::{
    AuditLogEntry, AuditLogEntryView, lemma_prefix_full, lemma_prefix_step, lemma_views_push, views,
};
use crate::db::{Database, DatabaseView};
use crate::ids::new_id;

verus! {

/// Views of a list of name/value pairs.
pub open spec fn pair_views(pairs: Seq<(String, String)>) -> Seq<(Seq<char>, Seq<char>)> {
    Seq::new(pairs.len(), |i: int| (pairs[i].0@, pairs[i].1@))
}

/// The compact JSON text of an object whose members are the given
/// name/value pairs, each value a JSON string.
pub uninterp spec fn json_object_text(pairs: Seq<(Seq<char>, Seq<char>)>) -> Seq<char>;

/// Renders name/value pairs as the JSON text of an object.
///
/// Trusted: puts each pair into a `serde_json::Map` as a
/// `serde_json::Value::String` and renders `serde_json::Value::Object` of
/// that map with `to_string`. The text depends on the pairs alone; the
/// contract gives it a name and says nothing else of it.
#[verifier::external_body]
pub(crate) fn json_object(pairs: &Vec<(String, String)>) -> (text: String)
    ensures
        text@ == json_object_text(pair_views(pairs@)),
{
    let mut map = serde_json::Map::new();
    for (name, value) in pairs.iter() {
        map.insert(name.clone(), serde_json::Value::String(value.clone()));
    }
    serde_json::Value::Object(map).to_string()
}

/// The details of an audit entry as they are stored: the JSON text of the
/// object that the name/value pairs make.
pub fn details_text(details: &Vec<(String, String)>) -> (text: String)
    ensures
        text@ == json_object_text(pair_views(details@)),
{
    json_object(details)
}

/// The entry that records one action.
pub open spec fn audit_entry(
    id: Seq<char>,
    user_id: Seq<char>,
    action: Seq<char>,
    entity_type: Seq<char>,
    entity_id: Seq<char>,
    details: Seq<(Seq<char>, Seq<char>)>,
    clock: i64,
) -> AuditLogEntryView {
    AuditLogEntryView {
        id,
        user_id,
        action,
        entity_type,
        entity_id,
        details: json_object_text(details),
        created_at: clock,
    }
}

impl DatabaseView {
    /// This store with one more entry at the end of its audit log.
    pub open spec fn logged(self, entry: AuditLogEntryView) -> DatabaseView {
        DatabaseView { audit_log: self.audit_log.push(entry), ..self }
    }
}

/// Appends the entry with the id `entry_id` that records one action, stamped
/// with the store's clock.
pub fn record_action(
    db: &mut Database,
    entry_id: String,
    user_id: &str,
    action: &str,
    entity_type: &str,
    entity_id: &str,
    details: &Vec<(String, String)>,
)
    requires
        old(db)@.wf(),
    ensures
        final(db)@.wf(),
        final(db)@ == old(db)@.logged(
            audit_entry(
                entry_id@,
                user_id@,
                action@,
                entity_type@,
                entity_id@,
                pair_views(details@),
                old(db)@.clock,
            ),
        ),
{
    let entry = AuditLogEntry {
        id: entry_id,
        user_id: user_id.to_owned(),
        action: action.to_owned(),
        entity_type: entity_type.to_owned(),
        entity_id: entity_id.to_owned(),
        details: details_text(details),
        created_at: db.clock,
    };
    let ghost before = db@;
    db.audit_log.push(entry);
    assert(db@.audit_log =~= before.audit_log.push(entry@));
}

/// Appends the entry that records one action, under a fresh random id.
///
/// * `user_id`: who performed the action
/// * `action`: the verb, such as "create", "update", "publish", "trash"
/// * `entity_type`: the kind of the affected entity, such as "page"
/// * `entity_id`: the id of the affected entity
/// * `details`: further context, as name/value pairs
pub fn log_action(
    db: &mut Database,
    user_id: &str,
    action: &str,
    entity_type: &str,
    entity_id: &str,
    details: &Vec<(String, String)>,
)
    requires
        old(db)@.wf(),
    ensures
        final(db)@.wf(),
        final(db)@ == old(db)@.logged(
            audit_entry(
                final(db)@.audit_log.last().id,
                user_id@,
                action@,
                entity_type@,
                entity_id@,
                pair_views(details@),
                old(db)@.clock,
            ),
        ),
{
    let entry_id = new_id();
    record_action(db, entry_id, user_id, action, entity_type, entity_id, details);
}

/// The entries of the audit log, oldest first.
pub fn audit_entries(db: &Database) -> (entries: Vec<AuditLogEntry>)
    ensures
        views(entries@) == db@.audit_log,
{
    let mut entries: Vec<AuditLogEntry> = Vec::new();
    let mut i: usize = 0;
    proof {
        lemma_prefix_full(views(db.audit_log@));
    }
    while i < db.audit_log.len()
        invariant
            i <= db.audit_log.len(),
            views(entries@) == views(db.audit_log@).subrange(0, i as int),
        decreases db.audit_log.len() - i,
    {
        proof {
            lemma_views_push(entries@, db.audit_log@[i as int]);
            lemma_prefix_step(views(db.audit_log@), i as int);
        }
        entries.push(db.audit_log[i].duplicate());
        i += 1;
    }
    proof {
        lemma_prefix_full(views(db.audit_log@));
    }
    entries
}

} // verus!
