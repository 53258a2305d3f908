//! The change history: what a history record holds, which records can
//! still be reverted, and when two quick edits of a person's tags become
//! one record.
use vstd::prelude::*;
use crate::audit::{change_view, opt_view};
use crate::models::AuditChange;
use crate::text::{chars_eq_str, owned, str_chars};

verus! {

/// What a history record says of a change.
#[derive(Debug, Clone)]
pub struct AuditPayload {
    pub target: String,
    pub book_title: Option<String>,
    pub description: String,
    pub changes: Vec<AuditChange>,
}

/// The payload shown for a record whose payload is missing or unreadable.
pub fn fallback_audit_payload() -> (r: AuditPayload)
    ensures
        r.target@ == "历史记录"@,
        r.book_title is None,
        r.description@ == "历史记录未保存具体变更内容"@,
        r.changes@.len() == 0,
{
    AuditPayload {
        target: owned("历史记录"),
        book_title: None,
        description: owned("历史记录未保存具体变更内容"),
        changes: Vec::new(),
    }
}

// ---------------------------------------------------------------------------
// Which records can be reverted
// ---------------------------------------------------------------------------

/// What must hold of the ledger for a history record to be revertible.
#[derive(Debug, Clone, Copy, PartialEq, Eq, Structural)]
pub enum RevertCheck {
    /// The gift entry is there and not deleted.
    EntryLive,
    /// The gift entry is in the recycle bin.
    EntryDeleted,
    PersonLive,
    PersonDeleted,
    BookLive,
    BookDeleted,
    /// The ledger has its identity.
    VaultIdentified,
}

/// The check that decides whether a record with `action` on `entity_type`
/// (and changes, for an update) can be reverted; none when it cannot be.
pub open spec fn spec_revert_check(action: Seq<char>, entity_type: Seq<char>, has_changes: bool) -> Option<RevertCheck> {
    if action == "update"@ {
        if !has_changes {
            None
        } else if entity_type == "gift_entry"@ || entity_type == "return_gift"@ {
            Some(RevertCheck::EntryLive)
        } else if entity_type == "person"@ {
            Some(RevertCheck::PersonLive)
        } else if entity_type == "gift_book"@ {
            Some(RevertCheck::BookLive)
        } else if entity_type == "vault"@ {
            Some(RevertCheck::VaultIdentified)
        } else {
            None
        }
    } else if action == "delete"@ && entity_type == "gift_entry"@ {
        Some(RevertCheck::EntryDeleted)
    } else if action == "restore"@ && entity_type == "gift_entry"@ {
        Some(RevertCheck::EntryLive)
    } else if action == "delete"@ && entity_type == "person"@ {
        Some(RevertCheck::PersonDeleted)
    } else if action == "restore"@ && entity_type == "person"@ {
        Some(RevertCheck::PersonLive)
    } else if action == "delete"@ && entity_type == "gift_book"@ {
        Some(RevertCheck::BookDeleted)
    } else if action == "restore"@ && entity_type == "gift_book"@ {
        Some(RevertCheck::BookLive)
    } else {
        None
    }
}

/// The check that decides whether a history record can be reverted.
pub fn revert_check(action: &str, entity_type: &str, has_changes: bool) -> (r: Option<RevertCheck>)
    ensures
        r == spec_revert_check(action@, entity_type@, has_changes),
{
    let a = str_chars(action);
    let e = str_chars(entity_type);
    let entry = chars_eq_str(&e, "gift_entry");
    let person = chars_eq_str(&e, "person");
    let book = chars_eq_str(&e, "gift_book");
    if chars_eq_str(&a, "update") {
        if !has_changes {
            None
        } else if entry || chars_eq_str(&e, "return_gift") {
            Some(RevertCheck::EntryLive)
        } else if person {
            Some(RevertCheck::PersonLive)
        } else if book {
            Some(RevertCheck::BookLive)
        } else if chars_eq_str(&e, "vault") {
            Some(RevertCheck::VaultIdentified)
        } else {
            None
        }
    } else {
        let delete = chars_eq_str(&a, "delete");
        let restore = chars_eq_str(&a, "restore");
        if delete && entry {
            Some(RevertCheck::EntryDeleted)
        } else if restore && entry {
            Some(RevertCheck::EntryLive)
        } else if delete && person {
            Some(RevertCheck::PersonDeleted)
        } else if restore && person {
            Some(RevertCheck::PersonLive)
        } else if delete && book {
            Some(RevertCheck::BookDeleted)
        } else if restore && book {
            Some(RevertCheck::BookLive)
        } else {
            None
        }
    }
}

// ---------------------------------------------------------------------------
// Merging quick edits of a person's tags
// ---------------------------------------------------------------------------

/// The instant an RFC 3339 time names, as whole seconds since the Unix
/// epoch and nanoseconds past that second.
pub uninterp spec fn chrono_rfc3339_instant(text: Seq<char>) -> Option<(i64, u32)>;

/// Reads an RFC 3339 time (`chrono::DateTime::parse_from_rfc3339`, then
/// `timestamp` and `timestamp_subsec_nanos`). The contract names the result
/// without restating the format.
#[verifier::external_body]
fn rfc3339_instant(text: &str) -> (r: Option<(i64, u32)>)
    ensures
        r == chrono_rfc3339_instant(text@),
{
    chrono::DateTime::parse_from_rfc3339(text).ok().map(|t| (t.timestamp(), t.timestamp_subsec_nanos()))
}

/// The whole seconds from instant `earlier` to instant `later`, rounded
/// toward zero.
pub open spec fn spec_seconds_between(later: (i64, u32), earlier: (i64, u32)) -> int {
    let d = (later.0 - earlier.0) * 1_000_000_000 + (later.1 - earlier.1);
    if d >= 0 {
        d / 1_000_000_000
    } else {
        -((-d) / 1_000_000_000)
    }
}

/// The whole seconds from `earlier` to `later`, rounded toward zero.
pub fn seconds_between(later: (i64, u32), earlier: (i64, u32)) -> (r: i128)
    ensures
        r == spec_seconds_between(later, earlier),
{
    let d: i128 = (later.0 as i128 - earlier.0 as i128) * 1_000_000_000 + (later.1 as i128 - earlier.1 as i128);
    if d >= 0 {
        d / 1_000_000_000
    } else {
        let m: i128 = 0 - d;
        0 - m / 1_000_000_000
    }
}

/// The head of a history record: its id, what it is about, and when.
#[derive(Debug, Clone)]
pub struct AuditRowHead {
    pub id: String,
    pub entity_type: String,
    pub entity_id: String,
    pub created_at: String,
}

/// The one change of a payload, when it has exactly one and it is a
/// change of a person's tags.
pub open spec fn single_tag_change(p: Option<AuditPayload>) -> Option<AuditChange> {
    match p {
        Some(p) => if p.changes@.len() == 1 && p.changes@[0].field@ == "人物标签"@ {
            Some(p.changes@[0])
        } else {
            None
        },
        None => None,
    }
}

/// The two latest history records, `previous` then `current`, both edits
/// of the tags of the person `person_id` made at most eight seconds apart,
/// the second starting where the first ended, become one record: the
/// change from the first's before to the second's after, with the book
/// title of the second, else of the first. `None` when they stay apart.
pub open spec fn spec_tag_audit_merge(
    current: AuditRowHead,
    previous: AuditRowHead,
    person_id: Seq<char>,
    current_payload: Option<AuditPayload>,
    previous_payload: Option<AuditPayload>,
) -> Option<((Seq<char>, Seq<char>, Seq<char>), Option<Seq<char>>)> {
    if current.entity_type@ != "person"@ || current.entity_id@ != person_id
        || previous.entity_type@ != "person"@ || previous.entity_id@ != person_id {
        None
    } else {
        match (chrono_rfc3339_instant(current.created_at@), chrono_rfc3339_instant(previous.created_at@)) {
            (Some(ct), Some(pt)) => if spec_seconds_between(ct, pt) > 8 {
                None
            } else {
                match (single_tag_change(current_payload), single_tag_change(previous_payload)) {
                    (Some(cc), Some(pc)) => if pc.after@ != cc.before@ {
                        None
                    } else {
                        Some((
                            ("人物标签"@, pc.before@, cc.after@),
                            match opt_view(current_payload->0.book_title) {
                                Some(t) => Some(t),
                                None => opt_view(previous_payload->0.book_title),
                            },
                        ))
                    },
                    _ => None,
                }
            },
            _ => None,
        }
    }
}

/// The merged record of two quick edits of a person's tags.
#[derive(Debug, Clone)]
pub struct TagAuditMerge {
    pub change: AuditChange,
    pub book_title: Option<String>,
}

/// The one change of a payload, when it is a single change of a person's tags.
fn single_tag_change_of(p: &Option<AuditPayload>) -> (r: Option<&AuditChange>)
    ensures
        match single_tag_change(*p) {
            Some(c) => r matches Some(x) && *x == c,
            None => r is None,
        },
{
    match p {
        Some(p) => {
            if p.changes.len() == 1 {
                let f = str_chars(p.changes[0].field.as_str());
                if chars_eq_str(&f, "人物标签") {
                    return Some(&p.changes[0]);
                }
            }
            None
        },
        None => None,
    }
}

/// Whether the two latest history records, `previous` then `current`,
/// become one, and the merged record if so. The payloads are given as
/// read; `None` for one that could not be read.
pub fn person_tag_audit_merge(
    current: &AuditRowHead,
    previous: &AuditRowHead,
    person_id: &str,
    current_payload: &Option<AuditPayload>,
    previous_payload: &Option<AuditPayload>,
) -> (r: Option<TagAuditMerge>)
    ensures
        match spec_tag_audit_merge(*current, *previous, person_id@, *current_payload, *previous_payload) {
            Some((c, t)) => r matches Some(m) && change_view(m.change) == c && opt_view(m.book_title) == t,
            None => r is None,
        },
{
    let ct = str_chars(current.entity_type.as_str());
    let ci = str_chars(current.entity_id.as_str());
    let pt = str_chars(previous.entity_type.as_str());
    let pi = str_chars(previous.entity_id.as_str());
    if !chars_eq_str(&ct, "person") || !chars_eq_str(&ci, person_id) || !chars_eq_str(&pt, "person")
        || !chars_eq_str(&pi, person_id) {
        return None;
    }
    let current_time = match rfc3339_instant(current.created_at.as_str()) {
        Some(t) => t,
        None => {
            return None;
        },
    };
    let previous_time = match rfc3339_instant(previous.created_at.as_str()) {
        Some(t) => t,
        None => {
            return None;
        },
    };
    if seconds_between(current_time, previous_time) > 8 {
        return None;
    }
    let current_change = match single_tag_change_of(current_payload) {
        Some(c) => c,
        None => {
            return None;
        },
    };
    let previous_change = match single_tag_change_of(previous_payload) {
        Some(c) => c,
        None => {
            return None;
        },
    };
    let pa = str_chars(previous_change.after.as_str());
    if !chars_eq_str(&pa, current_change.before.as_str()) {
        return None;
    }
    let book_title = match current_payload {
        Some(p) => match &p.book_title {
            Some(t) => Some(t.clone()),
            None => match previous_payload {
                Some(q) => match &q.book_title {
                    Some(t) => Some(t.clone()),
                    None => None,
                },
                None => None,
            },
        },
        None => None,
    };
    let change = crate::audit::audit_change("人物标签", previous_change.before.as_str(), current_change.after.as_str());
    Some(TagAuditMerge { change, book_title })
}

} // verus!

verus! {

/// The book title a history record about a person shows: the titles of
/// the person's gift books joined by `、`, or a note that there is none.
pub open spec fn spec_person_books_title(titles: Seq<Seq<char>>) -> Seq<char> {
    if titles.len() == 0 {
        "未关联礼金簿"@
    } else {
        crate::text::join(titles, "、"@)
    }
}

/// The history record of a change of a person's tags, from the tags
/// before and after (names joined by `、`); none when they are the same.
pub fn person_tags_audit_payload(
    person_name: &str,
    before_tags: &String,
    after_tags: &String,
    book_titles: &[String],
) -> (r: Option<AuditPayload>)
    ensures
        before_tags@ == after_tags@ ==> r is None,
        before_tags@ != after_tags@ ==> (r matches Some(p) && p.target@ == person_name@
            && opt_view(p.book_title) == Some(spec_person_books_title(crate::text::strings_view(book_titles@)))
            && p.description@ == "修改人物标签"@
            && crate::audit::changes_view(p.changes@) == seq![(
                "人物标签"@,
                crate::audit::tags_text(before_tags@),
                crate::audit::tags_text(after_tags@),
            )]),
{
    if crate::audit::same_text(before_tags, after_tags) {
        return None;
    }
    let book_title = if book_titles.len() == 0 {
        owned("未关联礼金簿")
    } else {
        crate::text::join_strings(book_titles, "、")
    };
    let change = AuditChange {
        field: owned("人物标签"),
        before: crate::audit::tags_display(before_tags),
        after: crate::audit::tags_display(after_tags),
    };
    let mut changes: Vec<AuditChange> = Vec::new();
    changes.push(change);
    assert(crate::audit::changes_view(changes@) =~= seq![(
        "人物标签"@,
        crate::audit::tags_text(before_tags@),
        crate::audit::tags_text(after_tags@),
    )]);
    Some(
        AuditPayload {
            target: owned(person_name),
            book_title: Some(book_title),
            description: owned("修改人物标签"),
            changes,
        },
    )
}

} // verus!
