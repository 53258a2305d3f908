//! The checks behind creating and editing gift entries, gift books and
//! tags, and what an edit changes.
use vstd::prelude::*;
use crate::audit::{
    as_opt_str, audit_change, audit_text, change_if, changes_view, opt_view, record_optional_change,
    record_text_change, same_text, spec_audit_text,
};
use crate::import::{null_if_empty, spec_null_if_empty};
use crate::models::{AuditChange, EditBookInput, GiftBook};
use crate::security::result_view;
use crate::tags::{is_hex_color, normalize_tag_color, normalize_tag_name, spec_normalize_tag_name};
use crate::text::{ascii_lower, chars_eq, concat3, owned, str_chars, string_from_chars, trim, trim_chars};

verus! {

/// What is wrong, if anything, with the fields of a gift entry.
pub open spec fn spec_entry_input_check(person_name: Seq<char>, amount_fen: i64, return_amount: Option<i64>) -> Result<(), Seq<char>> {
    if trim(person_name).len() == 0 {
        Err("姓名不能为空"@)
    } else if amount_fen <= 0 {
        Err("金额必须大于 0"@)
    } else if return_amount matches Some(a) && a <= 0 {
        Err("回礼金额必须大于 0"@)
    } else {
        Ok(())
    }
}

/// Checks the fields of a gift entry: a name, a positive amount, and a
/// positive return-gift amount if one is given.
pub fn validate_entry_input(person_name: &str, amount_fen: i64, return_gift_amount_fen: Option<i64>) -> (r: Result<(), String>)
    ensures
        result_view(r) == spec_entry_input_check(person_name@, amount_fen, return_gift_amount_fen),
{
    let c = str_chars(person_name);
    let t = trim_chars(&c);
    if t.len() == 0 {
        return Err(owned("姓名不能为空"));
    }
    if amount_fen <= 0 {
        return Err(owned("金额必须大于 0"));
    }
    match return_gift_amount_fen {
        Some(a) => {
            if a <= 0 {
                return Err(owned("回礼金额必须大于 0"));
            }
        },
        None => {},
    }
    Ok(())
}

/// Checks a return-gift amount: it must be positive.
pub fn validate_return_gift_amount(amount_fen: i64) -> (r: Result<(), String>)
    ensures
        amount_fen > 0 ==> r is Ok,
        amount_fen <= 0 ==> (r matches Err(e) && e@ == "回礼金额必须大于 0"@),
{
    if amount_fen <= 0 {
        return Err(owned("回礼金额必须大于 0"));
    }
    Ok(())
}

/// An edited entry keeps its person when the name, trimmed, and the
/// address, trimmed or absent when empty, are those of the person.
pub open spec fn spec_same_person(
    current_name: Seq<char>,
    current_address: Option<Seq<char>>,
    person_name: Seq<char>,
    address: Seq<char>,
) -> bool {
    current_name == trim(person_name) && current_address == spec_null_if_empty(address)
}

/// Whether an edited entry keeps its person.
pub fn same_person(current_name: &str, current_address: Option<&str>, person_name: &str, address: &str) -> (r: bool)
    ensures
        r == spec_same_person(current_name@, crate::audit::opt_str_view(current_address), person_name@, address@),
{
    let cn = str_chars(current_name);
    let pc = str_chars(person_name);
    let pt = trim_chars(&pc);
    if !chars_eq(&cn, &pt) {
        return false;
    }
    let requested = null_if_empty(address);
    match (current_address, requested) {
        (Some(a), Some(b)) => {
            let ac = str_chars(a);
            let bc = str_chars(b.as_str());
            chars_eq(&ac, &bc)
        },
        (None, None) => true,
        _ => false,
    }
}

/// When the return gift of an edited entry was given: kept when known,
/// else now; none without a return-gift amount.
pub fn entry_return_time(return_gift_amount_fen: Option<i64>, existing: Option<String>, timestamp: &str) -> (r: Option<String>)
    ensures
        return_gift_amount_fen is None ==> r is None,
        return_gift_amount_fen is Some ==> (r matches Some(t) && t@ == (match existing {
            Some(e) => e@,
            None => timestamp@,
        })),
{
    match return_gift_amount_fen {
        None => None,
        Some(_) => match existing {
            Some(e) => Some(e),
            None => Some(owned(timestamp)),
        },
    }
}

/// Checks the title of a gift book: it must not be empty.
pub fn validate_book_title(title: &str) -> (r: Result<(), String>)
    ensures
        trim(title@).len() > 0 ==> r is Ok,
        trim(title@).len() == 0 ==> (r matches Err(e) && e@ == "礼金簿名称不能为空"@),
{
    let c = str_chars(title);
    let t = trim_chars(&c);
    if t.len() == 0 {
        return Err(owned("礼金簿名称不能为空"));
    }
    Ok(())
}

/// The changes an edit makes to a gift book, field by field.
pub open spec fn spec_book_edit_changes(existing: GiftBook, input: EditBookInput) -> Seq<(Seq<char>, Seq<char>, Seq<char>)> {
    let title = trim(input.title@);
    let occasion = trim(input.occasion@);
    let event_date = spec_null_if_empty(input.event_date@);
    let location = spec_null_if_empty(input.location@);
    let notes = spec_null_if_empty(input.notes@);
    change_if(existing.title@ != title, "礼金簿名称"@, existing.title@, title)
        + change_if(existing.occasion@ != occasion, "活动类型"@, existing.occasion@, occasion)
        + change_if(
        opt_view(existing.event_date) != event_date,
        "活动日期"@,
        spec_audit_text(opt_view(existing.event_date)),
        spec_audit_text(event_date),
    ) + change_if(
        opt_view(existing.location) != location,
        "地点"@,
        spec_audit_text(opt_view(existing.location)),
        spec_audit_text(location),
    ) + change_if(
        opt_view(existing.notes) != notes,
        "备注"@,
        spec_audit_text(opt_view(existing.notes)),
        spec_audit_text(notes),
    )
}

/// A gift book after an edit, and the changes the edit makes: title and
/// occasion trimmed, the other fields trimmed or absent when empty; what
/// the edit does not touch is kept.
pub fn book_edit(existing: &GiftBook, input: &EditBookInput) -> (r: (GiftBook, Vec<AuditChange>))
    ensures
        r.0.id@ == existing.id@,
        r.0.title@ == trim(input.title@),
        r.0.occasion@ == trim(input.occasion@),
        opt_view(r.0.event_date) == spec_null_if_empty(input.event_date@),
        opt_view(r.0.location) == spec_null_if_empty(input.location@),
        opt_view(r.0.notes) == spec_null_if_empty(input.notes@),
        r.0.created_at@ == existing.created_at@,
        opt_view(r.0.source_file_name) == opt_view(existing.source_file_name),
        opt_view(r.0.source_file_path) == opt_view(existing.source_file_path),
        opt_view(r.0.source_imported_at) == opt_view(existing.source_imported_at),
        changes_view(r.1@) == spec_book_edit_changes(*existing, *input),
{
    let tc = str_chars(input.title.as_str());
    let title = string_from_chars(&trim_chars(&tc));
    let oc = str_chars(input.occasion.as_str());
    let occasion = string_from_chars(&trim_chars(&oc));
    let event_date = null_if_empty(input.event_date.as_str());
    let location = null_if_empty(input.location.as_str());
    let notes = null_if_empty(input.notes.as_str());
    let mut changes: Vec<AuditChange> = Vec::new();
    assert(changes_view(changes@) =~= Seq::<(Seq<char>, Seq<char>, Seq<char>)>::empty());
    record_text_change(&mut changes, "礼金簿名称", &existing.title, &title);
    record_text_change(&mut changes, "活动类型", &existing.occasion, &occasion);
    record_optional_change(&mut changes, "活动日期", &existing.event_date, &event_date);
    record_optional_change(&mut changes, "地点", &existing.location, &location);
    record_optional_change(&mut changes, "备注", &existing.notes, &notes);
    assert(changes_view(changes@) =~= spec_book_edit_changes(*existing, *input));
    let book = GiftBook {
        id: existing.id.clone(),
        title,
        occasion,
        event_date,
        location,
        notes,
        created_at: existing.created_at.clone(),
        source_file_name: existing.source_file_name.clone(),
        source_file_path: existing.source_file_path.clone(),
        source_imported_at: existing.source_imported_at.clone(),
    };
    (book, changes)
}

/// The name and colour of a new tag: the name trimmed and not empty; the
/// colour as stored, or a default blue when none is given.
pub open spec fn spec_tag_input(name: Seq<char>, color: Seq<char>) -> Result<(Seq<char>, Seq<char>), Seq<char>> {
    if trim(name).len() == 0 {
        Err("标签名称不能为空"@)
    } else if trim(color).len() == 0 {
        Ok((trim(name), "#3b82f6"@))
    } else if is_hex_color(trim(color)) {
        Ok((trim(name), ascii_lower(trim(color))))
    } else {
        Err("标签颜色必须是 #RRGGBB 格式"@)
    }
}

/// The name and colour of a new tag.
pub fn tag_input(name: &str, color: &str) -> (r: Result<(String, String), String>)
    ensures
        match r {
            Ok((n, c)) => spec_tag_input(name@, color@) == Ok::<(Seq<char>, Seq<char>), Seq<char>>((n@, c@)),
            Err(e) => spec_tag_input(name@, color@) == Err::<(Seq<char>, Seq<char>), Seq<char>>(e@),
        },
{
    let nc = str_chars(name);
    let nt = trim_chars(&nc);
    if nt.len() == 0 {
        return Err(owned("标签名称不能为空"));
    }
    let cc = str_chars(color);
    let ct = trim_chars(&cc);
    let c = if ct.len() == 0 {
        owned("#3b82f6")
    } else {
        normalize_tag_color(color)?
    };
    Ok((string_from_chars(&nt), c))
}

/// What refuses a new tag `normalized` given the tags `existing` as
/// (name, deletion time): the first one that is the same tag.
pub open spec fn spec_tag_conflict(normalized: Seq<char>, existing: Seq<(Seq<char>, bool)>, k: int) -> Option<Seq<char>>
    decreases existing.len() - k,
{
    if k < 0 || k >= existing.len() {
        None
    } else if spec_normalize_tag_name(existing[k].0) == normalized {
        if existing[k].1 {
            Some("标签「"@ + existing[k].0 + "」在回收站中，请先恢复或清空回收站"@)
        } else {
            Some("标签「"@ + existing[k].0 + "」已经存在"@)
        }
    } else {
        spec_tag_conflict(normalized, existing, k + 1)
    }
}

/// The tags by their names and whether they are deleted.
pub open spec fn tag_rows_view(v: Seq<(String, Option<String>)>) -> Seq<(Seq<char>, bool)> {
    v.map_values(|t: (String, Option<String>)| (t.0@, t.1 is Some))
}

/// Refuses a new tag named like an existing one, in use or deleted.
pub fn check_tag_conflict(normalized: &str, existing: &[(String, Option<String>)]) -> (r: Result<(), String>)
    ensures
        match spec_tag_conflict(normalized@, tag_rows_view(existing@), 0) {
            None => r is Ok,
            Some(m) => r matches Err(e) && e@ == m,
        },
{
    let ghost ev = tag_rows_view(existing@);
    let key = str_chars(normalized);
    let mut i: usize = 0;
    while i < existing.len()
        invariant
            i <= existing@.len(),
            ev == tag_rows_view(existing@),
            key@ == normalized@,
            spec_tag_conflict(normalized@, ev, 0) == spec_tag_conflict(normalized@, ev, i as int),
        decreases existing@.len() - i,
    {
        let n = normalize_tag_name(existing[i].0.as_str());
        let nc = str_chars(n.as_str());
        assert(ev[i as int] == (existing@[i as int].0@, existing@[i as int].1 is Some));
        if chars_eq(&nc, &key) {
            let name = str_chars(existing[i].0.as_str());
            if existing[i].1.is_some() {
                return Err(concat3("标签「", &name, "」在回收站中，请先恢复或清空回收站"));
            } else {
                return Err(concat3("标签「", &name, "」已经存在"));
            }
        }
        i = i + 1;
    }
    Ok(())
}

} // verus!

verus! {

// ---------------------------------------------------------------------------
// Editing a ledger's name and notes
// ---------------------------------------------------------------------------

/// The changes an edit of a ledger's name and notes makes, given what it
/// stored: the name, and the notes as shown in the history.
pub open spec fn spec_vault_edit_changes(old_name: Seq<char>, old_notes: Seq<char>, name: Seq<char>, notes: Seq<char>) -> Seq<
    (Seq<char>, Seq<char>, Seq<char>),
> {
    change_if(old_name != trim(name), "礼金库名称"@, old_name, trim(name)) + change_if(
        old_notes != trim(notes),
        "礼金库备注"@,
        spec_audit_text(spec_null_if_empty(old_notes)),
        spec_audit_text(spec_null_if_empty(trim(notes))),
    )
}

/// A ledger's new name and notes, both trimmed, and the changes the edit
/// makes; a blank name is refused.
pub fn vault_edit(old_name: &String, old_notes: &String, name: &str, notes: &str) -> (r: Result<(String, String, Vec<AuditChange>), String>)
    ensures
        trim(name@).len() == 0 <==> r is Err,
        r matches Err(m) ==> m@ == "礼金库名称不能为空"@,
        r matches Ok((n, t, changes)) ==> n@ == trim(name@) && t@ == trim(notes@) && changes_view(changes@)
            == spec_vault_edit_changes(old_name@, old_notes@, name@, notes@),
{
    let nc = str_chars(name);
    let nt = trim_chars(&nc);
    if nt.len() == 0 {
        return Err(owned("礼金库名称不能为空"));
    }
    let next_name = string_from_chars(&nt);
    let tc = str_chars(notes);
    let next_notes = string_from_chars(&trim_chars(&tc));
    let mut changes: Vec<AuditChange> = Vec::new();
    assert(changes_view(changes@) =~= Seq::<(Seq<char>, Seq<char>, Seq<char>)>::empty());
    record_text_change(&mut changes, "礼金库名称", old_name, &next_name);
    let before = audit_text(as_opt_str(&null_if_empty(old_notes.as_str())));
    let after = audit_text(as_opt_str(&null_if_empty(next_notes.as_str())));
    let ghost prev = changes_view(changes@);
    if !same_text(old_notes, &next_notes) {
        changes.push(audit_change("礼金库备注", before.as_str(), after.as_str()));
        assert(changes_view(changes@) =~= prev.push(("礼金库备注"@, before@, after@)));
    }
    assert(changes_view(changes@) =~= spec_vault_edit_changes(old_name@, old_notes@, name@, notes@));
    Ok((next_name, next_notes, changes))
}

} // verus!

verus! {

// ---------------------------------------------------------------------------
// Editing a return gift
// ---------------------------------------------------------------------------

/// The changes an edit of a return gift makes: its amount, then its note
/// (trimmed, absent when blank).
pub open spec fn spec_return_gift_changes(previous_amount: i64, previous_note: Option<Seq<char>>, amount: i64, note: Seq<char>) -> Seq<
    (Seq<char>, Seq<char>, Seq<char>),
> {
    change_if(
        previous_amount != amount,
        "回礼金额"@,
        crate::audit::money_text(previous_amount as int),
        crate::audit::money_text(amount as int),
    ) + change_if(
        previous_note != spec_null_if_empty(note),
        "回礼备注"@,
        spec_audit_text(previous_note),
        spec_audit_text(spec_null_if_empty(note)),
    )
}

/// The changes an edit of a return gift makes, as the history records them.
pub fn return_gift_changes(previous_amount: i64, previous_note: &Option<String>, amount: i64, note: &str) -> (r: Vec<AuditChange>)
    ensures
        changes_view(r@) == spec_return_gift_changes(previous_amount, opt_view(*previous_note), amount, note@),
{
    let mut changes: Vec<AuditChange> = Vec::new();
    assert(changes_view(changes@) =~= Seq::<(Seq<char>, Seq<char>, Seq<char>)>::empty());
    if previous_amount != amount {
        let before = crate::audit::format_money_fen(previous_amount);
        let after = crate::audit::format_money_fen(amount);
        changes.push(audit_change("回礼金额", before.as_str(), after.as_str()));
    }
    let ghost first = changes_view(changes@);
    assert(first =~= change_if(
        previous_amount != amount,
        "回礼金额"@,
        crate::audit::money_text(previous_amount as int),
        crate::audit::money_text(amount as int),
    ));
    let next = null_if_empty(note);
    let before = audit_text(as_opt_str(previous_note));
    let after = audit_text(as_opt_str(&next));
    if !crate::audit::same_optional_text(previous_note, &next) {
        changes.push(audit_change("回礼备注", before.as_str(), after.as_str()));
        assert(changes_view(changes@) =~= first.push(("回礼备注"@, before@, after@)));
    }
    assert(changes_view(changes@) =~= spec_return_gift_changes(previous_amount, opt_view(*previous_note), amount, note@));
    changes
}

} // verus!
