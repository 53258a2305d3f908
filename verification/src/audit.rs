//! The history of changes: which changes are recorded, and how a change of
//! a gift entry is described field by field.
use vstd::prelude::*;
use crate::models::AuditChange;
use crate::text::{decimal, decimal_chars, extend_chars, extend_str, owned, str_chars,
    string_from_chars};

verus! {

/// The text shown for a value that was left empty.
pub open spec fn spec_audit_text(value: Option<Seq<char>>) -> Seq<char> {
    match value {
        Some(v) => v,
        None => "未填写"@,
    }
}

/// An optional string by its text.
pub open spec fn opt_view(o: Option<String>) -> Option<Seq<char>> {
    match o {
        Some(s) => Some(s@),
        None => None,
    }
}

/// An optional string slice by its text.
pub open spec fn opt_str_view(o: Option<&str>) -> Option<Seq<char>> {
    match o {
        Some(s) => Some(s@),
        None => None,
    }
}

/// One changed field: its label, the value before and the value after.
pub fn audit_change(field: &str, before: &str, after: &str) -> (r: AuditChange)
    ensures
        r.field@ == field@,
        r.before@ == before@,
        r.after@ == after@,
{
    AuditChange { field: owned(field), before: owned(before), after: owned(after) }
}

/// A value as shown in the history, `未填写` when it is missing.
pub fn audit_text(value: Option<&str>) -> (r: String)
    ensures
        r@ == spec_audit_text(opt_str_view(value)),
{
    match value {
        Some(v) => owned(v),
        None => owned("未填写"),
    }
}

/// `{:02}` of the signed remainder of an amount: `00` for zero, a leading
/// zero for one positive digit, and the sign counting toward the width.
pub open spec fn cents_text(negative: bool, r: nat) -> Seq<char> {
    if r == 0 {
        "00"@
    } else if negative {
        "-"@ + decimal(r)
    } else if r < 10 {
        "0"@ + decimal(r)
    } else {
        decimal(r)
    }
}

/// `{amount / 100}` with Rust's truncating division: the whole yuan, with
/// a minus sign only when that quotient is not zero.
pub open spec fn whole_yuan_text(amount: int) -> Seq<char> {
    let m: nat = if amount < 0 {
        (-amount) as nat
    } else {
        amount as nat
    };
    (if amount < 0 && m / 100 > 0 {
        "-"@
    } else {
        Seq::empty()
    }) + decimal(m / 100)
}

/// `{amount % 100:02}` with Rust's remainder, which takes the sign of the amount.
pub open spec fn cents_of_text(amount: int) -> Seq<char> {
    let m: nat = if amount < 0 {
        (-amount) as nat
    } else {
        amount as nat
    };
    cents_text(amount < 0, m % 100)
}

/// `¥{amount / 100}.{amount % 100:02}`.
pub open spec fn money_text(amount: int) -> Seq<char> {
    "¥"@ + whole_yuan_text(amount) + "."@ + cents_of_text(amount)
}

/// The magnitude of an amount.
fn magnitude(amount: i64) -> (r: u64)
    ensures
        r as int == if amount < 0 {
            -(amount as int)
        } else {
            amount as int
        },
{
    let wide = amount as i128;
    if amount < 0 {
        (-wide) as u64
    } else {
        wide as u64
    }
}

/// The whole yuan of an amount in fen, as Rust prints `amount / 100`.
pub fn whole_yuan_chars(amount_fen: i64) -> (r: Vec<char>)
    ensures
        r@ == whole_yuan_text(amount_fen as int),
{
    let m = magnitude(amount_fen);
    let q = m / 100;
    let mut v: Vec<char> = Vec::new();
    if amount_fen < 0 && q > 0 {
        v.push('-');
    }
    let qd = decimal_chars(q);
    extend_chars(&mut v, &qd);
    proof {
        reveal_strlit("-");
    }
    assert(v@ =~= whole_yuan_text(amount_fen as int));
    v
}

/// The fen of an amount, as Rust prints `amount % 100` with `{:02}`.
pub fn cents_chars(amount_fen: i64) -> (r: Vec<char>)
    ensures
        r@ == cents_of_text(amount_fen as int),
{
    let m = magnitude(amount_fen);
    let rem = m % 100;
    let rd = decimal_chars(rem);
    let mut v: Vec<char> = Vec::new();
    if rem == 0 {
        extend_str(&mut v, "00");
    } else if amount_fen < 0 {
        extend_str(&mut v, "-");
        extend_chars(&mut v, &rd);
    } else if rem < 10 {
        extend_str(&mut v, "0");
        extend_chars(&mut v, &rd);
    } else {
        extend_chars(&mut v, &rd);
    }
    assert(v@ =~= cents_of_text(amount_fen as int));
    v
}

/// An amount in fen written as yuan, such as `¥1200.50`.
pub fn format_money_fen(amount_fen: i64) -> (r: String)
    ensures
        r@ == money_text(amount_fen as int),
{
    let mut v = str_chars("¥");
    let whole = whole_yuan_chars(amount_fen);
    extend_chars(&mut v, &whole);
    extend_str(&mut v, ".");
    let cents = cents_chars(amount_fen);
    extend_chars(&mut v, &cents);
    let r = string_from_chars(&v);
    assert(r@ =~= money_text(amount_fen as int));
    r
}

/// What the history knew of a gift entry at one moment.
#[derive(Debug, Clone)]
pub struct EntryAuditSnapshot {
    pub book_title: String,
    pub person_name: String,
    pub address: Option<String>,
    pub amount_fen: i64,
    pub payment_method: String,
    pub note: Option<String>,
    pub return_gift: Option<String>,
    pub return_gift_amount_fen: Option<i64>,
    pub tags: String,
}

/// A change as (label, before, after).
pub open spec fn change_view(c: AuditChange) -> (Seq<char>, Seq<char>, Seq<char>) {
    (c.field@, c.before@, c.after@)
}

/// The changes of a list, as (label, before, after).
pub open spec fn changes_view(v: Seq<AuditChange>) -> Seq<(Seq<char>, Seq<char>, Seq<char>)> {
    v.map_values(|c: AuditChange| change_view(c))
}

/// The entry `(label, before, after)` when `changed`, else nothing.
pub open spec fn change_if(
    changed: bool,
    label: Seq<char>,
    before: Seq<char>,
    after: Seq<char>,
) -> Seq<(Seq<char>, Seq<char>, Seq<char>)> {
    if changed {
        seq![(label, before, after)]
    } else {
        Seq::empty()
    }
}

/// An optional return-gift amount as shown in the history.
pub open spec fn optional_money_text(amount: Option<i64>) -> Seq<char> {
    match amount {
        Some(a) => money_text(a as int),
        None => "未填写"@,
    }
}

/// Person tags as shown in the history, `未设置` when there are none.
pub open spec fn tags_text(tags: Seq<char>) -> Seq<char> {
    if tags.len() == 0 {
        "未设置"@
    } else {
        tags
    }
}

/// The field-by-field changes between two states of a gift entry, in the
/// order name, address, amount, payment method, note, return-gift note,
/// return-gift amount, person tags.
pub open spec fn spec_entry_audit_changes(b: EntryAuditSnapshot, a: EntryAuditSnapshot) -> Seq<
    (Seq<char>, Seq<char>, Seq<char>),
> {
    change_if(b.person_name@ != a.person_name@, "姓名"@, b.person_name@, a.person_name@)
        + change_if(
        opt_view(b.address) != opt_view(a.address),
        "地址"@,
        spec_audit_text(opt_view(b.address)),
        spec_audit_text(opt_view(a.address)),
    ) + change_if(
        b.amount_fen != a.amount_fen,
        "金额"@,
        money_text(b.amount_fen as int),
        money_text(a.amount_fen as int),
    ) + change_if(
        b.payment_method@ != a.payment_method@,
        "支付方式"@,
        b.payment_method@,
        a.payment_method@,
    ) + change_if(
        opt_view(b.note) != opt_view(a.note),
        "备注"@,
        spec_audit_text(opt_view(b.note)),
        spec_audit_text(opt_view(a.note)),
    ) + change_if(
        opt_view(b.return_gift) != opt_view(a.return_gift),
        "回礼备注"@,
        spec_audit_text(opt_view(b.return_gift)),
        spec_audit_text(opt_view(a.return_gift)),
    ) + change_if(
        b.return_gift_amount_fen != a.return_gift_amount_fen,
        "回礼金额"@,
        optional_money_text(b.return_gift_amount_fen),
        optional_money_text(a.return_gift_amount_fen),
    ) + change_if(b.tags@ != a.tags@, "人物标签"@, tags_text(b.tags@), tags_text(a.tags@))
}

/// Whether two strings hold the same text.
pub(crate) fn same_text(a: &String, b: &String) -> (r: bool)
    ensures
        r == (a@ == b@),
{
    let x = str_chars(a.as_str());
    let y = str_chars(b.as_str());
    crate::text::chars_eq(&x, &y)
}

/// Whether two optional strings hold the same text.
pub(crate) fn same_optional_text(a: &Option<String>, b: &Option<String>) -> (r: bool)
    ensures
        r == (opt_view(*a) == opt_view(*b)),
{
    match (a, b) {
        (Some(x), Some(y)) => same_text(x, y),
        (None, None) => true,
        _ => false,
    }
}

/// An optional string as an optional string slice.
pub(crate) fn as_opt_str(o: &Option<String>) -> (r: Option<&str>)
    ensures
        opt_str_view(r) == opt_view(*o),
{
    match o {
        Some(s) => Some(s.as_str()),
        None => None,
    }
}

/// An optional return-gift amount as shown in the history.
fn optional_money(amount: Option<i64>) -> (r: String)
    ensures
        r@ == optional_money_text(amount),
{
    match amount {
        Some(a) => format_money_fen(a),
        None => owned("未填写"),
    }
}

/// Person tags as shown in the history.
pub(crate) fn tags_display(tags: &String) -> (r: String)
    ensures
        r@ == tags_text(tags@),
{
    if tags.as_str().is_empty() {
        owned("未设置")
    } else {
        tags.clone()
    }
}

/// Appends `(label, before, after)` to `changes`.
fn push_change(changes: &mut Vec<AuditChange>, label: &str, before: String, after: String)
    ensures
        changes_view(final(changes)@) == changes_view(old(changes)@).push(
            (label@, before@, after@),
        ),
{
    changes.push(AuditChange { field: owned(label), before, after });
    assert(changes_view(changes@) =~= changes_view(old(changes)@).push(
        (label@, before@, after@),
    ));
}

/// The field-by-field changes between two states of a gift entry.
pub(crate) fn record_text_change(changes: &mut Vec<AuditChange>, label: &str, b: &String, a: &String)
    ensures
        changes_view(final(changes)@) == changes_view(old(changes)@) + change_if(
            b@ != a@,
            label@,
            b@,
            a@,
        ),
{
    if !same_text(b, a) {
        push_change(changes, label, b.clone(), a.clone());
    }
    assert(changes_view(changes@) =~= changes_view(old(changes)@) + change_if(
        b@ != a@,
        label@,
        b@,
        a@,
    ));
}

pub(crate) fn record_optional_change(
    changes: &mut Vec<AuditChange>,
    label: &str,
    b: &Option<String>,
    a: &Option<String>,
)
    ensures
        changes_view(final(changes)@) == changes_view(old(changes)@) + change_if(
            opt_view(*b) != opt_view(*a),
            label@,
            spec_audit_text(opt_view(*b)),
            spec_audit_text(opt_view(*a)),
        ),
{
    if !same_optional_text(b, a) {
        push_change(changes, label, audit_text(as_opt_str(b)), audit_text(as_opt_str(a)));
    }
    assert(changes_view(changes@) =~= changes_view(old(changes)@) + change_if(
        opt_view(*b) != opt_view(*a),
        label@,
        spec_audit_text(opt_view(*b)),
        spec_audit_text(opt_view(*a)),
    ));
}

fn record_amount_change(changes: &mut Vec<AuditChange>, label: &str, b: i64, a: i64)
    ensures
        changes_view(final(changes)@) == changes_view(old(changes)@) + change_if(
            b != a,
            label@,
            money_text(b as int),
            money_text(a as int),
        ),
{
    if b != a {
        push_change(changes, label, format_money_fen(b), format_money_fen(a));
    }
    assert(changes_view(changes@) =~= changes_view(old(changes)@) + change_if(
        b != a,
        label@,
        money_text(b as int),
        money_text(a as int),
    ));
}

fn record_optional_amount_change(
    changes: &mut Vec<AuditChange>,
    label: &str,
    b: Option<i64>,
    a: Option<i64>,
)
    ensures
        changes_view(final(changes)@) == changes_view(old(changes)@) + change_if(
            b != a,
            label@,
            optional_money_text(b),
            optional_money_text(a),
        ),
{
    if b != a {
        push_change(changes, label, optional_money(b), optional_money(a));
    }
    assert(changes_view(changes@) =~= changes_view(old(changes)@) + change_if(
        b != a,
        label@,
        optional_money_text(b),
        optional_money_text(a),
    ));
}

fn record_tags_change(changes: &mut Vec<AuditChange>, label: &str, b: &String, a: &String)
    ensures
        changes_view(final(changes)@) == changes_view(old(changes)@) + change_if(
            b@ != a@,
            label@,
            tags_text(b@),
            tags_text(a@),
        ),
{
    if !same_text(b, a) {
        push_change(changes, label, tags_display(b), tags_display(a));
    }
    assert(changes_view(changes@) =~= changes_view(old(changes)@) + change_if(
        b@ != a@,
        label@,
        tags_text(b@),
        tags_text(a@),
    ));
}

/// The field-by-field changes between two states of a gift entry.
pub fn entry_audit_changes(before: &EntryAuditSnapshot, after: &EntryAuditSnapshot) -> (r: Vec<
    AuditChange,
>)
    ensures
        changes_view(r@) == spec_entry_audit_changes(*before, *after),
{
    let mut changes: Vec<AuditChange> = Vec::new();
    assert(changes_view(changes@) =~= Seq::<(Seq<char>, Seq<char>, Seq<char>)>::empty());
    record_text_change(&mut changes, "姓名", &before.person_name, &after.person_name);
    record_optional_change(&mut changes, "地址", &before.address, &after.address);
    record_amount_change(&mut changes, "金额", before.amount_fen, after.amount_fen);
    record_text_change(&mut changes, "支付方式", &before.payment_method, &after.payment_method);
    record_optional_change(&mut changes, "备注", &before.note, &after.note);
    record_optional_change(&mut changes, "回礼备注", &before.return_gift, &after.return_gift);
    record_optional_amount_change(
        &mut changes,
        "回礼金额",
        before.return_gift_amount_fen,
        after.return_gift_amount_fen,
    );
    record_tags_change(&mut changes, "人物标签", &before.tags, &after.tags);
    assert(changes_view(changes@) =~= spec_entry_audit_changes(*before, *after));
    changes
}

/// Which changes enter the history: updates, deletions and restorations of
/// gift entries, people and gift books, and updates of the vault.
pub open spec fn spec_should_record_audit(entity_type: Seq<char>, action: Seq<char>) -> bool {
    ||| (entity_type == "gift_entry"@ || entity_type == "person"@ || entity_type == "gift_book"@)
        && (action == "update"@ || action == "delete"@ || action == "restore"@)
    ||| entity_type == "vault"@ && action == "update"@
}

/// Whether a change of this kind enters the history.
pub fn should_record_audit(entity_type: &str, action: &str) -> (r: bool)
    ensures
        r == spec_should_record_audit(entity_type@, action@),
{
    let e = str_chars(entity_type);
    let a = str_chars(action);
    let is_update = crate::text::chars_eq_str(&a, "update");
    let is_delete = crate::text::chars_eq_str(&a, "delete");
    let is_restore = crate::text::chars_eq_str(&a, "restore");
    let item = crate::text::chars_eq_str(&e, "gift_entry") || crate::text::chars_eq_str(
        &e,
        "person",
    ) || crate::text::chars_eq_str(&e, "gift_book");
    let vault = crate::text::chars_eq_str(&e, "vault");
    (item && (is_update || is_delete || is_restore)) || (vault && is_update)
}

} // verus!
