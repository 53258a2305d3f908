//! The recycle bin: what kinds of item it holds and the order it lists them in.
use vstd::prelude::*;
use crate::models::TrashItem;
use crate::order::{in_order, lemma_stable_sort, sort_stable, stable_sort};
use crate::text::{
    chars_eq_str, chars_less, chars_lt, lemma_chars_lt_irreflexive, lemma_chars_lt_transitive,
    owned, str_chars,
};

verus! {

/// What an item of the recycle bin is, and so how it is restored.
#[derive(Debug, Clone, Copy, PartialEq, Eq, Structural)]
pub enum TrashKind {
    Book,
    Entry,
    Tag,
    Person,
    /// A whole ledger file, kept outside any ledger.
    Vault,
}

/// The kind named by `kind`, or none for a name the bin does not know.
pub open spec fn spec_trash_kind(kind: Seq<char>) -> Option<TrashKind> {
    if kind == "book"@ {
        Some(TrashKind::Book)
    } else if kind == "entry"@ {
        Some(TrashKind::Entry)
    } else if kind == "tag"@ {
        Some(TrashKind::Tag)
    } else if kind == "person"@ {
        Some(TrashKind::Person)
    } else if kind == "vault"@ {
        Some(TrashKind::Vault)
    } else {
        None
    }
}

/// The kind of a recycle-bin item to restore; an unknown kind is refused
/// with the message the user sees.
pub fn trash_kind(kind: &str) -> (r: Result<TrashKind, String>)
    ensures
        spec_trash_kind(kind@) matches Some(k) ==> r == Ok::<TrashKind, String>(k),
        spec_trash_kind(kind@) is None ==> (r matches Err(m) && m@ == "不支持的回收站项目类型"@),
{
    let k = str_chars(kind);
    if chars_eq_str(&k, "book") {
        Ok(TrashKind::Book)
    } else if chars_eq_str(&k, "entry") {
        Ok(TrashKind::Entry)
    } else if chars_eq_str(&k, "tag") {
        Ok(TrashKind::Tag)
    } else if chars_eq_str(&k, "person") {
        Ok(TrashKind::Person)
    } else if chars_eq_str(&k, "vault") {
        Ok(TrashKind::Vault)
    } else {
        Err(owned("不支持的回收站项目类型"))
    }
}

/// The bin's entry for a deleted ledger file.
pub fn vault_trash_item(id: String, name: String, deleted_at: String) -> (r: TrashItem)
    ensures
        r.id == id,
        r.kind@ == "vault"@,
        r.vault_path is None,
        r.title == name,
        r.book_title@ == "礼金库文件"@,
        r.deleted_at == deleted_at,
{
    TrashItem {
        id,
        kind: owned("vault"),
        vault_path: None,
        title: name,
        book_title: owned("礼金库文件"),
        deleted_at,
    }
}

/// The order of the bin: the most recently deleted first.
pub open spec fn trash_order() -> spec_fn(TrashItem, TrashItem) -> bool {
    |a: TrashItem, b: TrashItem| chars_lt(b.deleted_at@, a.deleted_at@)
}

fn deleted_later(a: &TrashItem, b: &TrashItem) -> (r: bool)
    ensures
        r == (trash_order())(*a, *b),
{
    let x = str_chars(a.deleted_at.as_str());
    let y = str_chars(b.deleted_at.as_str());
    chars_less(&y, &x)
}

/// Orders the items of the bin, the most recently deleted first; items
/// deleted at the same time keep their order.
pub fn sort_trash_items(items: Vec<TrashItem>) -> (r: Vec<TrashItem>)
    ensures
        r@ == stable_sort(items@, trash_order()),
{
    sort_stable(items, deleted_later, Ghost(trash_order()))
}

/// The bin lists the most recently deleted first, and lists exactly the
/// items it was given.
pub proof fn law_trash_is_ordered(items: Seq<TrashItem>)
    ensures
        in_order(stable_sort(items, trash_order()), trash_order()),
        stable_sort(items, trash_order()).to_multiset() == items.to_multiset(),
{
    assert forall|a: TrashItem| !#[trigger] (trash_order())(a, a) by {
        lemma_chars_lt_irreflexive(a.deleted_at@);
    }
    assert forall|a: TrashItem, b: TrashItem, c: TrashItem|
        #[trigger] (trash_order())(a, b) && #[trigger] (trash_order())(b, c) implies (
        trash_order())(a, c) by {
        lemma_chars_lt_transitive(c.deleted_at@, b.deleted_at@, a.deleted_at@);
    }
    lemma_stable_sort(items, trash_order());
}

} // verus!
