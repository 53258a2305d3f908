//! The spreadsheet a gift book is exported to: its file name, its totals
//! and the text of its tag column.
use vstd::prelude::*;
use crate::models::GiftEntry;
use crate::sheet::{safe_excel_file_stem, spec_safe_excel_file_stem};
use crate::text::{ascii_lower, ends_with, ends_with_chars, join, join_strings, owned, str_chars, strings_view, to_ascii_lower};

verus! {

/// The file name offered when a gift book is exported.
pub fn export_default_name(book_title: &str) -> (r: String)
    ensures
        r@ == spec_safe_excel_file_stem(book_title@) + ".xlsx"@,
{
    let stem = safe_excel_file_stem(book_title);
    let mut c = str_chars(stem.as_str());
    crate::text::extend_str(&mut c, ".xlsx");
    crate::text::string_from_chars(&c)
}

/// Where an export is saved: the chosen path, with `.xlsx` added unless it
/// already ends so (in any case).
pub open spec fn spec_export_destination(d: Seq<char>) -> Seq<char> {
    if ends_with(ascii_lower(d), ".xlsx"@) {
        d
    } else {
        d + ".xlsx"@
    }
}

/// Where an export is saved.
pub fn export_destination(destination: &str) -> (r: String)
    ensures
        r@ == spec_export_destination(destination@),
{
    let c = str_chars(destination);
    let lower = to_ascii_lower(&c);
    let suffix = str_chars(".xlsx");
    if ends_with_chars(&lower, &suffix) {
        owned(destination)
    } else {
        let mut out = c;
        crate::text::extend_str(&mut out, ".xlsx");
        crate::text::string_from_chars(&out)
    }
}

/// The sum of the amounts of `entries`.
pub open spec fn amount_sum(entries: Seq<GiftEntry>) -> int
    decreases entries.len(),
{
    if entries.len() == 0 {
        0
    } else {
        amount_sum(entries.drop_last()) + entries.last().amount_fen
    }
}

/// Every running total of the amounts fits in 64 bits.
pub open spec fn running_totals_fit(entries: Seq<GiftEntry>) -> bool {
    forall|k: int| 0 <= k <= entries.len() ==> i64::MIN <= #[trigger] amount_sum(entries.take(k)) <= i64::MAX
}

/// The total amount and the number of the entries of an export.
pub fn export_totals(entries: &[GiftEntry]) -> (r: (i64, u32))
    requires
        running_totals_fit(entries@),
        entries@.len() <= u32::MAX,
    ensures
        r.0 == amount_sum(entries@),
        r.1 == entries@.len(),
{
    let mut total: i64 = 0;
    let mut count: u32 = 0;
    let mut i: usize = 0;
    while i < entries.len()
        invariant
            i <= entries@.len(),
            entries@.len() <= u32::MAX,
            running_totals_fit(entries@),
            total == amount_sum(entries@.take(i as int)),
            count == i,
        decreases entries@.len() - i,
    {
        proof {
            let t = entries@.take(i as int + 1);
            assert(t.drop_last() =~= entries@.take(i as int));
            assert(t.last() == entries@[i as int]);
            assert(i64::MIN <= amount_sum(entries@.take(i as int + 1)) <= i64::MAX);
        }
        total = total + entries[i].amount_fen;
        count = count + 1;
        i = i + 1;
    }
    assert(entries@.take(entries@.len() as int) =~= entries@);
    (total, count)
}

/// The text of the tag column of an exported entry: its tag names joined
/// by `、`.
pub fn entry_tag_text(entry: &GiftEntry) -> (r: String)
    ensures
        r@ == join(strings_view(entry.tag_names@), "、"@),
{
    join_strings(&entry.tag_names, "、")
}

} // verus!
