//! What an import takes from each spreadsheet row: the gift record that the
//! row describes, read through the columns that the analysis found.
use vstd::prelude::*;
use crate::models::{SpreadsheetTagPreview, SpreadsheetTagValuePreview};
use crate::money::{parse_amount_fen, spec_parse_amount_fen};
use crate::sheet::{
    cell, import_refusal, mapping_columns, mapping_labels, missing_column_messages, range_messages,
    rows_view, sheet_row_report, spec_address_aliases, spec_amount_aliases, spec_column_index,
    spec_date_aliases, spec_name_aliases, spec_note_aliases, spec_payment_aliases,
    spec_return_amount_aliases, spec_return_gift_aliases, spec_return_time_aliases,
    spec_tag_aliases, ParsedSheet, SheetAnalysis,
};
use crate::tags::{normalize_tag_name, spec_normalize_tag_name, spec_split_tag_names, split_tag_names};
use crate::text::{chars_eq, concat2, is_digit, owned, strs_view, str_chars, string_from_chars, strings_view, trim, trim_chars};

verus! {

/// The formats in which the local time is written.
pub open spec fn is_local_time_format(f: Seq<char>) -> bool {
    f == "%Y-%m-%d %H:%M:%S"@ || f == "%Y%m%d-%H%M%S-%3f"@ || f == "%Y%m%d"@
}

/// A year as chrono writes `%Y`: at least four digits, or a sign followed
/// by digits for years outside 0 to 9999.
pub open spec fn is_year_text(y: Seq<char>) -> bool {
    &&& y.len() >= 4
    &&& (is_digit(y[0]) || y[0] == '+' || y[0] == '-')
    &&& forall|i: int| 1 <= i < y.len() ==> is_digit(#[trigger] y[i])
}

/// The characters of `t` from `from` up to `to` are decimal digits.
pub open spec fn digits_between(t: Seq<char>, from: int, to: int) -> bool {
    forall|i: int| from <= i < to ==> is_digit(#[trigger] t[i])
}

/// A time as `%Y-%m-%d %H:%M:%S` writes it: the year, then
/// `-MM-DD HH:MM:SS` with two digits in each place.
pub open spec fn is_local_timestamp(t: Seq<char>) -> bool {
    let n = t.len() as int;
    &&& n >= 19
    &&& is_year_text(t.take(n - 15))
    &&& t[n - 15] == '-' && digits_between(t, n - 14, n - 12)
    &&& t[n - 12] == '-' && digits_between(t, n - 11, n - 9)
    &&& t[n - 9] == ' ' && digits_between(t, n - 8, n - 6)
    &&& t[n - 6] == ':' && digits_between(t, n - 5, n - 3)
    &&& t[n - 3] == ':' && digits_between(t, n - 2, n)
}

/// A time as `%Y%m%d-%H%M%S-%3f` writes it: the year, then `MMDD-HHMMSS-mmm`
/// in digits.
pub open spec fn is_backup_stamp(t: Seq<char>) -> bool {
    let n = t.len() as int;
    &&& n >= 19
    &&& is_year_text(t.take(n - 15))
    &&& digits_between(t, n - 15, n - 11)
    &&& t[n - 11] == '-' && digits_between(t, n - 10, n - 4)
    &&& t[n - 4] == '-' && digits_between(t, n - 3, n)
}

/// A day as `%Y%m%d` writes it: the year, then `MMDD` in digits.
pub open spec fn is_day_stamp(t: Seq<char>) -> bool {
    let n = t.len() as int;
    &&& n >= 8
    &&& is_year_text(t.take(n - 4))
    &&& digits_between(t, n - 4, n)
}

/// The form of a time written in one of the local time formats.
pub open spec fn local_time_form(format: Seq<char>, t: Seq<char>) -> bool {
    if format == "%Y-%m-%d %H:%M:%S"@ {
        is_local_timestamp(t)
    } else if format == "%Y%m%d-%H%M%S-%3f"@ {
        is_backup_stamp(t)
    } else {
        is_day_stamp(t)
    }
}

/// The current local time written in `format`
/// (`chrono::Local::now().format(..)`). Nothing is stated of the clock;
/// what holds of every time is its form: chrono writes the year with at
/// least four digits (a sign first outside 0 to 9999), the other fields as
/// two digits with zero padding, and `%3f` as three digits.
#[verifier::external_body]
pub(crate) fn local_now_format(format: &str) -> (r: String)
    requires
        is_local_time_format(format@),
    ensures
        local_time_form(format@, r@),
{
    chrono::Local::now().format(format).to_string()
}

/// The text trimmed, or nothing when that is empty.
pub open spec fn spec_null_if_empty(s: Seq<char>) -> Option<Seq<char>> {
    if trim(s).len() == 0 {
        None
    } else {
        Some(trim(s))
    }
}

/// The text trimmed, or nothing when that is empty.
pub fn null_if_empty(value: &str) -> (r: Option<String>)
    ensures
        match r {
            Some(v) => spec_null_if_empty(value@) == Some(v@),
            None => spec_null_if_empty(value@) is None,
        },
{
    let c = str_chars(value);
    let t = trim_chars(&c);
    if t.len() == 0 {
        None
    } else {
        Some(string_from_chars(&t))
    }
}

/// The time a gift was received: the text given, trimmed, or the current
/// local time (`%Y-%m-%d %H:%M:%S`) when it is empty.
pub fn received_at_or_now(value: &str) -> (r: String)
    ensures
        trim(value@).len() > 0 ==> r@ == trim(value@),
        trim(value@).len() == 0 ==> is_local_timestamp(r@),
{
    let c = str_chars(value);
    let t = trim_chars(&c);
    if t.len() == 0 {
        local_now_format("%Y-%m-%d %H:%M:%S")
    } else {
        string_from_chars(&t)
    }
}

/// The cell of an optional column; a missing column or cell reads as empty.
pub open spec fn opt_cell(row: Seq<Seq<char>>, index: Option<usize>) -> Seq<char> {
    match index {
        Some(i) => cell(row, i as int),
        None => Seq::empty(),
    }
}

/// The cell of an optional column.
fn opt_cell_text(row: &[String], index: Option<usize>) -> (r: String)
    ensures
        r@ == opt_cell(strings_view(row@), index),
{
    match index {
        Some(i) => {
            if i < row.len() {
                row[i].clone()
            } else {
                String::new()
            }
        },
        None => String::new(),
    }
}

/// What an optional amount cell gives: nothing when empty, the amount in
/// fen when it is a positive amount, else a complaint naming the text.
pub open spec fn spec_optional_amount(t: Seq<char>) -> Result<Option<int>, Seq<char>> {
    if t.len() == 0 {
        Ok(None)
    } else {
        match spec_parse_amount_fen(t) {
            Some(v) => if v > 0 {
                Ok(Some(v))
            } else {
                Err("回礼金额无效: "@ + t)
            },
            None => Err("回礼金额无效: "@ + t),
        }
    }
}

/// The return-gift amount of a row, if its column is there and filled.
pub fn optional_imported_amount(row: &[String], index: Option<usize>) -> (r: Result<Option<i64>, String>)
    ensures
        ({
            let t = trim(opt_cell(strings_view(row@), index));
            match r {
                Ok(Some(v)) => spec_optional_amount(t) == Ok::<Option<int>, Seq<char>>(Some(v as int)),
                Ok(None) => spec_optional_amount(t) == Ok::<Option<int>, Seq<char>>(None),
                Err(e) => spec_optional_amount(t) == Err::<Option<int>, Seq<char>>(e@),
            }
        }),
{
    let raw = opt_cell_text(row, index);
    let c = str_chars(raw.as_str());
    let t = trim_chars(&c);
    if t.len() == 0 {
        return Ok(None);
    }
    let value = string_from_chars(&t);
    match parse_amount_fen(value.as_str()) {
        Some(v) => {
            if v > 0 {
                Ok(Some(v))
            } else {
                Err(concat2("回礼金额无效: ", &t))
            }
        },
        None => Err(concat2("回礼金额无效: ", &t)),
    }
}

/// The name and amount columns an import needs.
pub fn import_columns(analysis: &SheetAnalysis) -> (r: Result<(usize, usize), String>)
    ensures
        match (analysis.name_index, analysis.amount_index) {
            (Some(n), Some(a)) => r == Ok::<(usize, usize), String>((n, a)),
            (None, _) => r matches Err(e) && e@ == "缺少姓名列"@,
            (Some(_), None) => r matches Err(e) && e@ == "缺少金额列"@,
        },
{
    let name_index = match analysis.name_index {
        Some(n) => n,
        None => {
            return Err(owned("缺少姓名列"));
        },
    };
    let amount_index = match analysis.amount_index {
        Some(a) => a,
        None => {
            return Err(owned("缺少金额列"));
        },
    };
    Ok((name_index, amount_index))
}

/// The gift record that one spreadsheet row describes. The two time cells
/// are kept as written; they are read as dates where the record is stored.
#[derive(Debug, Clone)]
pub struct ImportedRow {
    pub person_name: String,
    pub amount_fen: i64,
    pub address: String,
    pub received_at_text: String,
    pub note: String,
    pub return_gift: String,
    pub return_gift_amount_fen: Option<i64>,
    pub return_gifted_at_text: String,
    pub payment_method: String,
    /// The tags of the row as (normalized name, name as written).
    pub tags: Vec<(String, String)>,
}

/// The payment method of a row: the cell trimmed, or `导入` when empty.
pub open spec fn spec_payment_method(t: Seq<char>) -> Seq<char> {
    if trim(t).len() == 0 {
        "导入"@
    } else {
        trim(t)
    }
}

/// The tags of a row by their normalized names and their names.
pub open spec fn tag_pairs_view(v: Seq<(String, String)>) -> Seq<(Seq<char>, Seq<char>)> {
    v.map_values(|p: (String, String)| (p.0@, p.1@))
}

/// The record a row gives, or why it gives none.
pub open spec fn row_record_ok(row: Seq<Seq<char>>, a: SheetAnalysis, name_index: usize, amount_index: usize, r: ImportedRow) -> bool {
    &&& r.person_name@ == trim(cell(row, name_index as int))
    &&& spec_parse_amount_fen(cell(row, amount_index as int)) == Some(r.amount_fen as int)
    &&& r.address@ == trim(opt_cell(row, a.address_index))
    &&& r.received_at_text@ == opt_cell(row, a.date_index)
    &&& r.note@ == trim(opt_cell(row, a.note_index))
    &&& r.return_gift@ == trim(opt_cell(row, a.return_gift_index))
    &&& spec_optional_amount(trim(opt_cell(row, a.return_gift_amount_index))) == Ok::<Option<int>, Seq<char>>(
        match r.return_gift_amount_fen {
            Some(v) => Some(v as int),
            None => None,
        },
    )
    &&& r.return_gifted_at_text@ == opt_cell(row, a.return_gifted_at_index)
    &&& r.payment_method@ == spec_payment_method(opt_cell(row, a.payment_index))
    &&& tag_pairs_view(r.tags@) == spec_split_tag_names(opt_cell(row, a.tag_index)).map_values(
        |n: Seq<char>| (spec_normalize_tag_name(n), n),
    )
}

/// Reads one spreadsheet row as a gift record: the name and amount from
/// their columns (`name_index`, `amount_index`), the other fields from the
/// columns the analysis found.
pub fn prepare_import_row(
    row: &[String],
    analysis: &SheetAnalysis,
    name_index: usize,
    amount_index: usize,
) -> (r: Result<ImportedRow, String>)
    ensures
        ({
            let rv = strings_view(row@);
            match r {
                Ok(rec) => {
                    &&& spec_parse_amount_fen(cell(rv, amount_index as int)) is Some
                    &&& row_record_ok(rv, *analysis, name_index, amount_index, rec)
                },
                Err(e) => {
                    ||| (spec_parse_amount_fen(cell(rv, amount_index as int)) is None && e@ == "导入金额解析失败"@)
                    ||| (spec_parse_amount_fen(cell(rv, amount_index as int)) is Some
                        && spec_optional_amount(trim(opt_cell(rv, analysis.return_gift_amount_index))) == Err::<Option<int>, Seq<char>>(e@))
                },
            }
        }),
        spec_parse_amount_fen(cell(strings_view(row@), amount_index as int)) is None ==> r is Err,
        spec_parse_amount_fen(cell(strings_view(row@), amount_index as int)) is Some
            && spec_optional_amount(trim(opt_cell(strings_view(row@), analysis.return_gift_amount_index))) is Ok ==> r is Ok,
{
    let ghost rv = strings_view(row@);
    let name_cell = opt_cell_text(row, Some(name_index));
    let nc = str_chars(name_cell.as_str());
    let person_name = string_from_chars(&trim_chars(&nc));
    let amount_cell = opt_cell_text(row, Some(amount_index));
    let amount_fen = match parse_amount_fen(amount_cell.as_str()) {
        Some(v) => v,
        None => {
            return Err(owned("导入金额解析失败"));
        },
    };
    let address_cell = opt_cell_text(row, analysis.address_index);
    let ac = str_chars(address_cell.as_str());
    let address = string_from_chars(&trim_chars(&ac));
    let received_at_text = opt_cell_text(row, analysis.date_index);
    let note_cell = opt_cell_text(row, analysis.note_index);
    let ncc = str_chars(note_cell.as_str());
    let note = string_from_chars(&trim_chars(&ncc));
    let gift_cell = opt_cell_text(row, analysis.return_gift_index);
    let gc = str_chars(gift_cell.as_str());
    let return_gift = string_from_chars(&trim_chars(&gc));
    let return_gift_amount_fen = optional_imported_amount(row, analysis.return_gift_amount_index)?;
    let return_gifted_at_text = opt_cell_text(row, analysis.return_gifted_at_index);
    let pay_cell = opt_cell_text(row, analysis.payment_index);
    let pc = str_chars(pay_cell.as_str());
    let pt = trim_chars(&pc);
    let payment_method = if pt.len() == 0 {
        owned("导入")
    } else {
        string_from_chars(&pt)
    };
    let tag_cell = opt_cell_text(row, analysis.tag_index);
    let names = split_tag_names(tag_cell.as_str());
    let ghost nv = strings_view(names@);
    let mut tags: Vec<(String, String)> = Vec::new();
    let mut i: usize = 0;
    while i < names.len()
        invariant
            i <= names@.len(),
            nv == strings_view(names@),
            tag_pairs_view(tags@) == nv.take(i as int).map_values(|n: Seq<char>| (spec_normalize_tag_name(n), n)),
        decreases names@.len() - i,
    {
        let key = normalize_tag_name(names[i].as_str());
        let ghost before = tag_pairs_view(tags@);
        tags.push((key, names[i].clone()));
        assert(tag_pairs_view(tags@) =~= before.push((spec_normalize_tag_name(nv[i as int]), nv[i as int])));
        assert(nv.take(i as int + 1).map_values(|n: Seq<char>| (spec_normalize_tag_name(n), n)) =~= nv.take(i as int).map_values(|n: Seq<char>| (spec_normalize_tag_name(n), n)).push((spec_normalize_tag_name(nv[i as int]), nv[i as int])));
        i = i + 1;
    }
    assert(nv.take(nv.len() as int) =~= nv);
    Ok(
        ImportedRow {
            person_name,
            amount_fen,
            address,
            received_at_text,
            note,
            return_gift,
            return_gift_amount_fen,
            return_gifted_at_text,
            payment_method,
            tags,
        },
    )
}

/// The tags of a preview that an import would create, and the names of
/// those it would reuse.
pub fn partition_preview_tags(preview: &SpreadsheetTagPreview) -> (r: (Vec<SpreadsheetTagValuePreview>, Vec<String>))
    ensures
        crate::tags::previews_view(r.0@) == crate::tags::previews_view(preview.values@).filter(
            |p: (Seq<char>, Seq<char>, bool, nat)| !p.2,
        ),
        strings_view(r.1@) == crate::tags::previews_view(preview.values@).filter(
            |p: (Seq<char>, Seq<char>, bool, nat)| p.2,
        ).map_values(|p: (Seq<char>, Seq<char>, bool, nat)| p.0),
{
    let ghost pv = crate::tags::previews_view(preview.values@);
    let ghost is_new = |p: (Seq<char>, Seq<char>, bool, nat)| !p.2;
    let ghost is_old = |p: (Seq<char>, Seq<char>, bool, nat)| p.2;
    let mut created: Vec<SpreadsheetTagValuePreview> = Vec::new();
    let mut existing: Vec<String> = Vec::new();
    let mut i: usize = 0;
    while i < preview.values.len()
        invariant
            i <= preview.values@.len(),
            pv == crate::tags::previews_view(preview.values@),
            is_new == (|p: (Seq<char>, Seq<char>, bool, nat)| !p.2),
            is_old == (|p: (Seq<char>, Seq<char>, bool, nat)| p.2),
            crate::tags::previews_view(created@) == pv.take(i as int).filter(is_new),
            strings_view(existing@) == pv.take(i as int).filter(is_old).map_values(|p: (Seq<char>, Seq<char>, bool, nat)| p.0),
        decreases preview.values@.len() - i,
    {
        let v = &preview.values[i];
        proof {
            assert(pv.take(i as int + 1).drop_last() =~= pv.take(i as int));
            assert(pv.take(i as int + 1).last() == pv[i as int]);
            reveal(Seq::filter);
        }
        if v.existing {
            let ghost before = strings_view(existing@);
            existing.push(v.name.clone());
            assert(strings_view(existing@) =~= before.push(v.name@));
            assert(pv.take(i as int + 1).filter(is_old) =~= pv.take(i as int).filter(is_old).push(pv[i as int]));
            assert(pv.take(i as int + 1).filter(is_new) =~= pv.take(i as int).filter(is_new));
            assert(strings_view(existing@) =~= pv.take(i as int + 1).filter(is_old).map_values(|p: (Seq<char>, Seq<char>, bool, nat)| p.0));
        } else {
            let ghost before = crate::tags::previews_view(created@);
            created.push(SpreadsheetTagValuePreview {
                name: v.name.clone(),
                color: v.color.clone(),
                existing: v.existing,
                count: v.count,
            });
            assert(crate::tags::previews_view(created@) =~= before.push(pv[i as int]));
            assert(pv.take(i as int + 1).filter(is_new) =~= pv.take(i as int).filter(is_new).push(pv[i as int]));
            assert(pv.take(i as int + 1).filter(is_old) =~= pv.take(i as int).filter(is_old));
        }
        i = i + 1;
    }
    assert(pv.take(pv.len() as int) =~= pv);
    (created, existing)
}

/// The colour planned for a new tag `normalized`: that of the first
/// preview value which is the same tag, else a default blue.
pub open spec fn spec_planned_color(values: Seq<(Seq<char>, Seq<char>, bool, nat)>, normalized: Seq<char>) -> Seq<char>
    decreases values.len(),
{
    if values.len() == 0 {
        "#3b82f6"@
    } else if spec_normalize_tag_name(values[0].0) == normalized {
        values[0].1
    } else {
        spec_planned_color(values.drop_first(), normalized)
    }
}

/// The colour planned in `preview` for the new tag `normalized`.
pub fn planned_tag_color(preview: &SpreadsheetTagPreview, normalized: &str) -> (r: String)
    ensures
        r@ == spec_planned_color(crate::tags::previews_view(preview.values@), normalized@),
{
    let ghost pv = crate::tags::previews_view(preview.values@);
    let key = str_chars(normalized);
    assert(pv.skip(0) =~= pv);
    let mut i: usize = 0;
    while i < preview.values.len()
        invariant
            i <= preview.values@.len(),
            pv == crate::tags::previews_view(preview.values@),
            key@ == normalized@,
            spec_planned_color(pv, normalized@) == spec_planned_color(pv.skip(i as int), normalized@),
        decreases preview.values@.len() - i,
    {
        let n = normalize_tag_name(preview.values[i].name.as_str());
        let nc = str_chars(n.as_str());
        assert(pv.skip(i as int)[0] == pv[i as int]);
        assert(pv.skip(i as int).drop_first() =~= pv.skip(i as int + 1));
        if chars_eq(&nc, &key) {
            return preview.values[i].color.clone();
        }
        i = i + 1;
    }
    assert(pv.skip(i as int).len() == 0);
    owned("#3b82f6")
}

} // verus!

verus! {

/// The title asked for a gift book created by an import: the name given,
/// trimmed, else the file name made safe.
pub open spec fn spec_import_title_request(book_name: Seq<char>, source_file_name: Seq<char>) -> Seq<char> {
    if trim(book_name).len() == 0 {
        crate::sheet::spec_safe_excel_file_stem(source_file_name)
    } else {
        trim(book_name)
    }
}

/// The title asked for a gift book created by an import.
pub fn import_title_request(book_name: &str, source_file_name: &str) -> (r: String)
    ensures
        r@ == spec_import_title_request(book_name@, source_file_name@),
{
    let c = str_chars(book_name);
    let t = trim_chars(&c);
    if t.len() == 0 {
        crate::sheet::safe_excel_file_stem(source_file_name)
    } else {
        string_from_chars(&t)
    }
}

/// An optional column number as a column index.
pub open spec fn to_column(o: Option<int>) -> Option<usize> {
    match o {
        Some(i) => Some(i as usize),
        None => None,
    }
}

/// The columns found by their titles.
pub open spec fn spec_auto_mapping(h: Seq<Seq<char>>) -> crate::models::SpreadsheetColumnMapping {
    let return_time = to_column(spec_column_index(h, spec_return_time_aliases(), None));
    crate::models::SpreadsheetColumnMapping {
        name: to_column(spec_column_index(h, spec_name_aliases(), None)),
        amount: to_column(spec_column_index(h, spec_amount_aliases(), None)),
        address: to_column(spec_column_index(h, spec_address_aliases(), None)),
        payment_method: to_column(spec_column_index(h, spec_payment_aliases(), None)),
        date: to_column(spec_column_index(h, spec_date_aliases(), return_time)),
        note: to_column(spec_column_index(h, spec_note_aliases(), None)),
        return_gift: to_column(spec_column_index(h, spec_return_gift_aliases(), None)),
        return_gift_amount: to_column(spec_column_index(h, spec_return_amount_aliases(), None)),
        return_gifted_at: return_time,
        tags: to_column(spec_column_index(h, spec_tag_aliases(), None)),
    }
}

/// What checking a sheet against the columns `m` gives: its complaints and
/// how many of its rows can be imported.
pub open spec fn spec_mapped_report(sheet: ParsedSheet, m: crate::models::SpreadsheetColumnMapping) -> (Seq<Seq<char>>, nat) {
    let report = sheet_row_report(rows_view(sheet.rows@), m.name, m.amount, sheet.header_row as int);
    (
        missing_column_messages(m.name, m.amount) + range_messages(
            mapping_labels(),
            mapping_columns(m),
            sheet.headers@.len() as int,
            10,
        ) + report.0,
        report.1,
    )
}

/// The columns of an analysis.
pub open spec fn analysis_columns(a: SheetAnalysis) -> crate::models::SpreadsheetColumnMapping {
    crate::models::SpreadsheetColumnMapping {
        name: a.name_index,
        amount: a.amount_index,
        address: a.address_index,
        payment_method: a.payment_index,
        date: a.date_index,
        note: a.note_index,
        return_gift: a.return_gift_index,
        return_gift_amount: a.return_gift_amount_index,
        return_gifted_at: a.return_gifted_at_index,
        tags: a.tag_index,
    }
}

/// The analysis an import of `sheet` goes by: with the columns chosen by
/// hand (`mapping`), else those found by their titles; refused, naming the
/// file `path`, when the sheet cannot be imported.
pub fn prepare_import_analysis(path: &str, sheet: &ParsedSheet, mapping: Option<crate::models::SpreadsheetColumnMapping>) -> (r: Result<SheetAnalysis, String>)
    requires
        sheet.header_row + sheet.rows@.len() <= usize::MAX,
    ensures
        ({
            let m = match mapping {
                Some(g) => g,
                None => spec_auto_mapping(strings_view(sheet.headers@)),
            };
            let rep = spec_mapped_report(*sheet, m);
            match r {
                Ok(a) => {
                    &&& analysis_columns(a) == m
                    &&& strings_view(a.errors@) == rep.0
                    &&& a.valid_rows == rep.1
                    &&& import_refusal(rep.0, m.name, m.amount, rep.1 as int) is None
                },
                Err(e) => import_refusal(rep.0, m.name, m.amount, rep.1 as int) matches Some(msg)
                    && e@ == path@ + "："@ + msg,
            }
        }),
{
    let chosen = match mapping {
        Some(g) => g,
        None => {
            let auto = crate::sheet::analyze_sheet(sheet);
            crate::sheet::mapping_from_analysis(&auto)
        },
    };
    let analysis = crate::sheet::analyze_sheet_with_mapping(sheet, &chosen);
    match crate::sheet::validate_spreadsheet_import(&analysis) {
        Ok(()) => Ok(analysis),
        Err(e) => {
            let ec = str_chars(e.as_str());
            let mut msg = str_chars(path);
            crate::text::extend_str(&mut msg, "：");
            crate::text::extend_chars(&mut msg, &ec);
            Err(string_from_chars(&msg))
        },
    }
}

} // verus!

verus! {

/// Where the return time of an imported row comes from.
#[derive(Debug, Clone)]
pub enum ReturnTimeSource {
    /// The row has no return-gift amount, so no return time.
    NoReturnGift,
    /// The return-time cell is blank: the time of the import.
    ImportTime,
    /// The return-time cell, trimmed, to be read as a date.
    Cell(String),
}

/// Where the return time of an imported row comes from: none without a
/// return-gift amount; else its return-time cell, trimmed, unless that is
/// blank, when it is the time of the import.
pub fn return_time_source(row: &[String], index: Option<usize>, amount_fen: Option<i64>) -> (r: ReturnTimeSource)
    ensures
        amount_fen is None ==> r is NoReturnGift,
        amount_fen is Some && trim(opt_cell(strings_view(row@), index)).len() == 0 ==> r is ImportTime,
        amount_fen is Some && trim(opt_cell(strings_view(row@), index)).len() > 0 ==> (r matches ReturnTimeSource::Cell(t)
            && t@ == trim(opt_cell(strings_view(row@), index))),
{
    if amount_fen.is_none() {
        return ReturnTimeSource::NoReturnGift;
    }
    let text = opt_cell_text(row, index);
    let c = str_chars(text.as_str());
    let t = trim_chars(&c);
    if t.len() == 0 {
        ReturnTimeSource::ImportTime
    } else {
        ReturnTimeSource::Cell(string_from_chars(&t))
    }
}

} // verus!

verus! {

// ---------------------------------------------------------------------------
// Receiving times written as text
// ---------------------------------------------------------------------------

/// What chrono's `NaiveDateTime::parse_from_str` reads from `value` in
/// `format`, written back in `out`; none when it does not read.
pub uninterp spec fn chrono_datetime_read(value: Seq<char>, format: Seq<char>, out: Seq<char>) -> Option<Seq<char>>;

/// What chrono's `NaiveDate::parse_from_str` reads from `value` in
/// `format`, written back in `out`; none when it does not read.
pub uninterp spec fn chrono_date_read(value: Seq<char>, format: Seq<char>, out: Seq<char>) -> Option<Seq<char>>;

/// A date and time read in `format` (`chrono::NaiveDateTime::parse_from_str`)
/// and written in `out` (`format` of the result). The contract names the
/// result; `out` is a format chrono writes for every date and time.
#[verifier::external_body]
fn read_datetime(value: &str, format: &str, out: &str) -> (r: Option<String>)
    requires
        out@ == "%Y-%m-%d %H:%M:%S"@,
    ensures
        crate::audit::opt_view(r) == chrono_datetime_read(value@, format@, out@),
{
    chrono::NaiveDateTime::parse_from_str(value, format).ok().map(|t| t.format(out).to_string())
}

/// A date read in `format` (`chrono::NaiveDate::parse_from_str`) and written
/// in `out` (`format` of the result). The contract names the result; `out`
/// is a format chrono writes for every date.
#[verifier::external_body]
fn read_date(value: &str, format: &str, out: &str) -> (r: Option<String>)
    requires
        out@ == "%Y-%m-%d"@,
    ensures
        crate::audit::opt_view(r) == chrono_date_read(value@, format@, out@),
{
    chrono::NaiveDate::parse_from_str(value, format).ok().map(|d| d.format(out).to_string())
}

/// The formats in which a receiving time with a time of day is read, in order.
pub open spec fn datetime_formats() -> Seq<Seq<char>> {
    seq![
        "%Y-%m-%d %H:%M:%S"@,
        "%Y-%m-%d %H:%M"@,
        "%Y/%m/%d %H:%M:%S"@,
        "%Y/%m/%d %H:%M"@,
        "%Y-%m-%dT%H:%M:%S"@,
        "%Y-%-m-%-d %H:%M:%S"@,
        "%Y/%-m/%-d %H:%M:%S"@,
    ]
}

/// The formats in which a receiving date is read, in order.
pub open spec fn date_formats() -> Seq<Seq<char>> {
    seq!["%Y-%m-%d"@, "%Y/%m/%d"@, "%Y-%-m-%-d"@, "%Y/%-m/%-d"@]
}

/// The first reading of `value` in the formats from `i` on, in the stored
/// form: a date and time as `%Y-%m-%d %H:%M:%S`, a date at midnight.
pub open spec fn first_reading(value: Seq<char>, fmts: Seq<Seq<char>>, dated: bool, i: int) -> Option<Seq<char>>
    decreases fmts.len() - i,
{
    if i < 0 || i >= fmts.len() {
        None
    } else {
        let r = if dated {
            match chrono_date_read(value, fmts[i], "%Y-%m-%d"@) {
                Some(d) => Some(d + " 00:00:00"@),
                None => None,
            }
        } else {
            chrono_datetime_read(value, fmts[i], "%Y-%m-%d %H:%M:%S"@)
        };
        if r is Some {
            r
        } else {
            first_reading(value, fmts, dated, i + 1)
        }
    }
}

/// A receiving time written as text, in the stored form: the first format
/// with a time of day that reads it, else the first date format that reads
/// it (at midnight), else the text as it is.
pub open spec fn spec_written_received_at(value: Seq<char>) -> Seq<char> {
    match first_reading(value, datetime_formats(), false, 0) {
        Some(t) => t,
        None => match first_reading(value, date_formats(), true, 0) {
            Some(t) => t,
            None => value,
        },
    }
}

/// A receiving time written as text, in the stored form.
pub fn written_received_at(value: &str) -> (r: String)
    ensures
        r@ == spec_written_received_at(value@),
{
    let datetime = ["%Y-%m-%d %H:%M:%S", "%Y-%m-%d %H:%M", "%Y/%m/%d %H:%M:%S", "%Y/%m/%d %H:%M",
        "%Y-%m-%dT%H:%M:%S", "%Y-%-m-%-d %H:%M:%S", "%Y/%-m/%-d %H:%M:%S"];
    let dates = ["%Y-%m-%d", "%Y/%m/%d", "%Y-%-m-%-d", "%Y/%-m/%-d"];
    assert(strs_view(datetime@) =~= datetime_formats());
    assert(strs_view(dates@) =~= date_formats());
    let mut i: usize = 0;
    while i < 7
        invariant
            i <= 7,
            strs_view(datetime@) == datetime_formats(),
            first_reading(value@, datetime_formats(), false, 0) == first_reading(value@, datetime_formats(), false, i as int),
        decreases 7 - i,
    {
        assert(datetime@[i as int]@ == datetime_formats()[i as int]);
        if let Some(t) = read_datetime(value, datetime[i], "%Y-%m-%d %H:%M:%S") {
            return t;
        }
        i = i + 1;
    }
    let mut j: usize = 0;
    while j < 4
        invariant
            j <= 4,
            strs_view(dates@) == date_formats(),
            first_reading(value@, datetime_formats(), false, 0) is None,
            first_reading(value@, date_formats(), true, 0) == first_reading(value@, date_formats(), true, j as int),
        decreases 4 - j,
    {
        assert(dates@[j as int]@ == date_formats()[j as int]);
        if let Some(d) = read_date(value, dates[j], "%Y-%m-%d") {
            let mut c = str_chars(d.as_str());
            crate::text::extend_str(&mut c, " 00:00:00");
            return string_from_chars(&c);
        }
        j = j + 1;
    }
    owned(value)
}

} // verus!
