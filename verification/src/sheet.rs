//! Reading a gift ledger out of spreadsheet rows: finding the header row,
//! recognising columns by their (Chinese or English) titles, and checking
//! every data row before anything is imported.
use vstd::prelude::*;
use crate::money::{parse_amount_fen, spec_parse_amount_fen};
use crate::models::SpreadsheetColumnMapping;
use crate::text::{
    ascii_lower, clone_strings, concat2, concat3, contains_chars, contains_seq, decimal,
    decimal_chars, extend_str, is_whitespace, is_ws, join, join_strings, keep, lemma_keep_step,
    lemma_take_full, owned, str_chars, string_from_chars, strings_view, strs_view, to_ascii_lower,
    trim, trim_chars, trim_matches, trim_matches_chars, chars_eq,
};

verus! {

// ---------------------------------------------------------------------------
// Header titles
// ---------------------------------------------------------------------------

/// Characters that do not count in a column title: the byte-order mark,
/// whitespace and the usual punctuation around titles.
pub open spec fn is_header_noise(c: char) -> bool {
    c == '\u{feff}' || is_ws(c) || c == ':' || c == '：' || c == '(' || c == ')' || c == '（'
        || c == '）' || c == '[' || c == ']' || c == '【' || c == '】' || c == '-' || c == '_'
        || c == '/'
}

/// The comparable form of a column title.
pub open spec fn header_key(s: Seq<char>) -> Seq<char> {
    ascii_lower(keep(s, |c: char| !is_header_noise(c)))
}

fn header_noise(c: char) -> (r: bool)
    ensures
        r == is_header_noise(c),
{
    c == '\u{feff}' || is_whitespace(c) || c == ':' || c == '：' || c == '(' || c == ')' || c
        == '（' || c == '）' || c == '[' || c == ']' || c == '【' || c == '】' || c == '-' || c
        == '_' || c == '/'
}

fn header_key_chars(s: &[char]) -> (r: Vec<char>)
    ensures
        r@ == header_key(s@),
{
    let ghost p = |c: char| !is_header_noise(c);
    let mut t: Vec<char> = Vec::new();
    let mut i: usize = 0;
    while i < s.len()
        invariant
            i <= s@.len(),
            p == (|c: char| !is_header_noise(c)),
            t@ == keep(s@.take(i as int), p),
        decreases s@.len() - i,
    {
        proof {
            lemma_keep_step(s@, p, i as int);
        }
        if !header_noise(s[i]) {
            t.push(s[i]);
        }
        i = i + 1;
    }
    proof {
        lemma_take_full(s@);
    }
    to_ascii_lower(&t)
}

/// The comparable form of a column title: without whitespace, a byte-order
/// mark or bracket and separator punctuation, in ASCII lower case.
pub fn normalized_header(value: &str) -> (r: String)
    ensures
        r@ == header_key(value@),
{
    let c = str_chars(value);
    let k = header_key_chars(&c);
    string_from_chars(&k)
}

/// A column titled `header` is one of `names`: its comparable form holds
/// the non-empty comparable form of one of the names.
pub open spec fn header_matches(header: Seq<char>, names: Seq<Seq<char>>) -> bool {
    exists|j: int|
        0 <= j < names.len() && header_key(#[trigger] names[j]).len() > 0 && (header_key(header)
            == header_key(names[j]) || contains_seq(header_key(header), header_key(names[j])))
}

/// The first column at or after `i`, other than `excluded`, whose title matches `names`.
pub open spec fn first_column_from(
    headers: Seq<Seq<char>>,
    names: Seq<Seq<char>>,
    excluded: Option<usize>,
    i: int,
) -> Option<int>
    decreases headers.len() - i,
{
    if i < 0 || i >= headers.len() {
        None
    } else if excluded != Some(i as usize) && header_matches(headers[i], names) {
        Some(i)
    } else {
        first_column_from(headers, names, excluded, i + 1)
    }
}

/// The column of `headers` that `names` select, skipping `excluded`.
pub open spec fn spec_column_index(
    headers: Seq<Seq<char>>,
    names: Seq<Seq<char>>,
    excluded: Option<usize>,
) -> Option<int> {
    first_column_from(headers, names, excluded, 0)
}

/// An optional index as an optional integer.
pub open spec fn opt_int(o: Option<usize>) -> Option<int> {
    match o {
        Some(i) => Some(i as int),
        None => None,
    }
}

/// Whether the title `header` matches one of `names`.
fn title_matches(header: &[char], names: &[&str]) -> (r: bool)
    ensures
        r == header_matches(header@, strs_view(names@)),
{
    let ghost nv = strs_view(names@);
    let key = header_key_chars(header);
    let mut j: usize = 0;
    while j < names.len()
        invariant
            j <= names@.len(),
            nv == strs_view(names@),
            key@ == header_key(header@),
            forall|m: int|
                0 <= m < j ==> !(header_key(#[trigger] nv[m]).len() > 0 && (header_key(header@)
                    == header_key(nv[m]) || contains_seq(header_key(header@), header_key(nv[m])))),
        decreases names@.len() - j,
    {
        let name = str_chars(names[j]);
        let name_key = header_key_chars(&name);
        if name_key.len() > 0 && (chars_eq(&key, &name_key) || contains_chars(&key, &name_key)) {
            proof {
                assert(nv[j as int] == names@[j as int]@);
            }
            return true;
        }
        j = j + 1;
    }
    false
}

/// The first column whose title matches one of `names`, skipping `excluded`.
pub fn column_index_excluding(headers: &[String], names: &[&str], excluded: Option<usize>) -> (r:
    Option<usize>)
    ensures
        opt_int(r) == spec_column_index(strings_view(headers@), strs_view(names@), excluded),
{
    let ghost hv = strings_view(headers@);
    let ghost nv = strs_view(names@);
    let mut i: usize = 0;
    while i < headers.len()
        invariant
            i <= headers@.len(),
            hv == strings_view(headers@),
            nv == strs_view(names@),
            spec_column_index(hv, nv, excluded) == first_column_from(hv, nv, excluded, i as int),
        decreases headers@.len() - i,
    {
        let h = str_chars(headers[i].as_str());
        let skip = match excluded {
            Some(e) => e == i,
            None => false,
        };
        if !skip && title_matches(&h, names) {
            return Some(i);
        }
        i = i + 1;
    }
    None
}

/// The first column whose title matches one of `names`.
pub fn column_index(headers: &[String], names: &[&str]) -> (r: Option<usize>)
    ensures
        opt_int(r) == spec_column_index(strings_view(headers@), strs_view(names@), None),
{
    column_index_excluding(headers, names, None)
}

} // verus!

verus! {

// ---------------------------------------------------------------------------
// Column titles the ledger recognises
// ---------------------------------------------------------------------------

pub open spec fn spec_name_aliases() -> Seq<Seq<char>> {
    seq!["姓名"@, "名字"@, "收礼人"@, "来宾"@, "人名"@, "name"@, "guest"@, "person"@]
}

pub open spec fn spec_amount_aliases() -> Seq<Seq<char>> {
    seq!["金额"@, "礼金"@, "数额"@, "amount"@, "money"@, "gift"@]
}

pub open spec fn spec_address_aliases() -> Seq<Seq<char>> {
    seq!["地址"@, "住址"@, "联系地址"@, "address"@]
}

pub open spec fn spec_payment_aliases() -> Seq<Seq<char>> {
    seq!["支付方式"@, "付款方式"@, "支付"@, "方式"@, "payment"@, "method"@]
}

pub open spec fn spec_return_amount_aliases() -> Seq<Seq<char>> {
    seq![
        "回礼金额"@,
        "回赠金额"@,
        "还礼金额"@,
        "return gift amount"@,
        "return_gift_amount"@,
        "return amount"@,
    ]
}

pub open spec fn spec_return_time_aliases() -> Seq<Seq<char>> {
    seq![
        "回礼时间"@,
        "回礼日期"@,
        "回赠时间"@,
        "还礼时间"@,
        "return gift time"@,
        "return_gifted_at"@,
    ]
}

pub open spec fn spec_date_aliases() -> Seq<Seq<char>> {
    seq!["日期"@, "登记日期"@, "收礼日期"@, "登记时间"@, "时间"@, "date"@, "time"@]
}

pub open spec fn spec_note_aliases() -> Seq<Seq<char>> {
    seq![
        "备注"@,
        "说明"@,
        "附言"@,
        "其他"@,
        "礼品"@,
        "note"@,
        "remark"@,
        "memo"@,
        "comment"@,
    ]
}

pub open spec fn spec_return_gift_aliases() -> Seq<Seq<char>> {
    seq!["回礼"@, "回赠"@, "回敬"@, "还礼"@, "return gift"@, "return_gift"@]
}

pub open spec fn spec_tag_aliases() -> Seq<Seq<char>> {
    seq![
        "人物标签"@,
        "标签"@,
        "人物分类"@,
        "分类"@,
        "关系"@,
        "tag"@,
        "tags"@,
        "label"@,
        "labels"@,
    ]
}

/// Titles of the guest-name column.
pub fn name_aliases() -> (r: Vec<&'static str>)
    ensures
        strs_view(r@) == spec_name_aliases(),
{
    let r = vec!["姓名", "名字", "收礼人", "来宾", "人名", "name", "guest", "person"];
    assert(strs_view(r@) =~= spec_name_aliases());
    r
}

/// Titles of the amount column.
pub fn amount_aliases() -> (r: Vec<&'static str>)
    ensures
        strs_view(r@) == spec_amount_aliases(),
{
    let r = vec!["金额", "礼金", "数额", "amount", "money", "gift"];
    assert(strs_view(r@) =~= spec_amount_aliases());
    r
}

/// Titles of the address column.
pub fn address_aliases() -> (r: Vec<&'static str>)
    ensures
        strs_view(r@) == spec_address_aliases(),
{
    let r = vec!["地址", "住址", "联系地址", "address"];
    assert(strs_view(r@) =~= spec_address_aliases());
    r
}

/// Titles of the payment-method column.
pub fn payment_aliases() -> (r: Vec<&'static str>)
    ensures
        strs_view(r@) == spec_payment_aliases(),
{
    let r = vec!["支付方式", "付款方式", "支付", "方式", "payment", "method"];
    assert(strs_view(r@) =~= spec_payment_aliases());
    r
}

/// Titles of the return-gift amount column.
pub fn return_amount_aliases() -> (r: Vec<&'static str>)
    ensures
        strs_view(r@) == spec_return_amount_aliases(),
{
    let r = vec![
        "回礼金额",
        "回赠金额",
        "还礼金额",
        "return gift amount",
        "return_gift_amount",
        "return amount",
    ];
    assert(strs_view(r@) =~= spec_return_amount_aliases());
    r
}

/// Titles of the return-gift time column.
pub fn return_time_aliases() -> (r: Vec<&'static str>)
    ensures
        strs_view(r@) == spec_return_time_aliases(),
{
    let r = vec!["回礼时间", "回礼日期", "回赠时间", "还礼时间", "return gift time", "return_gifted_at"];
    assert(strs_view(r@) =~= spec_return_time_aliases());
    r
}

/// Titles of the date column.
pub fn date_aliases() -> (r: Vec<&'static str>)
    ensures
        strs_view(r@) == spec_date_aliases(),
{
    let r = vec!["日期", "登记日期", "收礼日期", "登记时间", "时间", "date", "time"];
    assert(strs_view(r@) =~= spec_date_aliases());
    r
}

/// Titles of the note column.
pub fn note_aliases() -> (r: Vec<&'static str>)
    ensures
        strs_view(r@) == spec_note_aliases(),
{
    let r = vec!["备注", "说明", "附言", "其他", "礼品", "note", "remark", "memo", "comment"];
    assert(strs_view(r@) =~= spec_note_aliases());
    r
}

/// Titles of the return-gift column.
pub fn return_gift_aliases() -> (r: Vec<&'static str>)
    ensures
        strs_view(r@) == spec_return_gift_aliases(),
{
    let r = vec!["回礼", "回赠", "回敬", "还礼", "return gift", "return_gift"];
    assert(strs_view(r@) =~= spec_return_gift_aliases());
    r
}

/// Titles of the person-tag column.
pub fn tag_aliases() -> (r: Vec<&'static str>)
    ensures
        strs_view(r@) == spec_tag_aliases(),
{
    let r = vec!["人物标签", "标签", "人物分类", "分类", "关系", "tag", "tags", "label", "labels"];
    assert(strs_view(r@) =~= spec_tag_aliases());
    r
}

// ---------------------------------------------------------------------------
// Rows
// ---------------------------------------------------------------------------

/// The texts of the cells of every row.
pub open spec fn rows_view(rows: Seq<Vec<String>>) -> Seq<Seq<Seq<char>>> {
    rows.map_values(|r: Vec<String>| strings_view(r@))
}

/// A cell without byte-order marks around it and without surrounding whitespace.
pub open spec fn clean_cell(s: Seq<char>) -> Seq<char> {
    trim(trim_matches(s, '\u{feff}'))
}

/// A row with every cell cleaned.
pub open spec fn clean_row(row: Seq<Seq<char>>) -> Seq<Seq<char>> {
    row.map_values(|c: Seq<char>| clean_cell(c))
}

/// Some cell of the row holds more than whitespace.
pub open spec fn has_content(row: Seq<Seq<char>>) -> bool {
    exists|i: int| 0 <= i < row.len() && trim(#[trigger] row[i]).len() > 0
}

/// The cells of a row without byte-order marks and surrounding whitespace.
pub fn trim_sheet_row(row: Vec<String>) -> (r: Vec<String>)
    ensures
        strings_view(r@) == clean_row(strings_view(row@)),
{
    let ghost rv = strings_view(row@);
    let mut out: Vec<String> = Vec::new();
    let mut i: usize = 0;
    while i < row.len()
        invariant
            i <= row@.len(),
            rv == strings_view(row@),
            strings_view(out@) == clean_row(rv.take(i as int)),
        decreases row@.len() - i,
    {
        let c = str_chars(row[i].as_str());
        let a = trim_matches_chars(&c, '\u{feff}');
        let b = trim_chars(&a);
        let cell = string_from_chars(&b);
        proof {
            assert(rv[i as int] == c@);
            assert(cell@ == clean_cell(rv[i as int]));
            assert(clean_row(rv.take(i as int + 1)) =~= clean_row(rv.take(i as int)).push(
                clean_cell(rv[i as int]),
            ));
        }
        out.push(cell);
        assert(strings_view(out@) =~= clean_row(rv.take(i as int + 1)));
        i = i + 1;
    }
    assert(rv.take(rv.len() as int) =~= rv);
    out
}

/// Whether some cell of the row holds more than whitespace.
pub fn row_has_content(row: &[String]) -> (r: bool)
    ensures
        r == has_content(strings_view(row@)),
{
    let ghost rv = strings_view(row@);
    let mut i: usize = 0;
    while i < row.len()
        invariant
            i <= row@.len(),
            rv == strings_view(row@),
            forall|k: int| 0 <= k < i ==> trim(#[trigger] rv[k]).len() == 0,
        decreases row@.len() - i,
    {
        let c = str_chars(row[i].as_str());
        let t = trim_chars(&c);
        if t.len() > 0 {
            assert(trim(rv[i as int]).len() > 0);
            return true;
        }
        i = i + 1;
    }
    false
}

/// A sheet of ledger rows under a recognised header row.
#[derive(Debug, Clone)]
pub struct ParsedSheet {
    pub file_name: String,
    pub sheet_name: String,
    /// The header row, counted from 1.
    pub header_row: usize,
    pub headers: Vec<String>,
    /// The data rows below the header that hold something.
    pub rows: Vec<Vec<String>>,
}

/// A row titles both a guest-name column and an amount column.
pub open spec fn is_title_row(row: Seq<Seq<char>>) -> bool {
    &&& has_content(row)
    &&& spec_column_index(row, spec_name_aliases(), None) is Some
    &&& spec_column_index(row, spec_amount_aliases(), None) is Some
}

/// The first title row among the first twenty rows, from row `i` on.
pub open spec fn first_title_row(rows: Seq<Seq<Seq<char>>>, i: int) -> Option<int>
    decreases rows.len() - i,
{
    if i < 0 || i >= rows.len() || i >= 20 {
        None
    } else if is_title_row(rows[i]) {
        Some(i)
    } else {
        first_title_row(rows, i + 1)
    }
}

/// The first row from row `i` on that holds something.
pub open spec fn first_content_row(rows: Seq<Seq<Seq<char>>>, i: int) -> Option<int>
    decreases rows.len() - i,
{
    if i < 0 || i >= rows.len() {
        None
    } else if has_content(rows[i]) {
        Some(i)
    } else {
        first_content_row(rows, i + 1)
    }
}

/// The header row (from 0) of cleaned rows: the one requested (counted from
/// 1), else the first title row among the first twenty, else the first row
/// that holds something.
pub open spec fn header_choice(rows: Seq<Seq<Seq<char>>>, requested: Option<usize>) -> Option<
    int,
> {
    match requested {
        Some(v) => Some(if v == 0 {
            0
        } else {
            v - 1
        }),
        None => match first_title_row(rows, 0) {
            Some(i) => Some(i),
            None => first_content_row(rows, 0),
        },
    }
}

/// Header row (from 1), header cells and data rows read from cleaned rows,
/// or the error message.
pub open spec fn spec_sheet_layout(rows: Seq<Seq<Seq<char>>>, requested: Option<usize>) -> Result<
    (int, Seq<Seq<char>>, Seq<Seq<Seq<char>>>),
    Seq<char>,
> {
    match header_choice(rows, requested) {
        None => Err("工作表没有数据"@),
        Some(h) => if h >= rows.len() || !has_content(rows[h]) {
            Err("指定的标题行没有内容"@)
        } else {
            Ok((h + 1, rows[h], keep(rows.skip(h + 1), |r: Seq<Seq<char>>| has_content(r))))
        },
    }
}

/// Whether the row titles both a guest-name and an amount column.
fn title_row(row: &[String]) -> (r: bool)
    ensures
        r == is_title_row(strings_view(row@)),
{
    row_has_content(row) && column_index(row, &name_aliases()).is_some() && column_index(
        row,
        &amount_aliases(),
    ).is_some()
}

/// Finds the header row of raw spreadsheet rows and keeps the data rows
/// below it that hold something. `requested_header_row` (counted from 1)
/// overrides the search.
pub fn parsed_sheet_from_rows_at(
    file_name: &str,
    sheet_name: &str,
    rows: Vec<Vec<String>>,
    requested_header_row: Option<usize>,
) -> (r: Result<ParsedSheet, String>)
    ensures
        ({
            let cleaned = rows_view(rows@).map_values(|row: Seq<Seq<char>>| clean_row(row));
            match r {
                Ok(sheet) => {
                    &&& spec_sheet_layout(cleaned, requested_header_row) == Ok::<
                        (int, Seq<Seq<char>>, Seq<Seq<Seq<char>>>),
                        Seq<char>,
                    >(
                        (
                            sheet.header_row as int,
                            strings_view(sheet.headers@),
                            rows_view(sheet.rows@),
                        ),
                    )
                    &&& sheet.file_name@ == file_name@
                    &&& sheet.sheet_name@ == sheet_name@
                },
                Err(e) => spec_sheet_layout(cleaned, requested_header_row) == Err::<
                    (int, Seq<Seq<char>>, Seq<Seq<Seq<char>>>),
                    Seq<char>,
                >(e@),
            }
        }),
{
    let ghost cleaned = rows_view(rows@).map_values(|row: Seq<Seq<char>>| clean_row(row));
    let n = rows.len();
    let mut t: Vec<Vec<String>> = Vec::new();
    let mut i: usize = 0;
    while i < n
        invariant
            i <= n == rows@.len(),
            cleaned == rows_view(rows@).map_values(|row: Seq<Seq<char>>| clean_row(row)),
            rows_view(t@) == cleaned.take(i as int),
        decreases n - i,
    {
        let row = clone_strings(&rows[i]);
        let c = trim_sheet_row(row);
        proof {
            assert(cleaned[i as int] == clean_row(strings_view(rows@[i as int]@)));
            assert(cleaned.take(i as int + 1) =~= cleaned.take(i as int).push(cleaned[i as int]));
        }
        t.push(c);
        assert(rows_view(t@) =~= cleaned.take(i as int + 1));
        i = i + 1;
    }
    assert(cleaned.take(n as int) =~= cleaned);
    let ghost tv = rows_view(t@);
    let header: Option<usize> = match requested_header_row {
        Some(v) => Some(if v == 0 {
            0
        } else {
            v - 1
        }),
        None => {
            let mut found: Option<usize> = None;
            let mut k: usize = 0;
            while k < n && k < 20 && found.is_none()
                invariant
                    k <= n == t@.len(),
                    tv == rows_view(t@),
                    found is None ==> first_title_row(tv, 0) == first_title_row(tv, k as int),
                    found matches Some(f) ==> first_title_row(tv, 0) == Some(f as int),
                decreases n - k + if found is None {
                    1int
                } else {
                    0int
                },
            {
                if title_row(&t[k]) {
                    found = Some(k);
                } else {
                    k = k + 1;
                }
            }
            if found.is_none() {
                let mut k2: usize = 0;
                while k2 < n && found.is_none()
                    invariant
                        k2 <= n == t@.len(),
                        tv == rows_view(t@),
                        first_title_row(tv, 0) is None,
                        found is None ==> first_content_row(tv, 0) == first_content_row(
                            tv,
                            k2 as int,
                        ),
                        found matches Some(f) ==> first_content_row(tv, 0) == Some(f as int),
                    decreases n - k2 + if found is None {
                        1int
                    } else {
                        0int
                    },
                {
                    if row_has_content(&t[k2]) {
                        found = Some(k2);
                    } else {
                        k2 = k2 + 1;
                    }
                }
            }
            found
        },
    };
    assert(opt_int(header) == header_choice(tv, requested_header_row));
    let h = match header {
        None => {
            return Err(owned("工作表没有数据"));
        },
        Some(h) => h,
    };
    if h >= n || !row_has_content(&t[h]) {
        return Err(owned("指定的标题行没有内容"));
    }
    let headers = clone_strings(&t[h]);
    let ghost pred = |r: Seq<Seq<char>>| has_content(r);
    let ghost rest = tv.skip(h + 1);
    let mut data: Vec<Vec<String>> = Vec::new();
    let mut j: usize = h + 1;
    while j < n
        invariant
            h < j <= n == t@.len(),
            tv == rows_view(t@),
            rest == tv.skip(h + 1),
            pred == (|r: Seq<Seq<char>>| has_content(r)),
            rows_view(data@) == keep(rest.take(j - h - 1), pred),
        decreases n - j,
    {
        proof {
            lemma_keep_step(rest, pred, j - h - 1);
        }
        if row_has_content(&t[j]) {
            let row = clone_strings(&t[j]);
            data.push(row);
            assert(rows_view(data@) =~= keep(rest.take(j - h - 1), pred).push(tv[j as int]));
        }
        j = j + 1;
    }
    proof {
        lemma_take_full(rest);
    }
    Ok(
        ParsedSheet {
            file_name: owned(file_name),
            sheet_name: owned(sheet_name),
            header_row: h + 1,
            headers,
            rows: data,
        },
    )
}

/// `parsed_sheet_from_rows_at` with the header row found by search.
pub fn parsed_sheet_from_rows(file_name: &str, sheet_name: &str, rows: Vec<Vec<String>>) -> (r:
    Result<ParsedSheet, String>)
    ensures
        ({
            let cleaned = rows_view(rows@).map_values(|row: Seq<Seq<char>>| clean_row(row));
            match r {
                Ok(sheet) => {
                    &&& spec_sheet_layout(cleaned, None) == Ok::<
                        (int, Seq<Seq<char>>, Seq<Seq<Seq<char>>>),
                        Seq<char>,
                    >(
                        (
                            sheet.header_row as int,
                            strings_view(sheet.headers@),
                            rows_view(sheet.rows@),
                        ),
                    )
                    &&& sheet.file_name@ == file_name@
                    &&& sheet.sheet_name@ == sheet_name@
                },
                Err(e) => spec_sheet_layout(cleaned, None) == Err::<
                    (int, Seq<Seq<char>>, Seq<Seq<Seq<char>>>),
                    Seq<char>,
                >(e@),
            }
        }),
{
    parsed_sheet_from_rows_at(file_name, sheet_name, rows, None)
}

} // verus!

verus! {

// ---------------------------------------------------------------------------
// Checking the data rows
// ---------------------------------------------------------------------------

/// The columns found in a sheet, the problems found, and how many rows can be imported.
#[derive(Debug, Clone)]
pub struct SheetAnalysis {
    pub name_index: Option<usize>,
    pub amount_index: Option<usize>,
    pub address_index: Option<usize>,
    pub payment_index: Option<usize>,
    pub date_index: Option<usize>,
    pub note_index: Option<usize>,
    pub return_gift_index: Option<usize>,
    pub return_gift_amount_index: Option<usize>,
    pub return_gifted_at_index: Option<usize>,
    pub tag_index: Option<usize>,
    pub errors: Vec<String>,
    pub valid_rows: usize,
}

/// The cell `i` of a row; a missing cell reads as empty.
pub open spec fn cell(row: Seq<Seq<char>>, i: int) -> Seq<char> {
    if 0 <= i < row.len() {
        row[i]
    } else {
        Seq::empty()
    }
}

/// The text is a positive amount of money.
pub open spec fn amount_is_valid(s: Seq<char>) -> bool {
    match spec_parse_amount_fen(s) {
        Some(v) => v > 0,
        None => false,
    }
}

/// The complaint about data row `row` shown on sheet line `line`, if any.
pub open spec fn row_message(row: Seq<Seq<char>>, ni: int, ai: int, line: int) -> Option<
    Seq<char>,
> {
    if !has_content(row) {
        None
    } else if trim(cell(row, ni)).len() == 0 {
        Some("第 "@ + decimal(line as nat) + " 行缺少姓名"@)
    } else if !amount_is_valid(cell(row, ai)) {
        Some("第 "@ + decimal(line as nat) + " 行金额无效: "@ + cell(row, ai))
    } else {
        None
    }
}

/// The row holds a guest name and a positive amount.
pub open spec fn row_is_valid(row: Seq<Seq<char>>, ni: int, ai: int) -> bool {
    has_content(row) && trim(cell(row, ni)).len() > 0 && amount_is_valid(cell(row, ai))
}

/// Complaints about, and the number of importable rows among, the first `k`
/// data rows of a sheet whose header is on line `header_row`.
pub open spec fn row_report(
    rows: Seq<Seq<Seq<char>>>,
    ni: int,
    ai: int,
    header_row: int,
    k: int,
) -> (Seq<Seq<char>>, nat)
    decreases k,
{
    if k <= 0 || k > rows.len() {
        (Seq::empty(), 0)
    } else {
        let (e, v) = row_report(rows, ni, ai, header_row, k - 1);
        match row_message(rows[k - 1], ni, ai, k - 1 + header_row + 1) {
            Some(m) => (e.push(m), v),
            None => if row_is_valid(rows[k - 1], ni, ai) {
                (e, v + 1)
            } else {
                (e, v)
            },
        }
    }
}

/// Complaints about missing guest-name and amount columns.
pub open spec fn missing_column_messages(ni: Option<usize>, ai: Option<usize>) -> Seq<Seq<char>> {
    (if ni is None {
        seq!["缺少姓名列"@]
    } else {
        Seq::empty()
    }) + (if ai is None {
        seq!["缺少金额列"@]
    } else {
        Seq::empty()
    })
}

/// The row complaints and the importable-row count of a sheet for the given
/// name and amount columns (rows are checked only when both are known).
pub open spec fn sheet_row_report(
    rows: Seq<Seq<Seq<char>>>,
    ni: Option<usize>,
    ai: Option<usize>,
    header_row: int,
) -> (Seq<Seq<char>>, nat) {
    match (ni, ai) {
        (Some(n), Some(a)) => row_report(rows, n as int, a as int, header_row, rows.len() as int),
        _ => (Seq::empty(), 0),
    }
}

proof fn lemma_row_report_valid_bound(
    rows: Seq<Seq<Seq<char>>>,
    ni: int,
    ai: int,
    header_row: int,
    k: int,
)
    requires
        0 <= k <= rows.len(),
    ensures
        row_report(rows, ni, ai, header_row, k).1 <= k,
    decreases k,
{
    if k > 0 {
        lemma_row_report_valid_bound(rows, ni, ai, header_row, k - 1);
    }
}

/// The text of cell `i` of a row.
fn cell_chars(row: &[String], i: usize) -> (r: Vec<char>)
    ensures
        r@ == cell(strings_view(row@), i as int),
{
    if i < row.len() {
        str_chars(row[i].as_str())
    } else {
        Vec::new()
    }
}

/// Checks the data rows of `sheet` against the name and amount columns,
/// appending a complaint per bad row and counting the importable rows.
fn check_rows(sheet: &ParsedSheet, ni: usize, ai: usize, errors: &mut Vec<String>) -> (r: usize)
    requires
        sheet.header_row + sheet.rows@.len() <= usize::MAX,
    ensures
        ({
            let (e, v) = row_report(
                rows_view(sheet.rows@),
                ni as int,
                ai as int,
                sheet.header_row as int,
                sheet.rows@.len() as int,
            );
            &&& strings_view(final(errors)@) == strings_view(old(errors)@) + e
            &&& r == v
        }),
{
    let ghost rv = rows_view(sheet.rows@);
    let hr = sheet.header_row;
    let n = sheet.rows.len();
    let mut valid: usize = 0;
    let mut index: usize = 0;
    while index < n
        invariant
            index <= n == sheet.rows@.len(),
            hr == sheet.header_row,
            hr + n <= usize::MAX,
            rv == rows_view(sheet.rows@),
            ({
                let (e, v) = row_report(rv, ni as int, ai as int, hr as int, index as int);
                &&& strings_view(errors@) == strings_view(old(errors)@) + e
                &&& valid == v
            }),
        decreases n - index,
    {
        proof {
            lemma_row_report_valid_bound(rv, ni as int, ai as int, hr as int, index as int);
        }
        let row = &sheet.rows[index];
        let ghost rowv = rv[index as int];
        assert(rowv == strings_view(row@));
        let line = index + hr + 1;
        let name = cell_chars(row, ni);
        let name_trimmed = trim_chars(&name);
        let amount = cell_chars(row, ai);
        let amount_text: &str = if ai < row.len() {
            row[ai].as_str()
        } else {
            ""
        };
        proof {
            reveal_strlit("");
        }
        assert(amount_text@ == amount@);
        let ghost before = errors@;
        if !row_has_content(row) {
        } else if name_trimmed.len() == 0 {
            let digits = decimal_chars(line as u64);
            errors.push(concat3("第 ", &digits, " 行缺少姓名"));
            assert(strings_view(errors@) =~= strings_view(before).push(
                "第 "@ + decimal(line as nat) + " 行缺少姓名"@,
            ));
        } else {
            let bad = match parse_amount_fen(amount_text) {
                Some(v) => v <= 0,
                None => true,
            };
            if bad {
                let mut msg = str_chars("第 ");
                let digits = decimal_chars(line as u64);
                crate::text::extend_chars(&mut msg, &digits);
                extend_str(&mut msg, " 行金额无效: ");
                crate::text::extend_chars(&mut msg, &amount);
                errors.push(string_from_chars(&msg));
                assert(strings_view(errors@) =~= strings_view(before).push(
                    "第 "@ + decimal(line as nat) + " 行金额无效: "@ + amount@,
                ));
            } else {
                valid = valid + 1;
            }
        }
        index = index + 1;
    }
    valid
}

/// What the automatic analysis of a sheet finds: each column by its
/// titles, the date column skipping the return-time one, the missing-column
/// complaints, then the row report for the name and amount columns found.
pub open spec fn is_auto_analysis(sheet: ParsedSheet, r: SheetAnalysis) -> bool {
            let h = strings_view(sheet.headers@);
            let report = sheet_row_report(
                rows_view(sheet.rows@),
                r.name_index,
                r.amount_index,
                sheet.header_row as int,
            );
            &&& opt_int(r.name_index) == spec_column_index(h, spec_name_aliases(), None)
            &&& opt_int(r.amount_index) == spec_column_index(h, spec_amount_aliases(), None)
            &&& opt_int(r.address_index) == spec_column_index(h, spec_address_aliases(), None)
            &&& opt_int(r.payment_index) == spec_column_index(h, spec_payment_aliases(), None)
            &&& opt_int(r.return_gift_amount_index) == spec_column_index(
                h,
                spec_return_amount_aliases(),
                None,
            )
            &&& opt_int(r.return_gifted_at_index) == spec_column_index(
                h,
                spec_return_time_aliases(),
                None,
            )
            &&& opt_int(r.date_index) == spec_column_index(
                h,
                spec_date_aliases(),
                r.return_gifted_at_index,
            )
            &&& opt_int(r.note_index) == spec_column_index(h, spec_note_aliases(), None)
            &&& opt_int(r.return_gift_index) == spec_column_index(
                h,
                spec_return_gift_aliases(),
                None,
            )
            &&& opt_int(r.tag_index) == spec_column_index(h, spec_tag_aliases(), None)
            &&& strings_view(r.errors@) == missing_column_messages(r.name_index, r.amount_index)
                + report.0
            &&& r.valid_rows == report.1
        }

/// The columns of a sheet recognised by their titles, with the problems
/// that would stop an import and the number of importable rows.
pub fn analyze_sheet(sheet: &ParsedSheet) -> (r: SheetAnalysis)
    requires
        sheet.header_row + sheet.rows@.len() <= usize::MAX,
    ensures
        is_auto_analysis(*sheet, r),
{
    let headers = &sheet.headers;
    let name_index = column_index(headers, &name_aliases());
    let amount_index = column_index(headers, &amount_aliases());
    let address_index = column_index(headers, &address_aliases());
    let payment_index = column_index(headers, &payment_aliases());
    let return_gift_amount_index = column_index(headers, &return_amount_aliases());
    let return_gifted_at_index = column_index(headers, &return_time_aliases());
    let date_index = column_index_excluding(headers, &date_aliases(), return_gifted_at_index);
    let note_index = column_index(headers, &note_aliases());
    let return_gift_index = column_index(headers, &return_gift_aliases());
    let tag_index = column_index(headers, &tag_aliases());
    let mut errors: Vec<String> = Vec::new();
    let mut valid_rows: usize = 0;
    if name_index.is_none() {
        errors.push(owned("缺少姓名列"));
    }
    if amount_index.is_none() {
        errors.push(owned("缺少金额列"));
    }
    assert(strings_view(errors@) =~= missing_column_messages(name_index, amount_index));
    let ghost before = errors@;
    match (name_index, amount_index) {
        (Some(ni), Some(ai)) => {
            valid_rows = check_rows(sheet, ni, ai, &mut errors);
        },
        _ => {
            assert(strings_view(errors@) =~= strings_view(before) + Seq::<Seq<char>>::empty());
        },
    }
    SheetAnalysis {
        name_index,
        amount_index,
        address_index,
        payment_index,
        date_index,
        note_index,
        return_gift_index,
        return_gift_amount_index,
        return_gifted_at_index,
        tag_index,
        errors,
        valid_rows,
    }
}

/// The column choice that an analysis found.
pub fn mapping_from_analysis(analysis: &SheetAnalysis) -> (r: SpreadsheetColumnMapping)
    ensures
        r.name == analysis.name_index,
        r.amount == analysis.amount_index,
        r.address == analysis.address_index,
        r.payment_method == analysis.payment_index,
        r.date == analysis.date_index,
        r.note == analysis.note_index,
        r.return_gift == analysis.return_gift_index,
        r.return_gift_amount == analysis.return_gift_amount_index,
        r.return_gifted_at == analysis.return_gifted_at_index,
        r.tags == analysis.tag_index,
        r == mapping_of(*analysis),
{
    SpreadsheetColumnMapping {
        name: analysis.name_index,
        amount: analysis.amount_index,
        address: analysis.address_index,
        payment_method: analysis.payment_index,
        date: analysis.date_index,
        note: analysis.note_index,
        return_gift: analysis.return_gift_index,
        return_gift_amount: analysis.return_gift_amount_index,
        return_gifted_at: analysis.return_gifted_at_index,
        tags: analysis.tag_index,
    }
}

/// The labels under which chosen columns are reported, in report order.
pub open spec fn mapping_labels() -> Seq<Seq<char>> {
    seq![
        "姓名"@,
        "金额"@,
        "地址"@,
        "支付方式"@,
        "日期"@,
        "备注"@,
        "回礼"@,
        "回礼金额"@,
        "回礼时间"@,
        "人物标签"@,
    ]
}

/// The columns of a mapping, in report order.
pub open spec fn mapping_columns(m: SpreadsheetColumnMapping) -> Seq<Option<usize>> {
    seq![
        m.name,
        m.amount,
        m.address,
        m.payment_method,
        m.date,
        m.note,
        m.return_gift,
        m.return_gift_amount,
        m.return_gifted_at,
        m.tags,
    ]
}

/// Complaints about chosen columns beyond the `width` columns of the header,
/// for the first `k` labelled columns.
pub open spec fn range_messages(
    labels: Seq<Seq<char>>,
    columns: Seq<Option<usize>>,
    width: int,
    k: int,
) -> Seq<Seq<char>>
    decreases k,
{
    if k <= 0 || k > labels.len() || k > columns.len() {
        Seq::empty()
    } else {
        let prev = range_messages(labels, columns, width, k - 1);
        match columns[k - 1] {
            Some(i) => if i >= width {
                prev.push(labels[k - 1] + "列超出表头范围"@)
            } else {
                prev
            },
            None => prev,
        }
    }
}

/// What checking a sheet against a chosen mapping finds: the mapping's
/// columns, the missing-column complaints, a complaint for each chosen column
/// beyond the header, then the row report.
pub open spec fn is_mapped_analysis(sheet: ParsedSheet, mapping: SpreadsheetColumnMapping, r: SheetAnalysis) -> bool {
    &&& r.name_index == mapping.name
    &&& r.amount_index == mapping.amount
    &&& r.address_index == mapping.address
    &&& r.payment_index == mapping.payment_method
    &&& r.date_index == mapping.date
    &&& r.note_index == mapping.note
    &&& r.return_gift_index == mapping.return_gift
    &&& r.return_gift_amount_index == mapping.return_gift_amount
    &&& r.return_gifted_at_index == mapping.return_gifted_at
    &&& r.tag_index == mapping.tags
    &&& ({
            let report = sheet_row_report(
                rows_view(sheet.rows@),
                mapping.name,
                mapping.amount,
                sheet.header_row as int,
            );
            &&& strings_view(r.errors@) == missing_column_messages(mapping.name, mapping.amount)
                + range_messages(
                mapping_labels(),
                mapping_columns(mapping),
                sheet.headers@.len() as int,
                10,
            ) + report.0
            &&& r.valid_rows == report.1
        })
}

/// Checks a sheet against columns chosen by hand.
pub fn analyze_sheet_with_mapping(sheet: &ParsedSheet, mapping: &SpreadsheetColumnMapping) -> (r:
    SheetAnalysis)
    requires
        sheet.header_row + sheet.rows@.len() <= usize::MAX,
    ensures
        is_mapped_analysis(*sheet, *mapping, r),
{
    let mut errors: Vec<String> = Vec::new();
    if mapping.name.is_none() {
        errors.push(owned("缺少姓名列"));
    }
    if mapping.amount.is_none() {
        errors.push(owned("缺少金额列"));
    }
    assert(strings_view(errors@) =~= missing_column_messages(mapping.name, mapping.amount));
    let labels = vec!["姓名", "金额", "地址", "支付方式", "日期", "备注", "回礼", "回礼金额", "回礼时间", "人物标签"];
    let columns = vec![
        mapping.name,
        mapping.amount,
        mapping.address,
        mapping.payment_method,
        mapping.date,
        mapping.note,
        mapping.return_gift,
        mapping.return_gift_amount,
        mapping.return_gifted_at,
        mapping.tags,
    ];
    assert(strs_view(labels@) =~= mapping_labels());
    assert(columns@ =~= mapping_columns(*mapping));
    let ghost base = errors@;
    let width = sheet.headers.len();
    let mut k: usize = 0;
    while k < 10
        invariant
            k <= 10,
            labels@.len() == 10,
            columns@.len() == 10,
            width == sheet.headers@.len(),
            strs_view(labels@) == mapping_labels(),
            columns@ == mapping_columns(*mapping),
            strings_view(errors@) == strings_view(base) + range_messages(
                mapping_labels(),
                mapping_columns(*mapping),
                width as int,
                k as int,
            ),
        decreases 10 - k,
    {
        let ghost prev = errors@;
        if let Some(i) = columns[k] {
            if i >= width {
                let l = str_chars(labels[k]);
                let mut msg = l;
                extend_str(&mut msg, "列超出表头范围");
                errors.push(string_from_chars(&msg));
                assert(mapping_labels()[k as int] == labels@[k as int]@);
                assert(strings_view(errors@) =~= strings_view(prev).push(
                    mapping_labels()[k as int] + "列超出表头范围"@,
                ));
            }
        }
        k = k + 1;
    }
    let ghost before = errors@;
    let mut valid_rows: usize = 0;
    match (mapping.name, mapping.amount) {
        (Some(ni), Some(ai)) => {
            valid_rows = check_rows(sheet, ni, ai, &mut errors);
        },
        _ => {
            assert(strings_view(errors@) =~= strings_view(before) + Seq::<Seq<char>>::empty());
        },
    }
    SheetAnalysis {
        name_index: mapping.name,
        amount_index: mapping.amount,
        address_index: mapping.address,
        payment_index: mapping.payment_method,
        date_index: mapping.date,
        note_index: mapping.note,
        return_gift_index: mapping.return_gift,
        return_gift_amount_index: mapping.return_gift_amount,
        return_gifted_at_index: mapping.return_gifted_at,
        tag_index: mapping.tags,
        errors,
        valid_rows,
    }
}

} // verus!

verus! {

/// The message that stops an import, if the analysis forbids one.
pub open spec fn import_refusal(errors: Seq<Seq<char>>, ni: Option<usize>, ai: Option<usize>, valid_rows: int) -> Option<Seq<char>> {
    if errors.len() > 0 {
        Some("导入未执行："@ + join(errors, "；"@))
    } else if ni is None {
        Some("缺少姓名列"@)
    } else if ai is None {
        Some("缺少金额列"@)
    } else if valid_rows == 0 {
        Some("没有可导入的有效记录"@)
    } else {
        None
    }
}

/// Refuses an import whose analysis found problems, lacks the guest-name or
/// amount column, or has no importable row.
pub fn validate_spreadsheet_import(analysis: &SheetAnalysis) -> (r: Result<(), String>)
    ensures
        ({
            let refusal = import_refusal(
                strings_view(analysis.errors@),
                analysis.name_index,
                analysis.amount_index,
                analysis.valid_rows as int,
            );
            match r {
                Ok(()) => refusal is None,
                Err(e) => refusal == Some(e@),
            }
        }),
{
    if analysis.errors.len() > 0 {
        let joined = join_strings(&analysis.errors, "；");
        let jc = str_chars(joined.as_str());
        return Err(concat2("导入未执行：", &jc));
    }
    if analysis.name_index.is_none() {
        return Err(owned("缺少姓名列"));
    }
    if analysis.amount_index.is_none() {
        return Err(owned("缺少金额列"));
    }
    if analysis.valid_rows == 0 {
        return Err(owned("没有可导入的有效记录"));
    }
    Ok(())
}

/// Each import names either an existing gift book or asks for a new one, never both.
pub fn validate_spreadsheet_target(target_book_id: Option<&str>, create_new_book: bool) -> (r:
    Result<(), String>)
    ensures
        r is Ok <==> create_new_book != (target_book_id is Some),
        r matches Err(e) ==> e@ == "请为每次导入明确选择已有礼金簿或新建礼金簿"@,
{
    if create_new_book == target_book_id.is_some() {
        return Err(owned("请为每次导入明确选择已有礼金簿或新建礼金簿"));
    }
    Ok(())
}

/// Characters Windows refuses in file names.
pub open spec fn is_file_name_forbidden(c: char) -> bool {
    c == '<' || c == '>' || c == ':' || c == '"' || c == '/' || c == '\\' || c == '|' || c == '?'
        || c == '*'
}

/// Characters Excel refuses in worksheet names.
pub open spec fn is_sheet_name_forbidden(c: char) -> bool {
    c == '[' || c == ']' || c == ':' || c == '*' || c == '?' || c == '/' || c == '\\'
}

/// A book title made safe as an Excel file name: forbidden characters
/// removed, trimmed of whitespace and dots, a default when nothing is left,
/// at most 120 characters.
pub open spec fn spec_safe_excel_file_stem(s: Seq<char>) -> Seq<char> {
    let cleaned = trim_matches(trim(keep(s, |c: char| !is_file_name_forbidden(c))), '.');
    if cleaned.len() == 0 {
        "礼金明细"@
    } else {
        cleaned.take(if cleaned.len() < 120 { cleaned.len() as int } else { 120 })
    }
}

/// A title made safe as a worksheet name: forbidden characters removed,
/// trimmed of whitespace and quotes, a default when nothing is left, at most
/// 31 characters.
pub open spec fn spec_safe_worksheet_name(s: Seq<char>) -> Seq<char> {
    let cleaned = trim_matches(trim(keep(s, |c: char| !is_sheet_name_forbidden(c))), '\'');
    let value = if cleaned.len() == 0 {
        "礼金明细"@
    } else {
        cleaned
    };
    value.take(if value.len() < 31 { value.len() as int } else { 31 })
}

/// The characters of `s` that `forbidden` lets through, `which` telling the
/// file-name rule (`true`) from the worksheet-name rule (`false`).
fn remove_forbidden(s: &[char], file_name_rule: bool) -> (r: Vec<char>)
    ensures
        r@ == if file_name_rule {
            keep(s@, |c: char| !is_file_name_forbidden(c))
        } else {
            keep(s@, |c: char| !is_sheet_name_forbidden(c))
        },
{
    let ghost p = if file_name_rule {
        |c: char| !is_file_name_forbidden(c)
    } else {
        |c: char| !is_sheet_name_forbidden(c)
    };
    let mut t: Vec<char> = Vec::new();
    let mut i: usize = 0;
    while i < s.len()
        invariant
            i <= s@.len(),
            p == if file_name_rule {
                |c: char| !is_file_name_forbidden(c)
            } else {
                |c: char| !is_sheet_name_forbidden(c)
            },
            t@ == keep(s@.take(i as int), p),
        decreases s@.len() - i,
    {
        proof {
            lemma_keep_step(s@, p, i as int);
        }
        let c = s[i];
        let forbidden = if file_name_rule {
            c == '<' || c == '>' || c == ':' || c == '"' || c == '/' || c == '\\' || c == '|' || c
                == '?' || c == '*'
        } else {
            c == '[' || c == ']' || c == ':' || c == '*' || c == '?' || c == '/' || c == '\\'
        };
        if !forbidden {
            t.push(c);
        }
        i = i + 1;
    }
    proof {
        lemma_take_full(s@);
    }
    t
}

/// The first `n` characters of `s` (or all of them).
fn take_chars(s: &[char], n: usize) -> (r: Vec<char>)
    ensures
        r@ == s@.take(if s@.len() < n { s@.len() as int } else { n as int }),
{
    let end = if s.len() < n {
        s.len()
    } else {
        n
    };
    let r = crate::text::slice_range(s, 0, end);
    assert(r@ =~= s@.take(end as int));
    r
}

/// A book title made safe to use as the name of an exported Excel file.
pub fn safe_excel_file_stem(value: &str) -> (r: String)
    ensures
        r@ == spec_safe_excel_file_stem(value@),
{
    let c = str_chars(value);
    let kept = remove_forbidden(&c, true);
    let t = trim_chars(&kept);
    let cleaned = trim_matches_chars(&t, '.');
    if cleaned.len() == 0 {
        owned("礼金明细")
    } else {
        let taken = take_chars(&cleaned, 120);
        string_from_chars(&taken)
    }
}

/// A title made safe to use as an Excel worksheet name.
pub fn safe_worksheet_name(value: &str) -> (r: String)
    ensures
        r@ == spec_safe_worksheet_name(value@),
{
    let c = str_chars(value);
    let kept = remove_forbidden(&c, false);
    let t = trim_chars(&kept);
    let cleaned = trim_matches_chars(&t, '\'');
    let v = if cleaned.len() == 0 {
        str_chars("礼金明细")
    } else {
        cleaned
    };
    let taken = take_chars(&v, 31);
    string_from_chars(&taken)
}

} // verus!

verus! {

/// The headers name a guest column and an amount column: the sheet of a
/// workbook that an import picks first.
pub open spec fn spec_has_required_columns(headers: Seq<Seq<char>>) -> bool {
    spec_column_index(headers, spec_name_aliases(), None) is Some
        && spec_column_index(headers, spec_amount_aliases(), None) is Some
}

/// Whether the headers name a guest column and an amount column.
pub fn has_required_columns(headers: &[String]) -> (r: bool)
    ensures
        r == spec_has_required_columns(strings_view(headers@)),
{
    let names = name_aliases();
    let amounts = amount_aliases();
    column_index(headers, &names).is_some() && column_index(headers, &amounts).is_some()
}

} // verus!

verus! {

/// The rows that can be imported, as a predicate.
pub open spec fn importable(ni: int, ai: int) -> spec_fn(Seq<Seq<char>>) -> bool {
    |r: Seq<Seq<char>>| row_is_valid(r, ni, ai)
}

/// The rows with content, as a predicate.
pub open spec fn with_content() -> spec_fn(Seq<Seq<char>>) -> bool {
    |r: Seq<Seq<char>>| has_content(r)
}

/// Counting rows: among the first `k` data rows, the importable ones are
/// exactly the rows with a guest name and a positive amount, and each other
/// row with content gets one complaint.
pub proof fn law_row_report_counts(rows: Seq<Seq<Seq<char>>>, ni: int, ai: int, header_row: int, k: int)
    requires
        0 <= k <= rows.len(),
    ensures
        row_report(rows, ni, ai, header_row, k).1 == crate::text::keep(
            rows.take(k),
            importable(ni, ai),
        ).len(),
        row_report(rows, ni, ai, header_row, k).0.len() + row_report(rows, ni, ai, header_row, k).1
            == crate::text::keep(rows.take(k), with_content()).len(),
    decreases k,
{
    if k > 0 {
        law_row_report_counts(rows, ni, ai, header_row, k - 1);
        let t = rows.take(k);
        assert(t.drop_last() =~= rows.take(k - 1));
        assert(t.last() == rows[k - 1]);
    } else {
        assert(rows.take(k) =~= Seq::<Seq<Seq<char>>>::empty());
    }
}

/// The row report of a sheet: with both the guest-name and the amount
/// column known, the importable rows are counted as above and every other
/// row with content gets one complaint; with either missing, no row is
/// checked and none is importable.
pub proof fn law_sheet_row_report_counts(rows: Seq<Seq<Seq<char>>>, ni: Option<usize>, ai: Option<usize>, header_row: int)
    ensures
        ni is Some && ai is Some ==> sheet_row_report(rows, ni, ai, header_row).1 == crate::text::keep(
            rows,
            importable(ni->0 as int, ai->0 as int),
        ).len(),
        ni is Some && ai is Some ==> sheet_row_report(rows, ni, ai, header_row).0.len() + sheet_row_report(
            rows,
            ni,
            ai,
            header_row,
        ).1 == crate::text::keep(rows, with_content()).len(),
        ni is None || ai is None ==> sheet_row_report(rows, ni, ai, header_row) == (
        Seq::<Seq<char>>::empty(),
        0nat,
        ),
{
    if ni is Some && ai is Some {
        let n = ni->0;
        let a = ai->0;
        law_row_report_counts(rows, n as int, a as int, header_row, rows.len() as int);
        assert(rows.take(rows.len() as int) =~= rows);
    }
}

} // verus!

verus! {

/// The mapping that an analysis found.
pub open spec fn mapping_of(a: SheetAnalysis) -> SpreadsheetColumnMapping {
    SpreadsheetColumnMapping {
        name: a.name_index,
        amount: a.amount_index,
        address: a.address_index,
        payment_method: a.payment_index,
        date: a.date_index,
        note: a.note_index,
        return_gift: a.return_gift_index,
        return_gift_amount: a.return_gift_amount_index,
        return_gifted_at: a.return_gifted_at_index,
        tags: a.tag_index,
    }
}

proof fn lemma_first_column_inside(headers: Seq<Seq<char>>, names: Seq<Seq<char>>, excluded: Option<usize>, i: int)
    requires
        0 <= i,
    ensures
        first_column_from(headers, names, excluded, i) matches Some(j) ==> i <= j < headers.len(),
    decreases headers.len() - i,
{
    if i < headers.len() {
        lemma_first_column_inside(headers, names, excluded, i + 1);
    }
}

proof fn lemma_no_range_messages(labels: Seq<Seq<char>>, columns: Seq<Option<usize>>, width: int, k: int)
    requires
        forall|j: int| 0 <= j < columns.len() ==> (#[trigger] columns[j] matches Some(c) ==> c < width),
    ensures
        range_messages(labels, columns, width, k) == Seq::<Seq<char>>::empty(),
    decreases k,
{
    if k > 0 && k <= labels.len() && k <= columns.len() {
        lemma_no_range_messages(labels, columns, width, k - 1);
        assert(columns[k - 1] matches Some(c) ==> c < width);
    }
}

/// Checking a sheet again with the mapping that its automatic analysis
/// found gives the same analysis: the same columns, the same complaints in
/// the same order, and the same count of importable rows.
pub proof fn law_mapping_reproduces_analysis(sheet: ParsedSheet, a: SheetAnalysis, b: SheetAnalysis)
    requires
        is_auto_analysis(sheet, a),
        is_mapped_analysis(sheet, mapping_of(a), b),
    ensures
        mapping_of(b) == mapping_of(a),
        strings_view(b.errors@) == strings_view(a.errors@),
        b.valid_rows == a.valid_rows,
{
    let h = strings_view(sheet.headers@);
    let m = mapping_of(a);
    assert forall|j: int| 0 <= j < mapping_columns(m).len() implies (#[trigger] mapping_columns(m)[j] matches Some(c)
        ==> c < sheet.headers@.len()) by {
        lemma_first_column_inside(h, spec_name_aliases(), None, 0);
        lemma_first_column_inside(h, spec_amount_aliases(), None, 0);
        lemma_first_column_inside(h, spec_address_aliases(), None, 0);
        lemma_first_column_inside(h, spec_payment_aliases(), None, 0);
        lemma_first_column_inside(h, spec_date_aliases(), a.return_gifted_at_index, 0);
        lemma_first_column_inside(h, spec_note_aliases(), None, 0);
        lemma_first_column_inside(h, spec_return_gift_aliases(), None, 0);
        lemma_first_column_inside(h, spec_return_amount_aliases(), None, 0);
        lemma_first_column_inside(h, spec_return_time_aliases(), None, 0);
        lemma_first_column_inside(h, spec_tag_aliases(), None, 0);
    }
    lemma_no_range_messages(mapping_labels(), mapping_columns(m), sheet.headers@.len() as int, 10);
    assert(missing_column_messages(m.name, m.amount) + Seq::<Seq<char>>::empty() =~= missing_column_messages(
        m.name,
        m.amount,
    ));
}

} // verus!

verus! {

/// A title whose last character counts has a non-empty comparable form.
proof fn lemma_title_key_nonempty(s: Seq<char>)
    requires
        s.len() > 0,
        !is_header_noise(s.last()),
    ensures
        header_key(s).len() > 0,
{
    let p = |c: char| !is_header_noise(c);
    assert(keep(s, p) == keep(s.drop_last(), p).push(s.last()));
}

/// A column whose title matches is found, at it or at an earlier column.
proof fn lemma_found_no_later(h: Seq<Seq<char>>, names: Seq<Seq<char>>, excluded: Option<usize>, i: int, k: int)
    requires
        0 <= k <= i < h.len(),
        header_matches(h[i], names),
        excluded != Some(i as usize),
    ensures
        first_column_from(h, names, excluded, k) matches Some(j) && k <= j <= i,
    decreases i - k,
{
    if !(excluded != Some(k as usize) && header_matches(h[k], names)) {
        lemma_found_no_later(h, names, excluded, i, k + 1);
    }
}

/// A title that reads as one of `names` matches them.
proof fn lemma_title_is_alias(header: Seq<char>, names: Seq<Seq<char>>, n: int)
    requires
        0 <= n < names.len(),
        names[n].len() > 0,
        !is_header_noise(names[n].last()),
        header_key(header) == header_key(names[n]),
    ensures
        header_matches(header, names),
{
    lemma_title_key_nonempty(names[n]);
}

/// A sheet with a column titled 金额, 礼金, 数额, amount, money or gift
/// (in any letter case, with spaces or brackets around it) has an amount
/// column, that column or one before it; likewise a column titled 姓名,
/// 名字, 收礼人, 来宾, 人名, name, guest or person gives a name column.
pub proof fn law_amount_and_name_titles(sheet: ParsedSheet, r: SheetAnalysis, i: int)
    requires
        is_auto_analysis(sheet, r),
        0 <= i < sheet.headers@.len(),
    ensures
        ({
            let key = header_key(sheet.headers@[i]@);
            ||| key == header_key("金额"@)
            ||| key == header_key("礼金"@)
            ||| key == header_key("数额"@)
            ||| key == header_key("amount"@)
            ||| key == header_key("money"@)
            ||| key == header_key("gift"@)
        }) ==> (r.amount_index matches Some(j) && j <= i),
        ({
            let key = header_key(sheet.headers@[i]@);
            ||| key == header_key("姓名"@)
            ||| key == header_key("名字"@)
            ||| key == header_key("收礼人"@)
            ||| key == header_key("来宾"@)
            ||| key == header_key("人名"@)
            ||| key == header_key("name"@)
            ||| key == header_key("guest"@)
            ||| key == header_key("person"@)
        }) ==> (r.name_index matches Some(j) && j <= i),
{
    let h = strings_view(sheet.headers@);
    let t = h[i];
    assert(t == sheet.headers@[i]@);
    let key = header_key(t);
    reveal_strlit("金额");
    reveal_strlit("礼金");
    reveal_strlit("数额");
    reveal_strlit("amount");
    reveal_strlit("money");
    reveal_strlit("gift");
    reveal_strlit("姓名");
    reveal_strlit("名字");
    reveal_strlit("收礼人");
    reveal_strlit("来宾");
    reveal_strlit("人名");
    reveal_strlit("name");
    reveal_strlit("guest");
    reveal_strlit("person");
    let am = spec_amount_aliases();
    let nm = spec_name_aliases();
    assert(am[0] == "金额"@ && am[0].len() > 0 && !is_header_noise(am[0].last()));
    assert(am[1] == "礼金"@ && am[1].len() > 0 && !is_header_noise(am[1].last()));
    assert(am[2] == "数额"@ && am[2].len() > 0 && !is_header_noise(am[2].last()));
    assert(am[3] == "amount"@ && am[3].len() > 0 && !is_header_noise(am[3].last()));
    assert(am[4] == "money"@ && am[4].len() > 0 && !is_header_noise(am[4].last()));
    assert(am[5] == "gift"@ && am[5].len() > 0 && !is_header_noise(am[5].last()));
    assert(nm[0] == "姓名"@ && nm[0].len() > 0 && !is_header_noise(nm[0].last()));
    assert(nm[1] == "名字"@ && nm[1].len() > 0 && !is_header_noise(nm[1].last()));
    assert(nm[2] == "收礼人"@ && nm[2].len() > 0 && !is_header_noise(nm[2].last()));
    assert(nm[3] == "来宾"@ && nm[3].len() > 0 && !is_header_noise(nm[3].last()));
    assert(nm[4] == "人名"@ && nm[4].len() > 0 && !is_header_noise(nm[4].last()));
    assert(nm[5] == "name"@ && nm[5].len() > 0 && !is_header_noise(nm[5].last()));
    assert(nm[6] == "guest"@ && nm[6].len() > 0 && !is_header_noise(nm[6].last()));
    assert(nm[7] == "person"@ && nm[7].len() > 0 && !is_header_noise(nm[7].last()));
    if key == header_key("金额"@) || key == header_key("礼金"@) || key == header_key("数额"@) || key
        == header_key("amount"@) || key == header_key("money"@) || key == header_key("gift"@) {
        let n = if key == header_key("金额"@) {
            0
        } else if key == header_key("礼金"@) {
            1
        } else if key == header_key("数额"@) {
            2
        } else if key == header_key("amount"@) {
            3
        } else if key == header_key("money"@) {
            4
        } else {
            5int
        };
        lemma_title_is_alias(t, am, n);
        lemma_found_no_later(h, am, None, i, 0);
    }
    if key == header_key("姓名"@) || key == header_key("名字"@) || key == header_key("收礼人"@) || key
        == header_key("来宾"@) || key == header_key("人名"@) || key == header_key("name"@) || key
        == header_key("guest"@) || key == header_key("person"@) {
        let n = if key == header_key("姓名"@) {
            0
        } else if key == header_key("名字"@) {
            1
        } else if key == header_key("收礼人"@) {
            2
        } else if key == header_key("来宾"@) {
            3
        } else if key == header_key("人名"@) {
            4
        } else if key == header_key("name"@) {
            5
        } else if key == header_key("guest"@) {
            6
        } else {
            7int
        };
        lemma_title_is_alias(t, nm, n);
        lemma_found_no_later(h, nm, None, i, 0);
    }
}


/// A sheet with a column titled 地址, 住址, 联系地址, address (in any letter case, with spaces
/// or brackets around it) has the address column: that column or one before it.
pub proof fn law_address_titles(sheet: ParsedSheet, r: SheetAnalysis, i: int)
    requires
        is_auto_analysis(sheet, r),
        0 <= i < sheet.headers@.len(),
    ensures
        ({
            let key = header_key(sheet.headers@[i]@);
            ||| key == header_key("地址"@)
            ||| key == header_key("住址"@)
            ||| key == header_key("联系地址"@)
            ||| key == header_key("address"@)
        }) ==> (r.address_index matches Some(j) && j <= i),
{
    let h = strings_view(sheet.headers@);
    let t = h[i];
    assert(t == sheet.headers@[i]@);
    let key = header_key(t);
    reveal_strlit("地址");
    reveal_strlit("住址");
    reveal_strlit("联系地址");
    reveal_strlit("address");
    let names = spec_address_aliases();
    assert(names[0] == "地址"@ && names[0].len() > 0 && !is_header_noise(names[0].last()));
    assert(names[1] == "住址"@ && names[1].len() > 0 && !is_header_noise(names[1].last()));
    assert(names[2] == "联系地址"@ && names[2].len() > 0 && !is_header_noise(names[2].last()));
    assert(names[3] == "address"@ && names[3].len() > 0 && !is_header_noise(names[3].last()));
    if key == header_key("地址"@) || key == header_key("住址"@) || key == header_key("联系地址"@) || key == header_key("address"@) {
        let n = if key == header_key("地址"@) {
            0int
        } else if key == header_key("住址"@) {
            1
        } else if key == header_key("联系地址"@) {
            2
        } else {
            3
        };
        lemma_title_is_alias(t, names, n);
        lemma_found_no_later(h, names, None, i, 0);
    }
}

/// A sheet with a column titled 支付方式, 付款方式, 支付, 方式, payment, method (in any letter case, with spaces
/// or brackets around it) has the payment-method column: that column or one before it.
pub proof fn law_payment_titles(sheet: ParsedSheet, r: SheetAnalysis, i: int)
    requires
        is_auto_analysis(sheet, r),
        0 <= i < sheet.headers@.len(),
    ensures
        ({
            let key = header_key(sheet.headers@[i]@);
            ||| key == header_key("支付方式"@)
            ||| key == header_key("付款方式"@)
            ||| key == header_key("支付"@)
            ||| key == header_key("方式"@)
            ||| key == header_key("payment"@)
            ||| key == header_key("method"@)
        }) ==> (r.payment_index matches Some(j) && j <= i),
{
    let h = strings_view(sheet.headers@);
    let t = h[i];
    assert(t == sheet.headers@[i]@);
    let key = header_key(t);
    reveal_strlit("支付方式");
    reveal_strlit("付款方式");
    reveal_strlit("支付");
    reveal_strlit("方式");
    reveal_strlit("payment");
    reveal_strlit("method");
    let names = spec_payment_aliases();
    assert(names[0] == "支付方式"@ && names[0].len() > 0 && !is_header_noise(names[0].last()));
    assert(names[1] == "付款方式"@ && names[1].len() > 0 && !is_header_noise(names[1].last()));
    assert(names[2] == "支付"@ && names[2].len() > 0 && !is_header_noise(names[2].last()));
    assert(names[3] == "方式"@ && names[3].len() > 0 && !is_header_noise(names[3].last()));
    assert(names[4] == "payment"@ && names[4].len() > 0 && !is_header_noise(names[4].last()));
    assert(names[5] == "method"@ && names[5].len() > 0 && !is_header_noise(names[5].last()));
    if key == header_key("支付方式"@) || key == header_key("付款方式"@) || key == header_key("支付"@) || key == header_key("方式"@) || key == header_key("payment"@) || key == header_key("method"@) {
        let n = if key == header_key("支付方式"@) {
            0int
        } else if key == header_key("付款方式"@) {
            1
        } else if key == header_key("支付"@) {
            2
        } else if key == header_key("方式"@) {
            3
        } else if key == header_key("payment"@) {
            4
        } else {
            5
        };
        lemma_title_is_alias(t, names, n);
        lemma_found_no_later(h, names, None, i, 0);
    }
}

/// A sheet with a column titled 回礼金额, 回赠金额, 还礼金额, return gift amount, return_gift_amount, return amount (in any letter case, with spaces
/// or brackets around it) has the return-gift amount column: that column or one before it.
pub proof fn law_return_amount_titles(sheet: ParsedSheet, r: SheetAnalysis, i: int)
    requires
        is_auto_analysis(sheet, r),
        0 <= i < sheet.headers@.len(),
    ensures
        ({
            let key = header_key(sheet.headers@[i]@);
            ||| key == header_key("回礼金额"@)
            ||| key == header_key("回赠金额"@)
            ||| key == header_key("还礼金额"@)
            ||| key == header_key("return gift amount"@)
            ||| key == header_key("return_gift_amount"@)
            ||| key == header_key("return amount"@)
        }) ==> (r.return_gift_amount_index matches Some(j) && j <= i),
{
    let h = strings_view(sheet.headers@);
    let t = h[i];
    assert(t == sheet.headers@[i]@);
    let key = header_key(t);
    reveal_strlit("回礼金额");
    reveal_strlit("回赠金额");
    reveal_strlit("还礼金额");
    reveal_strlit("return gift amount");
    reveal_strlit("return_gift_amount");
    reveal_strlit("return amount");
    let names = spec_return_amount_aliases();
    assert(names[0] == "回礼金额"@ && names[0].len() > 0 && !is_header_noise(names[0].last()));
    assert(names[1] == "回赠金额"@ && names[1].len() > 0 && !is_header_noise(names[1].last()));
    assert(names[2] == "还礼金额"@ && names[2].len() > 0 && !is_header_noise(names[2].last()));
    assert(names[3] == "return gift amount"@ && names[3].len() > 0 && !is_header_noise(names[3].last()));
    assert(names[4] == "return_gift_amount"@ && names[4].len() > 0 && !is_header_noise(names[4].last()));
    assert(names[5] == "return amount"@ && names[5].len() > 0 && !is_header_noise(names[5].last()));
    if key == header_key("回礼金额"@) || key == header_key("回赠金额"@) || key == header_key("还礼金额"@) || key == header_key("return gift amount"@) || key == header_key("return_gift_amount"@) || key == header_key("return amount"@) {
        let n = if key == header_key("回礼金额"@) {
            0int
        } else if key == header_key("回赠金额"@) {
            1
        } else if key == header_key("还礼金额"@) {
            2
        } else if key == header_key("return gift amount"@) {
            3
        } else if key == header_key("return_gift_amount"@) {
            4
        } else {
            5
        };
        lemma_title_is_alias(t, names, n);
        lemma_found_no_later(h, names, None, i, 0);
    }
}

/// A sheet with a column titled 回礼时间, 回礼日期, 回赠时间, 还礼时间, return gift time, return_gifted_at (in any letter case, with spaces
/// or brackets around it) has the return-gift time column: that column or one before it.
pub proof fn law_return_time_titles(sheet: ParsedSheet, r: SheetAnalysis, i: int)
    requires
        is_auto_analysis(sheet, r),
        0 <= i < sheet.headers@.len(),
    ensures
        ({
            let key = header_key(sheet.headers@[i]@);
            ||| key == header_key("回礼时间"@)
            ||| key == header_key("回礼日期"@)
            ||| key == header_key("回赠时间"@)
            ||| key == header_key("还礼时间"@)
            ||| key == header_key("return gift time"@)
            ||| key == header_key("return_gifted_at"@)
        }) ==> (r.return_gifted_at_index matches Some(j) && j <= i),
{
    let h = strings_view(sheet.headers@);
    let t = h[i];
    assert(t == sheet.headers@[i]@);
    let key = header_key(t);
    reveal_strlit("回礼时间");
    reveal_strlit("回礼日期");
    reveal_strlit("回赠时间");
    reveal_strlit("还礼时间");
    reveal_strlit("return gift time");
    reveal_strlit("return_gifted_at");
    let names = spec_return_time_aliases();
    assert(names[0] == "回礼时间"@ && names[0].len() > 0 && !is_header_noise(names[0].last()));
    assert(names[1] == "回礼日期"@ && names[1].len() > 0 && !is_header_noise(names[1].last()));
    assert(names[2] == "回赠时间"@ && names[2].len() > 0 && !is_header_noise(names[2].last()));
    assert(names[3] == "还礼时间"@ && names[3].len() > 0 && !is_header_noise(names[3].last()));
    assert(names[4] == "return gift time"@ && names[4].len() > 0 && !is_header_noise(names[4].last()));
    assert(names[5] == "return_gifted_at"@ && names[5].len() > 0 && !is_header_noise(names[5].last()));
    if key == header_key("回礼时间"@) || key == header_key("回礼日期"@) || key == header_key("回赠时间"@) || key == header_key("还礼时间"@) || key == header_key("return gift time"@) || key == header_key("return_gifted_at"@) {
        let n = if key == header_key("回礼时间"@) {
            0int
        } else if key == header_key("回礼日期"@) {
            1
        } else if key == header_key("回赠时间"@) {
            2
        } else if key == header_key("还礼时间"@) {
            3
        } else if key == header_key("return gift time"@) {
            4
        } else {
            5
        };
        lemma_title_is_alias(t, names, n);
        lemma_found_no_later(h, names, None, i, 0);
    }
}

/// A sheet with a column titled 日期, 登记日期, 收礼日期, 登记时间, 时间, date, time (in any letter case, with spaces
/// or brackets around it) has the date column (other than the return-gift time column): that column or one before it.
pub proof fn law_date_titles(sheet: ParsedSheet, r: SheetAnalysis, i: int)
    requires
        is_auto_analysis(sheet, r),
        0 <= i < sheet.headers@.len(),
        r.return_gifted_at_index != Some(i as usize),
    ensures
        ({
            let key = header_key(sheet.headers@[i]@);
            ||| key == header_key("日期"@)
            ||| key == header_key("登记日期"@)
            ||| key == header_key("收礼日期"@)
            ||| key == header_key("登记时间"@)
            ||| key == header_key("时间"@)
            ||| key == header_key("date"@)
            ||| key == header_key("time"@)
        }) ==> (r.date_index matches Some(j) && j <= i),
{
    let h = strings_view(sheet.headers@);
    let t = h[i];
    assert(t == sheet.headers@[i]@);
    let key = header_key(t);
    reveal_strlit("日期");
    reveal_strlit("登记日期");
    reveal_strlit("收礼日期");
    reveal_strlit("登记时间");
    reveal_strlit("时间");
    reveal_strlit("date");
    reveal_strlit("time");
    let names = spec_date_aliases();
    assert(names[0] == "日期"@ && names[0].len() > 0 && !is_header_noise(names[0].last()));
    assert(names[1] == "登记日期"@ && names[1].len() > 0 && !is_header_noise(names[1].last()));
    assert(names[2] == "收礼日期"@ && names[2].len() > 0 && !is_header_noise(names[2].last()));
    assert(names[3] == "登记时间"@ && names[3].len() > 0 && !is_header_noise(names[3].last()));
    assert(names[4] == "时间"@ && names[4].len() > 0 && !is_header_noise(names[4].last()));
    assert(names[5] == "date"@ && names[5].len() > 0 && !is_header_noise(names[5].last()));
    assert(names[6] == "time"@ && names[6].len() > 0 && !is_header_noise(names[6].last()));
    if key == header_key("日期"@) || key == header_key("登记日期"@) || key == header_key("收礼日期"@) || key == header_key("登记时间"@) || key == header_key("时间"@) || key == header_key("date"@) || key == header_key("time"@) {
        let n = if key == header_key("日期"@) {
            0int
        } else if key == header_key("登记日期"@) {
            1
        } else if key == header_key("收礼日期"@) {
            2
        } else if key == header_key("登记时间"@) {
            3
        } else if key == header_key("时间"@) {
            4
        } else if key == header_key("date"@) {
            5
        } else {
            6
        };
        lemma_title_is_alias(t, names, n);
        lemma_found_no_later(h, names, r.return_gifted_at_index, i, 0);
    }
}

/// A sheet with a column titled 备注, 说明, 附言, 其他, 礼品, note, remark, memo, comment (in any letter case, with spaces
/// or brackets around it) has the note column: that column or one before it.
pub proof fn law_note_titles(sheet: ParsedSheet, r: SheetAnalysis, i: int)
    requires
        is_auto_analysis(sheet, r),
        0 <= i < sheet.headers@.len(),
    ensures
        ({
            let key = header_key(sheet.headers@[i]@);
            ||| key == header_key("备注"@)
            ||| key == header_key("说明"@)
            ||| key == header_key("附言"@)
            ||| key == header_key("其他"@)
            ||| key == header_key("礼品"@)
            ||| key == header_key("note"@)
            ||| key == header_key("remark"@)
            ||| key == header_key("memo"@)
            ||| key == header_key("comment"@)
        }) ==> (r.note_index matches Some(j) && j <= i),
{
    let h = strings_view(sheet.headers@);
    let t = h[i];
    assert(t == sheet.headers@[i]@);
    let key = header_key(t);
    reveal_strlit("备注");
    reveal_strlit("说明");
    reveal_strlit("附言");
    reveal_strlit("其他");
    reveal_strlit("礼品");
    reveal_strlit("note");
    reveal_strlit("remark");
    reveal_strlit("memo");
    reveal_strlit("comment");
    let names = spec_note_aliases();
    assert(names[0] == "备注"@ && names[0].len() > 0 && !is_header_noise(names[0].last()));
    assert(names[1] == "说明"@ && names[1].len() > 0 && !is_header_noise(names[1].last()));
    assert(names[2] == "附言"@ && names[2].len() > 0 && !is_header_noise(names[2].last()));
    assert(names[3] == "其他"@ && names[3].len() > 0 && !is_header_noise(names[3].last()));
    assert(names[4] == "礼品"@ && names[4].len() > 0 && !is_header_noise(names[4].last()));
    assert(names[5] == "note"@ && names[5].len() > 0 && !is_header_noise(names[5].last()));
    assert(names[6] == "remark"@ && names[6].len() > 0 && !is_header_noise(names[6].last()));
    assert(names[7] == "memo"@ && names[7].len() > 0 && !is_header_noise(names[7].last()));
    assert(names[8] == "comment"@ && names[8].len() > 0 && !is_header_noise(names[8].last()));
    if key == header_key("备注"@) || key == header_key("说明"@) || key == header_key("附言"@) || key == header_key("其他"@) || key == header_key("礼品"@) || key == header_key("note"@) || key == header_key("remark"@) || key == header_key("memo"@) || key == header_key("comment"@) {
        let n = if key == header_key("备注"@) {
            0int
        } else if key == header_key("说明"@) {
            1
        } else if key == header_key("附言"@) {
            2
        } else if key == header_key("其他"@) {
            3
        } else if key == header_key("礼品"@) {
            4
        } else if key == header_key("note"@) {
            5
        } else if key == header_key("remark"@) {
            6
        } else if key == header_key("memo"@) {
            7
        } else {
            8
        };
        lemma_title_is_alias(t, names, n);
        lemma_found_no_later(h, names, None, i, 0);
    }
}

/// A sheet with a column titled 回礼, 回赠, 回敬, 还礼, return gift, return_gift (in any letter case, with spaces
/// or brackets around it) has the return-gift column: that column or one before it.
pub proof fn law_return_gift_titles(sheet: ParsedSheet, r: SheetAnalysis, i: int)
    requires
        is_auto_analysis(sheet, r),
        0 <= i < sheet.headers@.len(),
    ensures
        ({
            let key = header_key(sheet.headers@[i]@);
            ||| key == header_key("回礼"@)
            ||| key == header_key("回赠"@)
            ||| key == header_key("回敬"@)
            ||| key == header_key("还礼"@)
            ||| key == header_key("return gift"@)
            ||| key == header_key("return_gift"@)
        }) ==> (r.return_gift_index matches Some(j) && j <= i),
{
    let h = strings_view(sheet.headers@);
    let t = h[i];
    assert(t == sheet.headers@[i]@);
    let key = header_key(t);
    reveal_strlit("回礼");
    reveal_strlit("回赠");
    reveal_strlit("回敬");
    reveal_strlit("还礼");
    reveal_strlit("return gift");
    reveal_strlit("return_gift");
    let names = spec_return_gift_aliases();
    assert(names[0] == "回礼"@ && names[0].len() > 0 && !is_header_noise(names[0].last()));
    assert(names[1] == "回赠"@ && names[1].len() > 0 && !is_header_noise(names[1].last()));
    assert(names[2] == "回敬"@ && names[2].len() > 0 && !is_header_noise(names[2].last()));
    assert(names[3] == "还礼"@ && names[3].len() > 0 && !is_header_noise(names[3].last()));
    assert(names[4] == "return gift"@ && names[4].len() > 0 && !is_header_noise(names[4].last()));
    assert(names[5] == "return_gift"@ && names[5].len() > 0 && !is_header_noise(names[5].last()));
    if key == header_key("回礼"@) || key == header_key("回赠"@) || key == header_key("回敬"@) || key == header_key("还礼"@) || key == header_key("return gift"@) || key == header_key("return_gift"@) {
        let n = if key == header_key("回礼"@) {
            0int
        } else if key == header_key("回赠"@) {
            1
        } else if key == header_key("回敬"@) {
            2
        } else if key == header_key("还礼"@) {
            3
        } else if key == header_key("return gift"@) {
            4
        } else {
            5
        };
        lemma_title_is_alias(t, names, n);
        lemma_found_no_later(h, names, None, i, 0);
    }
}

/// A sheet with a column titled 人物标签, 标签, 人物分类, 分类, 关系, tag, tags, label, labels (in any letter case, with spaces
/// or brackets around it) has the tag column: that column or one before it.
pub proof fn law_tag_titles(sheet: ParsedSheet, r: SheetAnalysis, i: int)
    requires
        is_auto_analysis(sheet, r),
        0 <= i < sheet.headers@.len(),
    ensures
        ({
            let key = header_key(sheet.headers@[i]@);
            ||| key == header_key("人物标签"@)
            ||| key == header_key("标签"@)
            ||| key == header_key("人物分类"@)
            ||| key == header_key("分类"@)
            ||| key == header_key("关系"@)
            ||| key == header_key("tag"@)
            ||| key == header_key("tags"@)
            ||| key == header_key("label"@)
            ||| key == header_key("labels"@)
        }) ==> (r.tag_index matches Some(j) && j <= i),
{
    let h = strings_view(sheet.headers@);
    let t = h[i];
    assert(t == sheet.headers@[i]@);
    let key = header_key(t);
    reveal_strlit("人物标签");
    reveal_strlit("标签");
    reveal_strlit("人物分类");
    reveal_strlit("分类");
    reveal_strlit("关系");
    reveal_strlit("tag");
    reveal_strlit("tags");
    reveal_strlit("label");
    reveal_strlit("labels");
    let names = spec_tag_aliases();
    assert(names[0] == "人物标签"@ && names[0].len() > 0 && !is_header_noise(names[0].last()));
    assert(names[1] == "标签"@ && names[1].len() > 0 && !is_header_noise(names[1].last()));
    assert(names[2] == "人物分类"@ && names[2].len() > 0 && !is_header_noise(names[2].last()));
    assert(names[3] == "分类"@ && names[3].len() > 0 && !is_header_noise(names[3].last()));
    assert(names[4] == "关系"@ && names[4].len() > 0 && !is_header_noise(names[4].last()));
    assert(names[5] == "tag"@ && names[5].len() > 0 && !is_header_noise(names[5].last()));
    assert(names[6] == "tags"@ && names[6].len() > 0 && !is_header_noise(names[6].last()));
    assert(names[7] == "label"@ && names[7].len() > 0 && !is_header_noise(names[7].last()));
    assert(names[8] == "labels"@ && names[8].len() > 0 && !is_header_noise(names[8].last()));
    if key == header_key("人物标签"@) || key == header_key("标签"@) || key == header_key("人物分类"@) || key == header_key("分类"@) || key == header_key("关系"@) || key == header_key("tag"@) || key == header_key("tags"@) || key == header_key("label"@) || key == header_key("labels"@) {
        let n = if key == header_key("人物标签"@) {
            0int
        } else if key == header_key("标签"@) {
            1
        } else if key == header_key("人物分类"@) {
            2
        } else if key == header_key("分类"@) {
            3
        } else if key == header_key("关系"@) {
            4
        } else if key == header_key("tag"@) {
            5
        } else if key == header_key("tags"@) {
            6
        } else if key == header_key("label"@) {
            7
        } else {
            8
        };
        lemma_title_is_alias(t, names, n);
        lemma_found_no_later(h, names, None, i, 0);
    }
}

} // verus!
