//! Searching gift entries, and the paths of the vaults a search covers.
use vstd::prelude::*;
use crate::audit::{cents_chars, cents_of_text, whole_yuan_chars, whole_yuan_text};
use crate::models::{GiftEntry, SearchHit, SearchResponse, SearchVaultSummary};
use crate::text::{
    ascii_lower, chars_eq, contains_chars, contains_seq, keep, lemma_keep_step, lemma_take_full,
    owned, slice_range, starts_with, starts_with_chars, std_str_lowercase, str_chars,
    str_lowercase, string_from_chars, strings_view, to_ascii_lower, trim, trim_chars,
};

verus! {

/// Characters a search ignores: currency signs, separators and spaces.
pub open spec fn is_search_noise(c: char) -> bool {
    c == '¥' || c == '￥' || c == ',' || c == '.' || c == ' '
}

/// The form in which a query is compared: trimmed, in lower case, without
/// currency signs, separators and spaces.
pub open spec fn spec_normalized_search(s: Seq<char>) -> Seq<char> {
    keep(std_str_lowercase(trim(s)), |c: char| !is_search_noise(c))
}

/// The form in which a query is compared.
pub fn normalized_search(value: &str) -> (r: String)
    ensures
        r@ == spec_normalized_search(value@),
{
    let c = str_chars(value);
    let t = trim_chars(&c);
    let ts = string_from_chars(&t);
    let lower = str_lowercase(ts.as_str());
    let l = str_chars(lower.as_str());
    let ghost p = |c: char| !is_search_noise(c);
    let mut out: Vec<char> = Vec::new();
    let mut i: usize = 0;
    while i < l.len()
        invariant
            i <= l@.len(),
            p == (|c: char| !is_search_noise(c)),
            out@ == keep(l@.take(i as int), p),
        decreases l@.len() - i,
    {
        proof {
            lemma_keep_step(l@, p, i as int);
        }
        let ch = l[i];
        if !(ch == '¥' || ch == '￥' || ch == ',' || ch == '.' || ch == ' ') {
            out.push(ch);
        }
        i = i + 1;
    }
    proof {
        lemma_take_full(l@);
    }
    string_from_chars(&out)
}

/// The text of an optional field, empty when missing.
pub open spec fn field_text(o: Option<String>) -> Seq<char> {
    match o {
        Some(s) => s@,
        None => Seq::empty(),
    }
}

/// The searchable text fields of an entry with their labels, in report order.
pub open spec fn searchable_fields(e: GiftEntry, book_title: Seq<char>) -> Seq<(Seq<char>, Seq<char>)> {
    seq![
        ("姓名"@, e.person_name@),
        ("支付方式"@, e.payment_method@),
        ("地址"@, field_text(e.address)),
        ("备注"@, field_text(e.note)),
        ("回礼"@, field_text(e.return_gift)),
        ("登记日期"@, e.received_at@),
        ("礼金簿"@, book_title),
    ]
}

/// The labels of the text fields whose lower-case text holds `q`, for the first `k` fields.
pub open spec fn matching_labels(fields: Seq<(Seq<char>, Seq<char>)>, q: Seq<char>, k: int) -> Seq<Seq<char>>
    decreases k,
{
    if k <= 0 || k > fields.len() {
        Seq::empty()
    } else {
        let prev = matching_labels(fields, q, k - 1);
        if contains_seq(std_str_lowercase(fields[k - 1].1), q) {
            prev.push(fields[k - 1].0)
        } else {
            prev
        }
    }
}

/// Some tag name, in lower case, holds `q`.
pub open spec fn tag_matches(tags: Seq<Seq<char>>, q: Seq<char>) -> bool {
    exists|i: int| 0 <= i < tags.len() && contains_seq(std_str_lowercase(#[trigger] tags[i]), q)
}

/// The amount as searched: whole yuan and two-digit fen run together, or the whole yuan alone.
pub open spec fn amount_matches(amount_fen: i64, q: Seq<char>) -> bool {
    contains_seq(whole_yuan_text(amount_fen as int) + cents_of_text(amount_fen as int), q)
        || contains_seq(whole_yuan_text(amount_fen as int), q)
}

/// The labels of the fields of an entry that match a query, in the order
/// name, payment method, address, note, return gift, date, book, tags, amount.
pub open spec fn spec_entry_match_fields(e: GiftEntry, book_title: Seq<char>, query: Seq<char>) -> Seq<Seq<char>> {
    let q = spec_normalized_search(query);
    if q.len() == 0 {
        Seq::empty()
    } else {
        let fields = searchable_fields(e, book_title);
        matching_labels(fields, q, 7) + (if tag_matches(strings_view(e.tag_names@), q) {
            seq!["标签"@]
        } else {
            Seq::empty()
        }) + (if amount_matches(e.amount_fen, q) {
            seq!["金额"@]
        } else {
            Seq::empty()
        })
    }
}

/// The text of an optional field.
fn field_str(o: &Option<String>) -> (r: &str)
    ensures
        r@ == field_text(*o),
{
    match o {
        Some(s) => s.as_str(),
        None => {
            proof {
                reveal_strlit("");
            }
            ""
        },
    }
}

/// Whether the lower-case form of `value` holds `q`.
fn lower_contains(value: &str, q: &[char]) -> (r: bool)
    ensures
        r == contains_seq(std_str_lowercase(value@), q@),
{
    let lower = str_lowercase(value);
    let l = str_chars(lower.as_str());
    contains_chars(&l, q)
}

/// The labels of the fields of a gift entry that match a search query.
pub fn entry_match_fields(entry: &GiftEntry, book_title: &str, query: &str) -> (r: Vec<String>)
    ensures
        strings_view(r@) == spec_entry_match_fields(*entry, book_title@, query@),
{
    let qs = normalized_search(query);
    let q = str_chars(qs.as_str());
    if q.len() == 0 {
        let r: Vec<String> = Vec::new();
        assert(strings_view(r@) =~= Seq::<Seq<char>>::empty());
        return r;
    }
    let ghost fields = searchable_fields(*entry, book_title@);
    let labels = vec!["姓名", "支付方式", "地址", "备注", "回礼", "登记日期", "礼金簿"];
    let values = vec![
        entry.person_name.as_str(),
        entry.payment_method.as_str(),
        field_str(&entry.address),
        field_str(&entry.note),
        field_str(&entry.return_gift),
        entry.received_at.as_str(),
        book_title,
    ];
    assert(forall|k: int| 0 <= k < 7 ==> #[trigger] fields[k].0 == labels@[k]@ && fields[k].1 == values@[k]@);
    let mut out: Vec<String> = Vec::new();
    let mut k: usize = 0;
    while k < 7
        invariant
            k <= 7,
            labels@.len() == 7,
            values@.len() == 7,
            fields == searchable_fields(*entry, book_title@),
            q@ == spec_normalized_search(query@),
            forall|j: int| 0 <= j < 7 ==> #[trigger] fields[j].0 == labels@[j]@ && fields[j].1 == values@[j]@,
            strings_view(out@) == matching_labels(fields, q@, k as int),
        decreases 7 - k,
    {
        let ghost before = strings_view(out@);
        assert(fields[k as int].0 == labels@[k as int]@ && fields[k as int].1 == values@[k as int]@);
        if lower_contains(values[k], &q) {
            out.push(owned(labels[k]));
            assert(strings_view(out@) =~= before.push(fields[k as int].0));
        }
        assert(strings_view(out@) =~= matching_labels(fields, q@, k as int + 1));
        k = k + 1;
    }
    let ghost after_text = strings_view(out@);
    let ghost tv = strings_view(entry.tag_names@);
    let mut any_tag = false;
    let mut t: usize = 0;
    while t < entry.tag_names.len() && !any_tag
        invariant
            t <= entry.tag_names@.len(),
            tv == strings_view(entry.tag_names@),
            any_tag ==> tag_matches(tv, q@),
            !any_tag ==> forall|j: int| 0 <= j < t ==> !contains_seq(std_str_lowercase(#[trigger] tv[j]), q@),
        decreases entry.tag_names@.len() - t + if any_tag {
            0int
        } else {
            1int
        },
    {
        if lower_contains(entry.tag_names[t].as_str(), &q) {
            any_tag = true;
            assert(contains_seq(std_str_lowercase(tv[t as int]), q@));
        } else {
            t = t + 1;
        }
    }
    if any_tag {
        out.push(owned("标签"));
    }
    let ghost after_tags = strings_view(out@);
    assert(after_tags =~= after_text + (if tag_matches(tv, q@) {
        seq!["标签"@]
    } else {
        Seq::empty()
    }));
    let whole = whole_yuan_chars(entry.amount_fen);
    let cents = cents_chars(entry.amount_fen);
    let mut amount = slice_range(&whole, 0, whole.len());
    crate::text::extend_chars(&mut amount, &cents);
    assert(whole@.subrange(0, whole@.len() as int) =~= whole@);
    if contains_chars(&amount, &q) || contains_chars(&whole, &q) {
        out.push(owned("金额"));
    }
    assert(strings_view(out@) =~= spec_entry_match_fields(*entry, book_title@, query@));
    out
}

// ---------------------------------------------------------------------------
// Vault paths
// ---------------------------------------------------------------------------

/// A path as shown to people: without the Windows extended-length marker,
/// `\\?\UNC\server\…` shown as `\\server\…`.
pub open spec fn spec_displayable_path(p: Seq<char>) -> Seq<char> {
    let unc = "\\\\?\\UNC\\"@;
    let ext = "\\\\?\\"@;
    if starts_with(p, unc) {
        "\\\\"@ + p.skip(unc.len() as int)
    } else if starts_with(p, ext) {
        p.skip(ext.len() as int)
    } else {
        p
    }
}

/// A path as shown to people, without the Windows extended-length marker.
pub fn displayable_path(path: &str) -> (r: String)
    ensures
        r@ == spec_displayable_path(path@),
{
    let p = str_chars(path);
    let unc = str_chars("\\\\?\\UNC\\");
    let ext = str_chars("\\\\?\\");
    if starts_with_chars(&p, &unc) {
        let mut v = str_chars("\\\\");
        let rest = slice_range(&p, unc.len(), p.len());
        assert(rest@ =~= p@.skip(unc@.len() as int));
        crate::text::extend_chars(&mut v, &rest);
        return string_from_chars(&v);
    }
    if starts_with_chars(&p, &ext) {
        let rest = slice_range(&p, ext.len(), p.len());
        assert(rest@ =~= p@.skip(ext@.len() as int));
        return string_from_chars(&rest);
    }
    owned(path)
}

/// Backslashes turned into slashes.
pub open spec fn slash_char(c: char) -> char {
    if c == '\\' {
        '/'
    } else {
        c
    }
}

/// The form in which two paths are compared: as displayed, with `/`
/// separators, in ASCII lower case.
pub open spec fn spec_comparable_path(p: Seq<char>) -> Seq<char> {
    ascii_lower(spec_displayable_path(p).map_values(|c: char| slash_char(c)))
}

fn comparable_chars(path: &str) -> (r: Vec<char>)
    ensures
        r@ == spec_comparable_path(path@),
{
    let d = displayable_path(path);
    let c = str_chars(d.as_str());
    let mut v: Vec<char> = Vec::new();
    let mut i: usize = 0;
    while i < c.len()
        invariant
            i <= c@.len(),
            v@ == c@.take(i as int).map_values(|c: char| slash_char(c)),
        decreases c@.len() - i,
    {
        v.push(if c[i] == '\\' {
            '/'
        } else {
            c[i]
        });
        assert(v@ =~= c@.take(i as int + 1).map_values(|c: char| slash_char(c)));
        i = i + 1;
    }
    proof {
        lemma_take_full(c@);
    }
    to_ascii_lower(&v)
}

/// The form in which two paths are compared.
pub fn comparable_path(path: &str) -> (r: String)
    ensures
        r@ == spec_comparable_path(path@),
{
    let c = comparable_chars(path);
    string_from_chars(&c)
}

/// The paths whose comparable form is new among those before them, for the first `k` paths.
pub open spec fn distinct_paths(paths: Seq<Seq<char>>, k: int) -> Seq<Seq<char>>
    decreases k,
{
    if k <= 0 || k > paths.len() {
        Seq::empty()
    } else {
        let prev = distinct_paths(paths, k - 1);
        let p = paths[k - 1];
        if exists|j: int| 0 <= j < prev.len() && spec_comparable_path(#[trigger] prev[j]) == spec_comparable_path(p) {
            prev
        } else {
            prev.push(p)
        }
    }
}

/// The vaults a search covers. `opened` are the vaults opened in this
/// session (canonical paths) and `requested` the canonical form of each
/// requested path, `None` where it could not be resolved: without opened
/// vaults the active one; without a request every opened vault once; else
/// the opened vaults that were requested.
pub open spec fn spec_search_paths(requested: Seq<Option<Seq<char>>>, opened: Seq<Seq<char>>, active: Seq<char>) -> Seq<Seq<char>> {
    let unique = distinct_paths(opened, opened.len() as int);
    if unique.len() == 0 {
        seq![active]
    } else if requested.len() == 0 {
        unique
    } else {
        keep(unique, |p: Seq<char>| exists|j: int| 0 <= j < requested.len() && request_key_is(#[trigger] requested[j], spec_comparable_path(p)))
    }
}

/// A requested path was resolved and has the comparable form `k`.
pub open spec fn request_key_is(request: Option<Seq<char>>, k: Seq<char>) -> bool {
    match request {
        Some(r) => spec_comparable_path(r) == k,
        None => false,
    }
}

/// Some key of the list is `k`.
pub open spec fn key_listed(keys: Seq<Vec<char>>, k: Seq<char>) -> bool {
    exists|m: int| 0 <= m < keys.len() && #[trigger] keys[m]@ == k
}

/// One of the first `j` requests resolves to the comparable form `k`.
pub open spec fn key_requested(rv: Seq<Option<Seq<char>>>, j: int, k: Seq<char>) -> bool {
    exists|m: int| 0 <= m < j && request_key_is(#[trigger] rv[m], k)
}

/// The requested paths by their text.
pub open spec fn requested_view(r: Seq<Option<String>>) -> Seq<Option<Seq<char>>> {
    r.map_values(|o: Option<String>| match o {
        Some(s) => Some(s@),
        None => None,
    })
}

/// Whether some key in `keys` equals `k`.
fn has_key(keys: &Vec<Vec<char>>, k: &[char]) -> (r: bool)
    ensures
        r == exists|j: int| 0 <= j < keys@.len() && #[trigger] keys@[j]@ == k@,
{
    let mut j: usize = 0;
    while j < keys.len()
        invariant
            j <= keys@.len(),
            forall|m: int| 0 <= m < j ==> #[trigger] keys@[m]@ != k@,
        decreases keys@.len() - j,
    {
        if chars_eq(&keys[j], k) {
            return true;
        }
        j = j + 1;
    }
    false
}

/// The vaults that a search covers.
pub fn resolve_opened_search_paths(requested_paths: &[Option<String>], opened_paths: &[String], active_path: &str) -> (r: Vec<String>)
    ensures
        strings_view(r@) == spec_search_paths(requested_view(requested_paths@), strings_view(opened_paths@), active_path@),
{
    let ghost ov = strings_view(opened_paths@);
    let mut opened: Vec<String> = Vec::new();
    let mut keys: Vec<Vec<char>> = Vec::new();
    let mut i: usize = 0;
    while i < opened_paths.len()
        invariant
            i <= opened_paths@.len(),
            ov == strings_view(opened_paths@),
            strings_view(opened@) == distinct_paths(ov, i as int),
            keys@.len() == opened@.len(),
            forall|m: int| 0 <= m < keys@.len() ==> #[trigger] keys@[m]@ == spec_comparable_path(opened@[m]@),
        decreases opened_paths@.len() - i,
    {
        let key = comparable_chars(opened_paths[i].as_str());
        let ghost prev = strings_view(opened@);
        assert(ov[i as int] == opened_paths@[i as int]@);
        if !has_key(&keys, &key) {
            assert forall|j: int| 0 <= j < prev.len() implies spec_comparable_path(#[trigger] prev[j]) != spec_comparable_path(ov[i as int]) by {
                assert(keys@[j]@ == spec_comparable_path(opened@[j]@));
                assert(prev[j] == opened@[j]@);
            }
            opened.push(opened_paths[i].clone());
            keys.push(key);
            assert(strings_view(opened@) =~= prev.push(ov[i as int]));
        } else {
            assert(exists|j: int| 0 <= j < prev.len() && spec_comparable_path(#[trigger] prev[j]) == spec_comparable_path(ov[i as int])) by {
                let j = choose|j: int| 0 <= j < keys@.len() && #[trigger] keys@[j]@ == key@;
                assert(prev[j] == opened@[j]@);
            }
        }
        i = i + 1;
    }
    let ghost unique = strings_view(opened@);
    if opened.len() == 0 {
        let mut r: Vec<String> = Vec::new();
        r.push(owned(active_path));
        assert(strings_view(r@) =~= seq![active_path@]);
        return r;
    }
    if requested_paths.len() == 0 {
        return opened;
    }
    let ghost rv = requested_view(requested_paths@);
    let mut requested_keys: Vec<Vec<char>> = Vec::new();
    let mut j: usize = 0;
    while j < requested_paths.len()
        invariant
            j <= requested_paths@.len(),
            rv == requested_view(requested_paths@),
            forall|k: Seq<char>| #[trigger] key_listed(requested_keys@, k) <==> key_requested(rv, j as int, k),
        decreases requested_paths@.len() - j,
    {
        let ghost before = requested_keys@;
        match &requested_paths[j] {
            Some(p) => {
                let key = comparable_chars(p.as_str());
                requested_keys.push(key);
                assert forall|k: Seq<char>| #[trigger] key_listed(requested_keys@, k) <==> key_requested(rv, j + 1, k) by {
                    if key_requested(rv, j + 1, k) {
                        let m = choose|m: int| 0 <= m < j + 1 && request_key_is(#[trigger] rv[m], k);
                        if m == j {
                            assert(requested_keys@[before.len() as int]@ == k);
                        } else {
                            assert(key_requested(rv, j as int, k));
                            assert(key_listed(before, k));
                            let m2 = choose|m2: int| 0 <= m2 < before.len() && #[trigger] before[m2]@ == k;
                            assert(requested_keys@[m2]@ == k);
                        }
                    }
                    if key_listed(requested_keys@, k) {
                        let m = choose|m: int| 0 <= m < requested_keys@.len() && #[trigger] requested_keys@[m]@ == k;
                        if m == before.len() {
                            assert(request_key_is(rv[j as int], k));
                        } else {
                            assert(before[m]@ == k);
                            assert(key_listed(before, k));
                        }
                    }
                }
            },
            None => {
                assert forall|k: Seq<char>| #[trigger] key_listed(requested_keys@, k) <==> key_requested(rv, j + 1, k) by {
                    if key_requested(rv, j + 1, k) {
                        let m = choose|m: int| 0 <= m < j + 1 && request_key_is(#[trigger] rv[m], k);
                        assert(m != j);
                        assert(key_requested(rv, j as int, k));
                    }
                }
            },
        }
        j = j + 1;
    }
    let ghost pred = |p: Seq<char>| exists|m: int| 0 <= m < rv.len() && request_key_is(#[trigger] rv[m], spec_comparable_path(p));
    let mut out: Vec<String> = Vec::new();
    let mut k: usize = 0;
    while k < opened.len()
        invariant
            k <= opened@.len(),
            unique == strings_view(opened@),
            keys@.len() == opened@.len(),
            forall|m: int| 0 <= m < keys@.len() ==> #[trigger] keys@[m]@ == spec_comparable_path(opened@[m]@),
            rv == requested_view(requested_paths@),
            forall|kk: Seq<char>| #[trigger] key_listed(requested_keys@, kk) <==> key_requested(rv, rv.len() as int, kk),
            pred == (|p: Seq<char>| exists|m: int| 0 <= m < rv.len() && request_key_is(#[trigger] rv[m], spec_comparable_path(p))),
            strings_view(out@) == keep(unique.take(k as int), pred),
        decreases opened@.len() - k,
    {
        proof {
            lemma_keep_step(unique, pred, k as int);
        }
        assert(unique[k as int] == opened@[k as int]@);
        assert(key_listed(requested_keys@, keys@[k as int]@) <==> key_requested(rv, rv.len() as int, keys@[k as int]@));
        if has_key(&requested_keys, &keys[k]) {
            out.push(opened[k].clone());
            assert(strings_view(out@) =~= keep(unique.take(k as int), pred).push(unique[k as int]));
        }
        k = k + 1;
    }
    proof {
        lemma_take_full(unique);
    }
    out
}

} // verus!

verus! {

// ---------------------------------------------------------------------------
// Searching one ledger
// ---------------------------------------------------------------------------

/// The title of the gift book `id`, searching `titles` from position `k`.
pub open spec fn book_title_of(titles: Seq<(Seq<char>, Seq<char>)>, id: Seq<char>, k: int) -> Option<Seq<char>>
    decreases titles.len() - k,
{
    if k < 0 || k >= titles.len() {
        None
    } else if titles[k].0 == id {
        Some(titles[k].1)
    } else {
        book_title_of(titles, id, k + 1)
    }
}

/// The gift books by their ids and titles.
pub open spec fn titles_view(t: Seq<(String, String)>) -> Seq<(Seq<char>, Seq<char>)> {
    t.map_values(|p: (String, String)| (p.0@, p.1@))
}

/// The hits among `entries`, in order: each entry of a gift book that is
/// there (in `titles`) and that matches the query, with the book title and
/// the labels of the matching fields.
pub open spec fn spec_vault_hits(entries: Seq<GiftEntry>, titles: Seq<(Seq<char>, Seq<char>)>, query: Seq<char>) -> Seq<(GiftEntry, Seq<char>, Seq<Seq<char>>)>
    decreases entries.len(),
{
    if entries.len() == 0 {
        Seq::empty()
    } else {
        let prev = spec_vault_hits(entries.drop_last(), titles, query);
        let e = entries.last();
        match book_title_of(titles, e.book_id@, 0) {
            Some(t) => if spec_entry_match_fields(e, t, query).len() > 0 {
                prev.push((e, t, spec_entry_match_fields(e, t, query)))
            } else {
                prev
            },
            None => prev,
        }
    }
}

/// The hits by their entries, book titles and matched fields.
pub open spec fn hits_view(h: Seq<SearchHit>) -> Seq<(GiftEntry, Seq<char>, Seq<Seq<char>>)> {
    h.map_values(|x: SearchHit| (x.entry, x.book_title@, strings_view(x.matched_fields@)))
}

/// The title of the gift book `id`.
fn find_book_title(titles: &[(String, String)], id: &str) -> (r: Option<String>)
    ensures
        match book_title_of(titles_view(titles@), id@, 0) {
            Some(t) => r matches Some(x) && x@ == t,
            None => r is None,
        },
{
    let ghost tv = titles_view(titles@);
    let key = str_chars(id);
    let mut i: usize = 0;
    while i < titles.len()
        invariant
            i <= titles@.len(),
            tv == titles_view(titles@),
            key@ == id@,
            book_title_of(tv, id@, 0) == book_title_of(tv, id@, i as int),
        decreases titles@.len() - i,
    {
        let k = str_chars(titles[i].0.as_str());
        assert(tv[i as int] == (titles@[i as int].0@, titles@[i as int].1@));
        if crate::text::chars_eq(&k, &key) {
            return Some(titles[i].1.clone());
        }
        i = i + 1;
    }
    None
}

/// The hits of a query among the entries of one ledger, shown as the
/// ledger `vault_path` named `vault_name`; entries whose gift book is not
/// among `titles` (id, title) are left out.
pub fn search_in_vault(
    entries: Vec<GiftEntry>,
    titles: &[(String, String)],
    query: &str,
    vault_path: &str,
    vault_name: &str,
) -> (r: Vec<SearchHit>)
    ensures
        hits_view(r@) == spec_vault_hits(entries@, titles_view(titles@), query@),
        forall|i: int| 0 <= i < r@.len() ==> (#[trigger] r@[i]).vault_path@ == vault_path@ && r@[i].vault_name@ == vault_name@,
{
    let ghost orig = entries@;
    let ghost tv = titles_view(titles@);
    assert(orig.len() == entries.len());
    let mut rest = entries;
    let mut hits: Vec<SearchHit> = Vec::new();
    let mut k: usize = 0;
    while rest.len() > 0
        invariant
            k <= orig.len(),
            orig.len() <= usize::MAX,
            rest@ == orig.skip(k as int),
            tv == titles_view(titles@),
            hits_view(hits@) == spec_vault_hits(orig.take(k as int), tv, query@),
            forall|i: int| 0 <= i < hits@.len() ==> (#[trigger] hits@[i]).vault_path@ == vault_path@ && hits@[i].vault_name@ == vault_name@,
        decreases rest@.len(),
    {
        let ghost before = hits_view(hits@);
        let e = rest.remove(0);
        proof {
            assert(orig.skip(k as int)[0] == orig[k as int]);
            assert(rest@ =~= orig.skip(k as int + 1));
            let t = orig.take(k as int + 1);
            assert(t.drop_last() =~= orig.take(k as int));
            assert(t.last() == e);
        }
        match find_book_title(titles, e.book_id.as_str()) {
            Some(title) => {
                let fields = entry_match_fields(&e, title.as_str(), query);
                if fields.len() > 0 {
                    hits.push(SearchHit {
                        entry: e,
                        vault_path: owned(vault_path),
                        vault_name: owned(vault_name),
                        book_title: title,
                        matched_fields: fields,
                    });
                    assert(hits_view(hits@) =~= before.push(hits_view(hits@).last()));
                }
            },
            None => {},
        }
        k = k + 1;
    }
    assert(orig.take(k as int) =~= orig) by {
        assert(orig.skip(k as int).len() == 0);
    }
    hits
}

/// At most this many hits are returned.
pub const MAX_SEARCH_RESULTS: usize = 100;

/// The answer to a search: the first hundred hits, whether more were
/// found, how many, and what each ledger gave.
pub fn search_response(hits: Vec<SearchHit>, searched_vaults: Vec<SearchVaultSummary>) -> (r: SearchResponse)
    ensures
        r.total_matches == hits@.len(),
        r.truncated == (hits@.len() > 100),
        r.results@ == hits@.take(if hits@.len() > 100 { 100 } else { hits@.len() as int }),
        r.searched_vaults@ == searched_vaults@,
{
    let total_matches = hits.len();
    let truncated = total_matches > MAX_SEARCH_RESULTS;
    let mut results = hits;
    results.truncate(MAX_SEARCH_RESULTS);
    SearchResponse { results, truncated, total_matches, searched_vaults }
}

/// The answer to an empty search: nothing searched, nothing found.
pub fn empty_search_response() -> (r: SearchResponse)
    ensures
        r.results@.len() == 0,
        !r.truncated,
        r.total_matches == 0,
        r.searched_vaults@.len() == 0,
{
    SearchResponse { results: Vec::new(), truncated: false, total_matches: 0, searched_vaults: Vec::new() }
}

} // verus!

verus! {

/// The labels found among the first `k` fields are exactly those of the
/// fields among them whose lower-case text holds the query.
proof fn lemma_matching_labels(fields: Seq<(Seq<char>, Seq<char>)>, q: Seq<char>, k: int)
    requires
        0 <= k <= fields.len(),
    ensures
        forall|i: int|
            0 <= i < k && contains_seq(std_str_lowercase(#[trigger] fields[i].1), q)
                ==> matching_labels(fields, q, k).contains(fields[i].0),
        forall|l: Seq<char>|
            #[trigger] matching_labels(fields, q, k).contains(l) ==> exists|i: int|
                0 <= i < k && fields[i].0 == l && contains_seq(std_str_lowercase(#[trigger] fields[i].1), q),
    decreases k,
{
    if k > 0 {
        lemma_matching_labels(fields, q, k - 1);
        let prev = matching_labels(fields, q, k - 1);
        if contains_seq(std_str_lowercase(fields[k - 1].1), q) {
            assert(matching_labels(fields, q, k) == prev.push(fields[k - 1].0));
            assert(prev.push(fields[k - 1].0)[prev.len() as int] == fields[k - 1].0);
            assert forall|i: int|
                0 <= i < k && contains_seq(std_str_lowercase(#[trigger] fields[i].1), q)
                    implies matching_labels(fields, q, k).contains(fields[i].0) by {
                if i < k - 1 {
                    let j = choose|j: int| 0 <= j < prev.len() && prev[j] == fields[i].0;
                    assert(prev.push(fields[k - 1].0)[j] == fields[i].0);
                }
            }
            assert forall|l: Seq<char>|
                #[trigger] matching_labels(fields, q, k).contains(l) implies exists|i: int|
                    0 <= i < k && fields[i].0 == l && contains_seq(std_str_lowercase(#[trigger] fields[i].1), q) by {
                let pp = prev.push(fields[k - 1].0);
                let j = choose|j: int| 0 <= j < pp.len() && #[trigger] pp[j] == l;
                if j < prev.len() {
                    assert(pp[j] == prev[j]);
                    assert(prev[j] == l);
                    assert(prev.contains(l));
                }
            }
        }
    }
}

/// Search ignores letter case: for a query that is not empty once
/// normalized (trimmed, lower-cased, without currency signs, separators and
/// spaces), a text field of an entry is reported when its lower-case text
/// holds the normalized query, and every label reported other than those of
/// the tags and the amount is that of such a field. A field written with capitals, such as the name
/// "Wang Fang", is found by "wang" or "Wang" alike.
pub proof fn law_search_ignores_case(e: GiftEntry, book_title: Seq<char>, query: Seq<char>)
    requires
        spec_normalized_search(query).len() > 0,
    ensures
        ({
            let q = spec_normalized_search(query);
            let r = spec_entry_match_fields(e, book_title, query);
            &&& contains_seq(std_str_lowercase(e.person_name@), q) ==> r.contains("姓名"@)
            &&& contains_seq(std_str_lowercase(e.payment_method@), q) ==> r.contains("支付方式"@)
            &&& contains_seq(std_str_lowercase(field_text(e.address)), q) ==> r.contains("地址"@)
            &&& contains_seq(std_str_lowercase(field_text(e.note)), q) ==> r.contains("备注"@)
            &&& contains_seq(std_str_lowercase(field_text(e.return_gift)), q) ==> r.contains("回礼"@)
            &&& contains_seq(std_str_lowercase(e.received_at@), q) ==> r.contains("登记日期"@)
            &&& contains_seq(std_str_lowercase(book_title), q) ==> r.contains("礼金簿"@)
            &&& forall|i: int| 0 <= i < e.tag_names@.len() && contains_seq(
                std_str_lowercase(#[trigger] e.tag_names@[i]@),
                q,
            ) ==> r.contains("标签"@)
            &&& forall|l: Seq<char>| #[trigger] r.contains(l) && l != "标签"@ && l != "金额"@ ==> exists|j: int|
                0 <= j < 7 && searchable_fields(e, book_title)[j].0 == l && contains_seq(
                    std_str_lowercase(#[trigger] searchable_fields(e, book_title)[j].1),
                    q,
                )
        }),
{
    let q = spec_normalized_search(query);
    let fields = searchable_fields(e, book_title);
    let m = matching_labels(fields, q, 7);
    let tags = if tag_matches(strings_view(e.tag_names@), q) {
        seq!["标签"@]
    } else {
        Seq::<Seq<char>>::empty()
    };
    let amount = if amount_matches(e.amount_fen, q) {
        seq!["金额"@]
    } else {
        Seq::<Seq<char>>::empty()
    };
    let r = spec_entry_match_fields(e, book_title, query);
    assert(r == m + tags + amount);
    lemma_matching_labels(fields, q, 7);
    assert forall|l: Seq<char>| m.contains(l) implies r.contains(l) by {
        let j = choose|j: int| 0 <= j < m.len() && m[j] == l;
        assert((m + tags + amount)[j] == l);
    }
    assert(fields[0].0 == "姓名"@ && fields[0].1 == e.person_name@);
    assert(fields[1].0 == "支付方式"@ && fields[1].1 == e.payment_method@);
    assert(fields[2].0 == "地址"@ && fields[2].1 == field_text(e.address));
    assert(fields[3].0 == "备注"@ && fields[3].1 == field_text(e.note));
    assert(fields[4].0 == "回礼"@ && fields[4].1 == field_text(e.return_gift));
    assert(fields[5].0 == "登记日期"@ && fields[5].1 == e.received_at@);
    assert(fields[6].0 == "礼金簿"@ && fields[6].1 == book_title);
    assert forall|i: int| 0 <= i < e.tag_names@.len() && contains_seq(
        std_str_lowercase(#[trigger] e.tag_names@[i]@),
        q,
    ) implies r.contains("标签"@) by {
        let tv = strings_view(e.tag_names@);
        assert(tv[i] == e.tag_names@[i]@);
        assert(tag_matches(tv, q));
        assert((m + tags + amount)[m.len() as int] == "标签"@);
    }
    assert forall|l: Seq<char>| #[trigger] r.contains(l) && l != "标签"@ && l != "金额"@ implies exists|j: int|
        0 <= j < 7 && fields[j].0 == l && contains_seq(std_str_lowercase(#[trigger] fields[j].1), q) by {
        let k = choose|k: int| 0 <= k < r.len() && #[trigger] r[k] == l;
        assert(r[k] == (m + tags + amount)[k]);
        if k < m.len() {
            assert(m[k] == l);
            assert(m.contains(l));
        } else if k < m.len() + tags.len() {
            assert(tags[k - m.len()] == l);
        } else {
            assert(amount[k - m.len() - tags.len()] == l);
        }
    }
}

/// Every character kept by `keep` passes its test.
proof fn lemma_keep_passes(s: Seq<char>, p: spec_fn(char) -> bool)
    ensures
        forall|i: int| 0 <= i < keep(s, p).len() ==> p(#[trigger] keep(s, p)[i]),
    decreases s.len(),
{
    if s.len() > 0 {
        lemma_keep_passes(s.drop_last(), p);
        let k = keep(s.drop_last(), p);
        if p(s.last()) {
            assert forall|i: int| 0 <= i < k.push(s.last()).len() implies p(#[trigger] k.push(s.last())[i]) by {
                if i < k.len() {
                    assert(k.push(s.last())[i] == k[i]);
                }
            }
        }
    }
}

/// A query is compared without currency signs, thousands separators, dots
/// and spaces: its normalized form holds none of `¥`, `￥`, `,`, `.`, ` `.
pub proof fn law_query_without_noise(query: Seq<char>)
    ensures
        forall|i: int| 0 <= i < spec_normalized_search(query).len() ==> {
            let c = #[trigger] spec_normalized_search(query)[i];
            c != '¥' && c != '￥' && c != ',' && c != '.' && c != ' '
        },
{
    lemma_keep_passes(std_str_lowercase(trim(query)), |c: char| !is_search_noise(c));
}

} // verus!
