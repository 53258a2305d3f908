//! Tags: how a tag name is normalized, how a spreadsheet cell is split into
//! tag names, the colours given to new tags, and what an import would do to
//! the tag catalog.
use vstd::prelude::*;
use crate::update::hex_digit;
use crate::text::{
    ascii_lower, char_vecs_view, chars_eq, collapse_whitespace, collapse_ws, lemma_take_full,
    owned, split_chars, split_on, str_chars, string_from_chars, strings_view, to_ascii_lower,
    trim, trim_chars,
};

verus! {

// ---------------------------------------------------------------------------
// Names
// ---------------------------------------------------------------------------

/// The form under which two tag names are the same tag: whitespace runs
/// collapsed to one space, ends trimmed, ASCII letters in lower case.
pub open spec fn spec_normalize_tag_name(s: Seq<char>) -> Seq<char> {
    ascii_lower(collapse_ws(s))
}

/// The form under which two tag names are the same tag.
pub fn normalize_tag_name(value: &str) -> (r: String)
    ensures
        r@ == spec_normalize_tag_name(value@),
{
    let c = str_chars(value);
    let collapsed = collapse_whitespace(&c);
    let lower = to_ascii_lower(&collapsed);
    string_from_chars(&lower)
}

/// The characters that separate tag names in a spreadsheet cell.
pub open spec fn tag_delims() -> Seq<char> {
    seq!['、', '，', ',', '；', ';', '|', '/', '\\', '\n', '\r', '\t']
}

/// Some name of `names` is the tag `key`.
pub open spec fn norm_listed(names: Seq<Seq<char>>, key: Seq<char>) -> bool {
    exists|j: int| 0 <= j < names.len() && spec_normalize_tag_name(#[trigger] names[j]) == key
}

/// The tag names of the pieces of a cell, in order: each piece with its
/// whitespace collapsed, empty ones and repeats of an earlier tag left out.
pub open spec fn gather_tag_names(pieces: Seq<Seq<char>>) -> Seq<Seq<char>>
    decreases pieces.len(),
{
    if pieces.len() == 0 {
        Seq::empty()
    } else {
        let prev = gather_tag_names(pieces.drop_last());
        let display = collapse_ws(pieces.last());
        let key = spec_normalize_tag_name(display);
        if display.len() > 0 && key.len() > 0 && !norm_listed(prev, key) {
            prev.push(display)
        } else {
            prev
        }
    }
}

/// The tag names written in one spreadsheet cell.
pub open spec fn spec_split_tag_names(s: Seq<char>) -> Seq<Seq<char>> {
    gather_tag_names(split_on(s, |c: char| tag_delims().contains(c)))
}

/// Whether one of `keys` equals `key`.
fn key_listed(keys: &Vec<Vec<char>>, key: &Vec<char>) -> (r: bool)
    ensures
        r == exists|j: int| 0 <= j < keys@.len() && #[trigger] keys@[j]@ == key@,
{
    let mut i: usize = 0;
    while i < keys.len()
        invariant
            i <= keys@.len(),
            forall|j: int| 0 <= j < i ==> #[trigger] keys@[j]@ != key@,
        decreases keys@.len() - i,
    {
        if chars_eq(&keys[i], key) {
            return true;
        }
        i = i + 1;
    }
    false
}

/// The tag names written in one spreadsheet cell, in order, each once.
pub fn split_tag_names(value: &str) -> (r: Vec<String>)
    ensures
        strings_view(r@) == spec_split_tag_names(value@),
{
    let chars = str_chars(value);
    let delims: Vec<char> = vec!['、', '，', ',', '；', ';', '|', '/', '\\', '\n', '\r', '\t'];
    assert(delims@ =~= tag_delims());
    let pieces = split_chars(&chars, &delims);
    let ghost pv = char_vecs_view(pieces@);
    assert(pv == split_on(value@, |c: char| tag_delims().contains(c))) by {
        assert((|c: char| delims@.contains(c)) =~= (|c: char| tag_delims().contains(c)));
    }
    let mut names: Vec<String> = Vec::new();
    let mut keys: Vec<Vec<char>> = Vec::new();
    let mut i: usize = 0;
    while i < pieces.len()
        invariant
            i <= pieces@.len(),
            pv == char_vecs_view(pieces@),
            strings_view(names@) == gather_tag_names(pv.take(i as int)),
            keys@.len() == names@.len(),
            forall|j: int| 0 <= j < keys@.len() ==> #[trigger] keys@[j]@ == spec_normalize_tag_name(names@[j]@),
        decreases pieces@.len() - i,
    {
        let display = collapse_whitespace(&pieces[i]);
        let again = collapse_whitespace(&display);
        let key = to_ascii_lower(&again);
        let ghost prev = strings_view(names@);
        proof {
            let t = pv.take(i as int + 1);
            assert(t.drop_last() =~= pv.take(i as int));
            assert(t.last() == pv[i as int]);
        }
        let listed = key_listed(&keys, &key);
        proof {
            if listed {
                let j = choose|j: int| 0 <= j < keys@.len() && #[trigger] keys@[j]@ == key@;
                assert(spec_normalize_tag_name(prev[j]) == key@);
            } else {
                assert forall|j: int| 0 <= j < prev.len() implies spec_normalize_tag_name(#[trigger] prev[j]) != key@ by {
                    assert(keys@[j]@ == spec_normalize_tag_name(names@[j]@));
                }
            }
        }
        if display.len() > 0 && key.len() > 0 && !listed {
            let name = string_from_chars(&display);
            names.push(name);
            keys.push(key);
            assert(strings_view(names@) =~= prev.push(display@));
        }
        i = i + 1;
    }
    proof {
        lemma_take_full(pv);
    }
    names
}

// ---------------------------------------------------------------------------
// Colours
// ---------------------------------------------------------------------------

/// An ASCII hexadecimal digit, either case.
pub open spec fn is_ascii_hex(c: char) -> bool {
    ('0' <= c && c <= '9') || ('a' <= c && c <= 'f') || ('A' <= c && c <= 'F')
}

/// `#` and six hexadecimal digits.
pub open spec fn is_hex_color(t: Seq<char>) -> bool {
    &&& t.len() == 7
    &&& t[0] == '#'
    &&& forall|i: int| 1 <= i < 7 ==> is_ascii_hex(#[trigger] t[i])
}

/// A tag colour as stored: `#rrggbb` in lower case, surrounding
/// whitespace ignored.
pub fn normalize_tag_color(color: &str) -> (r: Result<String, String>)
    ensures
        is_hex_color(trim(color@)) ==> (r matches Ok(v) && v@ == ascii_lower(trim(color@))),
        !is_hex_color(trim(color@)) ==> (r matches Err(e) && e@ == "标签颜色必须是 #RRGGBB 格式"@),
{
    let c = str_chars(color);
    let t = trim_chars(&c);
    let mut valid = t.len() == 7 && t[0] == '#';
    let mut i: usize = 1;
    while i < t.len()
        invariant
            1 <= i,
            i <= t@.len() || t@.len() == 0,
            valid == (t@.len() == 7 && t@[0] == '#' && forall|k: int| 1 <= k < i && k < t@.len() ==> is_ascii_hex(#[trigger] t@[k])),
        decreases t@.len() - i,
    {
        let d = t[i];
        if !(('0' <= d && d <= '9') || ('a' <= d && d <= 'f') || ('A' <= d && d <= 'F')) {
            valid = false;
        }
        i = i + 1;
    }
    if !valid {
        return Err(owned("标签颜色必须是 #RRGGBB 格式"));
    }
    let lower = to_ascii_lower(&t);
    Ok(string_from_chars(&lower))
}

/// The colours given, in this order, to new tags.
pub open spec fn auto_tag_palette() -> Seq<Seq<char>> {
    seq![
        "#0f766e"@, "#2563eb"@, "#b45309"@, "#9f1239"@, "#7c3aed"@, "#047857"@,
        "#be123c"@, "#0369a1"@, "#c2410c"@, "#4d7c0f"@, "#a21caf"@, "#0e7490"@,
    ]
}

/// The colours given, in this order, to new tags.
pub fn auto_tag_colors() -> (r: Vec<String>)
    ensures
        strings_view(r@) == auto_tag_palette(),
{
    let r = vec![
        owned("#0f766e"), owned("#2563eb"), owned("#b45309"), owned("#9f1239"),
        owned("#7c3aed"), owned("#047857"), owned("#be123c"), owned("#0369a1"),
        owned("#c2410c"), owned("#4d7c0f"), owned("#a21caf"), owned("#0e7490"),
    ];
    assert(strings_view(r@) =~= auto_tag_palette());
    r
}

/// The colours in use, in ASCII lower case.
pub open spec fn lower_used(used: Seq<Seq<char>>) -> Set<Seq<char>> {
    used.map_values(|u: Seq<char>| ascii_lower(u)).to_set()
}

/// The first palette colour, from position `k` on, that is not in use.
pub open spec fn first_free_palette(low: Set<Seq<char>>, k: int) -> Option<int>
    decreases 12 - k,
{
    if k >= 12 || k < 0 {
        None
    } else if !low.contains(auto_tag_palette()[k]) {
        Some(k)
    } else {
        first_free_palette(low, k + 1)
    }
}

/// One step of the generator that proposes colours once the palette is
/// used up.
pub open spec fn lcg_next(x: u32) -> u32 {
    vstd::wrapping::u32_specs::wrapping_add(vstd::wrapping::u32_specs::wrapping_mul(x, 1664525u32), 1013904223u32)
}

/// The generator after `k` steps.
pub open spec fn lcg_iter(x: u32, k: nat) -> u32
    decreases k,
{
    if k == 0 {
        x
    } else {
        lcg_next(lcg_iter(x, (k - 1) as nat))
    }
}

/// `#` and the low 24 bits of `seed` as six lower-case hexadecimal digits.
pub open spec fn hex_candidate(seed: u32) -> Seq<char> {
    let v = seed as int % 0x100_0000;
    seq![
        '#',
        hex_digit((v / 0x10_0000) % 16),
        hex_digit((v / 0x1_0000) % 16),
        hex_digit((v / 0x1000) % 16),
        hex_digit((v / 0x100) % 16),
        hex_digit((v / 0x10) % 16),
        hex_digit(v % 16),
    ]
}

/// The candidate after `k + 1` steps from `s0` is not in use.
pub open spec fn free_at(low: Set<Seq<char>>, s0: u32, k: nat) -> bool {
    !low.contains(hex_candidate(lcg_iter(s0, k + 1)))
}

/// Where the generator starts: one more than the number of colours in use.
pub open spec fn lcg_start(low: Set<Seq<char>>) -> u32 {
    ((low.len() as u32) + 1) as u32
}

/// The fewest steps after which the generator proposes a free colour.
pub open spec fn least_free(low: Set<Seq<char>>, s0: u32) -> nat {
    choose|k: nat| free_at(low, s0, k) && forall|j: nat| j < k ==> !free_at(low, s0, j)
}

/// A colour can be found for a new tag: a palette colour is free, or the
/// generator reaches a free colour.
pub open spec fn auto_color_defined(used: Seq<Seq<char>>) -> bool {
    let low = lower_used(used);
    first_free_palette(low, 0) is Some || ((low.len() as u32) < u32::MAX && exists|k: nat|
        free_at(low, lcg_start(low), k))
}

/// The colour for a new tag, given the colours in use.
pub open spec fn spec_next_auto_tag_color(used: Seq<Seq<char>>) -> Seq<char> {
    let low = lower_used(used);
    match first_free_palette(low, 0) {
        Some(k) => auto_tag_palette()[k],
        None => hex_candidate(lcg_iter(lcg_start(low), least_free(low, lcg_start(low)) + 1)),
    }
}

/// A lower-case hexadecimal digit for `d < 16`.
fn hex_digit_char(d: u32) -> (r: char)
    requires
        d < 16,
    ensures
        r == hex_digit(d as int),
{
    if d < 10 {
        ((48 + d) as u8) as char
    } else {
        ((87 + d) as u8) as char
    }
}

/// `#` and the low 24 bits of `seed` in lower-case hexadecimal.
fn hex_color(seed: u32) -> (r: Vec<char>)
    ensures
        r@ == hex_candidate(seed),
{
    let v = seed & 0x00ff_ffff;
    assert(v == seed % 0x100_0000) by (bit_vector)
        requires
            v == seed & 0x00ff_ffff,
    ;
    let mut out: Vec<char> = Vec::new();
    out.push('#');
    out.push(hex_digit_char((v / 0x10_0000) % 16));
    out.push(hex_digit_char((v / 0x1_0000) % 16));
    out.push(hex_digit_char((v / 0x1000) % 16));
    out.push(hex_digit_char((v / 0x100) % 16));
    out.push(hex_digit_char((v / 0x10) % 16));
    out.push(hex_digit_char(v % 16));
    assert(out@ =~= hex_candidate(seed));
    out
}

/// Whether some item of `set` equals `x`.
fn vec_listed(set: &Vec<Vec<char>>, x: &Vec<char>) -> (r: bool)
    ensures
        r == char_vecs_view(set@).contains(x@),
{
    let r = key_listed(set, x);
    proof {
        if r {
            let j = choose|j: int| 0 <= j < set@.len() && #[trigger] set@[j]@ == x@;
            assert(char_vecs_view(set@)[j] == x@);
        } else {
            assert forall|j: int| 0 <= j < char_vecs_view(set@).len() implies char_vecs_view(set@)[j] != x@ by {
                assert(set@[j]@ != x@);
            }
        }
    }
    r
}

/// The colours in use, lower-cased, each once.
fn lowered_colors(used: &[String]) -> (r: Vec<Vec<char>>)
    ensures
        char_vecs_view(r@).no_duplicates(),
        char_vecs_view(r@).to_set() == lower_used(strings_view(used@)),
{
    let ghost uv = strings_view(used@).map_values(|u: Seq<char>| ascii_lower(u));
    let mut out: Vec<Vec<char>> = Vec::new();
    let mut i: usize = 0;
    while i < used.len()
        invariant
            i <= used@.len(),
            uv == strings_view(used@).map_values(|u: Seq<char>| ascii_lower(u)),
            char_vecs_view(out@).no_duplicates(),
            forall|x: Seq<char>| #[trigger] char_vecs_view(out@).contains(x) <==> uv.take(i as int).contains(x),
        decreases used@.len() - i,
    {
        let c = str_chars(used[i].as_str());
        let l = to_ascii_lower(&c);
        assert(uv[i as int] == l@);
        let ghost before = char_vecs_view(out@);
        assert(uv.take(i as int + 1) =~= uv.take(i as int).push(l@));
        let listed = vec_listed(&out, &l);
        if !listed {
            out.push(l);
            assert(char_vecs_view(out@) =~= before.push(l@));
        }
        assert forall|x: Seq<char>| #[trigger] char_vecs_view(out@).contains(x) <==> uv.take(i as int + 1).contains(x) by {
            vstd::seq_lib::lemma_seq_contains_after_push(uv.take(i as int), l@, x);
            if !listed {
                vstd::seq_lib::lemma_seq_contains_after_push(before, l@, x);
            }
        }
        i = i + 1;
    }
    proof {
        lemma_take_full(uv);
        assert(char_vecs_view(out@).to_set() =~= uv.to_set());
    }
    out
}

/// The first palette colour that is not among `lowered`.
fn free_palette_color(lowered: &Vec<Vec<char>>) -> (r: Option<String>)
    ensures
        match first_free_palette(char_vecs_view(lowered@).to_set(), 0) {
            Some(k) => r matches Some(c) && c@ == auto_tag_palette()[k],
            None => r is None,
        },
{
    let ghost low = char_vecs_view(lowered@).to_set();
    let palette = auto_tag_colors();
    assert(palette@.len() == 12) by {
        assert(strings_view(palette@).len() == palette@.len());
    }
    let mut k: usize = 0;
    while k < palette.len()
        invariant
            k <= 12,
            palette@.len() == 12,
            strings_view(palette@) == auto_tag_palette(),
            low == char_vecs_view(lowered@).to_set(),
            first_free_palette(low, 0) == first_free_palette(low, k as int),
        decreases 12 - k,
    {
        let p = str_chars(palette[k].as_str());
        assert(p@ == auto_tag_palette()[k as int]);
        let listed = vec_listed(lowered, &p);
        assert(listed == low.contains(p@));
        if !listed {
            return Some(palette[k].clone());
        }
        k = k + 1;
    }
    None
}

/// The first colour proposed by the generator, from `s0`, that is not
/// among `lowered`.
fn generated_color(lowered: &Vec<Vec<char>>, s0: u32) -> (r: String)
    requires
        exists|k: nat| free_at(char_vecs_view(lowered@).to_set(), s0, k),
    ensures
        r@ == hex_candidate(lcg_iter(s0, least_free(char_vecs_view(lowered@).to_set(), s0) + 1)),
{
    let ghost low = char_vecs_view(lowered@).to_set();
    let ghost w: nat = choose|k: nat| free_at(low, s0, k);
    let ghost mut i: nat = 0;
    let mut seed = s0;
    loop
        invariant
            low == char_vecs_view(lowered@).to_set(),
            free_at(low, s0, w),
            seed == lcg_iter(s0, i),
            i <= w,
            forall|j: nat| j < i ==> !free_at(low, s0, j),
        decreases w - i,
    {
        seed = seed.wrapping_mul(1_664_525).wrapping_add(1_013_904_223);
        assert(seed == lcg_iter(s0, i + 1));
        let candidate = hex_color(seed);
        let listed = vec_listed(lowered, &candidate);
        if !listed {
            assert(free_at(low, s0, i));
            assert(least_free(low, s0) == i) by {
                let k = least_free(low, s0);
                assert(free_at(low, s0, i) && forall|j: nat| j < i ==> !free_at(low, s0, j));
                assert(free_at(low, s0, k) && forall|j: nat| j < k ==> !free_at(low, s0, j));
                if k < i {
                    assert(!free_at(low, s0, k));
                } else if k > i {
                    assert(!free_at(low, s0, i));
                }
            }
            return string_from_chars(&candidate);
        }
        assert(!free_at(low, s0, i));
        proof {
            i = i + 1;
        }
    }
}

/// The colour for a new tag: the first palette colour not in use (case
/// ignored), else the first colour proposed by the generator, started at
/// one more than the number of colours in use, that is not in use.
pub fn next_auto_tag_color(used: &[String]) -> (r: String)
    requires
        auto_color_defined(strings_view(used@)),
    ensures
        r@ == spec_next_auto_tag_color(strings_view(used@)),
{
    let ghost low = lower_used(strings_view(used@));
    let lowered = lowered_colors(used);
    if let Some(c) = free_palette_color(&lowered) {
        return c;
    }
    proof {
        char_vecs_view(lowered@).unique_seq_to_set();
    }
    let count = lowered.len();
    let s0: u32 = (count as u32) + 1;
    assert(s0 == lcg_start(low));
    generated_color(&lowered, s0)
}

// ---------------------------------------------------------------------------
// Tags of a spreadsheet import
// ---------------------------------------------------------------------------

/// A tag of the catalog, found under its normalized name.
#[derive(Debug, Clone)]
pub struct TagCatalogEntry {
    pub id: String,
    pub name: String,
    pub color: String,
}

/// The catalog by its keys, names and colours.
pub open spec fn catalog_view(cat: Seq<(String, TagCatalogEntry)>) -> Seq<(Seq<char>, Seq<char>, Seq<char>)> {
    cat.map_values(|e: (String, TagCatalogEntry)| (e.0@, e.1.name@, e.1.color@))
}

/// No key occurs twice in the catalog.
pub open spec fn catalog_keys_distinct(cat: Seq<(String, TagCatalogEntry)>) -> bool {
    forall|i: int, j: int| 0 <= i < j < cat.len() ==> #[trigger] cat[i].0@ != #[trigger] cat[j].0@
}

/// The name and colour of the catalog tag under `key`, searching from
/// position `k` on.
pub open spec fn catalog_find(cat: Seq<(Seq<char>, Seq<char>, Seq<char>)>, key: Seq<char>, k: int) -> Option<(Seq<char>, Seq<char>)>
    decreases cat.len() - k,
{
    if k < 0 || k >= cat.len() {
        None
    } else if cat[k].0 == key {
        Some((cat[k].1, cat[k].2))
    } else {
        catalog_find(cat, key, k + 1)
    }
}

/// The tag names written in the column `idx` of `rows`, row after row.
pub open spec fn sheet_tag_names(rows: Seq<Seq<Seq<char>>>, idx: int) -> Seq<Seq<char>>
    decreases rows.len(),
{
    if rows.len() == 0 {
        Seq::empty()
    } else {
        sheet_tag_names(rows.drop_last(), idx) + spec_split_tag_names(crate::sheet::cell(rows.last(), idx))
    }
}

/// The names of `all`, each tag once, in the order of first appearance.
pub open spec fn distinct_tag_names(all: Seq<Seq<char>>) -> Seq<Seq<char>>
    decreases all.len(),
{
    if all.len() == 0 {
        Seq::empty()
    } else {
        let prev = distinct_tag_names(all.drop_last());
        if norm_listed(prev, spec_normalize_tag_name(all.last())) {
            prev
        } else {
            prev.push(all.last())
        }
    }
}

/// How many names of `all` are the tag `key`.
pub open spec fn tag_count(all: Seq<Seq<char>>, key: Seq<char>) -> nat
    decreases all.len(),
{
    if all.len() == 0 {
        0
    } else {
        tag_count(all.drop_last(), key) + if spec_normalize_tag_name(all.last()) == key {
            1nat
        } else {
            0nat
        }
    }
}

/// One more tag name `n` previewed: a tag of the catalog is shown as it
/// is; a new tag gets the next free colour, which is then in use.
pub open spec fn plan_step(
    prev: (Seq<(Seq<char>, Seq<char>, bool, nat)>, Seq<Seq<char>>),
    n: Seq<char>,
    all: Seq<Seq<char>>,
    cat: Seq<(Seq<char>, Seq<char>, Seq<char>)>,
) -> (Seq<(Seq<char>, Seq<char>, bool, nat)>, Seq<Seq<char>>) {
    let key = spec_normalize_tag_name(n);
    let count = tag_count(all, key);
    match catalog_find(cat, key, 0) {
        Some(t) => (prev.0.push((t.0, t.1, true, count)), prev.1),
        None => {
            let c = spec_next_auto_tag_color(prev.1);
            (prev.0.push((n, c, false, count)), prev.1.push(c))
        },
    }
}

/// The previews of the first `k` of `names`, and the colours in use after
/// them, starting from the colours `used0`.
pub open spec fn preview_plan(
    names: Seq<Seq<char>>,
    all: Seq<Seq<char>>,
    cat: Seq<(Seq<char>, Seq<char>, Seq<char>)>,
    used0: Seq<Seq<char>>,
    k: nat,
) -> (Seq<(Seq<char>, Seq<char>, bool, nat)>, Seq<Seq<char>>)
    decreases k,
{
    if k == 0 {
        (Seq::empty(), used0)
    } else {
        plan_step(preview_plan(names, all, cat, used0, (k - 1) as nat), names[k - 1], all, cat)
    }
}

/// The colours of the catalog, in lower case.
pub open spec fn catalog_colors(cat: Seq<(Seq<char>, Seq<char>, Seq<char>)>) -> Seq<Seq<char>> {
    cat.map_values(|e: (Seq<char>, Seq<char>, Seq<char>)| ascii_lower(e.2))
}

/// Every new tag among `names` can be given a colour.
pub open spec fn previews_plannable(names: Seq<Seq<char>>, all: Seq<Seq<char>>, cat: Seq<(Seq<char>, Seq<char>, Seq<char>)>) -> bool {
    forall|j: nat|
        j < names.len() && catalog_find(cat, spec_normalize_tag_name(names[j as int]), 0) is None
            ==> auto_color_defined(#[trigger] preview_plan(names, all, cat, catalog_colors(cat), j).1)
}

/// The previews by their names, colours, marks and counts.
pub open spec fn previews_view(v: Seq<crate::models::SpreadsheetTagValuePreview>) -> Seq<(Seq<char>, Seq<char>, bool, nat)> {
    v.map_values(|p: crate::models::SpreadsheetTagValuePreview| (p.name@, p.color@, p.existing, p.count as nat))
}

/// The tag names of one sheet column, row after row.
fn sheet_tag_names_of(rows: &Vec<Vec<String>>, idx: usize) -> (r: Vec<String>)
    ensures
        strings_view(r@) == sheet_tag_names(crate::sheet::rows_view(rows@), idx as int),
{
    let ghost rv = crate::sheet::rows_view(rows@);
    let mut out: Vec<String> = Vec::new();
    let mut i: usize = 0;
    while i < rows.len()
        invariant
            i <= rows@.len(),
            rv == crate::sheet::rows_view(rows@),
            strings_view(out@) == sheet_tag_names(rv.take(i as int), idx as int),
        decreases rows@.len() - i,
    {
        let row = &rows[i];
        let names = if idx < row.len() {
            split_tag_names(row[idx].as_str())
        } else {
            split_tag_names("")
        };
        proof {
            let t = rv.take(i as int + 1);
            assert(t.drop_last() =~= rv.take(i as int));
            assert(t.last() == strings_view(row@));
            if idx >= row.len() {
                reveal_strlit("");
                assert(""@ =~= Seq::<char>::empty());
            }
        }
        let ghost before = strings_view(out@);
        let mut j: usize = 0;
        while j < names.len()
            invariant
                j <= names@.len(),
                strings_view(out@) == before + strings_view(names@).take(j as int),
            decreases names@.len() - j,
        {
            let ghost o = strings_view(out@);
            out.push(names[j].clone());
            assert(strings_view(out@) =~= o.push(names@[j as int]@));
            assert(strings_view(names@).take(j as int + 1) =~= strings_view(names@).take(j as int).push(names@[j as int]@));
            assert(strings_view(out@) =~= before + strings_view(names@).take(j as int + 1));
            j = j + 1;
        }
        assert(strings_view(names@).take(names@.len() as int) =~= strings_view(names@));
        i = i + 1;
    }
    proof {
        lemma_take_full(rv);
    }
    out
}

/// The normalized form of each name.
fn tag_keys(names: &[String]) -> (r: Vec<Vec<char>>)
    ensures
        r@.len() == names@.len(),
        forall|j: int| 0 <= j < r@.len() ==> #[trigger] r@[j]@ == spec_normalize_tag_name(names@[j]@),
{
    let mut out: Vec<Vec<char>> = Vec::new();
    let mut i: usize = 0;
    while i < names.len()
        invariant
            i <= names@.len(),
            out@.len() == i,
            forall|j: int| 0 <= j < i ==> #[trigger] out@[j]@ == spec_normalize_tag_name(names@[j]@),
        decreases names@.len() - i,
    {
        let c = str_chars(names[i].as_str());
        let collapsed = collapse_whitespace(&c);
        out.push(to_ascii_lower(&collapsed));
        i = i + 1;
    }
    out
}

/// The names of `all`, each tag once.
fn distinct_names(all: &Vec<String>, keys: &Vec<Vec<char>>) -> (r: Vec<String>)
    requires
        keys@.len() == all@.len(),
        forall|j: int| 0 <= j < keys@.len() ==> #[trigger] keys@[j]@ == spec_normalize_tag_name(all@[j]@),
    ensures
        strings_view(r@) == distinct_tag_names(strings_view(all@)),
{
    let ghost av = strings_view(all@);
    let mut out: Vec<String> = Vec::new();
    let mut out_keys: Vec<Vec<char>> = Vec::new();
    let mut i: usize = 0;
    while i < all.len()
        invariant
            i <= all@.len(),
            av == strings_view(all@),
            keys@.len() == all@.len(),
            forall|j: int| 0 <= j < keys@.len() ==> #[trigger] keys@[j]@ == spec_normalize_tag_name(all@[j]@),
            strings_view(out@) == distinct_tag_names(av.take(i as int)),
            out_keys@.len() == out@.len(),
            forall|j: int| 0 <= j < out_keys@.len() ==> #[trigger] out_keys@[j]@ == spec_normalize_tag_name(out@[j]@),
        decreases all@.len() - i,
    {
        let ghost prev = strings_view(out@);
        proof {
            let t = av.take(i as int + 1);
            assert(t.drop_last() =~= av.take(i as int));
            assert(t.last() == all@[i as int]@);
        }
        let key = &keys[i];
        assert(key@ == spec_normalize_tag_name(all@[i as int]@));
        let listed = key_listed(&out_keys, key);
        proof {
            if listed {
                let j = choose|j: int| 0 <= j < out_keys@.len() && #[trigger] out_keys@[j]@ == key@;
                assert(spec_normalize_tag_name(prev[j]) == key@);
            } else {
                assert forall|j: int| 0 <= j < prev.len() implies spec_normalize_tag_name(#[trigger] prev[j]) != key@ by {
                    assert(out_keys@[j]@ == spec_normalize_tag_name(out@[j]@));
                }
            }
        }
        if !listed {
            out.push(all[i].clone());
            out_keys.push(key.clone());
            assert(strings_view(out@) =~= prev.push(all@[i as int]@));
        }
        i = i + 1;
    }
    proof {
        lemma_take_full(av);
    }
    out
}

/// How many of the names, given by their keys, are the tag `key`.
fn count_key(all: &Vec<String>, keys: &Vec<Vec<char>>, key: &Vec<char>) -> (r: usize)
    requires
        keys@.len() == all@.len(),
        forall|j: int| 0 <= j < keys@.len() ==> #[trigger] keys@[j]@ == spec_normalize_tag_name(all@[j]@),
    ensures
        r as nat == tag_count(strings_view(all@), key@),
{
    let ghost av = strings_view(all@);
    let mut n: usize = 0;
    let mut i: usize = 0;
    while i < keys.len()
        invariant
            i <= keys@.len(),
            av == strings_view(all@),
            keys@.len() == all@.len(),
            forall|j: int| 0 <= j < keys@.len() ==> #[trigger] keys@[j]@ == spec_normalize_tag_name(all@[j]@),
            n as nat == tag_count(av.take(i as int), key@),
            n <= i,
        decreases keys@.len() - i,
    {
        proof {
            let t = av.take(i as int + 1);
            assert(t.drop_last() =~= av.take(i as int));
            assert(t.last() == all@[i as int]@);
            assert(keys@[i as int]@ == spec_normalize_tag_name(all@[i as int]@));
        }
        if chars_eq(&keys[i], key) {
            n = n + 1;
        }
        i = i + 1;
    }
    proof {
        lemma_take_full(av);
    }
    n
}

/// Where the catalog holds the tag `key`.
fn catalog_position(existing: &[(String, TagCatalogEntry)], key: &Vec<char>) -> (r: Option<usize>)
    ensures
        match catalog_find(catalog_view(existing@), key@, 0) {
            Some(t) => r matches Some(p) && p < existing@.len() && t == (existing@[p as int].1.name@, existing@[p as int].1.color@),
            None => r is None,
        },
{
    let ghost cv = catalog_view(existing@);
    let mut i: usize = 0;
    while i < existing.len()
        invariant
            i <= existing@.len(),
            cv == catalog_view(existing@),
            catalog_find(cv, key@, 0) == catalog_find(cv, key@, i as int),
        decreases existing@.len() - i,
    {
        let k = str_chars(existing[i].0.as_str());
        assert(cv[i as int].0 == k@);
        if chars_eq(&k, key) {
            return Some(i);
        }
        i = i + 1;
    }
    None
}

/// Adds the preview of the tag name `name` (normalized `key`, written
/// `count` times) to `values`, and its colour, if new, to `used`.
#[verifier::spinoff_prover]
#[verifier::rlimit(40)]
fn push_preview(
    values: &mut Vec<crate::models::SpreadsheetTagValuePreview>,
    used: &mut Vec<String>,
    name: &String,
    key: &Vec<char>,
    count: usize,
    existing: &[(String, TagCatalogEntry)],
    Ghost(all): Ghost<Seq<Seq<char>>>,
)
    requires
        key@ == spec_normalize_tag_name(name@),
        count as nat == tag_count(all, key@),
        catalog_find(catalog_view(existing@), key@, 0) is None ==> auto_color_defined(strings_view(old(used)@)),
    ensures
        (previews_view(final(values)@), strings_view(final(used)@)) == plan_step(
            (previews_view(old(values)@), strings_view(old(used)@)),
            name@,
            all,
            catalog_view(existing@),
        ),
{
    let ghost cat = catalog_view(existing@);
    let ghost pv = previews_view(values@);
    let ghost uv = strings_view(used@);
    match catalog_position(existing, key) {
        Some(p) => {
            values.push(crate::models::SpreadsheetTagValuePreview {
                name: existing[p].1.name.clone(),
                color: existing[p].1.color.clone(),
                existing: true,
                count,
            });
            assert(previews_view(values@) =~= pv.push((existing@[p as int].1.name@, existing@[p as int].1.color@, true, count as nat)));
        },
        None => {
            let color = next_auto_tag_color(used);
            used.push(color.clone());
            values.push(crate::models::SpreadsheetTagValuePreview {
                name: name.clone(),
                color,
                existing: false,
                count,
            });
            assert(strings_view(used@) =~= uv.push(spec_next_auto_tag_color(uv)));
            assert(previews_view(values@) =~= pv.push((name@, spec_next_auto_tag_color(uv), false, count as nat)));
        },
    }
}

/// What an import would do to the catalog for the tag column `tag_index`
/// of `sheet`: each tag written there, once, in order of first appearance,
/// with how many times it is written; a tag of the catalog (`existing`,
/// by normalized name) as it is there, a new one with the colour it would
/// get.
pub fn tag_previews(
    sheet: &crate::sheet::ParsedSheet,
    tag_index: Option<usize>,
    existing: &[(String, TagCatalogEntry)],
) -> (r: crate::models::SpreadsheetTagPreview)
    requires
        catalog_keys_distinct(existing@),
        tag_index matches Some(idx) ==> ({
            let all = sheet_tag_names(crate::sheet::rows_view(sheet.rows@), idx as int);
            previews_plannable(distinct_tag_names(all), all, catalog_view(existing@))
        }),
    ensures
        match tag_index {
            None => r.column_name is None && r.values@.len() == 0,
            Some(idx) => {
                let all = sheet_tag_names(crate::sheet::rows_view(sheet.rows@), idx as int);
                let names = distinct_tag_names(all);
                let cat = catalog_view(existing@);
                &&& (if idx < sheet.headers@.len() {
                    r.column_name matches Some(h) && h@ == sheet.headers@[idx as int]@
                } else {
                    r.column_name is None
                })
                &&& previews_view(r.values@) == preview_plan(names, all, cat, catalog_colors(cat), names.len()).0
            },
        },
{
    let idx = match tag_index {
        None => {
            return crate::models::SpreadsheetTagPreview { column_name: None, values: Vec::new() };
        },
        Some(i) => i,
    };
    let all = sheet_tag_names_of(&sheet.rows, idx);
    let keys = tag_keys(&all);
    let names = distinct_names(&all, &keys);
    let ghost av = strings_view(all@);
    let ghost nv = strings_view(names@);
    let ghost cat = catalog_view(existing@);
    let mut used: Vec<String> = Vec::new();
    let mut e: usize = 0;
    while e < existing.len()
        invariant
            e <= existing@.len(),
            cat == catalog_view(existing@),
            strings_view(used@) == catalog_colors(cat).take(e as int),
        decreases existing@.len() - e,
    {
        let c = str_chars(existing[e].1.color.as_str());
        let l = to_ascii_lower(&c);
        let ghost u = strings_view(used@);
        used.push(string_from_chars(&l));
        assert(cat[e as int].2 == existing@[e as int].1.color@);
        assert(catalog_colors(cat)[e as int] == l@);
        assert(strings_view(used@) =~= u.push(l@));
        assert(catalog_colors(cat).take(e as int + 1) =~= catalog_colors(cat).take(e as int).push(l@));
        assert(strings_view(used@) =~= catalog_colors(cat).take(e as int + 1));
        e = e + 1;
    }
    assert(catalog_colors(cat).take(existing@.len() as int) =~= catalog_colors(cat));
    let mut values: Vec<crate::models::SpreadsheetTagValuePreview> = Vec::new();
    let mut i: usize = 0;
    while i < names.len()
        invariant
            i <= names@.len(),
            av == strings_view(all@),
            nv == strings_view(names@),
            cat == catalog_view(existing@),
            nv == distinct_tag_names(av),
            keys@.len() == all@.len(),
            forall|j: int| 0 <= j < keys@.len() ==> #[trigger] keys@[j]@ == spec_normalize_tag_name(all@[j]@),
            previews_plannable(nv, av, cat),
            (previews_view(values@), strings_view(used@)) == preview_plan(nv, av, cat, catalog_colors(cat), i as nat),
        decreases names@.len() - i,
    {
        let c = str_chars(names[i].as_str());
        let collapsed = collapse_whitespace(&c);
        let key = to_ascii_lower(&collapsed);
        assert(key@ == spec_normalize_tag_name(nv[i as int]));
        let count = count_key(&all, &keys, &key);
        proof {
            if catalog_find(cat, key@, 0) is None {
                assert(auto_color_defined(preview_plan(nv, av, cat, catalog_colors(cat), i as nat).1));
            }
        }
        push_preview(&mut values, &mut used, &names[i], &key, count, existing, Ghost(av));
        i = i + 1;
    }
    let column_name = if idx < sheet.headers.len() {
        Some(sheet.headers[idx].clone())
    } else {
        None
    };
    crate::models::SpreadsheetTagPreview { column_name, values }
}

/// The refusal of an import that would bring back the deleted tag `name`.
pub open spec fn deleted_tag_message(name: Seq<char>) -> Seq<char> {
    "导入标签「"@ + name + "」在回收站中，请先恢复或清空回收站"@
}

/// The name `n` is a tag among `deleted`.
pub open spec fn is_deleted_tag(deleted: Seq<Seq<char>>, n: Seq<char>) -> bool {
    exists|m: int| 0 <= m < deleted.len() && spec_normalize_tag_name(#[trigger] deleted[m]) == spec_normalize_tag_name(n)
}

/// None of the names `all` is a tag among `deleted`.
pub open spec fn no_deleted_tags(all: Seq<Seq<char>>, deleted: Seq<Seq<char>>) -> bool {
    forall|j: int| 0 <= j < all.len() ==> !is_deleted_tag(deleted, #[trigger] all[j])
}

/// `e` refuses the first of the names `all` that is a tag among `deleted`,
/// naming one of the deleted tags it matches.
pub open spec fn deleted_tag_refusal(all: Seq<Seq<char>>, deleted: Seq<Seq<char>>, e: Seq<char>) -> bool {
    exists|j: int, m: int|
        0 <= j < all.len() && 0 <= m < deleted.len()
        && spec_normalize_tag_name(#[trigger] deleted[m]) == spec_normalize_tag_name(#[trigger] all[j])
        && (forall|i: int| 0 <= i < j ==> !is_deleted_tag(deleted, #[trigger] all[i]))
        && e == deleted_tag_message(deleted[m])
}

/// Where `key` first occurs among `keys`.
fn position_of_key(keys: &Vec<Vec<char>>, key: &Vec<char>) -> (r: Option<usize>)
    ensures
        r matches Some(m) ==> m < keys@.len() && keys@[m as int]@ == key@,
        r is None ==> forall|j: int| 0 <= j < keys@.len() ==> #[trigger] keys@[j]@ != key@,
{
    let mut i: usize = 0;
    while i < keys.len()
        invariant
            i <= keys@.len(),
            forall|j: int| 0 <= j < i ==> #[trigger] keys@[j]@ != key@,
        decreases keys@.len() - i,
    {
        if chars_eq(&keys[i], key) {
            return Some(i);
        }
        i = i + 1;
    }
    None
}

/// Refuses an import whose tag column names a tag that is in the recycle
/// bin (`deleted_names`).
pub fn ensure_import_tags_are_available(
    sheet: &crate::sheet::ParsedSheet,
    analysis: &crate::sheet::SheetAnalysis,
    deleted_names: &[String],
) -> (r: Result<(), String>)
    ensures
        analysis.tag_index is None ==> r is Ok,
        analysis.tag_index matches Some(idx) ==> (r is Ok <==> no_deleted_tags(
            sheet_tag_names(crate::sheet::rows_view(sheet.rows@), idx as int),
            strings_view(deleted_names@),
        )),
        analysis.tag_index matches Some(idx) ==> (r matches Err(e) ==> deleted_tag_refusal(
            sheet_tag_names(crate::sheet::rows_view(sheet.rows@), idx as int),
            strings_view(deleted_names@),
            e@,
        )),
{
    let idx = match analysis.tag_index {
        None => {
            return Ok(());
        },
        Some(i) => i,
    };
    let all = sheet_tag_names_of(&sheet.rows, idx);
    let keys = tag_keys(&all);
    let deleted_keys = tag_keys(deleted_names);
    let ghost av = strings_view(all@);
    let ghost dv = strings_view(deleted_names@);
    let mut i: usize = 0;
    while i < all.len()
        invariant
            i <= all@.len(),
            av == strings_view(all@),
            dv == strings_view(deleted_names@),
            keys@.len() == all@.len(),
            forall|j: int| 0 <= j < keys@.len() ==> #[trigger] keys@[j]@ == spec_normalize_tag_name(all@[j]@),
            deleted_keys@.len() == deleted_names@.len(),
            forall|j: int| 0 <= j < deleted_keys@.len() ==> #[trigger] deleted_keys@[j]@ == spec_normalize_tag_name(deleted_names@[j]@),
            forall|j: int| 0 <= j < i ==> !is_deleted_tag(dv, #[trigger] av[j]),
            analysis.tag_index == Some(idx),
            av == sheet_tag_names(crate::sheet::rows_view(sheet.rows@), idx as int),
        decreases all@.len() - i,
    {
        assert(keys@[i as int]@ == spec_normalize_tag_name(av[i as int]));
        match position_of_key(&deleted_keys, &keys[i]) {
            Some(m) => {
                assert(deleted_keys@[m as int]@ == spec_normalize_tag_name(dv[m as int]));
                let d = str_chars(deleted_names[m].as_str());
                assert(spec_normalize_tag_name(dv[m as int]) == spec_normalize_tag_name(av[i as int]));
                assert(is_deleted_tag(dv, av[i as int]));
                assert(d@ == dv[m as int]);
                let e = crate::text::concat3("导入标签「", &d, "」在回收站中，请先恢复或清空回收站");
                assert(e@ == deleted_tag_message(dv[m as int]));
                assert(exists|j: int, q: int|
                    0 <= j < av.len() && 0 <= q < dv.len()
                    && spec_normalize_tag_name(#[trigger] dv[q]) == spec_normalize_tag_name(#[trigger] av[j])
                    && (forall|k: int| 0 <= k < j ==> !is_deleted_tag(dv, #[trigger] av[k]))
                    && e@ == deleted_tag_message(dv[q])) by {
                    assert(0 <= i < av.len() && 0 <= m < dv.len());
                    assert(forall|k: int| 0 <= k < i ==> !is_deleted_tag(dv, #[trigger] av[k]));
                }
                assert(deleted_tag_refusal(av, dv, e@));
                return Err(e);
            },
            None => {
                assert(!is_deleted_tag(dv, av[i as int])) by {
                    if is_deleted_tag(dv, av[i as int]) {
                        let q = choose|q: int| 0 <= q < dv.len() && spec_normalize_tag_name(#[trigger] dv[q]) == spec_normalize_tag_name(av[i as int]);
                        assert(deleted_keys@[q]@ == spec_normalize_tag_name(dv[q]));
                    }
                }
            },
        }
        i = i + 1;
    }
    Ok(())
}

} // verus!

verus! {

// ---------------------------------------------------------------------------
// Laws
// ---------------------------------------------------------------------------

/// The names gathered from the pieces of a cell are non-empty and no two
/// are the same tag.
pub proof fn lemma_gather_distinct(pieces: Seq<Seq<char>>)
    ensures
        forall|i: int| 0 <= i < gather_tag_names(pieces).len() ==> #[trigger] gather_tag_names(pieces)[i].len() > 0,
        forall|i: int, j: int| 0 <= i < j < gather_tag_names(pieces).len() ==>
            spec_normalize_tag_name(#[trigger] gather_tag_names(pieces)[i]) != spec_normalize_tag_name(#[trigger] gather_tag_names(pieces)[j]),
    decreases pieces.len(),
{
    if pieces.len() > 0 {
        lemma_gather_distinct(pieces.drop_last());
        let prev = gather_tag_names(pieces.drop_last());
        let display = collapse_ws(pieces.last());
        let key = spec_normalize_tag_name(display);
        if display.len() > 0 && key.len() > 0 && !norm_listed(prev, key) {
            let g = prev.push(display);
            assert forall|i: int, j: int| 0 <= i < j < g.len() implies
                spec_normalize_tag_name(#[trigger] g[i]) != spec_normalize_tag_name(#[trigger] g[j]) by {
                if j == prev.len() {
                    assert(g[i] == prev[i]);
                } else {
                    assert(g[i] == prev[i] && g[j] == prev[j]);
                }
            }
        }
    }
}

/// The tag names read from a cell are non-empty and no two of them are
/// the same tag.
pub proof fn law_split_tag_names_distinct(s: Seq<char>)
    ensures
        forall|i: int| 0 <= i < spec_split_tag_names(s).len() ==> #[trigger] spec_split_tag_names(s)[i].len() > 0,
        forall|i: int, j: int| 0 <= i < j < spec_split_tag_names(s).len() ==>
            spec_normalize_tag_name(#[trigger] spec_split_tag_names(s)[i]) != spec_normalize_tag_name(#[trigger] spec_split_tag_names(s)[j]),
{
    lemma_gather_distinct(split_on(s, |c: char| tag_delims().contains(c)));
}

/// If the generator reaches a free colour, there is a fewest number of
/// steps after which it does.
pub proof fn lemma_least_free_exists(low: Set<Seq<char>>, s0: u32, k: nat)
    requires
        free_at(low, s0, k),
    ensures
        free_at(low, s0, least_free(low, s0)),
        forall|j: nat| j < least_free(low, s0) ==> !free_at(low, s0, j),
    decreases k,
{
    if exists|j: nat| j < k && free_at(low, s0, j) {
        let j = choose|j: nat| j < k && free_at(low, s0, j);
        lemma_least_free_exists(low, s0, j);
    } else {
        assert(free_at(low, s0, k) && forall|j: nat| j < k ==> !free_at(low, s0, j));
    }
}

/// The first palette colour found free is indeed free.
pub proof fn lemma_first_free_palette(low: Set<Seq<char>>, k: int)
    ensures
        first_free_palette(low, k) matches Some(p) ==> 0 <= p < 12 && !low.contains(auto_tag_palette()[p]),
    decreases 12 - k,
{
    if 0 <= k < 12 && low.contains(auto_tag_palette()[k]) {
        lemma_first_free_palette(low, k + 1);
    }
}

/// A colour given to a new tag is not in use, whatever the case of the
/// colours in use.
pub proof fn law_new_tag_color_is_unused(used: Seq<Seq<char>>)
    requires
        auto_color_defined(used),
    ensures
        !lower_used(used).contains(spec_next_auto_tag_color(used)),
{
    let low = lower_used(used);
    lemma_first_free_palette(low, 0);
    if first_free_palette(low, 0) is None {
        let s0 = lcg_start(low);
        let k = choose|k: nat| free_at(low, s0, k);
        lemma_least_free_exists(low, s0, k);
    }
}

/// The palette colours are written in lower case.
pub proof fn lemma_palette_lower(k: int)
    requires
        0 <= k < 12,
    ensures
        ascii_lower(auto_tag_palette()[k]) == auto_tag_palette()[k],
{
    reveal_strlit("#0f766e");
    reveal_strlit("#2563eb");
    reveal_strlit("#b45309");
    reveal_strlit("#9f1239");
    reveal_strlit("#7c3aed");
    reveal_strlit("#047857");
    reveal_strlit("#be123c");
    reveal_strlit("#0369a1");
    reveal_strlit("#c2410c");
    reveal_strlit("#4d7c0f");
    reveal_strlit("#a21caf");
    reveal_strlit("#0e7490");
    let p = auto_tag_palette()[k];
    assert(ascii_lower(p) =~= p);
}

/// A colour given to a new tag is written in lower case.
pub proof fn law_new_tag_color_is_lower(used: Seq<Seq<char>>)
    ensures
        ascii_lower(spec_next_auto_tag_color(used)) == spec_next_auto_tag_color(used),
{
    let low = lower_used(used);
    lemma_first_free_palette(low, 0);
    match first_free_palette(low, 0) {
        Some(k) => {
            lemma_palette_lower(k);
        },
        None => {
            let c = spec_next_auto_tag_color(used);
            assert(ascii_lower(c) =~= c);
        },
    }
}

/// Two new tags in a row get different colours.
pub proof fn law_consecutive_new_colors_differ(used: Seq<Seq<char>>)
    requires
        auto_color_defined(used),
        auto_color_defined(used.push(spec_next_auto_tag_color(used))),
    ensures
        spec_next_auto_tag_color(used.push(spec_next_auto_tag_color(used))) != spec_next_auto_tag_color(used),
{
    let c = spec_next_auto_tag_color(used);
    let used2 = used.push(c);
    law_new_tag_color_is_lower(used);
    law_new_tag_color_is_unused(used2);
    let lv = used2.map_values(|u: Seq<char>| ascii_lower(u));
    assert(lv[used.len() as int] == c);
    assert(lv.contains(c));
}

/// Along a preview plan: the colours in use are the catalog colours and
/// then the colours of the new tags so far; each new tag's colour was not
/// in use (case ignored) when it was given.
pub proof fn lemma_plan_colors(
    names: Seq<Seq<char>>,
    all: Seq<Seq<char>>,
    cat: Seq<(Seq<char>, Seq<char>, Seq<char>)>,
    k: nat,
)
    requires
        k <= names.len(),
        previews_plannable(names, all, cat),
    ensures
        ({
            let p = preview_plan(names, all, cat, catalog_colors(cat), k);
            &&& p.0.len() == k
            &&& forall|i: int| 0 <= i < p.1.len() ==> #[trigger] lower_used(p.1).contains(ascii_lower(p.1[i]))
            &&& p.1.len() >= catalog_colors(cat).len()
            &&& p.1.take(catalog_colors(cat).len() as int) == catalog_colors(cat)
            &&& forall|i: int| 0 <= i < k && !(#[trigger] p.0[i]).2 ==> p.1.contains(p.0[i].1)
                && !lower_used(catalog_colors(cat)).contains(p.0[i].1)
            &&& forall|i: int, j: int| 0 <= i < j < k && !(#[trigger] p.0[i]).2 && !(#[trigger] p.0[j]).2 ==> p.0[i].1 != p.0[j].1
            &&& forall|i: int| 0 <= i < k && !(#[trigger] p.0[i]).2 ==> ascii_lower(p.0[i].1) == p.0[i].1
        }),
    decreases k,
{
    let p = preview_plan(names, all, cat, catalog_colors(cat), k);
    let c0 = catalog_colors(cat);
    assert forall|i: int| 0 <= i < p.1.len() implies #[trigger] lower_used(p.1).contains(ascii_lower(p.1[i])) by {
        let lv = p.1.map_values(|u: Seq<char>| ascii_lower(u));
        assert(lv[i] == ascii_lower(p.1[i]));
        assert(lv.contains(ascii_lower(p.1[i])));
    }
    if k == 0 {
        assert(c0.take(c0.len() as int) =~= c0);
    } else {
        lemma_plan_colors(names, all, cat, (k - 1) as nat);
        let q = preview_plan(names, all, cat, c0, (k - 1) as nat);
        let n = names[k - 1];
        let key = spec_normalize_tag_name(n);
        match catalog_find(cat, key, 0) {
            Some(t) => {
                assert(p.0 == q.0.push((t.0, t.1, true, tag_count(all, key))));
                assert forall|i: int| 0 <= i < k && !(#[trigger] p.0[i]).2 implies p.1.contains(p.0[i].1)
                    && !lower_used(c0).contains(p.0[i].1) by {
                    assert(p.0[i] == q.0[i]);
                }
                assert forall|i: int, j: int| 0 <= i < j < k && !(#[trigger] p.0[i]).2 && !(#[trigger] p.0[j]).2 implies p.0[i].1 != p.0[j].1 by {
                    assert(p.0[i] == q.0[i]);
                    assert(p.0[j] == q.0[j]);
                }
                assert forall|i: int| 0 <= i < k && !(#[trigger] p.0[i]).2 implies ascii_lower(p.0[i].1) == p.0[i].1 by {
                    assert(p.0[i] == q.0[i]);
                }
            },
            None => {
                assert(auto_color_defined(q.1));
                let c = spec_next_auto_tag_color(q.1);
                law_new_tag_color_is_unused(q.1);
                law_new_tag_color_is_lower(q.1);
                assert(p.1 == q.1.push(c));
                assert(p.0 == q.0.push((n, c, false, tag_count(all, key))));
                assert(p.1.take(c0.len() as int) =~= q.1.take(c0.len() as int));
                // c is new against the catalog colours, which are in use.
                assert(!lower_used(c0).contains(c)) by {
                    if lower_used(c0).contains(c) {
                        let lc = c0.map_values(|u: Seq<char>| ascii_lower(u));
                        let m = choose|m: int| 0 <= m < lc.len() && lc[m] == c;
                        assert(q.1[m] == c0[m]);
                        assert(lower_used(q.1).contains(ascii_lower(q.1[m])));
                    }
                }
                assert forall|i: int| 0 <= i < k && !(#[trigger] p.0[i]).2 implies p.1.contains(p.0[i].1)
                    && !lower_used(c0).contains(p.0[i].1) by {
                    if i < k - 1 {
                        assert(p.0[i] == q.0[i]);
                        let m = choose|m: int| 0 <= m < q.1.len() && q.1[m] == q.0[i].1;
                        assert(p.1[m] == q.1[m]);
                    } else {
                        assert(p.1[q.1.len() as int] == c);
                    }
                }
                assert forall|i: int, j: int| 0 <= i < j < k && !(#[trigger] p.0[i]).2 && !(#[trigger] p.0[j]).2 implies p.0[i].1 != p.0[j].1 by {
                    assert(p.0[i] == q.0[i]);
                    if j < k - 1 {
                        assert(p.0[j] == q.0[j]);
                    } else {
                        let m = choose|m: int| 0 <= m < q.1.len() && q.1[m] == q.0[i].1;
                        assert(lower_used(q.1).contains(ascii_lower(q.1[m])));
                        assert(ascii_lower(q.0[i].1) == q.0[i].1);
                    }
                }
                assert forall|i: int| 0 <= i < k && !(#[trigger] p.0[i]).2 implies ascii_lower(p.0[i].1) == p.0[i].1 by {
                    if i < k - 1 {
                        assert(p.0[i] == q.0[i]);
                    }
                }
            },
        }
    }
}

/// In an import preview, each new tag gets a colour that no tag of the
/// catalog has (case ignored) and that no other new tag gets.
pub proof fn law_preview_new_colors_are_fresh(
    names: Seq<Seq<char>>,
    all: Seq<Seq<char>>,
    cat: Seq<(Seq<char>, Seq<char>, Seq<char>)>,
)
    requires
        previews_plannable(names, all, cat),
    ensures
        ({
            let v = preview_plan(names, all, cat, catalog_colors(cat), names.len()).0;
            &&& forall|i: int| 0 <= i < v.len() && !(#[trigger] v[i]).2 ==> !lower_used(catalog_colors(cat)).contains(v[i].1)
            &&& forall|i: int, j: int| 0 <= i < j < v.len() && !(#[trigger] v[i]).2 && !(#[trigger] v[j]).2 ==> v[i].1 != v[j].1
        }),
{
    lemma_plan_colors(names, all, cat, names.len());
}

} // verus!

verus! {

/// A stored tag colour is accepted as it is: normalizing an accepted
/// colour again gives the same colour.
pub proof fn law_tag_color_is_stable(color: Seq<char>)
    requires
        is_hex_color(trim(color)),
    ensures
        is_hex_color(trim(ascii_lower(trim(color)))),
        ascii_lower(trim(ascii_lower(trim(color)))) == ascii_lower(trim(color)),
{
    let t = trim(color);
    let n = ascii_lower(t);
    assert(n[0] == '#');
    assert(is_ascii_hex(t[6]));
    assert(!crate::text::is_ws(n[0]));
    assert(!crate::text::is_ws(n[6]));
    crate::text::lemma_trim_unchanged(n);
    assert forall|i: int| 1 <= i < 7 implies is_ascii_hex(#[trigger] n[i]) by {
        assert(is_ascii_hex(t[i]));
    }
    assert(ascii_lower(n) =~= n);
}

} // verus!

verus! {

proof fn lemma_plan_used_len(
    names: Seq<Seq<char>>,
    all: Seq<Seq<char>>,
    cat: Seq<(Seq<char>, Seq<char>, Seq<char>)>,
    used0: Seq<Seq<char>>,
    k: nat,
)
    ensures
        preview_plan(names, all, cat, used0, k).1.len() <= used0.len() + k,
    decreases k,
{
    if k > 0 {
        lemma_plan_used_len(names, all, cat, used0, (k - 1) as nat);
    }
}

proof fn lemma_distinct_names_len(all: Seq<Seq<char>>)
    ensures
        distinct_tag_names(all).len() <= all.len(),
    decreases all.len(),
{
    if all.len() > 0 {
        lemma_distinct_names_len(all.drop_last());
    }
}

/// Every new tag of an import preview gets a colour while the catalog's
/// tags and the new names are fewer than 2^24 together.
pub proof fn law_previews_plannable_when_few(names: Seq<Seq<char>>, all: Seq<Seq<char>>, cat: Seq<(Seq<char>, Seq<char>, Seq<char>)>)
    requires
        cat.len() + names.len() < 0x100_0000,
    ensures
        previews_plannable(names, all, cat),
{
    assert forall|j: nat|
        j < names.len() && catalog_find(cat, spec_normalize_tag_name(names[j as int]), 0) is None
        implies auto_color_defined(#[trigger] preview_plan(names, all, cat, catalog_colors(cat), j).1) by {
        lemma_plan_used_len(names, all, cat, catalog_colors(cat), j);
        crate::generator::law_new_tag_color_found(preview_plan(names, all, cat, catalog_colors(cat), j).1);
    }
}

/// Whether every new tag of a sheet's tag column is sure to get a colour:
/// the catalog's tags and the tag names in the column are fewer than 2^24
/// together (no column: nothing to colour).
pub fn tag_colors_suffice(
    sheet: &crate::sheet::ParsedSheet,
    tag_index: Option<usize>,
    existing: &[(String, TagCatalogEntry)],
) -> (r: bool)
    ensures
        r == (tag_index matches Some(idx) ==> existing@.len() + sheet_tag_names(
            crate::sheet::rows_view(sheet.rows@),
            idx as int,
        ).len() < 0x100_0000),
        r ==> (tag_index matches Some(idx) ==> ({
            let all = sheet_tag_names(crate::sheet::rows_view(sheet.rows@), idx as int);
            previews_plannable(distinct_tag_names(all), all, catalog_view(existing@))
        })),
{
    match tag_index {
        None => true,
        Some(idx) => {
            let all = sheet_tag_names_of(&sheet.rows, idx);
            let fits = existing.len() < 0x100_0000 && all.len() < 0x100_0000 - existing.len();
            proof {
                let av = sheet_tag_names(crate::sheet::rows_view(sheet.rows@), idx as int);
                assert(strings_view(all@).len() == all@.len());
                if fits {
                    lemma_distinct_names_len(av);
                    law_previews_plannable_when_few(distinct_tag_names(av), av, catalog_view(existing@));
                }
            }
            fits
        },
    }
}

} // verus!

verus! {

/// Splitting depends only on which characters are separators: two texts
/// that differ only where both hold a separator split alike.
proof fn lemma_split_on_same(x: Seq<char>, y: Seq<char>, p: spec_fn(char) -> bool)
    requires
        x.len() == y.len(),
        forall|i: int| 0 <= i < x.len() ==> x[i] == y[i] || (p(x[i]) && p(y[i])),
    ensures
        split_on(x, p) == split_on(y, p),
    decreases x.len(),
{
    if x.len() > 0 {
        assert forall|i: int| 0 <= i < x.drop_last().len() implies x.drop_last()[i] == y.drop_last()[i] || (p(
            x.drop_last()[i],
        ) && p(y.drop_last()[i])) by {
            assert(x.drop_last()[i] == x[i] && y.drop_last()[i] == y[i]);
        }
        lemma_split_on_same(x.drop_last(), y.drop_last(), p);
        assert(x.last() == x[x.len() - 1] && y.last() == y[y.len() - 1]);
    }
}

/// Appending text without separators extends the last piece.
proof fn lemma_split_on_plain_tail(x: Seq<char>, s: Seq<char>, p: spec_fn(char) -> bool)
    requires
        forall|i: int| 0 <= i < s.len() ==> !p(#[trigger] s[i]),
    ensures
        split_on(x + s, p).len() == split_on(x, p).len(),
        split_on(x + s, p) == split_on(x, p).update(
            split_on(x, p).len() - 1,
            split_on(x, p).last() + s,
        ),
    decreases s.len(),
{
    crate::text::lemma_split_on_nonempty(x, p);
    if s.len() == 0 {
        assert(x + s =~= x);
        assert(split_on(x, p).last() + s =~= split_on(x, p).last());
        assert(split_on(x, p).update(split_on(x, p).len() - 1, split_on(x, p).last()) =~= split_on(x, p));
    } else {
        let t = s.drop_last();
        assert forall|i: int| 0 <= i < t.len() implies !p(#[trigger] t[i]) by {
            assert(t[i] == s[i]);
        }
        lemma_split_on_plain_tail(x, t, p);
        assert((x + s).drop_last() =~= x + t);
        assert((x + s).last() == s[s.len() - 1]);
        let q = split_on(x, p);
        assert(t.push(s.last()) =~= s);
        assert(split_on(x + s, p) =~= q.update(q.len() - 1, q.last() + s));
    }
}

/// The pieces of two separator-free texts joined by a separator.
proof fn lemma_split_two(a: Seq<char>, d: char, b: Seq<char>, p: spec_fn(char) -> bool)
    requires
        p(d),
        forall|i: int| 0 <= i < a.len() ==> !p(#[trigger] a[i]),
        forall|i: int| 0 <= i < b.len() ==> !p(#[trigger] b[i]),
    ensures
        split_on(a + seq![d] + b, p) == seq![a, b],
{
    let e = Seq::<char>::empty();
    lemma_split_on_plain_tail(e, a, p);
    assert(e + a =~= a);
    assert(split_on(e, p) == seq![e]);
    assert(split_on(a, p) =~= seq![a]);
    assert((a + seq![d]).drop_last() =~= a);
    assert((a + seq![d]).last() == d);
    assert(split_on(a + seq![d], p) =~= seq![a, e]);
    lemma_split_on_plain_tail(a + seq![d], b, p);
    assert(e + b =~= b);
    assert(split_on(a + seq![d] + b, p) =~= seq![a, b]);
}

/// The separators of tag names in a cell: the enumeration comma 、, the
/// full-width and half-width commas and semicolons, `|`, `/`, `\`, and line
/// breaks and tabs all separate names in the same way, so replacing one by
/// another anywhere gives the same tag names.
pub proof fn law_tag_separators_alike(a: Seq<char>, c: char, b: Seq<char>)
    requires
        c == '、' || c == '，' || c == ',' || c == '；' || c == ';' || c == '|' || c == '/' || c
            == '\\' || c == '\n' || c == '\r' || c == '\t',
    ensures
        spec_split_tag_names(a + seq![c] + b) == spec_split_tag_names(a + seq!['、'] + b),
{
    let p = |ch: char| tag_delims().contains(ch);
    let d = tag_delims();
    assert(d[0] == '、' && d[1] == '，' && d[2] == ',' && d[3] == '；' && d[4] == ';' && d[5] == '|'
        && d[6] == '/' && d[7] == '\\' && d[8] == '\n' && d[9] == '\r' && d[10] == '\t');
    assert(p(c));
    assert(p('、'));
    let x = a + seq![c] + b;
    let y = a + seq!['、'] + b;
    assert forall|i: int| 0 <= i < x.len() implies x[i] == y[i] || (p(x[i]) && p(y[i])) by {
        if i < a.len() {
            assert(x[i] == a[i] && y[i] == a[i]);
        } else if i == a.len() {
            assert(x[i] == c && y[i] == '、');
        } else {
            assert(x[i] == b[i - a.len() - 1] && y[i] == b[i - a.len() - 1]);
        }
    }
    lemma_split_on_same(x, y, p);
}

/// Two names written in one cell with a separator between them (and none
/// inside them) give both names, in order, when they are different tags.
pub proof fn law_two_tag_names(a: Seq<char>, b: Seq<char>)
    requires
        forall|i: int| 0 <= i < a.len() ==> !tag_delims().contains(#[trigger] a[i]),
        forall|i: int| 0 <= i < b.len() ==> !tag_delims().contains(#[trigger] b[i]),
        collapse_ws(a).len() > 0,
        collapse_ws(b).len() > 0,
        spec_normalize_tag_name(collapse_ws(a)).len() > 0,
        spec_normalize_tag_name(collapse_ws(b)).len() > 0,
        spec_normalize_tag_name(collapse_ws(a)) != spec_normalize_tag_name(collapse_ws(b)),
    ensures
        spec_split_tag_names(a + seq!['、'] + b) == seq![collapse_ws(a), collapse_ws(b)],
        spec_split_tag_names(a + seq!['，'] + b) == seq![collapse_ws(a), collapse_ws(b)],
{
    let p = |ch: char| tag_delims().contains(ch);
    assert(tag_delims()[0] == '、');
    lemma_split_two(a, '、', b, p);
    let pieces = seq![a, b];
    assert(pieces.drop_last() =~= seq![a]);
    assert(seq![a].drop_last() =~= Seq::<Seq<char>>::empty());
    let first = gather_tag_names(seq![a]);
    assert(gather_tag_names(Seq::<Seq<char>>::empty()) =~= Seq::<Seq<char>>::empty());
    assert(!norm_listed(Seq::<Seq<char>>::empty(), spec_normalize_tag_name(collapse_ws(a))));
    assert(first =~= seq![collapse_ws(a)]);
    assert(!norm_listed(first, spec_normalize_tag_name(collapse_ws(b))));
    assert(gather_tag_names(pieces) =~= seq![collapse_ws(a), collapse_ws(b)]);
    law_tag_separators_alike(a, '，', b);
}

} // verus!
