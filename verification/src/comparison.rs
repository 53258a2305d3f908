//! Comparing the people of several gift books and vaults.
use vstd::prelude::*;
use crate::models::{ComparisonBook, ComparisonPerson, ComparisonPersonHistory, ComparisonPersonSource};
use crate::order::{in_order, lemma_stable_sort, sort_stable, stable_sort, strict_order};
use crate::text::{
    char_lowercase, chars_eq, chars_less, chars_lt, is_whitespace, is_ws, keep, lemma_chars_lt_irreflexive,
    lemma_chars_lt_transitive, lemma_keep_step,
    lemma_take_full, std_char_lowercase, str_chars, string_from_chars, trim, trim_chars,
};

verus! {

/// The lower-case forms of the characters of `s`, one after another.
pub open spec fn lowercase_chars(s: Seq<char>) -> Seq<char>
    decreases s.len(),
{
    if s.len() == 0 {
        Seq::empty()
    } else {
        lowercase_chars(s.drop_last()) + std_char_lowercase(s.last())
    }
}

/// The name by which people are matched across books: trimmed, without any
/// whitespace, each character in lower case.
pub open spec fn spec_person_key(name: Seq<char>) -> Seq<char> {
    lowercase_chars(keep(trim(name), |c: char| !is_ws(c)))
}

fn person_key_chars(name: &str) -> (r: Vec<char>)
    ensures
        r@ == spec_person_key(name@),
{
    let c = str_chars(name);
    let t = trim_chars(&c);
    let ghost p = |c: char| !is_ws(c);
    let mut kept: Vec<char> = Vec::new();
    let mut i: usize = 0;
    while i < t.len()
        invariant
            i <= t@.len(),
            p == (|c: char| !is_ws(c)),
            kept@ == keep(t@.take(i as int), p),
        decreases t@.len() - i,
    {
        proof {
            lemma_keep_step(t@, p, i as int);
        }
        if !is_whitespace(t[i]) {
            kept.push(t[i]);
        }
        i = i + 1;
    }
    proof {
        lemma_take_full(t@);
    }
    let mut out: Vec<char> = Vec::new();
    let mut j: usize = 0;
    while j < kept.len()
        invariant
            j <= kept@.len(),
            out@ == lowercase_chars(kept@.take(j as int)),
        decreases kept@.len() - j,
    {
        let lower = char_lowercase(kept[j]);
        crate::text::extend_chars(&mut out, &lower);
        proof {
            assert(kept@.take(j as int + 1).drop_last() =~= kept@.take(j as int));
            assert(kept@.take(j as int + 1).last() == kept@[j as int]);
        }
        j = j + 1;
    }
    proof {
        lemma_take_full(kept@);
    }
    out
}

/// The name by which people are matched across books and vaults.
pub fn normalized_comparison_person_name(value: &str) -> (r: String)
    ensures
        r@ == spec_person_key(value@),
{
    let k = person_key_chars(value);
    string_from_chars(&k)
}

/// The identity of a person: the vault and the person within it.
pub open spec fn identity(p: ComparisonPerson) -> Seq<char> {
    p.vault_path@ + seq!['\u{1f}'] + p.person_id@
}

/// `p` shares its (non-empty) matching name with a person of another identity.
pub open spec fn is_duplicate(people: Seq<ComparisonPerson>, p: ComparisonPerson) -> bool {
    &&& spec_person_key(p.display_name@).len() > 0
    &&& exists|q: int|
        0 <= q < people.len() && spec_person_key(#[trigger] people[q].display_name@)
            == spec_person_key(p.display_name@) && identity(people[q]) != identity(p)
}

/// The identity of a person as text.
fn identity_chars(p: &ComparisonPerson) -> (r: Vec<char>)
    ensures
        r@ == identity(*p),
{
    let mut v = str_chars(p.vault_path.as_str());
    v.push('\u{1f}');
    let id = str_chars(p.person_id.as_str());
    crate::text::extend_chars(&mut v, &id);
    v
}

/// The people whose matching name is shared by a different person (another
/// person in the same vault, or a person of another vault), in their order.
pub fn duplicate_comparison_people(people: Vec<ComparisonPerson>) -> (r: Vec<ComparisonPerson>)
    ensures
        r@ == keep(people@, |p: ComparisonPerson| is_duplicate(people@, p)),
{
    let ghost all = people@;
    let n = people.len();
    let mut keys: Vec<Vec<char>> = Vec::new();
    let mut ids: Vec<Vec<char>> = Vec::new();
    let mut i: usize = 0;
    while i < n
        invariant
            i <= n == people@.len(),
            keys@.len() == i,
            ids@.len() == i,
            forall|k: int| 0 <= k < i ==> #[trigger] keys@[k]@ == spec_person_key(people@[k].display_name@),
            forall|k: int| 0 <= k < i ==> #[trigger] ids@[k]@ == identity(people@[k]),
        decreases n - i,
    {
        keys.push(person_key_chars(people[i].display_name.as_str()));
        ids.push(identity_chars(&people[i]));
        i = i + 1;
    }
    let mut flags: Vec<bool> = Vec::new();
    let mut a: usize = 0;
    while a < n
        invariant
            a <= n == people@.len(),
            all == people@,
            keys@.len() == n,
            ids@.len() == n,
            forall|k: int| 0 <= k < n ==> #[trigger] keys@[k]@ == spec_person_key(people@[k].display_name@),
            forall|k: int| 0 <= k < n ==> #[trigger] ids@[k]@ == identity(people@[k]),
            flags@.len() == a,
            forall|k: int| 0 <= k < a ==> #[trigger] flags@[k] == is_duplicate(all, all[k]),
        decreases n - a,
    {
        let mut found = false;
        if keys[a].len() > 0 {
            let mut b: usize = 0;
            while b < n && !found
                invariant
                    b <= n == people@.len(),
                    a < n,
                    keys@.len() == n,
                    ids@.len() == n,
                    forall|k: int| 0 <= k < n ==> #[trigger] keys@[k]@ == spec_person_key(people@[k].display_name@),
                    forall|k: int| 0 <= k < n ==> #[trigger] ids@[k]@ == identity(people@[k]),
                    found ==> exists|q: int|
                        0 <= q < people@.len() && spec_person_key(#[trigger] people@[q].display_name@)
                            == spec_person_key(people@[a as int].display_name@) && identity(people@[q]) != identity(people@[a as int]),
                    !found ==> forall|q: int|
                        0 <= q < b ==> !(spec_person_key(#[trigger] people@[q].display_name@)
                            == spec_person_key(people@[a as int].display_name@) && identity(people@[q]) != identity(people@[a as int])),
                decreases n - b + if found {
                    0int
                } else {
                    1int
                },
            {
                if chars_eq(&keys[b], &keys[a]) && !chars_eq(&ids[b], &ids[a]) {
                    found = true;
                    assert(keys@[b as int]@ == spec_person_key(people@[b as int].display_name@));
                } else {
                    b = b + 1;
                }
            }
        }
        flags.push(found);
        a = a + 1;
    }
    let ghost pred = |p: ComparisonPerson| is_duplicate(all, p);
    let mut rest = people;
    let mut out: Vec<ComparisonPerson> = Vec::new();
    let mut k: usize = 0;
    while k < n
        invariant
            k <= n == all.len(),
            rest@ == all.skip(k as int),
            flags@.len() == n,
            forall|j: int| 0 <= j < n ==> #[trigger] flags@[j] == is_duplicate(all, all[j]),
            pred == (|p: ComparisonPerson| is_duplicate(all, p)),
            out@ == keep(all.take(k as int), pred),
        decreases n - k,
    {
        proof {
            lemma_keep_step(all, pred, k as int);
        }
        let p = rest.remove(0);
        assert(p == all[k as int]);
        assert(rest@ =~= all.skip(k as int + 1));
        if flags[k] {
            out.push(p);
        }
        k = k + 1;
    }
    proof {
        lemma_take_full(all);
    }
    out
}

/// The order of source books: by title, then by book id.
pub open spec fn source_before(a: ComparisonPersonSource, b: ComparisonPersonSource) -> bool {
    chars_lt(a.book_title@, b.book_title@) || (a.book_title@ == b.book_title@ && chars_lt(
        a.book_id@,
        b.book_id@,
    ))
}

/// The order of source books: by title, then book id.
pub open spec fn source_order() -> spec_fn(ComparisonPersonSource, ComparisonPersonSource) -> bool {
    |a: ComparisonPersonSource, b: ComparisonPersonSource| source_before(a, b)
}

/// The sources sorted by title and book id, equal keys keeping their order
/// (a stable sort, as `sort_by`).
pub open spec fn sorted_sources(s: Seq<ComparisonPersonSource>) -> Seq<ComparisonPersonSource> {
    stable_sort(s, source_order())
}

/// The sources of `target` followed by those of `incoming` not yet among
/// them (same book and vault), in order.
pub open spec fn merged_sources(target: Seq<ComparisonPersonSource>, incoming: Seq<ComparisonPersonSource>) -> Seq<ComparisonPersonSource>
    decreases incoming.len(),
{
    if incoming.len() == 0 {
        target
    } else {
        let m = merged_sources(target, incoming.drop_last());
        let x = incoming.last();
        if exists|j: int| 0 <= j < m.len() && #[trigger] m[j].book_id@ == x.book_id@ && m[j].vault_path@ == x.vault_path@ {
            m
        } else {
            m.push(x)
        }
    }
}

/// Whether source `a` sorts before source `b`.
fn source_less(a: &ComparisonPersonSource, b: &ComparisonPersonSource) -> (r: bool)
    ensures
        r == source_before(*a, *b),
{
    let at = str_chars(a.book_title.as_str());
    let bt = str_chars(b.book_title.as_str());
    if chars_less(&at, &bt) {
        return true;
    }
    if !chars_eq(&at, &bt) {
        return false;
    }
    let ai = str_chars(a.book_id.as_str());
    let bi = str_chars(b.book_id.as_str());
    chars_less(&ai, &bi)
}

/// Whether the sources already hold the book of `x` in the vault of `x`.
fn holds_source(sources: &Vec<ComparisonPersonSource>, x: &ComparisonPersonSource) -> (r: bool)
    ensures
        r == exists|j: int| 0 <= j < sources@.len() && #[trigger] sources@[j].book_id@ == x.book_id@ && sources@[j].vault_path@ == x.vault_path@,
{
    let xb = str_chars(x.book_id.as_str());
    let xv = str_chars(x.vault_path.as_str());
    let mut j: usize = 0;
    while j < sources.len()
        invariant
            j <= sources@.len(),
            xb@ == x.book_id@,
            xv@ == x.vault_path@,
            forall|k: int| 0 <= k < j ==> !(#[trigger] sources@[k].book_id@ == x.book_id@ && sources@[k].vault_path@ == x.vault_path@),
        decreases sources@.len() - j,
    {
        let b = str_chars(sources[j].book_id.as_str());
        let v = str_chars(sources[j].vault_path.as_str());
        if chars_eq(&b, &xb) && chars_eq(&v, &xv) {
            return true;
        }
        j = j + 1;
    }
    false
}

/// Sorts sources by title and book id, keeping the order of equal keys.
fn sort_sources(s: Vec<ComparisonPersonSource>) -> (r: Vec<ComparisonPersonSource>)
    ensures
        r@ == sorted_sources(s@),
{
    sort_stable(s, source_less, Ghost(source_order()))
}

/// Adds to `target` the source books of `incoming` that it does not list
/// yet (same book in the same vault), then orders them by title and book id.
pub fn merge_comparison_person_sources(target: &mut ComparisonPerson, incoming: ComparisonPerson)
    ensures
        final(target).source_books@ == sorted_sources(
            merged_sources(old(target).source_books@, incoming.source_books@),
        ),
        final(target).vault_path == old(target).vault_path,
        final(target).vault_name == old(target).vault_name,
        final(target).person_id == old(target).person_id,
        final(target).display_name == old(target).display_name,
        final(target).address == old(target).address,
        final(target).notes == old(target).notes,
        final(target).tags == old(target).tags,
{
    let ghost inc = incoming.source_books@;
    let n = incoming.source_books.len();
    let mut rest = incoming.source_books;
    let mut merged: Vec<ComparisonPersonSource> = Vec::new();
    std::mem::swap(&mut merged, &mut target.source_books);
    let ghost start = merged@;
    let mut k: usize = 0;
    while k < n
        invariant
            k <= n == inc.len(),
            rest@ == inc.skip(k as int),
            merged@ == merged_sources(start, inc.take(k as int)),
        decreases n - k,
    {
        let x = rest.remove(0);
        assert(x == inc[k as int]);
        assert(rest@ =~= inc.skip(k as int + 1));
        proof {
            assert(inc.take(k as int + 1).drop_last() =~= inc.take(k as int));
            assert(inc.take(k as int + 1).last() == x);
        }
        let ghost before_step = merged@;
        let held = holds_source(&merged, &x);
        if !held {
            merged.push(x);
        }
        proof {
            let t = inc.take(k as int + 1);
            let m = merged_sources(start, t.drop_last());
            assert(m == before_step);
            if held {
                let j = choose|j: int|
                    0 <= j < before_step.len() && #[trigger] before_step[j].book_id@ == x.book_id@
                        && before_step[j].vault_path@ == x.vault_path@;
                assert(m[j].book_id@ == x.book_id@ && m[j].vault_path@ == x.vault_path@);
            }
            assert(merged@ == merged_sources(start, t));
        }
        k = k + 1;
    }
    proof {
        lemma_take_full(inc);
    }
    target.source_books = sort_sources(merged);
}

} // verus!

verus! {

// ---------------------------------------------------------------------------
// Lists of people
// ---------------------------------------------------------------------------

/// Optional texts in order: nothing first, then by text.
pub open spec fn opt_text_lt(a: Option<String>, b: Option<String>) -> bool {
    match (a, b) {
        (None, Some(_)) => true,
        (Some(x), Some(y)) => chars_lt(x@, y@),
        _ => false,
    }
}

/// The order in which people are listed: by name, then vault name, then
/// address (no address first).
pub open spec fn person_before(a: ComparisonPerson, b: ComparisonPerson) -> bool {
    ||| chars_lt(a.display_name@, b.display_name@)
    ||| a.display_name@ == b.display_name@ && chars_lt(a.vault_name@, b.vault_name@)
    ||| a.display_name@ == b.display_name@ && a.vault_name@ == b.vault_name@ && opt_text_lt(a.address, b.address)
}

/// The order in which people are listed, as a relation.
pub open spec fn person_order() -> spec_fn(ComparisonPerson, ComparisonPerson) -> bool {
    |a: ComparisonPerson, b: ComparisonPerson| person_before(a, b)
}

/// The people sorted by name, vault name and address, equal keys keeping
/// their order (a stable sort, as `sort_by`).
pub open spec fn sorted_people(s: Seq<ComparisonPerson>) -> Seq<ComparisonPerson> {
    stable_sort(s, person_order())
}

/// Whether person `a` is listed before person `b`.
fn person_less(a: &ComparisonPerson, b: &ComparisonPerson) -> (r: bool)
    ensures
        r == person_before(*a, *b),
{
    let an = str_chars(a.display_name.as_str());
    let bn = str_chars(b.display_name.as_str());
    if chars_less(&an, &bn) {
        return true;
    }
    if !chars_eq(&an, &bn) {
        return false;
    }
    let av = str_chars(a.vault_name.as_str());
    let bv = str_chars(b.vault_name.as_str());
    if chars_less(&av, &bv) {
        return true;
    }
    if !chars_eq(&av, &bv) {
        return false;
    }
    match (&a.address, &b.address) {
        (None, Some(_)) => true,
        (Some(x), Some(y)) => {
            let xc = str_chars(x.as_str());
            let yc = str_chars(y.as_str());
            chars_less(&xc, &yc)
        },
        _ => false,
    }
}

/// Sorts people by name, vault name and address, keeping the order of
/// equal keys.
pub fn sort_comparison_people(people: Vec<ComparisonPerson>) -> (r: Vec<ComparisonPerson>)
    ensures
        r@ == sorted_people(people@),
{
    sort_stable(people, person_less, Ghost(person_order()))
}

/// `p` has a (non-empty) matching name that is also found in another vault.
pub open spec fn in_several_vaults(people: Seq<ComparisonPerson>, p: ComparisonPerson) -> bool {
    &&& spec_person_key(p.display_name@).len() > 0
    &&& exists|q: int|
        0 <= q < people.len() && spec_person_key(#[trigger] people[q].display_name@)
            == spec_person_key(p.display_name@) && people[q].vault_path@ != p.vault_path@
}

/// The people whose matching name is found in at least two vaults, in
/// their order.
pub fn people_in_several_vaults(people: Vec<ComparisonPerson>) -> (r: Vec<ComparisonPerson>)
    ensures
        r@ == keep(people@, |p: ComparisonPerson| in_several_vaults(people@, p)),
{
    let ghost all = people@;
    let n = people.len();
    let mut keys: Vec<Vec<char>> = Vec::new();
    let mut i: usize = 0;
    while i < n
        invariant
            i <= n == people@.len(),
            keys@.len() == i,
            forall|k: int| 0 <= k < i ==> #[trigger] keys@[k]@ == spec_person_key(people@[k].display_name@),
        decreases n - i,
    {
        keys.push(person_key_chars(people[i].display_name.as_str()));
        i = i + 1;
    }
    let mut flags: Vec<bool> = Vec::new();
    let mut a: usize = 0;
    while a < n
        invariant
            a <= n == people@.len(),
            all == people@,
            keys@.len() == n,
            forall|k: int| 0 <= k < n ==> #[trigger] keys@[k]@ == spec_person_key(people@[k].display_name@),
            flags@.len() == a,
            forall|k: int| 0 <= k < a ==> #[trigger] flags@[k] == in_several_vaults(all, all[k]),
        decreases n - a,
    {
        let mut found = false;
        if keys[a].len() > 0 {
            let va = str_chars(people[a].vault_path.as_str());
            let mut b: usize = 0;
            while b < n && !found
                invariant
                    b <= n == people@.len(),
                    a < n,
                    va@ == people@[a as int].vault_path@,
                    keys@.len() == n,
                    forall|k: int| 0 <= k < n ==> #[trigger] keys@[k]@ == spec_person_key(people@[k].display_name@),
                    found ==> exists|q: int|
                        0 <= q < people@.len() && spec_person_key(#[trigger] people@[q].display_name@)
                            == spec_person_key(people@[a as int].display_name@) && people@[q].vault_path@ != people@[a as int].vault_path@,
                    !found ==> forall|q: int|
                        0 <= q < b ==> !(spec_person_key(#[trigger] people@[q].display_name@)
                            == spec_person_key(people@[a as int].display_name@) && people@[q].vault_path@ != people@[a as int].vault_path@),
                decreases n - b + if found {
                    0int
                } else {
                    1int
                },
            {
                let vb = str_chars(people[b].vault_path.as_str());
                if chars_eq(&keys[b], &keys[a]) && !chars_eq(&vb, &va) {
                    found = true;
                    assert(keys@[b as int]@ == spec_person_key(people@[b as int].display_name@));
                } else {
                    b = b + 1;
                }
            }
        }
        flags.push(found);
        a = a + 1;
    }
    let ghost pred = |p: ComparisonPerson| in_several_vaults(all, p);
    let mut rest = people;
    let mut out: Vec<ComparisonPerson> = Vec::new();
    let mut k: usize = 0;
    while k < n
        invariant
            k <= n == all.len(),
            rest@ == all.skip(k as int),
            flags@.len() == n,
            forall|j: int| 0 <= j < n ==> #[trigger] flags@[j] == in_several_vaults(all, all[j]),
            pred == (|p: ComparisonPerson| in_several_vaults(all, p)),
            out@ == keep(all.take(k as int), pred),
        decreases n - k,
    {
        proof {
            lemma_keep_step(all, pred, k as int);
        }
        let p = rest.remove(0);
        assert(p == all[k as int]);
        assert(rest@ =~= all.skip(k as int + 1));
        if flags[k] {
            out.push(p);
        }
        k = k + 1;
    }
    proof {
        lemma_take_full(all);
    }
    out
}

} // verus!

verus! {

/// A listed person by its fields: vault path, vault name, person id, name,
/// address, notes, tags and source books.
pub open spec fn person_view(p: ComparisonPerson) -> (Seq<char>, Seq<char>, Seq<char>, Seq<char>, Option<String>, Option<String>, Seq<crate::models::Tag>, Seq<ComparisonPersonSource>) {
    (p.vault_path@, p.vault_name@, p.person_id@, p.display_name@, p.address, p.notes, p.tags@, p.source_books@)
}

/// The identity of a listed person: its vault and its id in it.
pub open spec fn view_identity(v: (Seq<char>, Seq<char>, Seq<char>, Seq<char>, Option<String>, Option<String>, Seq<crate::models::Tag>, Seq<ComparisonPersonSource>)) -> Seq<char> {
    v.0 + seq!['\u{1f}'] + v.2
}

/// The first position, from `k` on, of a person with the identity `id`.
pub open spec fn find_identity(s: Seq<(Seq<char>, Seq<char>, Seq<char>, Seq<char>, Option<String>, Option<String>, Seq<crate::models::Tag>, Seq<ComparisonPersonSource>)>, id: Seq<char>, k: int) -> int
    decreases s.len() - k,
{
    if k < 0 || k >= s.len() {
        s.len() as int
    } else if view_identity(s[k]) == id {
        k
    } else {
        find_identity(s, id, k + 1)
    }
}

/// The people listed once per identity, in order of first appearance, the
/// source books of later listings of the same person merged into the first.
pub open spec fn unique_people(s: Seq<(Seq<char>, Seq<char>, Seq<char>, Seq<char>, Option<String>, Option<String>, Seq<crate::models::Tag>, Seq<ComparisonPersonSource>)>) -> Seq<(Seq<char>, Seq<char>, Seq<char>, Seq<char>, Option<String>, Option<String>, Seq<crate::models::Tag>, Seq<ComparisonPersonSource>)>
    decreases s.len(),
{
    if s.len() == 0 {
        Seq::empty()
    } else {
        let prev = unique_people(s.drop_last());
        let x = s.last();
        let j = find_identity(prev, view_identity(x), 0);
        if j < prev.len() {
            let p = prev[j];
            prev.update(j, (p.0, p.1, p.2, p.3, p.4, p.5, p.6, sorted_sources(merged_sources(p.7, x.7))))
        } else {
            prev.push(x)
        }
    }
}

/// Lists each person once, in order of first appearance, merging the
/// source books of later listings of the same person (same vault, same id)
/// into the first.
pub fn unique_comparison_people(people: Vec<ComparisonPerson>) -> (r: Vec<ComparisonPerson>)
    ensures
        r@.map_values(|p: ComparisonPerson| person_view(p)) == unique_people(people@.map_values(|p: ComparisonPerson| person_view(p))),
{
    let ghost orig = people@;
    let ghost all = people@.map_values(|p: ComparisonPerson| person_view(p));
    let n = people.len();
    let mut rest = people;
    let mut out: Vec<ComparisonPerson> = Vec::new();
    let mut ids: Vec<Vec<char>> = Vec::new();
    let mut k: usize = 0;
    while k < n
        invariant
            k <= n == all.len(),
            orig.len() == n,
            all == orig.map_values(|p: ComparisonPerson| person_view(p)),
            rest@ == orig.skip(k as int),
            out@.map_values(|p: ComparisonPerson| person_view(p)) == unique_people(all.take(k as int)),
            ids@.len() == out@.len(),
            forall|j: int| 0 <= j < ids@.len() ==> #[trigger] ids@[j]@ == identity(out@[j]),
        decreases n - k,
    {
        let ghost before = out@.map_values(|p: ComparisonPerson| person_view(p));
        let x = rest.remove(0);
        proof {
            assert(x == orig[k as int]);
            assert(rest@ =~= orig.skip(k as int + 1));
            assert(person_view(x) == all[k as int]);
            assert(all.take(k as int + 1).drop_last() =~= all.take(k as int));
            assert(all.take(k as int + 1).last() == person_view(x));
        }
        let id = identity_chars(&x);
        let mut j: usize = 0;
        while j < ids.len() && !chars_eq(&ids[j], &id)
            invariant
                j <= ids@.len(),
                ids@.len() == out@.len(),
                before == out@.map_values(|p: ComparisonPerson| person_view(p)),
                forall|m: int| 0 <= m < ids@.len() ==> #[trigger] ids@[m]@ == identity(out@[m]),
                id@ == identity(x),
                find_identity(before, view_identity(person_view(x)), 0) == find_identity(before, view_identity(person_view(x)), j as int),
            decreases ids@.len() - j,
        {
            assert(view_identity(before[j as int]) == identity(out@[j as int]));
            j = j + 1;
        }
        if j < ids.len() {
            assert(view_identity(before[j as int]) == identity(out@[j as int]));
            let ghost old_out = out@;
            let mut p = out.remove(j);
            let ghost pv = person_view(p);
            merge_comparison_person_sources(&mut p, x);
            out.insert(j, p);
            assert(out@ =~= old_out.update(j as int, out@[j as int]));
            assert(out@.map_values(|p: ComparisonPerson| person_view(p)) =~= before.update(
                j as int,
                (pv.0, pv.1, pv.2, pv.3, pv.4, pv.5, pv.6, sorted_sources(merged_sources(pv.7, all[k as int].7))),
            ));
            assert forall|m: int| 0 <= m < ids@.len() implies #[trigger] ids@[m]@ == identity(out@[m]) by {
                if m != j {
                    assert(out@[m] == old_out[m]);
                }
            }
        } else {
            assert(find_identity(before, view_identity(person_view(x)), j as int) == before.len());
            out.push(x);
            ids.push(id);
            assert(out@.map_values(|p: ComparisonPerson| person_view(p)) =~= before.push(all[k as int]));
        }
        k = k + 1;
    }
    proof {
        lemma_take_full(all);
    }
    out
}

} // verus!

verus! {

// ---------------------------------------------------------------------------
// The orders used for lists are strict orders
// ---------------------------------------------------------------------------

proof fn lemma_text_chain(x: Seq<char>, y: Seq<char>, z: Seq<char>)
    ensures
        !chars_lt(x, x),
        chars_lt(x, y) && chars_lt(y, z) ==> chars_lt(x, z),
{
    lemma_chars_lt_irreflexive(x);
    if chars_lt(x, y) && chars_lt(y, z) {
        lemma_chars_lt_transitive(x, y, z);
    }
}

proof fn lemma_opt_text_chain(x: Option<String>, y: Option<String>, z: Option<String>)
    ensures
        !opt_text_lt(x, x),
        opt_text_lt(x, y) && opt_text_lt(y, z) ==> opt_text_lt(x, z),
{
    match (x, y, z) {
        (Some(a), Some(b), Some(c)) => lemma_text_chain(a@, b@, c@),
        (Some(a), _, _) => lemma_text_chain(a@, a@, a@),
        _ => {},
    }
}

proof fn lemma_source_order_strict()
    ensures
        strict_order(source_order()),
{
    assert forall|a: ComparisonPersonSource| !#[trigger] (source_order())(a, a) by {
        lemma_text_chain(a.book_title@, a.book_title@, a.book_title@);
        lemma_text_chain(a.book_id@, a.book_id@, a.book_id@);
    }
    assert forall|a: ComparisonPersonSource, b: ComparisonPersonSource, c: ComparisonPersonSource|
        #[trigger] (source_order())(a, b) && #[trigger] (source_order())(b, c) implies (
        source_order())(a, c) by {
        lemma_text_chain(a.book_title@, b.book_title@, c.book_title@);
        lemma_text_chain(a.book_id@, b.book_id@, c.book_id@);
    }
}

proof fn lemma_person_order_strict()
    ensures
        strict_order(person_order()),
{
    assert forall|a: ComparisonPerson| !#[trigger] (person_order())(a, a) by {
        lemma_text_chain(a.display_name@, a.display_name@, a.display_name@);
        lemma_text_chain(a.vault_name@, a.vault_name@, a.vault_name@);
        lemma_opt_text_chain(a.address, a.address, a.address);
    }
    assert forall|a: ComparisonPerson, b: ComparisonPerson, c: ComparisonPerson|
        #[trigger] (person_order())(a, b) && #[trigger] (person_order())(b, c) implies (
        person_order())(a, c) by {
        lemma_text_chain(a.display_name@, b.display_name@, c.display_name@);
        lemma_text_chain(a.vault_name@, b.vault_name@, c.vault_name@);
        lemma_opt_text_chain(a.address, b.address, c.address);
    }
}

/// The source books of a person, once merged, are ordered by title and
/// book id, and are exactly the books that went in.
pub proof fn law_sources_are_ordered(sources: Seq<ComparisonPersonSource>)
    ensures
        in_order(sorted_sources(sources), source_order()),
        sorted_sources(sources).to_multiset() == sources.to_multiset(),
{
    lemma_source_order_strict();
    lemma_stable_sort(sources, source_order());
}

/// A list of people is ordered by name, vault name and address (no address
/// first), and holds exactly the people it was given.
pub proof fn law_people_are_ordered(people: Seq<ComparisonPerson>)
    ensures
        in_order(sorted_people(people), person_order()),
        sorted_people(people).to_multiset() == people.to_multiset(),
{
    lemma_person_order_strict();
    lemma_stable_sort(people, person_order());
}

} // verus!

verus! {

// ---------------------------------------------------------------------------
// Lists of books and of a person's history
// ---------------------------------------------------------------------------

/// Optional texts are equal.
pub open spec fn opt_text_eq(a: Option<String>, b: Option<String>) -> bool {
    match (a, b) {
        (None, None) => true,
        (Some(x), Some(y)) => x@ == y@,
        _ => false,
    }
}

/// The order in which books are compared: latest event date first (books
/// without a date last), then by vault name, then by title.
pub open spec fn book_order() -> spec_fn(ComparisonBook, ComparisonBook) -> bool {
    |a: ComparisonBook, b: ComparisonBook|
        {
            ||| opt_text_lt(b.event_date, a.event_date)
            ||| opt_text_eq(a.event_date, b.event_date) && chars_lt(a.vault_name@, b.vault_name@)
            ||| opt_text_eq(a.event_date, b.event_date) && a.vault_name@ == b.vault_name@
                && chars_lt(a.title@, b.title@)
        }
}

/// The order of a person's history: latest event date first (entries
/// without a date last), then the latest received time first.
pub open spec fn history_order() -> spec_fn(ComparisonPersonHistory, ComparisonPersonHistory) -> bool {
    |a: ComparisonPersonHistory, b: ComparisonPersonHistory|
        {
            ||| opt_text_lt(b.event_date, a.event_date)
            ||| opt_text_eq(a.event_date, b.event_date) && chars_lt(
                b.latest_received_at@,
                a.latest_received_at@,
            )
        }
}

fn opt_text_less(a: &Option<String>, b: &Option<String>) -> (r: bool)
    ensures
        r == opt_text_lt(*a, *b),
{
    match (a, b) {
        (None, Some(_)) => true,
        (Some(x), Some(y)) => {
            let xc = str_chars(x.as_str());
            let yc = str_chars(y.as_str());
            chars_less(&xc, &yc)
        },
        _ => false,
    }
}

fn opt_text_same(a: &Option<String>, b: &Option<String>) -> (r: bool)
    ensures
        r == opt_text_eq(*a, *b),
{
    match (a, b) {
        (None, None) => true,
        (Some(x), Some(y)) => {
            let xc = str_chars(x.as_str());
            let yc = str_chars(y.as_str());
            chars_eq(&xc, &yc)
        },
        _ => false,
    }
}

fn book_less(a: &ComparisonBook, b: &ComparisonBook) -> (r: bool)
    ensures
        r == (book_order())(*a, *b),
{
    if opt_text_less(&b.event_date, &a.event_date) {
        return true;
    }
    if !opt_text_same(&a.event_date, &b.event_date) {
        return false;
    }
    let av = str_chars(a.vault_name.as_str());
    let bv = str_chars(b.vault_name.as_str());
    if chars_less(&av, &bv) {
        return true;
    }
    if !chars_eq(&av, &bv) {
        return false;
    }
    let at = str_chars(a.title.as_str());
    let bt = str_chars(b.title.as_str());
    chars_less(&at, &bt)
}

fn history_less(a: &ComparisonPersonHistory, b: &ComparisonPersonHistory) -> (r: bool)
    ensures
        r == (history_order())(*a, *b),
{
    if opt_text_less(&b.event_date, &a.event_date) {
        return true;
    }
    if !opt_text_same(&a.event_date, &b.event_date) {
        return false;
    }
    let ar = str_chars(a.latest_received_at.as_str());
    let br = str_chars(b.latest_received_at.as_str());
    chars_less(&br, &ar)
}

/// Orders the books to compare: latest event date first (books without a
/// date last), then by vault name, then by title; books equal on all three
/// keep their order.
pub fn sort_comparison_books(books: Vec<ComparisonBook>) -> (r: Vec<ComparisonBook>)
    ensures
        r@ == stable_sort(books@, book_order()),
{
    sort_stable(books, book_less, Ghost(book_order()))
}

/// Orders a person's history across books: latest event date first
/// (entries without a date last), then the latest received time first;
/// entries equal on both keep their order.
pub fn sort_person_history(history: Vec<ComparisonPersonHistory>) -> (r: Vec<ComparisonPersonHistory>)
    ensures
        r@ == stable_sort(history@, history_order()),
{
    sort_stable(history, history_less, Ghost(history_order()))
}

proof fn lemma_opt_text_eq(x: Option<String>, y: Option<String>, z: Option<String>)
    ensures
        opt_text_eq(x, x),
        opt_text_eq(x, y) ==> opt_text_eq(y, x),
        opt_text_eq(x, y) && opt_text_eq(y, z) ==> opt_text_eq(x, z),
        opt_text_eq(x, y) ==> (opt_text_lt(x, z) == opt_text_lt(y, z) && opt_text_lt(z, x)
            == opt_text_lt(z, y)),
{
}

/// The books to compare are listed latest event first, then by vault name
/// and title, and the list holds exactly the books it was given.
pub proof fn law_books_are_ordered(books: Seq<ComparisonBook>)
    ensures
        in_order(stable_sort(books, book_order()), book_order()),
        stable_sort(books, book_order()).to_multiset() == books.to_multiset(),
{
    assert forall|a: ComparisonBook| !#[trigger] (book_order())(a, a) by {
        lemma_opt_text_chain(a.event_date, a.event_date, a.event_date);
        lemma_text_chain(a.vault_name@, a.vault_name@, a.vault_name@);
        lemma_text_chain(a.title@, a.title@, a.title@);
    }
    assert forall|a: ComparisonBook, b: ComparisonBook, c: ComparisonBook|
        #[trigger] (book_order())(a, b) && #[trigger] (book_order())(b, c) implies (book_order())(
        a,
        c,
    ) by {
        lemma_opt_text_chain(c.event_date, b.event_date, a.event_date);
        lemma_opt_text_eq(a.event_date, b.event_date, c.event_date);
        lemma_opt_text_eq(b.event_date, c.event_date, a.event_date);
        lemma_text_chain(a.vault_name@, b.vault_name@, c.vault_name@);
        lemma_text_chain(a.title@, b.title@, c.title@);
    }
    lemma_stable_sort(books, book_order());
}

/// A person's history is listed latest event first, then latest received
/// first, and holds exactly the entries it was given.
pub proof fn law_history_is_ordered(history: Seq<ComparisonPersonHistory>)
    ensures
        in_order(stable_sort(history, history_order()), history_order()),
        stable_sort(history, history_order()).to_multiset() == history.to_multiset(),
{
    assert forall|a: ComparisonPersonHistory| !#[trigger] (history_order())(a, a) by {
        lemma_opt_text_chain(a.event_date, a.event_date, a.event_date);
        lemma_text_chain(a.latest_received_at@, a.latest_received_at@, a.latest_received_at@);
    }
    assert forall|a: ComparisonPersonHistory, b: ComparisonPersonHistory, c: ComparisonPersonHistory|
        #[trigger] (history_order())(a, b) && #[trigger] (history_order())(b, c) implies (
        history_order())(a, c) by {
        lemma_opt_text_chain(c.event_date, b.event_date, a.event_date);
        lemma_opt_text_eq(a.event_date, b.event_date, c.event_date);
        lemma_opt_text_eq(b.event_date, c.event_date, a.event_date);
        lemma_text_chain(c.latest_received_at@, b.latest_received_at@, a.latest_received_at@);
    }
    lemma_stable_sort(history, history_order());
}

} // verus!

verus! {

// ---------------------------------------------------------------------------
// Duplicates by vault and person
// ---------------------------------------------------------------------------

/// `p` shares its (non-empty) matching name with a person of another vault,
/// or another person of its vault.
pub open spec fn is_duplicate_pair(people: Seq<ComparisonPerson>, p: ComparisonPerson) -> bool {
    &&& spec_person_key(p.display_name@).len() > 0
    &&& exists|q: int|
        0 <= q < people.len() && spec_person_key(#[trigger] people[q].display_name@)
            == spec_person_key(p.display_name@) && (people[q].vault_path@ != p.vault_path@
            || people[q].person_id@ != p.person_id@)
}

/// Two texts joined by a separator that neither holds come apart again.
proof fn lemma_joined_apart(a: Seq<char>, b: Seq<char>, c: Seq<char>, d: Seq<char>, s: char)
    requires
        !a.contains(s),
        !b.contains(s),
        !c.contains(s),
        !d.contains(s),
        a + seq![s] + b == c + seq![s] + d,
    ensures
        a == c && b == d,
{
    let x = a + seq![s] + b;
    let y = c + seq![s] + d;
    if a.len() < c.len() {
        assert(x[a.len() as int] == s);
        assert(y[a.len() as int] == c[a.len() as int]);
        assert(c.contains(s));
    } else if c.len() < a.len() {
        assert(y[c.len() as int] == s);
        assert(x[c.len() as int] == a[c.len() as int]);
        assert(a.contains(s));
    } else {
        assert(a =~= x.subrange(0, a.len() as int));
        assert(c =~= y.subrange(0, c.len() as int));
        assert(b =~= x.subrange(a.len() as int + 1, x.len() as int));
        assert(d =~= y.subrange(c.len() as int + 1, y.len() as int));
    }
}

proof fn lemma_keep_agree(s: Seq<ComparisonPerson>, p1: spec_fn(ComparisonPerson) -> bool, p2: spec_fn(ComparisonPerson) -> bool)
    requires
        forall|i: int| 0 <= i < s.len() ==> p1(#[trigger] s[i]) == p2(s[i]),
    ensures
        keep(s, p1) == keep(s, p2),
    decreases s.len(),
{
    if s.len() > 0 {
        assert forall|i: int| 0 <= i < s.drop_last().len() implies p1(#[trigger] s.drop_last()[i]) == p2(
            s.drop_last()[i],
        ) by {
            assert(s.drop_last()[i] == s[i]);
        }
        lemma_keep_agree(s.drop_last(), p1, p2);
        assert(p1(s[s.len() - 1]) == p2(s[s.len() - 1]));
    }
}

/// When no vault path or person id holds the separator U+001F, the
/// duplicates are exactly the people whose matching name is shared by a
/// different (vault, person) pair, in their order.
pub proof fn law_duplicates_by_pair(people: Seq<ComparisonPerson>)
    requires
        forall|i: int| 0 <= i < people.len() ==> !(#[trigger] people[i]).vault_path@.contains('\u{1f}')
            && !people[i].person_id@.contains('\u{1f}'),
    ensures
        keep(people, |p: ComparisonPerson| is_duplicate(people, p)) == keep(
            people,
            |p: ComparisonPerson| is_duplicate_pair(people, p),
        ),
{
    let p1 = |p: ComparisonPerson| is_duplicate(people, p);
    let p2 = |p: ComparisonPerson| is_duplicate_pair(people, p);
    assert forall|i: int| 0 <= i < people.len() implies p1(#[trigger] people[i]) == p2(people[i]) by {
        let p = people[i];
        assert forall|q: int| 0 <= q < people.len() implies (identity(#[trigger] people[q]) != identity(p)) == (
            people[q].vault_path@ != p.vault_path@ || people[q].person_id@ != p.person_id@) by {
            if identity(people[q]) == identity(p) {
                lemma_joined_apart(
                    people[q].vault_path@,
                    people[q].person_id@,
                    p.vault_path@,
                    p.person_id@,
                    '\u{1f}',
                );
            }
        }
        if is_duplicate(people, p) {
            let q = choose|q: int|
                0 <= q < people.len() && spec_person_key(#[trigger] people[q].display_name@)
                    == spec_person_key(p.display_name@) && identity(people[q]) != identity(p);
            assert(is_duplicate_pair(people, p));
        }
        if is_duplicate_pair(people, p) {
            let q = choose|q: int|
                0 <= q < people.len() && spec_person_key(#[trigger] people[q].display_name@)
                    == spec_person_key(p.display_name@) && (people[q].vault_path@ != p.vault_path@
                    || people[q].person_id@ != p.person_id@);
            assert(is_duplicate(people, p));
        }
    }
    lemma_keep_agree(people, p1, p2);
}

} // verus!
