//! Automatic backups of a ledger: when one is taken, what it is called,
//! and which old ones are removed.
use vstd::prelude::*;
use crate::files::{path_join, std_path_join};
use crate::text::{
    chars_less, chars_lt, lemma_chars_lt_irreflexive, lemma_chars_lt_total,
    lemma_chars_lt_transitive, starts_with, starts_with_chars, str_chars, strings_view,
};

verus! {

/// A UUID in its hyphenated form: 36 characters, hyphens after the 8th,
/// 12th, 16th and 20th digit, the digits lower-case hexadecimal.
pub open spec fn is_hyphenated_uuid(t: Seq<char>) -> bool {
    &&& t.len() == 36
    &&& forall|i: int|
        0 <= i < 36 ==> if i == 8 || i == 13 || i == 18 || i == 23 {
            #[trigger] t[i] == '-'
        } else {
            crate::security::is_lower_hex(t[i])
        }
}

/// A fresh random UUID in its hyphenated form (`Uuid::new_v4()` shown
/// with `Display`, which writes the lower-case hyphenated form). Nothing is
/// stated of its value beyond that form.
#[verifier::external_body]
pub(crate) fn random_uuid_text() -> (r: String)
    ensures
        is_hyphenated_uuid(r@),
{
    uuid::Uuid::new_v4().to_string()
}

/// How many names of `names` sort after `n`.
pub open spec fn count_later(names: Seq<Seq<char>>, n: Seq<char>) -> nat
    decreases names.len(),
{
    if names.len() == 0 {
        0
    } else {
        count_later(names.drop_last(), n) + if chars_lt(n, names.last()) {
            1nat
        } else {
            0nat
        }
    }
}

/// How many backups are kept.
pub const KEPT_BACKUPS: usize = 10;

/// The backups to remove, given the names of the backup files of a
/// ledger: all but the ten that sort last (the newest), in the order
/// given.
pub open spec fn spec_backups_to_prune(names: Seq<Seq<char>>) -> Seq<Seq<char>> {
    names.filter(|n: Seq<char>| count_later(names, n) >= 10)
}

/// How many of `names` sort after `n`.
fn count_later_exec(names: &[String], n: &Vec<char>) -> (r: usize)
    ensures
        r as nat == count_later(strings_view(names@), n@),
{
    let ghost nv = strings_view(names@);
    let mut c: usize = 0;
    let mut i: usize = 0;
    while i < names.len()
        invariant
            i <= names@.len(),
            nv == strings_view(names@),
            c as nat == count_later(nv.take(i as int), n@),
            c <= i,
        decreases names@.len() - i,
    {
        let m = str_chars(names[i].as_str());
        proof {
            let t = nv.take(i as int + 1);
            assert(t.drop_last() =~= nv.take(i as int));
            assert(t.last() == m@);
        }
        if chars_less(n, &m) {
            c = c + 1;
        }
        i = i + 1;
    }
    assert(nv.take(nv.len() as int) =~= nv);
    c
}

/// The backup files to remove: all but the ten newest. The names are
/// those of the files of one directory, so none occurs twice.
pub fn backups_to_prune(names: &[String]) -> (r: Vec<String>)
    requires
        strings_view(names@).no_duplicates(),
    ensures
        strings_view(r@) == spec_backups_to_prune(strings_view(names@)),
{
    let ghost nv = strings_view(names@);
    let ghost keep = |n: Seq<char>| count_later(nv, n) >= 10;
    let mut out: Vec<String> = Vec::new();
    let mut i: usize = 0;
    while i < names.len()
        invariant
            i <= names@.len(),
            nv == strings_view(names@),
            keep == (|n: Seq<char>| count_later(nv, n) >= 10),
            strings_view(out@) == nv.take(i as int).filter(keep),
        decreases names@.len() - i,
    {
        let n = str_chars(names[i].as_str());
        let later = count_later_exec(names, &n);
        proof {
            let t = nv.take(i as int + 1);
            assert(t.drop_last() =~= nv.take(i as int));
            assert(t.last() == n@);
            reveal(Seq::filter);
        }
        if later >= KEPT_BACKUPS {
            let ghost before = strings_view(out@);
            out.push(names[i].clone());
            assert(strings_view(out@) =~= before.push(n@));
        }
        i = i + 1;
    }
    assert(nv.take(nv.len() as int) =~= nv);
    out
}

/// Whether a daily backup of day `day` (`YYYYMMDD`) is among the backup
/// files `names`.
pub fn has_daily_backup(names: &[String], day: &str) -> (r: bool)
    ensures
        r == exists|i: int| 0 <= i < names@.len() && starts_with(#[trigger] names@[i]@, "daily-"@ + day@),
{
    let mut prefix = str_chars("daily-");
    crate::text::extend_str(&mut prefix, day);
    let mut i: usize = 0;
    while i < names.len()
        invariant
            i <= names@.len(),
            prefix@ == "daily-"@ + day@,
            forall|k: int| 0 <= k < i ==> !starts_with(#[trigger] names@[k]@, "daily-"@ + day@),
        decreases names@.len() - i,
    {
        let n = str_chars(names[i].as_str());
        if starts_with_chars(&n, &prefix) {
            return true;
        }
        i = i + 1;
    }
    false
}

/// Whether a backup is taken before a change, and under which prefix: a
/// risky change (`high_risk`) is always backed up under its `reason`;
/// another only when the day has no daily backup yet, as `daily`.
pub open spec fn spec_backup_prefix(high_risk: bool, reason: Seq<char>, has_daily: bool) -> Option<Seq<char>> {
    if !high_risk && has_daily {
        None
    } else if high_risk {
        Some(reason)
    } else {
        Some("daily"@)
    }
}

/// Whether a backup is taken before a change, and under which prefix.
pub fn backup_prefix(high_risk: bool, reason: &str, has_daily: bool) -> (r: Option<String>)
    ensures
        match spec_backup_prefix(high_risk, reason@, has_daily) {
            Some(p) => r matches Some(x) && x@ == p,
            None => r is None,
        },
{
    if !high_risk && has_daily {
        None
    } else if high_risk {
        Some(crate::text::owned(reason))
    } else {
        Some(crate::text::owned("daily"))
    }
}

/// The file name of a backup: `prefix-timestamp-id.giftvault`.
pub open spec fn spec_backup_file_name(prefix: Seq<char>, timestamp: Seq<char>, id: Seq<char>) -> Seq<char> {
    prefix + "-"@ + timestamp + "-"@ + id + ".giftvault"@
}

/// A new backup file in `directory`, named after `prefix`, the local time
/// to the millisecond (`%Y%m%d-%H%M%S-%3f`), and a random hyphenated UUID.
pub fn automatic_backup_path(directory: &str, prefix: &str) -> (r: String)
    ensures
        exists|timestamp: Seq<char>, id: Seq<char>|
            #![trigger spec_backup_file_name(prefix@, timestamp, id)]
            crate::import::is_backup_stamp(timestamp) && is_hyphenated_uuid(id) && r@ == std_path_join(
                directory@,
                spec_backup_file_name(prefix@, timestamp, id),
            ),
{
    let timestamp = crate::import::local_now_format("%Y%m%d-%H%M%S-%3f");
    let id = random_uuid_text();
    proof {
        reveal_strlit("%Y%m%d-%H%M%S-%3f");
        reveal_strlit("%Y-%m-%d %H:%M:%S");
        assert("%Y%m%d-%H%M%S-%3f"@[2] != "%Y-%m-%d %H:%M:%S"@[2]);
        assert(crate::import::is_backup_stamp(timestamp@));
    }
    let mut name = str_chars(prefix);
    crate::text::extend_str(&mut name, "-");
    crate::text::extend_str(&mut name, timestamp.as_str());
    crate::text::extend_str(&mut name, "-");
    crate::text::extend_str(&mut name, id.as_str());
    crate::text::extend_str(&mut name, ".giftvault");
    let file = crate::text::string_from_chars(&name);
    assert(file@ == spec_backup_file_name(prefix@, timestamp@, id@));
    path_join(directory, file.as_str())
}

} // verus!

verus! {

/// A name that sorts before `p` has more names after it than `p` has,
/// and one more when `p` is among them.
pub proof fn lemma_count_later_mono(names: Seq<Seq<char>>, k: Seq<char>, p: Seq<char>)
    requires
        chars_lt(k, p),
    ensures
        count_later(names, k) >= count_later(names, p) + if names.contains(p) {
            1int
        } else {
            0int
        },
    decreases names.len(),
{
    if names.len() > 0 {
        let prev = names.drop_last();
        let x = names.last();
        lemma_count_later_mono(prev, k, p);
        lemma_chars_lt_irreflexive(p);
        if chars_lt(p, x) {
            lemma_chars_lt_transitive(k, p, x);
        }
        assert(names =~= prev.push(x));
        vstd::seq_lib::lemma_seq_contains_after_push(prev, x, p);
    }
}

/// Pruning keeps the newest backups: a backup that is removed (ten or more
/// names sort after it) sorts before every backup that is kept.
pub proof fn law_pruning_keeps_newest(names: Seq<Seq<char>>, removed: Seq<char>, kept: Seq<char>)
    requires
        names.contains(removed),
        names.contains(kept),
        count_later(names, removed) >= KEPT_BACKUPS,
        count_later(names, kept) < KEPT_BACKUPS,
    ensures
        chars_lt(removed, kept),
{
    if chars_lt(kept, removed) {
        lemma_count_later_mono(names, kept, removed);
    }
    lemma_chars_lt_total(removed, kept);
}

} // verus!

verus! {

/// How many of the names `s` have at least `t` names of `base` sorting
/// after them.
pub open spec fn count_at_least(s: Seq<Seq<char>>, base: Seq<Seq<char>>, t: int) -> nat
    decreases s.len(),
{
    if s.len() == 0 {
        0
    } else {
        count_at_least(s.drop_last(), base, t) + if count_later(base, s.last()) >= t {
            1nat
        } else {
            0nat
        }
    }
}

/// The pruned names are counted by `count_at_least`.
proof fn lemma_prune_len(names: Seq<Seq<char>>, s: Seq<Seq<char>>)
    ensures
        s.filter(|n: Seq<char>| count_later(names, n) >= 10).len() == count_at_least(s, names, 10),
    decreases s.len(),
{
    reveal(Seq::filter);
    if s.len() > 0 {
        lemma_prune_len(names, s.drop_last());
    }
}

/// Removing position `i` from `s` removes its contribution to `count_later`.
proof fn lemma_count_later_remove(s: Seq<Seq<char>>, x: Seq<char>, i: int)
    requires
        0 <= i < s.len(),
    ensures
        count_later(s, x) == count_later(s.remove(i), x) + if chars_lt(x, s[i]) {
            1int
        } else {
            0int
        },
    decreases s.len(),
{
    if i == s.len() - 1 {
        assert(s.remove(i) =~= s.drop_last());
    } else {
        lemma_count_later_remove(s.drop_last(), x, i);
        assert(s.remove(i).drop_last() =~= s.drop_last().remove(i));
        assert(s.remove(i).last() == s.last());
    }
}

/// Removing position `i` from `s` removes its contribution to `count_at_least`.
proof fn lemma_count_at_least_remove(s: Seq<Seq<char>>, base: Seq<Seq<char>>, t: int, i: int)
    requires
        0 <= i < s.len(),
    ensures
        count_at_least(s, base, t) == count_at_least(s.remove(i), base, t) + if count_later(base, s[i]) >= t {
            1int
        } else {
            0int
        },
    decreases s.len(),
{
    if i == s.len() - 1 {
        assert(s.remove(i) =~= s.drop_last());
    } else {
        lemma_count_at_least_remove(s.drop_last(), base, t, i);
        assert(s.remove(i).drop_last() =~= s.drop_last().remove(i));
        assert(s.remove(i).last() == s.last());
    }
}

/// Two counts agree when their conditions agree on every name counted.
proof fn lemma_count_at_least_congruent(s: Seq<Seq<char>>, b1: Seq<Seq<char>>, t1: int, b2: Seq<Seq<char>>, t2: int)
    requires
        forall|k: int| 0 <= k < s.len() ==> (count_later(b1, #[trigger] s[k]) >= t1) == (count_later(b2, s[k]) >= t2),
    ensures
        count_at_least(s, b1, t1) == count_at_least(s, b2, t2),
    decreases s.len(),
{
    if s.len() > 0 {
        assert forall|k: int| 0 <= k < s.drop_last().len() implies (count_later(b1, #[trigger] s.drop_last()[k]) >= t1) == (count_later(b2, s.drop_last()[k]) >= t2) by {
            assert(s.drop_last()[k] == s[k]);
        }
        lemma_count_at_least_congruent(s.drop_last(), b1, t1, b2, t2);
        assert(s.last() == s[s.len() - 1]);
    }
}

/// Every name has at least no name after it.
proof fn lemma_count_at_least_zero(s: Seq<Seq<char>>, base: Seq<Seq<char>>)
    ensures
        count_at_least(s, base, 0) == s.len(),
    decreases s.len(),
{
    if s.len() > 0 {
        lemma_count_at_least_zero(s.drop_last(), base);
    }
}

/// A name that no name of `s` sorts after has no name after it.
proof fn lemma_count_later_none(s: Seq<Seq<char>>, n: Seq<char>)
    requires
        forall|k: int| 0 <= k < s.len() ==> !chars_lt(n, #[trigger] s[k]),
    ensures
        count_later(s, n) == 0,
    decreases s.len(),
{
    if s.len() > 0 {
        assert forall|k: int| 0 <= k < s.drop_last().len() implies !chars_lt(n, #[trigger] s.drop_last()[k]) by {
            assert(s.drop_last()[k] == s[k]);
        }
        lemma_count_later_none(s.drop_last(), n);
        assert(s.last() == s[s.len() - 1]);
    }
}

/// A non-empty list of names has one that none sorts after.
proof fn lemma_newest_exists(s: Seq<Seq<char>>) -> (i: int)
    requires
        s.len() > 0,
    ensures
        0 <= i < s.len(),
        forall|k: int| 0 <= k < s.len() ==> !chars_lt(s[i], #[trigger] s[k]),
    decreases s.len(),
{
    if s.len() == 1 {
        lemma_chars_lt_irreflexive(s[0]);
        0
    } else {
        let p = s.drop_last();
        let j = lemma_newest_exists(p);
        let last = s.last();
        if chars_lt(p[j], last) {
            assert forall|k: int| 0 <= k < s.len() implies !chars_lt(s[s.len() - 1], #[trigger] s[k]) by {
                if k < s.len() - 1 {
                    assert(s[k] == p[k]);
                    if chars_lt(last, s[k]) {
                        lemma_chars_lt_transitive(p[j], last, s[k]);
                    }
                } else {
                    lemma_chars_lt_irreflexive(last);
                }
            }
            s.len() - 1
        } else {
            assert forall|k: int| 0 <= k < s.len() implies !chars_lt(s[j], #[trigger] s[k]) by {
                if k < s.len() - 1 {
                    assert(s[k] == p[k]);
                }
            }
            j
        }
    }
}

/// Among distinct names, exactly `max(0, n - t)` have at least `t` names
/// sorting after them.
proof fn lemma_count_at_least_distinct(s: Seq<Seq<char>>, t: int)
    requires
        s.no_duplicates(),
        t >= 0,
    ensures
        count_at_least(s, s, t) == if s.len() > t {
            s.len() - t
        } else {
            0
        },
    decreases s.len(),
{
    if t == 0 {
        lemma_count_at_least_zero(s, s);
    } else if s.len() > 0 {
        let i = lemma_newest_exists(s);
        let m = s[i];
        let rest = s.remove(i);
        lemma_count_at_least_remove(s, s, t, i);
        lemma_count_later_none(s, m);
        assert(rest.no_duplicates()) by {
            assert forall|a: int, b: int| 0 <= a < rest.len() && 0 <= b < rest.len() && a != b implies rest[a] != rest[b] by {
                let a2 = if a < i { a } else { a + 1 };
                let b2 = if b < i { b } else { b + 1 };
                assert(rest[a] == s[a2]);
                assert(rest[b] == s[b2]);
            }
        }
        assert forall|k: int| 0 <= k < rest.len() implies (count_later(s, #[trigger] rest[k]) >= t) == (count_later(rest, rest[k]) >= t - 1) by {
            let k2 = if k < i { k } else { k + 1 };
            assert(rest[k] == s[k2]);
            assert(k2 != i);
            assert(rest[k] != m);
            assert(!chars_lt(m, rest[k]));
            lemma_chars_lt_total(rest[k], m);
            lemma_count_later_remove(s, rest[k], i);
        }
        lemma_count_at_least_congruent(rest, s, t, rest, t - 1);
        lemma_count_at_least_distinct(rest, t - 1);
    }
}

/// Pruning keeps exactly the ten newest backups: of distinct backup names,
/// all but ten are removed (none when there are ten or fewer), and each
/// removed one sorts before each kept one.
pub proof fn law_pruning_keeps_ten(names: Seq<Seq<char>>)
    requires
        names.no_duplicates(),
    ensures
        spec_backups_to_prune(names).len() == if names.len() > KEPT_BACKUPS {
            names.len() - KEPT_BACKUPS
        } else {
            0
        },
        forall|removed: Seq<char>, kept: Seq<char>|
            names.contains(removed) && names.contains(kept) && count_later(names, removed) >= KEPT_BACKUPS
                && count_later(names, kept) < KEPT_BACKUPS ==> #[trigger] chars_lt(removed, kept),
{
    lemma_prune_len(names, names);
    lemma_count_at_least_distinct(names, 10);
    assert forall|removed: Seq<char>, kept: Seq<char>|
        names.contains(removed) && names.contains(kept) && count_later(names, removed) >= KEPT_BACKUPS
            && count_later(names, kept) < KEPT_BACKUPS implies #[trigger] chars_lt(removed, kept) by {
        law_pruning_keeps_newest(names, removed, kept);
    }
}

} // verus!
