//! The files the application deals with, by their paths: ledger files,
//! spreadsheets, the embedded browser runtime; and what the first lines of
//! a text spreadsheet say about its delimiter.
use vstd::prelude::*;
use crate::models::{VaultInfo, VaultOpenResult};
use crate::session::{role_name, session_role_name, SessionRole};
use crate::text::{ascii_lower, chars_eq_str, decimal, decimal_chars, owned, str_chars, strs_view, to_ascii_lower};

verus! {

/// The folder that the file dialogs open by default on Windows: "This PC".
pub const WINDOWS_THIS_PC_NAMESPACE: &'static str = "::{20D04FE0-3AEA-1069-A2D8-08002B30309D}";

/// `Path::extension` of a path, by its text.
pub uninterp spec fn std_path_extension(path: Seq<char>) -> Option<Seq<char>>;

/// The extension of a path (`std::path::Path::extension`). The contract
/// names the result without stating how std finds it.
#[verifier::external_body]
fn path_extension(path: &str) -> (r: Option<String>)
    ensures
        match r {
            Some(e) => std_path_extension(path@) == Some(e@),
            None => std_path_extension(path@) is None,
        },
{
    std::path::Path::new(path).extension().map(|e| e.to_string_lossy().to_string())
}

/// `PathBuf::set_extension` of a path, by its text.
pub uninterp spec fn std_path_set_extension(path: Seq<char>, extension: Seq<char>) -> Seq<char>;

/// A path with its extension replaced (`std::path::PathBuf::set_extension`).
/// The contract names the result without stating how std rewrites it. std
/// panics on an extension holding a path separator, so none is admitted.
#[verifier::external_body]
fn path_set_extension(path: &str, extension: &str) -> (r: String)
    requires
        !extension@.contains('/'),
        !extension@.contains('\\'),
    ensures
        r@ == std_path_set_extension(path@, extension@),
{
    let mut p = std::path::PathBuf::from(path);
    p.set_extension(extension);
    p.to_string_lossy().to_string()
}

/// `Path::parent` of a path, by its text.
pub uninterp spec fn std_path_parent(path: Seq<char>) -> Option<Seq<char>>;

/// The folder holding a path (`std::path::Path::parent`). The contract
/// names the result without stating how std finds it.
#[verifier::external_body]
fn path_parent(path: &str) -> (r: Option<String>)
    ensures
        match r {
            Some(p) => std_path_parent(path@) == Some(p@),
            None => std_path_parent(path@) is None,
        },
{
    std::path::Path::new(path).parent().map(|p| p.to_string_lossy().to_string())
}

/// `Path::join` of two paths, by their texts.
pub uninterp spec fn std_path_join(base: Seq<char>, part: Seq<char>) -> Seq<char>;

/// A path extended by another (`std::path::Path::join`). The contract names
/// the result without stating how std joins.
#[verifier::external_body]
pub(crate) fn path_join(base: &str, part: &str) -> (r: String)
    ensures
        r@ == std_path_join(base@, part@),
{
    std::path::Path::new(base).join(part).to_string_lossy().to_string()
}

/// The extensions of the spreadsheets that can be imported or compared.
pub open spec fn spec_spreadsheet_extensions() -> Seq<Seq<char>> {
    seq!["xlsx"@, "xls"@, "xlsm"@, "xlsb"@, "ods"@, "csv"@, "tsv"@]
}

/// The extensions of the spreadsheets that can be imported or compared.
pub fn spreadsheet_extensions() -> (r: Vec<&'static str>)
    ensures
        strs_view(r@) == spec_spreadsheet_extensions(),
{
    let r = vec!["xlsx", "xls", "xlsm", "xlsb", "ods", "csv", "tsv"];
    assert(strs_view(r@) =~= spec_spreadsheet_extensions());
    r
}

/// The path names a spreadsheet: its extension, in any case, is one of
/// the spreadsheet extensions.
pub open spec fn spec_is_comparison_spreadsheet(path: Seq<char>) -> bool {
    std_path_extension(path) matches Some(e) && spec_spreadsheet_extensions().contains(ascii_lower(e))
}

/// Whether the path names a spreadsheet.
pub fn is_comparison_spreadsheet(path: &str) -> (r: bool)
    ensures
        r == spec_is_comparison_spreadsheet(path@),
{
    let ext = match path_extension(path) {
        Some(e) => e,
        None => {
            return false;
        },
    };
    let ec = str_chars(ext.as_str());
    let lower = to_ascii_lower(&ec);
    let list = spreadsheet_extensions();
    let mut i: usize = 0;
    while i < list.len()
        invariant
            i <= list@.len(),
            strs_view(list@) == spec_spreadsheet_extensions(),
            std_path_extension(path@) == Some(ext@),
            lower@ == ascii_lower(ext@),
            forall|k: int| 0 <= k < i ==> #[trigger] spec_spreadsheet_extensions()[k] != lower@,
        decreases list@.len() - i,
    {
        assert(list@[i as int]@ == spec_spreadsheet_extensions()[i as int]);
        if chars_eq_str(&lower, list[i]) {
            assert(spec_spreadsheet_extensions()[i as int] == lower@);
            return true;
        }
        i = i + 1;
    }
    false
}

/// The path names a ledger file: its extension is `giftvault`, in any case.
pub open spec fn spec_is_giftvault_path(path: Seq<char>) -> bool {
    std_path_extension(path) matches Some(e) && ascii_lower(e) == "giftvault"@
}

/// Whether the path names a ledger file.
pub fn is_giftvault_path(path: &str) -> (r: bool)
    ensures
        r == spec_is_giftvault_path(path@),
{
    match path_extension(path) {
        Some(e) => {
            let ec = str_chars(e.as_str());
            let lower = to_ascii_lower(&ec);
            chars_eq_str(&lower, "giftvault")
        },
        None => false,
    }
}

/// The path of a ledger file: given its `giftvault` extension when it has
/// another or none.
pub open spec fn spec_normalize_vault_path(path: Seq<char>) -> Seq<char> {
    if std_path_extension(path) == Some("giftvault"@) {
        path
    } else {
        std_path_set_extension(path, "giftvault"@)
    }
}

/// The path of a ledger file, with its `giftvault` extension.
pub fn normalize_vault_path(path: &str) -> (r: String)
    ensures
        r@ == spec_normalize_vault_path(path@),
{
    match path_extension(path) {
        Some(e) => {
            let ec = str_chars(e.as_str());
            if chars_eq_str(&ec, "giftvault") {
                return owned(path);
            }
        },
        None => {},
    }
    proof {
        reveal_strlit("giftvault");
        assert(!"giftvault"@.contains('/') && !"giftvault"@.contains('\\')) by {
            assert forall|i: int| 0 <= i < "giftvault"@.len() implies "giftvault"@[i] != '/'
                && "giftvault"@[i] != '\\' by {
                assert(0 <= i < 9);
            }
        }
    }
    path_set_extension(path, "giftvault")
}

/// Where an embedded browser runtime may sit beside the program
/// `executable`, each with the file that shows it is there: a portable
/// layout first, then an installed one. Nothing when the program path has
/// no folder.
pub fn embedded_webview_runtime_candidates(executable: &str) -> (r: Vec<(String, String)>)
    ensures
        match std_path_parent(executable@) {
            None => r@.len() == 0,
            Some(parent) => {
                let portable = std_path_join(parent, "webview2-fixed"@);
                let installed = std_path_join(std_path_join(parent, "resources"@), "webview2-fixed"@);
                &&& r@.len() == 2
                &&& r@[0].0@ == portable
                &&& r@[0].1@ == std_path_join(portable, "msedgewebview2.exe"@)
                &&& r@[1].0@ == installed
                &&& r@[1].1@ == std_path_join(installed, "msedgewebview2.exe"@)
            },
        },
{
    let parent = match path_parent(executable) {
        Some(p) => p,
        None => {
            return Vec::new();
        },
    };
    let portable = path_join(parent.as_str(), "webview2-fixed");
    let resources = path_join(parent.as_str(), "resources");
    let installed = path_join(resources.as_str(), "webview2-fixed");
    let portable_marker = path_join(portable.as_str(), "msedgewebview2.exe");
    let installed_marker = path_join(installed.as_str(), "msedgewebview2.exe");
    let mut r: Vec<(String, String)> = Vec::new();
    r.push((portable, portable_marker));
    r.push((installed, installed_marker));
    r
}

/// The title tried for an imported book after `base` was taken:
/// `base (n)`.
pub fn book_title_candidate(base: &str, suffix: u64) -> (r: String)
    ensures
        r@ == base@ + " ("@ + decimal(suffix as nat) + ")"@,
{
    let mut c = str_chars(base);
    let open = str_chars(" (");
    crate::text::extend_chars(&mut c, &open);
    let digits = decimal_chars(suffix);
    let mut out = c;
    crate::text::extend_chars(&mut out, &digits);
    crate::text::extend_str(&mut out, ")");
    crate::text::string_from_chars(&out)
}

// ---------------------------------------------------------------------------
// Text spreadsheet delimiter
// ---------------------------------------------------------------------------

/// A line break.
pub open spec fn is_line_break(b: u8) -> bool {
    b == 10 || b == 13
}

/// How many line breaks `s` holds.
pub open spec fn line_breaks(s: Seq<u8>) -> nat
    decreases s.len(),
{
    if s.len() == 0 {
        0
    } else {
        line_breaks(s.drop_last()) + if is_line_break(s.last()) {
            1nat
        } else {
            0nat
        }
    }
}

/// How many times `d` occurs in the first twenty lines of `s`: at a
/// position with fewer than twenty line breaks before it.
pub open spec fn early_count(s: Seq<u8>, d: u8) -> nat
    decreases s.len(),
{
    if s.len() == 0 {
        0
    } else {
        early_count(s.drop_last(), d) + if s.last() == d && line_breaks(s.drop_last()) < 20 {
            1nat
        } else {
            0nat
        }
    }
}

/// The delimiter of a text spreadsheet: of comma, semicolon and tab, the
/// one found most often in its first twenty lines; comma on a tie or when
/// none is found, and semicolon before tab on a tie.
pub open spec fn spec_spreadsheet_delimiter(s: Seq<u8>) -> u8 {
    let comma = early_count(s, 44);
    let semi = early_count(s, 59);
    let tab = early_count(s, 9);
    let (best, n) = if semi > comma {
        (59u8, semi)
    } else {
        (44u8, comma)
    };
    if tab > n {
        9u8
    } else {
        best
    }
}

/// The delimiter of a text spreadsheet, from the bytes of the file.
pub fn spreadsheet_delimiter(bytes: &[u8]) -> (r: u8)
    ensures
        r == spec_spreadsheet_delimiter(bytes@),
{
    let mut breaks: usize = 0;
    let mut comma: usize = 0;
    let mut semi: usize = 0;
    let mut tab: usize = 0;
    let mut i: usize = 0;
    while i < bytes.len()
        invariant
            i <= bytes@.len(),
            breaks as nat == line_breaks(bytes@.take(i as int)),
            comma as nat == early_count(bytes@.take(i as int), 44),
            semi as nat == early_count(bytes@.take(i as int), 59),
            tab as nat == early_count(bytes@.take(i as int), 9),
            breaks <= i,
            comma <= i,
            semi <= i,
            tab <= i,
        decreases bytes@.len() - i,
    {
        let b = bytes[i];
        proof {
            let t = bytes@.take(i as int + 1);
            assert(t.drop_last() =~= bytes@.take(i as int));
            assert(t.last() == b);
        }
        if breaks < 20 {
            if b == 44 {
                comma = comma + 1;
            } else if b == 59 {
                semi = semi + 1;
            } else if b == 9 {
                tab = tab + 1;
            }
        }
        if b == 10 || b == 13 {
            breaks = breaks + 1;
        }
        i = i + 1;
    }
    assert(bytes@.take(bytes@.len() as int) =~= bytes@);
    let mut best: u8 = 44;
    let mut n: usize = comma;
    if semi > n {
        best = 59;
        n = semi;
    }
    if tab > n {
        best = 9;
    }
    best
}

} // verus!

verus! {

// ---------------------------------------------------------------------------
// What a ledger is called
// ---------------------------------------------------------------------------

/// `Path::file_stem` of a path, by its text.
pub uninterp spec fn std_path_file_stem(path: Seq<char>) -> Option<Seq<char>>;

/// The file name of a path without its extension (`std::path::Path::file_stem`).
/// The contract names the result without stating how std finds it.
#[verifier::external_body]
fn path_file_stem(path: &str) -> (r: Option<String>)
    ensures
        match r {
            Some(s) => std_path_file_stem(path@) == Some(s@),
            None => std_path_file_stem(path@) is None,
        },
{
    std::path::Path::new(path).file_stem().map(|s| s.to_string_lossy().to_string())
}

/// The name of a ledger: the one it stores, else its file's stem, else
/// `家庭礼金库`.
pub open spec fn spec_vault_name(stored: Option<Seq<char>>, path: Seq<char>) -> Seq<char> {
    match stored {
        Some(n) => n,
        None => match std_path_file_stem(path) {
            Some(s) => s,
            None => "家庭礼金库"@,
        },
    }
}

/// What the interface shows of an opened ledger at `path`, from what it
/// stores: its name (see `spec_vault_name`), its notes unless blank (trimmed),
/// and how many books it holds.
pub fn vault_info(path: &str, stored_name: Option<String>, stored_notes: Option<String>, book_count: i64) -> (r: VaultInfo)
    ensures
        r.path@ == path@,
        r.name@ == spec_vault_name(crate::audit::opt_view(stored_name), path@),
        crate::audit::opt_view(r.notes) == match stored_notes {
            Some(n) => crate::import::spec_null_if_empty(n@),
            None => None,
        },
        r.book_count == book_count,
{
    let name = match stored_name {
        Some(n) => n,
        None => match path_file_stem(path) {
            Some(s) => s,
            None => owned("家庭礼金库"),
        },
    };
    let notes = match stored_notes {
        Some(n) => crate::import::null_if_empty(n.as_str()),
        None => None,
    };
    VaultInfo { path: owned(path), name, notes, book_count }
}

/// What opening a ledger answers: the ledger and the session's role.
pub fn vault_open_result(vault: VaultInfo, role: SessionRole) -> (r: VaultOpenResult)
    ensures
        r.vault == vault,
        r.role@ == role_name(role),
{
    VaultOpenResult { vault, role: session_role_name(role) }
}

/// The name of a ledger in a comparison: the name it stores unless blank,
/// else its file's stem, else `礼金库`.
pub open spec fn spec_comparison_vault_name(stored: Option<Seq<char>>, path: Seq<char>) -> Seq<char> {
    match stored {
        Some(n) if crate::text::trim(n).len() > 0 => n,
        _ => match std_path_file_stem(path) {
            Some(s) => s,
            None => "礼金库"@,
        },
    }
}

/// The name of a ledger in a comparison.
pub fn comparison_vault_name(stored: Option<String>, path: &str) -> (r: String)
    ensures
        r@ == spec_comparison_vault_name(crate::audit::opt_view(stored), path@),
{
    if let Some(n) = stored {
        let c = str_chars(n.as_str());
        let t = crate::text::trim_chars(&c);
        if t.len() > 0 {
            return n;
        }
    }
    match path_file_stem(path) {
        Some(s) => s,
        None => owned("礼金库"),
    }
}

} // verus!

verus! {

// ---------------------------------------------------------------------------
// Files chosen for a comparison
// ---------------------------------------------------------------------------

/// How a file chosen for a comparison is used: a ledger as it is, a
/// spreadsheet after it is turned into a ledger.
#[derive(Debug, Clone, Copy, PartialEq, Eq, Structural)]
pub enum ComparisonFile {
    Vault,
    Spreadsheet,
}

/// How a chosen file takes part in a comparison; any other file is refused
/// with the message the user sees.
pub fn comparison_file_kind(path: &str) -> (r: Result<ComparisonFile, String>)
    ensures
        spec_is_giftvault_path(path@) ==> r == Ok::<ComparisonFile, String>(ComparisonFile::Vault),
        !spec_is_giftvault_path(path@) && spec_is_comparison_spreadsheet(path@) ==> r == Ok::<
            ComparisonFile,
            String,
        >(ComparisonFile::Spreadsheet),
        !spec_is_giftvault_path(path@) && !spec_is_comparison_spreadsheet(path@) ==> (r matches Err(m)
            && m@ == "不支持的比较文件类型："@ + path@),
{
    if is_giftvault_path(path) {
        Ok(ComparisonFile::Vault)
    } else if is_comparison_spreadsheet(path) {
        Ok(ComparisonFile::Spreadsheet)
    } else {
        let p = str_chars(path);
        Err(crate::text::concat2("不支持的比较文件类型：", &p))
    }
}

/// The texts of `s` without repeats, each where it first occurs.
pub open spec fn first_occurrences(s: Seq<Seq<char>>) -> Seq<Seq<char>>
    decreases s.len(),
{
    if s.len() == 0 {
        Seq::empty()
    } else {
        let kept = first_occurrences(s.drop_last());
        if kept.contains(s.last()) {
            kept
        } else {
            kept.push(s.last())
        }
    }
}

/// The ledgers to compare, each once, in the order first asked for.
pub fn distinct_vault_paths(paths: Vec<String>) -> (r: Vec<String>)
    ensures
        crate::text::strings_view(r@) == first_occurrences(crate::text::strings_view(paths@)),
{
    let ghost all = crate::text::strings_view(paths@);
    let mut kept: Vec<String> = Vec::new();
    let mut i: usize = 0;
    while i < paths.len()
        invariant
            i <= paths@.len(),
            all == crate::text::strings_view(paths@),
            crate::text::strings_view(kept@) == first_occurrences(all.take(i as int)),
        decreases paths@.len() - i,
    {
        let ghost before = crate::text::strings_view(kept@);
        proof {
            let t = all.take(i as int + 1);
            assert(t.drop_last() =~= all.take(i as int));
            assert(t.last() == all[i as int]);
        }
        let mut j: usize = 0;
        let mut seen = false;
        while j < kept.len()
            invariant
                i < paths@.len(),
                j <= kept@.len(),
                before == crate::text::strings_view(kept@),
                seen == exists|k: int| 0 <= k < j && #[trigger] before[k] == paths@[i as int]@,
            decreases kept@.len() - j,
        {
            assert(before[j as int] == kept@[j as int]@);
            if crate::audit::same_text(&kept[j], &paths[i]) {
                seen = true;
            }
            j = j + 1;
        }
        proof {
            if seen {
                let k = choose|k: int| 0 <= k < j && #[trigger] before[k] == paths@[i as int]@;
                assert(before.contains(all[i as int]));
            } else {
                assert(!before.contains(all[i as int]));
            }
        }
        if !seen {
            kept.push(paths[i].clone());
            assert(crate::text::strings_view(kept@) =~= before.push(all[i as int]));
        }
        i = i + 1;
    }
    proof {
        crate::text::lemma_take_full(all);
    }
    kept
}

proof fn lemma_push_contains(q: Seq<Seq<char>>, a: Seq<char>, x: Seq<char>)
    ensures
        q.push(a).contains(x) <==> (q.contains(x) || x == a),
{
    if q.contains(x) {
        let k = choose|k: int| 0 <= k < q.len() && q[k] == x;
        assert(q.push(a)[k] == x);
    }
    if x == a {
        assert(q.push(a)[q.len() as int] == x);
    }
    if q.push(a).contains(x) && x != a {
        let k = choose|k: int| 0 <= k < q.len() + 1 && q.push(a)[k] == x;
        assert(k < q.len());
        assert(q[k] == x);
    }
}

/// The ledgers kept for a comparison are each asked-for ledger, once.
pub proof fn law_distinct_paths(s: Seq<Seq<char>>)
    ensures
        forall|i: int, j: int|
            0 <= i < j < first_occurrences(s).len() ==> #[trigger] first_occurrences(s)[i] != #[trigger] first_occurrences(s)[j],
        forall|x: Seq<char>| #[trigger] first_occurrences(s).contains(x) <==> s.contains(x),
    decreases s.len(),
{
    if s.len() > 0 {
        let init = s.drop_last();
        let last = s.last();
        law_distinct_paths(init);
        let kept = first_occurrences(init);
        assert(init.push(last) =~= s);
        assert forall|x: Seq<char>| #[trigger] first_occurrences(s).contains(x) <==> s.contains(x) by {
            lemma_push_contains(init, last, x);
            lemma_push_contains(kept, last, x);
        }
        if !kept.contains(last) {
            let r = kept.push(last);
            assert forall|i: int, j: int| 0 <= i < j < r.len() implies #[trigger] r[i] != #[trigger] r[j] by {
                if j == kept.len() {
                    assert(r[i] == kept[i]);
                    if r[i] == r[j] {
                        assert(kept.contains(last));
                    }
                } else {
                    assert(r[i] == kept[i] && r[j] == kept[j]);
                }
            }
        }
    }
}

} // verus!

verus! {

/// Why a ledger file may not go to the bin, if it may not: it is not a
/// `.giftvault` file (the extension exactly so), or it is the ledger being
/// worked on.
pub open spec fn spec_vault_trash_refusal(source: Seq<char>, active: Option<Seq<char>>) -> Option<Seq<char>> {
    if std_path_extension(source) != Some("giftvault"@) {
        Some("只能删除礼金库文件"@)
    } else if active == Some(source) {
        Some("当前正在操作的礼金库不能从比较区删除，请先切换到其他礼金库"@)
    } else {
        None
    }
}

/// Whether the ledger file at `source` may be moved to the bin while the
/// ledger at `active` (if any) is being worked on; both paths resolved.
pub fn vault_trash_check(source: &str, active: &Option<String>) -> (r: Result<(), String>)
    ensures
        match spec_vault_trash_refusal(source@, crate::audit::opt_view(*active)) {
            None => r is Ok,
            Some(m) => r matches Err(e) && e@ == m,
        },
{
    let is_vault = match path_extension(source) {
        Some(e) => {
            let ec = str_chars(e.as_str());
            chars_eq_str(&ec, "giftvault")
        },
        None => false,
    };
    if !is_vault {
        return Err(owned("只能删除礼金库文件"));
    }
    if let Some(a) = active {
        let ac = str_chars(a.as_str());
        if chars_eq_str(&ac, source) {
            return Err(owned("当前正在操作的礼金库不能从比较区删除，请先切换到其他礼金库"));
        }
    }
    Ok(())
}

} // verus!

verus! {

/// The embedded browser runtime to use beside the program `executable`,
/// given whether the portable and the installed runtime's marker files are
/// there: the portable one when present, else the installed one when
/// present, else none (and none when the program path has no folder).
pub open spec fn spec_runtime_choice(executable: Seq<char>, portable_present: bool, installed_present: bool) -> Option<Seq<char>> {
    match std_path_parent(executable) {
        None => None,
        Some(parent) => if portable_present {
            Some(std_path_join(parent, "webview2-fixed"@))
        } else if installed_present {
            Some(std_path_join(std_path_join(parent, "resources"@), "webview2-fixed"@))
        } else {
            None
        },
    }
}

/// The embedded browser runtime to use, given which marker files of
/// `embedded_webview_runtime_candidates(executable)` are present.
pub fn embedded_webview_runtime_choice(executable: &str, portable_present: bool, installed_present: bool) -> (r: Option<String>)
    ensures
        crate::audit::opt_view(r) == spec_runtime_choice(executable@, portable_present, installed_present),
{
    let candidates = embedded_webview_runtime_candidates(executable);
    if candidates.len() == 0 {
        None
    } else if portable_present {
        Some(candidates[0].0.clone())
    } else if installed_present {
        Some(candidates[1].0.clone())
    } else {
        None
    }
}

} // verus!

verus! {

// ---------------------------------------------------------------------------
// The title of an imported book
// ---------------------------------------------------------------------------

/// The `k`-th title tried for an imported book: the base itself, then
/// `base (2)`, `base (3)`, and so on.
pub open spec fn title_try(base: Seq<char>, k: nat) -> Seq<char> {
    if k <= 1 {
        base
    } else {
        base + " ("@ + decimal(k) + ")"@
    }
}

proof fn lemma_title_tries_differ(base: Seq<char>, j: nat, k: nat)
    requires
        1 <= j < k,
    ensures
        title_try(base, j) != title_try(base, k),
{
    reveal_strlit(" (");
    reveal_strlit(")");
    crate::money::lemma_decimal_value(j);
    crate::money::lemma_decimal_value(k);
    if j >= 2 && title_try(base, j) == title_try(base, k) {
        let tj = title_try(base, j);
        let tk = title_try(base, k);
        let n: int = base.len() as int + 2;
        assert(tj.len() == base.len() + 2 + decimal(j).len() + 1);
        assert(tk.len() == base.len() + 2 + decimal(k).len() + 1);
        assert(decimal(j).len() == decimal(k).len());
        assert(tj.subrange(n, n + decimal(j).len() as int) =~= decimal(j));
        assert(tk.subrange(n, n + decimal(k).len() as int) =~= decimal(k));
        assert(decimal(j) == decimal(k));
    }
}

/// Whether `t` is among the titles `taken`.
fn title_taken(taken: &[String], t: &String) -> (r: bool)
    ensures
        r == crate::text::strings_view(taken@).contains(t@),
{
    let ghost tv = crate::text::strings_view(taken@);
    let mut i: usize = 0;
    while i < taken.len()
        invariant
            i <= taken@.len(),
            tv == crate::text::strings_view(taken@),
            forall|j: int| 0 <= j < i ==> tv[j] != t@,
        decreases taken@.len() - i,
    {
        assert(tv[i as int] == taken@[i as int]@);
        if crate::audit::same_text(&taken[i], t) {
            assert(tv.contains(t@));
            return true;
        }
        i = i + 1;
    }
    assert(!tv.contains(t@)) by {
        if tv.contains(t@) {
            let j = choose|j: int| 0 <= j < tv.len() && tv[j] == t@;
            assert(j < i);
        }
    }
    false
}

/// The title an imported book gets when `requested` is asked for and the
/// titles `taken` are in use: the first try (the requested title made safe
/// as a file stem, then with ` (2)`, ` (3)`, ...) not in use.
pub fn unique_book_title(requested: &str, taken: &[String]) -> (r: String)
    requires
        taken@.len() < u64::MAX,
    ensures
        exists|k: nat|
            #![trigger title_try(crate::sheet::spec_safe_excel_file_stem(requested@), k)]
            k >= 1 && r@ == title_try(crate::sheet::spec_safe_excel_file_stem(requested@), k)
                && !crate::text::strings_view(taken@).contains(r@) && forall|j: nat|
                1 <= j < k ==> crate::text::strings_view(taken@).contains(
                    #[trigger] title_try(crate::sheet::spec_safe_excel_file_stem(requested@), j),
                ),
{
    let base = crate::sheet::safe_excel_file_stem(requested);
    let ghost b = base@;
    let ghost tv = crate::text::strings_view(taken@);
    let mut candidate = base.clone();
    let mut k: u64 = 1;
    let ghost mut tried: Set<Seq<char>> = Set::empty();
    proof {
        tv.lemma_cardinality_of_set();
    }
    loop
        invariant
            b == crate::sheet::spec_safe_excel_file_stem(requested@),
            b == base@,
            tv == crate::text::strings_view(taken@),
            taken@.len() < u64::MAX,
            tv.to_set().len() <= tv.len(),
            1 <= k <= tv.len() + 1,
            candidate@ == title_try(b, k as nat),
            forall|j: nat| 1 <= j < k ==> tv.contains(#[trigger] title_try(b, j)),
            tried.finite(),
            tried.len() == k - 1,
            tried.subset_of(tv.to_set()),
            forall|s: Seq<char>| #[trigger] tried.contains(s) ==> exists|j: nat| 1 <= j < k && s == title_try(b, j),
        decreases tv.len() + 1 - k,
    {
        if !title_taken(taken, &candidate) {
            return candidate;
        }
        proof {
            assert(!tried.contains(title_try(b, k as nat))) by {
                if tried.contains(title_try(b, k as nat)) {
                    let j = choose|j: nat| 1 <= j < k && title_try(b, k as nat) == title_try(b, j);
                    lemma_title_tries_differ(b, j, k as nat);
                }
            }
            assert(tv.to_set().contains(title_try(b, k as nat)));
            tried = tried.insert(title_try(b, k as nat));
            vstd::set_lib::lemma_len_subset(tried, tv.to_set());
        }
        k = k + 1;
        candidate = book_title_candidate(base.as_str(), k);
        proof {
            assert forall|s: Seq<char>| #[trigger] tried.contains(s) implies exists|j: nat| 1 <= j < k && s == title_try(b, j) by {
                if s == title_try(b, (k - 1) as nat) {
                    assert(1 <= k - 1 < k);
                } else {
                    let j = choose|j: nat| 1 <= j < k - 1 && s == title_try(b, j);
                    assert(1 <= j < k);
                }
            }
        }
    }
}

} // verus!

verus! {

// ---------------------------------------------------------------------------
// Reading a text spreadsheet
// ---------------------------------------------------------------------------

/// What the csv reader (no header row, rows of any length) reads from
/// `bytes` split at `delimiter`: the rows as cell texts, or its error text.
pub uninterp spec fn csv_read(bytes: Seq<u8>, delimiter: u8) -> Result<Seq<Seq<Seq<char>>>, Seq<char>>;

/// The records of a text spreadsheet (`csv::ReaderBuilder` with no header
/// row and flexible row lengths, reading `bytes`); an error is the csv
/// crate's text of it. The contract names the result without restating
/// the csv format.
#[verifier::external_body]
fn csv_records(bytes: &[u8], delimiter: u8) -> (r: Result<Vec<Vec<String>>, String>)
    ensures
        match r {
            Ok(rows) => csv_read(bytes@, delimiter) == Ok::<Seq<Seq<Seq<char>>>, Seq<char>>(crate::sheet::rows_view(rows@)),
            Err(e) => csv_read(bytes@, delimiter) == Err::<Seq<Seq<Seq<char>>>, Seq<char>>(e@),
        },
{
    let mut reader = csv::ReaderBuilder::new().has_headers(false).flexible(true).delimiter(delimiter).from_reader(bytes);
    reader
        .records()
        .map(|record| record.map(|row| row.iter().map(str::to_string).collect()).map_err(|e| e.to_string()))
        .collect()
}

/// The delimiter of a text spreadsheet: a tab for a `.tsv` file, else the
/// one its first lines suggest.
pub open spec fn text_sheet_delimiter(bytes: Seq<u8>, tab_separated: bool) -> u8 {
    if tab_separated {
        9u8
    } else {
        spec_spreadsheet_delimiter(bytes)
    }
}

/// The rows of a text spreadsheet from the bytes of its file, split at its
/// delimiter (see `text_sheet_delimiter`).
pub fn text_sheet_rows(bytes: &[u8], tab_separated: bool) -> (r: Result<Vec<Vec<String>>, String>)
    ensures
        match r {
            Ok(rows) => csv_read(bytes@, text_sheet_delimiter(bytes@, tab_separated)) == Ok::<
                Seq<Seq<Seq<char>>>,
                Seq<char>,
            >(crate::sheet::rows_view(rows@)),
            Err(e) => csv_read(bytes@, text_sheet_delimiter(bytes@, tab_separated)) == Err::<
                Seq<Seq<Seq<char>>>,
                Seq<char>,
            >(e@),
        },
{
    let delimiter = if tab_separated {
        9u8
    } else {
        spreadsheet_delimiter(bytes)
    };
    csv_records(bytes, delimiter)
}

} // verus!
