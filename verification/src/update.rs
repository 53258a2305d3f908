//! Finding and applying a newer installer of the application.
use vstd::prelude::*;
use crate::models::LocalUpdateCandidate;
use sha2::Digest;
use crate::text::{
    all_digits, ascii_lower, char_vecs_view, concat2, decimal, decimal_chars, digits_value,
    ends_with, ends_with_chars, extend_chars, extend_str, lemma_take_full, owned,
    parse_unsigned_digits, slice_range, split_chars, split_on, starts_with, starts_with_chars,
    str_chars, string_from_chars, to_ascii_lower, chars_eq, words, words_of,
};

verus! {

/// The file names of the application's installers: prefix, version, suffix.
pub open spec fn spec_installer_prefix() -> Seq<char> {
    "礼金簿管理_"@
}

pub open spec fn spec_github_installer_prefix() -> Seq<char> {
    "Gift-Money-Management-System_"@
}

pub open spec fn spec_installer_suffix() -> Seq<char> {
    "_x64-setup.exe"@
}

/// `str::parse::<u32>`: an optional `+`, then decimal digits, within `u32`.
pub open spec fn parse_u32_text(s: Seq<char>) -> Option<int> {
    let d = if s.len() > 0 && s[0] == '+' {
        s.drop_first()
    } else {
        s
    };
    if d.len() > 0 && all_digits(d) && digits_value(d) <= u32::MAX {
        Some(digits_value(d))
    } else {
        None
    }
}

/// The separator of version parts.
pub open spec fn is_version_dot() -> spec_fn(char) -> bool {
    |c: char| c == '.'
}

/// A release version `major.minor.patch`, each part a `u32`.
pub open spec fn spec_release_version(s: Seq<char>) -> Option<Seq<u32>> {
    let parts = split_on(s, is_version_dot());
    if parts.len() == 3 && (forall|i: int|
        0 <= i < 3 ==> #[trigger] parse_u32_text(parts[i]) is Some) {
        Some(
            seq![
                parse_u32_text(parts[0])->0 as u32,
                parse_u32_text(parts[1])->0 as u32,
                parse_u32_text(parts[2])->0 as u32,
            ],
        )
    } else {
        None
    }
}

/// Parses a text as `u32`.
fn parse_u32(s: &[char]) -> (r: Option<u32>)
    ensures
        r matches Some(v) ==> parse_u32_text(s@) == Some(v as int),
        r is None ==> parse_u32_text(s@) is None,
{
    let from: usize = if s.len() > 0 && s[0] == '+' {
        1
    } else {
        0
    };
    let ghost d = if s@.len() > 0 && s@[0] == '+' {
        s@.drop_first()
    } else {
        s@
    };
    assert(s@.subrange(from as int, s@.len() as int) =~= d);
    match parse_unsigned_digits(s, from, s.len()) {
        None => None,
        Some(v) => {
            proof {
                crate::text::lemma_digits_value_nonneg(d);
            }
            if v > 0xffff_ffff {
                None
            } else {
                Some(v as u32)
            }
        },
    }
}

/// The version `major.minor.patch` of a release, if the text is one.
pub fn parse_release_version(value: &str) -> (r: Option<[u32; 3]>)
    ensures
        match r {
            Some(v) => spec_release_version(value@) == Some(v@),
            None => spec_release_version(value@) is None,
        },
{
    let c = str_chars(value);
    let dots = vec!['.'];
    let parts = split_chars(&c, &dots);
    let ghost pv = char_vecs_view(parts@);
    assert((|ch: char| dots@.contains(ch)) =~= is_version_dot());
    let mut values: Vec<u32> = Vec::new();
    let mut i: usize = 0;
    while i < parts.len()
        invariant
            i <= parts@.len(),
            pv == char_vecs_view(parts@),
            pv == split_on(value@, is_version_dot()),
            values@.len() == i,
            forall|k: int| 0 <= k < i ==> parse_u32_text(#[trigger] pv[k]) == Some(values@[k] as int),
        decreases parts@.len() - i,
    {
        match parse_u32(&parts[i]) {
            None => {
                proof {
                    assert(parse_u32_text(pv[i as int]) is None);
                }
                return None;
            },
            Some(v) => {
                values.push(v);
            },
        }
        i = i + 1;
    }
    if values.len() != 3 {
        return None;
    }
    let r = [values[0], values[1], values[2]];
    assert(r@ =~= seq![values@[0], values@[1], values@[2]]);
    Some(r)
}

/// `a` is an earlier version than `b` (arrays compare element by element).
pub open spec fn version_less(a: Seq<u32>, b: Seq<u32>) -> bool {
    ||| a[0] < b[0]
    ||| a[0] == b[0] && a[1] < b[1]
    ||| a[0] == b[0] && a[1] == b[1] && a[2] < b[2]
}

/// Whether version `a` is earlier than version `b`.
pub fn release_version_less(a: &[u32; 3], b: &[u32; 3]) -> (r: bool)
    ensures
        r == version_less(a@, b@),
{
    a[0] < b[0] || (a[0] == b[0] && a[1] < b[1]) || (a[0] == b[0] && a[1] == b[1] && a[2] < b[2])
}

/// Release versions are ordered as (major, minor, patch) read left to
/// right: `a` is earlier than `b` exactly when, at the first of the three
/// parts where they differ, `a` has the smaller number. So a higher minor
/// number outranks any patch number, and a higher major any minor one.
pub proof fn law_release_order_is_lexicographic(a: Seq<u32>, b: Seq<u32>)
    requires
        a.len() == 3,
        b.len() == 3,
    ensures
        version_less(a, b) <==> exists|k: int|
            0 <= k < 3 && #[trigger] a[k] < b[k] && forall|j: int| 0 <= j < k ==> a[j] == b[j],
        a[0] == b[0] && a[1] < b[1] ==> version_less(a, b) && !version_less(b, a),
        a[0] < b[0] ==> version_less(a, b) && !version_less(b, a),
        !(version_less(a, b) && version_less(b, a)),
        a != b ==> version_less(a, b) || version_less(b, a),
{
    if version_less(a, b) {
        if a[0] < b[0] {
            assert(0 <= 0 < 3 && a[0] < b[0] && forall|j: int| 0 <= j < 0 ==> a[j] == b[j]);
        } else if a[0] == b[0] && a[1] < b[1] {
            assert(0 <= 1 < 3 && a[1] < b[1] && forall|j: int| 0 <= j < 1 ==> a[j] == b[j]);
        } else {
            assert(forall|j: int| 0 <= j < 2 ==> a[j] == b[j]);
            assert(0 <= 2 < 3 && a[2] < b[2]);
        }
    }
    if exists|k: int| 0 <= k < 3 && #[trigger] a[k] < b[k] && forall|j: int| 0 <= j < k ==> a[j] == b[j] {
        let k = choose|k: int| 0 <= k < 3 && #[trigger] a[k] < b[k] && forall|j: int| 0 <= j < k ==> a[j] == b[j];
        if k == 1 {
            assert(a[0] == b[0]);
        } else if k == 2 {
            assert(a[0] == b[0]);
            assert(a[1] == b[1]);
        }
    }
    if a != b {
        if a[0] == b[0] && a[1] == b[1] && a[2] == b[2] {
            assert(a =~= b);
        }
    }
}

/// A release text names a later version than the running one exactly when
/// both read as versions and, at the first of major, minor and patch where
/// they differ, the release has the larger number; `newer_release` keeps a
/// candidate exactly then. (For example 0.4.0 is later than 0.3.84.)
pub proof fn law_newer_release_by_parts(version: Seq<char>, current: Seq<char>)
    ensures
        spec_is_newer_release(version, current) <==> (spec_release_version(version) matches Some(v)
            && spec_release_version(current) matches Some(c) && exists|k: int|
            0 <= k < 3 && #[trigger] c[k] < v[k] && forall|j: int| 0 <= j < k ==> c[j] == v[j]),
{
    if let Some(v) = spec_release_version(version) {
        if let Some(c) = spec_release_version(current) {
            assert(v.len() == 3 && c.len() == 3);
            law_release_order_is_lexicographic(c, v);
        }
    }
}

/// `Path::file_name` of a path, by its text.
pub uninterp spec fn std_path_file_name(path: Seq<char>) -> Option<Seq<char>>;

/// The final component of a path (`std::path::Path::file_name`). The
/// contract names the result without stating how std splits a path into
/// components.
#[verifier::external_body]
fn path_file_name(path: &str) -> (r: Option<String>)
    ensures
        match r {
            Some(f) => std_path_file_name(path@) == Some(f@),
            None => std_path_file_name(path@) is None,
        },
{
    std::path::Path::new(path).file_name().map(|name| name.to_string_lossy().to_string())
}

/// The version text between `prefix` and `suffix` of a file name, if it has both.
pub open spec fn between(f: Seq<char>, prefix: Seq<char>, suffix: Seq<char>) -> Option<Seq<char>> {
    if starts_with(f, prefix) && ends_with(f.skip(prefix.len() as int), suffix) {
        let rest = f.skip(prefix.len() as int);
        Some(rest.take(rest.len() - suffix.len()))
    } else {
        None
    }
}

/// The installer that a path names, as (version, file name).
pub open spec fn spec_candidate_from_path(path: Seq<char>) -> Option<(Seq<char>, Seq<char>)> {
    match std_path_file_name(path) {
        None => None,
        Some(f) => match between(f, spec_installer_prefix(), spec_installer_suffix()) {
            None => None,
            Some(v) => if spec_release_version(v) is Some {
                Some((v, f))
            } else {
                None
            },
        },
    }
}

/// A candidate by its (version, file name), the other fields unset.
pub open spec fn is_plain_candidate(c: LocalUpdateCandidate, v: (Seq<char>, Seq<char>)) -> bool {
    &&& c.version@ == v.0
    &&& c.file_name@ == v.1
    &&& c.release_notes is None
    &&& c.published_at is None
    &&& c.release_url is None
    &&& c.download_url is None
    &&& c.checksum_url is None
}

/// The text of `f` between `prefix` and `suffix`.
fn strip_around(f: &[char], prefix: &str, suffix: &str) -> (r: Option<Vec<char>>)
    ensures
        match r {
            Some(v) => between(f@, prefix@, suffix@) == Some(v@),
            None => between(f@, prefix@, suffix@) is None,
        },
{
    let p = str_chars(prefix);
    let s = str_chars(suffix);
    if !starts_with_chars(f, &p) {
        return None;
    }
    let rest = slice_range(f, p.len(), f.len());
    assert(rest@ =~= f@.skip(p@.len() as int));
    if !ends_with_chars(&rest, &s) {
        return None;
    }
    let v = slice_range(&rest, 0, rest.len() - s.len());
    assert(v@ =~= rest@.take(rest@.len() - s@.len()));
    Some(v)
}

/// The installer of this application that a path names, if its file name is
/// `礼金簿管理_<version>_x64-setup.exe` with a valid version.
pub fn candidate_from_path(path: &str) -> (r: Option<LocalUpdateCandidate>)
    ensures
        match r {
            Some(c) => spec_candidate_from_path(path@) matches Some(v) && is_plain_candidate(c, v),
            None => spec_candidate_from_path(path@) is None,
        },
{
    let file_name = match path_file_name(path) {
        None => {
            return None;
        },
        Some(f) => f,
    };
    let f = str_chars(file_name.as_str());
    let v = match strip_around(&f, "礼金簿管理_", "_x64-setup.exe") {
        None => {
            return None;
        },
        Some(v) => v,
    };
    let version = string_from_chars(&v);
    if parse_release_version(version.as_str()).is_none() {
        return None;
    }
    Some(
        LocalUpdateCandidate {
            version,
            file_name,
            release_notes: None,
            published_at: None,
            release_url: None,
            download_url: None,
            checksum_url: None,
        },
    )
}

/// The newest installer among the first `k` paths that is newer than
/// `current`, the later one winning a tie, as (version, file name).
pub open spec fn newest_candidate(paths: Seq<Seq<char>>, current: Seq<u32>, k: int) -> Option<
    (Seq<char>, Seq<char>),
>
    decreases k,
{
    if k <= 0 || k > paths.len() {
        None
    } else {
        let best = newest_candidate(paths, current, k - 1);
        match spec_candidate_from_path(paths[k - 1]) {
            Some(c) => {
                let v = spec_release_version(c.0)->0;
                if version_less(current, v) {
                    match best {
                        None => Some(c),
                        Some(b) => if !version_less(v, spec_release_version(b.0)->0) {
                            Some(c)
                        } else {
                            best
                        },
                    }
                } else {
                    best
                }
            },
            None => best,
        }
    }
}

/// The newest installer of the application among `paths` that is newer than
/// `current_version`; none when the current version is not a valid version.
pub fn latest_local_update(paths: &[String], current_version: &str) -> (r: Option<
    LocalUpdateCandidate,
>)
    ensures
        match spec_release_version(current_version@) {
            None => r is None,
            Some(current) => match r {
                Some(c) => newest_candidate(
                    crate::text::strings_view(paths@),
                    current,
                    paths@.len() as int,
                ) matches Some(v) && is_plain_candidate(c, v),
                None => newest_candidate(
                    crate::text::strings_view(paths@),
                    current,
                    paths@.len() as int,
                ) is None,
            },
        },
        spec_release_version(current_version@) matches Some(current) ==> (r is Some <==> exists|i: int|
            0 <= i < paths@.len() && #[trigger] newer_at(crate::text::strings_view(paths@), current, i)),
        spec_release_version(current_version@) matches Some(current) ==> (r matches Some(c) ==> (exists|i: int|
            0 <= i < paths@.len() && #[trigger] newer_at(crate::text::strings_view(paths@), current, i)
                && spec_candidate_from_path(crate::text::strings_view(paths@)[i]) == Some((c.version@, c.file_name@)))),
        spec_release_version(current_version@) matches Some(current) ==> (r matches Some(c) ==> (forall|i: int|
            0 <= i < paths@.len() && #[trigger] newer_at(crate::text::strings_view(paths@), current, i)
                ==> !version_less(
                spec_release_version(c.version@)->0,
                candidate_version(crate::text::strings_view(paths@)[i]),
            ))),
{
    proof {
        if let Some(current) = spec_release_version(current_version@) {
            law_newest_candidate_is_newest(crate::text::strings_view(paths@), current, paths@.len() as int);
        }
    }
    let current = match parse_release_version(current_version) {
        None => {
            return None;
        },
        Some(v) => v,
    };
    let ghost pv = crate::text::strings_view(paths@);
    let mut best: Option<LocalUpdateCandidate> = None;
    let mut best_version: [u32; 3] = [0, 0, 0];
    let mut i: usize = 0;
    while i < paths.len()
        invariant
            i <= paths@.len(),
            pv == crate::text::strings_view(paths@),
            spec_release_version(current_version@) == Some(current@),
            match best {
                Some(c) => newest_candidate(pv, current@, i as int) matches Some(v)
                    && is_plain_candidate(c, v) && spec_release_version(v.0) == Some(
                    best_version@,
                ),
                None => newest_candidate(pv, current@, i as int) is None,
            },
        decreases paths@.len() - i,
    {
        assert(pv[i as int] == paths@[i as int]@);
        if let Some(candidate) = candidate_from_path(paths[i].as_str()) {
            let version = parse_release_version(candidate.version.as_str()).unwrap();
            if release_version_less(&current, &version) {
                let replace = match &best {
                    None => true,
                    Some(_) => !release_version_less(&version, &best_version),
                };
                if replace {
                    best = Some(candidate);
                    best_version = version;
                }
            }
        }
        i = i + 1;
    }
    best
}

/// A path inside single quotes for PowerShell, quotes inside doubled.
pub open spec fn spec_quote_escaped(s: Seq<char>) -> Seq<char>
    decreases s.len(),
{
    if s.len() == 0 {
        Seq::empty()
    } else if s.last() == '\'' {
        spec_quote_escaped(s.drop_last()) + "''"@
    } else {
        spec_quote_escaped(s.drop_last()).push(s.last())
    }
}

/// `'…'` around a path, with inner quotes doubled.
pub open spec fn spec_powershell_path_literal(path: Seq<char>) -> Seq<char> {
    "'"@ + spec_quote_escaped(path) + "'"@
}

/// A path as a PowerShell string literal.
pub fn powershell_path_literal(path: &str) -> (r: String)
    ensures
        r@ == spec_powershell_path_literal(path@),
{
    let c = str_chars(path);
    let mut out = str_chars("'");
    let ghost start = out@;
    let mut i: usize = 0;
    while i < c.len()
        invariant
            i <= c@.len(),
            c@ == path@,
            out@ == start + spec_quote_escaped(c@.take(i as int)),
        decreases c@.len() - i,
    {
        proof {
            assert(c@.take(i as int + 1).drop_last() =~= c@.take(i as int));
            assert(c@.take(i as int + 1).last() == c@[i as int]);
        }
        if c[i] == '\'' {
            extend_str(&mut out, "''");
        } else {
            out.push(c[i]);
        }
        assert(out@ =~= start + spec_quote_escaped(c@.take(i as int + 1)));
        i = i + 1;
    }
    proof {
        lemma_take_full(c@);
    }
    extend_str(&mut out, "'");
    string_from_chars(&out)
}

pub open spec fn launcher_part0() -> Seq<char> {
    r#"$ErrorActionPreference = 'Stop'
$installer = "#@
}

pub open spec fn launcher_part1() -> Seq<char> {
    r#"
$application = "#@
}

pub open spec fn launcher_part2() -> Seq<char> {
    r#"
$oldProcessId = "#@
}

pub open spec fn launcher_part3() -> Seq<char> {
    r#"
$log = "#@
}

pub open spec fn launcher_part4() -> Seq<char> {
    r#"
$exitCode = 1
try {
  $deadline = [DateTime]::UtcNow.AddSeconds(15)
  while ((Get-Process -Id $oldProcessId -ErrorAction SilentlyContinue) -and ([DateTime]::UtcNow -lt $deadline)) {
    Start-Sleep -Milliseconds 100
  }
  if (Get-Process -Id $oldProcessId -ErrorAction SilentlyContinue) {
    throw 'The previous application process did not exit in time.'
  }
  $process = Start-Process -FilePath $installer -ArgumentList @('/S') -Wait -PassThru
  $exitCode = $process.ExitCode
  Add-Content -LiteralPath $log -Value "$(Get-Date -Format o) installer exit code: $exitCode"
} catch {
  $exitCode = 1
  Add-Content -LiteralPath $log -Value "$(Get-Date -Format o) updater error: $($_.Exception.Message)"
} finally {
  if (Test-Path -LiteralPath $application) {
    Start-Process -FilePath $application
  }
}
exit $exitCode
"#@
}

/// The PowerShell script that waits for the running application (process
/// `old_process_id`) to exit, runs the installer silently, logs its exit
/// code and starts the application again.
pub open spec fn spec_launcher_script(
    installer: Seq<char>,
    application: Seq<char>,
    old_process_id: u32,
    log_path: Seq<char>,
) -> Seq<char> {
    launcher_part0() + spec_powershell_path_literal(installer) + launcher_part1()
        + spec_powershell_path_literal(application) + launcher_part2() + decimal(
        old_process_id as nat,
    ) + launcher_part3() + spec_powershell_path_literal(log_path) + launcher_part4()
}

/// The script that applies a downloaded update once the application exits.
pub fn local_update_launcher_script(
    installer: &str,
    application: &str,
    old_process_id: u32,
    log_path: &str,
) -> (r: String)
    ensures
        r@ == spec_launcher_script(installer@, application@, old_process_id, log_path@),
{
    let installer = powershell_path_literal(installer);
    let application = powershell_path_literal(application);
    let log_path = powershell_path_literal(log_path);
    let mut v = str_chars(r#"$ErrorActionPreference = 'Stop'
$installer = "#);
    extend_str(&mut v, installer.as_str());
    extend_str(&mut v, r#"
$application = "#);
    extend_str(&mut v, application.as_str());
    extend_str(&mut v, r#"
$oldProcessId = "#);
    let pid = decimal_chars(old_process_id as u64);
    extend_chars(&mut v, &pid);
    extend_str(&mut v, r#"
$log = "#);
    extend_str(&mut v, log_path.as_str());
    extend_str(&mut v, r#"
$exitCode = 1
try {
  $deadline = [DateTime]::UtcNow.AddSeconds(15)
  while ((Get-Process -Id $oldProcessId -ErrorAction SilentlyContinue) -and ([DateTime]::UtcNow -lt $deadline)) {
    Start-Sleep -Milliseconds 100
  }
  if (Get-Process -Id $oldProcessId -ErrorAction SilentlyContinue) {
    throw 'The previous application process did not exit in time.'
  }
  $process = Start-Process -FilePath $installer -ArgumentList @('/S') -Wait -PassThru
  $exitCode = $process.ExitCode
  Add-Content -LiteralPath $log -Value "$(Get-Date -Format o) installer exit code: $exitCode"
} catch {
  $exitCode = 1
  Add-Content -LiteralPath $log -Value "$(Get-Date -Format o) updater error: $($_.Exception.Message)"
} finally {
  if (Test-Path -LiteralPath $application) {
    Start-Process -FilePath $application
  }
}
exit $exitCode
"#);
    string_from_chars(&v)
}

} // verus!

verus! {

/// An asset of a published release.
#[derive(Debug, Clone)]
pub struct GithubAsset {
    pub name: String,
    pub browser_download_url: String,
}

/// The latest published release, as the release service describes it.
#[derive(Debug, Clone)]
pub struct GithubRelease {
    pub tag_name: String,
    pub body: Option<String>,
    pub published_at: Option<String>,
    pub html_url: Option<String>,
    pub assets: Vec<GithubAsset>,
}

/// The version text of a release tag: the tag without a leading `v`.
pub open spec fn tag_version(tag: Seq<char>) -> Seq<char> {
    if tag.len() > 0 && tag[0] == 'v' {
        tag.drop_first()
    } else {
        tag
    }
}

/// The asset name matches `target`, exactly or ignoring ASCII case.
pub open spec fn asset_name_matches(name: Seq<char>, target: Seq<char>, ignore_case: bool) -> bool {
    if ignore_case {
        ascii_lower(name) == ascii_lower(target)
    } else {
        name == target
    }
}

/// The first asset from `i` on whose name matches `target`.
pub open spec fn first_asset(
    assets: Seq<GithubAsset>,
    target: Seq<char>,
    ignore_case: bool,
    i: int,
) -> Option<int>
    decreases assets.len() - i,
{
    if i < 0 || i >= assets.len() {
        None
    } else if asset_name_matches(assets[i].name@, target, ignore_case) {
        Some(i)
    } else {
        first_asset(assets, target, ignore_case, i + 1)
    }
}

/// The installer file name that a release of `version` publishes.
pub open spec fn github_installer_name(version: Seq<char>) -> Seq<char> {
    spec_github_installer_prefix() + version + spec_installer_suffix()
}

/// Finds the first asset whose name matches `target`.
fn find_asset(assets: &[GithubAsset], target: &[char], ignore_case: bool) -> (r: Option<usize>)
    ensures
        match r {
            Some(i) => first_asset(assets@, target@, ignore_case, 0) == Some(i as int) && i
                < assets@.len(),
            None => first_asset(assets@, target@, ignore_case, 0) is None,
        },
{
    let target_lower = to_ascii_lower(target);
    let mut i: usize = 0;
    while i < assets.len()
        invariant
            i <= assets@.len(),
            target_lower@ == ascii_lower(target@),
            first_asset(assets@, target@, ignore_case, 0) == first_asset(
                assets@,
                target@,
                ignore_case,
                i as int,
            ),
        decreases assets@.len() - i,
    {
        let name = str_chars(assets[i].name.as_str());
        let matched = if ignore_case {
            let lower = to_ascii_lower(&name);
            chars_eq(&lower, &target_lower)
        } else {
            chars_eq(&name, target)
        };
        if matched {
            return Some(i);
        }
        i = i + 1;
    }
    None
}

/// An optional string copied.
fn clone_optional(o: &Option<String>) -> (r: Option<String>)
    ensures
        r == *o,
{
    match o {
        Some(s) => Some(s.clone()),
        None => None,
    }
}

/// The update that the latest release offers: its installer and its
/// `SHA256SUMS.txt`. A release with an invalid version, without the
/// installer or without the checksum list is refused.
pub fn candidate_from_github_release(release: &GithubRelease) -> (r: Result<
    Option<LocalUpdateCandidate>,
    String,
>)
    ensures
        ({
            let version = tag_version(release.tag_name@);
            let file_name = github_installer_name(version);
            let installer = first_asset(release.assets@, file_name, false, 0);
            let checksum = first_asset(release.assets@, "SHA256SUMS.txt"@, true, 0);
            if spec_release_version(version) is None {
                &&& r matches Err(e)
                &&& e@ == "GitHub 最新发布版本号格式无效："@ + release.tag_name@
            } else if installer is None {
                &&& r matches Err(e)
                &&& e@ == "GitHub Release 缺少匹配的安装包："@ + file_name
            } else if checksum is None {
                &&& r matches Err(e)
                &&& e@ == "GitHub Release 缺少 SHA256SUMS.txt，已拒绝更新"@
            } else {
                &&& r matches Ok(Some(c))
                &&& c.version@ == version
                &&& c.file_name@ == file_name
                &&& c.release_notes == release.body
                &&& c.published_at == release.published_at
                &&& c.release_url == release.html_url
                &&& c.download_url matches Some(d)
                &&& d@ == release.assets@[installer->0].browser_download_url@
                &&& c.checksum_url matches Some(k)
                &&& k@ == release.assets@[checksum->0].browser_download_url@
            }
        }),
        !(r matches Ok(None)),
        r is Ok <==> ({
            let version = tag_version(release.tag_name@);
            &&& spec_release_version(version) is Some
            &&& exists|j: int|
                0 <= j < release.assets@.len() && #[trigger] release.assets@[j].name@ == github_installer_name(
                    version,
                )
            &&& exists|j: int|
                0 <= j < release.assets@.len() && ascii_lower(#[trigger] release.assets@[j].name@)
                    == ascii_lower("SHA256SUMS.txt"@)
        }),
{
    proof {
        let version = tag_version(release.tag_name@);
        law_first_asset(release.assets@, github_installer_name(version), false, 0);
        law_first_asset(release.assets@, "SHA256SUMS.txt"@, true, 0);
    }
    let tag = str_chars(release.tag_name.as_str());
    let version_chars = if tag.len() > 0 && tag[0] == 'v' {
        slice_range(&tag, 1, tag.len())
    } else {
        slice_range(&tag, 0, tag.len())
    };
    assert(version_chars@ =~= tag_version(release.tag_name@));
    let version = string_from_chars(&version_chars);
    if parse_release_version(version.as_str()).is_none() {
        return Err(concat2("GitHub 最新发布版本号格式无效：", &tag));
    }
    let mut name = str_chars("Gift-Money-Management-System_");
    extend_chars(&mut name, &version_chars);
    extend_str(&mut name, "_x64-setup.exe");
    let file_name = string_from_chars(&name);
    let installer = match find_asset(&release.assets, &name, false) {
        None => {
            return Err(concat2("GitHub Release 缺少匹配的安装包：", &name));
        },
        Some(i) => i,
    };
    let sums = str_chars("SHA256SUMS.txt");
    let checksum = match find_asset(&release.assets, &sums, true) {
        None => {
            return Err(owned("GitHub Release 缺少 SHA256SUMS.txt，已拒绝更新"));
        },
        Some(i) => i,
    };
    Ok(
        Some(
            LocalUpdateCandidate {
                version,
                file_name,
                release_notes: clone_optional(&release.body),
                published_at: clone_optional(&release.published_at),
                release_url: clone_optional(&release.html_url),
                download_url: Some(release.assets[installer].browser_download_url.clone()),
                checksum_url: Some(release.assets[checksum].browser_download_url.clone()),
            },
        ),
    )
}

// ---------------------------------------------------------------------------
// The update script file
// ---------------------------------------------------------------------------

/// The UTF-16 code units of a character.
pub open spec fn utf16_units(c: char) -> Seq<u16> {
    let v = c as u32 as int;
    if v < 0x10000 {
        seq![v as u16]
    } else {
        let w = v - 0x10000;
        seq![(0xD800 + w / 1024) as u16, (0xDC00 + w % 1024) as u16]
    }
}

/// A code unit as two bytes, least significant first.
pub open spec fn le_bytes(u: u16) -> Seq<u8> {
    seq![(u % 256) as u8, (u / 256) as u8]
}

/// Code units as little-endian bytes.
pub open spec fn units_le_bytes(u: Seq<u16>) -> Seq<u8>
    decreases u.len(),
{
    if u.len() == 0 {
        Seq::empty()
    } else {
        units_le_bytes(u.drop_last()) + le_bytes(u.last())
    }
}

/// A text encoded as UTF-16 little endian.
pub open spec fn utf16le(s: Seq<char>) -> Seq<u8>
    decreases s.len(),
{
    if s.len() == 0 {
        Seq::empty()
    } else {
        utf16le(s.drop_last()) + units_le_bytes(utf16_units(s.last()))
    }
}

/// Appends the two little-endian bytes of a code unit.
fn push_unit(out: &mut Vec<u8>, u: u16)
    ensures
        final(out)@ == old(out)@ + le_bytes(u),
{
    out.push((u % 256) as u8);
    out.push((u / 256) as u8);
    assert(out@ =~= old(out)@ + le_bytes(u));
}

/// A script as the bytes of a PowerShell file: the UTF-16LE byte-order mark
/// and the script in UTF-16LE, which Windows PowerShell reads correctly
/// whatever the code page, Chinese paths included.
pub fn windows_powershell_script_bytes(script: &str) -> (r: Vec<u8>)
    ensures
        r@ == seq![0xffu8, 0xfeu8] + utf16le(script@),
        r@.len() == 2 + 2 * utf16_text(script@).len(),
        le_units(r@.skip(2)) == utf16_text(script@),
        decode_utf16(le_units(r@.skip(2))) == Some(script@),
{
    let c = str_chars(script);
    let mut bytes: Vec<u8> = Vec::new();
    bytes.push(0xff);
    bytes.push(0xfe);
    let mut i: usize = 0;
    while i < c.len()
        invariant
            i <= c@.len(),
            c@ == script@,
            bytes@ == seq![0xffu8, 0xfeu8] + utf16le(c@.take(i as int)),
        decreases c@.len() - i,
    {
        let ghost before = bytes@;
        let v = c[i] as u32;
        if v < 0x10000 {
            push_unit(&mut bytes, v as u16);
            assert(units_le_bytes(utf16_units(c@[i as int])) =~= le_bytes(v as u16)) by {
                assert(utf16_units(c@[i as int]) =~= seq![v as u16]);
                assert(seq![v as u16].drop_last() =~= Seq::<u16>::empty());
                reveal_with_fuel(units_le_bytes, 2);
                assert(units_le_bytes(seq![v as u16]) =~= le_bytes(v as u16));
            }
        } else {
            let w = v - 0x10000;
            let hi = (0xD800 + w / 1024) as u16;
            let lo = (0xDC00 + w % 1024) as u16;
            push_unit(&mut bytes, hi);
            push_unit(&mut bytes, lo);
            assert(units_le_bytes(utf16_units(c@[i as int])) =~= le_bytes(hi) + le_bytes(lo)) by {
                let us = utf16_units(c@[i as int]);
                assert(us =~= seq![hi, lo]);
                assert(us.drop_last() =~= seq![hi]);
                assert(us.drop_last().drop_last() =~= Seq::<u16>::empty());
                reveal_with_fuel(units_le_bytes, 3);
                assert(units_le_bytes(seq![hi]) =~= le_bytes(hi));
            }
        }
        proof {
            assert(c@.take(i as int + 1).drop_last() =~= c@.take(i as int));
            assert(c@.take(i as int + 1).last() == c@[i as int]);
        }
        assert(bytes@ =~= seq![0xffu8, 0xfeu8] + utf16le(c@.take(i as int + 1)));
        i = i + 1;
    }
    proof {
        lemma_take_full(c@);
        law_script_bytes_read_back(script@);
    }
    bytes
}

} // verus!

verus! {

// ---------------------------------------------------------------------------
// Checking a downloaded installer against the published checksums
// ---------------------------------------------------------------------------

/// The SHA-256 digest of some bytes.
pub uninterp spec fn spec_sha256(data: Seq<u8>) -> Seq<u8>;

/// The SHA-256 digest of `data` (`sha2::Sha256::digest`), 32 bytes long.
#[verifier::external_body]
fn sha256_digest(data: &[u8]) -> (r: Vec<u8>)
    ensures
        r@ == spec_sha256(data@),
        r@.len() == 32,
{
    sha2::Sha256::digest(data).to_vec()
}

/// A hexadecimal digit in lower case.
pub open spec fn hex_digit(d: int) -> char {
    if d < 10 {
        (('0' as u32) + d) as char
    } else {
        (('a' as u32) + d - 10) as char
    }
}

/// Bytes in lower-case hexadecimal, two digits per byte (`{:x}` of a digest).
pub open spec fn hex_lower(bytes: Seq<u8>) -> Seq<char>
    decreases bytes.len(),
{
    if bytes.len() == 0 {
        Seq::empty()
    } else {
        hex_lower(bytes.drop_last()).push(hex_digit((bytes.last() / 16) as int)).push(
            hex_digit((bytes.last() % 16) as int),
        )
    }
}

fn hex_digit_char(d: u8) -> (r: char)
    requires
        d < 16,
    ensures
        r == hex_digit(d as int),
{
    if d < 10 {
        (48u8 + d) as char
    } else {
        (97u8 + d - 10) as char
    }
}

/// Bytes in lower-case hexadecimal.
fn hex_lower_chars(bytes: &[u8]) -> (r: Vec<char>)
    ensures
        r@ == hex_lower(bytes@),
{
    let mut out: Vec<char> = Vec::new();
    let mut i: usize = 0;
    while i < bytes.len()
        invariant
            i <= bytes@.len(),
            out@ == hex_lower(bytes@.take(i as int)),
        decreases bytes@.len() - i,
    {
        let b = bytes[i];
        out.push(hex_digit_char(b / 16));
        out.push(hex_digit_char(b % 16));
        proof {
            assert(bytes@.take(i as int + 1).drop_last() =~= bytes@.take(i as int));
            assert(bytes@.take(i as int + 1).last() == b);
        }
        i = i + 1;
    }
    proof {
        lemma_take_full(bytes@);
    }
    out
}

/// The line separator.
pub open spec fn is_newline() -> spec_fn(char) -> bool {
    |c: char| c == '\n'
}

/// A line without the carriage return that ended it.
pub open spec fn strip_cr(line: Seq<char>) -> Seq<char> {
    if line.len() > 0 && line.last() == '\r' {
        line.drop_last()
    } else {
        line
    }
}

/// The lines of a text (`str::lines`): split at `\n`, a `\r` before the
/// `\n` removed, and no empty last line after a final line break.
pub open spec fn text_lines(s: Seq<char>) -> Seq<Seq<char>> {
    let p = split_on(s, is_newline());
    let body = p.drop_last().map_values(|l: Seq<char>| strip_cr(l));
    if p.last().len() == 0 {
        body
    } else {
        body.push(p.last())
    }
}

/// `s` without its leading `*`s (`str::trim_start_matches('*')`).
pub open spec fn trim_stars(s: Seq<char>) -> Seq<char>
    decreases s.len(),
{
    if s.len() > 0 && s[0] == '*' {
        trim_stars(s.drop_first())
    } else {
        s
    }
}

/// The hash that a checksum line gives for `file_name`: a line is
/// `<hash> <name>`, the name possibly marked with `*`, compared ignoring ASCII case.
pub open spec fn line_checksum(line: Seq<char>, file_name: Seq<char>) -> Option<Seq<char>> {
    let w = words(line);
    if w.len() >= 2 && ascii_lower(trim_stars(w[1])) == ascii_lower(file_name) {
        Some(w[0])
    } else {
        None
    }
}

/// The first checksum that the lines from `i` on give for `file_name`.
pub open spec fn first_checksum(lines: Seq<Seq<char>>, file_name: Seq<char>, i: int) -> Option<
    Seq<char>,
>
    decreases lines.len() - i,
{
    if i < 0 || i >= lines.len() {
        None
    } else {
        match line_checksum(lines[i], file_name) {
            Some(h) => Some(h),
            None => first_checksum(lines, file_name, i + 1),
        }
    }
}

/// Whether an installer's bytes match its entry in a checksum list, or why not.
pub open spec fn spec_installer_check(bytes: Seq<u8>, checksum_text: Seq<char>, file_name: Seq<char>) -> Option<Seq<char>> {
    match first_checksum(text_lines(checksum_text), file_name, 0) {
        None => Some("更新校验清单中没有对应安装包"@),
        Some(expected) => if ascii_lower(hex_lower(spec_sha256(bytes))) != ascii_lower(expected) {
            Some("更新安装包 SHA-256 校验失败，未执行安装"@)
        } else {
            None
        },
    }
}

/// `s` without its leading `*`s.
fn trim_star_chars(s: &[char]) -> (r: Vec<char>)
    ensures
        r@ == trim_stars(s@),
{
    let mut i: usize = 0;
    assert(s@.skip(0) =~= s@);
    while i < s.len() && s[i] == '*'
        invariant
            i <= s@.len(),
            trim_stars(s@) == trim_stars(s@.skip(i as int)),
        decreases s@.len() - i,
    {
        proof {
            assert(s@.skip(i as int).drop_first() =~= s@.skip(i as int + 1));
        }
        i = i + 1;
    }
    let r = slice_range(s, i, s.len());
    assert(r@ =~= s@.skip(i as int));
    r
}

/// The checksum that one line gives for `file_name`.
fn checksum_of_line(line: &[char], file_lower: &[char], Ghost(file_name): Ghost<Seq<char>>) -> (r:
    Option<Vec<char>>)
    requires
        file_lower@ == ascii_lower(file_name),
    ensures
        match r {
            Some(h) => line_checksum(line@, file_name) == Some(h@),
            None => line_checksum(line@, file_name) is None,
        },
{
    let w = words_of(line);
    if w.len() < 2 {
        return None;
    }
    let name = trim_star_chars(&w[1]);
    let lower = to_ascii_lower(&name);
    if chars_eq(&lower, file_lower) {
        Some(slice_range(&w[0], 0, w[0].len()))
    } else {
        None
    }
}

/// Checks downloaded installer bytes against the checksum list published
/// with the release: the list must name the installer, and the SHA-256 of
/// the bytes must equal the listed hash (ignoring ASCII case).
pub fn verify_installer_checksum(bytes: &[u8], checksum_text: &str, file_name: &str) -> (r: Result<
    (),
    String,
>)
    ensures
        match r {
            Ok(()) => spec_installer_check(bytes@, checksum_text@, file_name@) is None,
            Err(e) => spec_installer_check(bytes@, checksum_text@, file_name@) == Some(e@),
        },
{
    let text = str_chars(checksum_text);
    let nl = vec!['\n'];
    let pieces = split_chars(&text, &nl);
    assert((|ch: char| nl@.contains(ch)) =~= is_newline());
    let ghost pv = char_vecs_view(pieces@);
    let ghost lines = text_lines(checksum_text@);
    let fname = str_chars(file_name);
    let file_lower = to_ascii_lower(&fname);
    let n = pieces.len();
    let mut expected: Option<Vec<char>> = None;
    let mut i: usize = 0;
    while i < n && expected.is_none()
        invariant
            i <= n == pieces@.len(),
            n >= 1,
            pv == char_vecs_view(pieces@),
            pv == split_on(checksum_text@, is_newline()),
            lines == text_lines(checksum_text@),
            file_lower@ == ascii_lower(file_name@),
            expected is None ==> first_checksum(lines, file_name@, 0) == first_checksum(
                lines,
                file_name@,
                i as int,
            ),
            expected matches Some(h) ==> first_checksum(lines, file_name@, 0) == Some(h@),
        decreases n - i + if expected is None {
            1int
        } else {
            0int
        },
    {
        let is_last = i + 1 == n;
        if is_last && pieces[i].len() == 0 {
            i = i + 1;
            proof {
                assert(lines.len() == n - 1);
            }
        } else {
            let line: Vec<char> = if !is_last && pieces[i].len() > 0 && pieces[i][pieces[i].len() - 1] == '\r' {
                slice_range(&pieces[i], 0, pieces[i].len() - 1)
            } else {
                slice_range(&pieces[i], 0, pieces[i].len())
            };
            proof {
                assert(lines[i as int] =~= line@);
            }
            match checksum_of_line(&line, &file_lower, Ghost(file_name@)) {
                Some(h) => {
                    expected = Some(h);
                },
                None => {
                    i = i + 1;
                },
            }
        }
    }
    let expected = match expected {
        None => {
            proof {
                assert(i >= lines.len());
            }
            return Err(owned("更新校验清单中没有对应安装包"));
        },
        Some(h) => h,
    };
    let digest = sha256_digest(bytes);
    let actual = hex_lower_chars(&digest);
    let actual_lower = to_ascii_lower(&actual);
    let expected_lower = to_ascii_lower(&expected);
    if !chars_eq(&actual_lower, &expected_lower) {
        return Err(owned("更新安装包 SHA-256 校验失败，未执行安装"));
    }
    Ok(())
}

} // verus!

verus! {

/// A version text names a release later than the version text `current`.
pub open spec fn spec_is_newer_release(version: Seq<char>, current: Seq<char>) -> bool {
    &&& spec_release_version(version) matches Some(v)
    &&& spec_release_version(current) matches Some(c)
    &&& version_less(c, v)
}

/// The update a release offers, kept only when it is later than the
/// running version `current_version`.
pub fn newer_release(candidate: Option<LocalUpdateCandidate>, current_version: &str) -> (r: Option<LocalUpdateCandidate>)
    ensures
        match candidate {
            Some(c) => if spec_is_newer_release(c.version@, current_version@) {
                r == Some(c)
            } else {
                r is None
            },
            None => r is None,
        },
{
    let c = match candidate {
        Some(c) => c,
        None => {
            return None;
        },
    };
    let v = match parse_release_version(c.version.as_str()) {
        Some(v) => v,
        None => {
            return None;
        },
    };
    let cur = match parse_release_version(current_version) {
        Some(cur) => cur,
        None => {
            return None;
        },
    };
    if release_version_less(&cur, &v) {
        Some(c)
    } else {
        None
    }
}

} // verus!

verus! {

/// The version of the installer that a path names (when it names one).
pub open spec fn candidate_version(path: Seq<char>) -> Seq<u32> {
    let c = spec_candidate_from_path(path)->0;
    spec_release_version(c.0)->0
}

/// Path `i` names an installer newer than `current`.
pub open spec fn newer_at(paths: Seq<Seq<char>>, current: Seq<u32>, i: int) -> bool {
    &&& spec_candidate_from_path(paths[i]) is Some
    &&& version_less(current, candidate_version(paths[i]))
}

/// The installer chosen among the first `k` paths is the newest one newer
/// than the current version: there is one exactly when some path names an
/// installer newer than the current version; it is one of them, and none
/// of them is newer than it.
pub proof fn law_newest_candidate_is_newest(paths: Seq<Seq<char>>, current: Seq<u32>, k: int)
    requires
        0 <= k <= paths.len(),
    ensures
        newest_candidate(paths, current, k) is None <==> !exists|i: int| 0 <= i < k && #[trigger] newer_at(paths, current, i),
        newest_candidate(paths, current, k) matches Some(b) ==> exists|i: int|
            0 <= i < k && #[trigger] newer_at(paths, current, i) && spec_candidate_from_path(paths[i]) == Some(b),
        newest_candidate(paths, current, k) matches Some(b) ==> forall|i: int|
            0 <= i < k && #[trigger] newer_at(paths, current, i) ==> !version_less(
                spec_release_version(b.0)->0,
                candidate_version(paths[i]),
            ),
    decreases k,
{
    if k > 0 {
        law_newest_candidate_is_newest(paths, current, k - 1);
        let best = newest_candidate(paths, current, k - 1);
        if newer_at(paths, current, k - 1) {
            let c = spec_candidate_from_path(paths[k - 1])->0;
            assert(spec_candidate_from_path(paths[k - 1]) == Some(c));
        }
        if best is Some && newer_at(paths, current, k - 1) {
            let b = best->0;
            let i0 = choose|i: int| 0 <= i < k - 1 && #[trigger] newer_at(paths, current, i) && spec_candidate_from_path(paths[i]) == Some(b);
            assert(newer_at(paths, current, i0));
        }
        assert forall|i: int| 0 <= i < k && #[trigger] newer_at(paths, current, i) implies (
            newest_candidate(paths, current, k) matches Some(b) && !version_less(
                spec_release_version(b.0)->0,
                candidate_version(paths[i]),
            )) by {
            if i < k - 1 {
                assert(newer_at(paths, current, i));
            }
        }
        if newest_candidate(paths, current, k) is Some {
            let b = newest_candidate(paths, current, k)->0;
            if newest_candidate(paths, current, k) == best {
                let i0 = choose|i: int| 0 <= i < k - 1 && #[trigger] newer_at(paths, current, i) && spec_candidate_from_path(paths[i]) == Some(b);
                assert(newer_at(paths, current, i0) && 0 <= i0 < k);
            } else {
                assert(newer_at(paths, current, k - 1));
            }
        }
    }
}

} // verus!

verus! {

/// The UTF-16 code units of a text, one character after another.
pub open spec fn utf16_text(s: Seq<char>) -> Seq<u16>
    decreases s.len(),
{
    if s.len() == 0 {
        Seq::empty()
    } else {
        utf16_text(s.drop_last()) + utf16_units(s.last())
    }
}

/// Bytes read two at a time as little-endian code units.
pub open spec fn le_units(b: Seq<u8>) -> Seq<u16>
    decreases b.len(),
{
    if b.len() < 2 {
        Seq::empty()
    } else {
        le_units(b.take(b.len() - 2)).push((b[b.len() - 2] + 256 * b[b.len() - 1]) as u16)
    }
}

/// A code unit that is the low half of a surrogate pair.
pub open spec fn is_low_surrogate(u: u16) -> bool {
    0xDC00 <= u <= 0xDFFF
}

/// A code unit that is the high half of a surrogate pair.
pub open spec fn is_high_surrogate(u: u16) -> bool {
    0xD800 <= u <= 0xDBFF
}

/// UTF-16 code units read back as text, none when they are not well formed.
pub open spec fn decode_utf16(u: Seq<u16>) -> Option<Seq<char>>
    decreases u.len(),
{
    if u.len() == 0 {
        Some(Seq::empty())
    } else if is_low_surrogate(u.last()) {
        if u.len() >= 2 && is_high_surrogate(u[u.len() - 2]) {
            match decode_utf16(u.take(u.len() - 2)) {
                Some(t) => Some(
                    t.push(
                        (0x10000 + (u[u.len() - 2] - 0xD800) * 1024 + (u.last() - 0xDC00)) as char,
                    ),
                ),
                None => None,
            }
        } else {
            None
        }
    } else if is_high_surrogate(u.last()) {
        None
    } else {
        match decode_utf16(u.drop_last()) {
            Some(t) => Some(t.push(u.last() as char)),
            None => None,
        }
    }
}

proof fn lemma_units_le_bytes(u: Seq<u16>)
    ensures
        units_le_bytes(u).len() == 2 * u.len(),
        le_units(units_le_bytes(u)) == u,
    decreases u.len(),
{
    if u.len() > 0 {
        lemma_units_le_bytes(u.drop_last());
        let b = units_le_bytes(u);
        let x = u.last();
        assert(b.take(b.len() - 2) =~= units_le_bytes(u.drop_last()));
        assert(b[b.len() - 2] == (x % 256) as u8);
        assert(b[b.len() - 1] == (x / 256) as u8);
        assert(u.drop_last().push(x) =~= u);
    }
}

proof fn lemma_units_concat(a: Seq<u16>, b: Seq<u16>)
    ensures
        units_le_bytes(a + b) == units_le_bytes(a) + units_le_bytes(b),
    decreases b.len(),
{
    if b.len() > 0 {
        lemma_units_concat(a, b.drop_last());
        assert((a + b).drop_last() =~= a + b.drop_last());
        assert((a + b).last() == b.last());
    } else {
        assert(a + b =~= a);
        assert(units_le_bytes(b) =~= Seq::<u8>::empty());
    }
}

proof fn lemma_utf16le_units(s: Seq<char>)
    ensures
        utf16le(s) == units_le_bytes(utf16_text(s)),
    decreases s.len(),
{
    if s.len() > 0 {
        lemma_utf16le_units(s.drop_last());
        lemma_units_concat(utf16_text(s.drop_last()), utf16_units(s.last()));
    }
}

proof fn lemma_decode_char(t: Seq<u16>, c: char)
    ensures
        decode_utf16(t + utf16_units(c)) == match decode_utf16(t) {
            Some(x) => Some(x.push(c)),
            None => None::<Seq<char>>,
        },
{
    let v = c as u32 as int;
    let u = t + utf16_units(c);
    if v < 0x10000 {
        assert(!(0xD800 <= v <= 0xDFFF));
        assert(u.drop_last() =~= t);
        assert(u.last() == v as u16);
        assert((v as u16) as char == c);
    } else {
        let w = v - 0x10000;
        assert(v <= 0x10FFFF);
        let hi = (0xD800 + w / 1024) as u16;
        let lo = (0xDC00 + w % 1024) as u16;
        assert(0 <= w % 1024 < 1024 && w / 1024 < 1024) by (nonlinear_arith)
            requires 0 <= w <= 0xFFFFF;
        assert(w == (w / 1024) * 1024 + w % 1024) by (nonlinear_arith);
        assert(u.take(u.len() - 2) =~= t);
        assert(u.last() == lo && u[u.len() - 2] == hi);
        assert((0x10000 + (hi - 0xD800) * 1024 + (lo - 0xDC00)) == v);
        assert(((0x10000 + (hi - 0xD800) * 1024 + (lo - 0xDC00)) as char) == c);
    }
}

proof fn lemma_decode_text(s: Seq<char>)
    ensures
        decode_utf16(utf16_text(s)) == Some(s),
    decreases s.len(),
{
    if s.len() == 0 {
        assert(utf16_text(s) =~= Seq::<u16>::empty());
        assert(s =~= Seq::<char>::empty());
    } else {
        lemma_decode_text(s.drop_last());
        lemma_decode_char(utf16_text(s.drop_last()), s.last());
        assert(s.drop_last().push(s.last()) =~= s);
    }
}

/// The bytes of a PowerShell script are the byte-order mark `FF FE`, then
/// two bytes per UTF-16 code unit of the script; read back as little-endian
/// UTF-16 they give the script again.
pub proof fn law_script_bytes_read_back(script: Seq<char>)
    ensures
        ({
            let b = seq![0xffu8, 0xfeu8] + utf16le(script);
            &&& b[0] == 0xffu8 && b[1] == 0xfeu8
            &&& b.len() == 2 + 2 * utf16_text(script).len()
            &&& le_units(b.skip(2)) == utf16_text(script)
            &&& decode_utf16(le_units(b.skip(2))) == Some(script)
        }),
{
    let b = seq![0xffu8, 0xfeu8] + utf16le(script);
    lemma_utf16le_units(script);
    lemma_units_le_bytes(utf16_text(script));
    lemma_decode_text(script);
    assert(b.skip(2) =~= utf16le(script));
}

} // verus!

verus! {

/// The asset search finds the first asset whose name matches, and finds
/// none exactly when no asset's name matches.
pub proof fn law_first_asset(assets: Seq<GithubAsset>, target: Seq<char>, ignore_case: bool, i: int)
    requires
        0 <= i <= assets.len(),
    ensures
        first_asset(assets, target, ignore_case, i) is None <==> !exists|j: int|
            i <= j < assets.len() && asset_name_matches(#[trigger] assets[j].name@, target, ignore_case),
        first_asset(assets, target, ignore_case, i) matches Some(j) ==> i <= j < assets.len()
            && asset_name_matches(assets[j].name@, target, ignore_case) && forall|k: int|
            i <= k < j ==> !asset_name_matches(#[trigger] assets[k].name@, target, ignore_case),
    decreases assets.len() - i,
{
    if i < assets.len() {
        law_first_asset(assets, target, ignore_case, i + 1);
        if !asset_name_matches(assets[i].name@, target, ignore_case) {
            assert forall|j: int| i <= j < assets.len() && asset_name_matches(#[trigger] assets[j].name@, target, ignore_case) implies i + 1 <= j by {
                if j == i {}
            }
        }
    }
}

} // verus!
