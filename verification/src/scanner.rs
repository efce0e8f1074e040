//! Scan-side logic: the scan event and handle types, the size calculator,
//! path normalisation, and the sensitivity classifier that decides whether
//! a found directory is safe to remove unattended.

use vstd::prelude::*;

use crate::text::{
    chars_eq, chars_to_string, contains_sub, contains_sub_exec, ends_with, ends_with_exec,
    find_from, find_sub, lower_char, lower_char_exec, starts_with, starts_with_exec,
    str_to_chars, subrange_vec,
};

verus! {

// ─── Scan events and the scan handle ──────────────────────────────────────────

/// A message sent from the scan worker to the coordination thread.
pub enum ScanMsg {
    /// A target directory was found: its path, total size in bytes, whether
    /// it is sensitive, and its last-modified time in seconds since the
    /// epoch, when metadata was available.
    Found { path: String, size: u64, sensitive: bool, last_modified: Option<u64> },
    /// The walk has finished; no more `Found` messages will be sent.
    Done,
}

/// A handle to a scan running on a background worker: the receive endpoint
/// for its events, the shared cell naming the directory it is visiting, and
/// the flag set once its terminal event has been received.
pub struct ActiveScan {
    pub rx: std::sync::mpsc::Receiver<ScanMsg>,
    pub current_path: std::sync::Arc<std::sync::Mutex<String>>,
    pub done: bool,
}

// ─── Size calculation ─────────────────────────────────────────────────────────

/// Relies on `jwalk::WalkDir`: yields one pair per filesystem entry under
/// `path`, hidden ones included and symbolic links resolved — whether it is
/// a regular file with readable metadata, and its size in bytes (zero when
/// not). Entries that cannot be read, broken links among them, come back as
/// `(false, 0)`. What is on disk decides the result, so nothing is promised
/// of it.
#[verifier::external_body]
fn walk_file_sizes(path: &str) -> (r: Vec<(bool, u64)>) {
    jwalk::WalkDir::new(path)
        .skip_hidden(false)
        .follow_links(true)
        .into_iter()
        .map(|e| match e {
            Ok(e) => match e.metadata() {
                Ok(m) => (e.file_type().is_file(), m.len()),
                Err(_) => (false, 0),
            },
            Err(_) => (false, 0),
        })
        .collect()
}

/// Sum of the sizes of the entries marked as regular files.
pub open spec fn spec_walked_sum(s: Seq<(bool, u64)>) -> int
    decreases s.len(),
{
    if s.len() == 0 {
        0
    } else {
        spec_walked_sum(s.drop_last()) + if s.last().0 {
            s.last().1 as int
        } else {
            0int
        }
    }
}

/// The walked-file sum is never negative.
pub proof fn lemma_walked_sum_nonneg(s: Seq<(bool, u64)>)
    ensures
        spec_walked_sum(s) >= 0,
    decreases s.len(),
{
    if s.len() > 0 {
        lemma_walked_sum_nonneg(s.drop_last());
    }
}

/// Adds up the sizes of the walked regular files, saturating at the top of
/// the range.
pub fn sum_file_sizes(entries: &Vec<(bool, u64)>) -> (r: u64)
    ensures
        r == crate::deleter::sat_u64(spec_walked_sum(entries@)),
{
    let mut total: u64 = 0;
    for i in 0..entries.len()
        invariant
            total == crate::deleter::sat_u64(spec_walked_sum(entries@.take(i as int))),
    {
        proof {
            assert(entries@.take(i + 1).drop_last() =~= entries@.take(i as int));
            assert(entries@.take(i + 1).last() == entries@[i as int]);
            lemma_walked_sum_nonneg(entries@.take(i as int));
        }
        if entries[i].0 {
            let size = entries[i].1;
            if total > u64::MAX - size {
                total = u64::MAX;
            } else {
                total = total + size;
            }
        }
    }
    proof {
        assert(entries@.take(entries@.len() as int) =~= entries@);
    }
    total
}

/// Total size in bytes of every regular file reachable under `path`,
/// recursing through all subdirectories, hidden ones included. Entries that
/// cannot be read contribute zero; this function never fails. It does
/// blocking filesystem work and belongs on a background worker. What is on
/// disk decides the result, so its contract promises nothing of the value;
/// the summing itself is `sum_file_sizes`.
pub fn dir_size(path: &str) -> u64 {
    let entries = walk_file_sizes(path);
    sum_file_sizes(&entries)
}

// ─── Path normalisation ───────────────────────────────────────────────────────

/// One character of path normalisation: backslashes become forward slashes,
/// ASCII letters are lower-cased.
pub open spec fn norm_char(c: char) -> char {
    if c == '\\' {
        '/'
    } else {
        lower_char(c)
    }
}

/// Normalised form of a path: separators unified, letters lower-cased, and a
/// leading drive prefix (`c:/…`) stripped down to `/…`.
pub open spec fn normalize_path_spec(p: Seq<char>) -> Seq<char> {
    let m = p.map_values(|c: char| norm_char(c));
    if m.len() >= 3 && m[1] == ':' && m[2] == '/' {
        m.skip(2)
    } else {
        m
    }
}

/// Normalises a path given as a character vector.
pub fn normalize_chars(p: &Vec<char>) -> (r: Vec<char>)
    ensures
        r@ == normalize_path_spec(p@),
{
    let mut m: Vec<char> = Vec::new();
    for i in 0..p.len()
        invariant
            m@ == p@.take(i as int).map_values(|c: char| norm_char(c)),
    {
        let c = p[i];
        let mc = if c == '\\' {
            '/'
        } else {
            lower_char_exec(c)
        };
        m.push(mc);
        proof {
            assert(m@ =~= p@.take(i + 1).map_values(|c: char| norm_char(c)));
        }
    }
    proof {
        assert(p@.take(p@.len() as int) =~= p@);
        assert(m@ == p@.map_values(|c: char| norm_char(c)));
    }
    if m.len() >= 3 {
        let c1 = m[1];
        let c2 = m[2];
        if c1 == ':' && c2 == '/' {
            return subrange_vec(&m, 2, m.len());
        }
    }
    m
}

/// Normalises a path string for case-insensitive, cross-platform comparison:
/// backslashes become forward slashes, letters are lower-cased (ASCII), and a
/// drive-letter prefix (`C:/…`) is stripped to `/…`.
pub fn normalize_path(p: &str) -> (r: String)
    ensures
        r@ == normalize_path_spec(p@),
{
    let chars = str_to_chars(p);
    let m = normalize_chars(&chars);
    chars_to_string(&m)
}

// ─── Basic path predicates ────────────────────────────────────────────────────

/// The path is a network path: it begins with a doubled separator.
pub open spec fn spec_is_unc(p: Seq<char>) -> bool {
    p.len() >= 2 && ((p[0] == '\\' && p[1] == '\\') || (p[0] == '/' && p[1] == '/'))
}

/// The path is absolute, read in a platform-neutral way: it starts with a
/// separator, or carries a drive prefix such as `C:/` or `C:\`.
pub open spec fn spec_is_absolute(p: Seq<char>) -> bool {
    (p.len() >= 1 && (p[0] == '/' || p[0] == '\\')) || (p.len() >= 3 && p[1] == ':' && (p[2]
        == '/' || p[2] == '\\'))
}

/// Joining a relative path onto a base directory.
pub open spec fn spec_join(base: Seq<char>, p: Seq<char>) -> Seq<char> {
    base + seq!['/'] + p
}

/// The path as used for prefix comparisons: unchanged when it stands on its
/// own (network or absolute), otherwise appended to the working directory.
pub open spec fn spec_absolutize(p: Seq<char>, cwd: Seq<char>) -> Seq<char> {
    if spec_is_unc(p) || spec_is_absolute(p) {
        p
    } else {
        spec_join(cwd, p)
    }
}

fn is_unc_exec(p: &Vec<char>) -> (r: bool)
    ensures
        r == spec_is_unc(p@),
{
    p.len() >= 2 && ((p[0] == '\\' && p[1] == '\\') || (p[0] == '/' && p[1] == '/'))
}

fn is_absolute_exec(p: &Vec<char>) -> (r: bool)
    ensures
        r == spec_is_absolute(p@),
{
    (p.len() >= 1 && (p[0] == '/' || p[0] == '\\')) || (p.len() >= 3 && p[1] == ':' && (p[2] == '/'
        || p[2] == '\\'))
}

pub(crate) fn join_exec(base: &Vec<char>, p: &Vec<char>) -> (r: Vec<char>)
    ensures
        r@ == spec_join(base@, p@),
{
    let mut r: Vec<char> = Vec::new();
    for i in 0..base.len()
        invariant
            r@ == base@.take(i as int),
    {
        r.push(base[i]);
        proof {
            assert(r@ =~= base@.take(i + 1));
        }
    }
    proof {
        assert(base@.take(base@.len() as int) =~= base@);
    }
    r.push('/');
    for i in 0..p.len()
        invariant
            r@ == base@ + seq!['/'] + p@.take(i as int),
    {
        r.push(p[i]);
        proof {
            assert(r@ =~= base@ + seq!['/'] + p@.take(i + 1));
        }
    }
    proof {
        assert(p@.take(p@.len() as int) =~= p@);
    }
    r
}

fn absolutize_exec(p: &Vec<char>, cwd: &Vec<char>) -> (r: Vec<char>)
    ensures
        r@ == spec_absolutize(p@, cwd@),
{
    if is_unc_exec(p) || is_absolute_exec(p) {
        let r = subrange_vec(p, 0, p.len());
        proof {
            assert(p@.subrange(0, p@.len() as int) =~= p@);
        }
        r
    } else {
        join_exec(cwd, p)
    }
}

// ─── Segments of a path ───────────────────────────────────────────────────────

/// The path with its leading slashes removed.
pub open spec fn spec_trim_slashes(s: Seq<char>) -> Seq<char>
    decreases s.len(),
{
    if s.len() > 0 && s[0] == '/' {
        spec_trim_slashes(s.skip(1))
    } else {
        s
    }
}

proof fn lemma_trim_slashes(s: Seq<char>, k: int)
    requires
        0 <= k <= s.len(),
        forall|j: int| 0 <= j < k ==> s[j] == '/',
        k == s.len() || s[k] != '/',
    ensures
        spec_trim_slashes(s) == s.skip(k),
    decreases k,
{
    if k == 0 {
        assert(s.skip(0) =~= s);
    } else {
        assert(s[0] == '/');
        lemma_trim_slashes(s.skip(1), k - 1);
        assert(s.skip(1).skip(k - 1) =~= s.skip(k));
    }
}

fn trim_slashes_exec(s: &Vec<char>) -> (r: Vec<char>)
    ensures
        r@ == spec_trim_slashes(s@),
{
    let mut k: usize = 0;
    while k < s.len() && s[k] == '/'
        invariant
            k <= s@.len(),
            forall|j: int| 0 <= j < k ==> s@[j] == '/',
        decreases s@.len() - k,
    {
        k = k + 1;
    }
    let r = subrange_vec(s, k, s.len());
    proof {
        lemma_trim_slashes(s@, k as int);
        assert(s@.subrange(k as int, s@.len() as int) =~= s@.skip(k as int));
    }
    r
}

/// The first `/`-separated component of a path.
pub open spec fn spec_first_seg(s: Seq<char>) -> Seq<char> {
    match find_from(s, seq!['/'], 0) {
        Some(i) => s.take(i),
        None => s,
    }
}

fn first_seg_exec(s: &Vec<char>) -> (r: Vec<char>)
    ensures
        r@ == spec_first_seg(s@),
{
    let slash: Vec<char> = vec!['/'];
    proof {
        assert(slash@ =~= seq!['/']);
    }
    match find_sub(s, &slash) {
        Some(i) => {
            proof {
                crate::text::lemma_find_from_bounds(s@, seq!['/'], 0, i as int);
            }
            subrange_vec(s, 0, i)
        },
        None => {
            let r = subrange_vec(s, 0, s.len());
            proof {
                assert(s@.subrange(0, s@.len() as int) =~= s@);
            }
            r
        },
    }
}

// ─── Network paths with hidden segments ───────────────────────────────────────

/// How many separators occur in `s`.
pub open spec fn spec_count_slashes(s: Seq<char>) -> int
    decreases s.len(),
{
    if s.len() == 0 {
        0
    } else {
        spec_count_slashes(s.drop_last()) + if s.last() == '/' {
            1int
        } else {
            0int
        }
    }
}

/// Some component after the server and share parts of a network path begins
/// with a dot: position `i` starts a segment (`/` just before it), is a dot,
/// and at least four separators stand before it.
pub open spec fn spec_unc_hidden(p: Seq<char>) -> bool {
    exists|i: int|
        1 <= i < p.len() && p[i] == '.' && p[i - 1] == '/' && spec_count_slashes(p.take(i)) >= 4
}

fn unc_hidden_exec(p: &Vec<char>) -> (r: bool)
    ensures
        r == spec_unc_hidden(p@),
{
    let mut slashes: usize = 0;
    let mut i: usize = 1;
    if p.len() < 2 {
        return false;
    }
    if p[0] == '/' {
        slashes = 1;
    }
    proof {
        reveal_with_fuel(spec_count_slashes, 2);
        assert(p@.take(1).drop_last() =~= p@.take(0));
        assert(p@.take(0).len() == 0);
        assert(p@.take(1).last() == p@[0]);
        assert(spec_count_slashes(p@.take(1)) == if p@[0] == '/' {
            1int
        } else {
            0int
        });
    }
    while i < p.len()
        invariant
            1 <= i <= p@.len(),
            slashes as int == spec_count_slashes(p@.take(i as int)),
            slashes <= i,
            forall|j: int|
                1 <= j < i ==> !(p@[j] == '.' && p@[j - 1] == '/' && spec_count_slashes(
                    p@.take(j),
                ) >= 4),
        decreases p@.len() - i,
    {
        if p[i] == '.' && p[i - 1] == '/' && slashes >= 4 {
            return true;
        }
        proof {
            assert(p@.take(i + 1).drop_last() =~= p@.take(i as int));
            assert(p@.take(i + 1).last() == p@[i as int]);
        }
        if p[i] == '/' {
            slashes = slashes + 1;
        }
        i = i + 1;
    }
    false
}

// ─── Home-directory rules ─────────────────────────────────────────────────────

/// The home directory in normalised form, made absolute against `cwd` first
/// when it is relative.
pub open spec fn spec_home_norm(home: Seq<char>, cwd: Seq<char>) -> Seq<char> {
    normalize_path_spec(
        if spec_is_absolute(home) {
            home
        } else {
            spec_join(cwd, home)
        },
    )
}

/// The normalised path lies at or under the normalised home directory.
pub open spec fn spec_in_home(norm: Seq<char>, nh: Seq<char>) -> bool {
    norm == nh || starts_with(norm, nh + seq!['/'])
}

/// The verdict the home-directory rules give for the path relative to home:
/// `Some(true)` for the always-sensitive configuration, application-data and
/// cache trees and for unknown dotted top-level directories, `Some(false)`
/// for the two package-manager caches, `None` when the rules say nothing.
pub open spec fn spec_home_rules(rel: Seq<char>) -> Option<bool> {
    let top = spec_first_seg(rel);
    if starts_with(rel, ".config"@) || starts_with(rel, ".local/share"@) || starts_with(
        rel,
        ".cache"@,
    ) {
        Some(true)
    } else if top == ".npm"@ || top == ".pnpm"@ {
        Some(false)
    } else if top.len() > 0 && top[0] == '.' && top != "."@ && top != ".."@ {
        Some(true)
    } else {
        None
    }
}

fn home_rules_exec(rel: &Vec<char>) -> (r: Option<bool>)
    ensures
        r == spec_home_rules(rel@),
{
    let n_config = str_to_chars(".config");
    let n_share = str_to_chars(".local/share");
    let n_cache = str_to_chars(".cache");
    if starts_with_exec(rel, &n_config) || starts_with_exec(rel, &n_share) || starts_with_exec(
        rel,
        &n_cache,
    ) {
        return Some(true);
    }
    let top = first_seg_exec(rel);
    let n_npm = str_to_chars(".npm");
    let n_pnpm = str_to_chars(".pnpm");
    if chars_eq(&top, &n_npm) || chars_eq(&top, &n_pnpm) {
        return Some(false);
    }
    let n_dot = str_to_chars(".");
    let n_dotdot = str_to_chars("..");
    if top.len() > 0 && top[0] == '.' && !chars_eq(&top, &n_dot) && !chars_eq(&top, &n_dotdot) {
        return Some(true);
    }
    None
}

// ─── Application bundles ──────────────────────────────────────────────────────

/// The normalised path points inside an application bundle: an `.app` segment
/// directly under an `Applications` directory, with no separator inside the
/// bundle name.
pub open spec fn spec_bundle_sensitive(norm: Seq<char>) -> bool {
    match find_from(norm, "/applications/"@, 0) {
        Some(i) => {
            let rest = norm.skip(i + "/applications/"@.len());
            match find_from(rest, ".app/"@, 0) {
                Some(e) => !contains_sub(rest.take(e), seq!['/']),
                None => false,
            }
        },
        None => false,
    }
}

fn bundle_sensitive_exec(norm: &Vec<char>) -> (r: bool)
    ensures
        r == spec_bundle_sensitive(norm@),
{
    let n_apps = str_to_chars("/applications/");
    match find_sub(norm, &n_apps) {
        Some(i) => {
            proof {
                crate::text::lemma_find_from_bounds(norm@, "/applications/"@, 0, i as int);
            }
            let nl = norm.len();
            let rest = subrange_vec(norm, i + n_apps.len(), nl);
            proof {
                assert(rest@ =~= norm@.skip(i + "/applications/"@.len()));
            }
            let n_app = str_to_chars(".app/");
            match find_sub(&rest, &n_app) {
                Some(e) => {
                    proof {
                        crate::text::lemma_find_from_bounds(rest@, ".app/"@, 0, e as int);
                    }
                    let head = subrange_vec(&rest, 0, e);
                    proof {
                        assert(head@ =~= rest@.take(e as int));
                    }
                    let slash: Vec<char> = vec!['/'];
                    proof {
                        assert(slash@ =~= seq!['/']);
                    }
                    !contains_sub_exec(&head, &slash)
                },
                None => false,
            }
        },
        None => false,
    }
}

// ─── Application data directories ─────────────────────────────────────────────

/// The normalised path names one of the package-manager cache directories as
/// a whole path segment.
pub open spec fn spec_appdata_whitelisted(norm: Seq<char>) -> bool {
    ||| contains_sub(norm, "/.cache/"@) || ends_with(norm, "/.cache"@)
    ||| contains_sub(norm, "/.npm/"@) || ends_with(norm, "/.npm"@)
    ||| contains_sub(norm, "/.pnpm/"@) || ends_with(norm, "/.pnpm"@)
}

fn appdata_whitelisted_exec(norm: &Vec<char>) -> (r: bool)
    ensures
        r == spec_appdata_whitelisted(norm@),
{
    let c1 = str_to_chars("/.cache/");
    let c2 = str_to_chars("/.cache");
    let n1 = str_to_chars("/.npm/");
    let n2 = str_to_chars("/.npm");
    let p1 = str_to_chars("/.pnpm/");
    let p2 = str_to_chars("/.pnpm");
    (contains_sub_exec(norm, &c1) || ends_with_exec(norm, &c2)) || (contains_sub_exec(norm, &n1)
        || ends_with_exec(norm, &n2)) || (contains_sub_exec(norm, &p1) || ends_with_exec(
        norm,
        &p2,
    ))
}

// ─── The classifier ───────────────────────────────────────────────────────────

/// What the home-directory rules decide for the whole path, if anything:
/// `None` when the path is outside home, home is unknown, or no rule applies.
pub open spec fn spec_home_verdict(norm: Seq<char>, home: Seq<char>, cwd: Seq<char>) -> Option<
    bool,
> {
    if home.len() == 0 {
        None
    } else {
        let nh = spec_home_norm(home, cwd);
        if spec_in_home(norm, nh) {
            spec_home_rules(spec_trim_slashes(norm.skip(nh.len() as int)))
        } else {
            None
        }
    }
}

/// Whether a path is unsafe to delete unattended, given the user's home
/// directory and the working directory (both may be empty when unknown).
/// The rules are tried in order: home-directory rules, application bundles,
/// network paths with hidden segments, roaming application data, local
/// application data with a cache whitelist.
pub open spec fn spec_is_sensitive(path: Seq<char>, home: Seq<char>, cwd: Seq<char>) -> bool {
    let norm = normalize_path_spec(spec_absolutize(path, cwd));
    let norm_raw = normalize_path_spec(path);
    match spec_home_verdict(norm, home, cwd) {
        Some(b) => b,
        None => if spec_bundle_sensitive(norm) {
            true
        } else if starts_with(norm_raw, "//"@) && spec_unc_hidden(norm_raw) {
            true
        } else if contains_sub(norm, "/appdata/roaming"@) {
            true
        } else if contains_sub(norm, "/appdata/local"@) {
            !spec_appdata_whitelisted(norm)
        } else {
            false
        },
    }
}

/// The classifier is deterministic: any two verdicts over the same path,
/// home directory and working directory agree.
pub proof fn lemma_classifier_deterministic(
    r1: bool,
    r2: bool,
    path: Seq<char>,
    home: Seq<char>,
    cwd: Seq<char>,
)
    requires
        r1 == spec_is_sensitive(path, home, cwd),
        r2 == spec_is_sensitive(path, home, cwd),
    ensures
        r1 == r2,
{
}

proof fn lemma_trim_slashes_head(s: Seq<char>)
    ensures
        spec_trim_slashes(s).len() > 0 ==> spec_trim_slashes(s)[0] != '/',
    decreases s.len(),
{
    if s.len() > 0 && s[0] == '/' {
        lemma_trim_slashes_head(s.skip(1));
    }
}

proof fn lemma_starts_with_index(h: Seq<char>, n: Seq<char>)
    requires
        starts_with(h, n),
    ensures
        forall|t: int| 0 <= t < n.len() ==> h[t] == n[t],
{
    assert forall|t: int| 0 <= t < n.len() implies h[t] == n[t] by {
        assert(h.subrange(0, n.len() as int)[t] == n[t]);
    }
}

proof fn lemma_first_seg_head(s: Seq<char>)
    requires
        s.len() > 0,
        s[0] != '/',
    ensures
        spec_first_seg(s).len() > 0,
        spec_first_seg(s)[0] == s[0],
{
    match find_from(s, seq!['/'], 0) {
        Some(idx) => {
            crate::text::lemma_find_from_bounds(s, seq!['/'], 0, idx);
            assert(s.subrange(idx, idx + 1)[0] == s[idx]);
            assert(s[idx] == '/');
            assert(idx >= 1);
        },
        None => {},
    }
}

/// A path that lies under the home directory, whose top-level component
/// under home is not dotted, with no application-bundle and no
/// application-data segment, and no hidden segment of a network path,
/// classifies as safe.
pub proof fn lemma_plain_home_path_is_safe(path: Seq<char>, home: Seq<char>, cwd: Seq<char>)
    requires
        home.len() > 0,
        spec_in_home(normalize_path_spec(spec_absolutize(path, cwd)), spec_home_norm(home, cwd)),
        ({
            let norm = normalize_path_spec(spec_absolutize(path, cwd));
            let nh = spec_home_norm(home, cwd);
            let top = spec_first_seg(spec_trim_slashes(norm.skip(nh.len() as int)));
            !(top.len() > 0 && top[0] == '.')
        }),
        !spec_bundle_sensitive(normalize_path_spec(spec_absolutize(path, cwd))),
        !(starts_with(normalize_path_spec(path), "//"@) && spec_unc_hidden(
            normalize_path_spec(path),
        )),
        !contains_sub(normalize_path_spec(spec_absolutize(path, cwd)), "/appdata/roaming"@),
        !contains_sub(normalize_path_spec(spec_absolutize(path, cwd)), "/appdata/local"@),
    ensures
        !spec_is_sensitive(path, home, cwd),
{
    let norm = normalize_path_spec(spec_absolutize(path, cwd));
    let nh = spec_home_norm(home, cwd);
    let rel = spec_trim_slashes(norm.skip(nh.len() as int));
    let top = spec_first_seg(rel);
    lemma_trim_slashes_head(norm.skip(nh.len() as int));
    assert(!starts_with(rel, ".config"@)) by {
        if starts_with(rel, ".config"@) {
            reveal_strlit(".config");
            lemma_starts_with_index(rel, ".config"@);
            lemma_first_seg_head(rel);
        }
    }
    assert(!starts_with(rel, ".local/share"@)) by {
        if starts_with(rel, ".local/share"@) {
            reveal_strlit(".local/share");
            lemma_starts_with_index(rel, ".local/share"@);
            lemma_first_seg_head(rel);
        }
    }
    assert(!starts_with(rel, ".cache"@)) by {
        if starts_with(rel, ".cache"@) {
            reveal_strlit(".cache");
            lemma_starts_with_index(rel, ".cache"@);
            lemma_first_seg_head(rel);
        }
    }
    assert(!(top == ".npm"@)) by {
        if top == ".npm"@ {
            reveal_strlit(".npm");
        }
    }
    assert(!(top == ".pnpm"@)) by {
        if top == ".pnpm"@ {
            reveal_strlit(".pnpm");
        }
    }
    assert(spec_home_rules(rel) is None);
}

/// Classifies `path` as sensitive or safe for unattended deletion.
///
/// `home` is the user's home directory and `cwd` the working directory, as
/// the caller read them from the environment; either may be empty when
/// unavailable. The decision is a pure function of the three strings.
pub fn is_sensitive_dir(path: &str, home: &str, cwd: &str) -> (r: bool)
    ensures
        r == spec_is_sensitive(path@, home@, cwd@),
{
    let p = str_to_chars(path);
    let h = str_to_chars(home);
    let c = str_to_chars(cwd);
    is_sensitive_chars(&p, &h, &c)
}

/// The classifier on character vectors; see `spec_is_sensitive`.
pub fn is_sensitive_chars(p: &Vec<char>, h: &Vec<char>, c: &Vec<char>) -> (r: bool)
    ensures
        r == spec_is_sensitive(p@, h@, c@),
{
    let abs = absolutize_exec(p, c);
    let norm = normalize_chars(&abs);
    let norm_raw = normalize_chars(p);

    // Home directory rules.
    if h.len() > 0 {
        let home_abs = if is_absolute_exec(h) {
            let r = subrange_vec(h, 0, h.len());
            proof {
                assert(h@.subrange(0, h@.len() as int) =~= h@);
            }
            r
        } else {
            join_exec(c, h)
        };
        let nh = normalize_chars(&home_abs);
        let mut nh_slash = subrange_vec(&nh, 0, nh.len());
        proof {
            assert(nh@.subrange(0, nh@.len() as int) =~= nh@);
        }
        nh_slash.push('/');
        proof {
            assert(nh_slash@ =~= nh@ + seq!['/']);
        }
        let in_home = chars_eq(&norm, &nh) || starts_with_exec(&norm, &nh_slash);
        if in_home {
            let tail = subrange_vec(&norm, if nh.len() <= norm.len() {
                nh.len()
            } else {
                norm.len()
            }, norm.len());
            proof {
                assert(nh@.len() <= norm@.len());
                assert(tail@ =~= norm@.skip(nh@.len() as int));
            }
            let rel = trim_slashes_exec(&tail);
            match home_rules_exec(&rel) {
                Some(b) => {
                    return b;
                },
                None => {},
            }
        }
    }

    // Application bundles.
    if bundle_sensitive_exec(&norm) {
        return true;
    }

    // Network paths with hidden segments.
    let n_dd = str_to_chars("//");
    if starts_with_exec(&norm_raw, &n_dd) && unc_hidden_exec(&norm_raw) {
        return true;
    }

    // Application data.
    let n_roaming = str_to_chars("/appdata/roaming");
    if contains_sub_exec(&norm, &n_roaming) {
        return true;
    }
    let n_local = str_to_chars("/appdata/local");
    if contains_sub_exec(&norm, &n_local) {
        return !appdata_whitelisted_exec(&norm);
    }

    false
}

} // verus!
