//! Change classification: from a changed path under the project root to the
//! kind of rebuild it demands, and the temp-file filter that keeps editor and
//! OS artifacts from triggering any rebuild at all.

use vstd::prelude::*;
use vstd::string::StrSliceExecFns;
use vstd::string::StringExecFns;
use crate::strutil::normalize_seps;
use crate::strutil::path_starts_with;
use crate::strutil::index_of_last_char;
use crate::strutil::ends_with;
use crate::strutil::lemma_index_of_last_char;
use crate::strutil::lemma_normalize_concat;
use crate::strutil::normalize_separators;
use crate::strutil::str_eq;
use crate::strutil::str_ends_with;
use crate::strutil::path_prefix;
use crate::strutil::find_last_char;

verus! {

/// The closed set of change kinds; each selects one rebuild strategy.
#[derive(Debug, Clone, Copy, PartialEq, Eq, Structural)]
pub enum ChangeKind {
    Content,
    Templates,
    StaticFiles,
    Sass,
    Config,
}

/// A change whose canonical path matches no watched root: reported as an
/// explicit error rather than treated as unreachable, so that a later
/// extension of the watch set cannot crash the loop.
#[derive(Debug)]
pub struct UnclassifiedChange {
    /// The canonical root-relative path that failed to classify.
    pub path: String,
}

/// `s` with trailing separators removed.
pub open spec fn strip_trailing_slashes(s: Seq<char>) -> Seq<char>
    decreases s.len(),
{
    if s.len() > 0 && s[s.len() - 1] == '/' {
        strip_trailing_slashes(s.drop_last())
    } else {
        s
    }
}

/// `s` with leading separators removed.
pub open spec fn strip_leading_slashes(s: Seq<char>) -> Seq<char>
    decreases s.len(),
{
    if s.len() > 0 && s[0] == '/' {
        strip_leading_slashes(s.skip(1))
    } else {
        s
    }
}

/// `p` re-rooted under "/".
pub open spec fn rooted(p: Seq<char>) -> Seq<char> {
    seq!['/'] + strip_leading_slashes(p)
}

/// The canonical root-relative form of a changed path: separators
/// normalized, the project-root prefix stripped when present (an already
/// root-relative path is tolerated), and the result re-rooted under "/".
pub open spec fn canonical_path_spec(pwd: Seq<char>, path: Seq<char>) -> Seq<char> {
    let p = normalize_seps(path);
    let r = strip_trailing_slashes(normalize_seps(pwd));
    if r.len() > 0 && p == r {
        seq!['/']
    } else if r.len() > 0 && p.len() > r.len() && p.subrange(0, r.len() as int) == r
        && p[r.len() as int] == '/' {
        p.skip(r.len() as int)
    } else {
        rooted(p)
    }
}

/// Ordered classification of a canonical root-relative path: the directory
/// roots match as path prefixes, the configuration file by exact match.
pub open spec fn classify_spec(canon: Seq<char>) -> Option<ChangeKind> {
    if path_starts_with(canon, "/templates"@) {
        Some(ChangeKind::Templates)
    } else if path_starts_with(canon, "/content"@) {
        Some(ChangeKind::Content)
    } else if path_starts_with(canon, "/static"@) {
        Some(ChangeKind::StaticFiles)
    } else if path_starts_with(canon, "/sass"@) {
        Some(ChangeKind::Sass)
    } else if canon == "/config.toml"@ {
        Some(ChangeKind::Config)
    } else {
        None
    }
}

/// The file name of `p`: everything after the last separator.
pub open spec fn file_name_of(p: Seq<char>) -> Seq<char> {
    match index_of_last_char(p, '/') {
        Some(i) => p.skip(i + 1),
        None => p,
    }
}

/// The extension of a file name: everything after the last dot, except that
/// a name without a dot, or whose only dot leads it (a hidden file), has
/// none.
pub open spec fn ext_of(name: Seq<char>) -> Option<Seq<char>> {
    match index_of_last_char(name, '.') {
        Some(i) => if i == 0 {
            None
        } else {
            Some(name.skip(i + 1))
        },
        None => None,
    }
}

/// The stem of a file name: everything before the last dot, or the whole
/// name when `ext_of` finds no extension.
pub open spec fn stem_of(name: Seq<char>) -> Seq<char> {
    match index_of_last_char(name, '.') {
        Some(i) => if i == 0 {
            name
        } else {
            name.take(i)
        },
        None => name,
    }
}

/// A path names an editor or OS artifact that must never trigger a rebuild:
/// the extensions swp, swx and tmp; the editor backup suffixes jb_old___,
/// jb_tmp___ and jb_bak___; a trailing tilde; a stem led by a hash; and,
/// conservatively, any path with no extension at all.
pub open spec fn is_temp_spec(path: Seq<char>) -> bool {
    let name = file_name_of(normalize_seps(path));
    match ext_of(name) {
        None => true,
        Some(e) => e == "swp"@ || e == "swx"@ || e == "tmp"@
            || ends_with(e, "jb_old___"@)
            || ends_with(e, "jb_tmp___"@)
            || ends_with(e, "jb_bak___"@)
            || ends_with(e, "~"@)
            || (stem_of(name).len() > 0 && stem_of(name)[0] == '#'),
    }
}

/// Whether the path names an editor or OS temp file; such changes are
/// dropped before classification.
pub fn is_temp_file(path: &str) -> (r: bool)
    ensures
        r == is_temp_spec(path@),
{
    let norm = normalize_separators(path);
    let ns = norm.as_str();
    let n = ns.unicode_len();
    proof {
        lemma_index_of_last_char(norm@, '/');
    }
    let name_start: usize = match find_last_char(ns, '/') {
        Some(i) => i + 1,
        None => 0,
    };
    proof {
        assert(ns@.skip(name_start as int) =~= file_name_of(normalize_seps(path@)));
    }
    let name = ns.substring_char(name_start, n);
    let ghost gname = file_name_of(normalize_seps(path@));
    proof {
        assert(name@ =~= gname);
    }
    let m = name.unicode_len();
    match find_last_char(name, '.') {
        None => true,
        Some(i) => {
            if i == 0 {
                true
            } else {
                proof {
                    lemma_index_of_last_char(gname, '.');
                }
                let e = name.substring_char(i + 1, m);
                proof {
                    assert(e@ =~= ext_of(gname).unwrap());
                }
                if str_eq(e, "swp") || str_eq(e, "swx") || str_eq(e, "tmp")
                    || str_ends_with(e, "jb_old___")
                    || str_ends_with(e, "jb_tmp___")
                    || str_ends_with(e, "jb_bak___")
                    || str_ends_with(e, "~") {
                    true
                } else {
                    let stem = name.substring_char(0, i);
                    proof {
                        assert(stem@ =~= stem_of(gname));
                    }
                    stem.unicode_len() > 0 && stem.get_char(0) == '#'
                }
            }
        },
    }
}

/// Classify a changed path against the project root. Returns the change
/// kind together with the canonical root-relative path, or an
/// `UnclassifiedChange` naming that canonical path when no watched root
/// matches it.
pub fn detect_change_kind(pwd: &str, path: &str) -> (r: Result<
    (ChangeKind, String),
    UnclassifiedChange,
>)
    ensures
        ({
            let canon = canonical_path_spec(pwd@, path@);
            match classify_spec(canon) {
                Some(k) => r matches Ok(v) && v.0 == k && v.1@ == canon,
                None => r matches Err(e) && e.path@ == canon,
            }
        }),
{
    let p = normalize_separators(path);
    let r0 = normalize_separators(pwd);
    let root = strip_trailing(r0.as_str());
    let np = p.as_str().unicode_len();
    let nr = root.as_str().unicode_len();
    let canon: String;
    if nr > 0 && str_eq(p.as_str(), root.as_str()) {
        canon = slash_string();
    } else if nr > 0 && np > nr
        && str_eq(p.as_str().substring_char(0, nr), root.as_str())
        && p.as_str().get_char(nr) == '/' {
        canon = rest_of(p.as_str(), nr);
        proof {
            assert(canon@ =~= canonical_path_spec(pwd@, path@));
        }
    } else {
        let mut lead: usize = 0;
        proof {
            assert(p@.skip(0) =~= p@);
        }
        while lead < np && p.as_str().get_char(lead) == '/'
            invariant
                lead <= np,
                np == p@.len(),
                strip_leading_slashes(p@) == strip_leading_slashes(p@.skip(lead as int)),
            decreases np - lead,
        {
            proof {
                assert(p@.skip(lead as int).skip(1) =~= p@.skip(lead + 1 as int));
            }
            lead = lead + 1;
        }
        proof {
            assert(strip_leading_slashes(p@.skip(lead as int)) == p@.skip(lead as int));
        }
        let mut c = slash_string();
        c.append(p.as_str().substring_char(lead, np));
        proof {
            assert(c@ =~= rooted(p@));
        }
        canon = c;
    }
    proof {
        assert(canon@ == canonical_path_spec(pwd@, path@));
    }
    if path_prefix(canon.as_str(), "/templates") {
        Ok((ChangeKind::Templates, canon))
    } else if path_prefix(canon.as_str(), "/content") {
        Ok((ChangeKind::Content, canon))
    } else if path_prefix(canon.as_str(), "/static") {
        Ok((ChangeKind::StaticFiles, canon))
    } else if path_prefix(canon.as_str(), "/sass") {
        Ok((ChangeKind::Sass, canon))
    } else if str_eq(canon.as_str(), "/config.toml") {
        Ok((ChangeKind::Config, canon))
    } else {
        Err(UnclassifiedChange { path: canon })
    }
}

/// Two path-component prefixes that disagree at some position cannot both
/// hold of one path.
proof fn lemma_prefix_conflict(p: Seq<char>, a: Seq<char>, b: Seq<char>, k: int)
    requires
        0 <= k < a.len(),
        k < b.len(),
        a[k] != b[k],
    ensures
        !(path_starts_with(p, a) && path_starts_with(p, b)),
{
    if path_starts_with(p, a) && path_starts_with(p, b) {
        assert(p[k] == a[k]) by {
            if p != a {
                assert(p.subrange(0, a.len() as int)[k] == p[k]);
            }
        }
        assert(p[k] == b[k]) by {
            if p != b {
                assert(p.subrange(0, b.len() as int)[k] == p[k]);
            }
        }
    }
}

/// Classification goes by the matching root alone: each change kind is
/// returned exactly when its root matches the canonical path — the four
/// directory roots as path prefixes, the configuration file by exact match.
/// The five patterns are mutually exclusive, so the order of the tests in
/// `classify_spec` never decides.
pub proof fn lemma_classify_by_prefix(canon: Seq<char>)
    ensures
        classify_spec(canon) == Some(ChangeKind::Templates) <==> path_starts_with(
            canon,
            "/templates"@,
        ),
        classify_spec(canon) == Some(ChangeKind::Content) <==> path_starts_with(
            canon,
            "/content"@,
        ),
        classify_spec(canon) == Some(ChangeKind::StaticFiles) <==> path_starts_with(
            canon,
            "/static"@,
        ),
        classify_spec(canon) == Some(ChangeKind::Sass) <==> path_starts_with(canon, "/sass"@),
        classify_spec(canon) == Some(ChangeKind::Config) <==> canon == "/config.toml"@,
        classify_spec(canon) is None <==> !path_starts_with(canon, "/templates"@)
            && !path_starts_with(canon, "/content"@) && !path_starts_with(canon, "/static"@)
            && !path_starts_with(canon, "/sass"@) && canon != "/config.toml"@,
{
    reveal_strlit("/templates");
    reveal_strlit("/content");
    reveal_strlit("/static");
    reveal_strlit("/sass");
    reveal_strlit("/config.toml");
    let t = "/templates"@;
    let c = "/content"@;
    let st = "/static"@;
    let sa = "/sass"@;
    let cf = "/config.toml"@;
    lemma_prefix_conflict(canon, t, c, 1);
    lemma_prefix_conflict(canon, t, st, 1);
    lemma_prefix_conflict(canon, t, sa, 1);
    lemma_prefix_conflict(canon, c, st, 1);
    lemma_prefix_conflict(canon, c, sa, 1);
    lemma_prefix_conflict(canon, st, sa, 3);
    lemma_prefix_conflict(canon, cf, t, 1);
    lemma_prefix_conflict(canon, cf, c, 4);
    lemma_prefix_conflict(canon, cf, st, 1);
    lemma_prefix_conflict(canon, cf, sa, 1);
}

/// The canonical path — and with it the classification — is the same
/// whether a changed path is handed in absolute under the root or already
/// root-relative. Excluded are only the ambiguous inputs: a root with
/// trailing separators, a "relative" path that itself begins with a
/// separator, and a relative path that begins with the root over again.
pub proof fn lemma_canonical_relative_invariant(pwd: Seq<char>, rel: Seq<char>)
    requires
        strip_trailing_slashes(normalize_seps(pwd)) == normalize_seps(pwd),
        normalize_seps(rel).len() > 0 ==> normalize_seps(rel)[0] != '/',
        normalize_seps(pwd).len() > 0 ==> !path_starts_with(
            normalize_seps(rel),
            normalize_seps(pwd),
        ),
    ensures
        canonical_path_spec(pwd, pwd + seq!['/'] + rel) == canonical_path_spec(pwd, rel),
        classify_spec(canonical_path_spec(pwd, pwd + seq!['/'] + rel)) == classify_spec(
            canonical_path_spec(pwd, rel),
        ),
{
    let r = normalize_seps(pwd);
    let nrel = normalize_seps(rel);
    lemma_normalize_concat(pwd + seq!['/'], rel);
    lemma_normalize_concat(pwd, seq!['/']);
    assert(normalize_seps(seq!['/']) =~= seq!['/']);
    let p2 = normalize_seps(pwd + seq!['/'] + rel);
    assert(p2 =~= r + seq!['/'] + nrel);
    assert(strip_leading_slashes(nrel) == nrel);
    if r.len() == 0 {
        assert(p2.len() > 0 && p2[0] == '/');
        assert(p2.skip(1) =~= nrel);
        assert(canonical_path_spec(pwd, pwd + seq!['/'] + rel) == seq!['/'] + nrel);
        assert(canonical_path_spec(pwd, rel) == seq!['/'] + nrel);
    } else {
        assert(p2.len() == r.len() + 1 + nrel.len());
        assert(p2.subrange(0, r.len() as int) =~= r);
        assert(p2[r.len() as int] == '/');
        assert(p2.skip(r.len() as int) =~= seq!['/'] + nrel);
        assert(canonical_path_spec(pwd, pwd + seq!['/'] + rel) == seq!['/'] + nrel);
        assert(nrel != r && !(nrel.len() > r.len() && nrel.subrange(0, r.len() as int) == r
            && nrel[r.len() as int] == '/'));
        assert(canonical_path_spec(pwd, rel) == seq!['/'] + nrel);
    }
}

/// A fresh `String` holding a single separator.
fn slash_string() -> (r: String)
    ensures
        r@ == seq!['/'],
{
    let r = String::from_str("/");
    proof {
        reveal_strlit("/");
        assert(r@ =~= seq!['/']);
    }
    r
}

/// The characters of `s` from position `from` on, as a fresh `String`.
fn rest_of(s: &str, from: usize) -> (r: String)
    requires
        from <= s@.len(),
    ensures
        r@ == s@.skip(from as int),
{
    let n = s.unicode_len();
    let r = String::from_str(s.substring_char(from, n));
    proof {
        assert(s@.subrange(from as int, s@.len() as int) =~= s@.skip(from as int));
    }
    r
}

/// `s` with trailing separators removed.
fn strip_trailing(s: &str) -> (r: String)
    ensures
        r@ == strip_trailing_slashes(s@),
{
    let n = s.unicode_len();
    let mut i: usize = n;
    proof {
        assert(s@.take(n as int) =~= s@);
    }
    while i > 0 && s.get_char(i - 1) == '/'
        invariant
            i <= n,
            n == s@.len(),
            strip_trailing_slashes(s@) == strip_trailing_slashes(s@.take(i as int)),
        decreases i,
    {
        proof {
            assert(s@.take(i as int).last() == s@[i - 1]);
            assert(s@.take(i as int).drop_last() =~= s@.take(i - 1));
        }
        i = i - 1;
    }
    let r = String::from_str(s.substring_char(0, i));
    proof {
        assert(s@.subrange(0, i as int) =~= s@.take(i as int));
    }
    r
}

} // verus!
