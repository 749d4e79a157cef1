//! Shared helpers for content addressing: topic slugs, the newest-first
//! ordering of content files, glob enumeration, input trimming, and the
//! path-traversal check applied to caller-supplied path segments.

use vstd::multiset::Multiset;
use vstd::prelude::*;

use crate::errors::RenderError;
use crate::text::{
    contains_seq, contains_str, ends_with_seq, ends_with_str, lex_le, push_char, starts_with_seq,
    starts_with_str, str_eq_str,
};

verus! {

/// The views of a sequence of strings.
pub open spec fn seq_views(s: Seq<String>) -> Seq<Seq<char>> {
    Seq::new(s.len(), |i: int| s[i]@)
}

/// Whether `s` is free of glob metacharacters, so that the glob library
/// reads it as a literal path prefix.
pub open spec fn glob_meta_free(s: Seq<char>) -> bool {
    forall|i: int|
        0 <= i < s.len() ==> s[i] != '*' && s[i] != '?' && s[i] != '[' && s[i] != ']'
}

/// Decides whether `s` is free of glob metacharacters. The engine checks
/// each configured path prefix before handing it to the glob library, so
/// that the library reads it literally.
pub fn glob_meta_free_str(s: &str) -> (r: bool)
    ensures
        r == glob_meta_free(s@),
{
    let n = s.unicode_len();
    let mut i: usize = 0;
    while i < n
        invariant
            n == s@.len(),
            i <= n,
            forall|j: int|
                0 <= j < i ==> s@[j] != '*' && s@[j] != '?' && s@[j] != '[' && s@[j] != ']',
        decreases n - i,
    {
        let c = s.get_char(i);
        if c == '*' || c == '?' || c == '[' || c == ']' {
            return false;
        }
        i = i + 1;
    }
    true
}

/// Whether `dir` is in the normal form under which the glob library reads
/// it back verbatim: non-empty, no trailing separator, no empty component,
/// and no `.` or `..` component. A path outside this form is rewritten by
/// the library's component normalization, so nothing textual could be said
/// of its matches.
pub open spec fn glob_normal(dir: Seq<char>) -> bool {
    dir.len() > 0 && dir[dir.len() - 1] != '/' && !contains_seq(dir, seq!['/', '/'])
        && !has_traversal(dir)
}

/// Decides whether `dir` is in glob normal form.
pub fn glob_normal_str(dir: &str) -> (r: bool)
    ensures
        r == glob_normal(dir@),
{
    let n = dir.unicode_len();
    if n == 0 {
        return false;
    }
    if dir.get_char(n - 1) == '/' {
        return false;
    }
    proof {
        reveal_strlit("//");
        assert("//"@ =~= seq!['/', '/']);
    }
    !contains_str(dir, "//") && !has_traversal_str(dir)
}

/// Whether `stem` stays within one path component.
pub open spec fn stem_ok(stem: Seq<char>) -> bool {
    forall|j: int| 0 <= j < stem.len() ==> stem[j] != '/'
}

/// Decides whether `s` stays within one path component.
pub fn stem_ok_str(s: &str) -> (r: bool)
    ensures
        r == stem_ok(s@),
{
    let n = s.unicode_len();
    let mut i: usize = 0;
    while i < n
        invariant
            n == s@.len(),
            i <= n,
            forall|j: int| 0 <= j < i ==> s@[j] != '/',
        decreases n - i,
    {
        if s.get_char(i) == '/' {
            return false;
        }
        i = i + 1;
    }
    true
}

/// Whether a directory and suffix are clean enough for the glob library's
/// matches of `<dir>/*<suffix>` to be read textually: both free of
/// metacharacters, the directory in normal form, and the suffix within one
/// path component (a suffix holding a separator would make the library
/// match directories and rewrite the yielded paths).
pub open spec fn glob_clean(dir: Seq<char>, suffix: Seq<char>) -> bool {
    glob_meta_free(dir) && glob_meta_free(suffix) && glob_normal(dir) && stem_ok(suffix)
}

/// Whether `p` has the shape `<dir>/<stem><suffix>` with a single-component stem:
/// the shape of every match of the pattern `<dir>/*<suffix>`.
pub open spec fn glob_entry(p: Seq<char>, dir: Seq<char>, suffix: Seq<char>) -> bool {
    exists|stem: Seq<char>| stem_ok(stem) && p == dir + seq!['/'] + stem + suffix
}

/// Relies on glob::glob, called on the pattern `<dir>/*<suffix>`: the pattern
/// is rejected only when it cannot be parsed, which cannot happen when `dir`
/// and `suffix` hold no metacharacters. When the pair is clean — `dir` also
/// in normal form and `suffix` within one path component — the library reads
/// the pattern back verbatim, so every yielded path matches it textually,
/// with `*` spanning a single path component; a directory is walked once, so
/// no path is yielded twice. Entries whose names are not valid Unicode are
/// skipped by the library.
#[verifier::external_body]
fn glob_matches(dir: &str, suffix: &str) -> (r: Option<Vec<String>>)
    ensures
        glob_meta_free(dir@) && glob_meta_free(suffix@) ==> r is Some,
        glob_clean(dir@, suffix@) ==> (r matches Some(v) ==> forall|i: int|
            0 <= i < v@.len() ==> glob_entry(v@[i]@, dir@, suffix@)),
        r matches Some(v) ==> seq_views(v@).no_duplicates(),
{
    let pat = format!("{}/*{}", dir, suffix);
    match glob::glob(&pat) {
        Ok(entries) => Some(
            entries.filter_map(|e| e.ok()).map(|p| p.to_string_lossy().into_owned()).collect(),
        ),
        Err(_) => None,
    }
}

/// Enumerates the matches of `<dir>/*<suffix>`, newest first: the call
/// succeeds exactly when the pair is clean, and then the result is in
/// reverse lexical order with no entry repeated, and each entry names one
/// direct child of `dir` ending in `suffix`. An unclean pair — one the
/// glob library would not read verbatim — names the directory as
/// unavailable content before any call is made.
pub fn path_matches(dir: &str, suffix: &str) -> (r: Result<Vec<String>, RenderError>)
    ensures
        r is Ok <==> glob_clean(dir@, suffix@),
        r matches Ok(v) ==> sorted_desc(seq_views(v@)),
        r matches Ok(v) ==> seq_views(v@).no_duplicates(),
        r matches Ok(v) ==> forall|i: int|
            0 <= i < v@.len() ==> glob_entry(v@[i]@, dir@, suffix@),
        r matches Err(e) ==> (e matches RenderError::ContentUnavailable(p) && p@ == dir@),
{
    if !glob_meta_free_str(dir) || !glob_meta_free_str(suffix) || !glob_normal_str(dir)
        || !stem_ok_str(suffix) {
        return Err(RenderError::ContentUnavailable(dir.to_owned()));
    }
    match glob_matches(dir, suffix) {
        Some(found) => {
            let ghost fv = seq_views(found@);
            let sorted = sort_paths_desc(found);
            proof {
                let sv = seq_views(sorted@);
                if glob_clean(dir@, suffix@) {
                    assert forall|i: int| 0 <= i < sorted@.len() implies glob_entry(
                        sorted@[i]@,
                        dir@,
                        suffix@,
                    ) by {
                        broadcast use vstd::seq_lib::group_to_multiset_ensures;

                        assert(sv[i] == sorted@[i]@);
                        assert(sv.contains(sv[i]));
                        assert(sv.to_multiset().count(sv[i]) > 0);
                        assert(fv.contains(sv[i]));
                        let j = choose|j: int| 0 <= j < fv.len() && fv[j] == sv[i];
                        assert(glob_entry(found@[j]@, dir@, suffix@));
                    }
                }
                assert(sv.no_duplicates()) by {
                    broadcast use vstd::seq_lib::group_to_multiset_ensures;

                    fv.lemma_multiset_has_no_duplicates();
                    assert(forall|x: Seq<char>|
                        sv.to_multiset().contains(x) ==> sv.to_multiset().count(x) == 1);
                    sv.lemma_multiset_has_no_duplicates_conv();
                }
            }
            Ok(sorted)
        },
        None => {
            proof {
                assert(false);
            }
            Err(RenderError::ContentUnavailable(dir.to_owned()))
        },
    }
}

/// Strips `prefix` from the front of every path in `paths`, keeping the
/// order: the call succeeds exactly when every path begins with the prefix,
/// and then hands back, entry for entry, what follows it; the first path
/// outside the prefix is named as unavailable content.
pub fn strip_prefix_all(prefix: &str, paths: &Vec<String>) -> (r: Result<Vec<String>, RenderError>)
    ensures
        r is Ok <==> (forall|i: int|
            0 <= i < paths@.len() ==> starts_with_seq(#[trigger] paths@[i]@, prefix@)),
        r matches Ok(v) ==> v@.len() == paths@.len(),
        r matches Ok(v) ==> forall|i: int|
            0 <= i < paths@.len() ==> #[trigger] paths@[i]@ == prefix@ + v@[i]@,
        r matches Err(e) ==> e is ContentUnavailable,
{
    let pn = prefix.unicode_len();
    let mut out: Vec<String> = Vec::new();
    let mut i: usize = 0;
    while i < paths.len()
        invariant
            pn == prefix@.len(),
            i <= paths@.len(),
            out@.len() == i,
            forall|k: int| 0 <= k < i ==> starts_with_seq(#[trigger] paths@[k]@, prefix@),
            forall|k: int| 0 <= k < i ==> #[trigger] paths@[k]@ == prefix@ + out@[k]@,
        decreases paths@.len() - i,
    {
        let p_len = paths[i].as_str().unicode_len();
        if !starts_with_str(paths[i].as_str(), prefix) {
            return Err(RenderError::ContentUnavailable(paths[i].clone()));
        }
        let rest = crate::text::substring_copy(paths[i].as_str(), pn, p_len);
        proof {
            assert(paths@[i as int]@ =~= prefix@ + rest@);
        }
        out.push(rest);
        i = i + 1;
    }
    Ok(out)
}

/// Whether some `/`-separated component of `s` is `.` or `..`.
///
/// A component is a maximal run between separators, so this holds exactly
/// when `s` is `.` or `..` itself, begins with `./` or `../`, ends with
/// `/.` or `/..`, or contains `/./` or `/../` anywhere.
pub open spec fn has_traversal(s: Seq<char>) -> bool {
    s == seq!['.'] || s == seq!['.', '.'] || starts_with_seq(s, seq!['.', '/'])
        || starts_with_seq(s, seq!['.', '.', '/']) || ends_with_seq(s, seq!['/', '.'])
        || ends_with_seq(s, seq!['/', '.', '.']) || contains_seq(s, seq!['/', '.', '/'])
        || contains_seq(s, seq!['/', '.', '.', '/'])
}

/// Decides whether a caller-supplied path segment attempts traversal:
/// whether any of its `/`-separated components is `.` or `..`.
pub fn has_traversal_str(s: &str) -> (r: bool)
    ensures
        r == has_traversal(s@),
{
    proof {
        reveal_strlit(".");
        reveal_strlit("..");
        reveal_strlit("./");
        reveal_strlit("../");
        reveal_strlit("/.");
        reveal_strlit("/..");
        reveal_strlit("/./");
        reveal_strlit("/../");
        assert("."@ =~= seq!['.']);
        assert(".."@ =~= seq!['.', '.']);
        assert("./"@ =~= seq!['.', '/']);
        assert("../"@ =~= seq!['.', '.', '/']);
        assert("/."@ =~= seq!['/', '.']);
        assert("/.."@ =~= seq!['/', '.', '.']);
        assert("/./"@ =~= seq!['/', '.', '/']);
        assert("/../"@ =~= seq!['/', '.', '.', '/']);
    }
    str_eq_str(s, ".") || str_eq_str(s, "..") || starts_with_str(s, "./")
        || starts_with_str(s, "../") || ends_with_str(s, "/.") || ends_with_str(s, "/..")
        || contains_str(s, "/./") || contains_str(s, "/../")
}

/// The Unicode white-space characters, as used when a topic name is slugified.
pub open spec fn is_space_char(c: char) -> bool {
    c == '\u{09}' || c == '\u{0a}' || c == '\u{0b}' || c == '\u{0c}' || c == '\u{0d}'
        || c == ' ' || c == '\u{85}' || c == '\u{a0}' || c == '\u{1680}' || c == '\u{2000}'
        || c == '\u{2001}' || c == '\u{2002}' || c == '\u{2003}' || c == '\u{2004}'
        || c == '\u{2005}' || c == '\u{2006}' || c == '\u{2007}' || c == '\u{2008}'
        || c == '\u{2009}' || c == '\u{200a}' || c == '\u{2028}' || c == '\u{2029}'
        || c == '\u{202f}' || c == '\u{205f}' || c == '\u{3000}'
}

/// ASCII lower-casing of a single character; other characters are unchanged.
pub open spec fn lower_char(c: char) -> char {
    match c {
        'A' => 'a',
        'B' => 'b',
        'C' => 'c',
        'D' => 'd',
        'E' => 'e',
        'F' => 'f',
        'G' => 'g',
        'H' => 'h',
        'I' => 'i',
        'J' => 'j',
        'K' => 'k',
        'L' => 'l',
        'M' => 'm',
        'N' => 'n',
        'O' => 'o',
        'P' => 'p',
        'Q' => 'q',
        'R' => 'r',
        'S' => 's',
        'T' => 't',
        'U' => 'u',
        'V' => 'v',
        'W' => 'w',
        'X' => 'x',
        'Y' => 'y',
        'Z' => 'z',
        _ => c,
    }
}

/// How one character of a topic name appears in the topic's slug.
pub open spec fn slug_char(c: char) -> char {
    if is_space_char(c) {
        '-'
    } else {
        lower_char(c)
    }
}

/// The slug of a topic name: lower-cased, with white space replaced by hyphens.
pub open spec fn slug_of(s: Seq<char>) -> Seq<char> {
    Seq::new(s.len(), |i: int| slug_char(s[i]))
}

fn lower_char_exec(c: char) -> (r: char)
    ensures
        r == lower_char(c),
{
    match c {
        'A' => 'a',
        'B' => 'b',
        'C' => 'c',
        'D' => 'd',
        'E' => 'e',
        'F' => 'f',
        'G' => 'g',
        'H' => 'h',
        'I' => 'i',
        'J' => 'j',
        'K' => 'k',
        'L' => 'l',
        'M' => 'm',
        'N' => 'n',
        'O' => 'o',
        'P' => 'p',
        'Q' => 'q',
        'R' => 'r',
        'S' => 's',
        'T' => 't',
        'U' => 'u',
        'V' => 'v',
        'W' => 'w',
        'X' => 'x',
        'Y' => 'y',
        'Z' => 'z',
        _ => c,
    }
}

fn is_space_char_exec(c: char) -> (r: bool)
    ensures
        r == is_space_char(c),
{
    c == '\u{09}' || c == '\u{0a}' || c == '\u{0b}' || c == '\u{0c}' || c == '\u{0d}'
        || c == ' ' || c == '\u{85}' || c == '\u{a0}' || c == '\u{1680}' || c == '\u{2000}'
        || c == '\u{2001}' || c == '\u{2002}' || c == '\u{2003}' || c == '\u{2004}'
        || c == '\u{2005}' || c == '\u{2006}' || c == '\u{2007}' || c == '\u{2008}'
        || c == '\u{2009}' || c == '\u{200a}' || c == '\u{2028}' || c == '\u{2029}'
        || c == '\u{202f}' || c == '\u{205f}' || c == '\u{3000}'
}

/// Whether `s` is in reverse (newest-first) lexical order: every later
/// entry compares less than or equal to every earlier one.
pub open spec fn sorted_desc(s: Seq<Seq<char>>) -> bool {
    forall|i: int, j: int| 0 <= i < j < s.len() ==> lex_le(s[j], s[i])
}

/// Inserts `x` into a vector already in reverse lexical order, keeping it so.
fn insert_sorted_desc(v: &mut Vec<String>, x: String)
    requires
        sorted_desc(seq_views(old(v)@)),
    ensures
        sorted_desc(seq_views(final(v)@)),
        seq_views(final(v)@).to_multiset() == seq_views(old(v)@).to_multiset().insert(x@),
        final(v)@.len() == old(v)@.len() + 1,
{
    let ghost dv = seq_views(v@);
    let mut p: usize = 0;
    loop
        invariant
            seq_views(v@) == dv,
            sorted_desc(dv),
            p <= dv.len(),
            v@.len() == dv.len(),
            forall|k: int| 0 <= k < p ==> lex_le(x@, dv[k]),
        ensures
            p <= dv.len(),
            forall|k: int| 0 <= k < p ==> lex_le(x@, dv[k]),
            p == dv.len() || lex_le(dv[p as int], x@),
        decreases dv.len() - p,
    {
        if p == v.len() {
            break ;
        }
        if !crate::text::str_le(x.as_str(), v[p].as_str()) {
            proof {
                crate::text::lemma_lex_le_total(x@, dv[p as int]);
            }
            break ;
        }
        p = p + 1;
    }
    proof {
        assert(forall|k: int| p <= k < dv.len() ==> lex_le(dv[k], x@)) by {
            assert forall|k: int| p <= k < dv.len() implies lex_le(dv[k], x@) by {
                if k > p {
                    crate::text::lemma_lex_le_trans(dv[k], dv[p as int], x@);
                }
            }
        }
    }
    v.insert(p, x);
    proof {
        let dv2 = seq_views(v@);
        assert(dv2 =~= dv.take(p as int) + seq![x@] + dv.skip(p as int));
        assert(sorted_desc(dv2)) by {
            assert forall|i: int, j: int| 0 <= i < j < dv2.len() implies lex_le(dv2[j], dv2[i]) by {
                if j < p {
                } else if i > p {
                } else if i == p && j > p {
                    assert(dv2[i] == x@ && dv2[j] == dv[j - 1]);
                } else if j == p {
                    assert(dv2[j] == x@ && dv2[i] == dv[i]);
                } else {
                    // i < p < j: both related through x
                    assert(lex_le(dv2[j], x@) && lex_le(x@, dv2[i]));
                    crate::text::lemma_lex_le_trans(dv2[j], x@, dv2[i]);
                }
            }
        }
        assert(dv2.to_multiset() =~= dv.to_multiset().insert(x@)) by {
            vstd::seq_lib::lemma_multiset_commutative(dv.take(p as int) + seq![x@], dv.skip(p as int));
            vstd::seq_lib::lemma_multiset_commutative(dv.take(p as int), seq![x@]);
            vstd::seq_lib::lemma_multiset_commutative(dv.take(p as int), dv.skip(p as int));
            assert(dv.take(p as int) + dv.skip(p as int) =~= dv);
            assert(seq![x@].to_multiset() =~= Multiset::<Seq<char>>::empty().insert(x@)) by {
                broadcast use vstd::seq_lib::group_to_multiset_ensures;
                broadcast use vstd::multiset::group_multiset_axioms;

                let e = Seq::<Seq<char>>::empty();
                assert(e.push(x@) =~= seq![x@]);
                assert(e.to_multiset() =~= Multiset::<Seq<char>>::empty()) by {
                    assert(forall|a: Seq<char>| !e.contains(a));
                }
            }
            broadcast use vstd::multiset::group_multiset_axioms;

        }
    }
}

/// Puts a list of path strings into reverse (newest-first) lexical order:
/// the site's ordering convention, under which authors name post files so
/// that plain lexical order is oldest-first.
pub fn sort_paths_desc(v: Vec<String>) -> (r: Vec<String>)
    ensures
        sorted_desc(seq_views(r@)),
        seq_views(r@).to_multiset() == seq_views(v@).to_multiset(),
        r@.len() == v@.len(),
{
    let mut out: Vec<String> = Vec::new();
    proof {
        assert(seq_views(out@) =~= seq_views(v@.take(0)));
        assert(seq_views(out@).to_multiset() =~= seq_views(v@.take(0)).to_multiset());
    }
    let mut i: usize = 0;
    while i < v.len()
        invariant
            i <= v@.len(),
            sorted_desc(seq_views(out@)),
            seq_views(out@).to_multiset() == seq_views(v@.take(i as int)).to_multiset(),
            out@.len() == i,
        decreases v@.len() - i,
    {
        let x = v[i].clone();
        proof {
            assert(seq_views(v@.take(i + 1)) =~= seq_views(v@.take(i as int)).push(v@[i as int]@));
            broadcast use vstd::seq_lib::to_multiset_build;

        }
        insert_sorted_desc(&mut out, x);
        i = i + 1;
    }
    proof {
        assert(v@.take(v@.len() as int) =~= v@);
        assert(seq_views(v@.take(v@.len() as int)) =~= seq_views(v@));
    }
    out
}

/// `s` with leading white space removed.
pub open spec fn trim_start_of(s: Seq<char>) -> Seq<char>
    decreases s.len(),
{
    if s.len() > 0 && is_space_char(s[0]) {
        trim_start_of(s.skip(1))
    } else {
        s
    }
}

/// `s` with trailing white space removed.
pub open spec fn trim_end_of(s: Seq<char>) -> Seq<char>
    decreases s.len(),
{
    if s.len() > 0 && is_space_char(s[s.len() - 1]) {
        trim_end_of(s.take(s.len() - 1))
    } else {
        s
    }
}

/// `s` with white space removed from both ends.
pub open spec fn trim_of(s: Seq<char>) -> Seq<char> {
    trim_end_of(trim_start_of(s))
}

proof fn lemma_trim_start_skip(s: Seq<char>, a: int)
    requires
        0 <= a <= s.len(),
        forall|j: int| 0 <= j < a ==> is_space_char(s[j]),
    ensures
        trim_start_of(s) == trim_start_of(s.skip(a)),
    decreases a,
{
    if a > 0 {
        assert(is_space_char(s[0]));
        lemma_trim_start_skip(s.skip(1), a - 1);
        assert(s.skip(1).skip(a - 1) =~= s.skip(a));
    } else {
        assert(s.skip(0) =~= s);
    }
}

proof fn lemma_trim_end_take(s: Seq<char>, b: int)
    requires
        0 <= b <= s.len(),
        forall|j: int| b <= j < s.len() ==> is_space_char(s[j]),
    ensures
        trim_end_of(s) == trim_end_of(s.take(b)),
    decreases s.len() - b,
{
    if b < s.len() {
        assert(is_space_char(s[s.len() - 1]));
        lemma_trim_end_take(s.take(s.len() - 1), b);
        assert(s.take(s.len() - 1).take(b) =~= s.take(b));
    } else {
        assert(s.take(s.len() as int) =~= s);
    }
}

/// Copies `s` with white space removed from both ends, as configuration
/// input lines are cleaned before use.
pub fn trim_str(s: &str) -> (r: String)
    ensures
        r@ == trim_of(s@),
{
    let n = s.unicode_len();
    let mut a: usize = 0;
    loop
        invariant
            n == s@.len(),
            a <= n,
            forall|j: int| 0 <= j < a ==> is_space_char(s@[j]),
        ensures
            a <= n,
            n == s@.len(),
            forall|j: int| 0 <= j < a ==> is_space_char(s@[j]),
            a == n || !is_space_char(s@[a as int]),
        decreases n - a,
    {
        if a == n {
            break ;
        }
        if !is_space_char_exec(s.get_char(a)) {
            break ;
        }
        a = a + 1;
    }
    let mut b: usize = n;
    loop
        invariant
            n == s@.len(),
            a <= b <= n,
            a == n || !is_space_char(s@[a as int]),
            forall|j: int| b <= j < n ==> is_space_char(s@[j]),
        ensures
            a <= b <= n,
            forall|j: int| b <= j < n ==> is_space_char(s@[j]),
            b == a || !is_space_char(s@[b - 1]),
        decreases b,
    {
        if b == a {
            break ;
        }
        if !is_space_char_exec(s.get_char(b - 1)) {
            break ;
        }
        b = b - 1;
    }
    let r = crate::text::substring_copy(s, a, b);
    proof {
        lemma_trim_start_skip(s@, a as int);
        let t = s@.skip(a as int);
        assert(trim_start_of(t) == t);
        assert(forall|j: int| b - a <= j < t.len() ==> is_space_char(t[j]));
        lemma_trim_end_take(t, b - a);
        assert(trim_end_of(t.take(b - a)) == t.take(b - a));
        assert(t.take(b - a) =~= s@.subrange(a as int, b as int));
    }
    r
}

/// Copies `content` with a final newline guaranteed: unchanged when one is
/// already there, else with one appended. This is the form in which
/// configuration text is written to protected files; the writing itself is
/// the serving boundary's work.
pub fn with_trailing_newline(content: &str) -> (r: String)
    ensures
        ends_with_seq(content@, "\n"@) ==> r@ == content@,
        !ends_with_seq(content@, "\n"@) ==> r@ == content@ + "\n"@,
{
    if ends_with_str(content, "\n") {
        content.to_owned()
    } else {
        content.to_owned().concat("\n")
    }
}

/// Turns a topic name into its slug: the lower-cased, hyphenated,
/// filesystem- and URL-safe form under which the topic is addressed.
pub fn slugify(topic: &str) -> (r: String)
    ensures
        r@ == slug_of(topic@),
{
    let n = topic.unicode_len();
    let mut out = String::new();
    let mut i: usize = 0;
    while i < n
        invariant
            n == topic@.len(),
            i <= n,
            out@ == slug_of(topic@).subrange(0, i as int),
        decreases n - i,
    {
        let c = topic.get_char(i);
        let d = if is_space_char_exec(c) {
            '-'
        } else {
            lower_char_exec(c)
        };
        push_char(&mut out, d);
        proof {
            assert(out@ =~= slug_of(topic@).subrange(0, i + 1 as int));
        }
        i = i + 1;
    }
    proof {
        assert(out@ =~= slug_of(topic@));
    }
    out
}

} // verus!
