//! Verified text helpers: equality of string slices, substitution of every
//! occurrence of a pattern, and joining a directory path with a file name.

use vstd::prelude::*;
use vstd::string::StrSliceExecFns;
use vstd::string::StringExecFns;

verus! {

/// `s` with every occurrence of `pat` replaced by `sub`, scanning left to
/// right and never rescanning substituted text.
pub open spec fn spec_replace(s: Seq<char>, pat: Seq<char>, sub: Seq<char>) -> Seq<char>
    decreases s.len(),
{
    if pat.len() == 0 || s.len() < pat.len() {
        s
    } else if s.take(pat.len() as int) == pat {
        sub + spec_replace(s.skip(pat.len() as int), pat, sub)
    } else {
        seq![s[0]] + spec_replace(s.skip(1), pat, sub)
    }
}

/// Whether `a` and `b` hold the same characters.
pub fn str_eq(a: &str, b: &str) -> (r: bool)
    ensures
        r == (a@ == b@),
{
    let owned_a = a.to_owned();
    let owned_b = b.to_owned();
    owned_a == owned_b
}

/// Whether the characters of `s` starting at `i` begin with `pat`.
fn matches_at(s: &str, i: usize, pat: &str) -> (r: bool)
    requires
        i <= s@.len(),
    ensures
        r == (i + pat@.len() <= s@.len() && s@.subrange(
            i as int,
            i + pat@.len(),
        ) == pat@),
{
    let n = s.unicode_len();
    let p = pat.unicode_len();
    if p > n - i {
        return false;
    }
    let mut j: usize = 0;
    while j < p
        invariant
            j <= p,
            i + p <= n,
            n == s@.len(),
            p == pat@.len(),
            forall|k: int| 0 <= k < j ==> s@[i + k] == pat@[k],
        decreases p - j,
    {
        if s.get_char(i + j) != pat.get_char(j) {
            proof {
                let sr = s@.subrange(i as int, i + pat@.len());
                assert(sr[j as int] == s@[i + j]);
            }
            return false;
        }
        j = j + 1;
    }
    proof {
        let sr = s@.subrange(i as int, i + pat@.len());
        assert(sr =~= pat@);
    }
    true
}

/// `s` with every occurrence of `pat` replaced by `sub`: occurrences are
/// found left to right, do not overlap, and substituted text is not scanned
/// again.
pub fn replace_all(s: &str, pat: &str, sub: &str) -> (r: String)
    requires
        pat@.len() >= 1,
    ensures
        r@ == spec_replace(s@, pat@, sub@),
{
    let mut out = String::new();
    let mut i: usize = 0;
    let n = s.unicode_len();
    let p = pat.unicode_len();
    proof {
        assert(s@.skip(0) =~= s@);
        assert(out@ + spec_replace(s@, pat@, sub@) =~= spec_replace(s@, pat@, sub@));
    }
    while i < n
        invariant
            i <= n,
            n == s@.len(),
            p == pat@.len(),
            1 <= p,
            spec_replace(s@, pat@, sub@) == out@ + spec_replace(s@.skip(i as int), pat@, sub@),
        decreases n - i,
    {
        let ghost rest = s@.skip(i as int);
        if matches_at(s, i, pat) {
            proof {
                assert(rest.take(p as int) =~= s@.subrange(i as int, i + p));
                assert(rest.skip(p as int) =~= s@.skip(i + p));
                assert(out@ + (sub@ + spec_replace(s@.skip(i + p), pat@, sub@)) =~= (out@ + sub@)
                    + spec_replace(s@.skip(i + p), pat@, sub@));
            }
            out.append(sub);
            i = i + p;
        } else {
            proof {
                if rest.len() >= p {
                    assert(rest.take(p as int) =~= s@.subrange(i as int, i + p));
                }
                assert(rest.skip(1) =~= s@.skip(i + 1));
                assert(rest[0] == s@[i as int]);
            }
            let part = s.substring_char(i, i + 1);
            proof {
                assert(out@ + (seq![s@[i as int]] + spec_replace(s@.skip(i + 1), pat@, sub@))
                    =~= (out@ + part@) + spec_replace(s@.skip(i + 1), pat@, sub@));
            }
            out.append(part);
            i = i + 1;
        }
    }
    proof {
        assert(s@.skip(n as int) =~= Seq::<char>::empty());
        assert(out@ + spec_replace(s@.skip(n as int), pat@, sub@) =~= out@);
    }
    out
}

/// A directory path joined with a file name component: an absolute component
/// replaces the base, an empty base disappears, and exactly one separator
/// stands between a non-empty base and the component.
pub open spec fn spec_join_path(base: Seq<char>, file: Seq<char>) -> Seq<char> {
    if base.len() == 0 {
        file
    } else if file.len() > 0 && file[0] == '/' {
        file
    } else if base[base.len() - 1] == '/' {
        base + file
    } else {
        base + seq!['/'] + file
    }
}

/// Joins a directory path and a file name component, as `spec_join_path`
/// says.
pub fn join_path(base: &str, file: &str) -> (r: String)
    ensures
        r@ == spec_join_path(base@, file@),
{
    let base_len = base.unicode_len();
    if base_len == 0 {
        return file.to_owned();
    }
    let file_len = file.unicode_len();
    if file_len > 0 && file.get_char(0) == '/' {
        return file.to_owned();
    }
    let mut out = base.to_owned();
    if base.get_char(base_len - 1) != '/' {
        proof {
            reveal_strlit("/");
        }
        out.append("/");
        assert(out@ =~= base@ + seq!['/']);
    }
    out.append(file);
    assert(out@ =~= spec_join_path(base@, file@));
    out
}

} // verus!
