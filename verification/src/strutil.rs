//! Small text helpers: character-exact comparison, appending, and the
//! substitution used to point interpreter diagnostics at the source file.

use vstd::prelude::*;

verus! {

/// Relies on `String::push`: appends exactly the one character.
#[verifier::external_body]
pub(crate) fn push_char(s: &mut String, c: char)
    ensures
        final(s)@ == old(s)@.push(c),
{
    s.push(c);
}

/// Character-by-character equality of two string slices.
pub fn str_eq(a: &str, b: &str) -> (r: bool)
    ensures
        r == (a@ == b@),
{
    let la = a.unicode_len();
    let lb = b.unicode_len();
    if la != lb {
        return false;
    }
    let mut i: usize = 0;
    while i < la
        invariant
            la == a@.len(),
            lb == b@.len(),
            la == lb,
            i <= la,
            forall|k: int| 0 <= k < i ==> a@[k] == b@[k],
        decreases la - i,
    {
        if a.get_char(i) != b.get_char(i) {
            return false;
        }
        i += 1;
    }
    proof {
        assert(a@ =~= b@);
    }
    true
}

/// True when `pat` occurs in `s` starting at position `i`.
pub fn matches_at(s: &str, i: usize, pat: &str) -> (r: bool)
    requires
        i + pat@.len() <= s@.len(),
    ensures
        r == (s@.subrange(i as int, i + pat@.len()) == pat@),
{
    let n = s.unicode_len();
    let pl = pat.unicode_len();
    let mut k: usize = 0;
    while k < pl
        invariant
            n == s@.len(),
            pl == pat@.len(),
            i + pl <= n,
            k <= pl,
            forall|j: int| 0 <= j < k ==> s@[i + j] == pat@[j],
        decreases pl - k,
    {
        if s.get_char(i + k) != pat.get_char(k) {
            proof {
                assert(s@.subrange(i as int, i + pat@.len())[k as int] != pat@[k as int]);
            }
            return false;
        }
        k += 1;
    }
    proof {
        assert(s@.subrange(i as int, i + pat@.len()) =~= pat@);
    }
    true
}

/// The text with every occurrence of `pat` replaced by `rep`, scanning
/// left to right and never rescanning replaced text.
pub open spec fn replace_text(s: Seq<char>, pat: Seq<char>, rep: Seq<char>) -> Seq<char>
    decreases s.len(),
{
    if pat.len() == 0 || s.len() < pat.len() {
        s
    } else if s.take(pat.len() as int) == pat {
        rep + replace_text(s.skip(pat.len() as int), pat, rep)
    } else {
        seq![s[0]] + replace_text(s.skip(1), pat, rep)
    }
}

/// Exec twin of [`replace_text`]; the diagnostics path uses it to swap
/// the interpreter's `<string>` marker for the script's real path.
pub fn replace_all(s: &str, pat: &str, rep: &str) -> (r: String)
    requires
        pat@.len() >= 1,
    ensures
        r@ == replace_text(s@, pat@, rep@),
{
    let n = s.unicode_len();
    let pl = pat.unicode_len();
    let mut out = String::new();
    let mut i: usize = 0;
    proof {
        assert(s@.skip(0) =~= s@);
        assert(Seq::<char>::empty() + replace_text(s@, pat@, rep@) =~= replace_text(
            s@,
            pat@,
            rep@,
        ));
    }
    while i < n
        invariant
            n == s@.len(),
            pl == pat@.len(),
            pl >= 1,
            i <= n,
            replace_text(s@, pat@, rep@) == out@ + replace_text(s@.skip(i as int), pat@, rep@),
        decreases n - i,
    {
        let ghost rest = s@.skip(i as int);
        if pl <= n - i && matches_at(s, i, pat) {
            proof {
                assert(rest.take(pl as int) =~= s@.subrange(i as int, i + pl));
                assert(rest.skip(pl as int) =~= s@.skip(i + pl));
            }
            let ghost out0 = out@;
            out.append(rep);
            i += pl;
            proof {
                assert(replace_text(rest, pat@, rep@) == rep@ + replace_text(
                    s@.skip(i as int),
                    pat@,
                    rep@,
                ));
                assert(out@ + replace_text(s@.skip(i as int), pat@, rep@) =~= out0
                    + replace_text(rest, pat@, rep@));
            }
        } else {
            proof {
                if pl <= n - i {
                    assert(rest.take(pl as int) =~= s@.subrange(i as int, i + pl));
                } else {
                    assert(rest.len() < pl);
                }
                assert(rest.skip(1) =~= s@.skip(i + 1));
            }
            let c = s.get_char(i);
            let ghost out0 = out@;
            push_char(&mut out, c);
            i += 1;
            proof {
                assert(rest =~= seq![rest[0]] + rest.skip(1));
                if rest.len() < pl {
                    assert(replace_text(rest, pat@, rep@) == rest);
                    assert(replace_text(s@.skip(i as int), pat@, rep@) == s@.skip(i as int));
                } else {
                    assert(replace_text(rest, pat@, rep@) == seq![rest[0]] + replace_text(
                        s@.skip(i as int),
                        pat@,
                        rep@,
                    ));
                }
                assert(out@ + replace_text(s@.skip(i as int), pat@, rep@) =~= out0 + replace_text(
                    rest,
                    pat@,
                    rep@,
                ));
            }
        }
    }
    proof {
        assert(s@.skip(n as int) =~= Seq::<char>::empty());
        assert(out@ + replace_text(s@.skip(n as int), pat@, rep@) =~= out@);
    }
    out
}

} // verus!
