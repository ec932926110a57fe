//! Character-level text utilities: removing every occurrence of a pattern
//! (the semantics of `str::replace` with an empty replacement) and trimming
//! leading and trailing whitespace.

use vstd::prelude::*;

verus! {

/// Whether a character counts as whitespace, as `char::is_whitespace` decides.
pub uninterp spec fn is_ws(c: char) -> bool;

/// Relies on `char::is_whitespace`: a property of the character alone.
#[verifier::external_body]
pub(crate) fn char_is_ws(c: char) -> (r: bool)
    ensures
        r == is_ws(c),
{
    c.is_whitespace()
}

/// Relies on `String::push`: appends the one character at the end.
#[verifier::external_body]
pub(crate) fn push_char(s: &mut String, c: char)
    ensures
        final(s)@ == old(s)@.push(c),
{
    s.push(c);
}

/// What is left of `s` after deleting every occurrence of `pat`, scanning
/// left to right without overlap: the semantics of `s.replace(pat, "")`.
pub open spec fn spec_remove_all(s: Seq<char>, pat: Seq<char>) -> Seq<char>
    decreases s.len(),
{
    if pat.len() == 0 || s.len() < pat.len() {
        s
    } else if s.subrange(0, pat.len() as int) == pat {
        spec_remove_all(s.skip(pat.len() as int), pat)
    } else {
        seq![s[0]] + spec_remove_all(s.skip(1), pat)
    }
}

/// Removing every occurrence of a single-character pattern leaves no
/// occurrence of that character behind.
pub proof fn lemma_remove_all_char_absent(s: Seq<char>, c: char)
    ensures
        forall|i: int|
            0 <= i < spec_remove_all(s, seq![c]).len() ==> spec_remove_all(s, seq![c])[i] != c,
    decreases s.len(),
{
    let pat = seq![c];
    assert(pat.len() == 1);
    if s.len() == 0 {
        assert(spec_remove_all(s, pat) == s);
    } else if s.subrange(0, pat.len() as int) == pat {
        lemma_remove_all_char_absent(s.skip(1), c);
        assert(s.skip(1) =~= s.skip(pat.len() as int));
        assert(spec_remove_all(s, pat) == spec_remove_all(s.skip(1), pat));
    } else {
        lemma_remove_all_char_absent(s.skip(1), c);
        if s[0] == c {
            assert(s.subrange(0, pat.len() as int) =~= pat);
            assert(false);
        }
        let rest = spec_remove_all(s.skip(1), pat);
        assert(spec_remove_all(s, pat) == seq![s[0]] + rest);
        assert forall|i: int| 0 <= i < spec_remove_all(s, pat).len() implies spec_remove_all(
            s,
            pat,
        )[i] != c by {
            if i == 0 {
                assert((seq![s[0]] + rest)[0] == s[0]);
            } else {
                assert((seq![s[0]] + rest)[i] == rest[i - 1]);
            }
        }
    }
}

/// Deletes every occurrence of `pat` from `s`, scanning left to right
/// without overlap, as `s.replace(pat, "")` would.
pub fn remove_all(s: &str, pat: &str) -> (r: String)
    requires
        pat@.len() > 0,
    ensures
        r@ == spec_remove_all(s@, pat@),
{
    let n: usize = s.unicode_len();
    let m: usize = pat.unicode_len();
    let mut out = String::new();
    let mut i: usize = 0;
    proof {
        assert(s@.skip(0) =~= s@);
        assert(out@ + spec_remove_all(s@, pat@) =~= spec_remove_all(s@, pat@));
    }
    while i < n
        invariant
            0 <= i <= n,
            n == s@.len(),
            m == pat@.len(),
            m > 0,
            out@ + spec_remove_all(s@.skip(i as int), pat@) == spec_remove_all(s@, pat@),
        decreases n - i,
    {
        let mut matched = false;
        let ghost mut mism: int = 0;
        if m <= n - i {
            matched = true;
            let mut j: usize = 0;
            while j < m
                invariant
                    0 <= j <= m,
                    m <= n - i,
                    0 <= i < n,
                    n == s@.len(),
                    m == pat@.len(),
                    matched ==> forall|k: int| 0 <= k < j ==> s@[i + k] == pat@[k],
                    !matched ==> 0 <= mism < m && s@[i + mism] != pat@[mism],
                decreases m - j,
            {
                if s.get_char(i + j) != pat.get_char(j) {
                    proof {
                        mism = j as int;
                    }
                    matched = false;
                    j = m;
                } else {
                    j = j + 1;
                }
            }
        }
        if matched {
            proof {
                let tail = s@.skip(i as int);
                assert(tail.subrange(0, m as int) =~= pat@);
                assert(tail.skip(m as int) =~= s@.skip(i + m));
            }
            i = i + m;
        } else {
            let ghost before = out@;
            let c = s.get_char(i);
            push_char(&mut out, c);
            proof {
                let tail = s@.skip(i as int);
                if m <= n - i {
                    // some position differs, so the head of the tail is kept
                    if tail.subrange(0, m as int) == pat@ {
                        assert(tail.subrange(0, m as int)[mism] == s@[i + mism]);
                        assert(false);
                    }
                }
                assert(tail[0] == s@[i as int]);
                assert(tail.skip(1) =~= s@.skip(i + 1));
                assert(seq![tail[0]] + spec_remove_all(s@.skip(i + 1), pat@) == spec_remove_all(
                    tail,
                    pat@,
                ));
                assert(out@ + spec_remove_all(s@.skip(i + 1), pat@) == spec_remove_all(s@, pat@))
                    by {
                    assert(out@ =~= before.push(tail[0]));
                    assert(before.push(tail[0]) + spec_remove_all(s@.skip(i + 1), pat@) =~= before
                        + (seq![tail[0]] + spec_remove_all(s@.skip(i + 1), pat@)));
                };
            }
            i = i + 1;
        }
    }
    proof {
        assert(s@.skip(n as int) =~= Seq::<char>::empty());
        assert(spec_remove_all(s@.skip(n as int), pat@) =~= Seq::<char>::empty());
        assert(out@ =~= out@ + Seq::<char>::empty());
    }
    out
}

/// `s` without its longest all-whitespace prefix.
pub open spec fn spec_trim_start(s: Seq<char>) -> Seq<char>
    decreases s.len(),
{
    if s.len() > 0 && is_ws(s[0]) {
        spec_trim_start(s.skip(1))
    } else {
        s
    }
}

/// `s` without its longest all-whitespace suffix.
pub open spec fn spec_trim_end(s: Seq<char>) -> Seq<char>
    decreases s.len(),
{
    if s.len() > 0 && is_ws(s[s.len() - 1]) {
        spec_trim_end(s.take(s.len() - 1))
    } else {
        s
    }
}

/// `s` without leading and trailing whitespace: the semantics of `str::trim`.
pub open spec fn spec_trim(s: Seq<char>) -> Seq<char> {
    spec_trim_end(spec_trim_start(s))
}

proof fn lemma_trim_start_all_ws(s: Seq<char>)
    requires
        forall|k: int| 0 <= k < s.len() ==> is_ws(s[k]),
    ensures
        spec_trim_start(s) =~= Seq::<char>::empty(),
    decreases s.len(),
{
    if s.len() > 0 {
        lemma_trim_start_all_ws(s.skip(1));
    }
}

proof fn lemma_trim_start_at(s: Seq<char>, a: int)
    requires
        0 <= a <= s.len(),
        forall|k: int| 0 <= k < a ==> is_ws(s[k]),
        a < s.len() ==> !is_ws(s[a]),
    ensures
        spec_trim_start(s) =~= s.skip(a),
    decreases a,
{
    if a == 0 {
        if s.len() > 0 {
            assert(!is_ws(s[0]));
        }
        assert(s.skip(0) =~= s);
    } else {
        assert(is_ws(s[0]));
        lemma_trim_start_at(s.skip(1), a - 1);
        assert(s.skip(1).skip(a - 1) =~= s.skip(a));
    }
}

proof fn lemma_trim_end_at(s: Seq<char>, b: int)
    requires
        0 <= b <= s.len(),
        forall|k: int| b <= k < s.len() ==> is_ws(s[k]),
        b > 0 ==> !is_ws(s[b - 1]),
    ensures
        spec_trim_end(s) =~= s.take(b),
    decreases s.len() - b,
{
    if b == s.len() {
        if s.len() > 0 {
            assert(!is_ws(s[s.len() - 1]));
        }
        assert(s.take(b) =~= s);
    } else {
        assert(is_ws(s[s.len() - 1]));
        lemma_trim_end_at(s.take(s.len() - 1), b);
    }
}

/// Trimming leaves no whitespace at either edge of a non-empty result.
pub proof fn lemma_trim_no_edge_ws(s: Seq<char>)
    ensures
        spec_trim(s).len() > 0 ==> !is_ws(spec_trim(s)[0]),
        spec_trim(s).len() > 0 ==> !is_ws(spec_trim(s)[spec_trim(s).len() - 1]),
{
    lemma_trim_start_head(s);
    let t = spec_trim_start(s);
    lemma_trim_end_props(t);
}

proof fn lemma_trim_start_head(s: Seq<char>)
    ensures
        spec_trim_start(s).len() > 0 ==> !is_ws(spec_trim_start(s)[0]),
    decreases s.len(),
{
    if s.len() > 0 && is_ws(s[0]) {
        lemma_trim_start_head(s.skip(1));
    }
}

proof fn lemma_trim_end_props(s: Seq<char>)
    ensures
        spec_trim_end(s).len() > 0 ==> !is_ws(spec_trim_end(s)[spec_trim_end(s).len() - 1]),
        spec_trim_end(s).len() > 0 ==> spec_trim_end(s)[0] == s[0],
    decreases s.len(),
{
    if s.len() > 0 && is_ws(s[s.len() - 1]) {
        lemma_trim_end_props(s.take(s.len() - 1));
    }
}

/// Removes leading and trailing whitespace, as `str::trim` does.
pub fn trim(s: &str) -> (r: String)
    ensures
        r@ == spec_trim(s@),
{
    let n: usize = s.unicode_len();
    let mut a: usize = 0;
    while a < n && char_is_ws(s.get_char(a))
        invariant
            0 <= a <= n,
            n == s@.len(),
            forall|k: int| 0 <= k < a ==> is_ws(s@[k]),
        decreases n - a,
    {
        a = a + 1;
    }
    if a == n {
        proof {
            lemma_trim_start_all_ws(s@);
            assert(spec_trim_end(Seq::<char>::empty()) =~= Seq::<char>::empty());
        }
        return String::new();
    }
    let mut b: usize = n;
    while b > a && char_is_ws(s.get_char(b - 1))
        invariant
            a <= b <= n,
            a < n,
            n == s@.len(),
            !is_ws(s@[a as int]),
            forall|k: int| b <= k < n ==> is_ws(s@[k]),
        decreases b,
    {
        b = b - 1;
    }
    proof {
        lemma_trim_start_at(s@, a as int);
        assert(forall|k: int|
            b - a <= k < s@.skip(a as int).len() ==> is_ws(s@.skip(a as int)[k]));
        assert(b - a > 0 ==> s@.skip(a as int)[b - a - 1] == s@[b - 1]);
        lemma_trim_end_at(s@.skip(a as int), b - a);
        assert(spec_trim(s@) =~= s@.subrange(a as int, b as int)) by {
            assert(s@.skip(a as int).take(b - a) =~= s@.subrange(a as int, b as int));
        }
    }
    let mut out = String::new();
    let mut i: usize = a;
    while i < b
        invariant
            a <= i <= b <= n,
            n == s@.len(),
            out@ =~= s@.subrange(a as int, i as int),
        decreases b - i,
    {
        let c = s.get_char(i);
        push_char(&mut out, c);
        proof {
            assert(out@ =~= s@.subrange(a as int, i + 1));
        }
        i = i + 1;
    }
    proof {
        assert(out@ == spec_trim(s@));
    }
    out
}

} // verus!
