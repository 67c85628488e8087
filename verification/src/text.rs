//! Character-level text primitives used by the protocol decoders: first
//! occurrence of a pattern, whitespace trimming, splitting into lines, and
//! removal of a character.  Each executable function is proved to compute
//! the matching specification function over the string's view.

use vstd::prelude::*;

verus! {

/// Index of the first occurrence of `pat` inside `s`, if there is one.
pub open spec fn find_sub(s: Seq<char>, pat: Seq<char>) -> Option<int>
    decreases s.len(),
{
    if pat.len() == 0 {
        Some(0int)
    } else if s.len() < pat.len() {
        None
    } else if s.take(pat.len() as int) == pat {
        Some(0int)
    } else {
        match find_sub(s.drop_first(), pat) {
            None => None,
            Some(i) => Some(i + 1),
        }
    }
}

/// Whether `pat` occurs anywhere inside `s`.
pub open spec fn contains_sub(s: Seq<char>, pat: Seq<char>) -> bool {
    find_sub(s, pat) is Some
}

/// A found index always lies inside `s` with room for the whole pattern,
/// and the pattern indeed stands there.
pub proof fn lemma_find_sub_bounds(s: Seq<char>, pat: Seq<char>)
    requires
        pat.len() > 0,
        find_sub(s, pat) is Some,
    ensures
        0 <= find_sub(s, pat)->Some_0,
        find_sub(s, pat)->Some_0 + pat.len() <= s.len(),
        s.subrange(find_sub(s, pat)->Some_0, find_sub(s, pat)->Some_0 + pat.len() as int) == pat,
    decreases s.len(),
{
    let i: int = find_sub(s, pat)->Some_0;
    if s.len() < pat.len() {
    } else if s.take(pat.len() as int) == pat {
        assert(s.subrange(0, pat.len() as int) =~= s.take(pat.len() as int));
    } else {
        lemma_find_sub_bounds(s.drop_first(), pat);
        let j: int = find_sub(s.drop_first(), pat)->Some_0;
        assert(s.subrange(j + 1, j + 1 + pat.len() as int) =~= s.drop_first().subrange(
            j,
            j + pat.len() as int,
        ));
    }
}

/// If the pattern stands at `i` and at no earlier index, the search finds `i`.
pub proof fn lemma_find_sub_at(s: Seq<char>, pat: Seq<char>, i: int)
    requires
        pat.len() > 0,
        0 <= i,
        i + pat.len() <= s.len(),
        s.subrange(i, i + pat.len() as int) == pat,
        forall|j: int| 0 <= j < i ==> #[trigger] s.subrange(j, j + pat.len() as int) != pat,
    ensures
        find_sub(s, pat) == Some(i),
    decreases s.len(),
{
    if i == 0 {
        assert(s.take(pat.len() as int) =~= s.subrange(0, 0 + pat.len() as int));
    } else {
        assert(s.take(pat.len() as int) =~= s.subrange(0, 0 + pat.len() as int));
        assert(s.take(pat.len() as int) != pat);
        let t = s.drop_first();
        assert(t.subrange(i - 1, i - 1 + pat.len() as int) =~= s.subrange(i, i + pat.len() as int));
        assert forall|j: int| 0 <= j < i - 1 implies #[trigger] t.subrange(j, j + pat.len() as int) != pat by {
            assert(t.subrange(j, j + pat.len() as int) =~= s.subrange(
                j + 1,
                j + 1 + pat.len() as int,
            ));
        }
        lemma_find_sub_at(t, pat, i - 1);
    }
}

/// If the pattern stands nowhere in `s`, the search finds nothing.
pub proof fn lemma_find_sub_none(s: Seq<char>, pat: Seq<char>)
    requires
        pat.len() > 0,
        forall|j: int| 0 <= j && j + pat.len() <= s.len() ==> #[trigger] s.subrange(j, j + pat.len() as int) != pat,
    ensures
        find_sub(s, pat) is None,
    decreases s.len(),
{
    if s.len() < pat.len() {
    } else {
        assert(s.take(pat.len() as int) =~= s.subrange(0, 0 + pat.len() as int));
        let t = s.drop_first();
        assert forall|j: int| 0 <= j && j + pat.len() <= t.len() implies #[trigger] t.subrange(
            j,
            j + pat.len() as int,
        ) != pat by {
            assert(t.subrange(j, j + pat.len() as int) =~= s.subrange(
                j + 1,
                j + 1 + pat.len() as int,
            ));
        }
        lemma_find_sub_none(t, pat);
    }
}

/// Finds the first occurrence of `pat` in `s`, as [`find_sub`] names it.
pub fn find_pattern(s: &str, pat: &str) -> (r: Option<usize>)
    requires
        pat@.len() > 0,
    ensures
        match r {
            Some(i) => find_sub(s@, pat@) == Some(i as int) && i + pat@.len() <= s@.len(),
            None => find_sub(s@, pat@) is None,
        },
{
    let n: usize = s.unicode_len();
    let m: usize = pat.unicode_len();
    if n < m {
        proof {
            lemma_find_sub_none(s@, pat@);
        }
        return None;
    }
    let mut i: usize = 0;
    while i <= n - m
        invariant
            1 <= m <= n,
            n == s@.len(),
            m == pat@.len(),
            i <= n - m + 1,
            forall|j: int| 0 <= j < i ==> #[trigger] s@.subrange(j, j + pat@.len() as int) != pat@,
        decreases n - m + 1 - i,
    {
        let mut k: usize = 0;
        let mut matched: bool = true;
        while k < m
            invariant
                1 <= m <= n,
                n == s@.len(),
                m == pat@.len(),
                i + m <= n,
                k <= m,
                matched ==> forall|t: int| 0 <= t < k ==> s@[i + t] == #[trigger] pat@[t],
                !matched ==> s@.subrange(i as int, i + pat@.len() as int) != pat@,
            decreases m - k,
        {
            if s.get_char(i + k) != pat.get_char(k) {
                proof {
                    assert(s@.subrange(i as int, i + pat@.len() as int)[k as int] == s@[i + k]);
                }
                matched = false;
                k = m;
            } else {
                k = k + 1;
            }
        }
        if matched {
            proof {
                assert(s@.subrange(i as int, i + pat@.len() as int) =~= pat@);
                lemma_find_sub_at(s@, pat@, i as int);
            }
            return Some(i);
        }
        i = i + 1;
    }
    proof {
        assert forall|j: int| 0 <= j && j + pat@.len() <= s@.len() implies #[trigger] s@.subrange(
            j,
            j + pat@.len() as int,
        ) != pat@ by {}
        lemma_find_sub_none(s@, pat@);
    }
    None
}

/// The characters the protocol treats as surrounding whitespace.
pub open spec fn is_space_char(c: char) -> bool {
    c == ' ' || c == '\t' || c == '\r' || c == '\n'
}

/// `s` with leading and trailing whitespace removed.
pub open spec fn trim_of(s: Seq<char>) -> Seq<char>
    decreases s.len(),
{
    if s.len() > 0 && is_space_char(s[0]) {
        trim_of(s.drop_first())
    } else if s.len() > 0 && is_space_char(s.last()) {
        trim_of(s.drop_last())
    } else {
        s
    }
}

fn is_space(c: char) -> (r: bool)
    ensures
        r == is_space_char(c),
{
    c == ' ' || c == '\t' || c == '\r' || c == '\n'
}

/// Removes surrounding whitespace, as [`trim_of`] names it.
pub fn trim(s: &str) -> (r: &str)
    ensures
        r@ == trim_of(s@),
{
    let n: usize = s.unicode_len();
    let mut lo: usize = 0;
    let mut hi: usize = n;
    proof {
        assert(s@.subrange(0, n as int) =~= s@);
    }
    while lo < hi && is_space(s.get_char(lo))
        invariant
            n == s@.len(),
            lo <= hi <= n,
            trim_of(s@) == trim_of(s@.subrange(lo as int, hi as int)),
        decreases hi - lo,
    {
        proof {
            let part = s@.subrange(lo as int, hi as int);
            assert(part[0] == s@[lo as int]);
            assert(part.drop_first() =~= s@.subrange(lo + 1, hi as int));
        }
        lo = lo + 1;
    }
    while lo < hi && is_space(s.get_char(hi - 1))
        invariant
            n == s@.len(),
            lo <= hi <= n,
            trim_of(s@) == trim_of(s@.subrange(lo as int, hi as int)),
            lo < hi ==> !is_space_char(s@[lo as int]),
        decreases hi - lo,
    {
        proof {
            let part = s@.subrange(lo as int, hi as int);
            assert(part[0] == s@[lo as int]);
            assert(part.last() == s@[hi - 1]);
            assert(part.drop_last() =~= s@.subrange(lo as int, hi - 1));
        }
        hi = hi - 1;
    }
    let r = s.substring_char(lo, hi);
    proof {
        let part = s@.subrange(lo as int, hi as int);
        if lo < hi {
            assert(part[0] == s@[lo as int]);
            assert(part.last() == s@[hi - 1]);
            assert(trim_of(part) == part);
        }
    }
    r
}

/// `l` with one trailing carriage return removed, as a line terminator
/// `"\r\n"` leaves one behind after splitting on the newline alone.
pub open spec fn strip_cr(l: Seq<char>) -> Seq<char> {
    if l.len() > 0 && l.last() == '\r' {
        l.drop_last()
    } else {
        l
    }
}

/// The lines of `s`: segments between newline characters, each with a
/// trailing carriage return removed, and with no final empty segment when
/// `s` ends in a newline.
pub open spec fn lines_of(s: Seq<char>) -> Seq<Seq<char>>
    decreases s.len(),
    via lines_of_dec
{
    if s.len() == 0 {
        Seq::empty()
    } else {
        match find_sub(s, "\n"@) {
            None => seq![s],
            Some(i) => seq![strip_cr(s.take(i))] + lines_of(s.skip(i + 1)),
        }
    }
}

#[via_fn]
proof fn lines_of_dec(s: Seq<char>) {
    reveal_strlit("\n");
    if s.len() != 0 && find_sub(s, "\n"@) is Some {
        lemma_find_sub_bounds(s, "\n"@);
    }
}

/// Splits into lines, as [`lines_of`] names them.
pub fn split_lines<'a>(s: &'a str) -> (r: Vec<&'a str>)
    ensures
        r.deep_view() == lines_of(s@),
{
    let mut out: Vec<&'a str> = Vec::new();
    let mut rest: &'a str = s;
    proof {
        assert(out.deep_view() + lines_of(rest@) =~~= lines_of(s@));
    }
    while !rest.is_empty()
        invariant
            out.deep_view() + lines_of(rest@) == lines_of(s@),
        decreases rest@.len(),
    {
        let rlen: usize = rest.unicode_len();
        let ghost prev = rest@;
        let ghost prev_out = out.deep_view();
        proof {
            reveal_strlit("\n");
        }
        match find_pattern(rest, "\n") {
            None => {
                out.push(rest);
                rest = rest.substring_char(rlen, rlen);
                proof {
                    assert(lines_of(prev) == seq![prev]);
                    assert(rest@ =~= Seq::<char>::empty());
                    assert(out.deep_view() =~~= prev_out.push(prev));
                    assert(out.deep_view() + lines_of(rest@) =~~= prev_out + lines_of(prev));
                }
            },
            Some(i) => {
                let line = if i > 0 && rest.get_char(i - 1) == '\r' {
                    rest.substring_char(0, i - 1)
                } else {
                    rest.substring_char(0, i)
                };
                proof {
                    let taken = prev.take(i as int);
                    if i > 0 && prev[i - 1] == '\r' {
                        assert(taken.last() == prev[i - 1]);
                        assert(taken.drop_last() =~= prev.subrange(0, i - 1));
                        assert(line@ == strip_cr(taken));
                    } else {
                        if taken.len() > 0 {
                            assert(taken.last() == prev[i - 1]);
                        }
                        assert(taken =~= prev.subrange(0, i as int));
                        assert(line@ == strip_cr(taken));
                    }
                }
                out.push(line);
                rest = rest.substring_char(i + 1, rlen);
                proof {
                    assert(rest@ =~= prev.skip(i + 1));
                    assert(lines_of(prev) == seq![strip_cr(prev.take(i as int))] + lines_of(
                        prev.skip(i + 1),
                    ));
                    assert(out.deep_view() =~~= prev_out.push(line@));
                    assert(out.deep_view() + lines_of(rest@) =~~= prev_out + lines_of(prev));
                }
            },
        }
    }
    proof {
        assert(lines_of(rest@) =~~= Seq::<Seq<char>>::empty());
        assert(out.deep_view() =~~= lines_of(s@));
    }
    out
}

/// `s` with every colon character removed.
pub open spec fn remove_colons(s: Seq<char>) -> Seq<char>
    decreases s.len(),
{
    if s.len() == 0 {
        s
    } else if s[0] == ':' {
        remove_colons(s.drop_first())
    } else {
        seq![s[0]] + remove_colons(s.drop_first())
    }
}

/// Removes every colon, as [`remove_colons`] names it.
pub fn strip_colons(s: &str) -> (r: String)
    ensures
        r@ == remove_colons(s@),
{
    let n: usize = s.unicode_len();
    let mut out: String = String::new();
    let mut i: usize = 0;
    proof {
        assert(s@.skip(0) =~= s@);
        assert(out@ + remove_colons(s@) =~= remove_colons(s@));
    }
    while i < n
        invariant
            n == s@.len(),
            i <= n,
            out@ + remove_colons(s@.skip(i as int)) == remove_colons(s@),
        decreases n - i,
    {
        let ghost prev_out = out@;
        let c = s.get_char(i);
        if c != ':' {
            out.append(s.substring_char(i, i + 1));
        }
        proof {
            let tail = s@.skip(i as int);
            assert(tail[0] == s@[i as int]);
            assert(tail.drop_first() =~= s@.skip(i + 1));
            if c != ':' {
                assert(s@.subrange(i as int, i + 1) =~= seq![s@[i as int]]);
                assert(out@ + remove_colons(s@.skip(i + 1)) =~= prev_out + remove_colons(tail));
            }
        }
        i = i + 1;
    }
    proof {
        assert(s@.skip(n as int) =~= Seq::<char>::empty());
        assert(out@ + remove_colons(Seq::<char>::empty()) =~= out@);
    }
    out
}

/// Character-for-character equality of two string slices.
pub fn str_eq(a: &str, b: &str) -> (r: bool)
    ensures
        r == (a@ == b@),
{
    let n: usize = a.unicode_len();
    let m: usize = b.unicode_len();
    if n != m {
        return false;
    }
    let mut i: usize = 0;
    while i < n
        invariant
            n == a@.len(),
            n == b@.len(),
            i <= n,
            forall|j: int| 0 <= j < i ==> a@[j] == b@[j],
        decreases n - i,
    {
        if a.get_char(i) != b.get_char(i) {
            return false;
        }
        i = i + 1;
    }
    proof {
        assert(a@ =~= b@);
    }
    true
}

} // verus!
