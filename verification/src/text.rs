//! Character-level text utilities: conversions between `&str`/`String` and
//! `Vec<char>`, and verified primitives (equality, prefix test) used by the
//! line-oriented algorithms of the crate.

use vstd::prelude::*;

verus! {

/// Relies on `String::push`: appends one character to the string.
pub assume_specification[ String::push ](s: &mut String, c: char)
    ensures
        final(s)@ == old(s)@.push(c),
;

/// Collects the characters of a string slice into a vector.
pub fn chars_of(s: &str) -> (v: Vec<char>)
    ensures
        v@ == s@,
{
    let n = s.unicode_len();
    let mut v: Vec<char> = Vec::new();
    let mut i: usize = 0;
    while i < n
        invariant
            n == s@.len(),
            i <= n,
            v@ == s@.subrange(0, i as int),
        decreases n - i,
    {
        v.push(s.get_char(i));
        i = i + 1;
        proof {
            assert(v@ =~= s@.subrange(0, i as int));
        }
    }
    proof {
        assert(v@ =~= s@);
    }
    v
}

/// Builds a `String` from a slice of characters.
pub fn string_of(v: &[char]) -> (s: String)
    ensures
        s@ == v@,
{
    let mut s = String::new();
    let mut i: usize = 0;
    while i < v.len()
        invariant
            i <= v@.len(),
            s@ == v@.subrange(0, i as int),
        decreases v@.len() - i,
    {
        s.push(v[i]);
        i = i + 1;
        proof {
            assert(s@ =~= v@.subrange(0, i as int));
        }
    }
    proof {
        assert(s@ =~= v@);
    }
    s
}

/// Character-for-character equality of two slices.
pub fn eq_chars(a: &[char], b: &[char]) -> (r: bool)
    ensures
        r == (a@ == b@),
{
    if a.len() != b.len() {
        proof {
            assert(a@.len() != b@.len());
        }
        return false;
    }
    let mut i: usize = 0;
    while i < a.len()
        invariant
            a@.len() == b@.len(),
            i <= a@.len(),
            forall|j: int| 0 <= j < i ==> a@[j] == b@[j],
        decreases a@.len() - i,
    {
        if a[i] != b[i] {
            return false;
        }
        i = i + 1;
    }
    proof {
        assert(a@ =~= b@);
    }
    true
}

/// Equality of a character slice and a string slice.
pub fn eq_str(a: &[char], s: &str) -> (r: bool)
    ensures
        r == (a@ == s@),
{
    let n = s.unicode_len();
    if a.len() != n {
        proof {
            assert(a@.len() != s@.len());
        }
        return false;
    }
    let mut i: usize = 0;
    while i < n
        invariant
            n == s@.len(),
            a@.len() == n,
            i <= n,
            forall|j: int| 0 <= j < i ==> a@[j] == s@[j],
        decreases n - i,
    {
        if a[i] != s.get_char(i) {
            return false;
        }
        i = i + 1;
    }
    proof {
        assert(a@ =~= s@);
    }
    true
}

/// The characters `str::trim` removes: the Unicode `White_Space` set.
pub open spec fn is_space_spec(c: char) -> bool {
    c == ' ' || c == '\t' || c == '\n' || c == '\r' || c == '\u{0b}' || c == '\u{0c}'
        || c == '\u{85}' || c == '\u{a0}' || c == '\u{1680}' || ('\u{2000}' <= c <= '\u{200a}')
        || c == '\u{2028}' || c == '\u{2029}' || c == '\u{202f}' || c == '\u{205f}'
        || c == '\u{3000}'
}

pub fn is_space(c: char) -> (r: bool)
    ensures
        r == is_space_spec(c),
{
    c == ' ' || c == '\t' || c == '\n' || c == '\r' || c == '\u{0b}' || c == '\u{0c}'
        || c == '\u{85}' || c == '\u{a0}' || c == '\u{1680}' || ('\u{2000}' <= c && c <= '\u{200a}')
        || c == '\u{2028}' || c == '\u{2029}' || c == '\u{202f}' || c == '\u{205f}'
        || c == '\u{3000}'
}

pub open spec fn trim_start_spec(s: Seq<char>) -> Seq<char>
    decreases s.len(),
{
    if s.len() > 0 && is_space_spec(s[0]) {
        trim_start_spec(s.drop_first())
    } else {
        s
    }
}

pub open spec fn trim_end_spec(s: Seq<char>) -> Seq<char>
    decreases s.len(),
{
    if s.len() > 0 && is_space_spec(s.last()) {
        trim_end_spec(s.drop_last())
    } else {
        s
    }
}

/// What `str::trim` leaves: the input without leading and trailing whitespace.
pub open spec fn trim_spec(s: Seq<char>) -> Seq<char> {
    trim_end_spec(trim_start_spec(s))
}

/// Removes leading and trailing whitespace characters.
pub fn trim(s: &[char]) -> (r: Vec<char>)
    ensures
        r@ == trim_spec(s@),
{
    let len = s.len();
    let mut start: usize = 0;
    proof {
        assert(s@.skip(0) =~= s@);
    }
    while start < len && is_space(s[start])
        invariant
            len == s@.len(),
            start <= len,
            trim_start_spec(s@) == trim_start_spec(s@.skip(start as int)),
        decreases len - start,
    {
        proof {
            assert(s@.skip(start as int).drop_first() =~= s@.skip(start as int + 1));
        }
        start = start + 1;
    }
    proof {
        assert(trim_start_spec(s@.skip(start as int)) == s@.skip(start as int));
    }
    let mut end: usize = len;
    while end > start && is_space(s[end - 1])
        invariant
            len == s@.len(),
            start <= end <= len,
            trim_end_spec(s@.skip(start as int)) == trim_end_spec(
                s@.subrange(start as int, end as int),
            ),
        decreases end,
    {
        proof {
            assert(s@.subrange(start as int, end as int).drop_last() =~= s@.subrange(
                start as int,
                end as int - 1,
            ));
        }
        end = end - 1;
    }
    proof {
        assert(trim_end_spec(s@.subrange(start as int, end as int)) == s@.subrange(
            start as int,
            end as int,
        ));
    }
    let mut r: Vec<char> = Vec::new();
    let mut i: usize = start;
    while i < end
        invariant
            start <= i <= end <= s@.len(),
            r@ == s@.subrange(start as int, i as int),
        decreases end - i,
    {
        r.push(s[i]);
        i = i + 1;
        proof {
            assert(r@ =~= s@.subrange(start as int, i as int));
        }
    }
    r
}

/// Does `s` have an occurrence of `pat` beginning at index `i`?
pub open spec fn is_match_at(s: Seq<char>, pat: Seq<char>, i: int) -> bool {
    0 <= i && i + pat.len() <= s.len() && s.subrange(i, i + pat.len()) == pat
}

/// Does `pat` occur anywhere in `s`?
pub open spec fn contains_sub(s: Seq<char>, pat: Seq<char>) -> bool {
    exists|i: int| is_match_at(s, pat, i)
}

/// Index of the first occurrence of `pat` in `s`, if any.
pub fn find_sub(s: &[char], pat: &[char]) -> (r: Option<usize>)
    ensures
        match r {
            Some(i) => is_match_at(s@, pat@, i as int) && forall|j: int|
                0 <= j < i ==> !is_match_at(s@, pat@, j),
            None => !contains_sub(s@, pat@),
        },
{
    if pat.len() > s.len() {
        return None;
    }
    if pat.len() == 0 {
        proof {
            assert(s@.subrange(0, 0) =~= pat@);
        }
        return Some(0);
    }
    let last = s.len() - pat.len();
    let mut i: usize = 0;
    while i <= last
        invariant
            0 < pat@.len() <= s@.len(),
            s@.len() <= usize::MAX,
            last == s@.len() - pat@.len(),
            i <= last + 1,
            forall|j: int| 0 <= j < i ==> !is_match_at(s@, pat@, j),
        decreases last + 1 - i,
    {
        let mut k: usize = 0;
        let mut matches = true;
        while k < pat.len()
            invariant
                pat@.len() <= s@.len(),
                s@.len() <= usize::MAX,
                i + pat@.len() <= s@.len(),
                k <= pat@.len(),
                matches ==> forall|m: int| 0 <= m < k ==> s@[i + m] == pat@[m],
                !matches ==> !is_match_at(s@, pat@, i as int),
            decreases pat@.len() - k,
        {
            if s[i + k] != pat[k] {
                proof {
                    assert(s@.subrange(i as int, i + pat@.len())[k as int] == s@[i + k]);
                }
                matches = false;
                k = pat.len();
            } else {
                k = k + 1;
            }
        }
        if matches {
            proof {
                assert(s@.subrange(i as int, i + pat@.len()) =~= pat@);
            }
            return Some(i);
        }
        i = i + 1;
    }
    proof {
        assert forall|j: int| !is_match_at(s@, pat@, j) by {
            if is_match_at(s@, pat@, j) {
                assert(j <= s@.len() - pat@.len());
            }
        }
    }
    None
}

/// The index of the first occurrence of `pat` in `s`, defined by recursion so
/// that spec functions can build on it.
pub open spec fn find_first_spec(s: Seq<char>, pat: Seq<char>) -> Option<int>
    decreases s.len(),
{
    if pat.len() == 0 {
        Some(0)
    } else if s.len() < pat.len() {
        None
    } else if s.subrange(0, pat.len() as int) == pat {
        Some(0)
    } else {
        match find_first_spec(s.drop_first(), pat) {
            None => None,
            Some(i) => Some(i + 1),
        }
    }
}

pub proof fn lemma_find_first_some(s: Seq<char>, pat: Seq<char>, i: int)
    requires
        pat.len() > 0,
        is_match_at(s, pat, i),
        forall|j: int| 0 <= j < i ==> !is_match_at(s, pat, j),
    ensures
        find_first_spec(s, pat) == Some(i),
    decreases i,
{
    if i == 0 {
    } else {
        assert(!is_match_at(s, pat, 0));
        assert(s.subrange(0, pat.len() as int) != pat);
        let t = s.drop_first();
        assert(t.subrange(i - 1, i - 1 + pat.len()) =~= s.subrange(i, i + pat.len()));
        assert(is_match_at(t, pat, i - 1));
        assert forall|j: int| 0 <= j < i - 1 implies !is_match_at(t, pat, j) by {
            if is_match_at(t, pat, j) {
                assert(s.subrange(j + 1, j + 1 + pat.len()) =~= t.subrange(j, j + pat.len()));
                assert(is_match_at(s, pat, j + 1));
            }
        }
        lemma_find_first_some(t, pat, i - 1);
    }
}

pub proof fn lemma_find_first_none(s: Seq<char>, pat: Seq<char>)
    requires
        pat.len() > 0,
        !contains_sub(s, pat),
    ensures
        find_first_spec(s, pat) is None,
    decreases s.len(),
{
    if s.len() >= pat.len() {
        assert(!is_match_at(s, pat, 0));
        let t = s.drop_first();
        assert(!contains_sub(t, pat)) by {
            if contains_sub(t, pat) {
                let j = choose|j: int| is_match_at(t, pat, j);
                assert(s.subrange(j + 1, j + 1 + pat.len()) =~= t.subrange(j, j + pat.len()));
                assert(is_match_at(s, pat, j + 1));
            }
        }
        lemma_find_first_none(t, pat);
    }
}

/// Finds the first occurrence of `pat` in `s`.
pub fn find_first(s: &[char], pat: &[char]) -> (r: Option<usize>)
    requires
        pat@.len() > 0,
    ensures
        match r {
            Some(i) => find_first_spec(s@, pat@) == Some(i as int) && i + pat@.len() <= s@.len(),
            None => find_first_spec(s@, pat@) is None,
        },
{
    let r = find_sub(s, pat);
    proof {
        match r {
            Some(i) => lemma_find_first_some(s@, pat@, i as int),
            None => lemma_find_first_none(s@, pat@),
        }
    }
    r
}

/// Does `pat` occur anywhere in `s`?
pub fn contains(s: &[char], pat: &[char]) -> (r: bool)
    ensures
        r == contains_sub(s@, pat@),
{
    find_sub(s, pat).is_some()
}

/// `str::replace`: every non-overlapping occurrence of `pat`, scanned from the
/// left, replaced by `rep`. An empty pattern is left untouched (the library
/// never substitutes on an empty placeholder).
pub open spec fn replace_all_spec(s: Seq<char>, pat: Seq<char>, rep: Seq<char>) -> Seq<char>
    decreases s.len(),
{
    if pat.len() == 0 {
        s
    } else if s.len() < pat.len() {
        s
    } else if s.subrange(0, pat.len() as int) == pat {
        rep + replace_all_spec(s.skip(pat.len() as int), pat, rep)
    } else {
        seq![s[0]] + replace_all_spec(s.drop_first(), pat, rep)
    }
}

/// Replaces every non-overlapping occurrence of `pat` in `s` by `rep`.
pub fn replace_all(s: &[char], pat: &[char], rep: &[char]) -> (r: Vec<char>)
    ensures
        r@ == replace_all_spec(s@, pat@, rep@),
{
    if pat.len() == 0 {
        let mut r: Vec<char> = Vec::new();
        let mut i: usize = 0;
        while i < s.len()
            invariant
                i <= s@.len(),
                r@ == s@.subrange(0, i as int),
            decreases s@.len() - i,
        {
            r.push(s[i]);
            i = i + 1;
            proof {
                assert(r@ =~= s@.subrange(0, i as int));
            }
        }
        proof {
            assert(r@ =~= s@);
        }
        return r;
    }
    let mut r: Vec<char> = Vec::new();
    let mut i: usize = 0;
    proof {
        assert(s@.skip(0) =~= s@);
        assert(r@ + replace_all_spec(s@, pat@, rep@) =~= replace_all_spec(s@, pat@, rep@));
    }
    while i < s.len()
        invariant
            pat@.len() > 0,
            i <= s@.len(),
            replace_all_spec(s@, pat@, rep@) == r@ + replace_all_spec(
                s@.skip(i as int),
                pat@,
                rep@,
            ),
        decreases s@.len() - i,
    {
        let rest_len = s.len() - i;
        let mut matched = false;
        if rest_len >= pat.len() {
            let mut k: usize = 0;
            matched = true;
            while k < pat.len()
                invariant
                    pat@.len() <= s@.len() - i,
                    s@.len() <= usize::MAX,
                    i <= s@.len(),
                    k <= pat@.len(),
                    matched ==> forall|m: int| 0 <= m < k ==> s@[i + m] == pat@[m],
                    !matched ==> s@.skip(i as int).subrange(0, pat@.len() as int) != pat@,
                decreases pat@.len() - k,
            {
                if s[i + k] != pat[k] {
                    proof {
                        assert(s@.skip(i as int).subrange(0, pat@.len() as int)[k as int] == s@[i
                            + k]);
                    }
                    matched = false;
                    k = pat.len();
                } else {
                    k = k + 1;
                }
            }
        }
        if matched {
            proof {
                assert(s@.skip(i as int).subrange(0, pat@.len() as int) =~= pat@);
                assert(s@.skip(i as int).skip(pat@.len() as int) =~= s@.skip(
                    i + pat@.len(),
                ));
            }
            let mut k: usize = 0;
            let ghost r0 = r@;
            while k < rep.len()
                invariant
                    k <= rep@.len(),
                    r@ == r0 + rep@.subrange(0, k as int),
                decreases rep@.len() - k,
            {
                r.push(rep[k]);
                k = k + 1;
                proof {
                    assert(r@ =~= r0 + rep@.subrange(0, k as int));
                }
            }
            proof {
                assert(rep@.subrange(0, rep@.len() as int) =~= rep@);
            }
            i = i + pat.len();
        } else {
            proof {
                if s@.skip(i as int).len() >= pat@.len() {
                    assert(replace_all_spec(s@.skip(i as int), pat@, rep@) == seq![s@[i as int]]
                        + replace_all_spec(s@.skip(i as int).drop_first(), pat@, rep@));
                }
                assert(s@.skip(i as int).drop_first() =~= s@.skip(i as int + 1));
                assert(s@.skip(i as int)[0] == s@[i as int]);
            }
            r.push(s[i]);
            i = i + 1;
        }
        proof {
            assert(replace_all_spec(s@, pat@, rep@) == r@ + replace_all_spec(
                s@.skip(i as int),
                pat@,
                rep@,
            ));
        }
    }
    proof {
        assert(s@.skip(i as int) =~= Seq::<char>::empty());
        assert(replace_all_spec(Seq::<char>::empty(), pat@, rep@) =~= Seq::<char>::empty());
        assert(r@ =~= r@ + Seq::<char>::empty());
    }
    r
}

/// What `str::split` yields on a one-character separator: the pieces of `s`
/// between occurrences of `sep`. Splitting the empty string yields one empty
/// piece.
pub open spec fn split_char_spec(s: Seq<char>, sep: char) -> Seq<Seq<char>>
    decreases s.len(),
{
    if s.len() == 0 {
        seq![Seq::<char>::empty()]
    } else if s[0] == sep {
        seq![Seq::<char>::empty()] + split_char_spec(s.drop_first(), sep)
    } else {
        let rest = split_char_spec(s.drop_first(), sep);
        seq![seq![s[0]] + rest[0]] + rest.drop_first()
    }
}

pub proof fn lemma_split_nonempty(s: Seq<char>, sep: char)
    ensures
        split_char_spec(s, sep).len() >= 1,
    decreases s.len(),
{
    if s.len() > 0 && s[0] != sep {
        lemma_split_nonempty(s.drop_first(), sep);
    }
}

/// Appending one character to the input either extends the last piece of the
/// split or, when it is the separator, opens a new empty piece.
pub proof fn lemma_split_push(s: Seq<char>, sep: char, c: char)
    ensures
        c == sep ==> split_char_spec(s.push(c), sep) == split_char_spec(s, sep).push(
            Seq::<char>::empty(),
        ),
        c != sep ==> split_char_spec(s.push(c), sep) == split_char_spec(s, sep).update(
            split_char_spec(s, sep).len() - 1,
            split_char_spec(s, sep).last().push(c),
        ),
    decreases s.len(),
{
    lemma_split_nonempty(s, sep);
    if s.len() == 0 {
        let t = s.push(c);
        assert(t[0] == c);
        assert(t.drop_first() =~= Seq::<char>::empty());
        assert(split_char_spec(Seq::<char>::empty(), sep) == seq![Seq::<char>::empty()]);
        if c == sep {
            assert(split_char_spec(t, sep) == seq![Seq::<char>::empty()] + split_char_spec(
                t.drop_first(),
                sep,
            ));
            assert(split_char_spec(t, sep) =~~= split_char_spec(s, sep).push(
                Seq::<char>::empty(),
            ));
        } else {
            assert(seq![c] + split_char_spec(Seq::<char>::empty(), sep)[0] =~= Seq::<char>::empty().push(c));
            assert(split_char_spec(t, sep) =~~= split_char_spec(s, sep).update(
                0,
                split_char_spec(s, sep).last().push(c),
            ));
        }
    } else {
        let t = s.drop_first();
        lemma_split_nonempty(t, sep);
        lemma_split_push(t, sep, c);
        assert(s.push(c)[0] == s[0]);
        assert(s.push(c).drop_first() =~= t.push(c));
        let st = split_char_spec(t, sep);
        let ss = split_char_spec(s, sep);
        if s[0] == sep {
            assert(ss == seq![Seq::<char>::empty()] + st);
            if c == sep {
                assert(split_char_spec(s.push(c), sep) =~~= ss.push(Seq::<char>::empty()));
            } else {
                assert(ss.last() == st.last());
                assert(split_char_spec(s.push(c), sep) == seq![Seq::<char>::empty()] + st.update(
                    st.len() - 1,
                    st.last().push(c),
                ));
                assert(split_char_spec(s.push(c), sep) =~~= ss.update(
                    ss.len() - 1,
                    ss.last().push(c),
                ));
            }
        } else {
            assert(ss == seq![seq![s[0]] + st[0]] + st.drop_first());
            let stc = split_char_spec(t.push(c), sep);
            if c == sep {
                assert(stc == st.push(Seq::<char>::empty()));
                assert(stc[0] == st[0]);
                assert(split_char_spec(s.push(c), sep) == seq![seq![s[0]] + stc[0]]
                    + stc.drop_first());
                assert(stc.drop_first() =~~= st.drop_first().push(Seq::<char>::empty()));
                assert(split_char_spec(s.push(c), sep) =~~= ss.push(Seq::<char>::empty()));
            } else {
                assert(stc == st.update(st.len() - 1, st.last().push(c)));
                if st.len() == 1 {
                    assert(stc[0] == st[0].push(c));
                    assert(seq![s[0]] + st[0].push(c) =~= (seq![s[0]] + st[0]).push(c));
                    assert(ss.len() == 1);
                    assert(ss.last() == seq![s[0]] + st[0]);
                    assert(split_char_spec(s.push(c), sep) =~~= ss.update(
                        ss.len() - 1,
                        ss.last().push(c),
                    ));
                } else {
                    assert(stc[0] == st[0]);
                    assert(ss.last() == st.last());
                    assert(stc.drop_first() =~~= st.drop_first().update(
                        st.len() - 2,
                        st.last().push(c),
                    ));
                    assert(split_char_spec(s.push(c), sep) =~~= ss.update(
                        ss.len() - 1,
                        ss.last().push(c),
                    ));
                }
            }
        }
    }
}

/// Splits `s` on the separator character, keeping empty pieces.
pub fn split_char(s: &[char], sep: char) -> (r: Vec<Vec<char>>)
    ensures
        r.deep_view() == split_char_spec(s@, sep),
{
    let mut out: Vec<Vec<char>> = Vec::new();
    let mut cur: Vec<char> = Vec::new();
    let mut i: usize = 0;
    proof {
        assert(s@.subrange(0, 0) =~= Seq::<char>::empty());
        assert(out.deep_view().push(cur@) =~~= split_char_spec(s@.subrange(0, 0), sep));
    }
    while i < s.len()
        invariant
            i <= s@.len(),
            out.deep_view().push(cur@) == split_char_spec(s@.subrange(0, i as int), sep),
        decreases s@.len() - i,
    {
        let ghost pre = s@.subrange(0, i as int);
        proof {
            assert(s@.subrange(0, i as int + 1) =~= pre.push(s@[i as int]));
            lemma_split_push(pre, sep, s@[i as int]);
            lemma_split_nonempty(pre, sep);
        }
        let c = s[i];
        if c == sep {
            let ghost old_out = out.deep_view();
            out.push(cur);
            cur = Vec::new();
            proof {
                assert(out.deep_view() =~~= old_out.push(split_char_spec(pre, sep).last()));
                assert(out.deep_view().push(cur@) =~~= split_char_spec(pre, sep).push(
                    Seq::<char>::empty(),
                ));
            }
        } else {
            cur.push(c);
            proof {
                let sp = split_char_spec(pre, sep);
                assert(out.deep_view().push(cur@) =~~= sp.update(sp.len() - 1, sp.last().push(
                    s@[i as int],
                )));
            }
        }
        i = i + 1;
    }
    proof {
        assert(s@.subrange(0, s@.len() as int) =~= s@);
    }
    out.push(cur);
    proof {
        lemma_split_nonempty(s@, sep);
        assert(out.deep_view() =~~= split_char_spec(s@, sep));
    }
    out
}

/// The pieces joined with a one-character separator: the inverse shape of
/// `split_char_spec`.
pub open spec fn join_spec(ls: Seq<Seq<char>>, sep: char) -> Seq<char>
    decreases ls.len(),
{
    if ls.len() == 0 {
        Seq::<char>::empty()
    } else if ls.len() == 1 {
        ls[0]
    } else {
        ls[0] + seq![sep] + join_spec(ls.drop_first(), sep)
    }
}

pub proof fn lemma_join_push(ls: Seq<Seq<char>>, sep: char, x: Seq<char>)
    ensures
        ls.len() == 0 ==> join_spec(ls.push(x), sep) == x,
        ls.len() > 0 ==> join_spec(ls.push(x), sep) == join_spec(ls, sep) + seq![sep] + x,
    decreases ls.len(),
{
    if ls.len() == 0 {
        assert(join_spec(ls.push(x), sep) == ls.push(x)[0]);
    } else if ls.len() == 1 {
        assert(ls.push(x).drop_first() =~~= seq![x]);
        assert(join_spec(seq![x], sep) == x);
        assert(ls.push(x)[0] == ls[0]);
        assert(join_spec(ls.push(x), sep) == ls.push(x)[0] + seq![sep] + join_spec(
            ls.push(x).drop_first(),
            sep,
        ));
        assert(join_spec(ls.push(x), sep) == ls[0] + seq![sep] + x);
    } else {
        assert(ls.push(x).drop_first() =~~= ls.drop_first().push(x));
        lemma_join_push(ls.drop_first(), sep, x);
        assert(join_spec(ls.push(x), sep) == ls[0] + seq![sep] + (join_spec(
            ls.drop_first(),
            sep,
        ) + seq![sep] + x));
        assert(ls[0] + seq![sep] + (join_spec(ls.drop_first(), sep) + seq![sep] + x) =~= (ls[0]
            + seq![sep] + join_spec(ls.drop_first(), sep)) + seq![sep] + x);
    }
}

/// Joins the pieces with the separator character.
pub fn join_char(ls: &Vec<Vec<char>>, sep: char) -> (r: Vec<char>)
    ensures
        r@ == join_spec(ls.deep_view(), sep),
{
    let mut r: Vec<char> = Vec::new();
    let mut i: usize = 0;
    proof {
        assert(ls.deep_view().subrange(0, 0) =~~= Seq::<Seq<char>>::empty());
    }
    while i < ls.len()
        invariant
            i <= ls@.len(),
            ls.deep_view().len() == ls@.len(),
            r@ == join_spec(ls.deep_view().subrange(0, i as int), sep),
        decreases ls@.len() - i,
    {
        let ghost pre = ls.deep_view().subrange(0, i as int);
        proof {
            assert(ls.deep_view().subrange(0, i as int + 1) =~~= pre.push(ls.deep_view()[i as int]));
            lemma_join_push(pre, sep, ls.deep_view()[i as int]);
        }
        if i > 0 {
            r.push(sep);
        }
        let ghost r0 = r@;
        let piece = &ls[i];
        let mut k: usize = 0;
        while k < piece.len()
            invariant
                k <= piece@.len(),
                r@ == r0 + piece@.subrange(0, k as int),
            decreases piece@.len() - k,
        {
            r.push(piece[k]);
            k = k + 1;
            proof {
                assert(r@ =~= r0 + piece@.subrange(0, k as int));
            }
        }
        proof {
            assert(piece@.subrange(0, piece@.len() as int) =~= piece@);
            assert(ls.deep_view()[i as int] == ls@[i as int]@);
            if i > 0 {
                assert(r@ =~= join_spec(pre, sep) + seq![sep] + ls.deep_view()[i as int]);
            } else {
                assert(r@ =~= ls.deep_view()[0]);
            }
        }
        i = i + 1;
    }
    proof {
        assert(ls.deep_view().subrange(0, ls@.len() as int) =~~= ls.deep_view());
    }
    r
}

/// No occurrence of the character in the text.
pub open spec fn no_char(s: Seq<char>, c: char) -> bool {
    forall|i: int| 0 <= i < s.len() ==> s[i] != c
}

/// Splitting a text around one separator splits each side on its own.
pub proof fn lemma_split_concat(a: Seq<char>, b: Seq<char>, sep: char)
    ensures
        split_char_spec(a + seq![sep] + b, sep) == split_char_spec(a, sep) + split_char_spec(
            b,
            sep,
        ),
    decreases a.len(),
{
    if a.len() == 0 {
        let s = a + seq![sep] + b;
        assert(s =~= seq![sep] + b);
        assert(s[0] == sep);
        assert(s.drop_first() =~= b);
        assert(split_char_spec(s, sep) == seq![Seq::<char>::empty()] + split_char_spec(b, sep));
        assert(split_char_spec(a, sep) == seq![Seq::<char>::empty()]);
    } else {
        let s = a + seq![sep] + b;
        assert(s[0] == a[0]);
        assert(s.drop_first() =~= a.drop_first() + seq![sep] + b);
        lemma_split_concat(a.drop_first(), b, sep);
        lemma_split_nonempty(a.drop_first(), sep);
        lemma_split_nonempty(b, sep);
        if a[0] == sep {
            assert(split_char_spec(s, sep) =~~= split_char_spec(a, sep) + split_char_spec(
                b,
                sep,
            ));
        } else {
            let sa = split_char_spec(a.drop_first(), sep);
            let sb = split_char_spec(b, sep);
            assert((sa + sb)[0] == sa[0]);
            assert((sa + sb).drop_first() =~~= sa.drop_first() + sb);
            assert(split_char_spec(s, sep) =~~= split_char_spec(a, sep) + split_char_spec(
                b,
                sep,
            ));
        }
    }
}

/// A text free of the separator splits into itself alone.
pub proof fn lemma_split_no_sep(a: Seq<char>, sep: char)
    requires
        no_char(a, sep),
    ensures
        split_char_spec(a, sep) == seq![a],
    decreases a.len(),
{
    if a.len() > 0 {
        assert(a[0] != sep);
        assert(no_char(a.drop_first(), sep));
        lemma_split_no_sep(a.drop_first(), sep);
        assert(seq![a[0]] + a.drop_first() =~= a);
        assert(split_char_spec(a, sep) =~~= seq![a]);
    } else {
        assert(a =~= Seq::<char>::empty());
        assert(split_char_spec(a, sep) =~~= seq![a]);
    }
}

/// The pieces of a split never hold the separator, and hold no character the
/// input was free of.
pub proof fn lemma_split_pieces(s: Seq<char>, sep: char, c: char)
    ensures
        forall|i: int| 0 <= i < split_char_spec(s, sep).len() ==> no_char(
            #[trigger] split_char_spec(s, sep)[i],
            sep,
        ),
        no_char(s, c) ==> forall|i: int| 0 <= i < split_char_spec(s, sep).len() ==> no_char(
            #[trigger] split_char_spec(s, sep)[i],
            c,
        ),
    decreases s.len(),
{
    if s.len() == 0 {
    } else {
        lemma_split_pieces(s.drop_first(), sep, c);
        lemma_split_nonempty(s.drop_first(), sep);
        if no_char(s, c) {
            assert(no_char(s.drop_first(), c));
        }
        if s[0] == sep {
        } else {
            let rest = split_char_spec(s.drop_first(), sep);
            let sp = split_char_spec(s, sep);
            assert(sp == seq![seq![s[0]] + rest[0]] + rest.drop_first());
            assert forall|i: int| 0 <= i < sp.len() implies no_char(#[trigger] sp[i], sep) by {
                if i == 0 {
                    assert(no_char(rest[0], sep));
                    assert(s[0] != sep);
                } else {
                    assert(sp[i] == rest[i]);
                }
            }
            if no_char(s, c) {
                assert forall|i: int| 0 <= i < sp.len() implies no_char(#[trigger] sp[i], c) by {
                    if i == 0 {
                        assert(no_char(rest[0], c));
                        assert(s[0] != c);
                    } else {
                        assert(sp[i] == rest[i]);
                    }
                }
            }
        }
    }
}

/// Joining and splitting round-trip: splitting the join of separator-free
/// pieces gives the pieces back.
pub proof fn lemma_split_join(ls: Seq<Seq<char>>, sep: char)
    requires
        ls.len() >= 1,
        forall|i: int| 0 <= i < ls.len() ==> no_char(#[trigger] ls[i], sep),
    ensures
        split_char_spec(join_spec(ls, sep), sep) == ls,
    decreases ls.len(),
{
    if ls.len() == 1 {
        lemma_split_no_sep(ls[0], sep);
        assert(seq![ls[0]] =~~= ls);
    } else {
        let rest = ls.drop_first();
        assert(forall|i: int| 0 <= i < rest.len() ==> no_char(#[trigger] rest[i], sep));
        lemma_split_join(rest, sep);
        lemma_split_concat(ls[0], join_spec(rest, sep), sep);
        lemma_split_no_sep(ls[0], sep);
        assert(split_char_spec(join_spec(ls, sep), sep) == seq![ls[0]] + rest);
        assert(seq![ls[0]] + rest =~~= ls);
    }
}

/// A join of pieces free of some other character stays free of it.
pub proof fn lemma_join_no_char(ls: Seq<Seq<char>>, sep: char, c: char)
    requires
        c != sep,
        forall|i: int| 0 <= i < ls.len() ==> no_char(#[trigger] ls[i], c),
    ensures
        no_char(join_spec(ls, sep), c),
    decreases ls.len(),
{
    if ls.len() <= 1 {
    } else {
        let rest = ls.drop_first();
        assert(forall|i: int| 0 <= i < rest.len() ==> no_char(#[trigger] rest[i], c));
        lemma_join_no_char(rest, sep, c);
        let j = join_spec(ls, sep);
        assert(j == ls[0] + seq![sep] + join_spec(rest, sep));
        assert forall|i: int| 0 <= i < j.len() implies j[i] != c by {
            if i < ls[0].len() {
                assert(j[i] == ls[0][i]);
            } else if i == ls[0].len() {
                assert(j[i] == sep);
            } else {
                assert(j[i] == join_spec(rest, sep)[i - ls[0].len() - 1]);
            }
        }
    }
}

/// The last character of a join is the last character of its last piece.
pub proof fn lemma_join_last(ls: Seq<Seq<char>>, sep: char)
    requires
        ls.len() >= 1,
        ls.last().len() > 0,
    ensures
        join_spec(ls, sep).len() > 0,
        join_spec(ls, sep).last() == ls.last().last(),
    decreases ls.len(),
{
    if ls.len() == 1 {
    } else {
        let rest = ls.drop_first();
        assert(rest.last() == ls.last());
        lemma_join_last(rest, sep);
        let j = join_spec(ls, sep);
        assert(j == ls[0] + seq![sep] + join_spec(rest, sep));
        assert(j.last() == join_spec(rest, sep).last());
    }
}

pub proof fn lemma_trim_start_len(s: Seq<char>)
    ensures
        trim_start_spec(s).len() <= s.len(),
    decreases s.len(),
{
    if s.len() > 0 && is_space_spec(s[0]) {
        lemma_trim_start_len(s.drop_first());
    }
}

pub proof fn lemma_trim_end_len(s: Seq<char>)
    ensures
        trim_end_spec(s).len() <= s.len(),
    decreases s.len(),
{
    if s.len() > 0 && is_space_spec(s.last()) {
        lemma_trim_end_len(s.drop_last());
    }
}

/// A text whose first and last characters are not whitespace is its own trim.
pub proof fn lemma_trim_fix(s: Seq<char>)
    requires
        s.len() > 0,
        !is_space_spec(s[0]),
        !is_space_spec(s.last()),
    ensures
        trim_spec(s) == s,
{
    assert(trim_start_spec(s) == s);
    assert(trim_end_spec(s) == s);
}

/// The trim of a text is one of its contiguous pieces.
pub proof fn lemma_trim_start_suffix(s: Seq<char>)
    ensures
        exists|k: int| 0 <= k <= s.len() && trim_start_spec(s) == s.skip(k),
    decreases s.len(),
{
    if s.len() > 0 && is_space_spec(s[0]) {
        lemma_trim_start_suffix(s.drop_first());
        let k = choose|k: int|
            0 <= k <= s.drop_first().len() && trim_start_spec(s.drop_first()) == s.drop_first().skip(
                k,
            );
        assert(s.drop_first().skip(k) =~= s.skip(k + 1));
        assert(trim_start_spec(s) == s.skip(k + 1));
    } else {
        assert(s.skip(0) =~= s);
        assert(trim_start_spec(s) == s.skip(0));
    }
}

pub proof fn lemma_trim_end_prefix(s: Seq<char>)
    ensures
        exists|k: int| 0 <= k <= s.len() && trim_end_spec(s) == s.subrange(0, k),
    decreases s.len(),
{
    if s.len() > 0 && is_space_spec(s.last()) {
        lemma_trim_end_prefix(s.drop_last());
        let k = choose|k: int|
            0 <= k <= s.drop_last().len() && trim_end_spec(s.drop_last()) == s.drop_last().subrange(
                0,
                k,
            );
        assert(s.drop_last().subrange(0, k) =~= s.subrange(0, k));
        assert(trim_end_spec(s) == s.subrange(0, k));
    } else {
        assert(s.subrange(0, s.len() as int) =~= s);
        assert(trim_end_spec(s) == s.subrange(0, s.len() as int));
    }
}

/// The trim of a text occurs in the text.
pub proof fn lemma_trim_is_match(s: Seq<char>)
    ensures
        exists|i: int| is_match_at(s, trim_spec(s), i),
{
    lemma_trim_start_suffix(s);
    let k = choose|k: int| 0 <= k <= s.len() && trim_start_spec(s) == s.skip(k);
    let t = trim_start_spec(s);
    lemma_trim_end_prefix(t);
    let m = choose|m: int| 0 <= m <= t.len() && trim_end_spec(t) == t.subrange(0, m);
    assert(t.subrange(0, m) =~= s.subrange(k, k + m));
    assert(s.subrange(k, k + m) =~= s.subrange(k, k + trim_spec(s).len() as int));
    assert(is_match_at(s, trim_spec(s), k));
}

/// A match inside a match: an occurrence within a piece of `s` is an
/// occurrence within `s`.
pub proof fn lemma_contains_trans(s: Seq<char>, x: Seq<char>, p: Seq<char>, i: int, j: int)
    requires
        is_match_at(s, x, i),
        is_match_at(x, p, j),
    ensures
        is_match_at(s, p, i + j),
{
    assert(s.subrange(i + j, i + j + p.len()) =~= x.subrange(j, j + p.len()));
}

/// A text free of some character of the pattern cannot contain the pattern.
pub proof fn lemma_no_char_no_match(l: Seq<char>, p: Seq<char>, c: char, j0: int)
    requires
        0 <= j0 < p.len(),
        p[j0] == c,
        no_char(l, c),
    ensures
        !contains_sub(l, p),
{
    assert forall|i: int| !is_match_at(l, p, i) by {
        if is_match_at(l, p, i) {
            assert(l.subrange(i, i + p.len())[j0] == l[i + j0]);
            assert(l[i + j0] == c);
        }
    }
}

/// A trailing carriage return removed, as `str::lines` does per line.
pub open spec fn strip_cr_spec(l: Seq<char>) -> Seq<char> {
    if l.len() > 0 && l.last() == '\r' {
        l.drop_last()
    } else {
        l
    }
}

/// What `str::lines` yields: pieces split on `'\n'`, a trailing empty piece
/// dropped, and a trailing `'\r'` removed from each line.
pub open spec fn lines_spec(s: Seq<char>) -> Seq<Seq<char>> {
    if s.len() == 0 {
        Seq::<Seq<char>>::empty()
    } else {
        let p = split_char_spec(s, '\n');
        let q = if s.last() == '\n' {
            p.drop_last()
        } else {
            p
        };
        q.map_values(|l: Seq<char>| strip_cr_spec(l))
    }
}

/// For a nonempty text free of carriage returns that does not end in a
/// newline, the lines are exactly the newline-split pieces.
pub proof fn lemma_lines_eq_split(s: Seq<char>)
    requires
        s.len() > 0,
        s.last() != '\n',
        no_char(s, '\r'),
    ensures
        lines_spec(s) == split_char_spec(s, '\n'),
{
    let p = split_char_spec(s, '\n');
    lemma_split_pieces(s, '\n', '\r');
    assert(p.map_values(|l: Seq<char>| strip_cr_spec(l)) =~~= p) by {
        assert forall|i: int| 0 <= i < p.len() implies strip_cr_spec(p[i]) == p[i] by {
            assert(no_char(p[i], '\r'));
            if p[i].len() > 0 {
                assert(p[i].last() != '\r');
            }
        }
    }
}

/// For a text free of carriage returns that ends in a newline, the lines are
/// the newline-split pieces less the final empty piece.
pub proof fn lemma_lines_trailing_newline(s: Seq<char>)
    requires
        s.len() > 0,
        s.last() == '\n',
        no_char(s, '\r'),
    ensures
        lines_spec(s) == split_char_spec(s, '\n').drop_last(),
{
    let p = split_char_spec(s, '\n');
    let q = p.drop_last();
    lemma_split_pieces(s, '\n', '\r');
    assert(q.map_values(|l: Seq<char>| strip_cr_spec(l)) =~~= q) by {
        assert forall|i: int| 0 <= i < q.len() implies strip_cr_spec(q[i]) == q[i] by {
            assert(q[i] == p[i]);
            assert(no_char(p[i], '\r'));
            if q[i].len() > 0 {
                assert(q[i].last() != '\r');
            }
        }
    }
}

/// Splits `s` into lines as `str::lines` does.
pub fn lines_of(s: &[char]) -> (r: Vec<Vec<char>>)
    ensures
        r.deep_view() == lines_spec(s@),
{
    if s.len() == 0 {
        let r: Vec<Vec<char>> = Vec::new();
        proof {
            assert(r.deep_view() =~~= lines_spec(s@));
        }
        return r;
    }
    let mut pieces = split_char(s, '\n');
    proof {
        lemma_split_nonempty(s@, '\n');
    }
    if s[s.len() - 1] == '\n' {
        pieces.pop();
    }
    let ghost q = pieces.deep_view();
    let mut r: Vec<Vec<char>> = Vec::new();
    let mut i: usize = 0;
    while i < pieces.len()
        invariant
            i <= pieces@.len(),
            q == pieces.deep_view(),
            q.len() == pieces@.len(),
            r.deep_view() == q.subrange(0, i as int).map_values(
                |l: Seq<char>| strip_cr_spec(l),
            ),
        decreases pieces@.len() - i,
    {
        let piece = &pieces[i];
        let n = piece.len();
        let mut line: Vec<char> = Vec::new();
        let end = if n > 0 && piece[n - 1] == '\r' {
            n - 1
        } else {
            n
        };
        let mut k: usize = 0;
        while k < end
            invariant
                end <= piece@.len(),
                k <= end,
                line@ == piece@.subrange(0, k as int),
            decreases end - k,
        {
            line.push(piece[k]);
            k = k + 1;
            proof {
                assert(line@ =~= piece@.subrange(0, k as int));
            }
        }
        proof {
            assert(q[i as int] == pieces@[i as int]@);
            if n > 0 && piece@[n - 1] == '\r' {
                assert(line@ =~= strip_cr_spec(q[i as int]));
            } else {
                assert(piece@.subrange(0, n as int) =~= piece@);
                assert(line@ =~= strip_cr_spec(q[i as int]));
            }
        }
        proof {
            assert(line.deep_view() =~= line@);
        }
        let ghost old_dv = r.deep_view();
        r.push(line);
        i = i + 1;
        proof {
            assert(r.deep_view() =~~= old_dv.push(line@));
            assert(q.subrange(0, i as int) =~~= q.subrange(0, i - 1).push(q[i - 1]));
            assert(q.subrange(0, i as int).map_values(|l: Seq<char>| strip_cr_spec(l)) =~~= q
                .subrange(0, i - 1).map_values(|l: Seq<char>| strip_cr_spec(l)).push(
                strip_cr_spec(q[i - 1]),
            ));
            assert(r.deep_view() =~~= q.subrange(0, i as int).map_values(
                |l: Seq<char>| strip_cr_spec(l),
            ));
        }
    }
    proof {
        assert(q.subrange(0, q.len() as int) =~~= q);
        if s@.last() == '\n' {
            assert(q =~~= split_char_spec(s@, '\n').drop_last());
        } else {
            assert(q =~~= split_char_spec(s@, '\n'));
        }
        assert(r.deep_view() =~~= lines_spec(s@));
    }
    r
}

/// Appends all of `s` to `v`.
pub fn append_slice(v: &mut Vec<char>, s: &[char])
    ensures
        final(v)@ == old(v)@ + s@,
{
    let ghost v0 = old(v)@;
    let mut i: usize = 0;
    while i < s.len()
        invariant
            i <= s@.len(),
            v@ == v0 + s@.subrange(0, i as int),
        decreases s@.len() - i,
    {
        v.push(s[i]);
        i = i + 1;
        proof {
            assert(v@ =~= v0 + s@.subrange(0, i as int));
        }
    }
    proof {
        assert(v0 + s@.subrange(0, s@.len() as int) =~= v0 + s@);
    }
}

/// Appends the characters of a string slice to `v`.
pub fn append_str(v: &mut Vec<char>, s: &str)
    ensures
        final(v)@ == old(v)@ + s@,
{
    let ghost v0 = old(v)@;
    let n = s.unicode_len();
    let mut i: usize = 0;
    while i < n
        invariant
            n == s@.len(),
            i <= n,
            v@ == v0 + s@.subrange(0, i as int),
        decreases n - i,
    {
        v.push(s.get_char(i));
        i = i + 1;
        proof {
            assert(v@ =~= v0 + s@.subrange(0, i as int));
        }
    }
    proof {
        assert(v0 + s@.subrange(0, s@.len() as int) =~= v0 + s@);
    }
}

/// Does `a` start with prefix `p`?
pub fn starts_with(a: &[char], p: &[char]) -> (r: bool)
    ensures
        r == (a@.len() >= p@.len() && a@.subrange(0, p@.len() as int) == p@),
{
    if a.len() < p.len() {
        return false;
    }
    let mut i: usize = 0;
    while i < p.len()
        invariant
            p@.len() <= a@.len(),
            i <= p@.len(),
            forall|j: int| 0 <= j < i ==> a@[j] == p@[j],
        decreases p@.len() - i,
    {
        if a[i] != p[i] {
            proof {
                assert(a@.subrange(0, p@.len() as int)[i as int] == a@[i as int]);
            }
            return false;
        }
        i = i + 1;
    }
    proof {
        assert(a@.subrange(0, p@.len() as int) =~= p@);
    }
    true
}

} // verus!
