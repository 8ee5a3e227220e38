//! Verified helpers over strings: equality, case-insensitive comparison and
//! search, ASCII trimming, prefix tests, and decimal rendering of integers.
//! Contracts are stated over the character view (`Seq<char>`) of each string.

use vstd::prelude::*;

verus! {

/// ASCII lower-casing of one character; everything outside `A`..`Z` is kept.
pub open spec fn lower_char(c: char) -> char {
    if c == 'A' {
        'a'
    } else if c == 'B' {
        'b'
    } else if c == 'C' {
        'c'
    } else if c == 'D' {
        'd'
    } else if c == 'E' {
        'e'
    } else if c == 'F' {
        'f'
    } else if c == 'G' {
        'g'
    } else if c == 'H' {
        'h'
    } else if c == 'I' {
        'i'
    } else if c == 'J' {
        'j'
    } else if c == 'K' {
        'k'
    } else if c == 'L' {
        'l'
    } else if c == 'M' {
        'm'
    } else if c == 'N' {
        'n'
    } else if c == 'O' {
        'o'
    } else if c == 'P' {
        'p'
    } else if c == 'Q' {
        'q'
    } else if c == 'R' {
        'r'
    } else if c == 'S' {
        's'
    } else if c == 'T' {
        't'
    } else if c == 'U' {
        'u'
    } else if c == 'V' {
        'v'
    } else if c == 'W' {
        'w'
    } else if c == 'X' {
        'x'
    } else if c == 'Y' {
        'y'
    } else if c == 'Z' {
        'z'
    } else {
        c
    }
}

/// ASCII lower-casing of a character sequence.
pub open spec fn lower_chars(s: Seq<char>) -> Seq<char> {
    s.map_values(|c: char| lower_char(c))
}

/// Two strings are equal up to ASCII case.
pub open spec fn eq_ignore_case(a: Seq<char>, b: Seq<char>) -> bool {
    lower_chars(a) == lower_chars(b)
}

/// `needle` occurs in `hay`, comparing up to ASCII case.
pub open spec fn contains_ignore_case(hay: Seq<char>, needle: Seq<char>) -> bool {
    exists|i: int|
        0 <= i && i + needle.len() <= hay.len() && #[trigger] eq_ignore_case(
            hay.subrange(i, i + needle.len()),
            needle,
        )
}

/// The ASCII whitespace characters stripped by [`trim_ascii`].
pub open spec fn is_ws(c: char) -> bool {
    c == ' ' || c == '\t' || c == '\r' || c == '\n'
}

/// Leading-whitespace removal, defined one character at a time.
pub open spec fn trim_front(s: Seq<char>) -> Seq<char>
    decreases s.len(),
{
    if s.len() > 0 && is_ws(s[0]) {
        trim_front(s.drop_first())
    } else {
        s
    }
}

/// Trailing-whitespace removal, defined one character at a time.
pub open spec fn trim_back(s: Seq<char>) -> Seq<char>
    decreases s.len(),
{
    if s.len() > 0 && is_ws(s.last()) {
        trim_back(s.drop_last())
    } else {
        s
    }
}

/// Whitespace removal at both ends.
pub open spec fn trim_chars(s: Seq<char>) -> Seq<char> {
    trim_back(trim_front(s))
}

/// Exact string equality, decided character by character.
pub fn str_eq(a: &str, b: &str) -> (r: bool)
    ensures
        r == (a@ == b@),
{
    let oa = a.to_owned();
    let ob = b.to_owned();
    oa == ob
}

/// Lower-case one character (ASCII only), matching [`lower_char`].
pub fn lower_char_exec(c: char) -> (r: char)
    ensures
        r == lower_char(c),
{
    if c == 'A' {
        'a'
    } else if c == 'B' {
        'b'
    } else if c == 'C' {
        'c'
    } else if c == 'D' {
        'd'
    } else if c == 'E' {
        'e'
    } else if c == 'F' {
        'f'
    } else if c == 'G' {
        'g'
    } else if c == 'H' {
        'h'
    } else if c == 'I' {
        'i'
    } else if c == 'J' {
        'j'
    } else if c == 'K' {
        'k'
    } else if c == 'L' {
        'l'
    } else if c == 'M' {
        'm'
    } else if c == 'N' {
        'n'
    } else if c == 'O' {
        'o'
    } else if c == 'P' {
        'p'
    } else if c == 'Q' {
        'q'
    } else if c == 'R' {
        'r'
    } else if c == 'S' {
        's'
    } else if c == 'T' {
        't'
    } else if c == 'U' {
        'u'
    } else if c == 'V' {
        'v'
    } else if c == 'W' {
        'w'
    } else if c == 'X' {
        'x'
    } else if c == 'Y' {
        'y'
    } else if c == 'Z' {
        'z'
    } else {
        c
    }
}

/// Case-insensitive (ASCII) string equality.
pub fn str_eq_ignore_case(a: &str, b: &str) -> (r: bool)
    ensures
        r == eq_ignore_case(a@, b@),
{
    let na = a.unicode_len();
    let nb = b.unicode_len();
    if na != nb {
        assert(lower_chars(a@).len() != lower_chars(b@).len());
        return false;
    }
    let mut i: usize = 0;
    while i < na
        invariant
            na == a@.len(),
            nb == b@.len(),
            na == nb,
            i <= na,
            forall|j: int| 0 <= j < i ==> lower_char(a@[j]) == lower_char(b@[j]),
        decreases na - i,
    {
        let ca = a.get_char(i);
        let cb = b.get_char(i);
        if lower_char_exec(ca) != lower_char_exec(cb) {
            assert(lower_chars(a@)[i as int] != lower_chars(b@)[i as int]);
            return false;
        }
        i = i + 1;
    }
    assert(lower_chars(a@) =~= lower_chars(b@));
    true
}

/// Does `s` start with `prefix`, character for character?
pub fn str_starts_with(s: &str, prefix: &str) -> (r: bool)
    ensures
        r == (s@.len() >= prefix@.len() && s@.subrange(0, prefix@.len() as int) == prefix@),
{
    let n = s.unicode_len();
    let np = prefix.unicode_len();
    if n < np {
        return false;
    }
    let mut i: usize = 0;
    while i < np
        invariant
            n == s@.len(),
            np == prefix@.len(),
            np <= n,
            i <= np,
            forall|j: int| 0 <= j < i ==> s@[j] == prefix@[j],
        decreases np - i,
    {
        if s.get_char(i) != prefix.get_char(i) {
            assert(s@.subrange(0, prefix@.len() as int)[i as int] != prefix@[i as int]);
            return false;
        }
        i = i + 1;
    }
    assert(s@.subrange(0, prefix@.len() as int) =~= prefix@);
    true
}

/// Case-insensitive (ASCII) substring search.
pub fn str_contains_ignore_case(hay: &str, needle: &str) -> (r: bool)
    ensures
        r == contains_ignore_case(hay@, needle@),
{
    let n = hay.unicode_len();
    let m = needle.unicode_len();
    if m > n {
        return false;
    }
    if m == 0 {
        proof {
            let w: int = 0;
            assert(lower_chars(hay@.subrange(w, w + needle@.len())) =~= lower_chars(needle@));
            assert(eq_ignore_case(hay@.subrange(w, w + needle@.len()), needle@));
        }
        return true;
    }
    let mut i: usize = 0;
    while i <= n - m
        invariant
            n == hay@.len(),
            m == needle@.len(),
            1 <= m <= n,
            i <= n - m + 1,
            forall|k: int|
                0 <= k < i ==> !#[trigger] eq_ignore_case(
                    hay@.subrange(k, k + needle@.len()),
                    needle@,
                ),
        decreases n - m + 1 - i,
    {
        let mut j: usize = 0;
        let mut hit = true;
        while j < m
            invariant
                n == hay@.len(),
                m == needle@.len(),
                m <= n,
                i <= n - m,
                j <= m,
                hit ==> forall|l: int|
                    0 <= l < j ==> lower_char(hay@[i + l]) == lower_char(needle@[l]),
                !hit ==> !eq_ignore_case(hay@.subrange(i as int, i + needle@.len()), needle@),
            decreases m - j,
        {
            let ch = hay.get_char(i + j);
            let cn = needle.get_char(j);
            if lower_char_exec(ch) != lower_char_exec(cn) {
                proof {
                    let sub = hay@.subrange(i as int, i + needle@.len());
                    assert(lower_chars(sub)[j as int] == lower_char(hay@[i + j]));
                    assert(lower_chars(sub)[j as int] != lower_chars(needle@)[j as int]);
                }
                hit = false;
                j = m;
            } else {
                j = j + 1;
            }
        }
        if hit {
            proof {
                let sub = hay@.subrange(i as int, i + needle@.len());
                assert forall|l: int| 0 <= l < sub.len() implies lower_chars(sub)[l]
                    == lower_chars(needle@)[l] by {
                    assert(sub[l] == hay@[i + l]);
                }
                assert(lower_chars(sub) =~= lower_chars(needle@));
                assert(eq_ignore_case(hay@.subrange(i as int, i + needle@.len()), needle@));
            }
            return true;
        }
        i = i + 1;
    }
    assert forall|k: int| 0 <= k && k + needle@.len() <= hay@.len() implies !#[trigger] eq_ignore_case(
        hay@.subrange(k, k + needle@.len()),
        needle@,
    ) by {
        assert(k < i);
    }
    false
}

/// Strip ASCII whitespace from both ends, as [`trim_chars`] describes.
pub fn trim_ascii(s: &str) -> (r: &str)
    ensures
        r@ == trim_chars(s@),
{
    let n = s.unicode_len();
    proof {
        assert(s@.skip(0) =~= s@);
    }
    let mut start: usize = 0;
    while start < n && is_ws_exec(s.get_char(start))
        invariant
            n == s@.len(),
            start <= n,
            trim_front(s@) == trim_front(s@.skip(start as int)),
        decreases n - start,
    {
        proof {
            assert(s@.skip(start as int).drop_first() =~= s@.skip(start as int + 1));
        }
        start = start + 1;
    }
    proof {
        if start < n {
            assert(trim_front(s@.skip(start as int)) == s@.skip(start as int));
        } else {
            assert(s@.skip(start as int) =~= Seq::<char>::empty());
        }
    }
    let mut end: usize = n;
    while end > start && is_ws_exec(s.get_char(end - 1))
        invariant
            n == s@.len(),
            start <= end <= n,
            trim_front(s@) == s@.skip(start as int),
            trim_back(s@.skip(start as int)) == trim_back(
                s@.subrange(start as int, end as int),
            ),
        decreases end,
    {
        proof {
            assert(s@.subrange(start as int, end as int).drop_last() =~= s@.subrange(
                start as int,
                end as int - 1,
            ));
            assert(s@.subrange(start as int, end as int).last() == s@[end - 1]);
        }
        end = end - 1;
    }
    proof {
        let sub = s@.subrange(start as int, end as int);
        if end > start {
            assert(sub.last() == s@[end - 1]);
            assert(trim_back(sub) == sub);
        } else {
            assert(sub =~= Seq::<char>::empty());
        }
        assert(s@.skip(start as int) =~= s@.subrange(start as int, n as int));
    }
    s.substring_char(start, end)
}

/// Strip ASCII whitespace from the front only, as [`trim_front`] describes.
pub fn trim_ascii_front(s: &str) -> (r: &str)
    ensures
        r@ == trim_front(s@),
{
    let n = s.unicode_len();
    proof {
        assert(s@.skip(0) =~= s@);
    }
    let mut start: usize = 0;
    while start < n && is_ws_exec(s.get_char(start))
        invariant
            n == s@.len(),
            start <= n,
            trim_front(s@) == trim_front(s@.skip(start as int)),
        decreases n - start,
    {
        proof {
            assert(s@.skip(start as int).drop_first() =~= s@.skip(start as int + 1));
        }
        start = start + 1;
    }
    proof {
        if start < n {
            assert(trim_front(s@.skip(start as int)) == s@.skip(start as int));
        } else {
            assert(s@.skip(start as int) =~= Seq::<char>::empty());
        }
        assert(s@.skip(start as int) =~= s@.subrange(start as int, n as int));
    }
    s.substring_char(start, n)
}

/// Executable form of [`is_ws`].
pub fn is_ws_exec(c: char) -> (r: bool)
    ensures
        r == is_ws(c),
{
    c == ' ' || c == '\t' || c == '\r' || c == '\n'
}

/// The character for one decimal digit.
pub open spec fn digit_char(d: int) -> char {
    if d == 0 {
        '0'
    } else if d == 1 {
        '1'
    } else if d == 2 {
        '2'
    } else if d == 3 {
        '3'
    } else if d == 4 {
        '4'
    } else if d == 5 {
        '5'
    } else if d == 6 {
        '6'
    } else if d == 7 {
        '7'
    } else if d == 8 {
        '8'
    } else {
        '9'
    }
}

/// Decimal rendering of a natural number, most significant digit first.
pub open spec fn decimal_chars(n: int) -> Seq<char>
    decreases n,
{
    if n < 10 {
        seq![digit_char(n)]
    } else {
        decimal_chars(n / 10).push(digit_char(n % 10))
    }
}

/// One decimal digit as a string slice.
fn digit_str(d: u64) -> (r: &'static str)
    requires
        d < 10,
    ensures
        r@ =~= seq![digit_char(d as int)],
{
    proof {
        reveal_strlit("0");
        reveal_strlit("1");
        reveal_strlit("2");
        reveal_strlit("3");
        reveal_strlit("4");
        reveal_strlit("5");
        reveal_strlit("6");
        reveal_strlit("7");
        reveal_strlit("8");
        reveal_strlit("9");
    }
    if d == 0 {
        "0"
    } else if d == 1 {
        "1"
    } else if d == 2 {
        "2"
    } else if d == 3 {
        "3"
    } else if d == 4 {
        "4"
    } else if d == 5 {
        "5"
    } else if d == 6 {
        "6"
    } else if d == 7 {
        "7"
    } else if d == 8 {
        "8"
    } else {
        "9"
    }
}

/// Render `n` in decimal.
pub fn u64_to_string(n: u64) -> (r: String)
    ensures
        r@ == decimal_chars(n as int),
    decreases n,
{
    if n < 10 {
        String::from_str(digit_str(n))
    } else {
        let prefix = u64_to_string(n / 10);
        prefix.concat(digit_str(n % 10))
    }
}

} // verus!
