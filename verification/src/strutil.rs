//! Verified string utilities: the lexicographic order the registry sorts by,
//! substring search and replacement for command templating, joining, decimal
//! formatting for the archive-naming protocol, and the parsing helpers the
//! restore workflow needs.

use vstd::prelude::*;

verus! {

/// Strict lexicographic order on character sequences, by code point.
pub open spec fn lex_lt(a: Seq<char>, b: Seq<char>) -> bool
    decreases a.len(),
{
    if b.len() == 0 {
        false
    } else if a.len() == 0 {
        true
    } else if a[0] != b[0] {
        (a[0] as int) < (b[0] as int)
    } else {
        lex_lt(a.skip(1), b.skip(1))
    }
}

/// Of two distinct character sequences, exactly one precedes the other.
pub proof fn lemma_lex_lt_trichotomy(a: Seq<char>, b: Seq<char>)
    ensures
        lex_lt(a, b) || lex_lt(b, a) || a =~= b,
        lex_lt(a, b) ==> !lex_lt(b, a) && !(a =~= b),
        lex_lt(b, a) ==> !lex_lt(a, b) && !(a =~= b),
    decreases a.len(),
{
    if a.len() == 0 || b.len() == 0 {
    } else if a[0] != b[0] {
        assert((a[0] as int) != (b[0] as int));
    } else {
        lemma_lex_lt_trichotomy(a.skip(1), b.skip(1));
        if a.skip(1) =~= b.skip(1) {
            assert forall|i: int| 0 <= i < a.len() implies a[i] == b[i] by {
                if i >= 1 {
                    assert(a[i] == a.skip(1)[i - 1]);
                    assert(b[i] == b.skip(1)[i - 1]);
                }
            }
            assert(a =~= b);
        }
    }
}

/// Lexicographic order is transitive.
pub proof fn lemma_lex_lt_transitive(a: Seq<char>, b: Seq<char>, c: Seq<char>)
    requires
        lex_lt(a, b),
        lex_lt(b, c),
    ensures
        lex_lt(a, c),
    decreases a.len(),
{
    if a.len() == 0 || b.len() == 0 || c.len() == 0 {
    } else if a[0] == b[0] && b[0] == c[0] {
        lemma_lex_lt_transitive(a.skip(1), b.skip(1), c.skip(1));
    }
}

/// Compares two strings in lexicographic order by character code point.
pub fn str_lt(a: &str, b: &str) -> (r: bool)
    ensures
        r == lex_lt(a@, b@),
{
    let alen = a.unicode_len();
    let blen = b.unicode_len();
    let mut i: usize = 0;
    proof {
        assert(a@.skip(0) =~= a@);
        assert(b@.skip(0) =~= b@);
    }
    loop
        invariant
            i <= alen,
            i <= blen,
            alen == a@.len(),
            blen == b@.len(),
            a@.subrange(0, i as int) =~= b@.subrange(0, i as int),
            lex_lt(a@, b@) == lex_lt(a@.skip(i as int), b@.skip(i as int)),
        decreases alen - i,
    {
        if i >= alen || i >= blen {
            proof {
                assert(a@.skip(i as int).len() == 0 || b@.skip(i as int).len() == 0);
            }
            return alen < blen;
        }
        let ca = a.get_char(i);
        let cb = b.get_char(i);
        if ca != cb {
            proof {
                assert(a@.skip(i as int)[0] == ca);
                assert(b@.skip(i as int)[0] == cb);
            }
            return (ca as u32) < (cb as u32);
        }
        proof {
            assert(a@.skip(i as int).skip(1) =~= a@.skip(i as int + 1));
            assert(b@.skip(i as int).skip(1) =~= b@.skip(i as int + 1));
            assert(a@.subrange(0, i as int + 1) =~= b@.subrange(0, i as int + 1));
        }
        i = i + 1;
    }
}

/// Holds when `pat` occurs in `s` at position `i`.
pub open spec fn contains_at(s: Seq<char>, i: int, pat: Seq<char>) -> bool {
    0 <= i && i + pat.len() <= s.len() && s.subrange(i, i + pat.len() as int) == pat
}

/// The position of the first occurrence of `pat` in `s`, if any.
pub open spec fn spec_find(s: Seq<char>, pat: Seq<char>) -> Option<int>
    decreases s.len(),
{
    if pat.len() == 0 {
        Some(0int)
    } else if s.len() < pat.len() {
        None
    } else if s.subrange(0, pat.len() as int) == pat {
        Some(0int)
    } else {
        match spec_find(s.skip(1), pat) {
            Some(i) => Some(i + 1),
            None => None,
        }
    }
}

/// A found position is a real occurrence, and the first one.
pub proof fn lemma_find_some(s: Seq<char>, pat: Seq<char>)
    ensures
        match spec_find(s, pat) {
            Some(i) => contains_at(s, i, pat) && forall|j: int| 0 <= j < i ==> !contains_at(s, j, pat),
            None => forall|j: int| !contains_at(s, j, pat),
        },
    decreases s.len(),
{
    if pat.len() == 0 {
        assert(contains_at(s, 0, pat)) by {
            assert(s.subrange(0, 0) =~= pat);
        }
    } else if s.len() < pat.len() {
        assert forall|j: int| !contains_at(s, j, pat) by {}
    } else if s.subrange(0, pat.len() as int) == pat {
    } else {
        lemma_find_some(s.skip(1), pat);
        assert forall|j: int| 1 <= j && j + pat.len() <= s.len() implies (contains_at(s, j, pat)
            <==> contains_at(s.skip(1), j - 1, pat)) by {
            assert(s.subrange(j, j + pat.len() as int) =~= s.skip(1).subrange(
                j - 1,
                j - 1 + pat.len() as int,
            ));
        }
        match spec_find(s.skip(1), pat) {
            Some(i) => {
                assert(contains_at(s, i + 1, pat));
                assert forall|j: int| 0 <= j < i + 1 implies !contains_at(s, j, pat) by {
                    if j == 0 {
                        assert(s.subrange(0, pat.len() as int) != pat);
                    }
                }
            },
            None => {
                assert forall|j: int| !contains_at(s, j, pat) by {
                    if j == 0 {
                        assert(s.subrange(0, pat.len() as int) != pat);
                    }
                }
            },
        }
    }
}

/// `s` with every occurrence of `pat` replaced by `rep`, scanning left to
/// right without re-examining replaced text; the identity when `pat` is empty.
pub open spec fn spec_replace_all(s: Seq<char>, pat: Seq<char>, rep: Seq<char>) -> Seq<char>
    decreases s.len(),
{
    if pat.len() == 0 || s.len() < pat.len() {
        s
    } else if s.subrange(0, pat.len() as int) == pat {
        rep + spec_replace_all(s.skip(pat.len() as int), pat, rep)
    } else {
        seq![s[0]] + spec_replace_all(s.skip(1), pat, rep)
    }
}

/// `s` with the first occurrence of `pat` (if any) replaced by `rep`.
pub open spec fn spec_replace_first(s: Seq<char>, pat: Seq<char>, rep: Seq<char>) -> Seq<char> {
    match spec_find(s, pat) {
        Some(i) => s.subrange(0, i) + rep + s.skip(i + pat.len() as int),
        None => s,
    }
}

/// Tests whether `pat` occurs in `s` at position `i`.
pub fn matches_at(s: &str, i: usize, pat: &str, plen: usize) -> (r: bool)
    requires
        plen == pat@.len(),
        i + plen <= s@.len(),
        s@.len() <= usize::MAX,
    ensures
        r == contains_at(s@, i as int, pat@),
{
    let mut j: usize = 0;
    while j < plen
        invariant
            j <= plen,
            plen == pat@.len(),
            i + plen <= s@.len(),
            s@.len() <= usize::MAX,
            s@.subrange(i as int, i as int + j as int) =~= pat@.subrange(0, j as int),
        decreases plen - j,
    {
        if s.get_char(i + j) != pat.get_char(j) {
            proof {
                assert(s@.subrange(i as int, i as int + plen as int)[j as int] == s@[i + j]);
                assert(pat@[j as int] != s@[i + j]);
            }
            return false;
        }
        proof {
            assert(s@.subrange(i as int, i as int + j as int + 1) =~= pat@.subrange(
                0,
                j as int + 1,
            ));
        }
        j = j + 1;
    }
    proof {
        assert(pat@.subrange(0, plen as int) =~= pat@);
        assert(s@.subrange(i as int, i as int + plen as int) =~= pat@);
    }
    true
}

/// The position of the first occurrence of `pat` in `s`, if any.
pub fn find_str(s: &str, pat: &str) -> (r: Option<usize>)
    ensures
        match r {
            Some(i) => spec_find(s@, pat@) == Some(i as int),
            None => spec_find(s@, pat@) is None,
        },
{
    let slen = s.unicode_len();
    let plen = pat.unicode_len();
    if plen == 0 {
        proof {
            assert(s@.subrange(0, 0) =~= pat@);
        }
        return Some(0);
    }
    if plen > slen {
        return None;
    }
    let mut i: usize = 0;
    proof {
        assert(s@.skip(0) =~= s@);
    }
    while i <= slen - plen
        invariant
            slen == s@.len(),
            plen == pat@.len(),
            0 < plen <= slen,
            i <= slen,
            spec_find(s@, pat@) == match spec_find(s@.skip(i as int), pat@) {
                Some(k) => Some(i + k),
                None => None::<int>,
            },
        decreases slen - i,
    {
        let m = matches_at(s, i, pat, plen);
        proof {
            assert(s@.skip(i as int).subrange(0, plen as int) =~= s@.subrange(
                i as int,
                i as int + plen as int,
            ));
        }
        if m {
            return Some(i);
        }
        proof {
            assert(s@.skip(i as int).skip(1) =~= s@.skip(i as int + 1));
        }
        i = i + 1;
    }
    proof {
        assert(s@.skip(i as int).len() < plen);
    }
    None
}

/// `s` with every occurrence of `pat` replaced by `rep`; returns `s`
/// unchanged when `pat` is empty.
pub fn replace_all(s: &str, pat: &str, rep: &str) -> (r: String)
    ensures
        r@ == spec_replace_all(s@, pat@, rep@),
{
    let slen = s.unicode_len();
    let plen = pat.unicode_len();
    if plen == 0 {
        return s.to_owned();
    }
    let mut out = String::new();
    let mut i: usize = 0;
    proof {
        assert(s@.skip(0) =~= s@);
        assert(out@ + spec_replace_all(s@, pat@, rep@) =~= spec_replace_all(s@, pat@, rep@));
    }
    while i < slen
        invariant
            slen == s@.len(),
            plen == pat@.len(),
            plen > 0,
            i <= slen,
            out@ + spec_replace_all(s@.skip(i as int), pat@, rep@) == spec_replace_all(
                s@,
                pat@,
                rep@,
            ),
        decreases slen - i,
    {
        proof {
            assert(s@.skip(i as int).skip(1) =~= s@.skip(i as int + 1));
        }
        if plen <= slen - i && matches_at(s, i, pat, plen) {
            proof {
                assert(s@.skip(i as int).subrange(0, plen as int) =~= s@.subrange(
                    i as int,
                    i as int + plen as int,
                ));
                assert(s@.skip(i as int).skip(plen as int) =~= s@.skip(i as int + plen as int));
                assert((out@ + rep@) + spec_replace_all(
                    s@.skip(i as int + plen as int),
                    pat@,
                    rep@,
                ) =~= out@ + (rep@ + spec_replace_all(s@.skip(i as int + plen as int), pat@, rep@)));
            }
            out.append(rep);
            i = i + plen;
        } else {
            proof {
                if i + plen <= slen {
                    assert(s@.skip(i as int).subrange(0, plen as int) =~= s@.subrange(
                        i as int,
                        i as int + plen as int,
                    ));
                } else {
                    assert(s@.skip(i as int).len() < plen);
                }
                assert(s@.subrange(i as int, i as int + 1) =~= seq![s@[i as int]]);
                assert((out@ + seq![s@[i as int]]) + spec_replace_all(
                    s@.skip(i as int + 1),
                    pat@,
                    rep@,
                ) =~= out@ + (seq![s@[i as int]] + spec_replace_all(
                    s@.skip(i as int + 1),
                    pat@,
                    rep@,
                )));
            }
            let c = s.substring_char(i, i + 1);
            out.append(c);
            i = i + 1;
        }
    }
    proof {
        assert(s@.skip(slen as int).len() == 0);
        assert(out@ + spec_replace_all(s@.skip(slen as int), pat@, rep@) =~= out@);
    }
    out
}

/// `s` with the first occurrence of `pat` (if any) replaced by `rep`.
pub fn replace_first(s: &str, pat: &str, rep: &str) -> (r: String)
    ensures
        r@ == spec_replace_first(s@, pat@, rep@),
{
    let slen = s.unicode_len();
    let plen = pat.unicode_len();
    match find_str(s, pat) {
        None => s.to_owned(),
        Some(i) => {
            proof {
                lemma_find_some(s@, pat@);
            }
            let mut out = s.substring_char(0, i).to_owned();
            out.append(rep);
            out.append(s.substring_char(i + plen, slen));
            proof {
                assert(s@.subrange(i as int + plen as int, slen as int) =~= s@.skip(
                    i as int + plen as int,
                ));
            }
            out
        },
    }
}

/// Compares two strings for character-for-character equality.
pub fn str_eq(a: &str, b: &str) -> (r: bool)
    ensures
        r == (a@ == b@),
{
    let alen = a.unicode_len();
    let blen = b.unicode_len();
    if alen != blen {
        return false;
    }
    let mut i: usize = 0;
    while i < alen
        invariant
            alen == a@.len(),
            alen == b@.len(),
            i <= alen,
            forall|j: int| 0 <= j < i ==> a@[j] == b@[j],
        decreases alen - i,
    {
        if a.get_char(i) != b.get_char(i) {
            return false;
        }
        i = i + 1;
    }
    proof {
        assert(a@ =~= b@);
    }
    true
}

/// Copies a vector of strings, value for value.
pub fn clone_strings(v: &Vec<String>) -> (r: Vec<String>)
    ensures
        r@ == v@,
{
    let mut out: Vec<String> = Vec::new();
    let mut i: usize = 0;
    while i < v.len()
        invariant
            i <= v@.len(),
            out@ == v@.subrange(0, i as int),
        decreases v@.len() - i,
    {
        out.push(v[i].clone());
        proof {
            assert(out@ =~= v@.subrange(0, i as int + 1));
        }
        i = i + 1;
    }
    proof {
        assert(v@.subrange(0, v@.len() as int) =~= v@);
    }
    out
}

/// `pat` occurs somewhere in `s`.
pub open spec fn has_sub(s: Seq<char>, pat: Seq<char>) -> bool {
    exists|i: int| contains_at(s, i, pat)
}

/// `s` begins with `pat`.
pub open spec fn spec_starts_with(s: Seq<char>, pat: Seq<char>) -> bool {
    contains_at(s, 0, pat)
}

/// `s` ends with `pat`.
pub open spec fn spec_ends_with(s: Seq<char>, pat: Seq<char>) -> bool {
    pat.len() <= s.len() && contains_at(s, s.len() - pat.len(), pat)
}

/// Whether `pat` occurs anywhere in `s`.
pub fn contains_sub(s: &str, pat: &str) -> (r: bool)
    ensures
        r == has_sub(s@, pat@),
{
    proof {
        lemma_find_some(s@, pat@);
    }
    match find_str(s, pat) {
        Some(_) => true,
        None => false,
    }
}

/// Whether `s` begins with `pat`.
pub fn starts_with_pat(s: &str, pat: &str) -> (r: bool)
    ensures
        r == spec_starts_with(s@, pat@),
{
    let slen = s.unicode_len();
    let plen = pat.unicode_len();
    if plen > slen {
        return false;
    }
    matches_at(s, 0, pat, plen)
}

/// Whether `s` ends with `pat`.
pub fn ends_with_pat(s: &str, pat: &str) -> (r: bool)
    ensures
        r == spec_ends_with(s@, pat@),
{
    let slen = s.unicode_len();
    let plen = pat.unicode_len();
    if plen > slen {
        return false;
    }
    matches_at(s, slen - plen, pat, plen)
}

/// The views of a sequence of strings.
pub open spec fn views(parts: Seq<String>) -> Seq<Seq<char>> {
    parts.map_values(|p: String| p@)
}

/// The parts joined with `sep` between consecutive parts.
pub open spec fn spec_join(parts: Seq<Seq<char>>, sep: Seq<char>) -> Seq<char>
    decreases parts.len(),
{
    if parts.len() == 0 {
        Seq::empty()
    } else if parts.len() == 1 {
        parts[0]
    } else {
        parts[0] + sep + spec_join(parts.skip(1), sep)
    }
}

/// Joining one more part appends a separator and the part.
pub proof fn lemma_join_push(parts: Seq<Seq<char>>, sep: Seq<char>, last: Seq<char>)
    ensures
        spec_join(parts.push(last), sep) == if parts.len() == 0 {
            last
        } else {
            spec_join(parts, sep) + sep + last
        },
    decreases parts.len(),
{
    if parts.len() == 0 {
        assert(spec_join(parts.push(last), sep) == last);
    } else if parts.len() == 1 {
        assert(parts.push(last).skip(1) =~= seq![last]);
        assert(spec_join(seq![last], sep) == last);
        assert(spec_join(parts.push(last), sep) == parts[0] + sep + last);
    } else {
        assert(parts.push(last).skip(1) =~= parts.skip(1).push(last));
        lemma_join_push(parts.skip(1), sep, last);
        assert(parts[0] + sep + (spec_join(parts.skip(1), sep) + sep + last) =~= (parts[0] + sep
            + spec_join(parts.skip(1), sep)) + sep + last);
    }
}

/// Joins the parts with `sep` between consecutive parts.
pub fn join_all(parts: &Vec<String>, sep: &str) -> (r: String)
    ensures
        r@ == spec_join(views(parts@), sep@),
{
    let mut out = String::new();
    if parts.len() == 0 {
        return out;
    }
    out.append(parts[0].as_str());
    proof {
        assert(out@ =~= views(parts@)[0]);
        assert(views(parts@).take(1) =~= seq![views(parts@)[0]]);
    }
    let mut i: usize = 1;
    while i < parts.len()
        invariant
            1 <= i <= parts@.len(),
            out@ == spec_join(views(parts@).take(i as int), sep@),
        decreases parts@.len() - i,
    {
        out.append(sep);
        out.append(parts[i].as_str());
        proof {
            assert(views(parts@).take(i as int + 1) =~= views(parts@).take(i as int).push(
                parts@[i as int]@,
            ));
            lemma_join_push(views(parts@).take(i as int), sep@, parts@[i as int]@);
        }
        i = i + 1;
    }
    proof {
        assert(views(parts@).take(parts@.len() as int) =~= views(parts@));
    }
    out
}

/// The decimal digit character for `d`.
pub open spec fn digit_char(d: nat) -> char {
    if d == 0 {
        '0'
    } else if d == 1 {
        '1'
    } else if d == 2 {
        '2'
    } else if d == 3 {
        '3'
    } else if d == 4 {
        '4'
    } else if d == 5 {
        '5'
    } else if d == 6 {
        '6'
    } else if d == 7 {
        '7'
    } else if d == 8 {
        '8'
    } else {
        '9'
    }
}

/// The decimal representation of `n`, most significant digit first, with no
/// leading zeros.
pub open spec fn spec_decimal(n: nat) -> Seq<char>
    decreases n,
{
    if n < 10 {
        seq![digit_char(n)]
    } else {
        spec_decimal(n / 10).push(digit_char(n % 10))
    }
}

/// `n` in decimal, left-padded with zeros to at least three digits.
pub open spec fn spec_pad3(n: nat) -> Seq<char> {
    if n < 10 {
        seq!['0', '0'] + spec_decimal(n)
    } else if n < 100 {
        seq!['0'] + spec_decimal(n)
    } else {
        spec_decimal(n)
    }
}

fn digit_str(d: usize) -> (r: &'static str)
    requires
        d < 10,
    ensures
        r@ == seq![digit_char(d as nat)],
{
    proof {
        reveal_strlit("0");
        reveal_strlit("1");
        reveal_strlit("2");
        reveal_strlit("3");
        reveal_strlit("4");
        reveal_strlit("5");
        reveal_strlit("6");
        reveal_strlit("7");
        reveal_strlit("8");
        reveal_strlit("9");
    }
    let r = match d {
        0 => "0",
        1 => "1",
        2 => "2",
        3 => "3",
        4 => "4",
        5 => "5",
        6 => "6",
        7 => "7",
        8 => "8",
        _ => "9",
    };
    proof {
        assert(r@ =~= seq![digit_char(d as nat)]);
    }
    r
}

/// `n` in decimal, no padding.
pub fn usize_to_decimal(n: usize) -> (r: String)
    ensures
        r@ == spec_decimal(n as nat),
    decreases n,
{
    if n < 10 {
        digit_str(n).to_owned()
    } else {
        let mut s = usize_to_decimal(n / 10);
        s.append(digit_str(n % 10));
        proof {
            assert(spec_decimal((n as nat) / 10) + seq![digit_char((n as nat) % 10)]
                =~= spec_decimal((n as nat) / 10).push(digit_char((n as nat) % 10)));
        }
        s
    }
}

/// `n` in decimal, zero-padded to at least three digits.
pub fn zero_pad3(n: usize) -> (r: String)
    ensures
        r@ == spec_pad3(n as nat),
{
    let d = usize_to_decimal(n);
    if n < 10 {
        let mut s = ("00").to_owned();
        s.append(d.as_str());
        proof {
            reveal_strlit("00");
            assert(("00")@ =~= seq!['0', '0']);
        }
        s
    } else if n < 100 {
        let mut s = ("0").to_owned();
        s.append(d.as_str());
        proof {
            reveal_strlit("0");
            assert(("0")@ =~= seq!['0']);
        }
        s
    } else {
        d
    }
}

/// An ASCII decimal digit.
pub open spec fn is_digit(c: char) -> bool {
    ('0' as int) <= (c as int) <= ('9' as int)
}

/// `s` with its longest suffix of non-digit characters removed.
pub open spec fn spec_trim_end_non_digits(s: Seq<char>) -> Seq<char>
    decreases s.len(),
{
    if s.len() == 0 {
        s
    } else if !is_digit(s.last()) {
        spec_trim_end_non_digits(s.drop_last())
    } else {
        s
    }
}

/// Removes the longest suffix of non-digit characters from `s`.
pub fn trim_end_non_digits(s: &str) -> (r: String)
    ensures
        r@ == spec_trim_end_non_digits(s@),
{
    let slen = s.unicode_len();
    let mut k: usize = slen;
    proof {
        assert(s@.subrange(0, slen as int) =~= s@);
    }
    loop
        invariant
            k <= slen,
            slen == s@.len(),
            spec_trim_end_non_digits(s@) == spec_trim_end_non_digits(s@.subrange(0, k as int)),
        ensures
            k <= slen,
            spec_trim_end_non_digits(s@) == spec_trim_end_non_digits(s@.subrange(0, k as int)),
            k == 0 || is_digit(s@[k as int - 1]),
        decreases k,
    {
        if k == 0 {
            break;
        }
        let c = s.get_char(k - 1);
        if (c as u32) >= ('0' as u32) && (c as u32) <= ('9' as u32) {
            break;
        }
        proof {
            assert(s@.subrange(0, k as int).last() == s@[k as int - 1]);
            assert(s@.subrange(0, k as int).drop_last() =~= s@.subrange(0, k as int - 1));
        }
        k = k - 1;
    }
    proof {
        if k > 0 {
            assert(is_digit(s@.subrange(0, k as int).last()));
        }
    }
    s.substring_char(0, k).to_owned()
}

/// The text between the first `-` in `s` and the next `-` or the end of `s`;
/// nothing when `s` holds no `-`.
pub open spec fn spec_second_component(s: Seq<char>) -> Option<Seq<char>> {
    match spec_find(s, seq!['-']) {
        None => None,
        Some(i) => {
            let rest = s.skip(i + 1);
            match spec_find(rest, seq!['-']) {
                None => Some(rest),
                Some(j) => Some(rest.subrange(0, j)),
            }
        },
    }
}

/// Extracts the second `-`-separated component of `s`, if `s` has one.
pub fn second_component(s: &str) -> (r: Option<String>)
    ensures
        match r {
            Some(c) => spec_second_component(s@) == Some(c@),
            None => spec_second_component(s@) is None,
        },
{
    proof {
        reveal_strlit("-");
        assert(("-")@ =~= seq!['-']);
    }
    let slen = s.unicode_len();
    match find_str(s, "-") {
        None => None,
        Some(i) => {
            proof {
                lemma_find_some(s@, seq!['-']);
            }
            let rest = s.substring_char(i + 1, slen);
            proof {
                assert(rest@ =~= s@.skip(i as int + 1));
            }
            match find_str(rest, "-") {
                None => Some(rest.to_owned()),
                Some(j) => {
                    proof {
                        lemma_find_some(rest@, seq!['-']);
                    }
                    Some(rest.substring_char(0, j).to_owned())
                },
            }
        },
    }
}

} // verus!
