//! Character-level helpers shared by the formatting and parsing code.

use vstd::prelude::*;

verus! {

/// The ASCII digit for `d` (for `d < 10`).
pub open spec fn digit_char(d: nat) -> char {
    if d == 0 {
        '0'
    } else if d == 1 {
        '1'
    } else if d == 2 {
        '2'
    } else if d == 3 {
        '3'
    } else if d == 4 {
        '4'
    } else if d == 5 {
        '5'
    } else if d == 6 {
        '6'
    } else if d == 7 {
        '7'
    } else if d == 8 {
        '8'
    } else {
        '9'
    }
}

/// The decimal representation of `n`, without sign or leading zeros.
pub open spec fn decimal(n: nat) -> Seq<char>
    decreases n,
{
    if n < 10 {
        seq![digit_char(n)]
    } else {
        decimal(n / 10).push(digit_char(n % 10))
    }
}

fn digit(d: u128) -> (c: char)
    requires
        d < 10,
    ensures
        c == digit_char(d as nat),
{
    if d == 0 {
        '0'
    } else if d == 1 {
        '1'
    } else if d == 2 {
        '2'
    } else if d == 3 {
        '3'
    } else if d == 4 {
        '4'
    } else if d == 5 {
        '5'
    } else if d == 6 {
        '6'
    } else if d == 7 {
        '7'
    } else if d == 8 {
        '8'
    } else {
        '9'
    }
}

/// Appends the decimal representation of `n` to `out`.
pub fn push_decimal(out: &mut Vec<char>, n: u128)
    ensures
        final(out)@ == old(out)@ + decimal(n as nat),
    decreases n,
{
    if n >= 10 {
        push_decimal(out, n / 10);
    }
    out.push(digit(n % 10));
}

} // verus!

verus! {

/// The characters of `s`, in order.
pub fn chars_of(s: &str) -> (v: Vec<char>)
    ensures
        v@ == s@,
{
    broadcast use vstd::string::group_string_axioms;

    let mut v: Vec<char> = Vec::new();
    for c in it: s.chars()
        invariant
            v@ == it.seq().take(it.index() as int),
    {
        v.push(c);
    }
    v
}

} // verus!

verus! {

/// `String::push`: appends one character.
#[verifier::external_body]
fn string_push(s: &mut String, c: char)
    ensures
        final(s)@ == old(s)@.push(c),
{
    s.push(c);
}

/// The string made of `v[from..to]`.
pub fn string_from_range(v: &Vec<char>, from: usize, to: usize) -> (s: String)
    requires
        from <= to <= v@.len(),
    ensures
        s@ == v@.subrange(from as int, to as int),
{
    let mut s = String::new();
    let mut i = from;
    while i < to
        invariant
            from <= i <= to <= v@.len(),
            s@ == v@.subrange(from as int, i as int),
        decreases to - i,
    {
        string_push(&mut s, v[i]);
        assert(v@.subrange(from as int, i + 1) =~= v@.subrange(from as int, i as int).push(v@[i as int]));
        i = i + 1;
    }
    s
}

/// The string made of all of `v`.
pub fn string_from_chars(v: &Vec<char>) -> (s: String)
    ensures
        s@ == v@,
{
    let s = string_from_range(v, 0, v.len());
    assert(v@.subrange(0, v@.len() as int) =~= v@);
    s
}

/// Appends the characters of `s` to `out`.
pub fn push_str(out: &mut Vec<char>, s: &str)
    ensures
        final(out)@ == old(out)@ + s@,
{
    let mut cs = chars_of(s);
    out.append(&mut cs);
}

/// The first position of `c` in `s`.
pub open spec fn first_index_of(s: Seq<char>, c: char) -> Option<int> {
    if exists|i: int| 0 <= i < s.len() && s[i] == c {
        Some(choose|i: int| 0 <= i < s.len() && s[i] == c && forall|j: int| 0 <= j < i ==> s[j] != c)
    } else {
        None
    }
}

/// The first position of `c` in `v`.
pub fn find_char(v: &Vec<char>, c: char) -> (r: Option<usize>)
    ensures
        r matches Some(i) ==> i < v@.len() && v@[i as int] == c && first_index_of(v@, c) == Some(i as int),
        r is None ==> first_index_of(v@, c) is None,
{
    let mut i: usize = 0;
    while i < v.len()
        invariant
            i <= v@.len(),
            forall|j: int| 0 <= j < i ==> v@[j] != c,
        decreases v@.len() - i,
    {
        if v[i] == c {
            let ghost k = choose|k: int| 0 <= k < v@.len() && v@[k] == c && forall|j: int| 0 <= j < k ==> v@[j] != c;
            assert(0 <= i < v@.len() && v@[i as int] == c && forall|j: int| 0 <= j < i ==> v@[j] != c);
            assert(k == i as int) by {
                if k < i {
                    assert(v@[k] != c);
                } else if k > i {
                    assert(v@[i as int] != c);
                }
            }
            return Some(i);
        }
        i = i + 1;
    }
    None
}

/// Whether `needle` occurs as a contiguous part of `hay`.
pub open spec fn contains_seq(hay: Seq<char>, needle: Seq<char>) -> bool {
    exists|i: int| 0 <= i && i + needle.len() <= hay.len() && #[trigger] hay.subrange(i, i + needle.len()) == needle
}

/// Whether `needle` occurs in `hay` at position `at`.
pub(crate) fn occurs_at(hay: &Vec<char>, needle: &Vec<char>, at: usize) -> (b: bool)
    requires
        at + needle@.len() <= hay@.len(),
    ensures
        b == (hay@.subrange(at as int, at + needle@.len()) == needle@),
{
    let n = hay.len();
    let mut k: usize = 0;
    while k < needle.len()
        invariant
            n == hay@.len(),
            at + needle@.len() <= hay@.len(),
            k <= needle@.len(),
            forall|j: int| 0 <= j < k ==> hay@[at + j] == needle@[j],
        decreases needle@.len() - k,
    {
        if hay[at + k] != needle[k] {
            assert(hay@.subrange(at as int, at + needle@.len())[k as int] != needle@[k as int]);
            return false;
        }
        k = k + 1;
    }
    assert(hay@.subrange(at as int, at + needle@.len()) =~= needle@);
    true
}

/// Whether `needle` occurs as a contiguous part of `hay`.
pub fn contains_chars(hay: &Vec<char>, needle: &Vec<char>) -> (b: bool)
    ensures
        b == contains_seq(hay@, needle@),
{
    if needle.len() > hay.len() {
        return false;
    }
    let last = hay.len() - needle.len();
    let mut i: usize = 0;
    loop
        invariant
            last + needle@.len() == hay@.len(),
            i <= last,
            forall|j: int| 0 <= j < i ==> #[trigger] hay@.subrange(j, j + needle@.len()) != needle@,
        decreases last - i,
    {
        if occurs_at(hay, needle, i) {
            return true;
        }
        if i == last {
            return false;
        }
        i = i + 1;
    }
}

/// Every character is ASCII.
pub open spec fn is_ascii_text(s: Seq<char>) -> bool {
    forall|i: int| 0 <= i < s.len() ==> (#[trigger] s[i] as u32) < 128
}

/// An ASCII upper-case letter made lower-case; any other character unchanged.
pub open spec fn ascii_lower_char(c: char) -> char {
    if 'A' <= c <= 'Z' {
        ((c as u32) + 32) as char
    } else {
        c
    }
}

/// An ASCII lower-case letter made upper-case; any other character unchanged.
pub open spec fn ascii_upper_char(c: char) -> char {
    if 'a' <= c <= 'z' {
        ((c as u32) - 32) as char
    } else {
        c
    }
}

/// `s` with its ASCII letters made lower-case.
pub open spec fn ascii_lower(s: Seq<char>) -> Seq<char> {
    s.map_values(|c: char| ascii_lower_char(c))
}

/// `s` with its ASCII letters made upper-case (`str::to_ascii_uppercase`).
pub open spec fn ascii_upper(s: Seq<char>) -> Seq<char> {
    s.map_values(|c: char| ascii_upper_char(c))
}

/// What `str::to_lowercase` yields for a text that is not all ASCII (the
/// Unicode lowercase mapping).
pub uninterp spec fn lowercase(s: Seq<char>) -> Seq<char>;

/// What `str::to_lowercase` yields: for an ASCII text, its letters made
/// lower-case; for any other text, the Unicode mapping `lowercase`.
pub open spec fn lower_text(s: Seq<char>) -> Seq<char> {
    if is_ascii_text(s) {
        ascii_lower(s)
    } else {
        lowercase(s)
    }
}

/// `str::to_lowercase`. On an ASCII text it maps `A`-`Z` to `a`-`z` and keeps
/// every other character, as the Unicode mapping does there; on any other text
/// its result is a function of the text alone, named `lowercase`, whose
/// Unicode tables are not restated.
#[verifier::external_body]
pub(crate) fn to_lowercase(s: &str) -> (r: String)
    ensures
        r@ == (if is_ascii_text(s@) {
            ascii_lower(s@)
        } else {
            lowercase(s@)
        }),
{
    s.to_lowercase()
}

/// The characters with the Unicode White_Space property: U+0009 to U+000D,
/// U+0020, U+0085, U+00A0, U+1680, U+2000 to U+200A, U+2028, U+2029, U+202F,
/// U+205F and U+3000.
pub open spec fn white_space(c: char) -> bool {
    let n = c as u32;
    (0x9 <= n <= 0xd) || n == 0x20 || n == 0x85 || n == 0xa0 || n == 0x1680 || (0x2000 <= n <= 0x200a) || n
        == 0x2028 || n == 0x2029 || n == 0x202f || n == 0x205f || n == 0x3000
}

/// Whether `c` is white space (`char::is_whitespace`: the Unicode White_Space
/// property).
pub(crate) fn is_whitespace(c: char) -> (b: bool)
    ensures
        b == white_space(c),
{
    let n = c as u32;
    (0x9 <= n && n <= 0xd) || n == 0x20 || n == 0x85 || n == 0xa0 || n == 0x1680 || (0x2000 <= n && n <= 0x200a)
        || n == 0x2028 || n == 0x2029 || n == 0x202f || n == 0x205f || n == 0x3000
}

/// `s` without leading and trailing white space (as `str::trim` defines it).
pub open spec fn trim_seq(s: Seq<char>) -> Seq<char> {
    let lead = if exists|i: int| 0 <= i < s.len() && !white_space(s[i]) {
        choose|i: int| 0 <= i < s.len() && !white_space(s[i]) && forall|j: int| 0 <= j < i ==> white_space(s[j])
    } else {
        s.len() as int
    };
    let end = if exists|i: int| 0 <= i < s.len() && !white_space(s[i]) {
        1 + choose|i: int| 0 <= i < s.len() && !white_space(s[i]) && forall|j: int| i < j < s.len() ==> white_space(s[j])
    } else {
        s.len() as int
    };
    s.subrange(lead, end)
}

} // verus!

verus! {

/// `pat` occurs in `s` at position `i`.
pub open spec fn occurs(s: Seq<char>, pat: Seq<char>, i: int) -> bool {
    0 <= i && i + pat.len() <= s.len() && s.subrange(i, i + pat.len()) == pat
}

/// The first position, at or after `from`, where `pat` occurs in `s`.
#[verifier::opaque]
pub open spec fn first_occurrence(s: Seq<char>, pat: Seq<char>, from: int) -> Option<int> {
    if exists|i: int| from <= i && occurs(s, pat, i) {
        Some(choose|i: int| from <= i && occurs(s, pat, i) && forall|j: int| from <= j < i ==> !occurs(s, pat, j))
    } else {
        None
    }
}

/// The first position, at or after `from`, where `pat` occurs in `hay`.
pub fn find_from(hay: &Vec<char>, pat: &Vec<char>, from: usize) -> (r: Option<usize>)
    ensures
        r matches Some(i) ==> from <= i && occurs(hay@, pat@, i as int) && first_occurrence(hay@, pat@, from as int)
            == Some(i as int),
        r is None ==> first_occurrence(hay@, pat@, from as int) is None,
{
    if pat.len() > hay.len() || from > hay.len() - pat.len() {
        assert forall|i: int| from <= i implies !occurs(hay@, pat@, i) by {}
        reveal(first_occurrence);
        return None;
    }
    let last = hay.len() - pat.len();
    let mut i: usize = from;
    loop
        invariant
            last + pat@.len() == hay@.len(),
            from <= i <= last,
            forall|j: int| from <= j < i ==> !occurs(hay@, pat@, j),
        decreases last - i,
    {
        if occurs_at(hay, pat, i) {
            reveal(first_occurrence);
            let ghost k = choose|k: int| from <= k && occurs(hay@, pat@, k) && forall|j: int| from <= j < k ==> !occurs(hay@, pat@, j);
            assert(from <= i && occurs(hay@, pat@, i as int));
            assert(k == i as int) by {
                if k < i {
                    assert(!occurs(hay@, pat@, k));
                } else if k > i {
                    assert(!occurs(hay@, pat@, i as int));
                }
            }
            return Some(i);
        }
        if i == last {
            assert forall|j: int| from <= j implies !occurs(hay@, pat@, j) by {
                if j > last {
                    assert(j + pat@.len() > hay@.len());
                }
            }
            reveal(first_occurrence);
            return None;
        }
        i = i + 1;
    }
}

} // verus!

verus! {

/// `s` without leading and trailing white space (`str::trim`, which removes
/// the characters that `char::is_whitespace` accepts from both ends).
pub fn trim(s: &str) -> (r: String)
    ensures
        r@ == trim_seq(s@),
{
    let cs = chars_of(s);
    let n = cs.len();
    let mut lead: usize = 0;
    while lead < n && is_whitespace(cs[lead])
        invariant
            n == cs@.len(),
            cs@ == s@,
            lead <= n,
            forall|j: int| 0 <= j < lead ==> white_space(cs@[j]),
        decreases n - lead,
    {
        lead = lead + 1;
    }
    if lead == n {
        assert(!(exists|i: int| 0 <= i < s@.len() && !white_space(s@[i])));
        let r = string_from_range(&cs, n, n);
        assert(r@ =~= trim_seq(s@));
        return r;
    }
    let mut end: usize = n;
    while end > lead + 1 && is_whitespace(cs[end - 1])
        invariant
            n == cs@.len(),
            cs@ == s@,
            lead < end <= n,
            !white_space(cs@[lead as int]),
            forall|j: int| end <= j < n ==> white_space(cs@[j]),
        decreases end,
    {
        end = end - 1;
    }
    proof {
        let a = choose|i: int| 0 <= i < s@.len() && !white_space(s@[i]) && forall|j: int| 0 <= j < i ==> white_space(s@[j]);
        assert(0 <= lead < s@.len() && !white_space(s@[lead as int]) && forall|j: int| 0 <= j < lead ==> white_space(s@[j]));
        assert(a == lead as int) by {
            if a < lead {
                assert(white_space(s@[a]));
            } else if a > lead {
                assert(white_space(s@[lead as int]));
            }
        }
        assert(!white_space(s@[end - 1]));
        let b = choose|i: int| 0 <= i < s@.len() && !white_space(s@[i]) && forall|j: int| i < j < s@.len() ==> white_space(s@[j]);
        assert(0 <= end - 1 < s@.len() && !white_space(s@[end - 1]) && forall|j: int| end - 1 < j < s@.len() ==> white_space(s@[j]));
        assert(b == end - 1) by {
            if b < end - 1 {
                assert(white_space(s@[end - 1]));
            } else if b > end - 1 {
                assert(white_space(s@[b]));
            }
        }
    }
    string_from_range(&cs, lead, end)
}

} // verus!

verus! {

/// `v[from..to]`.
pub fn char_range(v: &Vec<char>, from: usize, to: usize) -> (r: Vec<char>)
    requires
        from <= to <= v@.len(),
    ensures
        r@ == v@.subrange(from as int, to as int),
{
    let mut r: Vec<char> = Vec::new();
    let mut i = from;
    while i < to
        invariant
            from <= i <= to <= v@.len(),
            r@ == v@.subrange(from as int, i as int),
        decreases to - i,
    {
        r.push(v[i]);
        assert(r@ =~= v@.subrange(from as int, i + 1));
        i = i + 1;
    }
    r
}

/// Whether two character sequences are equal.
pub fn chars_equal(a: &Vec<char>, b: &Vec<char>) -> (r: bool)
    ensures
        r == (a@ == b@),
{
    if a.len() != b.len() {
        return false;
    }
    let mut i: usize = 0;
    while i < a.len()
        invariant
            a@.len() == b@.len(),
            i <= a@.len(),
            forall|j: int| 0 <= j < i ==> a@[j] == b@[j],
        decreases a@.len() - i,
    {
        if a[i] != b[i] {
            return false;
        }
        i = i + 1;
    }
    assert(a@ =~= b@);
    true
}

/// Whether the characters of `a` spell `lit`.
pub fn spells(a: &Vec<char>, lit: &str) -> (r: bool)
    ensures
        r == (a@ == lit@),
{
    chars_equal(a, &chars_of(lit))
}

} // verus!

verus! {

/// A text contains every text that occurs in it, at any position: the
/// needle may have anything before and anything after it.
pub proof fn law_contains_occurrence(before: Seq<char>, needle: Seq<char>, after: Seq<char>)
    ensures
        contains_seq(before + needle + after, needle),
{
    let hay = before + needle + after;
    assert(hay.subrange(before.len() as int, (before.len() + needle.len()) as int) =~= needle);
}

/// What a text contains is made of its own characters: a contained needle
/// is no longer than the text, and the text is that needle with something
/// before and something after it.
pub proof fn law_contained_text_occurs(hay: Seq<char>, needle: Seq<char>)
    requires
        contains_seq(hay, needle),
    ensures
        needle.len() <= hay.len(),
        exists|i: int|
            0 <= i && i + needle.len() <= hay.len() && hay == #[trigger] hay.take(i) + needle + hay.skip(
                i + needle.len(),
            ),
{
    let i = choose|i: int| 0 <= i && i + needle.len() <= hay.len() && #[trigger] hay.subrange(i, i + needle.len()) == needle;
    assert(hay =~= hay.take(i) + needle + hay.skip(i + needle.len()));
}

/// Trimming takes a contiguous part of the text: it drops white space at the
/// two ends and nothing else. Before the part and after it there is only
/// white space; the part, where not empty, starts and ends with a character
/// that is not white space.
pub proof fn law_trim_drops_only_outer_white_space(s: Seq<char>)
    ensures
        exists|a: int, b: int|
            #![trigger s.subrange(a, b)]
            0 <= a <= b <= s.len() && trim_seq(s) == s.subrange(a, b) && (forall|j: int|
                0 <= j < a ==> white_space(#[trigger] s[j])) && (forall|j: int| b <= j < s.len() ==> white_space(
                #[trigger] s[j],
            )) && (a < b ==> !white_space(s[a]) && !white_space(s[b - 1])),
{
    if exists|i: int| 0 <= i < s.len() && !white_space(s[i]) {
        let a = choose|i: int| 0 <= i < s.len() && !white_space(s[i]) && forall|j: int| 0 <= j < i ==> white_space(s[j]);
        let e = choose|i: int| 0 <= i < s.len() && !white_space(s[i]) && forall|j: int| i < j < s.len() ==> white_space(s[j]);
        let w = choose|i: int| 0 <= i < s.len() && !white_space(s[i]);
        assert(exists|i: int| 0 <= i < s.len() && !white_space(s[i]) && forall|j: int| 0 <= j < i ==> white_space(s[j])) by {
            lemma_first_non_white(s, w);
        }
        assert(exists|i: int| 0 <= i < s.len() && !white_space(s[i]) && forall|j: int| i < j < s.len() ==> white_space(s[j])) by {
            lemma_last_non_white(s, w);
        }
        if e < a {
            assert(!white_space(s[a]));
        }
        assert(trim_seq(s) == s.subrange(a, e + 1));
    } else {
        assert(trim_seq(s) == s.subrange(s.len() as int, s.len() as int));
        assert forall|j: int| 0 <= j < s.len() implies white_space(#[trigger] s[j]) by {}
    }
}

proof fn lemma_first_non_white(s: Seq<char>, w: int)
    requires
        0 <= w < s.len(),
        !white_space(s[w]),
    ensures
        exists|i: int| 0 <= i < s.len() && !white_space(s[i]) && forall|j: int| 0 <= j < i ==> white_space(s[j]),
    decreases w,
{
    if forall|j: int| 0 <= j < w ==> white_space(s[j]) {
    } else {
        let k = choose|j: int| 0 <= j < w && !white_space(s[j]);
        lemma_first_non_white(s, k);
    }
}

proof fn lemma_last_non_white(s: Seq<char>, w: int)
    requires
        0 <= w < s.len(),
        !white_space(s[w]),
    ensures
        exists|i: int| 0 <= i < s.len() && !white_space(s[i]) && forall|j: int| i < j < s.len() ==> white_space(s[j]),
    decreases s.len() - w,
{
    if forall|j: int| w < j < s.len() ==> white_space(s[j]) {
    } else {
        let k = choose|j: int| w < j < s.len() && !white_space(s[j]);
        lemma_last_non_white(s, k);
    }
}

/// A text with no white space at either end is left as it is by trimming.
pub proof fn law_trim_keeps_inner_white_space(s: Seq<char>)
    requires
        s.len() > 0 ==> !white_space(s[0]) && !white_space(s[s.len() - 1]),
    ensures
        trim_seq(s) == s,
{
    law_trim_drops_only_outer_white_space(s);
    let (a, b) = choose|a: int, b: int|
        #![trigger s.subrange(a, b)]
        0 <= a <= b <= s.len() && trim_seq(s) == s.subrange(a, b) && (forall|j: int|
            0 <= j < a ==> white_space(#[trigger] s[j])) && (forall|j: int| b <= j < s.len() ==> white_space(
            #[trigger] s[j],
        )) && (a < b ==> !white_space(s[a]) && !white_space(s[b - 1]));
    if s.len() > 0 {
        if a > 0 {
            assert(white_space(s[0]));
        }
        if b < s.len() {
            assert(white_space(s[s.len() - 1]));
        }
    }
    assert(s.subrange(a, b) =~= s);
}

} // verus!
