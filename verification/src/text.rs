//! Character-level text helpers shared by the rest of the library:
//! decimal rendering, substring search and the handful of `str`
//! operations (trimming, prefix stripping) that the download logic needs.
use vstd::prelude::*;

verus! {

broadcast use vstd::string::group_string_axioms;

/// Appends one character to a string.
///
/// Trusted: `String::push` appends `c` at the end of the string, as its
/// documentation states.
#[verifier::external_body]
pub(crate) fn push_char(s: &mut String, c: char)
    ensures
        final(s)@ == old(s)@.push(c),
{
    s.push(c);
}

/// The characters of `s`, in order, as a vector.
pub fn chars_of(s: &str) -> (v: Vec<char>)
    ensures
        v@ == s@,
{
    let mut v: Vec<char> = Vec::new();
    for c in it: s.chars()
        invariant
            v@ == it.seq().take(it.index() as int),
    {
        v.push(c);
    }
    assert(v@ =~= s@);
    v
}

} // verus!

verus! {

/// The character of the decimal digit `d`.
pub open spec fn digit_char(d: nat) -> char {
    (48 + d) as char
}

/// The decimal notation of `n`, most significant digit first, without
/// leading zeros (`0` is written as a single `0`).
pub open spec fn decimal(n: nat) -> Seq<char>
    decreases n,
{
    if n < 10 {
        seq![digit_char(n)]
    } else {
        decimal(n / 10).push(digit_char(n % 10))
    }
}

/// Whether `c` is one of the ten decimal digit characters.
pub open spec fn is_digit(c: char) -> bool {
    '0' <= c && c <= '9'
}

pub(crate) fn digit(d: u64) -> (c: char)
    requires
        d < 10,
    ensures
        c == digit_char(d as nat),
{
    let b: u8 = 48u8 + (d as u8);
    b as char
}

/// Appends the decimal notation of `n` to `s`.
pub fn append_decimal(s: &mut String, n: u64)
    ensures
        final(s)@ == old(s)@ + decimal(n as nat),
    decreases n,
{
    if n >= 10 {
        append_decimal(s, n / 10);
    }
    push_char(s, digit(n % 10));
    assert(decimal(n as nat) == if n < 10 { seq![digit_char(n as nat)] } else { decimal((n / 10) as nat).push(digit_char((n % 10) as nat)) });
}

} // verus!

verus! {

/// Every character of a decimal notation is a digit, and there is at least one.
pub proof fn lemma_decimal_digits(n: nat)
    ensures
        decimal(n).len() >= 1,
        forall|i: int| 0 <= i < decimal(n).len() ==> is_digit(#[trigger] decimal(n)[i]),
    decreases n,
{
    if n >= 10 {
        lemma_decimal_digits(n / 10);
    }
}

/// The decimal notation of a number of ten or more has at least two digits.
proof fn lemma_decimal_len_ge_two(n: nat)
    requires
        n >= 10,
    ensures
        decimal(n).len() >= 2,
{
    lemma_decimal_digits(n / 10);
}

/// Distinct numbers have distinct decimal notations.
pub proof fn lemma_decimal_injective(n: nat, m: nat)
    requires
        decimal(n) == decimal(m),
    ensures
        n == m,
    decreases n,
{
    let dn = decimal(n);
    let dm = decimal(m);
    if n < 10 && m < 10 {
        assert(dn[0] == dm[0]);
    } else if n < 10 {
        lemma_decimal_len_ge_two(m);
    } else if m < 10 {
        lemma_decimal_len_ge_two(n);
    } else {
        assert(dn.last() == dm.last());
        assert(dn.drop_last() =~= decimal(n / 10));
        assert(dm.drop_last() =~= decimal(m / 10));
        lemma_decimal_injective(n / 10, m / 10);
    }
}

/// `n` written with at least two digits, padded with a leading zero.
pub open spec fn two_digits(n: nat) -> Seq<char> {
    if n < 10 {
        seq!['0'] + decimal(n)
    } else {
        decimal(n)
    }
}

/// Appends `n` written with at least two digits (`7` becomes `07`).
pub fn append_two_digits(s: &mut String, n: u64)
    ensures
        final(s)@ == old(s)@ + two_digits(n as nat),
{
    if n < 10 {
        push_char(s, '0');
    }
    append_decimal(s, n);
    assert(final(s)@ =~= old(s)@ + two_digits(n as nat));
}

} // verus!

verus! {

/// Builds a string from the characters `v[from..to]`.
pub fn string_from_chars(v: &Vec<char>, from: usize, to: usize) -> (s: String)
    requires
        from <= to <= v@.len(),
    ensures
        s@ == v@.subrange(from as int, to as int),
{
    let mut s = String::new();
    let mut i = from;
    while i < to
        invariant
            from <= i <= to <= v@.len(),
            s@ == v@.subrange(from as int, i as int),
        decreases to - i,
    {
        push_char(&mut s, v[i]);
        i = i + 1;
        assert(s@ =~= v@.subrange(from as int, i as int));
    }
    s
}

/// Unicode `White_Space` characters, the set that `char::is_whitespace`
/// and `str::trim` use.
pub open spec fn is_whitespace(c: char) -> bool {
    let v = c as int;
    ||| 0x09 <= v <= 0x0d
    ||| v == 0x20
    ||| v == 0x85
    ||| v == 0xa0
    ||| v == 0x1680
    ||| 0x2000 <= v <= 0x200a
    ||| v == 0x2028
    ||| v == 0x2029
    ||| v == 0x202f
    ||| v == 0x205f
    ||| v == 0x3000
}

/// Whether `c` is a Unicode `White_Space` character.
pub fn char_is_whitespace(c: char) -> (b: bool)
    ensures
        b == is_whitespace(c),
{
    let v = c as u32;
    (0x09 <= v && v <= 0x0d) || v == 0x20 || v == 0x85 || v == 0xa0 || v == 0x1680 || (0x2000 <= v
        && v <= 0x200a) || v == 0x2028 || v == 0x2029 || v == 0x202f || v == 0x205f || v == 0x3000
}

/// `s` without its leading whitespace.
pub open spec fn trim_start_ws(s: Seq<char>) -> Seq<char>
    decreases s.len(),
{
    if s.len() > 0 && is_whitespace(s[0]) {
        trim_start_ws(s.drop_first())
    } else {
        s
    }
}

/// `s` without its trailing whitespace.
pub open spec fn trim_end_ws(s: Seq<char>) -> Seq<char>
    decreases s.len(),
{
    if s.len() > 0 && is_whitespace(s.last()) {
        trim_end_ws(s.drop_last())
    } else {
        s
    }
}

/// `s` without leading and trailing whitespace, as `str::trim` returns it.
pub open spec fn trim_ws(s: Seq<char>) -> Seq<char> {
    trim_end_ws(trim_start_ws(s))
}

/// The bounds `lo..hi` of `s` with surrounding whitespace removed.
pub fn trim_bounds(v: &Vec<char>) -> (r: (usize, usize))
    ensures
        r.0 <= r.1 <= v@.len(),
        v@.subrange(r.0 as int, r.1 as int) == trim_ws(v@),
{
    let n = v.len();
    let ghost s = v@;
    let mut lo: usize = 0;
    assert(s.subrange(0, n as int) =~= s);
    while lo < n && char_is_whitespace(v[lo])
        invariant
            n == s.len(),
            s == v@,
            lo <= n,
            trim_start_ws(s) == trim_start_ws(s.subrange(lo as int, n as int)),
        decreases n - lo,
    {
        assert(s.subrange(lo as int, n as int).drop_first() =~= s.subrange(lo + 1, n as int));
        lo = lo + 1;
    }
    assert(trim_start_ws(s.subrange(lo as int, n as int)) == s.subrange(lo as int, n as int));
    let mut hi: usize = n;
    while hi > lo && char_is_whitespace(v[hi - 1])
        invariant
            n == s.len(),
            s == v@,
            lo <= hi <= n,
            trim_ws(s) == trim_end_ws(s.subrange(lo as int, hi as int)),
        decreases hi - lo,
    {
        assert(s.subrange(lo as int, hi as int).drop_last() =~= s.subrange(lo as int, hi - 1));
        hi = hi - 1;
    }
    (lo, hi)
}

/// Whether `needle` occurs in `hay` starting at position `i`.
pub open spec fn occurs_at(hay: Seq<char>, needle: Seq<char>, i: int) -> bool {
    0 <= i && i + needle.len() <= hay.len() && hay.subrange(i, i + needle.len()) == needle
}

/// Whether `needle` occurs somewhere in `hay`.
pub open spec fn contains_seq(hay: Seq<char>, needle: Seq<char>) -> bool {
    exists|i: int| occurs_at(hay, needle, i)
}

/// Whether `needle` occurs in `hay` at position `i`.
pub fn matches_at(hay: &Vec<char>, needle: &Vec<char>, i: usize) -> (b: bool)
    ensures
        b == occurs_at(hay@, needle@, i as int),
{
    if i > hay.len() || needle.len() > hay.len() - i {
        return false;
    }
    let mut k: usize = 0;
    while k < needle.len()
        invariant
            i + needle@.len() <= hay@.len(),
            hay@.len() == hay.len(),
            k <= needle@.len(),
            forall|j: int| 0 <= j < k ==> hay@[i + j] == needle@[j],
        decreases needle@.len() - k,
    {
        if hay[i + k] != needle[k] {
            assert(hay@.subrange(i as int, i + needle@.len())[k as int] != needle@[k as int]);
            return false;
        }
        k = k + 1;
    }
    assert(hay@.subrange(i as int, i + needle@.len()) =~= needle@);
    true
}

/// Whether `needle` occurs somewhere in `hay`.
pub fn contains_chars(hay: &Vec<char>, needle: &Vec<char>) -> (b: bool)
    ensures
        b == contains_seq(hay@, needle@),
{
    if needle.len() > hay.len() {
        return false;
    }
    let last = hay.len() - needle.len();
    let mut i: usize = 0;
    loop
        invariant
            i <= last,
            last + needle@.len() == hay@.len(),
            forall|j: int| 0 <= j < i ==> !occurs_at(hay@, needle@, j),
        ensures
            forall|j: int| 0 <= j <= last ==> !occurs_at(hay@, needle@, j),
        decreases last - i,
    {
        if matches_at(hay, needle, i) {
            return true;
        }
        if i == last {
            break;
        }
        i = i + 1;
    }
    assert forall|j: int| !occurs_at(hay@, needle@, j) by {
        if 0 <= j <= last {
        }
    }
    false
}

/// Whether the text `hay` contains the text `needle`, as `str::contains` answers.
pub fn str_contains(hay: &str, needle: &str) -> (b: bool)
    ensures
        b == contains_seq(hay@, needle@),
{
    let h = chars_of(hay);
    let n = chars_of(needle);
    contains_chars(&h, &n)
}

} // verus!

verus! {

/// Whether `s` begins with `p`.
pub open spec fn starts_with(s: Seq<char>, p: Seq<char>) -> bool {
    p.len() <= s.len() && s.subrange(0, p.len() as int) == p
}

/// `s` with every leading copy of `p` removed, as `str::trim_start_matches`
/// returns it for a non-empty text pattern (an empty pattern removes nothing).
pub open spec fn strip_prefix_all(s: Seq<char>, p: Seq<char>) -> Seq<char>
    decreases s.len(),
{
    if p.len() > 0 && starts_with(s, p) {
        strip_prefix_all(s.subrange(p.len() as int, s.len() as int), p)
    } else {
        s
    }
}

/// The index `k` from which `v[from..]`, stripped of its leading copies of
/// `p`, continues: `v[k..]` is `strip_prefix_all(v[from..], p)`.
pub fn strip_prefix_all_from(v: &Vec<char>, from: usize, p: &Vec<char>) -> (k: usize)
    requires
        from <= v@.len(),
    ensures
        from <= k <= v@.len(),
        v@.subrange(k as int, v@.len() as int) == strip_prefix_all(
            v@.subrange(from as int, v@.len() as int),
            p@,
        ),
{
    let n = v.len();
    let ghost s = v@;
    let mut k = from;
    if p.len() == 0 {
        return k;
    }
    while matches_at(v, p, k)
        invariant
            n == s.len(),
            s == v@,
            from <= k <= n,
            p@.len() > 0,
            strip_prefix_all(s.subrange(from as int, n as int), p@) == strip_prefix_all(
                s.subrange(k as int, n as int),
                p@,
            ),
        decreases n - k,
    {
        let ghost rest = s.subrange(k as int, n as int);
        assert(rest.subrange(0, p@.len() as int) =~= s.subrange(k as int, k + p@.len()));
        assert(rest.subrange(p@.len() as int, rest.len() as int) =~= s.subrange(
            k + p@.len(),
            n as int,
        ));
        k = k + p.len();
    }
    proof {
        let rest = s.subrange(k as int, n as int);
        if p@.len() <= rest.len() {
            assert(rest.subrange(0, p@.len() as int) =~= s.subrange(k as int, k + p@.len()));
        }
    }
    k
}

/// The position just after the last `c` in `s`, or 0 when `s` holds no `c`.
pub open spec fn after_last_index(s: Seq<char>, c: char) -> int
    decreases s.len(),
{
    if s.len() == 0 {
        0
    } else if s.last() == c {
        s.len() as int
    } else {
        after_last_index(s.drop_last(), c)
    }
}

/// The position of the first `c` in `s`, or `s.len()` when `s` holds no `c`.
pub open spec fn first_index(s: Seq<char>, c: char) -> int
    decreases s.len(),
{
    if s.len() == 0 {
        0
    } else if s[0] == c {
        0
    } else {
        1 + first_index(s.drop_first(), c)
    }
}

/// What `after_last_index` picks out: no `c` follows it, and a `c` precedes it
/// unless it is 0.
pub proof fn lemma_after_last_index(s: Seq<char>, c: char)
    ensures
        0 <= after_last_index(s, c) <= s.len(),
        forall|j: int| after_last_index(s, c) <= j < s.len() ==> s[j] != c,
        after_last_index(s, c) > 0 ==> s[after_last_index(s, c) - 1] == c,
    decreases s.len(),
{
    if s.len() > 0 && s.last() != c {
        lemma_after_last_index(s.drop_last(), c);
        assert forall|j: int| after_last_index(s, c) <= j < s.len() implies s[j] != c by {
            if j < s.len() - 1 {
                assert(s[j] == s.drop_last()[j]);
            }
        }
    }
}

/// What `first_index` picks out: no `c` precedes it, and it is a `c` unless it
/// is the end of `s`.
pub proof fn lemma_first_index(s: Seq<char>, c: char)
    ensures
        0 <= first_index(s, c) <= s.len(),
        forall|j: int| 0 <= j < first_index(s, c) ==> s[j] != c,
        first_index(s, c) < s.len() ==> s[first_index(s, c)] == c,
    decreases s.len(),
{
    if s.len() > 0 && s[0] != c {
        lemma_first_index(s.drop_first(), c);
        assert forall|j: int| 0 <= j < first_index(s, c) implies s[j] != c by {
            if j > 0 {
                assert(s[j] == s.drop_first()[j - 1]);
            }
        }
    }
}

/// The position just after the last `c` in `v[..to]`, or 0.
pub fn find_after_last(v: &Vec<char>, to: usize, c: char) -> (k: usize)
    requires
        to <= v@.len(),
    ensures
        k == after_last_index(v@.subrange(0, to as int), c),
{
    let mut i = to;
    while i > 0 && v[i - 1] != c
        invariant
            i <= to <= v@.len(),
            after_last_index(v@.subrange(0, to as int), c) == after_last_index(
                v@.subrange(0, i as int),
                c,
            ),
        decreases i,
    {
        assert(v@.subrange(0, i as int).drop_last() =~= v@.subrange(0, i - 1));
        i = i - 1;
    }
    i
}

/// The position of the first `c` in `v[from..to]`, counted from `from`, or `to - from`.
pub fn find_first(v: &Vec<char>, from: usize, to: usize, c: char) -> (k: usize)
    requires
        from <= to <= v@.len(),
    ensures
        k == first_index(v@.subrange(from as int, to as int), c),
        k <= to - from,
{
    let mut i = from;
    while i < to && v[i] != c
        invariant
            from <= i <= to <= v@.len(),
            first_index(v@.subrange(from as int, to as int), c) == (i - from) + first_index(
                v@.subrange(i as int, to as int),
                c,
            ),
        decreases to - i,
    {
        assert(v@.subrange(i as int, to as int).drop_first() =~= v@.subrange(i + 1, to as int));
        i = i + 1;
    }
    i - from
}

} // verus!

verus! {

/// The number of characters in `s`.
pub fn char_count(s: &str) -> (n: usize)
    ensures
        n == s@.len(),
{
    chars_of(s).len()
}

/// `s` with `c` inserted before the character at position `i`.
pub fn insert_char(s: &str, i: usize, c: char) -> (r: String)
    requires
        i <= s@.len(),
    ensures
        r@ == s@.insert(i as int, c),
{
    let v = chars_of(s);
    let mut r = string_from_chars(&v, 0, i);
    push_char(&mut r, c);
    let tail = string_from_chars(&v, i, v.len());
    r.append(tail.as_str());
    assert(r@ =~= s@.insert(i as int, c));
    r
}

/// `s` without the character at position `i`.
pub fn remove_char(s: &str, i: usize) -> (r: String)
    requires
        i < s@.len(),
    ensures
        r@ == s@.remove(i as int),
{
    let v = chars_of(s);
    let n = v.len();
    let mut r = string_from_chars(&v, 0, i);
    let tail = string_from_chars(&v, i + 1, n);
    r.append(tail.as_str());
    assert(r@ =~= s@.remove(i as int));
    r
}

} // verus!

verus! {

/// The number of bytes that `c` takes in UTF-8, as `char::len_utf8` gives it.
pub open spec fn utf8_width(c: char) -> nat {
    let v = c as u32;
    if v <= 0x7f {
        1
    } else if v <= 0x7ff {
        2
    } else if v <= 0xffff {
        3
    } else {
        4
    }
}

/// The number of bytes of `s` in UTF-8, as `str::len` gives it.
pub open spec fn byte_len(s: Seq<char>) -> nat
    decreases s.len(),
{
    if s.len() == 0 {
        0
    } else {
        utf8_width(s[0]) + byte_len(s.drop_first())
    }
}

/// Whether byte offset `b` of the UTF-8 form of `s` starts a character or is
/// its end, as `str::is_char_boundary` answers.
pub open spec fn is_byte_boundary(s: Seq<char>, b: int) -> bool
    decreases s.len(),
{
    if b == 0 {
        true
    } else if s.len() == 0 || b < utf8_width(s[0]) {
        false
    } else {
        is_byte_boundary(s.drop_first(), b - utf8_width(s[0]))
    }
}

/// The position, counted in characters, of the character that starts at byte
/// offset `b` of the UTF-8 form of `s` (meaningful where `b` is a boundary).
pub open spec fn char_index_at_byte(s: Seq<char>, b: int) -> int
    decreases s.len(),
{
    if b <= 0 || s.len() == 0 {
        0
    } else {
        1 + char_index_at_byte(s.drop_first(), b - utf8_width(s[0]))
    }
}

/// `utf8_width` agrees with vstd's UTF-8 encoding, and so `byte_len` with the
/// length of the encoded text.
pub proof fn lemma_byte_len_is_encoded_len(s: Seq<char>)
    ensures
        byte_len(s) == vstd::utf8::encode_utf8(s).len(),
    decreases s.len(),
{
    if s.len() > 0 {
        let v = s[0] as u32;
        vstd::utf8::char_is_scalar(s[0]);
        assert(vstd::utf8::encode_scalar(v).len() == utf8_width(s[0]));
        lemma_byte_len_is_encoded_len(s.drop_first());
        assert(vstd::utf8::encode_utf8(s) == vstd::utf8::encode_scalar(v) + vstd::utf8::encode_utf8(
            s.drop_first(),
        ));
    }
}

/// The width in bytes of `c` in UTF-8.
pub fn char_utf8_width(c: char) -> (w: usize)
    ensures
        w == utf8_width(c),
{
    let v = c as u32;
    if v <= 0x7f {
        1
    } else if v <= 0x7ff {
        2
    } else if v <= 0xffff {
        3
    } else {
        4
    }
}

/// The length in bytes of the UTF-8 form of the characters `v`.
pub fn utf8_len(v: &Vec<char>) -> (n: u128)
    ensures
        n == byte_len(v@),
{
    let mut i = v.len();
    let mut sum: u128 = 0;
    assert(v@.subrange(i as int, v@.len() as int) =~= Seq::<char>::empty());
    while i > 0
        invariant
            i <= v@.len(),
            v@.len() <= usize::MAX,
            sum == byte_len(v@.subrange(i as int, v@.len() as int)),
            sum <= 4 * (v@.len() - i),
        decreases i,
    {
        let w = char_utf8_width(v[i - 1]);
        assert(v@.subrange(i - 1, v@.len() as int).drop_first() =~= v@.subrange(
            i as int,
            v@.len() as int,
        ));
        sum = sum + w as u128;
        i = i - 1;
    }
    assert(v@.subrange(0, v@.len() as int) =~= v@);
    sum
}

/// Where byte offset `b` of the UTF-8 form of `v` is a boundary, the position
/// in characters that it marks; `None` where it is not.
pub fn char_index_of_byte(v: &Vec<char>, b: usize) -> (r: Option<usize>)
    ensures
        r is Some <==> is_byte_boundary(v@, b as int),
        r matches Some(k) ==> k == char_index_at_byte(v@, b as int) && k <= v@.len(),
{
    let n = v.len();
    let ghost s = v@;
    let mut i: usize = 0;
    let mut rem: usize = b;
    assert(s.subrange(0, n as int) =~= s);
    while rem > 0
        invariant
            n == s.len(),
            s == v@,
            i <= n,
            rem <= b,
            is_byte_boundary(s, b as int) == is_byte_boundary(
                s.subrange(i as int, n as int),
                rem as int,
            ),
            char_index_at_byte(s, b as int) == i + char_index_at_byte(
                s.subrange(i as int, n as int),
                rem as int,
            ),
        decreases rem,
    {
        if i == n {
            return None;
        }
        let w = char_utf8_width(v[i]);
        if rem < w {
            return None;
        }
        assert(s.subrange(i as int, n as int).drop_first() =~= s.subrange(i + 1, n as int));
        rem = rem - w;
        i = i + 1;
    }
    Some(i)
}

/// What a byte boundary and its character position say of a text: the
/// boundary lies within the text, the characters before the position take
/// exactly `b` bytes, and a boundary before the end marks a character.
pub proof fn lemma_byte_boundary(s: Seq<char>, b: int)
    requires
        is_byte_boundary(s, b),
    ensures
        0 <= b <= byte_len(s),
        0 <= char_index_at_byte(s, b) <= s.len(),
        b < byte_len(s) ==> char_index_at_byte(s, b) < s.len() && b + utf8_width(
            s[char_index_at_byte(s, b)],
        ) <= byte_len(s),
        b == byte_len(s) ==> char_index_at_byte(s, b) == s.len(),
    decreases s.len(),
{
    if b != 0 {
        lemma_byte_boundary(s.drop_first(), b - utf8_width(s[0]));
    } else if s.len() > 0 {
        assert(byte_len(s) >= utf8_width(s[0]));
    }
}

/// Inserting `c` at a boundary adds its width to the length, keeps the
/// boundary at the same position, and puts `c` right after it.
pub proof fn lemma_insert_at_boundary(s: Seq<char>, b: int, c: char)
    requires
        is_byte_boundary(s, b),
    ensures
        ({
            let k = char_index_at_byte(s, b);
            let t = s.insert(k, c);
            &&& byte_len(t) == byte_len(s) + utf8_width(c)
            &&& is_byte_boundary(t, b)
            &&& char_index_at_byte(t, b) == k
            &&& t.remove(k) == s
        }),
    decreases s.len(),
{
    lemma_byte_boundary(s, b);
    let k = char_index_at_byte(s, b);
    let t = s.insert(k, c);
    if b == 0 {
        assert(t.drop_first() =~= s);
        assert(t.remove(0) =~= s);
    } else {
        let s1 = s.drop_first();
        let b1 = b - utf8_width(s[0]);
        lemma_insert_at_boundary(s1, b1, c);
        lemma_byte_boundary(s1, b1);
        assert(t.drop_first() =~= s1.insert(char_index_at_byte(s1, b1), c));
        assert(t[0] == s[0]);
        assert(t.remove(k) =~= s);
    }
}

/// Removing the character that starts at a boundary before the end takes its
/// width off the length.
pub proof fn lemma_remove_at_boundary(s: Seq<char>, b: int)
    requires
        is_byte_boundary(s, b),
        b < byte_len(s),
    ensures
        ({
            let k = char_index_at_byte(s, b);
            byte_len(s.remove(k)) + utf8_width(s[k]) == byte_len(s)
        }),
    decreases s.len(),
{
    lemma_byte_boundary(s, b);
    let k = char_index_at_byte(s, b);
    if b == 0 {
        assert(s.remove(0) =~= s.drop_first());
    } else {
        let s1 = s.drop_first();
        let b1 = b - utf8_width(s[0]);
        lemma_remove_at_boundary(s1, b1);
        lemma_byte_boundary(s1, b1);
        assert(s.remove(k).drop_first() =~= s1.remove(char_index_at_byte(s1, b1)));
        assert(s.remove(k)[0] == s[0]);
    }
}

/// Whether every character of `s` is ASCII.
pub open spec fn is_ascii_text(s: Seq<char>) -> bool {
    forall|i: int| 0 <= i < s.len() ==> (#[trigger] s[i] as u32) < 0x80
}

/// In ASCII text bytes and characters coincide: the length in bytes is the
/// number of characters, and every offset up to it is a boundary that marks
/// the character at the same position.
pub proof fn lemma_ascii_bytes(s: Seq<char>)
    requires
        is_ascii_text(s),
    ensures
        byte_len(s) == s.len(),
        forall|b: int|
            0 <= b <= s.len() ==> #[trigger] is_byte_boundary(s, b) && char_index_at_byte(s, b)
                == b,
    decreases s.len(),
{
    if s.len() > 0 {
        let s1 = s.drop_first();
        assert(is_ascii_text(s1)) by {
            assert forall|i: int| 0 <= i < s1.len() implies (#[trigger] s1[i] as u32) < 0x80 by {
                assert(s1[i] == s[i + 1]);
            }
        }
        lemma_ascii_bytes(s1);
        assert((s[0] as u32) < 0x80);
        assert forall|b: int| 0 <= b <= s.len() implies #[trigger] is_byte_boundary(s, b)
            && char_index_at_byte(s, b) == b by {
            if b > 0 {
                assert(is_byte_boundary(s1, b - 1));
            }
        }
    }
}

} // verus!
