//! Text as sequences of characters: the few string operations the rest of the
//! system is written with.

use vstd::prelude::*;
use vstd::string::*;
use vstd::utf8::*;

verus! {

/// `String::push` appends the character to the end of the string.
pub assume_specification[ String::push ](s: &mut String, c: char)
    ensures
        final(s)@ == old(s)@.push(c),
;

/// What `char::is_alphanumeric` answers.
pub uninterp spec fn alphanumeric(c: char) -> bool;

/// `char::is_alphanumeric`: a letter or a digit in the Unicode sense. The full
/// table is Unicode's; on ASCII it is the letters and the decimal digits.
pub assume_specification[ char::is_alphanumeric ](c: char) -> (r: bool)
    ensures
        r == alphanumeric(c),
        (c as u32) < 128 ==> r == ascii_alphanumeric(c),
;

/// `core::str::from_utf8`: succeeds exactly on well-formed UTF-8, and the text
/// is the one the bytes encode.
#[verifier::external_body]
pub(crate) fn decode_text(bytes: &[u8]) -> (r: Option<String>)
    ensures
        r is Some <==> valid_utf8(bytes@),
        r matches Some(s) ==> s@ == decode_utf8(bytes@),
{
    match core::str::from_utf8(bytes) {
        Ok(s) => Some(String::from(s)),
        Err(_) => None,
    }
}

// ── Character classes ───────────────────────────────────────────────────────

/// Unicode's `White_Space` property.
pub open spec fn white_space(c: char) -> bool {
    let u = c as u32;
    ||| 0x09 <= u <= 0x0D
    ||| u == 0x20
    ||| u == 0x85
    ||| u == 0xA0
    ||| u == 0x1680
    ||| 0x2000 <= u <= 0x200A
    ||| u == 0x2028
    ||| u == 0x2029
    ||| u == 0x202F
    ||| u == 0x205F
    ||| u == 0x3000
}

pub fn is_white_space(c: char) -> (r: bool)
    ensures
        r == white_space(c),
{
    let u: u32 = c as u32;
    (0x09 <= u && u <= 0x0D) || u == 0x20 || u == 0x85 || u == 0xA0 || u == 0x1680 || (0x2000 <= u
        && u <= 0x200A) || u == 0x2028 || u == 0x2029 || u == 0x202F || u == 0x205F || u == 0x3000
}

pub open spec fn ascii_digit(c: char) -> bool {
    '0' <= c <= '9'
}

pub open spec fn ascii_upper(c: char) -> bool {
    'A' <= c <= 'Z'
}

pub open spec fn ascii_lower(c: char) -> bool {
    'a' <= c <= 'z'
}

pub open spec fn ascii_alphanumeric(c: char) -> bool {
    ascii_digit(c) || ascii_upper(c) || ascii_lower(c)
}

pub fn is_ascii_alphanumeric(c: char) -> (r: bool)
    ensures
        r == ascii_alphanumeric(c),
{
    ('0' <= c && c <= '9') || ('A' <= c && c <= 'Z') || ('a' <= c && c <= 'z')
}

/// The lower-case form of an ASCII letter; anything else is itself.
pub open spec fn lower(c: char) -> char {
    if ascii_upper(c) {
        ((c as u32) + 32) as char
    } else {
        c
    }
}

pub fn to_lower(c: char) -> (r: char)
    ensures
        r == lower(c),
{
    if 'A' <= c && c <= 'Z' {
        let u: u8 = c as u8;
        (u + 32) as char
    } else {
        c
    }
}

pub open spec fn lowered(s: Seq<char>) -> Seq<char> {
    s.map_values(|c: char| lower(c))
}

// ── Moving between strings and characters ───────────────────────────────────

pub fn chars_of(s: &str) -> (v: Vec<char>)
    ensures
        v@ == s@,
{
    let mut v: Vec<char> = Vec::new();
    for c in it: s.chars()
        invariant
            v@ =~= it.seq().take(it.index()),
            it.seq() == s@,
    {
        v.push(c);
    }
    v
}

pub fn string_of(v: &[char]) -> (s: String)
    ensures
        s@ == v@,
{
    string_between(v, 0, v.len())
}

pub fn string_between(v: &[char], from: usize, to: usize) -> (s: String)
    requires
        from <= to <= v@.len(),
    ensures
        s@ == v@.subrange(from as int, to as int),
{
    let mut s = String::new();
    let mut i: usize = from;
    while i < to
        invariant
            from <= i <= to <= v@.len(),
            s@ =~= v@.subrange(from as int, i as int),
        decreases to - i,
    {
        s.push(v[i]);
        i = i + 1;
    }
    s
}

pub fn same(a: &str, b: &str) -> (r: bool)
    ensures
        r == (a@ == b@),
{
    a.to_owned() == b.to_owned()
}

// ── Searching and splitting ─────────────────────────────────────────────────

/// Where `d` first occurs in `s`, or the length of `s` if it does not.
pub open spec fn find(s: Seq<char>, d: char) -> int
    decreases s.len(),
{
    if s.len() == 0 || s[0] == d {
        0
    } else {
        1 + find(s.skip(1), d)
    }
}

/// Where `d` last occurs in `s`, or -1 if it does not.
pub open spec fn find_last(s: Seq<char>, d: char) -> int
    decreases s.len(),
{
    if s.len() == 0 || s.last() == d {
        s.len() - 1
    } else {
        find_last(s.drop_last(), d)
    }
}

pub proof fn find_at(s: Seq<char>, d: char, i: int)
    requires
        0 <= i <= s.len(),
        forall|j: int| 0 <= j < i ==> s[j] != d,
        i < s.len() ==> s[i] == d,
    ensures
        find(s, d) == i,
    decreases s.len(),
{
    if s.len() > 0 && i > 0 {
        assert(s[0] != d);
        assert forall|j: int| 0 <= j < i - 1 implies s.skip(1)[j] != d by {
            assert(s.skip(1)[j] == s[j + 1]);
        }
        find_at(s.skip(1), d, i - 1);
    }
}

pub proof fn find_bounds(s: Seq<char>, d: char)
    ensures
        0 <= find(s, d) <= s.len(),
        find(s, d) < s.len() ==> s[find(s, d)] == d,
        forall|j: int| 0 <= j < find(s, d) ==> s[j] != d,
    decreases s.len(),
{
    if s.len() > 0 && s[0] != d {
        find_bounds(s.skip(1), d);
        assert forall|j: int| 0 <= j < find(s, d) implies s[j] != d by {
            if j > 0 {
                assert(s.skip(1)[j - 1] == s[j]);
            }
        }
    }
}

pub proof fn find_last_at(s: Seq<char>, d: char, i: int)
    requires
        -1 <= i < s.len(),
        forall|j: int| i < j < s.len() ==> s[j] != d,
        0 <= i ==> s[i] == d,
    ensures
        find_last(s, d) == i,
    decreases s.len(),
{
    if i < s.len() - 1 {
        assert(s[s.len() - 1] != d);
        find_last_at(s.drop_last(), d, i);
    }
}

pub fn find_char(v: &[char], d: char) -> (r: usize)
    ensures
        r == find(v@, d),
        r <= v@.len(),
        r < v@.len() ==> v@[r as int] == d,
{
    let mut i: usize = 0;
    while i < v.len() && v[i] != d
        invariant
            i <= v@.len(),
            forall|j: int| 0 <= j < i ==> v@[j] != d,
        decreases v@.len() - i,
    {
        i = i + 1;
    }
    proof {
        find_at(v@, d, i as int);
    }
    i
}

/// The place of the last `d`, counted from one; zero if there is none.
pub fn find_last_char(v: &[char], d: char) -> (r: usize)
    ensures
        r == find_last(v@, d) + 1,
        r <= v@.len(),
{
    let mut i: usize = v.len();
    while i > 0 && v[i - 1] != d
        invariant
            i <= v@.len(),
            forall|j: int| i <= j < v@.len() ==> v@[j] != d,
        decreases i,
    {
        i = i - 1;
    }
    proof {
        find_last_at(v@, d, i - 1);
    }
    i
}

/// The pieces of `s` between the occurrences of `d`; always at least one.
pub open spec fn split(s: Seq<char>, d: char) -> Seq<Seq<char>>
    decreases s.len(),
{
    let i = find(s, d);
    if 0 <= i < s.len() {
        seq![s.take(i)] + split(s.skip(i + 1), d)
    } else {
        seq![s]
    }
}

pub open spec fn strings(v: Seq<String>) -> Seq<Seq<char>> {
    v.map_values(|s: String| s@)
}

pub fn split_text(text: &str, d: char) -> (r: Vec<String>)
    ensures
        strings(r@) == split(text@, d),
{
    let v = chars_of(text);
    let mut out: Vec<String> = Vec::new();
    let mut start: usize = 0;
    let mut i: usize = 0;
    assert(v@.skip(0) =~= v@);
    while i < v.len()
        invariant
            start <= i <= v@.len(),
            v@ == text@,
            forall|j: int| start <= j < i ==> v@[j] != d,
            split(text@, d) =~= strings(out@) + split(v@.skip(start as int), d),
        decreases v@.len() - i,
    {
        if v[i] == d {
            let piece = string_between(v.as_slice(), start, i);
            proof {
                let rest = v@.skip(start as int);
                find_at(rest, d, i - start);
                assert(rest.take(i - start) =~= piece@);
                assert(rest.skip(i - start + 1) =~= v@.skip(i + 1));
            }
            let ghost before = out@;
            out.push(piece);
            assert(strings(out@) =~= strings(before).push(piece@));
            start = i + 1;
        }
        i = i + 1;
    }
    let piece = string_between(v.as_slice(), start, v.len());
    proof {
        let rest = v@.skip(start as int);
        find_at(rest, d, rest.len() as int);
        assert(piece@ =~= rest);
    }
    let ghost before = out@;
    out.push(piece);
    assert(strings(out@) =~= strings(before).push(piece@));
    out
}

// ── Trimming ────────────────────────────────────────────────────────────────

pub open spec fn trim_start(s: Seq<char>) -> Seq<char>
    decreases s.len(),
{
    if s.len() > 0 && white_space(s[0]) {
        trim_start(s.skip(1))
    } else {
        s
    }
}

pub open spec fn trim_end(s: Seq<char>) -> Seq<char>
    decreases s.len(),
{
    if s.len() > 0 && white_space(s.last()) {
        trim_end(s.drop_last())
    } else {
        s
    }
}

/// The text without the white space at its two ends.
pub open spec fn trimmed(s: Seq<char>) -> Seq<char> {
    trim_end(trim_start(s))
}

pub fn trim(text: &str) -> (r: String)
    ensures
        r@ == trimmed(text@),
{
    let v = chars_of(text);
    let mut a: usize = 0;
    assert(v@.skip(0) =~= v@);
    while a < v.len() && is_white_space(v[a])
        invariant
            a <= v@.len(),
            trim_start(v@) == trim_start(v@.skip(a as int)),
        decreases v@.len() - a,
    {
        assert(v@.skip(a as int).skip(1) =~= v@.skip(a + 1));
        a = a + 1;
    }
    let mut b: usize = v.len();
    let ghost mid = v@.skip(a as int);
    assert(trim_start(v@) == mid);
    assert(mid.take(b - a) =~= mid);
    while b > a && is_white_space(v[b - 1])
        invariant
            a <= b <= v@.len(),
            mid == v@.skip(a as int),
            trim_end(mid) == trim_end(mid.take(b - a)),
        decreases b,
    {
        assert(mid.take(b - a).drop_last() =~= mid.take(b - 1 - a));
        assert(mid.take(b - a).last() == v@[b - 1]);
        b = b - 1;
    }
    proof {
        if b > a {
            assert(mid.take(b - a).last() == v@[b - 1]);
        }
        assert(mid.take(b - a) =~= v@.subrange(a as int, b as int));
    }
    string_between(v.as_slice(), a, b)
}

pub fn trim_front(text: &str) -> (r: String)
    ensures
        r@ == trim_start(text@),
{
    let v = chars_of(text);
    let mut a: usize = 0;
    assert(v@.skip(0) =~= v@);
    while a < v.len() && is_white_space(v[a])
        invariant
            a <= v@.len(),
            trim_start(v@) == trim_start(v@.skip(a as int)),
        decreases v@.len() - a,
    {
        assert(v@.skip(a as int).skip(1) =~= v@.skip(a + 1));
        a = a + 1;
    }
    assert(v@.skip(a as int) =~= v@.subrange(a as int, v@.len() as int));
    string_between(v.as_slice(), a, v.len())
}

/// The text without any `d` at its end.
pub open spec fn trim_end_of(s: Seq<char>, d: char) -> Seq<char>
    decreases s.len(),
{
    if s.len() > 0 && s.last() == d {
        trim_end_of(s.drop_last(), d)
    } else {
        s
    }
}

pub fn trim_end_matches(text: &str, d: char) -> (r: String)
    ensures
        r@ == trim_end_of(text@, d),
{
    let v = chars_of(text);
    let mut b: usize = v.len();
    assert(v@.take(b as int) =~= v@);
    while b > 0 && v[b - 1] == d
        invariant
            b <= v@.len(),
            trim_end_of(v@, d) == trim_end_of(v@.take(b as int), d),
        decreases b,
    {
        assert(v@.take(b as int).drop_last() =~= v@.take(b - 1));
        b = b - 1;
    }
    proof {
        assert(v@.take(b as int) =~= v@.subrange(0, b as int));
    }
    string_between(v.as_slice(), 0, b)
}

// ── Prefixes and suffixes ───────────────────────────────────────────────────

pub open spec fn has_prefix(s: Seq<char>, p: Seq<char>) -> bool {
    p.len() <= s.len() && s.take(p.len() as int) == p
}

pub open spec fn has_suffix(s: Seq<char>, p: Seq<char>) -> bool {
    p.len() <= s.len() && s.skip(s.len() - p.len()) == p
}

pub fn starts_with(s: &str, p: &str) -> (r: bool)
    ensures
        r == has_prefix(s@, p@),
{
    let n: usize = p.unicode_len();
    if n > s.unicode_len() {
        return false;
    }
    let head = s.substring_char(0, n);
    assert(head@ =~= s@.take(p@.len() as int));
    same(head, p)
}

pub fn ends_with(s: &str, p: &str) -> (r: bool)
    ensures
        r == has_suffix(s@, p@),
{
    let n: usize = p.unicode_len();
    let m: usize = s.unicode_len();
    if n > m {
        return false;
    }
    let tail = s.substring_char(m - n, m);
    assert(tail@ =~= s@.skip(s@.len() - p@.len()));
    same(tail, p)
}

/// What follows the prefix, if the text begins with it.
pub fn strip_prefix(s: &str, p: &str) -> (r: Option<String>)
    ensures
        r is Some <==> has_prefix(s@, p@),
        r matches Some(t) ==> t@ == s@.skip(p@.len() as int),
{
    if starts_with(s, p) {
        let n: usize = p.unicode_len();
        let m: usize = s.unicode_len();
        let tail = s.substring_char(n, m);
        assert(tail@ =~= s@.skip(p@.len() as int));
        Some(tail.to_owned())
    } else {
        None
    }
}

/// Whether `p` stands somewhere in `s`.
pub open spec fn occurs(s: Seq<char>, p: Seq<char>) -> bool {
    exists|i: int| 0 <= i && i + p.len() <= s.len() && #[trigger] s.skip(i).take(p.len() as int) == p
}

pub fn contains(s: &str, p: &str) -> (r: bool)
    ensures
        r == occurs(s@, p@),
{
    let n: usize = p.unicode_len();
    let m: usize = s.unicode_len();
    if n > m {
        return false;
    }
    let mut i: usize = 0;
    while i <= m - n
        invariant
            n == p@.len(),
            m == s@.len(),
            n <= m,
            i <= m - n + 1,
            forall|j: int| 0 <= j < i ==> #[trigger] s@.skip(j).take(n as int) != p@,
        decreases m - n + 1 - i,
    {
        let part = s.substring_char(i, i + n);
        assert(part@ =~= s@.skip(i as int).take(n as int));
        if same(part, p) {
            return true;
        }
        if i == m - n {
            return false;
        }
        i = i + 1;
    }
    false
}

/// The text without any `p` at its beginning.
pub open spec fn trim_start_of(s: Seq<char>, p: Seq<char>) -> Seq<char>
    decreases s.len(),
{
    if p.len() > 0 && has_prefix(s, p) {
        trim_start_of(s.skip(p.len() as int), p)
    } else {
        s
    }
}

pub fn trim_start_matches(s: &str, p: &str) -> (r: String)
    ensures
        r@ == trim_start_of(s@, p@),
{
    let mut r = s.to_owned();
    if p.unicode_len() == 0 {
        return r;
    }
    while starts_with(r.as_str(), p)
        invariant
            p@.len() > 0,
            trim_start_of(r@, p@) == trim_start_of(s@, p@),
        decreases r@.len(),
    {
        let v = chars_of(r.as_str());
        let t = string_between(v.as_slice(), p.unicode_len(), v.len());
        assert(t@ =~= r@.skip(p@.len() as int));
        r = t;
    }
    r
}

pub fn lowercase(s: &str) -> (r: String)
    ensures
        r@ == lowered(s@),
{
    let v = chars_of(s);
    let mut out = String::new();
    let mut i: usize = 0;
    while i < v.len()
        invariant
            i <= v@.len(),
            out@ =~= lowered(v@.take(i as int)),
        decreases v@.len() - i,
    {
        out.push(to_lower(v[i]));
        i = i + 1;
    }
    assert(v@.take(i as int) =~= v@);
    out
}

/// The first `n` characters, or all of them if there are fewer.
pub open spec fn first(s: Seq<char>, n: int) -> Seq<char> {
    if s.len() <= n {
        s
    } else {
        s.take(n)
    }
}

pub fn first_chars(s: &str, n: usize) -> (r: String)
    ensures
        r@ == first(s@, n as int),
{
    let m: usize = s.unicode_len();
    if m <= n {
        s.to_owned()
    } else {
        let head = s.substring_char(0, n);
        assert(head@ =~= s@.take(n as int));
        head.to_owned()
    }
}

// ── Size in bytes ───────────────────────────────────────────────────────────

/// How many bytes UTF-8 takes for one character.
pub open spec fn width(c: char) -> nat {
    let u = c as u32;
    if u <= 0x7F {
        1
    } else if u <= 0x7FF {
        2
    } else if u <= 0xFFFF {
        3
    } else {
        4
    }
}

pub open spec fn byte_len(s: Seq<char>) -> nat {
    encode_utf8(s).len()
}

pub proof fn byte_len_push(s: Seq<char>, c: char)
    ensures
        byte_len(s.push(c)) == byte_len(s) + width(c),
    decreases s.len(),
{
    char_is_scalar(c);
    if s.len() == 0 {
        assert(s.push(c).drop_first() =~= Seq::<char>::empty());
        reveal_with_fuel(encode_utf8, 2);
    } else {
        assert(s.push(c).drop_first() =~= s.drop_first().push(c));
        byte_len_push(s.drop_first(), c);
    }
}

/// The longest beginning of `s` that takes at most `max` bytes.
pub open spec fn clipped(s: Seq<char>, max: int) -> Seq<char>
    decreases s.len(),
{
    if s.len() == 0 || byte_len(s) <= max {
        s
    } else {
        clipped(s.drop_last(), max)
    }
}

proof fn clipped_at(s: Seq<char>, max: int, i: int)
    requires
        0 <= i <= s.len(),
        0 <= max,
        byte_len(s.take(i)) <= max,
        i < s.len() ==> byte_len(s.take(i + 1)) > max,
    ensures
        clipped(s, max) == s.take(i),
    decreases s.len() - i,
{
    if i == s.len() {
        assert(s.take(i) =~= s);
    } else {
        byte_len_grows(s, i + 1);
        if i + 1 == s.len() {
            assert(s.take(i + 1) =~= s);
            assert(s.drop_last() =~= s.take(i));
            reveal_with_fuel(clipped, 2);
        } else {
            let t = s.drop_last();
            assert(t.take(i) =~= s.take(i));
            assert(t.take(i + 1) =~= s.take(i + 1));
            clipped_at(t, max, i);
        }
    }
}

pub proof fn clipped_is_prefix(s: Seq<char>, max: int)
    ensures
        clipped(s, max).len() <= s.len(),
        clipped(s, max) == s.take(clipped(s, max).len() as int),
    decreases s.len(),
{
    if s.len() == 0 || byte_len(s) <= max {
        assert(s.take(s.len() as int) =~= s);
    } else {
        let t = s.drop_last();
        clipped_is_prefix(t, max);
        assert(t.take(clipped(t, max).len() as int) =~= s.take(clipped(t, max).len() as int));
    }
}

proof fn byte_len_grows(s: Seq<char>, i: int)
    requires
        0 <= i <= s.len(),
    ensures
        byte_len(s.take(i)) <= byte_len(s),
    decreases s.len() - i,
{
    if i == s.len() {
        assert(s.take(i) =~= s);
    } else {
        byte_len_push(s.take(i), s[i]);
        assert(s.take(i).push(s[i]) =~= s.take(i + 1));
        byte_len_grows(s, i + 1);
    }
}

pub fn width_of(c: char) -> (r: usize)
    ensures
        r == width(c),
{
    let u: u32 = c as u32;
    if u <= 0x7F {
        1
    } else if u <= 0x7FF {
        2
    } else if u <= 0xFFFF {
        3
    } else {
        4
    }
}

pub fn clip(s: &str, max: usize) -> (r: String)
    ensures
        r@ == clipped(s@, max as int),
{
    let v = chars_of(s);
    let mut i: usize = 0;
    let mut used: usize = 0;
    assert(v@.take(0) =~= Seq::<char>::empty());
    while i < v.len()
        invariant
            i <= v@.len(),
            used == byte_len(v@.take(i as int)),
            used <= max,
            v@ == s@,
        decreases v@.len() - i,
    {
        proof {
            byte_len_push(v@.take(i as int), v@[i as int]);
            assert(v@.take(i as int).push(v@[i as int]) =~= v@.take(i + 1));
        }
        if width_of(v[i]) > max - used {
            proof {
                clipped_at(v@, max as int, i as int);
            }
            let r = string_between(v.as_slice(), 0, i);
            assert(r@ =~= v@.take(i as int));
            return r;
        }
        used = used + width_of(v[i]);
        i = i + 1;
    }
    proof {
        clipped_at(v@, max as int, i as int);
        assert(v@.take(i as int) =~= v@);
    }
    s.to_owned()
}

// ── Editing ─────────────────────────────────────────────────────────────────

/// `s` without the characters from `lo` up to `hi`.
pub open spec fn without(s: Seq<char>, lo: int, hi: int) -> Seq<char> {
    s.take(lo) + s.skip(hi)
}

/// `s` with `t` put in front of its character `at`.
pub open spec fn with_inserted(s: Seq<char>, at: int, t: Seq<char>) -> Seq<char> {
    s.take(at) + t + s.skip(at)
}

pub fn remove_range(s: &mut String, lo: usize, hi: usize)
    requires
        lo <= hi <= old(s)@.len(),
    ensures
        final(s)@ == without(old(s)@, lo as int, hi as int),
{
    let n: usize = s.as_str().unicode_len();
    let mut r = s.as_str().substring_char(0, lo).to_owned();
    r.append(s.as_str().substring_char(hi, n));
    assert(r@ =~= without(s@, lo as int, hi as int));
    *s = r;
}

pub fn insert_text(s: &mut String, at: usize, t: &str)
    requires
        at <= old(s)@.len(),
    ensures
        final(s)@ == with_inserted(old(s)@, at as int, t@),
{
    let n: usize = s.as_str().unicode_len();
    let mut r = s.as_str().substring_char(0, at).to_owned();
    r.append(t);
    r.append(s.as_str().substring_char(at, n));
    assert(r@ =~= with_inserted(s@, at as int, t@));
    *s = r;
}

/// `s` without its last character, if it has one.
pub open spec fn popped(s: Seq<char>) -> Seq<char> {
    if s.len() > 0 {
        s.drop_last()
    } else {
        s
    }
}

pub fn pop_char(s: &mut String)
    ensures
        final(s)@ == popped(old(s)@),
{
    let n: usize = s.as_str().unicode_len();
    if n > 0 {
        let r = s.as_str().substring_char(0, n - 1).to_owned();
        assert(r@ =~= s@.drop_last());
        *s = r;
    }
}

/// How often `d` occurs in `s`.
pub open spec fn count(s: Seq<char>, d: char) -> nat
    decreases s.len(),
{
    if s.len() == 0 {
        0
    } else {
        count(s.drop_last(), d) + (if s.last() == d { 1nat } else { 0 })
    }
}

pub proof fn count_bound(s: Seq<char>, d: char)
    ensures
        count(s, d) <= s.len(),
    decreases s.len(),
{
    if s.len() > 0 {
        count_bound(s.drop_last(), d);
    }
}

pub fn count_char(s: &str, d: char) -> (r: usize)
    ensures
        r == count(s@, d),
        r <= s@.len(),
{
    let v = chars_of(s);
    let mut n: usize = 0;
    let mut i: usize = 0;
    assert(v@.take(0) =~= Seq::<char>::empty());
    while i < v.len()
        invariant
            i <= v@.len(),
            n <= i,
            n == count(v@.take(i as int), d),
        decreases v@.len() - i,
    {
        assert(v@.take(i + 1).drop_last() =~= v@.take(i as int));
        if v[i] == d {
            n = n + 1;
        }
        i = i + 1;
    }
    assert(v@.take(i as int) =~= v@);
    n
}

// ── Numbers ─────────────────────────────────────────────────────────────────

pub open spec fn digit_char(d: int) -> char {
    (('0' as u32) + d) as char
}

/// The decimal numeral of a natural number.
pub open spec fn decimal(n: nat) -> Seq<char>
    decreases n,
{
    if n < 10 {
        seq![digit_char(n as int)]
    } else {
        decimal(n / 10).push(digit_char((n % 10) as int))
    }
}

fn digit(d: u128) -> (c: char)
    requires
        d < 10,
    ensures
        c == digit_char(d as int),
{
    let u: u8 = 48 + d as u8;
    u as char
}

/// Writes a number that may be one more than a length.
pub fn push_count(s: &mut String, n: u128)
    ensures
        final(s)@ == old(s)@ + decimal(n as nat),
    decreases n,
{
    if n >= 10 {
        push_count(s, n / 10);
        s.push(digit(n % 10));
    } else {
        s.push(digit(n));
    }
    assert(s@ =~= old(s)@ + decimal(n as nat));
}

pub fn push_decimal(s: &mut String, n: u64)
    ensures
        final(s)@ == old(s)@ + decimal(n as nat),
{
    push_count(s, n as u128);
}

/// Two digits, with a leading zero below ten.
pub open spec fn two_digits(n: nat) -> Seq<char> {
    if n < 10 {
        seq!['0'] + decimal(n)
    } else {
        decimal(n)
    }
}

pub fn push_two_digits(s: &mut String, n: u64)
    ensures
        final(s)@ == old(s)@ + two_digits(n as nat),
{
    if n < 10 {
        s.push('0');
    }
    push_decimal(s, n);
    assert(s@ =~= old(s)@ + two_digits(n as nat));
}

/// The decimal numeral of an integer, with a minus sign where it is negative.
pub open spec fn signed_decimal(n: int) -> Seq<char> {
    if n < 0 {
        seq!['-'] + decimal((-n) as nat)
    } else {
        decimal(n as nat)
    }
}

pub fn push_signed(s: &mut String, n: i64)
    ensures
        final(s)@ == old(s)@ + signed_decimal(n as int),
{
    if n < 0 {
        s.push('-');
        let m: u64 = if n == i64::MIN {
            0x8000_0000_0000_0000
        } else {
            (-n) as u64
        };
        push_decimal(s, m);
    } else {
        push_decimal(s, n as u64);
    }
    assert(s@ =~= old(s)@ + signed_decimal(n as int));
}

// ── Reading numbers ─────────────────────────────────────────────────────────

pub open spec fn all_digits(s: Seq<char>) -> bool {
    forall|i: int| 0 <= i < s.len() ==> ascii_digit(#[trigger] s[i])
}

/// The number that a row of digits stands for.
pub open spec fn digits_value(s: Seq<char>) -> nat
    decreases s.len(),
{
    if s.len() == 0 {
        0
    } else {
        digits_value(s.drop_last()) * 10 + ((s.last() as nat) - ('0' as nat)) as nat
    }
}

/// The natural number that a text is, if it is one and no greater than `max`.
/// A plus sign may stand in front.
pub open spec fn natural(s: Seq<char>, max: nat) -> Option<nat> {
    let d = if s.len() > 0 && s[0] == '+' {
        s.skip(1)
    } else {
        s
    };
    if d.len() > 0 && all_digits(d) && digits_value(d) <= max {
        Some(digits_value(d))
    } else {
        None
    }
}

/// The integer that a text is, if it fits in 64 bits.
pub open spec fn integer(s: Seq<char>) -> Option<i64> {
    if s.len() > 0 && s[0] == '-' {
        let d = s.skip(1);
        if d.len() > 0 && all_digits(d) && digits_value(d) <= 0x8000_0000_0000_0000 {
            Some((-digits_value(d)) as i64)
        } else {
            None
        }
    } else {
        match natural(s, i64::MAX as nat) {
            Some(n) => Some(n as i64),
            None => None,
        }
    }
}

proof fn digits_value_grows(s: Seq<char>, i: int)
    requires
        0 <= i <= s.len(),
        all_digits(s),
    ensures
        digits_value(s.take(i)) <= digits_value(s),
    decreases s.len() - i,
{
    if i == s.len() {
        assert(s.take(i) =~= s);
    } else {
        assert(s.take(i + 1).drop_last() =~= s.take(i));
        assert(ascii_digit(s[i]));
        digits_value_grows(s, i + 1);
    }
}

/// The value of the digits from `from` on, if there are any, there is nothing
/// else and it is no greater than `max`.
fn read_digits(v: &[char], from: usize, max: u64) -> (r: Option<u64>)
    requires
        from <= v@.len(),
    ensures
        ({
            let d = v@.skip(from as int);
            if d.len() > 0 && all_digits(d) && digits_value(d) <= max {
                r == Some(digits_value(d) as u64)
            } else {
                r is None
            }
        }),
{
    let ghost d = v@.skip(from as int);
    if from == v.len() {
        return None;
    }
    let mut n: u128 = 0;
    let mut i: usize = from;
    assert(d.take(0) =~= Seq::empty());
    while i < v.len()
        invariant
            from <= i <= v@.len(),
            d == v@.skip(from as int),
            n == digits_value(d.take(i - from)),
            n <= max,
            forall|j: int| 0 <= j < i - from ==> ascii_digit(#[trigger] d[j]),
        decreases v@.len() - i,
    {
        let c = v[i];
        assert(d[i - from] == c);
        if !(c >= '0' && c <= '9') {
            return None;
        }
        proof {
            assert(d.take(i - from + 1).drop_last() =~= d.take(i - from));
        }
        n = n * 10 + (c as u32 - '0' as u32) as u128;
        if n > max as u128 {
            proof {
                if all_digits(d) {
                    digits_value_grows(d, i - from + 1);
                }
            }
            return None;
        }
        i = i + 1;
    }
    assert(d.take(i - from) =~= d);
    Some(n as u64)
}

pub fn parse_natural(s: &str, max: u64) -> (r: Option<u64>)
    ensures
        match natural(s@, max as nat) {
            Some(n) => r == Some(n as u64) && n <= max,
            None => r is None,
        },
{
    let v = chars_of(s);
    let from: usize = if v.len() > 0 && v[0] == '+' { 1 } else { 0 };
    assert(v@.skip(0) =~= v@);
    read_digits(v.as_slice(), from, max)
}

pub fn parse_integer(s: &str) -> (r: Option<i64>)
    ensures
        r == integer(s@),
{
    let v = chars_of(s);
    if v.len() > 0 && v[0] == '-' {
        return match read_digits(v.as_slice(), 1, 0x8000_0000_0000_0000) {
            Some(n) => if n == 0x8000_0000_0000_0000 {
                Some(i64::MIN)
            } else {
                Some(-(n as i64))
            },
            None => None,
        };
    }
    match parse_natural(s, i64::MAX as u64) {
        Some(n) => Some(n as i64),
        None => None,
    }
}

proof fn decimal_digits(n: nat)
    ensures
        decimal(n).len() > 0,
        all_digits(decimal(n)),
        digits_value(decimal(n)) == n,
    decreases n,
{
    if n >= 10 {
        decimal_digits(n / 10);
        let d = decimal(n / 10);
        let c = digit_char((n % 10) as int);
        assert(d.push(c).drop_last() =~= d);
        assert forall|i: int| 0 <= i < d.push(c).len() implies ascii_digit(
            #[trigger] d.push(c)[i],
        ) by {
            if i < d.len() {
                assert(ascii_digit(d[i]));
            }
        }
    } else {
        let s = decimal(n);
        assert(s.drop_last() =~= Seq::empty());
        assert(digits_value(s.drop_last()) == 0);
    }
}

/// Reading a numeral gives back the number it was written for.
pub proof fn numerals_read_back(n: i64)
    ensures
        integer(signed_decimal(n as int)) == Some(n),
{
    if n < 0 {
        decimal_digits((-n) as nat);
        assert(signed_decimal(n as int).skip(1) =~= decimal((-n) as nat));
    } else {
        decimal_digits(n as nat);
        assert(ascii_digit(decimal(n as nat)[0]));
    }
}

/// The same of natural numbers.
pub proof fn natural_numerals_read_back(n: nat, max: nat)
    requires
        n <= max,
    ensures
        natural(decimal(n), max) == Some(n),
{
    decimal_digits(n);
    assert(ascii_digit(decimal(n)[0]));
}

// ── Joining ─────────────────────────────────────────────────────────────────

/// The parts with the separator between each two of them.
pub open spec fn joined(parts: Seq<Seq<char>>, sep: Seq<char>) -> Seq<char>
    decreases parts.len(),
{
    if parts.len() == 0 {
        Seq::empty()
    } else if parts.len() == 1 {
        parts[0]
    } else {
        joined(parts.drop_last(), sep) + sep + parts.last()
    }
}

pub fn join(parts: &Vec<String>, sep: &str) -> (r: String)
    ensures
        r@ == joined(strings(parts@), sep@),
{
    let mut r = String::new();
    let mut i: usize = 0;
    let ghost all = strings(parts@);
    assert(r@ =~= joined(all.take(0), sep@));
    while i < parts.len()
        invariant
            i <= parts@.len(),
            all == strings(parts@),
            r@ == joined(all.take(i as int), sep@),
        decreases parts@.len() - i,
    {
        if i > 0 {
            r.append(sep);
        }
        r.append(parts[i].as_str());
        proof {
            assert(all.take(i + 1).drop_last() =~= all.take(i as int));
            assert(all.take(i + 1).last() == parts@[i as int]@);
            assert(r@ =~= joined(all.take(i + 1), sep@));
        }
        i = i + 1;
    }
    assert(all.take(i as int) =~= all);
    r
}

// ── Laws ────────────────────────────────────────────────────────────────────

pub open spec fn blank(s: Seq<char>) -> bool {
    forall|i: int| 0 <= i < s.len() ==> white_space(#[trigger] s[i])
}

/// Whether there is nothing to trim.
pub open spec fn bare(s: Seq<char>) -> bool {
    s.len() > 0 ==> !white_space(s[0]) && !white_space(s[s.len() - 1])
}

/// Trimming takes away the white space at the two ends and nothing else,
/// whatever it is and however much of it there is.
pub proof fn trimming_removes_the_ends(a: Seq<char>, t: Seq<char>, b: Seq<char>)
    requires
        blank(a),
        blank(b),
        bare(t),
    ensures
        trimmed(a + t + b) == t,
        t.len() > 0 ==> trim_start(a + t + b) == t + b,
    decreases a.len() + b.len(),
{
    if a.len() > 0 {
        assert(white_space(a[0]));
        assert((a + t + b)[0] == a[0]);
        assert((a + t + b).skip(1) =~= a.skip(1) + t + b);
        assert forall|i: int| 0 <= i < a.skip(1).len() implies white_space(
            #[trigger] a.skip(1)[i],
        ) by {
            assert(white_space(a[i + 1]));
        }
        trimming_removes_the_ends(a.skip(1), t, b);
    } else if t.len() > 0 {
        assert(a + t + b =~= t + b);
        assert((t + b)[0] == t[0]);
        trimming_the_end(t, b);
    } else {
        assert(a + t + b =~= b);
        if b.len() > 0 {
            assert(white_space(b[0]));
            assert forall|i: int| 0 <= i < b.skip(1).len() implies white_space(
                #[trigger] b.skip(1)[i],
            ) by {
                assert(white_space(b[i + 1]));
            }
            trimming_removes_the_ends(a, t, b.skip(1));
            assert(a + t + b.skip(1) =~= b.skip(1));
        }
        assert(t =~= Seq::empty());
    }
}

proof fn trimming_the_end(t: Seq<char>, b: Seq<char>)
    requires
        blank(b),
        bare(t),
        t.len() > 0,
    ensures
        trim_end(t + b) == t,
    decreases b.len(),
{
    if b.len() > 0 {
        assert(white_space(b[b.len() - 1]));
        assert((t + b).last() == b[b.len() - 1]);
        assert((t + b).drop_last() =~= t + b.drop_last());
        trimming_the_end(t, b.drop_last());
    } else {
        assert(t + b =~= t);
    }
}

/// Every text is what trimming leaves of it between two blank ends.
pub proof fn trimming_loses_only_blanks(s: Seq<char>) -> (r: (Seq<char>, Seq<char>))
    ensures
        blank(r.0),
        blank(r.1),
        bare(trimmed(s)),
        s == r.0 + trimmed(s) + r.1,
    decreases s.len(),
{
    if s.len() > 0 && white_space(s[0]) {
        let (a, b) = trimming_loses_only_blanks(s.skip(1));
        let t = trimmed(s);
        assert(s.skip(1) == a + t + b);
        assert(s =~= seq![s[0]] + s.skip(1));
        assert(seq![s[0]] + (a + t + b) =~= seq![s[0]] + a + t + b);
        (seq![s[0]] + a, b)
    } else {
        let b = end_loses_only_blanks(s);
        assert(s =~= Seq::<char>::empty() + trimmed(s) + b);
        (Seq::empty(), b)
    }
}

proof fn end_loses_only_blanks(s: Seq<char>) -> (b: Seq<char>)
    requires
        s.len() > 0 ==> !white_space(s[0]),
    ensures
        blank(b),
        bare(trim_end(s)),
        s == trim_end(s) + b,
    decreases s.len(),
{
    if s.len() > 0 && white_space(s.last()) {
        let b = end_loses_only_blanks(s.drop_last());
        let e = trim_end(s);
        assert(s.drop_last() == e + b);
        assert(s =~= s.drop_last().push(s.last()));
        assert(s.drop_last().push(s.last()) =~= e + b.push(s.last()));
        b.push(s.last())
    } else {
        assert(s =~= s + Seq::<char>::empty());
        Seq::empty()
    }
}

/// The pieces of a text hold no separator, and with one between each two of
/// them they make up the text again.
pub proof fn pieces_make_up_the_text(s: Seq<char>, d: char)
    ensures
        split(s, d).len() > 0,
        joined(split(s, d), seq![d]) == s,
        forall|i: int|
            0 <= i < split(s, d).len() ==> !(#[trigger] split(s, d)[i]).contains(d),
    decreases s.len(),
{
    find_bounds(s, d);
    let i = find(s, d);
    if i < s.len() {
        let rest = split(s.skip(i + 1), d);
        pieces_make_up_the_text(s.skip(i + 1), d);
        let all = seq![s.take(i)] + rest;
        joined_front(all, seq![d]);
        assert(all.skip(1) =~= rest);
        assert(s =~= s.take(i) + seq![d] + s.skip(i + 1));
        assert forall|k: int| 0 <= k < all.len() implies !(#[trigger] all[k]).contains(d) by {
            if k > 0 {
                assert(all[k] == rest[k - 1]);
            }
        }
    } else {
        assert(split(s, d) =~= seq![s]);
        assert(split(s, d)[0] == s);
    }
}

proof fn joined_front(parts: Seq<Seq<char>>, sep: Seq<char>)
    requires
        parts.len() > 1,
    ensures
        joined(parts, sep) == parts[0] + sep + joined(parts.skip(1), sep),
    decreases parts.len(),
{
    if parts.len() == 2 {
        assert(parts.drop_last() =~= seq![parts[0]]);
        assert(parts.skip(1) =~= seq![parts[1]]);
        assert(joined(parts.drop_last(), sep) == parts[0]);
        assert(joined(parts.skip(1), sep) == parts[1]);
    } else {
        joined_front(parts.drop_last(), sep);
        assert(parts.drop_last().skip(1) =~= parts.skip(1).drop_last());
        assert(joined(parts, sep) =~= parts[0] + sep + joined(parts.skip(1), sep));
    }
}

/// Joining begins with the first part, and then comes the separator and what
/// joining the others gives.
pub proof fn joining_goes_part_by_part(first_part: Seq<char>, rest: Seq<Seq<char>>, sep: Seq<char>)
    ensures
        joined(seq![first_part], sep) == first_part,
        rest.len() > 0 ==> joined(seq![first_part] + rest, sep) == first_part + sep + joined(
            rest,
            sep,
        ),
{
    if rest.len() > 0 {
        let all = seq![first_part] + rest;
        joined_front(all, sep);
        assert(all.skip(1) =~= rest);
    }
}

/// Only capital letters change, each to the small letter at the same place of
/// the alphabet; so a second time changes nothing.
pub proof fn only_capitals_are_lowered(s: Seq<char>, i: int)
    requires
        0 <= i < s.len(),
    ensures
        lowered(s).len() == s.len(),
        'A' <= s[i] <= 'Z' ==> lowered(s)[i] as int - 'a' as int == s[i] as int - 'A' as int,
        !('A' <= s[i] <= 'Z') ==> lowered(s)[i] == s[i],
        lowered(lowered(s)) == lowered(s),
{
    assert(lowered(lowered(s)) =~= lowered(s));
}

/// Taking out what was put in restores the text.
pub proof fn removing_undoes_inserting(s: Seq<char>, at: int, t: Seq<char>)
    requires
        0 <= at <= s.len(),
    ensures
        without(with_inserted(s, at, t), at, at + t.len()) == s,
        with_inserted(s, at, t).subrange(at, at + t.len()) == t,
{
    assert(without(with_inserted(s, at, t), at, at + t.len()) =~= s);
    assert(with_inserted(s, at, t).subrange(at, at + t.len()) =~= t);
}

/// Occurrences add up over the parts of a text.
pub proof fn counts_add_up(a: Seq<char>, b: Seq<char>, d: char)
    ensures
        count(a + b, d) == count(a, d) + count(b, d),
        count(seq![d], d) == 1,
        !b.contains(d) <==> count(b, d) == 0,
    decreases b.len(),
{
    reveal_with_fuel(count, 2);
    if b.len() == 0 {
        assert(a + b =~= a);
    } else {
        assert((a + b).drop_last() =~= a + b.drop_last());
        assert((a + b).last() == b.last());
        counts_add_up(a, b.drop_last(), d);
        if b.contains(d) {
            let k = choose|k: int| 0 <= k < b.len() && b[k] == d;
            if k < b.len() - 1 {
                assert(b.drop_last()[k] == d);
            }
        } else {
            assert(b[b.len() - 1] != d);
            assert forall|k: int| 0 <= k < b.drop_last().len() implies b.drop_last()[k] != d by {
                assert(b[k] != d);
            }
        }
    }
    assert(seq![d].drop_last() =~= Seq::empty());
}

/// Clipping keeps what fits and stops only where the next character would not.
pub proof fn clipping_keeps_what_fits(s: Seq<char>, max: int)
    requires
        0 <= max,
    ensures
        byte_len(clipped(s, max)) <= max,
        clipped(s, max).len() < s.len() ==> byte_len(
            clipped(s, max).push(s[clipped(s, max).len() as int]),
        ) > max,
    decreases s.len(),
{
    if s.len() == 0 {
        reveal_with_fuel(encode_utf8, 1);
    } else if byte_len(s) > max {
        let t = s.drop_last();
        clipping_keeps_what_fits(t, max);
        clipped_is_prefix(t, max);
        let c = clipped(t, max);
        if c.len() == t.len() {
            assert(c =~= t);
            assert(c.push(s[c.len() as int]) =~= s);
        } else {
            assert(t[c.len() as int] == s[c.len() as int]);
        }
    }
}

/// No separator is left at the end, and only separators were taken away.
pub proof fn trimming_an_end_removes_all_of_it(s: Seq<char>, d: char, n: nat)
    requires
        s.len() > 0 ==> s.last() != d,
    ensures
        trim_end_of(s + Seq::new(n, |i: int| d), d) == s,
    decreases n,
{
    let t = s + Seq::new(n, |i: int| d);
    if n > 0 {
        let m = (n - 1) as nat;
        assert(t.last() == d);
        assert(t.drop_last() =~= s + Seq::new(m, |i: int| d));
        trimming_an_end_removes_all_of_it(s, d, m);
    } else {
        assert(t =~= s);
    }
}

/// Numbers below a hundred are written with two digits, which read back.
pub proof fn two_digits_are_two(n: nat)
    requires
        n < 100,
    ensures
        two_digits(n).len() == 2,
        digits_value(two_digits(n)) == n,
{
    reveal_with_fuel(decimal, 3);
    reveal_with_fuel(digits_value, 4);
    decimal_digits(n);
    if n < 10 {
        let s = seq!['0'] + decimal(n);
        assert(s.drop_last() =~= seq!['0']);
        assert(seq!['0'].drop_last() =~= Seq::empty());
        assert(s.last() == digit_char(n as int));
    }
}

} // verus!
