//! Words in a line of text, and numbers and columns as tables print them.

use vstd::prelude::*;
use vstd::string::*;

use crate::text;
use crate::text::{chars_of, is_white_space, string_between};

verus! {

// ── Words ───────────────────────────────────────────────────────────────────

/// How many characters come before the first white space.
pub open spec fn word_len(s: Seq<char>) -> nat
    decreases s.len(),
{
    if s.len() == 0 || text::white_space(s[0]) {
        0
    } else {
        1 + word_len(s.skip(1))
    }
}

pub proof fn word_len_bounds(s: Seq<char>)
    ensures
        word_len(s) <= s.len(),
        forall|i: int| 0 <= i < word_len(s) ==> !text::white_space(#[trigger] s[i]),
        word_len(s) < s.len() ==> text::white_space(s[word_len(s) as int]),
    decreases s.len(),
{
    if s.len() > 0 && !text::white_space(s[0]) {
        word_len_bounds(s.skip(1));
        assert forall|i: int| 0 <= i < word_len(s) implies !text::white_space(#[trigger] s[i]) by {
            if i > 0 {
                assert(s[i] == s.skip(1)[i - 1]);
            }
        }
        if word_len(s) < s.len() {
            assert(s[word_len(s) as int] == s.skip(1)[word_len(s.skip(1)) as int]);
        }
    }
}

/// The words of a text, which are what white space separates.
pub open spec fn words(s: Seq<char>) -> Seq<Seq<char>>
    decreases s.len(),
{
    if s.len() == 0 {
        Seq::empty()
    } else if text::white_space(s[0]) {
        words(s.skip(1))
    } else {
        proof {
            word_len_bounds(s);
        }
        seq![s.take(word_len(s) as int)] + words(s.skip(word_len(s) as int))
    }
}

/// The end of the word that starts at `from`.
fn word_end(v: &Vec<char>, from: usize) -> (r: usize)
    requires
        from <= v@.len(),
    ensures
        r == from + word_len(v@.skip(from as int)),
        from <= r <= v@.len(),
{
    let mut i: usize = from;
    proof {
        word_len_bounds(v@.skip(from as int));
    }
    while i < v.len() && !is_white_space(v[i])
        invariant
            from <= i <= v@.len(),
            i + word_len(v@.skip(i as int)) == from + word_len(v@.skip(from as int)),
        decreases v@.len() - i,
    {
        assert(v@.skip(i as int).skip(1) =~= v@.skip(i + 1));
        i = i + 1;
    }
    i
}

pub fn split_words(s: &str) -> (r: Vec<String>)
    ensures
        text::strings(r@) == words(s@),
{
    let v = chars_of(s);
    let mut r: Vec<String> = Vec::new();
    let mut i: usize = 0;
    assert(v@.skip(0) =~= s@);
    assert(text::strings(r@) + words(v@) =~= words(s@));
    while i < v.len()
        invariant
            i <= v@.len(),
            text::strings(r@) + words(v@.skip(i as int)) == words(s@),
        decreases v@.len() - i,
    {
        if is_white_space(v[i]) {
            assert(v@.skip(i as int).skip(1) =~= v@.skip(i + 1));
            i = i + 1;
        } else {
            let ghost rest = v@.skip(i as int);
            let ghost before = text::strings(r@);
            let end = word_end(&v, i);
            let word = string_between(v.as_slice(), i, end);
            proof {
                word_len_bounds(rest);
                assert(word@ =~= rest.take(end - i));
                assert(rest.skip(end - i) =~= v@.skip(end as int));
                assert(word_len(rest) >= 1);
            }
            r.push(word);
            proof {
                assert(text::strings(r@) =~= before.push(word@));
                assert(before.push(word@) + words(v@.skip(end as int)) =~= before + (seq![word@]
                    + words(v@.skip(end as int))));
            }
            i = end;
        }
    }
    assert(v@.skip(i as int) =~= Seq::empty());
    assert(text::strings(r@) =~= words(s@));
    r
}

/// A text cut at its first white space: what comes before, and what comes
/// after if there is any.
pub open spec fn cut(s: Seq<char>) -> (Seq<char>, Option<Seq<char>>) {
    let n = word_len(s) as int;
    if n < s.len() {
        (s.take(n), Some(s.skip(n + 1)))
    } else {
        (s, None)
    }
}

pub fn cut_text(s: &str) -> (r: (String, Option<String>))
    ensures
        r.0@ == cut(s@).0,
        (match r.1 {
            Some(t) => Some(t@),
            None => None,
        }) == cut(s@).1,
{
    let v = chars_of(s);
    assert(v@.skip(0) =~= s@);
    let n = word_end(&v, 0);
    let head = string_between(v.as_slice(), 0, n);
    assert(head@ =~= s@.take(n as int));
    if n < v.len() {
        let tail = string_between(v.as_slice(), n + 1, v.len());
        assert(tail@ =~= s@.skip(n + 1));
        (head, Some(tail))
    } else {
        assert(head@ =~= s@);
        (head, None)
    }
}

/// The word at place `n` of a text, if it has so many.
pub open spec fn nth_word(s: Seq<char>, n: int) -> Option<Seq<char>> {
    if 0 <= n < words(s).len() {
        Some(words(s)[n])
    } else {
        None
    }
}

/// The second word of a text.
pub fn second_word(s: &str) -> (r: Option<String>)
    ensures
        (match r {
            Some(t) => Some(t@),
            None => None,
        }) == nth_word(s@, 1),
{
    let v = split_words(s);
    assert(text::strings(v@).len() == v@.len());
    if v.len() > 1 {
        assert(text::strings(v@)[1] == v@[1]@);
        Some(v[1].as_str().to_owned())
    } else {
        None
    }
}

// ── Replacing ───────────────────────────────────────────────────────────────

/// The text with each occurrence of `p`, taken from the left, replaced.
pub open spec fn replaced(s: Seq<char>, p: Seq<char>, t: Seq<char>) -> Seq<char>
    decreases s.len(),
{
    if s.len() == 0 || p.len() == 0 {
        s
    } else if text::has_prefix(s, p) {
        t + replaced(s.skip(p.len() as int), p, t)
    } else {
        seq![s[0]] + replaced(s.skip(1), p, t)
    }
}

/// Whether `p` stands in `v` at place `i`.
fn stands_at(v: &Vec<char>, i: usize, p: &Vec<char>) -> (r: bool)
    requires
        i <= v@.len(),
    ensures
        r == text::has_prefix(v@.skip(i as int), p@),
{
    if p.len() > v.len() - i {
        return false;
    }
    let n: usize = v.len();
    let mut k: usize = 0;
    while k < p.len()
        invariant
            n == v@.len(),
            k <= p@.len() <= n - i,
            forall|j: int| 0 <= j < k ==> v@[i + j] == p@[j],
        decreases p@.len() - k,
    {
        if v[i + k] != p[k] {
            assert(v@.skip(i as int).take(p@.len() as int)[k as int] != p@[k as int]);
            return false;
        }
        k = k + 1;
    }
    assert(v@.skip(i as int).take(p@.len() as int) =~= p@);
    true
}

pub fn replace(s: &str, p: &str, t: &str) -> (r: String)
    requires
        p@.len() > 0,
    ensures
        r@ == replaced(s@, p@, t@),
{
    let v = chars_of(s);
    let q = chars_of(p);
    let mut r = String::new();
    let mut i: usize = 0;
    let ghost goal = replaced(s@, p@, t@);
    assert(v@.skip(0) =~= s@);
    assert(r@ + goal =~= goal);
    while i < v.len()
        invariant
            i <= v@.len(),
            q@ == p@,
            p@.len() > 0,
            goal == r@ + replaced(v@.skip(i as int), p@, t@),
        decreases v@.len() - i,
    {
        let ghost rest = v@.skip(i as int);
        let ghost before = r@;
        if stands_at(&v, i, &q) {
            r.append(t);
            proof {
                assert(rest.skip(p@.len() as int) =~= v@.skip(i + p@.len()));
                assert(r@ + replaced(v@.skip(i + p@.len()), p@, t@) =~= before + (t@ + replaced(
                    v@.skip(i + p@.len()),
                    p@,
                    t@,
                )));
            }
            i = i + q.len();
        } else {
            r.push(v[i]);
            proof {
                assert(rest.skip(1) =~= v@.skip(i + 1));
                assert(r@ + replaced(v@.skip(i + 1), p@, t@) =~= before + (seq![v@[i as int]]
                    + replaced(v@.skip(i + 1), p@, t@)));
            }
            i = i + 1;
        }
    }
    assert(v@.skip(i as int) =~= Seq::empty());
    assert(goal =~= r@);
    r
}

// ── Columns ─────────────────────────────────────────────────────────────────

pub open spec fn repeated(c: char, n: int) -> Seq<char> {
    Seq::new(
        if n > 0 {
            n as nat
        } else {
            0
        },
        |i: int| c,
    )
}

/// The text filled up with blanks on the right to a column's width.
pub open spec fn padded(s: Seq<char>, width: nat) -> Seq<char> {
    s + repeated(' ', width - s.len())
}

fn push_repeated(out: &mut String, c: char, n: usize)
    ensures
        final(out)@ == old(out)@ + repeated(c, n as int),
{
    let mut i: usize = 0;
    assert(out@ =~= old(out)@ + repeated(c, 0));
    while i < n
        invariant
            i <= n,
            out@ == old(out)@ + repeated(c, i as int),
        decreases n - i,
    {
        out.push(c);
        i = i + 1;
        assert(out@ =~= old(out)@ + repeated(c, i as int));
    }
}

pub fn push_padded(out: &mut String, s: &str, width: usize)
    ensures
        final(out)@ == old(out)@ + padded(s@, width as nat),
{
    out.append(s);
    let n: usize = s.unicode_len();
    if n < width {
        push_repeated(out, ' ', width - n);
    }
    assert(out@ =~= old(out)@ + padded(s@, width as nat));
}

/// A number right-aligned in a column.
pub open spec fn aligned(n: nat, width: nat) -> Seq<char> {
    repeated(' ', width - text::decimal(n).len()) + text::decimal(n)
}

pub fn push_aligned(out: &mut String, n: u64, width: usize)
    ensures
        final(out)@ == old(out)@ + aligned(n as nat, width as nat),
{
    let mut t = String::new();
    text::push_decimal(&mut t, n);
    assert(t@ =~= text::decimal(n as nat));
    let len: usize = t.as_str().unicode_len();
    if len < width {
        push_repeated(out, ' ', width - len);
    }
    out.append(t.as_str());
    assert(out@ =~= old(out)@ + aligned(n as nat, width as nat));
}

// ── Hexadecimal ─────────────────────────────────────────────────────────────

pub open spec fn hex_char(d: int) -> char {
    if d < 10 {
        (48 + d) as char
    } else {
        (87 + d) as char
    }
}

pub fn hex_digit(d: u8) -> (r: char)
    requires
        d < 16,
    ensures
        r == hex_char(d as int),
{
    if d < 10 {
        (48 + d) as char
    } else {
        (87 + d) as char
    }
}

/// The last `width` hexadecimal digits of a number.
pub open spec fn hex(n: nat, width: nat) -> Seq<char>
    decreases width,
{
    if width == 0 {
        Seq::empty()
    } else {
        hex(n / 16, (width - 1) as nat).push(hex_char((n % 16) as int))
    }
}

/// Print a number in so many hexadecimal digits, with zeroes in front.
pub fn push_hex(out: &mut String, n: u64, width: usize)
    ensures
        final(out)@ == old(out)@ + hex(n as nat, width as nat),
    decreases width,
{
    if width == 0 {
        assert(out@ =~= old(out)@ + hex(n as nat, 0));
    } else {
        push_hex(out, n / 16, width - 1);
        out.push(hex_digit((n % 16) as u8));
        assert(out@ =~= old(out)@ + hex(n as nat, width as nat));
    }
}

// ── Laws ────────────────────────────────────────────────────────────────────

pub open spec fn unspaced(s: Seq<char>) -> bool {
    forall|i: int| 0 <= i < s.len() ==> !text::white_space(#[trigger] s[i])
}

proof fn word_len_of(w: Seq<char>, rest: Seq<char>)
    requires
        unspaced(w),
        rest.len() > 0 ==> text::white_space(rest[0]),
    ensures
        word_len(w + rest) == w.len(),
    decreases w.len(),
{
    if w.len() == 0 {
        assert(w + rest =~= rest);
    } else {
        assert((w + rest)[0] == w[0]);
        assert((w + rest).skip(1) =~= w.skip(1) + rest);
        assert(unspaced(w.skip(1))) by {
            assert forall|i: int| 0 <= i < w.skip(1).len() implies !text::white_space(
                #[trigger] w.skip(1)[i],
            ) by {
                assert(!text::white_space(w[i + 1]));
            }
        }
        word_len_of(w.skip(1), rest);
    }
}

/// White space parts the words: those of a text are those in front of a blank
/// and then those behind it, and a text without any is one word.
pub proof fn words_are_parted_by_blanks(a: Seq<char>, c: char, b: Seq<char>)
    requires
        text::white_space(c),
    ensures
        words(a + seq![c] + b) == words(a) + words(b),
        unspaced(a) && a.len() > 0 ==> words(a) == seq![a],
        words(Seq::empty()) == Seq::<Seq<char>>::empty(),
    decreases a.len(),
{
    let s = a + seq![c] + b;
    if a.len() == 0 {
        assert(s[0] == c);
        assert(s.skip(1) =~= b);
        assert(words(a) + words(b) =~= words(b));
    } else if text::white_space(a[0]) {
        assert(s[0] == a[0]);
        assert(s.skip(1) =~= a.skip(1) + seq![c] + b);
        words_are_parted_by_blanks(a.skip(1), c, b);
    } else {
        word_len_bounds(a);
        let n = word_len(a) as int;
        let w = a.take(n);
        assert(unspaced(w));
        let tail = a.skip(n);
        if tail.len() > 0 {
            assert(tail[0] == a[n]);
        }
        word_len_of(w, tail + seq![c] + b);
        assert(w + (tail + seq![c] + b) =~= s);
        assert((tail + seq![c] + b)[0] == (if tail.len() > 0 { tail[0] } else { c }));
        assert(s.take(n) =~= w);
        assert(s.skip(n) =~= tail + seq![c] + b);
        assert(n > 0);
        words_are_parted_by_blanks(tail, c, b);
        assert(seq![w] + (words(tail) + words(b)) =~= (seq![w] + words(tail)) + words(b));
        if unspaced(a) {
            if n < a.len() {
                assert(!text::white_space(a[n]));
            }
            assert(w =~= a);
            assert(tail =~= Seq::empty());
            assert(words(a) =~= seq![a]);
        }
    }
}

/// The words of a text are what was written with blanks between.
pub proof fn words_come_apart_again(ws: Seq<Seq<char>>)
    requires
        forall|i: int| 0 <= i < ws.len() ==> unspaced(#[trigger] ws[i]) && ws[i].len() > 0,
    ensures
        words(text::joined(ws, " "@)) == ws,
    decreases ws.len(),
{
    reveal_strlit(" ");
    assert(" "@ =~= seq![' ']);
    if ws.len() == 0 {
        assert(ws =~= Seq::empty());
    } else {
        let w = ws.last();
        assert(unspaced(ws[ws.len() - 1]));
        words_are_parted_by_blanks(w, ' ', Seq::empty());
        if ws.len() == 1 {
            assert(ws =~= seq![w]);
        } else {
            let init = ws.drop_last();
            words_come_apart_again(init);
            words_are_parted_by_blanks(text::joined(init, " "@), ' ', w);
            assert(init + seq![w] =~= ws);
        }
    }
}

/// A text is cut behind its first word; what follows the one blank there is
/// kept as it is.
pub proof fn cutting_takes_the_first_word(w: Seq<char>, c: char, b: Seq<char>)
    requires
        unspaced(w),
        text::white_space(c),
    ensures
        cut(w + seq![c] + b) == (w, Some(b)),
        cut(w) == (w, None::<Seq<char>>),
{
    word_len_of(w, seq![c] + b);
    assert(w + (seq![c] + b) =~= w + seq![c] + b);
    assert((w + seq![c] + b).take(w.len() as int) =~= w);
    assert((w + seq![c] + b).skip((w.len() + 1) as int) =~= b);
    word_len_of(w, Seq::empty());
    assert(w + Seq::<char>::empty() =~= w);
}

/// The first occurrence is replaced, and then those in what follows it; a text
/// without one stays as it is.
pub proof fn replacing_goes_from_the_left(a: Seq<char>, p: Seq<char>, b: Seq<char>, t: Seq<char>)
    requires
        p.len() > 0,
        forall|i: int| 0 <= i < a.len() ==> !#[trigger] text::has_prefix((a + p + b).skip(i), p),
    ensures
        replaced(a + p + b, p, t) == a + t + replaced(b, p, t),
    decreases a.len(),
{
    let s = a + p + b;
    if a.len() == 0 {
        assert(s.take(p.len() as int) =~= p);
        assert(s.skip(p.len() as int) =~= b);
        assert(a + t + replaced(b, p, t) =~= t + replaced(b, p, t));
    } else {
        assert(!text::has_prefix(s.skip(0), p));
        assert(s.skip(0) =~= s);
        let a1 = a.skip(1);
        assert(s.skip(1) =~= a1 + p + b);
        assert forall|i: int| 0 <= i < a1.len() implies !#[trigger] text::has_prefix(
            (a1 + p + b).skip(i),
            p,
        ) by {
            assert((a1 + p + b).skip(i) =~= s.skip(i + 1));
            assert(!text::has_prefix(s.skip(i + 1), p));
        }
        replacing_goes_from_the_left(a1, p, b, t);
        assert(seq![s[0]] + (a1 + t + replaced(b, p, t)) =~= a + t + replaced(b, p, t));
    }
}

/// A text in which there is nothing to replace stays as it is.
pub proof fn replacing_nothing_changes_nothing(s: Seq<char>, p: Seq<char>, t: Seq<char>)
    requires
        forall|i: int| 0 <= i < s.len() ==> !#[trigger] text::has_prefix(s.skip(i), p),
    ensures
        replaced(s, p, t) == s,
    decreases s.len(),
{
    if s.len() > 0 && p.len() > 0 {
        assert(!text::has_prefix(s.skip(0), p));
        assert(s.skip(0) =~= s);
        assert forall|i: int| 0 <= i < s.skip(1).len() implies !#[trigger] text::has_prefix(
            s.skip(1).skip(i),
            p,
        ) by {
            assert(s.skip(1).skip(i) =~= s.skip(i + 1));
            assert(!text::has_prefix(s.skip(i + 1), p));
        }
        replacing_nothing_changes_nothing(s.skip(1), p, t);
        assert(seq![s[0]] + s.skip(1) =~= s);
    }
}

/// A column is as wide as it was asked to be, or as its text where that is
/// longer; the text begins it and blanks fill it up. A number ends its column.
pub proof fn columns_are_filled_up(s: Seq<char>, n: nat, width: nat)
    ensures
        padded(s, width).len() == (if s.len() < width { width } else { s.len() }),
        padded(s, width).take(s.len() as int) == s,
        forall|i: int| s.len() <= i < padded(s, width).len() ==> #[trigger] padded(s, width)[i] == ' ',
        aligned(n, width).len() >= width,
        aligned(n, width).len() == width || aligned(n, width) == text::decimal(n),
        aligned(n, width).skip(aligned(n, width).len() - text::decimal(n).len()) == text::decimal(
            n,
        ),
        forall|i: int|
            0 <= i < aligned(n, width).len() - text::decimal(n).len() ==> #[trigger] aligned(
                n,
                width,
            )[i] == ' ',
{
    assert(padded(s, width).take(s.len() as int) =~= s);
    assert(aligned(n, width).skip(aligned(n, width).len() - text::decimal(n).len())
        =~= text::decimal(n));
    if text::decimal(n).len() >= width {
        assert(aligned(n, width) =~= text::decimal(n));
    }
}

/// What a hexadecimal numeral in small letters stands for.
pub open spec fn hex_value(s: Seq<char>) -> nat
    decreases s.len(),
{
    if s.len() == 0 {
        0
    } else {
        let c = s.last();
        hex_value(s.drop_last()) * 16 + (if '0' <= c <= '9' {
            (c as nat - '0' as nat) as nat
        } else {
            (c as nat - 'a' as nat + 10) as nat
        })
    }
}

/// How many numbers so many hexadecimal digits can stand for.
pub open spec fn sixteens(width: nat) -> nat
    decreases width,
{
    if width == 0 {
        1
    } else {
        16 * sixteens((width - 1) as nat)
    }
}

/// A hexadecimal numeral has the digits asked for, and they read back as the
/// number wherever it fits in them.
pub proof fn hexadecimal_reads_back(n: nat, width: nat)
    ensures
        hex(n, width).len() == width,
        forall|i: int|
            0 <= i < width ==> '0' <= #[trigger] hex(n, width)[i] <= '9' || 'a' <= hex(n, width)[i]
                <= 'f',
        n < sixteens(width) ==> hex_value(hex(n, width)) == n,
    decreases width,
{
    if width > 0 {
        let m = (width - 1) as nat;
        hexadecimal_reads_back(n / 16, m);
        let s = hex(n, width);
        assert(s.drop_last() =~= hex(n / 16, m));
        assert(s.last() == hex_char((n % 16) as int));
    }
}

} // verus!
