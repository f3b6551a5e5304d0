//! The Code Editor's text area: wrapping, the caret, selections and keys.

use vstd::prelude::*;
use vstd::string::*;

use crate::keys::{DecodedKey, KeyCode};
use crate::text;
use crate::window::metrics;

verus! {

/// Most characters a code buffer takes.
pub const CODE_CAP: usize = 16384;

// ── Rows ────────────────────────────────────────────────────────────────────

/// How many characters fit on one on-screen row of a code area this wide.
pub open spec fn row_chars(w: int) -> int {
    let n = (if w >= 10 { w - 10 } else { 0 }) / metrics::CHAR_W as int;
    if n >= 1 {
        n
    } else {
        1
    }
}

pub fn code_area_max_chars(w: usize) -> (r: usize)
    ensures
        r == row_chars(w as int),
        r >= 1,
{
    let inner_w: usize = if w >= 10 { w - 10 } else { 0 };
    let n: usize = inner_w / metrics::char_w();
    if n >= 1 {
        n
    } else {
        1
    }
}

/// Where a row that begins at or before `i` ends: at the limit, at a line
/// break, or at the end of the text.
pub open spec fn row_end(s: Seq<char>, i: int, limit: int) -> int
    decreases s.len() - i,
{
    if i >= s.len() || i >= limit || s[i] == '\n' {
        i
    } else {
        row_end(s, i + 1, limit)
    }
}

proof fn row_end_bounds(s: Seq<char>, i: int, limit: int)
    requires
        0 <= i <= s.len(),
        i <= limit,
    ensures
        i <= row_end(s, i, limit) <= s.len(),
        row_end(s, i, limit) <= limit,
    decreases s.len() - i,
{
    if !(i >= s.len() || i >= limit || s[i] == '\n') {
        row_end_bounds(s, i + 1, limit);
    }
}

/// The on-screen rows from `start` on, each as the characters it spans: the
/// text is broken at line breaks and after every `max` characters. A line
/// break belongs to no row, and there is always at least one row.
pub open spec fn rows_from(s: Seq<char>, max: int, start: int) -> Seq<(usize, usize)>
    decreases s.len() - start,
    when 0 <= start <= s.len() && max >= 1
    via rows_from_ends
{
    let e = row_end(s, start, start + max);
    if e == start + max {
        seq![(start as usize, e as usize)] + rows_from(s, max, e)
    } else if e < s.len() {
        seq![(start as usize, e as usize)] + rows_from(s, max, e + 1)
    } else {
        seq![(start as usize, e as usize)]
    }
}

#[via_fn]
proof fn rows_from_ends(s: Seq<char>, max: int, start: int) {
    row_end_bounds(s, start, start + max);
}

pub open spec fn code_rows(s: Seq<char>, max: int) -> Seq<(usize, usize)> {
    rows_from(s, max, 0)
}

/// Rows follow one another: each begins where the one before it ended, or
/// behind the line break there.
pub open spec fn chained(rows: Seq<(usize, usize)>, from: int, len: int) -> bool {
    &&& rows.len() > 0
    &&& rows[0].0 == from
    &&& rows.last().1 == len
    &&& forall|k: int|
        #![trigger rows[k]]
        0 <= k < rows.len() ==> rows[k].0 <= rows[k].1 <= len && (k > 0 ==> rows[k - 1].1
            <= rows[k].0 <= rows[k - 1].1 + 1)
}

/// The rows of a text cover it from the first character to the last.
pub proof fn rows_cover_the_text(s: Seq<char>, max: int, start: int)
    requires
        max >= 1,
        0 <= start <= s.len() <= usize::MAX,
    ensures
        chained(rows_from(s, max, start), start, s.len() as int),
        forall|k: int|
            0 <= k < rows_from(s, max, start).len() ==> (#[trigger] rows_from(s, max, start)[k]).1
                - rows_from(s, max, start)[k].0 <= max,
    decreases s.len() - start,
{
    let e = row_end(s, start, start + max);
    row_end_bounds(s, start, start + max);
    let rows = rows_from(s, max, start);
    if e == start + max || e < s.len() {
        let next = if e == start + max {
            e
        } else {
            e + 1
        };
        rows_cover_the_text(s, max, next);
        let rest = rows_from(s, max, next);
        assert(rows =~= seq![(start as usize, e as usize)] + rest);
        assert forall|k: int| #![trigger rows[k]] 0 <= k < rows.len() implies rows[k].0
            <= rows[k].1 <= s.len() && (k > 0 ==> rows[k - 1].1 <= rows[k].0 <= rows[k - 1].1 + 1)
            && rows[k].1 - rows[k].0 <= max by {
            if k > 0 {
                assert(rows[k] == rest[k - 1]);
                if k > 1 {
                    assert(rows[k - 1] == rest[k - 2]);
                }
            }
        }
        assert(rows.last() == rest.last());
    }
}

pub fn wrap_rows(chars: &[char], max_chars: usize) -> (rows: Vec<(usize, usize)>)
    ensures
        rows@ == code_rows(chars@, if max_chars >= 1 { max_chars as int } else { 1 }),
        chained(rows@, 0, chars@.len() as int),
{
    let max: usize = if max_chars >= 1 { max_chars } else { 1 };
    let mut rows: Vec<(usize, usize)> = Vec::new();
    let mut row_start: usize = 0;
    let mut i: usize = 0;
    let ghost all = code_rows(chars@, max as int);
    assert(all =~= rows@ + rows_from(chars@, max as int, 0));
    while i < chars.len()
        invariant
            row_start <= i <= chars@.len(),
            i - row_start < max,
            max >= 1,
            row_end(chars@, row_start as int, row_start + max) == row_end(
                chars@,
                i as int,
                row_start + max,
            ),
            all == rows@ + rows_from(chars@, max as int, row_start as int),
        decreases chars@.len() - i,
    {
        let ghost before = rows@;
        let ghost rest = rows_from(chars@, max as int, row_start as int);
        if chars[i] == '\n' {
            rows.push((row_start, i));
            proof {
                let next = rows_from(chars@, max as int, i + 1);
                assert(rest == seq![(row_start, i)] + next);
                assert(before + rest =~= rows@ + next);
            }
            row_start = i + 1;
        } else if i + 1 - row_start >= max {
            rows.push((row_start, (i + 1) as usize));
            proof {
                assert(row_end(chars@, i + 1, row_start + max) == i + 1);
                let next = rows_from(chars@, max as int, i + 1);
                assert(rest == seq![(row_start, (i + 1) as usize)] + next);
                assert(before + rest =~= rows@ + next);
            }
            row_start = i + 1;
        }
        i = i + 1;
    }
    let ghost before = rows@;
    rows.push((row_start, chars.len()));
    proof {
        assert(rows_from(chars@, max as int, row_start as int) =~= seq![(row_start, i)]);
        assert(rows@ =~= all);
        rows_cover_the_text(chars@, max as int, 0);
    }
    rows
}

/// The first row that reaches as far as the caret.
pub open spec fn row_of(rows: Seq<(usize, usize)>, cursor: int) -> int
    decreases rows.len(),
{
    if rows.len() <= 1 || cursor <= rows[0].1 {
        0
    } else {
        1 + row_of(rows.skip(1), cursor)
    }
}

/// The caret's column in its row; past the last row it is that row's end.
pub open spec fn col_of(rows: Seq<(usize, usize)>, cursor: int) -> int {
    let r = rows[row_of(rows, cursor)];
    if cursor <= r.1 {
        cursor - r.0
    } else {
        r.1 - r.0
    }
}

proof fn row_of_at(rows: Seq<(usize, usize)>, cursor: int, k: int)
    requires
        0 <= k < rows.len(),
        forall|j: int| 0 <= j < k ==> (#[trigger] rows[j]).1 < cursor,
        cursor <= rows[k].1 || k == rows.len() - 1,
    ensures
        row_of(rows, cursor) == k,
    decreases rows.len(),
{
    if k > 0 {
        assert(rows[0].1 < cursor);
        assert forall|j: int| 0 <= j < k - 1 implies (#[trigger] rows.skip(1)[j]).1 < cursor by {
            assert(rows.skip(1)[j] == rows[j + 1]);
        }
        row_of_at(rows.skip(1), cursor, k - 1);
    }
}

/// Locates a caret within `rows`, as `(row, column)`.
pub fn cursor_row_col(rows: &[(usize, usize)], cursor: usize) -> (r: (usize, usize))
    requires
        exists|len: int| chained(rows@, 0, len),
    ensures
        r.0 == row_of(rows@, cursor as int),
        r.1 == col_of(rows@, cursor as int),
        r.0 < rows@.len(),
        rows@[r.0 as int].0 + r.1 <= rows@[r.0 as int].1,
{
    let ghost len = choose|len: int| chained(rows@, 0, len);
    let mut k: usize = 0;
    while k < rows.len()
        invariant
            k <= rows@.len(),
            chained(rows@, 0, len),
            forall|j: int| 0 <= j < k ==> (#[trigger] rows@[j]).1 < cursor,
        decreases rows@.len() - k,
    {
        let (start, end) = rows[k];
        if cursor <= end {
            proof {
                row_of_at(rows@, cursor as int, k as int);
                assert(rows@[k as int].0 <= cursor) by {
                    if k > 0 {
                        assert(rows@[k - 1].1 < cursor);
                    }
                }
            }
            return (k, cursor - start);
        }
        k = k + 1;
    }
    let last: usize = rows.len() - 1;
    proof {
        assert(rows@[last as int].1 < cursor);
        row_of_at(rows@, cursor as int, last as int);
    }
    (last, rows[last].1 - rows[last].0)
}

/// From one row of a code area to the next.
pub const ROW_STEP: usize = 18;

/// How many rows a code area this high has room for.
pub open spec fn visible_rows(h: int) -> int {
    let n = (if h >= 8 { h - 8 } else { 0 }) / (ROW_STEP as int);
    if n >= 1 {
        n
    } else {
        1
    }
}

/// The row at the top: far enough down that the caret's row is on screen.
pub open spec fn first_row(caret_row: int, visible: int) -> int {
    if caret_row >= visible {
        caret_row - (visible - 1)
    } else {
        0
    }
}

/// The row at the top of a code area with this text and caret.
pub open spec fn top_row(s: Seq<char>, w: int, h: int, cursor: int) -> int {
    let caret = if cursor <= s.len() {
        cursor
    } else {
        s.len() as int
    };
    first_row(row_of(code_rows(s, row_chars(w)), caret), visible_rows(h))
}

pub fn shown_rows(h: usize) -> (r: usize)
    ensures
        r == visible_rows(h as int),
        r >= 1,
{
    let n: usize = (if h >= 8 { h - 8 } else { 0 }) / ROW_STEP;
    if n >= 1 {
        n
    } else {
        1
    }
}

/// The row at the top, for a caret in this row.
pub fn scrolled_to(caret_row: usize, visible: usize) -> (r: usize)
    requires
        visible >= 1,
    ensures
        r == first_row(caret_row as int, visible as int),
        r <= caret_row,
        caret_row - r < visible,
{
    if caret_row >= visible {
        caret_row - (visible - 1)
    } else {
        0
    }
}

/// The character nearest to a point of a code area, whose rows are scrolled so
/// that the caret's is on screen: past the end of a row or below the last one
/// the nearest row and column are taken.
pub open spec fn char_at(s: Seq<char>, w: int, h: int, cursor: int, lx: int, ly: int) -> int {
    let rows = code_rows(s, row_chars(w));
    let row = top_row(s, w, h, cursor) + (if ly > 4 { ly - 4 } else { 0 }) / (ROW_STEP as int);
    let r = rows[if row < rows.len() { row } else { rows.len() - 1 }];
    let col = (if lx > 6 { lx - 6 } else { 0 }) / (metrics::CHAR_W as int);
    r.0 + (if col <= r.1 - r.0 { col } else { r.1 - r.0 })
}

pub fn code_area_cursor_at(s: &str, w: usize, h: usize, cursor: usize, lx: i32, ly: i32) -> (r:
    usize)
    ensures
        r == char_at(s@, w as int, h as int, cursor as int, lx as int, ly as int),
        r <= s@.len(),
{
    let chars = text::chars_of(s);
    let rows = wrap_rows(chars.as_slice(), code_area_max_chars(w));
    let caret: usize = if cursor <= chars.len() { cursor } else { chars.len() };
    let (caret_row, _) = cursor_row_col(rows.as_slice(), caret);
    let first: usize = scrolled_to(caret_row, shown_rows(h));
    let down: usize = if ly > 4 { (ly - 4) as usize } else { 0 };
    let below: usize = down / ROW_STEP;
    let row: usize = if below < rows.len() - first { first + below } else { rows.len() - 1 };
    let across: usize = if lx > 6 { (lx - 6) as usize } else { 0 };
    let col: usize = across / metrics::char_w();
    assert(rows@[row as int].0 <= rows@[row as int].1 <= chars@.len());
    let (start, end) = rows[row];
    if col <= end - start {
        start + col
    } else {
        end
    }
}

// ── Words and selections ────────────────────────────────────────────────────

/// Identifiers, runs of white space and runs of anything else each form a
/// word of their own for a double click.
pub open spec fn char_class(c: char) -> u8 {
    if text::alphanumeric(c) || c == '_' {
        0
    } else if text::white_space(c) {
        1
    } else {
        2
    }
}

fn word_char_class(c: char) -> (r: u8)
    ensures
        r == char_class(c),
{
    if c.is_alphanumeric() || c == '_' {
        0
    } else if text::is_white_space(c) {
        1
    } else {
        2
    }
}

/// The beginning and the end of the run of one class around a character.
pub open spec fn run_start(s: Seq<char>, i: int) -> int
    decreases i,
{
    if 0 < i < s.len() && char_class(s[i - 1]) == char_class(s[i]) {
        run_start(s, i - 1)
    } else {
        i
    }
}

pub open spec fn run_end(s: Seq<char>, i: int) -> int
    decreases s.len() - i,
{
    if 0 <= i < s.len() - 1 && char_class(s[i + 1]) == char_class(s[i]) {
        run_end(s, i + 1)
    } else {
        i + 1
    }
}

/// The word under a caret, or the one just before it at the end of the text.
pub open spec fn word_bounds(s: Seq<char>, idx: int) -> (usize, usize) {
    if s.len() == 0 {
        (0, 0)
    } else {
        let probe = if idx < s.len() {
            idx
        } else {
            idx - 1
        };
        (run_start(s, probe) as usize, run_end(s, probe) as usize)
    }
}

/// A run of one class that cannot be made longer and holds the character
/// `probe`.
pub open spec fn word_run(s: Seq<char>, probe: int, a: int, b: int) -> bool {
    &&& 0 <= a <= probe < b <= s.len()
    &&& forall|j: int| a <= j < b ==> char_class(#[trigger] s[j]) == char_class(s[probe])
    &&& a > 0 ==> char_class(s[a - 1]) != char_class(s[probe])
    &&& b < s.len() ==> char_class(s[b]) != char_class(s[probe])
}

/// A double click selects a run of one class that cannot be made longer.
pub proof fn a_word_is_a_run(s: Seq<char>, probe: int)
    requires
        0 <= probe < s.len(),
    ensures
        word_run(s, probe, run_start(s, probe), run_end(s, probe)),
{
    run_start_runs(s, probe);
    run_end_runs(s, probe);
}

proof fn run_start_runs(s: Seq<char>, i: int)
    requires
        0 <= i < s.len(),
    ensures
        0 <= run_start(s, i) <= i,
        forall|j: int| run_start(s, i) <= j <= i ==> char_class(#[trigger] s[j]) == char_class(s[i]),
        run_start(s, i) > 0 ==> char_class(s[run_start(s, i) - 1]) != char_class(s[i]),
    decreases i,
{
    if 0 < i && char_class(s[i - 1]) == char_class(s[i]) {
        run_start_runs(s, i - 1);
    }
}

proof fn run_end_runs(s: Seq<char>, i: int)
    requires
        0 <= i < s.len(),
    ensures
        i < run_end(s, i) <= s.len(),
        forall|j: int| i <= j < run_end(s, i) ==> char_class(#[trigger] s[j]) == char_class(s[i]),
        run_end(s, i) < s.len() ==> char_class(s[run_end(s, i)]) != char_class(s[i]),
    decreases s.len() - i,
{
    if i < s.len() - 1 && char_class(s[i + 1]) == char_class(s[i]) {
        run_end_runs(s, i + 1);
    }
}

/// Expands a double click to the word under it.
pub fn word_bounds_at(chars: &[char], idx: usize) -> (r: (usize, usize))
    requires
        idx <= chars@.len(),
    ensures
        r == word_bounds(chars@, idx as int),
        r.0 <= r.1 <= chars@.len(),
{
    if chars.len() == 0 {
        return (0, 0);
    }
    let probe: usize = if idx < chars.len() { idx } else { idx - 1 };
    let class: u8 = word_char_class(chars[probe]);
    let mut start: usize = probe;
    while start > 0 && word_char_class(chars[start - 1]) == class
        invariant
            start <= probe < chars@.len(),
            class == char_class(chars@[start as int]),
            run_start(chars@, probe as int) == run_start(chars@, start as int),
        decreases start,
    {
        start = start - 1;
    }
    let mut last: usize = probe;
    while last < chars.len() - 1 && word_char_class(chars[last + 1]) == class
        invariant
            probe <= last < chars@.len(),
            class == char_class(chars@[last as int]),
            run_end(chars@, probe as int) == run_end(chars@, last as int),
        decreases chars@.len() - last,
    {
        last = last + 1;
    }
    (start, last + 1)
}

/// A double click selects one definite word: no two runs around a character
/// qualify.
pub proof fn words_are_unambiguous(s: Seq<char>, probe: int, a: int, b: int, c: int, d: int)
    requires
        word_run(s, probe, a, b),
        word_run(s, probe, c, d),
    ensures
        (a, b) == (c, d),
{
    if a < c {
        assert(char_class(s[c - 1]) == char_class(s[probe]));
    }
    if c < a {
        assert(char_class(s[a - 1]) == char_class(s[probe]));
    }
    if b < d {
        assert(char_class(s[b]) == char_class(s[probe]));
    }
    if d < b {
        assert(char_class(s[d]) == char_class(s[probe]));
    }
}

/// The selected characters, in order; none where the two ends meet.
pub open spec fn selected_range(cursor: usize, selection: Option<usize>) -> Option<(usize, usize)> {
    match selection {
        Some(a) if a < cursor => Some((a, cursor)),
        Some(a) if a > cursor => Some((cursor, a)),
        _ => None,
    }
}

pub fn code_area_selected_range(cursor: usize, selection: Option<usize>) -> (r: Option<
    (usize, usize),
>)
    ensures
        r == selected_range(cursor, selection),
{
    match selection {
        Some(a) => if a < cursor {
            Some((a, cursor))
        } else if a > cursor {
            Some((cursor, a))
        } else {
            None
        },
        None => None,
    }
}

// ── Keys ────────────────────────────────────────────────────────────────────

/// A code area and the clipboard next to it.
pub ghost struct Edit {
    pub text: Seq<char>,
    pub cursor: usize,
    pub selection: Option<usize>,
    pub clip: Seq<char>,
}

impl Edit {
    /// The caret and the selection lie within the text.
    pub open spec fn wf(self) -> bool {
        &&& self.text.len() <= usize::MAX
        &&& self.cursor <= self.text.len()
        &&& self.selection matches Some(a) ==> a <= self.text.len()
    }

    /// A caret or selection past the end of the text is moved to the end.
    pub open spec fn clamped(self) -> Edit {
        let n = self.text.len() as usize;
        Edit {
            cursor: if self.cursor > n {
                n
            } else {
                self.cursor
            },
            selection: match self.selection {
                Some(a) if a > n => Some(n),
                other => other,
            },
            ..self
        }
    }

    /// The selection, if there is one, is gone and the caret stands where it
    /// began.
    pub open spec fn cut(self) -> Edit {
        match selected_range(self.cursor, self.selection) {
            Some((lo, hi)) => Edit {
                text: text::without(self.text, lo as int, hi as int),
                cursor: lo,
                selection: None,
                ..self
            },
            None => Edit { selection: None, ..self },
        }
    }

    pub open spec fn has_selection(self) -> bool {
        selected_range(self.cursor, self.selection) is Some
    }

    /// `t` typed at the caret.
    pub open spec fn typed(self, t: Seq<char>) -> Edit {
        Edit {
            text: text::with_inserted(self.text, self.cursor as int, t),
            cursor: (self.cursor + t.len()) as usize,
            ..self
        }
    }

    pub open spec fn moved(self, to: int) -> Edit {
        Edit { cursor: to as usize, selection: None, ..self }
    }
}

/// What a key did to a code area: nothing it knows, or something after which
/// the status line is out of date, or something after which it is not.
#[derive(Debug, Clone, Copy, PartialEq, Eq, Structural)]
pub enum KeyUse {
    Ignored,
    Changed,
    Selected,
}

/// Copy, cut, paste and select-all.
pub open spec fn chord(e: Edit, c: char) -> Option<(Edit, KeyUse)> {
    let l = text::lower(c);
    if l == 'c' || l == 'x' {
        Some(
            (
                match selected_range(e.cursor, e.selection) {
                    Some((lo, hi)) => {
                        let copied = Edit { clip: e.text.subrange(lo as int, hi as int), ..e };
                        if c == 'x' {
                            copied.cut()
                        } else {
                            copied
                        }
                    },
                    None => e,
                },
                KeyUse::Changed,
            ),
        )
    } else if l == 'v' {
        let f = e.cut();
        Some(
            (
                if f.clip.len() > 0 && f.text.len() + f.clip.len() < CODE_CAP {
                    f.typed(f.clip)
                } else {
                    f
                },
                KeyUse::Changed,
            ),
        )
    } else if l == 'a' {
        Some(
            (
                Edit { cursor: e.text.len() as usize, selection: Some(0), ..e },
                KeyUse::Selected,
            ),
        )
    } else {
        None
    }
}

/// Moves that keep to the on-screen rows.
pub open spec fn row_move(e: Edit, w: int, k: KeyCode) -> Option<Edit> {
    let rows = code_rows(e.text, row_chars(w));
    let row = row_of(rows, e.cursor as int);
    let col = col_of(rows, e.cursor as int);
    match k {
        KeyCode::Home => Some(e.moved(rows[row].0 as int)),
        KeyCode::End => Some(e.moved(rows[row].1 as int)),
        KeyCode::ArrowUp => Some(
            if row > 0 {
                let r = rows[row - 1];
                e.moved(if r.0 + col <= r.1 { r.0 + col } else { r.1 as int })
            } else {
                e.moved(e.cursor as int)
            },
        ),
        KeyCode::ArrowDown => Some(
            if row + 1 < rows.len() {
                let r = rows[row + 1];
                e.moved(if r.0 + col <= r.1 { r.0 + col } else { r.1 as int })
            } else {
                e.moved(e.cursor as int)
            },
        ),
        _ => None,
    }
}

/// What a key does in a code area of width `w`.
pub open spec fn code_key(before: Edit, w: int, k: DecodedKey, ctrl: bool) -> (Edit, KeyUse) {
    let e = before.clamped();
    let n = e.text.len();
    match k {
        DecodedKey::Unicode(c) => if ctrl && chord(e, c) is Some {
            chord(e, c)->0
        } else if c == '\x08' {
            (
                if e.has_selection() {
                    e.cut()
                } else if e.cursor > 0 {
                    Edit {
                        text: text::without(e.text, e.cursor - 1, e.cursor as int),
                        cursor: (e.cursor - 1) as usize,
                        selection: None,
                        ..e
                    }
                } else {
                    e.cut()
                },
                KeyUse::Changed,
            )
        } else if c == '\n' || c == '\r' {
            let f = e.cut();
            (if f.text.len() < CODE_CAP { f.typed(seq!['\n']) } else { f }, KeyUse::Changed)
        } else if c == '\t' {
            let f = e.cut();
            (if f.text.len() + 4 < CODE_CAP { f.typed("    "@) } else { f }, KeyUse::Changed)
        } else {
            let f = e.cut();
            (if f.text.len() < CODE_CAP { f.typed(seq![c]) } else { f }, KeyUse::Changed)
        },
        DecodedKey::RawKey(KeyCode::Delete) => (
            if e.has_selection() {
                e.cut()
            } else if e.cursor < n {
                Edit {
                    text: text::without(e.text, e.cursor as int, e.cursor + 1),
                    selection: None,
                    ..e
                }
            } else {
                e.cut()
            },
            KeyUse::Changed,
        ),
        DecodedKey::RawKey(KeyCode::ArrowLeft) => (
            match selected_range(e.cursor, e.selection) {
                Some((lo, _)) => e.moved(lo as int),
                None => e.moved(if e.cursor > 0 { e.cursor - 1 } else { 0 }),
            },
            KeyUse::Changed,
        ),
        DecodedKey::RawKey(KeyCode::ArrowRight) => (
            match selected_range(e.cursor, e.selection) {
                Some((_, hi)) => e.moved(hi as int),
                None => e.moved(if e.cursor < n { e.cursor + 1 } else { n as int }),
            },
            KeyUse::Changed,
        ),
        DecodedKey::RawKey(code) => match row_move(e, w, code) {
            Some(f) => (f, KeyUse::Changed),
            None => (e, KeyUse::Ignored),
        },
    }
}

/// Deletes the active selection (if any), moving the caret to where it
/// started. Says whether anything was deleted.
pub fn code_area_delete_selection(
    s: &mut String,
    cursor: &mut usize,
    selection: &mut Option<usize>,
) -> (r: bool)
    requires
        *old(cursor) <= old(s)@.len(),
        *old(selection) matches Some(a) ==> a <= old(s)@.len(),
    ensures
        r == (selected_range(*old(cursor), *old(selection)) is Some),
        *final(selection) is None,
        match selected_range(*old(cursor), *old(selection)) {
            Some((lo, hi)) => final(s)@ == text::without(old(s)@, lo as int, hi as int)
                && *final(cursor) == lo,
            None => final(s)@ == old(s)@ && *final(cursor) == *old(cursor),
        },
        *final(cursor) <= final(s)@.len(),
{
    match code_area_selected_range(*cursor, *selection) {
        Some((lo, hi)) => {
            text::remove_range(s, lo, hi);
            *cursor = lo;
            *selection = None;
            true
        },
        None => {
            *selection = None;
            false
        },
    }
}

fn type_text(s: &mut String, cursor: &mut usize, t: &str)
    requires
        *old(cursor) <= old(s)@.len(),
        old(s)@.len() + t@.len() <= CODE_CAP,
    ensures
        final(s)@ == text::with_inserted(old(s)@, *old(cursor) as int, t@),
        *final(cursor) == *old(cursor) + t@.len(),
{
    text::insert_text(s, *cursor, t);
    *cursor = *cursor + t.unicode_len();
}

fn one_char(c: char) -> (s: String)
    ensures
        s@ == seq![c],
{
    let mut s = String::new();
    s.push(c);
    assert(s@ =~= seq![c]);
    s
}

#[verifier::rlimit(60)]
fn chord_key(
    s: &mut String,
    cursor: &mut usize,
    selection: &mut Option<usize>,
    clipboard: &mut String,
    c: char,
) -> (r: Option<KeyUse>)
    requires
        (Edit {
            text: old(s)@,
            cursor: *old(cursor),
            selection: *old(selection),
            clip: old(clipboard)@,
        }).wf(),
    ensures
        ({
            let e = Edit {
                text: old(s)@,
                cursor: *old(cursor),
                selection: *old(selection),
                clip: old(clipboard)@,
            };
            let f = Edit {
                text: final(s)@,
                cursor: *final(cursor),
                selection: *final(selection),
                clip: final(clipboard)@,
            };
            match r {
                Some(u) => chord(e, c) == Some((f, u)),
                None => chord(e, c) is None && f == e,
            }
        }),
{
    let l = text::to_lower(c);
    if l == 'c' || l == 'x' {
        match code_area_selected_range(*cursor, *selection) {
            Some((lo, hi)) => {
                *clipboard = s.as_str().substring_char(lo, hi).to_owned();
                if c == 'x' {
                    text::remove_range(s, lo, hi);
                    *cursor = lo;
                    *selection = None;
                }
            },
            None => {},
        }
        Some(KeyUse::Changed)
    } else if l == 'v' {
        code_area_delete_selection(s, cursor, selection);
        let n: usize = s.as_str().unicode_len();
        let m: usize = clipboard.as_str().unicode_len();
        if m > 0 && n < CODE_CAP && m < CODE_CAP - n {
            type_text(s, cursor, clipboard.as_str());
        }
        Some(KeyUse::Changed)
    } else if l == 'a' {
        *selection = Some(0);
        *cursor = s.as_str().unicode_len();
        Some(KeyUse::Selected)
    } else {
        None
    }
}

/// Gives a key to a code area.
#[verifier::rlimit(60)]
pub fn code_area_key(
    s: &mut String,
    cursor: &mut usize,
    selection: &mut Option<usize>,
    clipboard: &mut String,
    w: usize,
    k: DecodedKey,
    ctrl: bool,
) -> (r: KeyUse)
    ensures
        ({
            let e = Edit {
                text: old(s)@,
                cursor: *old(cursor),
                selection: *old(selection),
                clip: old(clipboard)@,
            };
            let f = Edit {
                text: final(s)@,
                cursor: *final(cursor),
                selection: *final(selection),
                clip: final(clipboard)@,
            };
            (f, r) == code_key(e, w as int, k, ctrl)
        }),
{
    let char_len: usize = s.as_str().unicode_len();
    if *cursor > char_len {
        *cursor = char_len;
    }
    if let Some(a) = *selection {
        if a > char_len {
            *selection = Some(char_len);
        }
    }
    match k {
        DecodedKey::Unicode(c) => {
            if ctrl {
                if let Some(u) = chord_key(s, cursor, selection, clipboard, c) {
                    return u;
                }
            }
            if c == '\x08' {
                if !code_area_delete_selection(s, cursor, selection) && *cursor > 0 {
                    text::remove_range(s, *cursor - 1, *cursor);
                    *cursor = *cursor - 1;
                }
            } else if c == '\n' || c == '\r' {
                code_area_delete_selection(s, cursor, selection);
                if s.as_str().unicode_len() < CODE_CAP {
                    type_text(s, cursor, one_char('\n').as_str());
                }
            } else if c == '\t' {
                code_area_delete_selection(s, cursor, selection);
                proof {
                    reveal_strlit("    ");
                }
                if s.as_str().unicode_len() < CODE_CAP - 4 {
                    type_text(s, cursor, "    ");
                }
            } else {
                code_area_delete_selection(s, cursor, selection);
                if s.as_str().unicode_len() < CODE_CAP {
                    type_text(s, cursor, one_char(c).as_str());
                }
            }
            KeyUse::Changed
        },
        DecodedKey::RawKey(KeyCode::Delete) => {
            if !code_area_delete_selection(s, cursor, selection) && *cursor < char_len {
                text::remove_range(s, *cursor, *cursor + 1);
            }
            KeyUse::Changed
        },
        DecodedKey::RawKey(KeyCode::ArrowLeft) => {
            match code_area_selected_range(*cursor, *selection) {
                Some((lo, _)) => {
                    *cursor = lo;
                },
                None => {
                    if *cursor > 0 {
                        *cursor = *cursor - 1;
                    }
                },
            }
            *selection = None;
            KeyUse::Changed
        },
        DecodedKey::RawKey(KeyCode::ArrowRight) => {
            match code_area_selected_range(*cursor, *selection) {
                Some((_, hi)) => {
                    *cursor = hi;
                },
                None => {
                    if *cursor < char_len {
                        *cursor = *cursor + 1;
                    }
                },
            }
            *selection = None;
            KeyUse::Changed
        },
        DecodedKey::RawKey(KeyCode::ArrowUp) | DecodedKey::RawKey(KeyCode::ArrowDown)
        | DecodedKey::RawKey(KeyCode::Home) | DecodedKey::RawKey(KeyCode::End) => {
            *selection = None;
            let chars = text::chars_of(s.as_str());
            let rows = wrap_rows(chars.as_slice(), code_area_max_chars(w));
            let (row, col) = cursor_row_col(rows.as_slice(), *cursor);
            match k {
                DecodedKey::RawKey(KeyCode::ArrowUp) => {
                    if row > 0 {
                        let (start, end) = rows[row - 1];
                        *cursor = if col <= end - start { start + col } else { end };
                    }
                },
                DecodedKey::RawKey(KeyCode::ArrowDown) => {
                    if row + 1 < rows.len() {
                        let (start, end) = rows[row + 1];
                        *cursor = if col <= end - start { start + col } else { end };
                    }
                },
                DecodedKey::RawKey(KeyCode::Home) => {
                    *cursor = rows[row].0;
                },
                _ => {
                    *cursor = rows[row].1;
                },
            }
            KeyUse::Changed
        },
        _ => KeyUse::Ignored,
    }
}

proof fn row_move_keeps(e: Edit, w: int, code: KeyCode)
    requires
        e.wf(),
        row_move(e, w, code) is Some,
    ensures
        (row_move(e, w, code)->0).wf(),
{
    rows_cover_the_text(e.text, row_chars(w), 0);
    let rows = code_rows(e.text, row_chars(w));
    row_of_bounds(rows, e.cursor as int);
    row_of_skips(rows, e.cursor as int);
    let row = row_of(rows, e.cursor as int);
    assert(rows[row].0 <= rows[row].1 <= e.text.len());
    if row > 0 {
        assert(rows[row - 1].0 <= rows[row - 1].1 <= e.text.len());
        assert(rows[row - 1].1 < e.cursor);
    }
    if row + 1 < rows.len() {
        assert(rows[row + 1].0 <= rows[row + 1].1 <= e.text.len());
    }
    assert(0 <= col_of(rows, e.cursor as int));
}

proof fn typed_keeps(e: Edit, t: Seq<char>)
    requires
        e.wf(),
        e.text.len() + t.len() <= usize::MAX,
        e.selection is None,
    ensures
        e.typed(t).wf(),
{
}

/// Whatever is typed, the caret and the selection stay within the text.
pub proof fn keys_keep_the_caret_in_the_text(e: Edit, w: int, k: DecodedKey, ctrl: bool)
    requires
        e.text.len() <= usize::MAX - CODE_CAP,
    ensures
        code_key(e, w, k, ctrl).0.wf(),
{
    let c = e.clamped();
    assert(c.wf());
    cut_keeps(c);
    let f = c.cut();
    match k {
        DecodedKey::Unicode(x) => {
            reveal_strlit("    ");
            typed_keeps(f, seq!['\n']);
            typed_keeps(f, seq![x]);
            typed_keeps(f, "    "@);
            if f.text.len() + f.clip.len() < CODE_CAP {
                typed_keeps(f, f.clip);
            }
            assert((Edit { clip: f.clip, ..c }).cut().wf());
        },
        DecodedKey::RawKey(code) => {
            if row_move(c, w, code) is Some {
                row_move_keeps(c, w, code);
            }
        },
    }
}

proof fn cut_keeps(e: Edit)
    requires
        e.wf(),
    ensures
        e.cut().wf(),
        e.cut().text.len() <= e.text.len(),
{
}

proof fn row_of_skips(rows: Seq<(usize, usize)>, cursor: int)
    ensures
        forall|j: int| 0 <= j < row_of(rows, cursor) ==> (#[trigger] rows[j]).1 < cursor,
    decreases rows.len(),
{
    if rows.len() > 1 && cursor > rows[0].1 {
        row_of_bounds(rows.skip(1), cursor);
        row_of_skips(rows.skip(1), cursor);
        assert forall|j: int| 0 <= j < row_of(rows, cursor) implies (#[trigger] rows[j]).1
            < cursor by {
            if j > 0 {
                assert(rows.skip(1)[j - 1] == rows[j]);
            }
        }
    }
}

/// The caret's row is one of the rows.
pub proof fn row_of_bounds(rows: Seq<(usize, usize)>, cursor: int)
    requires
        rows.len() > 0,
    ensures
        0 <= row_of(rows, cursor) < rows.len(),
    decreases rows.len(),
{
    if rows.len() > 1 && cursor > rows[0].1 {
        row_of_bounds(rows.skip(1), cursor);
    }
}

/// Cutting a selection and pasting it back where it stood restores the text.
pub proof fn paste_undoes_cut(e: Edit)
    requires
        e.wf(),
        e.has_selection(),
        e.text.len() < CODE_CAP,
    ensures
        (chord((chord(e, 'x')->0).0, 'v')->0).0.text == e.text,
{
    let (lo, hi) = selected_range(e.cursor, e.selection)->0;
    let f = (chord(e, 'x')->0).0;
    assert(f.clip == e.text.subrange(lo as int, hi as int));
    assert(f.text.len() + f.clip.len() == e.text.len());
    assert(text::with_inserted(f.text, lo as int, f.clip) =~= e.text);
}

/// Whether the characters from `lo` up to `hi` are selected, with the caret at
/// one end of them.
pub open spec fn selects(e: Edit, lo: int, hi: int) -> bool {
    &&& 0 <= lo < hi <= e.text.len()
    &&& (e.cursor == hi && e.selection == Some(lo as usize)) || (e.cursor == lo && e.selection
        == Some(hi as usize))
}

/// Copying puts the selected characters into the clipboard and changes nothing
/// else; without a selection it changes nothing at all. Cutting takes them out
/// of the text as well, and leaves the caret where they stood.
pub proof fn copying_takes_the_selection(e: Edit, w: int, c: char, lo: int, hi: int)
    requires
        e.wf(),
        selects(e, lo, hi),
        c == 'c' || c == 'C',
    ensures
        code_key(e, w, DecodedKey::Unicode(c), true).0 == (Edit {
            clip: e.text.subrange(lo, hi),
            ..e
        }),
        code_key(e, w, DecodedKey::Unicode('x'), true).0 == (Edit {
            text: e.text.take(lo) + e.text.skip(hi),
            cursor: lo as usize,
            selection: None,
            clip: e.text.subrange(lo, hi),
        }),
        code_key((Edit { selection: None, ..e }), w, DecodedKey::Unicode(c), true).0 == (Edit {
            selection: None,
            ..e
        }),
        code_key((Edit { selection: None, ..e }), w, DecodedKey::Unicode('x'), true).0 == (Edit {
            selection: None,
            ..e
        }),
{
}

/// Pasting puts the clipboard in at the caret and leaves the caret behind it,
/// as long as the text stays below its limit.
pub proof fn pasting_puts_the_clipboard_in(e: Edit, w: int, c: char)
    requires
        e.wf(),
        e.selection is None,
        e.text.len() + e.clip.len() < 16384,
        c == 'v' || c == 'V',
    ensures
        code_key(e, w, DecodedKey::Unicode(c), true).0 == (Edit {
            text: e.text.take(e.cursor as int) + e.clip + e.text.skip(e.cursor as int),
            cursor: (e.cursor + e.clip.len()) as usize,
            ..e
        }),
{
    if e.clip.len() == 0 {
        assert(e.text.take(e.cursor as int) + e.clip + e.text.skip(e.cursor as int) =~= e.text);
    }
}

/// Copying a selection, moving the caret to `p` and pasting gives the text with
/// the selected characters once more at `p`.
pub proof fn a_copy_can_be_pasted_anywhere(e: Edit, w: int, lo: int, hi: int, p: int)
    requires
        e.wf(),
        selects(e, lo, hi),
        0 <= p <= e.text.len(),
        e.text.len() + (hi - lo) < 16384,
    ensures
        ({
            let copied = code_key(e, w, DecodedKey::Unicode('c'), true).0;
            let moved = Edit { cursor: p as usize, selection: None, ..copied };
            let pasted = code_key(moved, w, DecodedKey::Unicode('v'), true).0;
            pasted.text == e.text.take(p) + e.text.subrange(lo, hi) + e.text.skip(p)
        }),
{
    copying_takes_the_selection(e, w, 'c', lo, hi);
    let copied = code_key(e, w, DecodedKey::Unicode('c'), true).0;
    pasting_puts_the_clipboard_in(Edit { cursor: p as usize, selection: None, ..copied }, w, 'v');
}

/// Pasting over a selection replaces it.
pub proof fn pasting_replaces_the_selection(e: Edit, w: int, lo: int, hi: int)
    requires
        e.wf(),
        selects(e, lo, hi),
        e.text.len() - (hi - lo) + e.clip.len() < 16384,
    ensures
        code_key(e, w, DecodedKey::Unicode('v'), true).0.text == e.text.take(lo) + e.clip
            + e.text.skip(hi),
{
    let t = e.text.take(lo) + e.text.skip(hi);
    assert(t.take(lo) =~= e.text.take(lo));
    assert(t.skip(lo) =~= e.text.skip(hi));
    if e.clip.len() == 0 {
        assert(t =~= e.text.take(lo) + e.clip + e.text.skip(hi));
    }
}

/// Selecting everything and copying it puts the whole text into the clipboard;
/// deleting it leaves none.
pub proof fn everything_can_be_selected(e: Edit, w: int, a: char)
    requires
        e.wf(),
        a == 'a' || a == 'A',
        e.text.len() > 0,
    ensures
        ({
            let all = code_key(e, w, DecodedKey::Unicode(a), true).0;
            &&& all.text == e.text
            &&& all.clip == e.clip
            &&& code_key(all, w, DecodedKey::Unicode('c'), true).0.clip == e.text
            &&& code_key(all, w, DecodedKey::Unicode('\x08'), false).0.text.len() == 0
            &&& code_key(all, w, DecodedKey::RawKey(KeyCode::Delete), false).0.text.len() == 0
        }),
{
    let all = code_key(e, w, DecodedKey::Unicode(a), true).0;
    copying_takes_the_selection(all, w, 'c', 0, e.text.len() as int);
    assert(e.text.subrange(0, e.text.len() as int) =~= e.text);
}

/// What a character key types: a line break for the enter key, four blanks for
/// the tabulator, and else the character.
pub open spec fn typed_by(c: char) -> Seq<char> {
    if c == '\n' || c == '\r' {
        seq!['\n']
    } else if c == '\t' {
        seq![' ', ' ', ' ', ' ']
    } else {
        seq![c]
    }
}

/// What is typed goes in at the caret, and the caret goes behind it; nothing
/// else moves. In a full text nothing is typed.
pub proof fn typing_inserts_at_the_caret(e: Edit, w: int, c: char)
    requires
        e.wf(),
        e.selection is None,
        c != '\x08',
    ensures
        ({
            let f = code_key(e, w, DecodedKey::Unicode(c), false).0;
            let t = typed_by(c);
            if e.text.len() + t.len() <= 16384 && (c == '\t' ==> e.text.len() + 4 < 16384) {
                &&& f.text == e.text.take(e.cursor as int) + t + e.text.skip(e.cursor as int)
                &&& f.cursor == e.cursor + t.len()
                &&& f.selection is None
                &&& f.clip == e.clip
            } else {
                f == e
            }
        }),
{
    reveal_strlit("    ");
    assert("    "@ =~= seq![' ', ' ', ' ', ' ']);
}

/// Typing over a selection replaces it: it is the same as deleting the selected
/// characters first, and so it is with a line break or the tabulator.
pub proof fn typing_replaces_the_selection(e: Edit, w: int, c: char, lo: int, hi: int)
    requires
        e.wf(),
        selects(e, lo, hi),
        c != '\x08',
    ensures
        ({
            let cleared = Edit {
                text: e.text.take(lo) + e.text.skip(hi),
                cursor: lo as usize,
                selection: None,
                ..e
            };
            &&& code_key(e, w, DecodedKey::Unicode('\x08'), false).0 == cleared
            &&& code_key(e, w, DecodedKey::RawKey(KeyCode::Delete), false).0 == cleared
            &&& code_key(e, w, DecodedKey::Unicode(c), false) == code_key(
                cleared,
                w,
                DecodedKey::Unicode(c),
                false,
            )
        }),
{
    let cleared = Edit {
        text: e.text.take(lo) + e.text.skip(hi),
        cursor: lo as usize,
        selection: None,
        ..e
    };
    assert(e.cut() == cleared);
    assert(cleared.cut() == cleared);
}

/// Backspace takes back a character that was typed, and so do the left arrow
/// and the delete key together. At the ends of the text the two do nothing.
pub proof fn deleting_undoes_typing(e: Edit, w: int, c: char)
    requires
        e.wf(),
        e.selection is None,
        e.text.len() < 16384,
        c != '\x08',
        c != '\t',
    ensures
        ({
            let typed = code_key(e, w, DecodedKey::Unicode(c), false).0;
            let left = code_key(typed, w, DecodedKey::RawKey(KeyCode::ArrowLeft), false).0;
            &&& code_key(typed, w, DecodedKey::Unicode('\x08'), false).0 == e
            &&& code_key(left, w, DecodedKey::RawKey(KeyCode::Delete), false).0 == e
        }),
        e.cursor == 0 ==> code_key(e, w, DecodedKey::Unicode('\x08'), false).0 == e,
        e.cursor == e.text.len() ==> code_key(
            e,
            w,
            DecodedKey::RawKey(KeyCode::Delete),
            false,
        ).0 == e,
{
    let typed = code_key(e, w, DecodedKey::Unicode(c), false).0;
    let at = e.cursor as int;
    assert(text::without(typed.text, at, at + 1) =~= e.text);
}

/// The left and the right arrow undo each other within the text, stop at its
/// ends, and leave a selection at the end they point to.
pub proof fn arrows_move_by_one(e: Edit, w: int)
    requires
        e.wf(),
    ensures
        ({
            let left = code_key(e, w, DecodedKey::RawKey(KeyCode::ArrowLeft), false).0;
            let right = code_key(e, w, DecodedKey::RawKey(KeyCode::ArrowRight), false).0;
            &&& e.selection is None && e.cursor > 0 ==> left.cursor == e.cursor - 1 && code_key(
                left,
                w,
                DecodedKey::RawKey(KeyCode::ArrowRight),
                false,
            ).0 == e
            &&& e.selection is None && e.cursor < e.text.len() ==> right.cursor == e.cursor + 1
                && code_key(right, w, DecodedKey::RawKey(KeyCode::ArrowLeft), false).0 == e
            &&& e.selection is None && e.cursor == 0 ==> left == e
            &&& e.selection is None && e.cursor == e.text.len() ==> right == e
            &&& forall|lo: int, hi: int| #[trigger]
                selects(e, lo, hi) ==> left.cursor == lo && right.cursor == hi && left.selection
                    is None && right.selection is None
        }),
{
}

/// No move changes the text or the clipboard, or leaves a selection.
pub proof fn moving_changes_no_text(e: Edit, w: int, code: KeyCode)
    requires
        e.wf(),
        code != KeyCode::Delete,
    ensures
        code_key(e, w, DecodedKey::RawKey(code), false).0.text == e.text,
        code_key(e, w, DecodedKey::RawKey(code), false).0.clip == e.clip,
        code == KeyCode::ArrowLeft || code == KeyCode::ArrowRight || code == KeyCode::ArrowUp
            || code == KeyCode::ArrowDown || code == KeyCode::Home || code == KeyCode::End
            ==> code_key(e, w, DecodedKey::RawKey(code), false).0.selection is None,
{
}

pub open spec fn unbroken(s: Seq<char>, a: int, b: int) -> bool {
    forall|j: int| a <= j < b ==> #[trigger] s[j] != '\n'
}

proof fn row_end_stops(s: Seq<char>, i: int, limit: int)
    requires
        0 <= i <= s.len(),
        i <= limit,
    ensures
        unbroken(s, i, row_end(s, i, limit)),
        row_end(s, i, limit) == limit || row_end(s, i, limit) == s.len() || s[row_end(s, i, limit)]
            == '\n',
    decreases s.len() - i,
{
    if !(i >= s.len() || i >= limit || s[i] == '\n') {
        row_end_stops(s, i + 1, limit);
    }
}

/// A row holds no line break and ends only where it must: at a line break, at
/// the end of the text, or when it is full; and the next row begins behind the
/// line break, or right there where the row was full.
pub proof fn rows_end_where_they_must(s: Seq<char>, max: int, start: int, k: int)
    requires
        max >= 1,
        0 <= start <= s.len() <= usize::MAX,
        0 <= k < rows_from(s, max, start).len(),
    ensures
        ({
            let rows = rows_from(s, max, start);
            let r = rows[k];
            &&& unbroken(s, r.0 as int, r.1 as int)
            &&& k + 1 == rows.len() ==> r.1 == s.len() && r.1 - r.0 < max
            &&& k + 1 < rows.len() ==> {
                ||| r.1 - r.0 == max && rows[k + 1].0 == r.1
                ||| r.1 - r.0 < max && s[r.1 as int] == '\n' && rows[k + 1].0 == r.1 + 1
            }
        }),
    decreases s.len() - start,
{
    let e = row_end(s, start, start + max);
    row_end_bounds(s, start, start + max);
    row_end_stops(s, start, start + max);
    let rows = rows_from(s, max, start);
    if e == start + max || e < s.len() {
        let next = if e == start + max {
            e
        } else {
            e + 1
        };
        let rest = rows_from(s, max, next);
        rows_cover_the_text(s, max, next);
        assert(rows =~= seq![(start as usize, e as usize)] + rest);
        if k > 0 {
            rows_end_where_they_must(s, max, next, k - 1);
            assert(rows[k] == rest[k - 1]);
            if k + 1 < rows.len() {
                assert(rows[k + 1] == rest[k]);
            }
        } else {
            assert(rows[1] == rest[0]);
        }
    }
}

/// The home and the end key go to the two ends of the caret's row: no line
/// break lies between, and beyond them there is one, or the end of the text,
/// or the row was full.
pub proof fn home_and_end_stay_in_the_row(e: Edit, w: int)
    requires
        e.wf(),
        w >= 0,
    ensures
        ({
            let max = row_chars(w);
            let a = code_key(e, w, DecodedKey::RawKey(KeyCode::Home), false).0.cursor as int;
            let b = code_key(e, w, DecodedKey::RawKey(KeyCode::End), false).0.cursor as int;
            &&& 0 <= a <= e.cursor <= b <= e.text.len()
            &&& unbroken(e.text, a, b)
            &&& b - a <= max
            &&& b == e.text.len() || b - a == max || e.text[b] == '\n'
            &&& a == 0 || e.text[a - 1] == '\n' || (a >= max && unbroken(e.text, a - max, a))
        }),
{
    let max = row_chars(w);
    let rows = code_rows(e.text, max);
    rows_cover_the_text(e.text, max, 0);
    row_of_bounds(rows, e.cursor as int);
    row_of_skips(rows, e.cursor as int);
    let k = row_of(rows, e.cursor as int);
    row_of_reaches(rows, e.cursor as int);
    rows_end_where_they_must(e.text, max, 0, k);
    assert(rows[k].0 <= rows[k].1 <= e.text.len());
    if k > 0 {
        rows_end_where_they_must(e.text, max, 0, k - 1);
        assert(rows[k - 1].1 < e.cursor);
        assert(rows[k - 1].0 <= rows[k - 1].1);
    }
}

proof fn row_of_reaches(rows: Seq<(usize, usize)>, cursor: int)
    requires
        rows.len() > 0,
        cursor <= rows.last().1,
    ensures
        cursor <= rows[row_of(rows, cursor)].1,
        0 <= row_of(rows, cursor) < rows.len(),
    decreases rows.len(),
{
    if rows.len() > 1 && cursor > rows[0].1 {
        assert(rows.skip(1).last() == rows.last());
        row_of_reaches(rows.skip(1), cursor);
        let k = row_of(rows.skip(1), cursor);
        assert(rows.skip(1)[k] == rows[k + 1]);
    }
}

/// The up and the down arrow go to the row above or below and keep the column,
/// or go to the end of a row that is too short; in the first and the last row
/// they stay.
pub proof fn up_and_down_keep_the_column(e: Edit, w: int, k: int, down: bool)
    requires
        e.wf(),
        w >= 0,
        0 <= k < code_rows(e.text, row_chars(w)).len(),
        code_rows(e.text, row_chars(w))[k].0 <= e.cursor <= code_rows(e.text, row_chars(w))[k].1,
        k > 0 ==> code_rows(e.text, row_chars(w))[k - 1].1 < e.cursor,
    ensures
        ({
            let rows = code_rows(e.text, row_chars(w));
            let f = code_key(
                e,
                w,
                DecodedKey::RawKey(
                    if down {
                        KeyCode::ArrowDown
                    } else {
                        KeyCode::ArrowUp
                    },
                ),
                false,
            ).0;
            let to = if down {
                k + 1
            } else {
                k - 1
            };
            let col = e.cursor - rows[k].0;
            if 0 <= to < rows.len() {
                &&& rows[to].0 <= f.cursor <= rows[to].1
                &&& f.cursor - rows[to].0 == col || (f.cursor == rows[to].1 && f.cursor
                    - rows[to].0 < col)
            } else {
                f.cursor == e.cursor
            }
        }),
{
    let rows = code_rows(e.text, row_chars(w));
    rows_cover_the_text(e.text, row_chars(w), 0);
    assert forall|j: int| 0 <= j < k implies (#[trigger] rows[j]).1 < e.cursor by {
        rows_rise(rows, e.text.len() as int, j, k - 1);
    }
    row_of_at(rows, e.cursor as int, k);
    if k > 0 {
        assert(rows[k - 1].0 <= rows[k - 1].1);
    }
    if k + 1 < rows.len() {
        assert(rows[k + 1].0 <= rows[k + 1].1);
    }
}

proof fn rows_rise(rows: Seq<(usize, usize)>, len: int, j: int, k: int)
    requires
        chained(rows, 0, len),
        0 <= j <= k < rows.len(),
    ensures
        rows[j].1 <= rows[k].1,
    decreases k - j,
{
    if j < k {
        rows_rise(rows, len, j, k - 1);
        assert(rows[k].0 <= rows[k].1);
        assert(rows[k - 1].1 <= rows[k].0);
    }
}

/// A row holds as many characters as fit between the margins, and at least one.
pub proof fn rows_fill_the_width(w: int)
    requires
        w >= 0,
    ensures
        row_chars(w) >= 1,
        w >= 10 + metrics::CHAR_W ==> row_chars(w) * metrics::CHAR_W <= w - 10 < (row_chars(w) + 1)
            * metrics::CHAR_W,
{
    if w >= 10 + metrics::CHAR_W {
        let d = metrics::CHAR_W as int;
        let n = (w - 10) / d;
        assert(n >= 1 && n * d <= w - 10 < (n + 1) * d) by (nonlinear_arith)
            requires
                n == (w - 10) / d,
                d > 0,
                w - 10 >= d,
        ;
    }
}

} // verus!
