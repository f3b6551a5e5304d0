//! The interactive shell: a line buffer with history, the commands that a
//! line can hold, and what the shell prints about them.

use vstd::prelude::*;
use vstd::string::*;

use crate::keys::{DecodedKey, KeyCode};
use crate::text;
use crate::text::{clip, string_of, width_of};

pub mod command;
pub mod grammar;
pub mod report;

verus! {

/// How many lines the shell remembers.
pub const HISTORY_SIZE: usize = 16;

/// Most characters in a line.
pub const LINE_CAP: usize = 1024;

/// Most bytes of a line that are read as a command.
pub const COMMAND_CAP: usize = 512;

pub struct Shell {
    /// The line being typed.
    buffer: Vec<char>,
    /// Earlier lines, the latest one last.
    history: Vec<Vec<char>>,
    /// 0 is the line being typed, 1 the latest of the earlier lines, and so on.
    history_cursor: usize,
    /// The line being typed, while an earlier one is shown.
    temp_buffer: Vec<char>,
}

pub ghost struct ShellModel {
    pub line: Seq<char>,
    pub history: Seq<Seq<char>>,
    pub cursor: int,
    pub draft: Seq<char>,
}

pub open spec fn lines_view(v: Seq<Vec<char>>) -> Seq<Seq<char>> {
    v.map_values(|l: Vec<char>| l@)
}

impl View for Shell {
    type V = ShellModel;

    closed spec fn view(&self) -> ShellModel {
        ShellModel {
            line: self.buffer@,
            history: lines_view(self.history@),
            cursor: self.history_cursor as int,
            draft: self.temp_buffer@,
        }
    }
}

impl ShellModel {
    pub open spec fn wf(self) -> bool {
        &&& self.line.len() <= LINE_CAP
        &&& self.draft.len() <= LINE_CAP
        &&& self.history.len() <= HISTORY_SIZE
        &&& forall|i: int| 0 <= i < self.history.len() ==> (#[trigger] self.history[i]).len() <= LINE_CAP
        &&& 0 <= self.cursor <= self.history.len()
    }

    /// The line remembered, unless it repeats the latest one. The oldest line
    /// makes room.
    pub open spec fn remembered(self) -> ShellModel {
        if self.history.len() > 0 && self.history.last() == self.line {
            self
        } else if self.history.len() < HISTORY_SIZE {
            ShellModel { history: self.history.push(self.line), ..self }
        } else {
            ShellModel { history: self.history.skip(1).push(self.line), ..self }
        }
    }

    /// How far back the shell looks after one more step.
    pub open spec fn target(self, back: bool) -> int {
        if back {
            if self.cursor < self.history.len() {
                self.cursor + 1
            } else {
                self.history.len() as int
            }
        } else if self.cursor > 0 {
            self.cursor - 1
        } else {
            0
        }
    }

    /// Another line shown in place of the one that is.
    pub open spec fn moved(self, back: bool) -> ShellModel {
        let t = self.target(back);
        let draft = if self.cursor == 0 {
            self.line
        } else {
            self.draft
        };
        if t == self.cursor {
            self
        } else {
            ShellModel {
                cursor: t,
                draft,
                line: if t == 0 {
                    draft
                } else {
                    self.history[self.history.len() - t]
                },
                ..self
            }
        }
    }
}

/// What becomes of a line as a command: it is read up to a number of bytes,
/// and nothing is read where that cuts a character in two.
pub open spec fn command_text(line: Seq<char>) -> Seq<char> {
    let c = text::clipped(line, COMMAND_CAP as int);
    if c == line || text::byte_len(c) == COMMAND_CAP {
        c
    } else {
        Seq::empty()
    }
}

/// What the shell shows after a key.
pub struct Echo {
    /// How many characters to take back.
    pub erase: usize,
    /// What to print then.
    pub print: String,
    /// Whether the line ended: a new one begins after the command, with the
    /// prompt.
    pub enter: bool,
    /// The command to run.
    pub command: Option<String>,
}

pub ghost struct EchoModel {
    pub erase: nat,
    pub print: Seq<char>,
    pub enter: bool,
    pub command: Option<Seq<char>>,
}

impl View for Echo {
    type V = EchoModel;

    open spec fn view(&self) -> EchoModel {
        EchoModel {
            erase: self.erase as nat,
            print: self.print@,
            enter: self.enter,
            command: match self.command {
                Some(c) => Some(c@),
                None => None,
            },
        }
    }
}

pub open spec fn silence() -> EchoModel {
    EchoModel { erase: 0, print: Seq::empty(), enter: false, command: None }
}

/// The line entered: it is remembered, and run unless it is empty.
pub open spec fn entered(s: ShellModel) -> (ShellModel, EchoModel) {
    let s1 = ShellModel { line: Seq::empty(), cursor: 0, ..s.remembered() };
    if s.line.len() > 0 {
        (s1, EchoModel { enter: true, command: Some(command_text(s.line)), ..silence() })
    } else {
        (ShellModel { cursor: 0, ..s }, EchoModel { enter: true, ..silence() })
    }
}

pub open spec fn browsed(s: ShellModel, back: bool) -> (ShellModel, EchoModel) {
    if s.target(back) == s.cursor {
        (s, silence())
    } else {
        (s.moved(back), EchoModel { erase: s.line.len(), print: s.moved(back).line, ..silence() })
    }
}

pub open spec fn keyed(s: ShellModel, k: DecodedKey) -> (ShellModel, EchoModel) {
    match k {
        DecodedKey::Unicode(c) => if c == '\n' || c == '\r' {
            entered(s)
        } else if c == '\x08' {
            if s.line.len() > 0 {
                (
                    ShellModel { line: s.line.drop_last(), ..s },
                    EchoModel { erase: 1, ..silence() },
                )
            } else {
                (s, silence())
            }
        } else if s.line.len() < LINE_CAP {
            (ShellModel { line: s.line.push(c), ..s }, EchoModel { print: seq![c], ..silence() })
        } else {
            (s, silence())
        },
        DecodedKey::RawKey(KeyCode::ArrowUp) => browsed(s, true),
        DecodedKey::RawKey(KeyCode::ArrowDown) => browsed(s, false),
        _ => (s, silence()),
    }
}

fn copy_line(v: &Vec<char>) -> (r: Vec<char>)
    ensures
        r@ == v@,
{
    let mut r: Vec<char> = Vec::new();
    let mut i: usize = 0;
    while i < v.len()
        invariant
            i <= v@.len(),
            r@ == v@.take(i as int),
        decreases v@.len() - i,
    {
        r.push(v[i]);
        i = i + 1;
        assert(r@ =~= v@.take(i as int));
    }
    assert(r@ =~= v@);
    r
}

fn same_line(a: &Vec<char>, b: &Vec<char>) -> (r: bool)
    ensures
        r == (a@ == b@),
{
    if a.len() != b.len() {
        return false;
    }
    let mut i: usize = 0;
    while i < a.len()
        invariant
            i <= a@.len(),
            a@.len() == b@.len(),
            forall|j: int| 0 <= j < i ==> a@[j] == b@[j],
        decreases a@.len() - i,
    {
        if a[i] != b[i] {
            return false;
        }
        i = i + 1;
    }
    assert(a@ =~= b@);
    true
}

/// The text of a line that is read as a command.
pub fn command_of(line: &Vec<char>) -> (r: String)
    requires
        line@.len() <= LINE_CAP,
    ensures
        r@ == command_text(line@),
{
    let s = string_of(line.as_slice());
    let c = clip(s.as_str(), COMMAND_CAP);
    let n: usize = c.as_str().unicode_len();
    proof {
        text::clipped_is_prefix(line@, COMMAND_CAP as int);
    }
    if n == line.len() {
        assert(c@ =~= line@);
        return c;
    }
    let v = text::chars_of(c.as_str());
    let mut used: usize = 0;
    let mut i: usize = 0;
    assert(v@.take(0) =~= Seq::empty());
    while i < v.len()
        invariant
            i <= v@.len(),
            used == text::byte_len(v@.take(i as int)),
            used <= 4 * i,
            v@.len() <= LINE_CAP,
        decreases v@.len() - i,
    {
        proof {
            assert(v@.take(i + 1) =~= v@.take(i as int).push(v@[i as int]));
            text::byte_len_push(v@.take(i as int), v@[i as int]);
        }
        used = used + width_of(v[i]);
        i = i + 1;
    }
    assert(v@.take(i as int) =~= v@);
    if used == COMMAND_CAP {
        c
    } else {
        let none = String::new();
        assert(none@ =~= Seq::empty());
        none
    }
}

fn quiet() -> (r: Echo)
    ensures
        r@ == silence(),
{
    let print = String::new();
    assert(print@ =~= Seq::empty());
    Echo { erase: 0, print, enter: false, command: None }
}

impl Shell {
    pub fn new() -> (r: Self)
        ensures
            r@ == (ShellModel {
                line: Seq::empty(),
                history: Seq::empty(),
                cursor: 0,
                draft: Seq::empty(),
            }),
            r@.wf(),
    {
        let r = Shell {
            buffer: Vec::new(),
            history: Vec::new(),
            history_cursor: 0,
            temp_buffer: Vec::new(),
        };
        assert(r@.history =~= Seq::empty());
        r
    }

    /// What the shell prints where a line begins.
    pub fn prompt(&self) -> (r: &'static str)
        ensures
            r@ == "os101> "@,
    {
        "os101> "
    }

    /// Process a single key.
    pub fn handle_key(&mut self, k: DecodedKey) -> (r: Echo)
        requires
            old(self)@.wf(),
        ensures
            (final(self)@, r@) == keyed(old(self)@, k),
            final(self)@.wf(),
    {
        match k {
            DecodedKey::Unicode(c) => {
                if c == '\n' || c == '\r' {
                    return self.enter();
                }
                let mut echo = quiet();
                if c == '\x08' {
                    if self.buffer.len() > 0 {
                        let gone = self.buffer.pop();
                        echo.erase = 1;
                    }
                } else if self.buffer.len() < LINE_CAP {
                    self.buffer.push(c);
                    echo.print.push(c);
                    assert(echo.print@ =~= seq![c]);
                }
                echo
            },
            DecodedKey::RawKey(KeyCode::ArrowUp) => self.navigate_history(true),
            DecodedKey::RawKey(KeyCode::ArrowDown) => self.navigate_history(false),
            _ => quiet(),
        }
    }

    fn enter(&mut self) -> (r: Echo)
        requires
            old(self)@.wf(),
        ensures
            (final(self)@, r@) == entered(old(self)@),
            final(self)@.wf(),
    {
        let mut echo = quiet();
        echo.enter = true;
        if self.buffer.len() > 0 {
            self.push_history();
            echo.command = Some(command_of(&self.buffer));
            self.buffer.clear();
            assert(self@.line =~= Seq::empty());
        }
        self.history_cursor = 0;
        echo
    }

    fn push_history(&mut self)
        requires
            old(self)@.wf(),
        ensures
            final(self)@ == old(self)@.remembered(),
            final(self)@.line == old(self)@.line,
            final(self)@.wf(),
    {
        let n: usize = self.history.len();
        assert(self@.history.len() == n);
        if n > 0 {
            assert(self@.history.last() == self.history@[n - 1]@);
            if same_line(&self.history[n - 1], &self.buffer) {
                return;
            }
        }
        let ghost before = self.history@;
        let line = copy_line(&self.buffer);
        if n >= HISTORY_SIZE {
            let gone = self.history.remove(0);
            self.history.push(line);
            assert(lines_view(self.history@) =~= lines_view(before).skip(1).push(line@));
        } else {
            self.history.push(line);
            assert(lines_view(self.history@) =~= lines_view(before).push(line@));
        }
        assert(self@ =~= old(self)@.remembered());
        assert forall|i: int| 0 <= i < self@.history.len() implies (#[trigger] self@.history[i]).len()
            <= LINE_CAP by {
            if i == self@.history.len() - 1 {
                assert(self@.history[i] == line@);
            } else if n >= HISTORY_SIZE {
                assert(self@.history[i] == old(self)@.history[i + 1]);
            } else {
                assert(self@.history[i] == old(self)@.history[i]);
            }
        }
    }

    /// Show an earlier line, or a later one.
    fn navigate_history(&mut self, back: bool) -> (r: Echo)
        requires
            old(self)@.wf(),
        ensures
            (final(self)@, r@) == browsed(old(self)@, back),
            final(self)@.wf(),
    {
        let n: usize = self.history.len();
        assert(self@.history.len() == n);
        let at: usize = self.history_cursor;
        let target: usize = if back {
            if at < n {
                at + 1
            } else {
                n
            }
        } else if at > 0 {
            at - 1
        } else {
            0
        };
        if target == at {
            return quiet();
        }
        let ghost start = self@;
        let erase: usize = self.buffer.len();
        if at == 0 {
            self.temp_buffer = copy_line(&self.buffer);
        }
        self.history_cursor = target;
        if target == 0 {
            self.buffer = copy_line(&self.temp_buffer);
        } else {
            assert(start.history[n - target] == self.history@[n - target]@);
            self.buffer = copy_line(&self.history[n - target]);
        }
        let print = string_of(self.buffer.as_slice());
        assert(self@.line == start.moved(back).line);
        assert(self@.draft == start.moved(back).draft);
        Echo { erase, print, enter: false, command: None }
    }
}

/// Looking at an earlier line does not lose the one being typed: one step
/// back and one step forward shows it again.
pub proof fn the_line_is_kept_while_browsing(s: ShellModel)
    requires
        s.wf(),
        s.cursor == 0,
    ensures
        s.moved(true).moved(false).line == s.line,
        s.moved(true).moved(false).history == s.history,
{
}

/// A line that was entered is the first one that looking back shows.
pub proof fn entered_lines_come_back(s: ShellModel)
    requires
        s.wf(),
        s.line.len() > 0,
    ensures
        entered(s).0.moved(true).line == s.line,
{
}

/// However many lines are entered, no more than the last few are kept.
pub proof fn history_is_bounded(s: ShellModel, k: DecodedKey)
    requires
        s.wf(),
    ensures
        keyed(s, k).0.wf(),
{
    let r = s.remembered();
    assert forall|i: int| 0 <= i < r.history.len() implies (#[trigger] r.history[i]).len()
        <= LINE_CAP by {
        if i < s.history.len() {
            assert(s.history[i].len() <= LINE_CAP);
        }
        if i + 1 < s.history.len() {
            assert(s.history[i + 1].len() <= LINE_CAP);
        }
    }
}

/// What stands on the screen behind the prompt stays the line that is typed:
/// taking back the characters that an echo says, and printing what it says,
/// turns the old line into the new one. Entering it begins an empty one.
pub proof fn the_screen_shows_the_line(s: ShellModel, k: DecodedKey)
    requires
        s.wf(),
    ensures
        ({
            let (t, e) = keyed(s, k);
            &&& e.erase <= s.line.len()
            &&& !e.enter ==> t.line == s.line.take(s.line.len() - e.erase) + e.print
            &&& e.enter ==> t.line.len() == 0 && e.print.len() == 0 && e.erase == 0
        }),
{
    let (t, e) = keyed(s, k);
    assert(s.line.take(s.line.len() as int) =~= s.line);
    assert(s.line.take(0) =~= Seq::empty());
    if !e.enter {
        assert(t.line =~= s.line.take(s.line.len() - e.erase) + e.print);
    }
}

/// A character goes behind the line, backspace takes the last one back, and
/// only the enter key ends the line. Other keys leave line and history alone.
pub proof fn keys_edit_the_end_of_the_line(s: ShellModel, c: char)
    requires
        s.wf(),
        s.line.len() < 1024,
        c != '\n',
        c != '\r',
        c != '\x08',
    ensures
        keyed(s, DecodedKey::Unicode(c)).0 == (ShellModel { line: s.line.push(c), ..s }),
        keyed(keyed(s, DecodedKey::Unicode(c)).0, DecodedKey::Unicode('\x08')).0 == s,
        !keyed(s, DecodedKey::Unicode(c)).1.enter,
        s.line.len() == 0 ==> keyed(s, DecodedKey::Unicode('\x08')).0 == s,
{
    assert(s.line.push(c).drop_last() =~= s.line);
}

/// The enter key runs the line, as it was typed and whole where it is short
/// enough; an empty line runs nothing. Nothing else runs anything.
pub proof fn lines_are_run_when_entered(s: ShellModel, k: DecodedKey)
    requires
        s.wf(),
    ensures
        ({
            let enter = k == DecodedKey::Unicode('\n') || k == DecodedKey::Unicode('\r');
            let e = keyed(s, k).1;
            &&& e.enter <==> enter
            &&& e.command is Some <==> enter && s.line.len() > 0
            &&& enter && s.line.len() > 0 && text::byte_len(s.line) <= 512 ==> e.command == Some(
                s.line,
            )
            &&& e.command matches Some(c) ==> c.len() <= s.line.len() && c == s.line.take(
                c.len() as int,
            )
        }),
{
    text::clipped_is_prefix(s.line, 512);
    assert(s.line.take(s.line.len() as int) =~= s.line);
    assert(s.line.take(0) =~= Seq::empty());
    let c = command_text(s.line);
    assert(c == s.line.take(c.len() as int));
}

pub open spec fn stepped_back(s: ShellModel, n: nat) -> ShellModel
    decreases n,
{
    if n == 0 {
        s
    } else {
        keyed(stepped_back(s, (n - 1) as nat), DecodedKey::RawKey(KeyCode::ArrowUp)).0
    }
}

/// Each step back shows the line entered before, from the latest to the oldest
/// one that is kept, and there it stays; a step forward goes the same way back.
pub proof fn older_lines_follow_in_order(s: ShellModel, n: nat)
    requires
        s.wf(),
        s.cursor == 0,
        1 <= n,
    ensures
        n <= s.history.len() ==> stepped_back(s, n).line == s.history[s.history.len() - n],
        n > s.history.len() ==> stepped_back(s, n) == stepped_back(s, s.history.len()),
        stepped_back(s, n).history == s.history,
        stepped_back(s, n).cursor == (if n <= s.history.len() {
            n as int
        } else {
            s.history.len() as int
        }),
        1 < n <= s.history.len() ==> keyed(
            stepped_back(s, n),
            DecodedKey::RawKey(KeyCode::ArrowDown),
        ).0.line == stepped_back(s, (n - 1) as nat).line,
    decreases n,
{
    let m = (n - 1) as nat;
    if m > 0 {
        older_lines_follow_in_order(s, m);
    } else {
        assert(stepped_back(s, m) == s);
    }
}

/// The history keeps the lines in the order they were entered, a line that
/// repeats the one before only once; when it is full the oldest goes.
pub proof fn history_keeps_the_order(s: ShellModel)
    requires
        s.wf(),
        s.line.len() > 0,
    ensures
        ({
            let h = keyed(s, DecodedKey::Unicode('\n')).0.history;
            &&& h.len() > 0
            &&& h[h.len() - 1] == s.line
            &&& s.history.len() > 0 && s.history.last() == s.line ==> h == s.history
            &&& !(s.history.len() > 0 && s.history.last() == s.line) && s.history.len() < 16
                ==> h.len() == s.history.len() + 1 && h.drop_last() == s.history
            &&& !(s.history.len() > 0 && s.history.last() == s.line) && s.history.len() == 16
                ==> h.len() == 16 && h.drop_last() == s.history.skip(1)
        }),
{
    let h = keyed(s, DecodedKey::Unicode('\n')).0.history;
    assert(s.history.push(s.line).drop_last() =~= s.history);
    assert(s.history.skip(1).push(s.line).drop_last() =~= s.history.skip(1));
}

// ── Processor names ─────────────────────────────────────────────────────────

/// Most bytes in a [`FixedStr`].
pub const FIXED_CAP: usize = 64;

/// A small string of the bytes that `cpuid` returns.
pub struct FixedStr {
    bytes: Vec<u8>,
}

impl View for FixedStr {
    type V = Seq<u8>;

    closed spec fn view(&self) -> Seq<u8> {
        self.bytes@
    }
}

pub open spec fn byte_of(v: u32, i: int) -> u8 {
    (if i == 0 {
        v as int % 0x100
    } else if i == 1 {
        v as int / 0x100 % 0x100
    } else if i == 2 {
        v as int / 0x1_0000 % 0x100
    } else {
        v as int / 0x100_0000
    }) as u8
}

/// The four bytes of a number, the lowest first.
pub open spec fn little_endian(v: u32) -> Seq<u8> {
    seq![byte_of(v, 0), byte_of(v, 1), byte_of(v, 2), byte_of(v, 3)]
}

/// The string with more bytes, as far as they fit.
pub open spec fn with_bytes(s: Seq<u8>, more: Seq<u8>) -> Seq<u8> {
    if s.len() + more.len() <= FIXED_CAP {
        s + more
    } else {
        (s + more).take(FIXED_CAP as int)
    }
}

/// The bytes without the zeroes and blanks at the end.
pub open spec fn printable(s: Seq<u8>) -> Seq<u8>
    decreases s.len(),
{
    if s.len() > 0 && (s.last() == 0 || s.last() == 32) {
        printable(s.drop_last())
    } else {
        s
    }
}

pub open spec fn fixed_text(s: Seq<u8>) -> Seq<char> {
    if vstd::utf8::valid_utf8(printable(s)) {
        vstd::utf8::decode_utf8(printable(s))
    } else {
        "?"@
    }
}

impl FixedStr {
    pub fn new() -> (r: Self)
        ensures
            r@ == Seq::<u8>::empty(),
    {
        FixedStr { bytes: Vec::new() }
    }

    fn push_byte(&mut self, b: u8)
        ensures
            final(self)@ == (if old(self)@.len() < FIXED_CAP {
                old(self)@.push(b)
            } else {
                old(self)@
            }),
    {
        if self.bytes.len() < FIXED_CAP {
            self.bytes.push(b);
        }
    }

    pub fn push_u32_le(&mut self, v: u32)
        requires
            old(self)@.len() <= FIXED_CAP,
        ensures
            final(self)@ == with_bytes(old(self)@, little_endian(v)),
            final(self)@.len() <= FIXED_CAP,
    {
        self.push_byte((v % 0x100) as u8);
        self.push_byte((v / 0x100 % 0x100) as u8);
        self.push_byte((v / 0x1_0000 % 0x100) as u8);
        self.push_byte((v / 0x100_0000) as u8);
        assert(self@ =~= with_bytes(old(self)@, little_endian(v)));
    }

    pub fn as_str(&self) -> (r: String)
        ensures
            r@ == fixed_text(self@),
    {
        let mut end: usize = self.bytes.len();
        assert(self@.take(end as int) =~= self@);
        while end > 0 && (self.bytes[end - 1] == 0 || self.bytes[end - 1] == 32)
            invariant
                end <= self.bytes@.len(),
                self@ == self.bytes@,
                printable(self@) == printable(self@.take(end as int)),
            decreases end,
        {
            assert(self@.take(end as int).drop_last() =~= self@.take(end - 1));
            end = end - 1;
        }
        let mut kept: Vec<u8> = Vec::new();
        let mut i: usize = 0;
        while i < end
            invariant
                i <= end <= self.bytes@.len(),
                self@ == self.bytes@,
                kept@ == self@.take(i as int),
            decreases end - i,
        {
            kept.push(self.bytes[i]);
            i = i + 1;
            assert(kept@ =~= self@.take(i as int));
        }
        match text::decode_text(kept.as_slice()) {
            Some(s) => s,
            None => "?".to_owned(),
        }
    }
}

/// What `cpuid` returned for a leaf: `eax`, `ebx`, `ecx` and `edx`.
pub type Registers = (u32, u32, u32, u32);

/// The largest extended leaf from which on the brand is there.
pub const BRAND_LEAF: u32 = 0x8000_0004;

pub open spec fn vendor_bytes(r: Registers) -> Seq<u8> {
    little_endian(r.1) + little_endian(r.3) + little_endian(r.2)
}

pub open spec fn quad(r: Registers) -> Seq<u8> {
    little_endian(r.0) + little_endian(r.1) + little_endian(r.2) + little_endian(r.3)
}

pub open spec fn brand_bytes(max_ext: u32, a: Registers, b: Registers, c: Registers) -> Seq<u8> {
    if max_ext >= BRAND_LEAF {
        quad(a) + quad(b) + quad(c)
    } else {
        seq![117u8, 110u8, 107u8, 110u8, 111u8, 119u8, 110u8]
    }
}

fn push_quad(s: &mut FixedStr, r: Registers)
    requires
        old(s)@.len() + 16 <= FIXED_CAP,
    ensures
        final(s)@ == old(s)@ + quad(r),
{
    s.push_u32_le(r.0);
    s.push_u32_le(r.1);
    s.push_u32_le(r.2);
    s.push_u32_le(r.3);
    assert(s@ =~= old(s)@ + quad(r));
}

/// The processor's vendor and brand, from what `cpuid` returned for leaf 0,
/// for the largest extended leaf, and for the three leaves of the brand.
pub fn cpuid_info(vendor: Registers, max_ext: u32, a: Registers, b: Registers, c: Registers) -> (r: (
    FixedStr,
    FixedStr,
))
    ensures
        (r.0)@ == vendor_bytes(vendor),
        (r.1)@ == brand_bytes(max_ext, a, b, c),
{
    let mut v = FixedStr::new();
    v.push_u32_le(vendor.1);
    v.push_u32_le(vendor.3);
    v.push_u32_le(vendor.2);
    assert(v@ =~= vendor_bytes(vendor));
    let mut brand = FixedStr::new();
    if max_ext >= BRAND_LEAF {
        push_quad(&mut brand, a);
        push_quad(&mut brand, b);
        push_quad(&mut brand, c);
        assert(brand@ =~= quad(a) + quad(b) + quad(c));
    } else {
        brand.push_byte(117);
        brand.push_byte(110);
        brand.push_byte(107);
        brand.push_byte(110);
        brand.push_byte(111);
        brand.push_byte(119);
        brand.push_byte(110);
        assert(brand@ =~= brand_bytes(max_ext, a, b, c));
    }
    (v, brand)
}

/// The four bytes of a number add up to it, the first counting least.
pub proof fn bytes_add_up(v: u32)
    ensures
        little_endian(v).len() == 4,
        v == little_endian(v)[0] + 256 * little_endian(v)[1] + 65536 * little_endian(v)[2] + 16777216
            * little_endian(v)[3],
{
    let n = v as int;
    assert(n / 0x1_0000 == n / 0x100 / 0x100);
    assert(n / 0x100_0000 == n / 0x100 / 0x100 / 0x100);
    assert(n / 0x100_0000 < 0x100);
}

/// Zeroes and blanks at the end of a name are not printed, and nothing else is
/// left out.
pub proof fn names_end_with_a_letter(s: Seq<u8>)
    ensures
        printable(s).len() <= s.len(),
        printable(s) == s.take(printable(s).len() as int),
        printable(s).len() > 0 ==> printable(s).last() != 0 && printable(s).last() != 32,
        forall|i: int|
            printable(s).len() <= i < s.len() ==> #[trigger] s[i] == 0 || s[i] == 32,
    decreases s.len(),
{
    if s.len() > 0 && (s.last() == 0 || s.last() == 32) {
        let t = s.drop_last();
        names_end_with_a_letter(t);
        assert(t.take(printable(t).len() as int) =~= s.take(printable(t).len() as int));
        assert forall|i: int| printable(s).len() <= i < s.len() implies #[trigger] s[i] == 0
            || s[i] == 32 by {
            if i < t.len() {
                assert(t[i] == s[i]);
            }
        }
    } else {
        assert(s.take(s.len() as int) =~= s);
    }
}
/// The processor gives its vendor in the second, the fourth and the third
/// register, and its brand in all four of three answers, each with the
/// least significant byte first.
pub proof fn the_processor_spells_its_name(r: Registers, a: Registers, b: Registers, c: Registers, i: int)
    requires
        0 <= i < 4,
    ensures
        ({
            let v = vendor_bytes(r);
            &&& v.len() == 12
            &&& v[i] == little_endian(r.1)[i]
            &&& v[4 + i] == little_endian(r.3)[i]
            &&& v[8 + i] == little_endian(r.2)[i]
        }),
        ({
            let v = brand_bytes(0x8000_0004, a, b, c);
            &&& v.len() == 48
            &&& v[i] == little_endian(a.0)[i]
            &&& v[12 + i] == little_endian(a.3)[i]
            &&& v[16 + i] == little_endian(b.0)[i]
            &&& v[44 + i] == little_endian(c.3)[i]
        }),
{
}

} // verus!
