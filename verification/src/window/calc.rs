//! The calculator.

use vstd::prelude::*;
use vstd::string::*;

use crate::text;
use crate::window::manager;
use crate::window::manager::set_label_text;
use crate::window::state;
use crate::window::state::{AppModel, AppState, Calculator, CalculatorModel, Window, WindowModel};

verus! {

/// Most characters an entry takes.
pub const ENTRY_CAP: usize = 20;

// ── Arithmetic ──────────────────────────────────────────────────────────────

pub open spec fn magnitude(n: int) -> int {
    if n < 0 {
        -n
    } else {
        n
    }
}

/// The quotient, rounded towards zero.
pub open spec fn quotient(a: int, b: int) -> int {
    if (a < 0) == (b < 0) {
        magnitude(a) / magnitude(b)
    } else {
        -(magnitude(a) / magnitude(b))
    }
}

pub open spec fn in_range(n: int) -> Option<i64> {
    if i64::MIN <= n <= i64::MAX {
        Some(n as i64)
    } else {
        None
    }
}

/// The result of an operation; none where it does not fit, and none for a
/// division by zero. Any other operator takes its right operand.
pub open spec fn applied(a: i64, b: i64, op: char) -> Option<i64> {
    if op == '+' {
        in_range(a + b)
    } else if op == '-' {
        in_range(a - b)
    } else if op == '*' {
        in_range(a * b)
    } else if op == '/' {
        if b == 0 {
            None
        } else {
            in_range(quotient(a as int, b as int))
        }
    } else {
        Some(b)
    }
}

fn abs(n: i64) -> (r: u64)
    ensures
        r == magnitude(n as int),
{
    if n == i64::MIN {
        0x8000_0000_0000_0000
    } else if n < 0 {
        (-n) as u64
    } else {
        n as u64
    }
}

pub fn calc_apply_i64(a: i64, b: i64, op: char) -> (r: Option<i64>)
    ensures
        r == applied(a, b, op),
{
    match op {
        '+' => a.checked_add(b),
        '-' => a.checked_sub(b),
        '*' => a.checked_mul(b),
        '/' => {
            if b == 0 {
                return None;
            }
            let x: u64 = abs(a);
            let y: u64 = abs(b);
            let q: u64 = x / y;
            proof {
                assert(q <= x) by (nonlinear_arith)
                    requires
                        y >= 1,
                        q == x / y,
                ;
            }
            if (a < 0) == (b < 0) {
                if q <= 0x7FFF_FFFF_FFFF_FFFF {
                    Some(q as i64)
                } else {
                    None
                }
            } else if q == 0x8000_0000_0000_0000 {
                Some(i64::MIN)
            } else {
                Some(-(q as i64))
            }
        },
        _ => Some(b),
    }
}

// ── Keys ────────────────────────────────────────────────────────────────────

/// What an entry counts as; one that is no number counts as zero.
pub open spec fn entered(s: Seq<char>) -> i64 {
    match text::integer(s) {
        Some(n) => n,
        None => 0,
    }
}

/// A digit typed: it replaces a finished entry or a lone zero, and else goes
/// behind what is there while there is room.
pub open spec fn with_digit(c: CalculatorModel, d: u8) -> CalculatorModel {
    let ch = text::digit_char(state::at_most(d as int, 9));
    if c.new_entry {
        CalculatorModel { entry: seq![ch], new_entry: false, ..c }
    } else if c.entry == "0"@ {
        CalculatorModel { entry: seq![ch], ..c }
    } else if c.entry.len() < ENTRY_CAP {
        CalculatorModel { entry: c.entry.push(ch), ..c }
    } else {
        c
    }
}

/// The last character taken back; what is left of nothing is a zero.
pub open spec fn backed(c: CalculatorModel) -> CalculatorModel {
    if c.new_entry || c.entry.len() == 0 {
        c
    } else {
        let e = c.entry.drop_last();
        if e.len() == 0 || e == "-"@ {
            CalculatorModel { entry: "0"@, new_entry: true, ..c }
        } else {
            CalculatorModel { entry: e, ..c }
        }
    }
}

/// The sign changed; a zero has none.
pub open spec fn negated(c: CalculatorModel) -> CalculatorModel {
    if c.entry == "0"@ {
        c
    } else if c.entry.len() > 0 && c.entry[0] == '-' {
        CalculatorModel { entry: c.entry.skip(1), ..c }
    } else {
        CalculatorModel { entry: seq!['-'] + c.entry, ..c }
    }
}

/// What is pending with the entry, or the entry itself.
pub open spec fn pending_result(c: CalculatorModel) -> Option<i64> {
    match (c.lhs, c.op) {
        (Some(a), Some(p)) => applied(a, entered(c.entry), p),
        _ => Some(entered(c.entry)),
    }
}

pub open spec fn shown_number(r: Option<i64>) -> Seq<char> {
    match r {
        Some(n) => text::signed_decimal(n as int),
        None => "Error"@,
    }
}

/// An operator: what was pending is worked out first.
pub open spec fn with_op(c: CalculatorModel, op: char) -> CalculatorModel {
    let r = pending_result(c);
    CalculatorModel { lhs: r, op: Some(op), entry: shown_number(r), new_entry: true }
}

/// The equals key; with nothing pending it does nothing.
pub open spec fn worked_out(c: CalculatorModel) -> CalculatorModel {
    match (c.lhs, c.op) {
        (Some(a), Some(p)) => CalculatorModel {
            lhs: None,
            op: None,
            entry: shown_number(applied(a, entered(c.entry), p)),
            new_entry: true,
        },
        _ => c,
    }
}

pub open spec fn cleared() -> CalculatorModel {
    CalculatorModel { lhs: None, op: None, entry: "0"@, new_entry: true }
}

/// A calculator key.
#[derive(Debug, Clone, Copy, PartialEq, Eq, Structural)]
pub enum CalcKey {
    Digit(u8),
    Back,
    Sign,
    Op(char),
    Equals,
    Clear,
}

pub open spec fn pressed(c: CalculatorModel, k: CalcKey) -> CalculatorModel {
    match k {
        CalcKey::Digit(d) => with_digit(c, d),
        CalcKey::Back => backed(c),
        CalcKey::Sign => negated(c),
        CalcKey::Op(op) => with_op(c, op),
        CalcKey::Equals => worked_out(c),
        CalcKey::Clear => cleared(),
    }
}

/// Whether a key leaves something new to show.
pub open spec fn refreshes(c: CalculatorModel, k: CalcKey) -> bool {
    match k {
        CalcKey::Sign => c.entry != "0"@,
        CalcKey::Equals => c.lhs is Some && c.op is Some,
        _ => true,
    }
}

#[verifier::rlimit(60)]
fn press(c: &mut Calculator, k: CalcKey) -> (r: bool)
    ensures
        final(c)@ == pressed(old(c)@, k),
        r == refreshes(old(c)@, k),
{
    match k {
        CalcKey::Digit(d) => {
            let d: u8 = if d < 9 { d } else { 9 };
            let ch = (48u8 + d) as char;
            if c.new_entry {
                c.entry = String::new();
                c.entry.push(ch);
                c.new_entry = false;
            } else if text::same(c.entry.as_str(), "0") {
                c.entry = String::new();
                c.entry.push(ch);
            } else if c.entry.as_str().unicode_len() < ENTRY_CAP {
                c.entry.push(ch);
            }
            assert(c@.entry =~= pressed(old(c)@, k).entry);
            true
        },
        CalcKey::Back => {
            if !c.new_entry && c.entry.as_str().unicode_len() > 0 {
                text::pop_char(&mut c.entry);
                if c.entry.as_str().unicode_len() == 0 || text::same(c.entry.as_str(), "-") {
                    c.entry = "0".to_owned();
                    c.new_entry = true;
                }
            }
            true
        },
        CalcKey::Sign => {
            if text::same(c.entry.as_str(), "0") {
                return false;
            }
            let chars = text::chars_of(c.entry.as_str());
            if chars.len() > 0 && chars[0] == '-' {
                c.entry = text::string_between(chars.as_slice(), 1, chars.len());
            } else {
                let mut e = "-".to_owned();
                proof {
                    reveal_strlit("-");
                }
                e.append(c.entry.as_str());
                c.entry = e;
            }
            assert(c@.entry =~= pressed(old(c)@, k).entry);
            true
        },
        CalcKey::Op(op) => {
            let rhs: i64 = match text::parse_integer(c.entry.as_str()) {
                Some(n) => n,
                None => 0,
            };
            let r = match (c.lhs, c.op) {
                (Some(a), Some(p)) => calc_apply_i64(a, rhs, p),
                _ => Some(rhs),
            };
            c.entry = number_text(r);
            c.lhs = r;
            c.op = Some(op);
            c.new_entry = true;
            true
        },
        CalcKey::Equals => match (c.lhs, c.op) {
            (Some(a), Some(p)) => {
                let rhs: i64 = match text::parse_integer(c.entry.as_str()) {
                    Some(n) => n,
                    None => 0,
                };
                c.entry = number_text(calc_apply_i64(a, rhs, p));
                c.lhs = None;
                c.op = None;
                c.new_entry = true;
                true
            },
            _ => false,
        },
        CalcKey::Clear => {
            c.lhs = None;
            c.op = None;
            c.entry = "0".to_owned();
            c.new_entry = true;
            true
        },
    }
}

fn number_text(r: Option<i64>) -> (s: String)
    ensures
        s@ == shown_number(r),
{
    match r {
        Some(n) => {
            let mut s = String::new();
            text::push_signed(&mut s, n);
            assert(s@ =~= text::signed_decimal(n as int));
            s
        },
        None => "Error".to_owned(),
    }
}

// ── The window ──────────────────────────────────────────────────────────────

/// The entry at the right of the display.
pub open spec fn display(entry: Seq<char>) -> Seq<char> {
    if entry.len() < ENTRY_CAP {
        Seq::new((ENTRY_CAP - entry.len()) as nat, |i: int| ' ') + entry
    } else {
        entry
    }
}

/// What is pending, shown in the footer.
pub open spec fn pending_line(c: CalculatorModel) -> Seq<char> {
    match (c.lhs, c.op) {
        (Some(a), Some(p)) => text::signed_decimal(a as int) + " "@ + seq![p] + " ..."@,
        _ => Seq::empty(),
    }
}

pub open spec fn refreshed(w: WindowModel) -> WindowModel {
    match w.app {
        AppModel::Calculator(c) => WindowModel {
            footer: Some(pending_line(c)),
            ..manager::labelled(w, 0, display(c.entry))
        },
        _ => w,
    }
}

pub fn calc_refresh(win: &mut Window)
    ensures
        final(win)@ == refreshed(old(win)@),
        old(win)@.wf() ==> final(win)@.wf(),
{
    let (shown, footer) = match &win.app {
        AppState::Calculator(c) => {
            let n: usize = c.entry.as_str().unicode_len();
            let mut shown = String::new();
            let mut k: usize = n;
            while k < ENTRY_CAP
                invariant
                    n <= k,
                    n < ENTRY_CAP ==> k <= ENTRY_CAP,
                    k == n || k <= ENTRY_CAP,
                    shown@ == Seq::new((k - n) as nat, |i: int| ' '),
                decreases ENTRY_CAP - k,
            {
                shown.push(' ');
                assert(shown@ =~= Seq::new((k + 1 - n) as nat, |i: int| ' '));
                k = k + 1;
            }
            shown.append(c.entry.as_str());
            assert(shown@ =~= display(c@.entry));
            let footer = match (c.lhs, c.op) {
                (Some(a), Some(p)) => {
                    let mut s = String::new();
                    text::push_signed(&mut s, a);
                    s.append(" ");
                    s.push(p);
                    s.append(" ...");
                    s
                },
                _ => String::new(),
            };
            assert(footer@ =~= pending_line(c@));
            (shown, footer)
        },
        _ => {
            return;
        },
    };
    set_label_text(win, 0, shown.as_str());
    win.footer = Some(footer);
}

/// A key pressed in a calculator's window.
pub open spec fn window_pressed(w: WindowModel, k: CalcKey) -> WindowModel {
    match w.app {
        AppModel::Calculator(c) => {
            let w1 = WindowModel { app: AppModel::Calculator(pressed(c, k)), ..w };
            if refreshes(c, k) {
                refreshed(w1)
            } else {
                w1
            }
        },
        _ => w,
    }
}

pub fn calc_press(win: &mut Window, k: CalcKey)
    requires
        old(win)@.wf(),
    ensures
        final(win)@ == window_pressed(old(win)@, k),
        final(win)@.wf(),
{
    let show = match &mut win.app {
        AppState::Calculator(c) => press(c, k),
        _ => {
            return;
        },
    };
    if show {
        calc_refresh(win);
    }
}

// ── Laws ────────────────────────────────────────────────────────────────────

/// A number typed in, an operator, another number and the equals key show the
/// result of the operation, or an error where it has none.
pub proof fn equals_shows_the_result(c: CalculatorModel, a: i64, op: char, b: i64)
    requires
        c.op is None,
        c.entry == text::signed_decimal(a as int),
    ensures
        ({
            let typed = CalculatorModel {
                entry: text::signed_decimal(b as int),
                new_entry: false,
                ..pressed(c, CalcKey::Op(op))
            };
            pressed(typed, CalcKey::Equals).entry == shown_number(applied(a, b, op))
        }),
{
    text::numerals_read_back(a);
    text::numerals_read_back(b);
}

/// Changing the sign twice changes nothing, as long as the entry does not
/// begin with two minus signs.
pub proof fn two_signs_cancel(c: CalculatorModel)
    requires
        !(c.entry.len() > 1 && c.entry[0] == '-' && c.entry[1] == '-'),
        c.entry != "-0"@,
    ensures
        negated(negated(c)) == c,
{
    reveal_strlit("0");
    reveal_strlit("-0");
    if c.entry != "0"@ {
        if c.entry.len() > 0 && c.entry[0] == '-' {
            let e = c.entry.skip(1);
            assert(seq!['-'] + e =~= c.entry);
            if e == "0"@ {
                assert(c.entry =~= "-0"@);
            }
        } else {
            assert((seq!['-'] + c.entry).skip(1) =~= c.entry);
            assert((seq!['-'] + c.entry)[0] == '-');
            assert("0"@[0] == '0');
        }
    }
}

/// Adding, subtracting and multiplying give the number itself, or nothing
/// where it does not fit.
pub proof fn sums_and_products_are_exact(a: i64, b: i64, r: i64)
    ensures
        applied(a, b, '+') == Some(r) <==> r == a + b,
        applied(a, b, '-') == Some(r) <==> r == a - b,
        applied(a, b, '*') == Some(r) <==> r == a * b,
{
}

/// Subtraction undoes addition and addition undoes subtraction, wherever the
/// first of the two fits; zero changes nothing, and the order of a sum does not
/// matter.
pub proof fn subtraction_undoes_addition(a: i64, b: i64)
    ensures
        applied(a, b, '+') matches Some(s) ==> applied(s, b, '-') == Some(a),
        applied(a, b, '-') matches Some(s) ==> applied(s, b, '+') == Some(a),
        applied(a, 0, '-') == Some(a),
        applied(a, 0, '+') == Some(a),
        applied(a, b, '+') == applied(b, a, '+'),
{
}

/// A product is repeated addition: none is zero, and one more on the right adds
/// the left operand once more. The order of a product does not matter.
pub proof fn products_are_repeated_sums(a: i64, b: i64)
    ensures
        applied(a, 0, '*') == Some(0i64),
        applied(a, b, '*') == applied(b, a, '*'),
        b < i64::MAX ==> (match (applied(a, b, '*'), applied(a, (b + 1) as i64, '*')) {
            (Some(p), Some(q)) => applied(p, a, '+') == Some(q),
            _ => true,
        }),
{
    assert(a * b == b * a) by (nonlinear_arith);
    assert(a * (b + 1) == a * b + a) by (nonlinear_arith);
    assert(a * 0 == 0) by (nonlinear_arith);
}

/// A division has a remainder smaller than the divisor and of the dividend's
/// sign. There is none by zero, and only the least number divided by minus one
/// does not fit.
pub proof fn division_leaves_the_remainder(a: i64, b: i64)
    ensures
        applied(a, b, '/') is None <==> b == 0 || (a == i64::MIN && b == -1),
        applied(a, b, '/') matches Some(q) ==> {
            let rest = a - q * b;
            &&& -magnitude(b as int) < rest < magnitude(b as int)
            &&& rest < 0 ==> a < 0
            &&& rest > 0 ==> a > 0
        },
{
    if b != 0 {
        let x = magnitude(a as int);
        let y = magnitude(b as int);
        let q = x / y;
        assert(0 <= q <= x && 0 <= x - q * y < y) by (nonlinear_arith)
            requires
                x >= 0,
                y >= 1,
                q == x / y,
        ;
        assert(y >= 2 ==> 2 * q <= x) by (nonlinear_arith)
            requires
                x - q * y >= 0,
                q >= 0,
        ;
        assert(y == 1 ==> q == x) by (nonlinear_arith)
            requires
                0 <= x - q * y < y,
        ;
        let z = quotient(a as int, b as int);
        if (a < 0) == (b < 0) {
            assert(z == q);
            assert(a < 0 ==> z * b == -(q * y)) by (nonlinear_arith)
                requires
                    z == q,
                    a < 0 ==> b == -y,
            ;
        } else {
            assert(z == -q);
            assert(b < 0 ==> z * b == q * y) by (nonlinear_arith)
                requires
                    z == -q,
                    b < 0 ==> b == -y,
            ;
            assert(b > 0 ==> z * b == -(q * y)) by (nonlinear_arith)
                requires
                    z == -q,
                    b > 0 ==> b == y,
            ;
        }
    }
}

proof fn digit_behind(n: nat, d: int)
    requires
        0 <= d <= 9,
    ensures
        text::decimal(d as nat) == seq![text::digit_char(d)],
        n > 0 ==> text::decimal((n * 10 + d) as nat) == text::decimal(n).push(text::digit_char(d)),
        n == 0 <==> text::decimal(n) == "0"@,
        text::decimal(n).len() > 0,
        text::decimal(n)[0] != '-',
{
    reveal_strlit("0");
    assert(text::decimal(0) =~= "0"@);
    let m: nat = (n * 10 + d) as nat;
    assert(m / 10 == n && m % 10 == d);
    if n < 10 {
        assert(text::decimal(n) =~= seq![text::digit_char(n as int)]);
        assert(text::decimal(n)[0] == text::digit_char(n as int));
        assert("0"@[0] == '0');
    } else {
        assert(text::decimal(n).len() > 1) by {
            assert(text::decimal(n / 10).len() > 0) by {
                decimal_is_a_numeral(n / 10);
            }
        }
        decimal_is_a_numeral(n);
    }
}

proof fn decimal_is_a_numeral(n: nat)
    ensures
        text::decimal(n).len() > 0,
        text::decimal(n)[0] != '-',
    decreases n,
{
    if n >= 10 {
        decimal_is_a_numeral(n / 10);
    }
}

/// Digits typed make up the number: each new one goes behind those that are
/// there, whatever the sign, as long as there is room; after an operator or a
/// result it begins a new number.
pub proof fn digits_build_the_number(c: CalculatorModel, n: int, d: u8)
    requires
        c.entry == text::signed_decimal(n),
        c.entry.len() < 20,
        d <= 9,
    ensures
        c.new_entry ==> pressed(c, CalcKey::Digit(d)).entry == text::signed_decimal(d as int),
        !c.new_entry && n >= 0 ==> pressed(c, CalcKey::Digit(d)).entry == text::signed_decimal(
            n * 10 + d,
        ),
        !c.new_entry && n < 0 ==> pressed(c, CalcKey::Digit(d)).entry == text::signed_decimal(
            n * 10 - d,
        ),
        !pressed(c, CalcKey::Digit(d)).new_entry,
        pressed(c, CalcKey::Digit(d)).lhs == c.lhs,
        pressed(c, CalcKey::Digit(d)).op == c.op,
{
    digit_behind(if n < 0 { (-n) as nat } else { n as nat }, d as int);
    reveal_strlit("0");
    if n < 0 {
        let m: nat = (-n) as nat;
        assert(-(n * 10 - d) == m * 10 + d);
        assert((seq!['-'] + text::decimal(m)).push(text::digit_char(d as int)) =~= seq!['-']
            + text::decimal(m).push(text::digit_char(d as int)));
        assert(c.entry[0] == '-');
        assert("0"@[0] == '0');
    }
}

/// The back key takes back the digit typed last.
pub proof fn back_undoes_a_digit(c: CalculatorModel, d: u8)
    requires
        !c.new_entry,
        c.entry != "0"@,
        c.entry != "-"@,
        0 < c.entry.len() < 20,
    ensures
        pressed(pressed(c, CalcKey::Digit(d)), CalcKey::Back) == c,
{
    let ch = text::digit_char(state::at_most(d as int, 9));
    assert(c.entry.push(ch).drop_last() =~= c.entry);
}

/// The sign key turns a number into its opposite.
pub proof fn the_sign_key_negates(c: CalculatorModel, n: int)
    requires
        c.entry == text::signed_decimal(n),
    ensures
        pressed(c, CalcKey::Sign) == (CalculatorModel { entry: text::signed_decimal(-n), ..c }),
{
    reveal_strlit("0");
    digit_behind(if n < 0 { (-n) as nat } else { n as nat }, 0);
    if n < 0 {
        assert((seq!['-'] + text::decimal((-n) as nat)).skip(1) =~= text::decimal((-n) as nat));
        assert(c.entry[0] == '-');
        assert("0"@[0] == '0');
    }
}

/// Operations are worked out from left to right: an operator after a pending
/// one and its right operand stands for their result, which then is the left
/// operand of the new one. With no result, nothing is pending any more.
pub proof fn operations_go_from_left_to_right(
    c: CalculatorModel,
    a: i64,
    p: char,
    b: i64,
    q: char,
    d: i64,
)
    requires
        c.lhs == Some(a),
        c.op == Some(p),
        c.entry == text::signed_decimal(b as int),
    ensures
        ({
            let next = pressed(c, CalcKey::Op(q));
            let typed = CalculatorModel {
                entry: text::signed_decimal(d as int),
                new_entry: false,
                ..next
            };
            match applied(a, b, p) {
                Some(r) => {
                    &&& next.entry == text::signed_decimal(r as int)
                    &&& pressed(typed, CalcKey::Equals).entry == shown_number(applied(r, d, q))
                },
                None => {
                    &&& next.entry == "Error"@
                    &&& pressed(typed, CalcKey::Equals) == typed
                },
            }
        }),
{
    text::numerals_read_back(b);
    text::numerals_read_back(d);
}

/// The clear key forgets everything: what follows it does not depend on what
/// came before.
pub proof fn clearing_forgets_everything(c: CalculatorModel, e: CalculatorModel, d: u8)
    requires
        d <= 9,
    ensures
        pressed(c, CalcKey::Clear) == pressed(e, CalcKey::Clear),
        pressed(pressed(c, CalcKey::Clear), CalcKey::Equals) == pressed(c, CalcKey::Clear),
        pressed(c, CalcKey::Clear).entry == text::signed_decimal(0),
        pressed(pressed(c, CalcKey::Clear), CalcKey::Digit(d)).entry == text::signed_decimal(
            d as int,
        ),
{
    digit_behind(0, d as int);
}

/// The display ends with the entry, and blanks fill it up in front.
pub proof fn the_entry_is_at_the_right(e: Seq<char>)
    ensures
        display(e).len() >= 20,
        display(e).len() == 20 || display(e) == e,
        display(e).skip(display(e).len() - e.len()) == e,
        forall|i: int| 0 <= i < display(e).len() - e.len() ==> #[trigger] display(e)[i] == ' ',
{
    assert(display(e).skip(display(e).len() - e.len()) =~= e);
}

/// Division undoes multiplication wherever the product fits.
pub proof fn division_undoes_multiplication(a: i64, b: i64)
    requires
        b != 0,
        applied(a, b, '*') is Some,
    ensures
        applied(applied(a, b, '*')->0, b, '/') == Some(a),
{
    let p = a * b;
    assert(quotient(p, b as int) == a) by (nonlinear_arith)
        requires
            b != 0,
            p == a * b,
    {
        let x = magnitude(a as int);
        let y = magnitude(b as int);
        assert(magnitude(p) == x * y);
        assert((x * y) / y == x);
    }
}

} // verus!
