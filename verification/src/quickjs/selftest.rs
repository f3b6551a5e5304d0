//! The boot-time checks of the script engine.
//!
//! The scripts are run by the program around this library; here are the
//! scripts and what they are to come to.

use vstd::prelude::*;
use vstd::string::*;

use crate::quickjs::{text_view, Args, Numeric};
use crate::rtc::DateTime;
use crate::selftest::{Report, ReportModel};
use crate::text;
use crate::text::{contains, parse_integer, push_decimal, push_signed, push_two_digits, same, starts_with};

verus! {

// ── Cases ───────────────────────────────────────────────────────────────────

/// What a script is to come to.
#[derive(Clone, Copy, Debug, PartialEq, Eq)]
pub enum Want<T = &'static str> {
    /// Exactly this text.
    Is(T),
    /// A failure whose message holds this text.
    Fails(T),
    /// Any value.
    Succeeds,
}

/// A script, the name of its check and what it is to come to.
pub struct Case {
    pub name: &'static str,
    pub source: &'static str,
    pub want: Want,
}

pub ghost struct CaseModel {
    pub name: Seq<char>,
    pub source: Seq<char>,
    pub want: Want<Seq<char>>,
}

impl View for Case {
    type V = CaseModel;

    open spec fn view(&self) -> CaseModel {
        CaseModel {
            name: self.name@,
            source: self.source@,
            want: match self.want {
                Want::Is(t) => Want::Is(t@),
                Want::Fails(t) => Want::Fails(t@),
                Want::Succeeds => Want::Succeeds,
            },
        }
    }
}

pub open spec fn cases_view(v: Seq<Case>) -> Seq<CaseModel> {
    v.map_values(|c: Case| c@)
}

pub open spec fn case(name: Seq<char>, source: Seq<char>, want: Want<Seq<char>>) -> CaseModel {
    CaseModel { name, source, want }
}

/// What a script came to.
pub type Outcome = Result<Seq<char>, Seq<char>>;

pub open spec fn meets(want: Want<Seq<char>>, o: Outcome) -> bool {
    match want {
        Want::Is(t) => o == Ok::<Seq<char>, Seq<char>>(t),
        Want::Fails(t) => o matches Err(m) && text::occurs(m, t),
        Want::Succeeds => o is Ok,
    }
}

fn is_met(want: Want, o: &Result<String, String>) -> (r: bool)
    ensures
        r == meets(
            match want {
                Want::Is(t) => Want::Is(t@),
                Want::Fails(t) => Want::Fails(t@),
                Want::Succeeds => Want::Succeeds,
            },
            text_view(*o),
        ),
{
    match want {
        Want::Is(t) => match o {
            Ok(got) => same(got.as_str(), t),
            Err(_) => false,
        },
        Want::Fails(t) => match o {
            Ok(_) => false,
            Err(m) => contains(m.as_str(), t),
        },
        Want::Succeeds => o.is_ok(),
    }
}

/// Check what a script came to.
pub fn expect(report: &mut Report, c: &Case, o: &Result<String, String>)
    requires
        old(report)@.wf(),
        old(report)@.passed + old(report)@.failed < usize::MAX,
    ensures
        final(report)@ == old(report)@.checked(c@.name, meets(c@.want, text_view(*o))),
        final(report)@.wf(),
        final(report)@.passed + final(report)@.failed == old(report)@.passed + old(report)@.failed
            + 1,
{
    report.check(c.name, is_met(c.want, o));
}

pub open spec fn outcomes_view(v: Seq<Result<String, String>>) -> Seq<Outcome> {
    v.map_values(|o: Result<String, String>| text_view(o))
}

/// Cases checked in order, each with what its script came to.
pub open spec fn judged(r: ReportModel, cases: Seq<CaseModel>, outcomes: Seq<Outcome>) -> ReportModel
    decreases cases.len(),
{
    if cases.len() == 0 {
        r
    } else {
        judged(r, cases.drop_last(), outcomes).checked(
            cases.last().name,
            meets(cases.last().want, outcomes[cases.len() - 1]),
        )
    }
}

/// Check a list of cases by what their scripts came to.
pub fn judge(report: &mut Report, cases: &Vec<Case>, outcomes: &Vec<Result<String, String>>)
    requires
        old(report)@.wf(),
        outcomes@.len() == cases@.len(),
        old(report)@.passed + old(report)@.failed + cases@.len() <= usize::MAX,
    ensures
        final(report)@ == judged(old(report)@, cases_view(cases@), outcomes_view(outcomes@)),
        final(report)@.wf(),
        final(report)@.passed + final(report)@.failed == old(report)@.passed + old(report)@.failed
            + cases@.len(),
{
    let ghost cs = cases_view(cases@);
    let ghost os = outcomes_view(outcomes@);
    let mut i: usize = 0;
    assert(cs.take(0) =~= Seq::empty());
    while i < cases.len()
        invariant
            i <= cases@.len(),
            outcomes@.len() == cases@.len(),
            cs == cases_view(cases@),
            os == outcomes_view(outcomes@),
            report@.wf(),
            old(report)@.passed + old(report)@.failed + cases@.len() <= usize::MAX,
            report@.passed + report@.failed == old(report)@.passed + old(report)@.failed + i,
            report@ == judged(old(report)@, cs.take(i as int), os),
        decreases cases@.len() - i,
    {
        proof {
            assert(cs.take(i + 1).drop_last() =~= cs.take(i as int));
            assert(cs.take(i + 1).last() == cases@[i as int]@);
            assert(os[i as int] == text_view(outcomes@[i as int]));
        }
        expect(report, &cases[i], &outcomes[i]);
        i = i + 1;
    }
    assert(cs.take(i as int) =~= cs);
}

pub open spec fn language_cases() -> Seq<CaseModel> {
    seq![
        case(
            "arithmetic"@,
            "(1 + 2) * 3 / 4 - 5"@,
            Want::Is("-2.75"@),
        ),
        case(
            "string methods and unicode case"@,
            "'\\u00c4rger'.toLowerCase() + '/' + 'abc'.padStart(5, '-')"@,
            Want::Is("ärger/--abc"@),
        ),
        case(
            "JSON round trip"@,
            "JSON.stringify(JSON.parse('{\"a\":[1,2,{\"b\":null}],\"c\":\"x\\\\u00e9\"}'))"@,
            Want::Is("{\"a\":[1,2,{\"b\":null}],\"c\":\"xé\"}"@),
        ),
        case(
            "JSON.stringify with an indent"@,
            "JSON.stringify({a:1}, null, 2)"@,
            Want::Is("{\n  \"a\": 1\n}"@),
        ),
        case(
            "regexp capture and replace"@,
            "'2026-06-04'.replace(/(\\d{4})-(\\d{2})-(\\d{2})/, '$3/$2/$1')"@,
            Want::Is("04/06/2026"@),
        ),
        case(
            "regexp named groups"@,
            "/(?<y>\\d{4})-(?<m>\\d{2})/.exec('2026-06').groups.m"@,
            Want::Is("06"@),
        ),
        case(
            "regexp unicode property"@,
            "/^\\p{Lu}\\p{Ll}+$/u.test('\\u00c4rger')"@,
            Want::Is("true"@),
        ),
        case(
            "a class with inheritance"@,
            "class Point {constructor(x, y) { this.x = x; this.y = y }get length() { return Math.hypot(this.x, this.y) }toString() { return `(${this.x},${this.y})` }}class Named extends Point {constructor(x, y, n) { super(x, y); this.n = n }toString() { return this.n + super.toString() }}String(new Named(3, 4, 'p')) + ' ' + new Named(3, 4, 'p').length"@,
            Want::Is("p(3,4) 5"@),
        ),
        case(
            "a generator"@,
            "function* fib() { let [a, b] = [0, 1]; while (true) { yield a; [a, b] = [b, a + b] } }const out = []; for (const v of fib()) { if (out.length === 9) break; out.push(v) }out.join(',')"@,
            Want::Is("0,1,1,2,3,5,8,13,21"@),
        ),
        case(
            "closures capture per iteration"@,
            "const fs = []; for (let i = 0; i < 3; i++) fs.push(() => i); fs.map(f => f()).join(',')"@,
            Want::Is("0,1,2"@),
        ),
        case(
            "Map and Set"@,
            "const m = new Map([[1, 'a'], [2, 'b']]);`${[...new Set([1, 1, 2, 3])].length}/${m.get(2)}/${typeof Symbol.iterator}`"@,
            Want::Is("3/b/symbol"@),
        ),
        case(
            "BigInt"@,
            "(2n ** 64n - 1n).toString()"@,
            Want::Is("18446744073709551615"@),
        ),
        case(
            "destructuring and spread"@,
            "const {a, ...rest} = {a: 1, b: 2, c: 3};`${a}/${JSON.stringify(rest)}/${Math.max(...[4, 9, 2])}`"@,
            Want::Is("1/{\"b\":2,\"c\":3}/9"@),
        ),
        case(
            "try, catch and finally in order"@,
            "let trace = '';try { try { null.x } finally { trace += 'f' } } catch (e) { trace += e.constructor.name }trace"@,
            Want::Is("fTypeError"@),
        ),
        case(
            "sort with a comparator"@,
            "[10, 9, 1, 100].sort((a, b) => a - b).join(',')"@,
            Want::Is("1,9,10,100"@),
        ),
        case(
            "a throw is reported as an error"@,
            "null.x"@,
            Want::Fails("TypeError"@),
        ),
        case(
            "a syntax error is reported as an error"@,
            "function ("@,
            Want::Fails("SyntaxError"@),
        ),
    ]
}

/// The language itself, as a smoke test.
pub fn language() -> (r: Vec<Case>)
    ensures
        cases_view(r@) == language_cases(),
{
    let mut v: Vec<Case> = Vec::new();
    v.push(
        Case {
            name: "arithmetic",
            source: "(1 + 2) * 3 / 4 - 5",
            want: Want::Is("-2.75"),
        },
    );
    v.push(
        Case {
            name: "string methods and unicode case",
            source: "'\\u00c4rger'.toLowerCase() + '/' + 'abc'.padStart(5, '-')",
            want: Want::Is("ärger/--abc"),
        },
    );
    v.push(
        Case {
            name: "JSON round trip",
            source: "JSON.stringify(JSON.parse('{\"a\":[1,2,{\"b\":null}],\"c\":\"x\\\\u00e9\"}'))",
            want: Want::Is("{\"a\":[1,2,{\"b\":null}],\"c\":\"xé\"}"),
        },
    );
    v.push(
        Case {
            name: "JSON.stringify with an indent",
            source: "JSON.stringify({a:1}, null, 2)",
            want: Want::Is("{\n  \"a\": 1\n}"),
        },
    );
    v.push(
        Case {
            name: "regexp capture and replace",
            source: "'2026-06-04'.replace(/(\\d{4})-(\\d{2})-(\\d{2})/, '$3/$2/$1')",
            want: Want::Is("04/06/2026"),
        },
    );
    v.push(
        Case {
            name: "regexp named groups",
            source: "/(?<y>\\d{4})-(?<m>\\d{2})/.exec('2026-06').groups.m",
            want: Want::Is("06"),
        },
    );
    v.push(
        Case {
            name: "regexp unicode property",
            source: "/^\\p{Lu}\\p{Ll}+$/u.test('\\u00c4rger')",
            want: Want::Is("true"),
        },
    );
    v.push(
        Case {
            name: "a class with inheritance",
            source: "class Point {constructor(x, y) { this.x = x; this.y = y }get length() { return Math.hypot(this.x, this.y) }toString() { return `(${this.x},${this.y})` }}class Named extends Point {constructor(x, y, n) { super(x, y); this.n = n }toString() { return this.n + super.toString() }}String(new Named(3, 4, 'p')) + ' ' + new Named(3, 4, 'p').length",
            want: Want::Is("p(3,4) 5"),
        },
    );
    v.push(
        Case {
            name: "a generator",
            source: "function* fib() { let [a, b] = [0, 1]; while (true) { yield a; [a, b] = [b, a + b] } }const out = []; for (const v of fib()) { if (out.length === 9) break; out.push(v) }out.join(',')",
            want: Want::Is("0,1,1,2,3,5,8,13,21"),
        },
    );
    v.push(
        Case {
            name: "closures capture per iteration",
            source: "const fs = []; for (let i = 0; i < 3; i++) fs.push(() => i); fs.map(f => f()).join(',')",
            want: Want::Is("0,1,2"),
        },
    );
    v.push(
        Case {
            name: "Map and Set",
            source: "const m = new Map([[1, 'a'], [2, 'b']]);`${[...new Set([1, 1, 2, 3])].length}/${m.get(2)}/${typeof Symbol.iterator}`",
            want: Want::Is("3/b/symbol"),
        },
    );
    v.push(
        Case {
            name: "BigInt",
            source: "(2n ** 64n - 1n).toString()",
            want: Want::Is("18446744073709551615"),
        },
    );
    v.push(
        Case {
            name: "destructuring and spread",
            source: "const {a, ...rest} = {a: 1, b: 2, c: 3};`${a}/${JSON.stringify(rest)}/${Math.max(...[4, 9, 2])}`",
            want: Want::Is("1/{\"b\":2,\"c\":3}/9"),
        },
    );
    v.push(
        Case {
            name: "try, catch and finally in order",
            source: "let trace = '';try { try { null.x } finally { trace += 'f' } } catch (e) { trace += e.constructor.name }trace",
            want: Want::Is("fTypeError"),
        },
    );
    v.push(
        Case {
            name: "sort with a comparator",
            source: "[10, 9, 1, 100].sort((a, b) => a - b).join(',')",
            want: Want::Is("1,9,10,100"),
        },
    );
    v.push(
        Case {
            name: "a throw is reported as an error",
            source: "null.x",
            want: Want::Fails("TypeError"),
        },
    );
    v.push(
        Case {
            name: "a syntax error is reported as an error",
            source: "function (",
            want: Want::Fails("SyntaxError"),
        },
    );
    assert(cases_view(v@) =~= language_cases());
    v
}

pub open spec fn numbers_cases() -> Seq<CaseModel> {
    seq![
        case(
            "float addition is not decimal"@,
            "String(0.1 + 0.2)"@,
            Want::Is("0.30000000000000004"@),
        ),
        case(
            "number formatting at the edges"@,
            "[1/3, 1e21, 1e-7, -0, 2 ** 53].map(String).join('|')"@,
            Want::Is("0.3333333333333333|1e+21|1e-7|0|9007199254740992"@),
        ),
        case(
            "toFixed, toPrecision and toString(radix)"@,
            "[(1234.5678).toFixed(2), (0.000123).toPrecision(2), (255).toString(16)].join('|')"@,
            Want::Is("1234.57|0.00012|ff"@),
        ),
        case(
            "parsing back"@,
            "[parseFloat('3.25e2'), parseInt('ff', 16), Number('  42  ')].join(',')"@,
            Want::Is("325,255,42"@),
        ),
        case(
            "Math against libm and the shim"@,
            "[Math.sqrt(2), Math.hypot(3, 4), Math.cbrt(27), Math.log2(1024), Math.atanh(0.5)].map(x => x.toFixed(6)).join(',')"@,
            Want::Is("1.414214,5.000000,3.000000,10.000000,0.549306"@),
        ),
    ]
}

/// Numbers, which are formatted and computed by the engine's own arithmetic.
pub fn numbers() -> (r: Vec<Case>)
    ensures
        cases_view(r@) == numbers_cases(),
{
    let mut v: Vec<Case> = Vec::new();
    v.push(
        Case {
            name: "float addition is not decimal",
            source: "String(0.1 + 0.2)",
            want: Want::Is("0.30000000000000004"),
        },
    );
    v.push(
        Case {
            name: "number formatting at the edges",
            source: "[1/3, 1e21, 1e-7, -0, 2 ** 53].map(String).join('|')",
            want: Want::Is("0.3333333333333333|1e+21|1e-7|0|9007199254740992"),
        },
    );
    v.push(
        Case {
            name: "toFixed, toPrecision and toString(radix)",
            source: "[(1234.5678).toFixed(2), (0.000123).toPrecision(2), (255).toString(16)].join('|')",
            want: Want::Is("1234.57|0.00012|ff"),
        },
    );
    v.push(
        Case {
            name: "parsing back",
            source: "[parseFloat('3.25e2'), parseInt('ff', 16), Number('  42  ')].join(',')",
            want: Want::Is("325,255,42"),
        },
    );
    v.push(
        Case {
            name: "Math against libm and the shim",
            source: "[Math.sqrt(2), Math.hypot(3, 4), Math.cbrt(27), Math.log2(1024), Math.atanh(0.5)].map(x => x.toFixed(6)).join(',')",
            want: Want::Is("1.414214,5.000000,3.000000,10.000000,0.549306"),
        },
    );
    assert(cases_view(v@) =~= numbers_cases());
    v
}

pub open spec fn date_cases() -> Seq<CaseModel> {
    seq![
        case(
            "a fixed instant formats"@,
            "new Date(1780531200000).toISOString()"@,
            Want::Is("2026-06-04T00:00:00.000Z"@),
        ),
        case(
            "Date.parse round trips"@,
            "new Date(Date.parse('2026-06-04T12:34:56.789Z')).getTime()"@,
            Want::Is("1780576496789"@),
        ),
        case(
            "the clock is UTC"@,
            "new Date().getTimezoneOffset()"@,
            Want::Is("0"@),
        ),
    ]
}

/// Dates at fixed instants.
pub fn date() -> (r: Vec<Case>)
    ensures
        cases_view(r@) == date_cases(),
{
    let mut v: Vec<Case> = Vec::new();
    v.push(
        Case {
            name: "a fixed instant formats",
            source: "new Date(1780531200000).toISOString()",
            want: Want::Is("2026-06-04T00:00:00.000Z"),
        },
    );
    v.push(
        Case {
            name: "Date.parse round trips",
            source: "new Date(Date.parse('2026-06-04T12:34:56.789Z')).getTime()",
            want: Want::Is("1780576496789"),
        },
    );
    v.push(
        Case {
            name: "the clock is UTC",
            source: "new Date().getTimezoneOffset()",
            want: Want::Is("0"),
        },
    );
    assert(cases_view(v@) =~= date_cases());
    v
}

pub open spec fn natives_cases() -> Seq<CaseModel> {
    seq![
        case(
            "a native is a function"@,
            "typeof kernelSum"@,
            Want::Is("function"@),
        ),
        case(
            "a native returns a number"@,
            "kernelSum(2, 40)"@,
            Want::Is("42"@),
        ),
        case(
            "a native returns a string"@,
            "kernelShout('hello')"@,
            Want::Is("kernel says hello"@),
        ),
        case(
            "a native returns a real boolean"@,
            "[kernelEven(4), typeof kernelEven(4)].join(',')"@,
            Want::Is("true,boolean"@),
        ),
        case(
            "a native sees every argument"@,
            "kernelCount(1, 2, 3, 4)"@,
            Want::Is("4"@),
        ),
        case(
            "a native sees no arguments"@,
            "kernelCount()"@,
            Want::Is("0"@),
        ),
        case(
            "a native returning nothing is undefined"@,
            "String(print('from js'))"@,
            Want::Is("undefined"@),
        ),
        case(
            "a native called from a closure"@,
            "[1, 2, 3].map(n => kernelSum(n, 10)).join(',')"@,
            Want::Is("11,12,13"@),
        ),
        case(
            "declared arity is visible"@,
            "kernelSum.length"@,
            Want::Is("2"@),
        ),
    ]
}

/// Calls from a script into the host.
pub fn natives() -> (r: Vec<Case>)
    ensures
        cases_view(r@) == natives_cases(),
{
    let mut v: Vec<Case> = Vec::new();
    v.push(
        Case {
            name: "a native is a function",
            source: "typeof kernelSum",
            want: Want::Is("function"),
        },
    );
    v.push(
        Case {
            name: "a native returns a number",
            source: "kernelSum(2, 40)",
            want: Want::Is("42"),
        },
    );
    v.push(
        Case {
            name: "a native returns a string",
            source: "kernelShout('hello')",
            want: Want::Is("kernel says hello"),
        },
    );
    v.push(
        Case {
            name: "a native returns a real boolean",
            source: "[kernelEven(4), typeof kernelEven(4)].join(',')",
            want: Want::Is("true,boolean"),
        },
    );
    v.push(
        Case {
            name: "a native sees every argument",
            source: "kernelCount(1, 2, 3, 4)",
            want: Want::Is("4"),
        },
    );
    v.push(
        Case {
            name: "a native sees no arguments",
            source: "kernelCount()",
            want: Want::Is("0"),
        },
    );
    v.push(
        Case {
            name: "a native returning nothing is undefined",
            source: "String(print('from js'))",
            want: Want::Is("undefined"),
        },
    );
    v.push(
        Case {
            name: "a native called from a closure",
            source: "[1, 2, 3].map(n => kernelSum(n, 10)).join(',')",
            want: Want::Is("11,12,13"),
        },
    );
    v.push(
        Case {
            name: "declared arity is visible",
            source: "kernelSum.length",
            want: Want::Is("2"),
        },
    );
    assert(cases_view(v@) =~= natives_cases());
    v
}

pub open spec fn calling_in_cases() -> Seq<CaseModel> {
    seq![
        case(
            "a function to call can be defined"@,
            "globalThis.roundTrip = function (a, b, c, d) {return [typeof a, a, typeof b, b, typeof c, c, typeof d].join('|') };globalThis.thrower = function () { throw new TypeError('from js') };1"@,
            Want::Succeeds,
        ),
        case(
            "every argument type arrives as itself"@,
            "roundTrip"@,
            Want::Is("string|text|number|-7|boolean|true|undefined"@),
        ),
        case(
            "a float keeps its fraction"@,
            "echo"@,
            Want::Is("0.5"@),
        ),
        case(
            "no arguments is allowed"@,
            "count"@,
            Want::Is("0"@),
        ),
        case(
            "a throw comes back as an error"@,
            "thrower"@,
            Want::Fails("from js"@),
        ),
        case(
            "calling something that is not a function is an error"@,
            "noSuchThing"@,
            Want::Fails("not a function"@),
        ),
        case(
            "and the engine is unharmed"@,
            "'still here'"@,
            Want::Is("still here"@),
        ),
    ]
}

/// Calls from the host into a script: every case but the first and the last calls the function that it names.
pub fn calling_in() -> (r: Vec<Case>)
    ensures
        cases_view(r@) == calling_in_cases(),
{
    let mut v: Vec<Case> = Vec::new();
    v.push(
        Case {
            name: "a function to call can be defined",
            source: "globalThis.roundTrip = function (a, b, c, d) {return [typeof a, a, typeof b, b, typeof c, c, typeof d].join('|') };globalThis.thrower = function () { throw new TypeError('from js') };1",
            want: Want::Succeeds,
        },
    );
    v.push(
        Case {
            name: "every argument type arrives as itself",
            source: "roundTrip",
            want: Want::Is("string|text|number|-7|boolean|true|undefined"),
        },
    );
    v.push(
        Case {
            name: "a float keeps its fraction",
            source: "echo",
            want: Want::Is("0.5"),
        },
    );
    v.push(
        Case {
            name: "no arguments is allowed",
            source: "count",
            want: Want::Is("0"),
        },
    );
    v.push(
        Case {
            name: "a throw comes back as an error",
            source: "thrower",
            want: Want::Fails("from js"),
        },
    );
    v.push(
        Case {
            name: "calling something that is not a function is an error",
            source: "noSuchThing",
            want: Want::Fails("not a function"),
        },
    );
    v.push(
        Case {
            name: "and the engine is unharmed",
            source: "'still here'",
            want: Want::Is("still here"),
        },
    );
    assert(cases_view(v@) =~= calling_in_cases());
    v
}

pub open spec fn jobs_first_cases() -> Seq<CaseModel> {
    seq![
        case(
            "a promise chain does not run inside eval"@,
            "globalThis.trail = '';Promise.resolve(1).then(v => { trail += 'a' + v; return v + 1 }).then(v => { trail += 'b' + v; throw new Error('x') }).catch(e => { trail += 'c' + e.message });trail"@,
            Want::Is(""@),
        ),
    ]
}

/// A promise chain, before the queue is drained.
pub fn jobs_first() -> (r: Vec<Case>)
    ensures
        cases_view(r@) == jobs_first_cases(),
{
    let mut v: Vec<Case> = Vec::new();
    v.push(
        Case {
            name: "a promise chain does not run inside eval",
            source: "globalThis.trail = '';Promise.resolve(1).then(v => { trail += 'a' + v; return v + 1 }).then(v => { trail += 'b' + v; throw new Error('x') }).catch(e => { trail += 'c' + e.message });trail",
            want: Want::Is(""),
        },
    );
    assert(cases_view(v@) =~= jobs_first_cases());
    v
}

pub open spec fn jobs_chain_cases() -> Seq<CaseModel> {
    seq![
        case(
            "the chain ran in order"@,
            "trail"@,
            Want::Is("a1b2cx"@),
        ),
        case(
            "an async function suspends at await"@,
            "globalThis.awaited = 'pending';(async () => { const v = await Promise.resolve(20); awaited = String(v + 22) })();awaited"@,
            Want::Is("pending"@),
        ),
    ]
}

/// The chain after a drain, and an `async` function.
pub fn jobs_chain() -> (r: Vec<Case>)
    ensures
        cases_view(r@) == jobs_chain_cases(),
{
    let mut v: Vec<Case> = Vec::new();
    v.push(
        Case {
            name: "the chain ran in order",
            source: "trail",
            want: Want::Is("a1b2cx"),
        },
    );
    v.push(
        Case {
            name: "an async function suspends at await",
            source: "globalThis.awaited = 'pending';(async () => { const v = await Promise.resolve(20); awaited = String(v + 22) })();awaited",
            want: Want::Is("pending"),
        },
    );
    assert(cases_view(v@) =~= jobs_chain_cases());
    v
}

pub open spec fn jobs_last_cases() -> Seq<CaseModel> {
    seq![
        case(
            "await finished"@,
            "awaited"@,
            Want::Is("42"@),
        ),
        case(
            "eval_settled drains before returning"@,
            "globalThis.settled = 'no'; Promise.resolve().then(() => { settled = 'yes' }); 1"@,
            Want::Is("1"@),
        ),
        case(
            "and the side effect happened"@,
            "settled"@,
            Want::Is("yes"@),
        ),
    ]
}

/// The function after another drain, and an evaluation that drains by itself.
pub fn jobs_last() -> (r: Vec<Case>)
    ensures
        cases_view(r@) == jobs_last_cases(),
{
    let mut v: Vec<Case> = Vec::new();
    v.push(
        Case {
            name: "await finished",
            source: "awaited",
            want: Want::Is("42"),
        },
    );
    v.push(
        Case {
            name: "eval_settled drains before returning",
            source: "globalThis.settled = 'no'; Promise.resolve().then(() => { settled = 'yes' }); 1",
            want: Want::Is("1"),
        },
    );
    v.push(
        Case {
            name: "and the side effect happened",
            source: "settled",
            want: Want::Is("yes"),
        },
    );
    assert(cases_view(v@) =~= jobs_last_cases());
    v
}

pub open spec fn after_recursion_cases() -> Seq<CaseModel> {
    seq![
        case(
            "the engine still works after an overflow"@,
            "1 + 1"@,
            Want::Is("2"@),
        ),
    ]
}

/// The engine after a stack overflow.
pub fn after_recursion() -> (r: Vec<Case>)
    ensures
        cases_view(r@) == after_recursion_cases(),
{
    let mut v: Vec<Case> = Vec::new();
    v.push(
        Case {
            name: "the engine still works after an overflow",
            source: "1 + 1",
            want: Want::Is("2"),
        },
    );
    assert(cases_view(v@) =~= after_recursion_cases());
    v
}

pub open spec fn after_nesting_cases() -> Seq<CaseModel> {
    seq![
        case(
            "JSON at a legitimate depth still parses"@,
            "JSON.parse('[[[[[[[[[[1]]]]]]]]]]').flat(9)[0]"@,
            Want::Is("1"@),
        ),
        case(
            "and the engine survived that too"@,
            "'ok'"@,
            Want::Is("ok"@),
        ),
    ]
}

/// The engine after input that was nested too deeply.
pub fn after_nesting() -> (r: Vec<Case>)
    ensures
        cases_view(r@) == after_nesting_cases(),
{
    let mut v: Vec<Case> = Vec::new();
    v.push(
        Case {
            name: "JSON at a legitimate depth still parses",
            source: "JSON.parse('[[[[[[[[[[1]]]]]]]]]]').flat(9)[0]",
            want: Want::Is("1"),
        },
    );
    v.push(
        Case {
            name: "and the engine survived that too",
            source: "'ok'",
            want: Want::Is("ok"),
        },
    );
    assert(cases_view(v@) =~= after_nesting_cases());
    v
}

// ── The engine's values ─────────────────────────────────────────────────────

/// A payload and a tag with different halves, so that fields that were
/// swapped do not pass by symmetry.
pub const PAYLOAD: u64 = 0x0123_4567_89ab_cdef;

pub const TAG: i64 = -7;

/// How the two languages see a value of the engine.
#[derive(Clone, Copy, Debug, PartialEq, Eq, Structural)]
pub struct Layout {
    pub c_size: usize,
    pub c_align: usize,
    pub size: usize,
    pub align: usize,
    /// What is read of a value that was written with [`PAYLOAD`] and [`TAG`].
    pub payload: u64,
    pub tag: i64,
    /// Whether the other side read what was written here.
    pub agreed: bool,
}

pub open spec fn layout_checked(r: ReportModel, l: Layout) -> ReportModel {
    r.checked("JSValue is 16 bytes in C"@, l.c_size == 16).checked(
        "JSValue is 16 bytes in Rust"@,
        l.size == l.c_size,
    ).checked("JSValue alignment agrees"@, l.align == l.c_align).checked(
        "C writes the payload where Rust reads it"@,
        l.payload == PAYLOAD,
    ).checked("C writes the tag where Rust reads it"@, l.tag == TAG).checked(
        "Rust writes the fields where C reads them"@,
        l.agreed,
    )
}

/// Check that both languages lay a value out alike. Everything else depends
/// on it, and nothing else would diagnose it.
pub fn layout(report: &mut Report, l: Layout)
    requires
        old(report)@.wf(),
        old(report)@.passed + old(report)@.failed <= usize::MAX - 6,
    ensures
        final(report)@ == layout_checked(old(report)@, l),
        final(report)@.wf(),
        final(report)@.passed + final(report)@.failed == old(report)@.passed + old(report)@.failed
            + 6,
{
    report.check("JSValue is 16 bytes in C", l.c_size == 16);
    report.check("JSValue is 16 bytes in Rust", l.size == l.c_size);
    report.check("JSValue alignment agrees", l.align == l.c_align);
    report.check("C writes the payload where Rust reads it", l.payload == PAYLOAD);
    report.check("C writes the tag where Rust reads it", l.tag == TAG);
    report.check("Rust writes the fields where C reads them", l.agreed);
}

pub open spec fn cost_checked(r: ReportModel, bytes: int, blocks: int) -> ReportModel {
    r.checked("a runtime and a context exist"@, bytes > 0 && blocks > 0).checked(
        "the runtime costs what it did on the host"@,
        100_000 < bytes < 400_000,
    )
}

/// Check what an engine costs: about 165 KiB.
pub fn cost(report: &mut Report, bytes: i64, blocks: i64)
    requires
        old(report)@.wf(),
        old(report)@.passed + old(report)@.failed <= usize::MAX - 2,
    ensures
        final(report)@ == cost_checked(old(report)@, bytes as int, blocks as int),
        final(report)@.wf(),
        final(report)@.passed + final(report)@.failed == old(report)@.passed + old(report)@.failed
            + 2,
{
    report.check("a runtime and a context exist", bytes > 0 && blocks > 0);
    report.check("the runtime costs what it did on the host", bytes > 100_000 && bytes < 400_000);
}

// ── Dates ───────────────────────────────────────────────────────────────────

/// The time that a machine without a clock reports.
pub const CLOCK_FALLBACK: i64 = 1_780_531_200_000;

pub open spec fn four_digits(n: nat) -> Seq<char> {
    (if n < 10 {
        "000"@
    } else if n < 100 {
        "00"@
    } else if n < 1000 {
        "0"@
    } else {
        Seq::empty()
    }) + text::decimal(n)
}

/// The date part of a timestamp.
pub open spec fn iso_date(t: DateTime) -> Seq<char> {
    four_digits(t.year as nat) + "-"@ + text::two_digits(t.month as nat) + "-"@ + text::two_digits(
        t.day as nat,
    )
}

fn date_text(t: DateTime) -> (r: String)
    ensures
        r@ == iso_date(t),
{
    let mut s = String::new();
    if t.year < 10 {
        s.append("000");
    } else if t.year < 100 {
        s.append("00");
    } else if t.year < 1000 {
        s.append("0");
    }
    push_decimal(&mut s, t.year as u64);
    assert(s@ =~= four_digits(t.year as nat));
    s.append("-");
    push_two_digits(&mut s, t.month as u64);
    s.append("-");
    push_two_digits(&mut s, t.day as u64);
    s
}

/// The number that a script returned as text.
pub open spec fn number_in(o: Outcome) -> Option<i64> {
    match o {
        Ok(t) => text::integer(t),
        Err(_) => None,
    }
}

fn number_of(o: &Result<String, String>) -> (r: Option<i64>)
    ensures
        r == number_in(text_view(*o)),
{
    match o {
        Ok(t) => parse_integer(t.as_str()),
        Err(_) => None,
    }
}

pub open spec fn clock_checked(
    r: ReportModel,
    before: i64,
    reported: Outcome,
    after: i64,
    stamp: Outcome,
    now: DateTime,
) -> ReportModel {
    let n = number_in(reported);
    r.checked(
        "Date.now is the kernel's clock"@,
        n matches Some(t) && before <= t <= after,
    ).checked("Date.now is not the shim's fallback"@, n matches Some(t) && t != CLOCK_FALLBACK).checked(
        "toISOString agrees with the RTC's own date"@,
        stamp matches Ok(t) && text::has_prefix(t, iso_date(now)),
    )
}

/// Check that a script's clock is the kernel's: its answer lies between two
/// readings, and its date is the one that the calendar gives.
pub fn clock(
    report: &mut Report,
    before: i64,
    reported: &Result<String, String>,
    after: i64,
    stamp: &Result<String, String>,
    now: DateTime,
)
    requires
        old(report)@.wf(),
        old(report)@.passed + old(report)@.failed <= usize::MAX - 3,
    ensures
        final(report)@ == clock_checked(
            old(report)@,
            before,
            text_view(*reported),
            after,
            text_view(*stamp),
            now,
        ),
        final(report)@.wf(),
        final(report)@.passed + final(report)@.failed == old(report)@.passed + old(report)@.failed
            + 3,
{
    let (live, own) = match number_of(reported) {
        Some(t) => (t >= before && t <= after, t != CLOCK_FALLBACK),
        None => (false, false),
    };
    report.check("Date.now is the kernel's clock", live);
    report.check("Date.now is not the shim's fallback", own);
    let expected = date_text(now);
    let agrees = match stamp {
        Ok(t) => starts_with(t.as_str(), expected.as_str()),
        Err(_) => false,
    };
    report.check("toISOString agrees with the RTC's own date", agrees);
}

// ── Native functions ────────────────────────────────────────────────────────

/// The arguments as one line, with a blank between each two.
pub open spec fn line_of(v: Seq<crate::quickjs::ArgValue>) -> Seq<char>
    decreases v.len(),
{
    if v.len() == 0 {
        Seq::empty()
    } else {
        line_of(v.drop_last()) + (if v.len() > 1 {
            " "@
        } else {
            Seq::empty()
        }) + (match v.last().text {
            Some(t) => t@,
            None => Seq::empty(),
        })
    }
}

/// What a script's `print` prints.
pub fn print(args: &Args) -> (r: String)
    ensures
        r@ == line_of(args.values@),
{
    let mut line = String::new();
    let mut i: usize = 0;
    let ghost all = args.values@;
    assert(all.take(0) =~= Seq::empty());
    assert(line@ =~= line_of(all.take(0)));
    while i < args.len()
        invariant
            i <= all.len(),
            all == args.values@,
            line@ == line_of(all.take(i as int)),
        decreases all.len() - i,
    {
        let ghost before = line@;
        if i > 0 {
            line.append(" ");
        }
        if let Some(t) = args.string(i) {
            line.append(t.as_str());
        }
        proof {
            assert(all.take(i + 1).drop_last() =~= all.take(i as int));
            assert(all.take(i + 1).last() == all[i as int]);
            assert(line@ =~= line_of(all.take(i + 1)));
        }
        i = i + 1;
    }
    assert(all.take(i as int) =~= all);
    line
}

/// What a script's `kernelShout` returns; nothing without a text to shout.
pub fn shout(args: &Args) -> (r: Option<String>)
    ensures
        crate::quickjs::option_view(r) == (if args.values@.len() == 0 {
            None
        } else {
            match args.values@[0].text {
                Some(t) => Some("kernel says "@ + t@),
                None => None,
            }
        }),
{
    if args.is_empty() {
        return None;
    }
    match args.string(0) {
        Some(t) => {
            let mut s = "kernel says ".to_owned();
            s.append(t.as_str());
            Some(s)
        },
        None => None,
    }
}

/// What a script's `kernelCount` returns.
pub fn count(args: &Args) -> (r: i32)
    requires
        args.values@.len() <= i32::MAX,
    ensures
        r == args.values@.len(),
{
    args.len() as i32
}

/// What a script's `kernelEven` returns.
pub fn even(args: &Args) -> (r: bool)
    ensures
        r == (args.values@.len() > 0 && (match args.values@[0].number {
            Numeric::Thrown => false,
            Numeric::NotANumber => true,
            Numeric::Infinite { whole } => whole as int % 2 == 0,
            Numeric::Finite { whole, .. } => whole as int % 2 == 0,
        })),
{
    if args.is_empty() {
        return false;
    }
    match args.values[0].number {
        Numeric::Thrown => false,
        Numeric::NotANumber => true,
        Numeric::Infinite { whole } => whole % 2 == 0,
        Numeric::Finite { whole, .. } => whole % 2 == 0,
    }
}

/// Which of the functions above could be exposed.
#[derive(Clone, Copy, Debug, PartialEq, Eq, Structural)]
pub struct Registered {
    pub print: bool,
    pub sum: bool,
    pub shout: bool,
    pub count: bool,
    pub even: bool,
}

pub open spec fn registered_checked(r: ReportModel, d: Registered) -> ReportModel {
    r.checked("print registers"@, d.print).checked("sum registers"@, d.sum).checked(
        "shout registers"@,
        d.shout,
    ).checked("count registers"@, d.count).checked("even registers"@, d.even)
}

pub fn registered(report: &mut Report, d: Registered)
    requires
        old(report)@.wf(),
        old(report)@.passed + old(report)@.failed <= usize::MAX - 5,
    ensures
        final(report)@ == registered_checked(old(report)@, d),
        final(report)@.wf(),
        final(report)@.passed + final(report)@.failed == old(report)@.passed + old(report)@.failed
            + 5,
{
    report.check("print registers", d.print);
    report.check("sum registers", d.sum);
    report.check("shout registers", d.shout);
    report.check("count registers", d.count);
    report.check("even registers", d.even);
}

// ── The time budget ─────────────────────────────────────────────────────────

/// The time that a script which never ends is given, in microseconds.
pub const BUDGET: u64 = 50_000;

/// What came of a script that never ends, and of the ones after it.
pub struct Runaway {
    pub outcome: Result<String, String>,
    /// How long it ran, in microseconds.
    pub micros: u64,
    /// Whether it got anywhere.
    pub spun: Result<String, String>,
    pub after: Result<String, String>,
    pub caught: Result<String, String>,
    pub slow: Result<String, String>,
}

pub open spec fn runaway_checked(r: ReportModel, a: Runaway) -> ReportModel {
    r.checked("a loop that never ends is stopped"@, a.outcome is Err).checked(
        "the page cannot catch the interruption"@,
        !(text_view(a.outcome) matches Ok(t) && text::occurs(t, "caught"@)),
    ).checked(
        "it was stopped at about the budget"@,
        BUDGET / 4 <= a.micros < BUDGET * 20,
    ).checked(
        "it really did run first"@,
        meets(Want::Is("true"@), text_view(a.spun)),
    ).checked(
        "the engine works afterwards"@,
        meets(Want::Is("2"@), text_view(a.after)),
    ).checked(
        "an ordinary throw is catchable again"@,
        meets(Want::Is("ok"@), text_view(a.caught)),
    ).checked(
        "a cleared budget lets a slow loop finish"@,
        meets(Want::Is("true"@), text_view(a.slow)),
    )
}

/// Check that a script which never ends is stopped, by the clock, in a way
/// that it cannot catch, and that the engine is none the worse for it.
pub fn deadline(report: &mut Report, a: &Runaway)
    requires
        old(report)@.wf(),
        old(report)@.passed + old(report)@.failed <= usize::MAX - 7,
    ensures
        final(report)@ == runaway_checked(old(report)@, *a),
        final(report)@.wf(),
        final(report)@.passed + final(report)@.failed == old(report)@.passed + old(report)@.failed
            + 7,
{
    report.check("a loop that never ends is stopped", a.outcome.is_err());
    let swallowed = match &a.outcome {
        Ok(t) => contains(t.as_str(), "caught"),
        Err(_) => false,
    };
    report.check("the page cannot catch the interruption", !swallowed);
    report.check("it was stopped at about the budget", a.micros >= 12_500 && a.micros < 1_000_000);
    report.check("it really did run first", is_met(Want::Is("true"), &a.spun));
    report.check("the engine works afterwards", is_met(Want::Is("2"), &a.after));
    report.check("an ordinary throw is catchable again", is_met(Want::Is("ok"), &a.caught));
    report.check("a cleared budget lets a slow loop finish", is_met(Want::Is("true"), &a.slow));
}

/// How the interruption is reported.
pub open spec fn interruption(o: Outcome) -> Seq<char> {
    match o {
        Err(e) => e,
        Ok(t) => "nothing — it returned "@ + t,
    }
}

pub fn interruption_text(o: &Result<String, String>) -> (r: String)
    ensures
        r@ == interruption(text_view(*o)),
{
    match o {
        Err(e) => e.as_str().to_owned(),
        Ok(t) => {
            let mut s = "nothing — it returned ".to_owned();
            s.append(t.as_str());
            s
        },
    }
}

// ── Jobs and the collector ──────────────────────────────────────────────────

/// What the job queue did: whether jobs were pending, how many a drain ran,
/// and whether any were left.
pub open spec fn drained_checked(r: ReportModel, pending: bool, ran: Option<usize>, left: bool) -> ReportModel {
    r.checked("jobs are pending"@, pending).checked(
        "the pump ran jobs"@,
        ran matches Some(n) && n >= 3,
    ).checked("the queue is empty afterwards"@, !left)
}

pub fn drained(report: &mut Report, pending: bool, ran: Option<usize>, left: bool)
    requires
        old(report)@.wf(),
        old(report)@.passed + old(report)@.failed <= usize::MAX - 3,
    ensures
        final(report)@ == drained_checked(old(report)@, pending, ran, left),
        final(report)@.wf(),
        final(report)@.passed + final(report)@.failed == old(report)@.passed + old(report)@.failed
            + 3,
{
    report.check("jobs are pending", pending);
    let enough = match ran {
        Some(n) => n >= 3,
        None => false,
    };
    report.check("the pump ran jobs", enough);
    report.check("the queue is empty afterwards", !left);
}

/// The engine's memory before a script full of cycles, with it, and after a
/// collection.
#[derive(Clone, Copy, Debug, PartialEq, Eq, Structural)]
pub struct Collected {
    pub baseline: i64,
    pub peak: i64,
    pub after: i64,
    pub dropped: bool,
}

pub open spec fn collection_checked(r: ReportModel, built: Outcome, c: Collected) -> ReportModel {
    r.checked("a cycle-heavy script runs"@, meets(Want::Is("2000"@), built)).checked(
        "the cycles cost memory"@,
        c.peak > c.baseline,
    ).checked("dropping the root succeeds"@, c.dropped).checked(
        "the collector reclaims them"@,
        c.after < c.peak,
    ).checked(
        "and gets most of it back"@,
        c.after - c.baseline < half(c.peak - c.baseline),
    )
}

/// Half of a number, rounded towards zero.
pub open spec fn half(n: int) -> int {
    if n >= 0 {
        n / 2
    } else {
        -((-n) / 2)
    }
}

/// Check that cycles which nothing refers to are reclaimed.
pub fn collection(report: &mut Report, built: &Result<String, String>, c: Collected)
    requires
        old(report)@.wf(),
        old(report)@.passed + old(report)@.failed <= usize::MAX - 5,
    ensures
        final(report)@ == collection_checked(old(report)@, text_view(*built), c),
        final(report)@.wf(),
        final(report)@.passed + final(report)@.failed == old(report)@.passed + old(report)@.failed
            + 5,
{
    report.check("a cycle-heavy script runs", is_met(Want::Is("2000"), built));
    report.check("the cycles cost memory", c.peak > c.baseline);
    report.check("dropping the root succeeds", c.dropped);
    report.check("the collector reclaims them", c.after < c.peak);
    let grown: i128 = c.peak as i128 - c.baseline as i128;
    let kept: i128 = c.after as i128 - c.baseline as i128;
    let limit: i128 = if grown >= 0 { grown / 2 } else { -((-grown) / 2) };
    report.check("and gets most of it back", kept < limit);
}

// ── The stack guard ─────────────────────────────────────────────────────────

/// How deeply the nested inputs are nested.
pub const PAREN_DEPTH: usize = 5_000;

pub const JSON_DEPTH: usize = 20_000;

pub open spec fn repeated(c: char, n: nat) -> Seq<char> {
    Seq::new(n, |i: int| c)
}

fn push_many(s: &mut String, c: char, n: usize)
    ensures
        final(s)@ == old(s)@ + repeated(c, n as nat),
{
    let mut i: usize = 0;
    assert(s@ =~= old(s)@ + repeated(c, 0));
    while i < n
        invariant
            i <= n,
            s@ == old(s)@ + repeated(c, i as nat),
        decreases n - i,
    {
        s.push(c);
        i = i + 1;
        assert(s@ =~= old(s)@ + repeated(c, i as nat));
    }
}

/// An expression that is nested too deeply for the parser.
pub fn deep_parens() -> (r: String)
    ensures
        r@ == repeated('(', PAREN_DEPTH as nat) + "1"@ + repeated(')', PAREN_DEPTH as nat),
{
    let mut s = String::new();
    push_many(&mut s, '(', PAREN_DEPTH);
    assert(s@ =~= repeated('(', PAREN_DEPTH as nat));
    s.append("1");
    push_many(&mut s, ')', PAREN_DEPTH);
    s
}

/// Data that is nested too deeply.
pub fn deep_json() -> (r: String)
    ensures
        r@ == "JSON.parse('"@ + repeated('[', JSON_DEPTH as nat) + repeated(']', JSON_DEPTH as nat)
            + "')"@,
{
    let mut s = "JSON.parse('".to_owned();
    push_many(&mut s, '[', JSON_DEPTH);
    push_many(&mut s, ']', JSON_DEPTH);
    s.append("')");
    s
}

/// How deep a recursion without end got; -1 if that is not known.
pub open spec fn depth_of(o: Outcome) -> i64 {
    match number_in(o) {
        Some(n) => n,
        None => -1i64,
    }
}

pub open spec fn recursion_checked(r: ReportModel, depth: Outcome, error: Seq<char>) -> ReportModel {
    r.checked("deep recursion is caught, not fatal"@, depth_of(depth) > 0).checked(
        "the depth is in the range the limit implies"@,
        100 < depth_of(depth) < 2_000,
    ).checked(
        "the overflow is a catchable stack-overflow error"@,
        text::occurs(error, "stack overflow"@),
    )
}

/// Check that a recursion without end comes back as an exception. The result
/// is how deep it got.
pub fn stack_guard(report: &mut Report, depth: &Result<String, String>, error: &str) -> (r: i64)
    requires
        old(report)@.wf(),
        old(report)@.passed + old(report)@.failed <= usize::MAX - 3,
    ensures
        final(report)@ == recursion_checked(old(report)@, text_view(*depth), error@),
        final(report)@.wf(),
        final(report)@.passed + final(report)@.failed == old(report)@.passed + old(report)@.failed
            + 3,
        r == depth_of(text_view(*depth)),
{
    let reached: i64 = match number_of(depth) {
        Some(n) => n,
        None => -1,
    };
    report.check("deep recursion is caught, not fatal", reached > 0);
    report.check(
        "the depth is in the range the limit implies",
        reached > 100 && reached < 2_000,
    );
    report.check(
        "the overflow is a catchable stack-overflow error",
        contains(error, "stack overflow"),
    );
    reached
}

pub open spec fn nesting_checked(r: ReportModel, parens: Outcome, json: Outcome) -> ReportModel {
    r.checked(
        "deeply nested expressions are refused by the parser"@,
        meets(Want::Fails("stack overflow"@), parens),
    ).checked("deeply nested JSON is refused"@, meets(Want::Fails("stack overflow"@), json))
}

/// Check that input which is nested too deeply is refused.
pub fn nesting(report: &mut Report, parens: &Result<String, String>, json: &Result<String, String>)
    requires
        old(report)@.wf(),
        old(report)@.passed + old(report)@.failed <= usize::MAX - 2,
    ensures
        final(report)@ == nesting_checked(old(report)@, text_view(*parens), text_view(*json)),
        final(report)@.wf(),
        final(report)@.passed + final(report)@.failed == old(report)@.passed + old(report)@.failed
            + 2,
{
    report.check(
        "deeply nested expressions are refused by the parser",
        is_met(Want::Fails("stack overflow"), parens),
    );
    report.check("deeply nested JSON is refused", is_met(Want::Fails("stack overflow"), json));
}

// ── Running out of memory ───────────────────────────────────────────────────

/// What came of a script that allocates without end, in an engine with a
/// small budget: whether there was room for the engine and a script at all.
pub struct Exhausted {
    pub fits: bool,
    pub runs: bool,
    pub outcome: Result<String, String>,
}

pub open spec fn exhaust_checked(r: ReportModel, e: Exhausted) -> ReportModel {
    if !e.fits {
        r.checked("a runtime fits in the budget"@, false)
    } else {
        r.checked("a runtime fits in the budget"@, true).checked(
            "and has room to run something"@,
            e.runs,
        ).checked(
            "an allocation-heavy script fails rather than succeeding"@,
            e.outcome is Err,
        ).checked(
            "the failure explains itself"@,
            meets(Want::Fails("out of memory"@), text_view(e.outcome)),
        )
    }
}

/// Check that an engine which runs out of its budget fails, and says why.
pub fn exhaust(report: &mut Report, e: &Exhausted)
    requires
        old(report)@.wf(),
        old(report)@.passed + old(report)@.failed <= usize::MAX - 4,
    ensures
        final(report)@ == exhaust_checked(old(report)@, *e),
        final(report)@.wf(),
        final(report)@.passed + final(report)@.failed <= old(report)@.passed + old(report)@.failed
            + 4,
{
    if !e.fits {
        report.check("a runtime fits in the budget", false);
        return;
    }
    report.check("a runtime fits in the budget", true);
    report.check("and has room to run something", e.runs);
    report.check("an allocation-heavy script fails rather than succeeding", e.outcome.is_err());
    report.check("the failure explains itself", is_met(Want::Fails("out of memory"), &e.outcome));
}

pub open spec fn failure_described(o: Outcome) -> Seq<char> {
    match o {
        Err(m) => if text::occurs(m, "without setting an exception"@) {
            "a failure with no exception attached"@
        } else {
            "\""@ + m + "\""@
        },
        Ok(t) => "no failure at all — it returned "@ + t,
    }
}

pub fn describe(o: &Result<String, String>) -> (r: String)
    ensures
        r@ == failure_described(text_view(*o)),
{
    match o {
        Err(m) => if contains(m.as_str(), "without setting an exception") {
            "a failure with no exception attached".to_owned()
        } else {
            let mut s = "\"".to_owned();
            s.append(m.as_str());
            s.append("\"");
            s
        },
        Ok(t) => {
            let mut s = "no failure at all — it returned ".to_owned();
            s.append(t.as_str());
            s
        },
    }
}

pub open spec fn recovery_checked(r: ReportModel, leaked: usize, after: Outcome) -> ReportModel {
    r.checked("the kernel heap recovers from it"@, leaked < 65_536).checked(
        "a later engine is unaffected"@,
        meets(Want::Is("1024"@), after),
    )
}

/// Check that running out of memory did not outlive the engine it happened to.
pub fn out_of_memory(report: &mut Report, leaked: usize, after: &Result<String, String>)
    requires
        old(report)@.wf(),
        old(report)@.passed + old(report)@.failed <= usize::MAX - 2,
    ensures
        final(report)@ == recovery_checked(old(report)@, leaked, text_view(*after)),
        final(report)@.wf(),
        final(report)@.passed + final(report)@.failed == old(report)@.passed + old(report)@.failed
            + 2,
{
    report.check("the kernel heap recovers from it", leaked < 65_536);
    report.check("a later engine is unaffected", is_met(Want::Is("1024"), after));
}

// ── Several engines ─────────────────────────────────────────────────────────

/// What came of eight engines that expose the same two functions: the slots in
/// use before, with all of them, and after the last one went.
pub struct Shared {
    pub worked: bool,
    pub baseline: usize,
    pub with_all: usize,
    pub each_works: bool,
    pub survivor: Result<String, String>,
    pub at_end: usize,
}

pub open spec fn sharing_checked(r: ReportModel, s: Shared) -> ReportModel {
    r.checked("eight engines can each have the same natives"@, s.worked).checked(
        "and they share the slots rather than taking one each"@,
        s.with_all == s.baseline + 2,
    ).checked("every one of them still works"@, s.each_works).checked(
        "the survivor keeps its natives"@,
        meets(Want::Is("42"@), text_view(s.survivor)),
    ).checked("and the slots go back when the last one goes"@, s.at_end == s.baseline)
}

/// Check that engines share the slots of the functions that they share.
pub fn sharing(report: &mut Report, s: &Shared)
    requires
        old(report)@.wf(),
        old(report)@.passed + old(report)@.failed <= usize::MAX - 5,
    ensures
        final(report)@ == sharing_checked(old(report)@, *s),
        final(report)@.wf(),
        final(report)@.passed + final(report)@.failed == old(report)@.passed + old(report)@.failed
            + 5,
{
    report.check("eight engines can each have the same natives", s.worked);
    report.check(
        "and they share the slots rather than taking one each",
        s.with_all >= 2 && s.with_all - 2 == s.baseline,
    );
    report.check("every one of them still works", s.each_works);
    report.check("the survivor keeps its natives", is_met(Want::Is("42"), &s.survivor));
    report.check("and the slots go back when the last one goes", s.at_end == s.baseline);
}

pub open spec fn leaks_checked(r: ReportModel, worked: bool, delta: i64, slots: usize) -> ReportModel {
    r.checked("twenty runtimes in a row all worked"@, worked).checked(
        "the heap returns to where it started"@,
        -16_384 < delta < 16_384,
    ).checked("no native slots are left claimed"@, slots == 0)
}

/// Check that engines which come and go leave nothing behind.
pub fn leaks(report: &mut Report, worked: bool, delta: i64, slots: usize)
    requires
        old(report)@.wf(),
        old(report)@.passed + old(report)@.failed <= usize::MAX - 3,
    ensures
        final(report)@ == leaks_checked(old(report)@, worked, delta, slots),
        final(report)@.wf(),
        final(report)@.passed + final(report)@.failed == old(report)@.passed + old(report)@.failed
            + 3,
{
    report.check("twenty runtimes in a row all worked", worked);
    report.check("the heap returns to where it started", delta > -16_384 && delta < 16_384);
    report.check("no native slots are left claimed", slots == 0);
}

// ── The log ─────────────────────────────────────────────────────────────────

/// Numbers that are worth knowing and that no check can express.
pub struct Findings {
    pub heap_cost: u64,
    pub engine_bytes: i64,
    pub engine_blocks: i64,
    pub recursion_depth: i64,
    pub overflow_error: String,
    pub json_depth_refused: u64,
    pub oom_error: String,
    pub leak_delta: i64,
    pub interrupt_micros: u64,
    pub interrupt_error: String,
    pub micros: u64,
}

pub open spec fn three_digits(n: nat) -> Seq<char> {
    (if n < 10 {
        "00"@
    } else if n < 100 {
        "0"@
    } else {
        Seq::empty()
    }) + text::decimal(n)
}

fn push_three_digits(s: &mut String, n: u64)
    ensures
        final(s)@ == old(s)@ + three_digits(n as nat),
{
    if n < 10 {
        s.append("00");
    } else if n < 100 {
        s.append("0");
    }
    push_decimal(s, n);
    assert(s@ =~= old(s)@ + three_digits(n as nat));
}

pub open spec fn announced(checks: nat, f: Findings) -> Seq<Seq<char>> {
    seq![
        "quickjs: "@ + text::decimal(checks) + " checks in "@ + text::decimal(
            (f.micros / 1_000_000) as nat,
        ) + "."@ + three_digits(((f.micros / 1_000) % 1_000) as nat) + " s"@,
        "quickjs: a runtime and a full context cost "@ + text::decimal((f.heap_cost / 1024) as nat)
            + " KiB of kernel heap; the engine counts "@ + text::signed_decimal(
            f.engine_bytes as int,
        ) + " bytes in "@ + text::signed_decimal(f.engine_blocks as int) + " blocks"@,
        "quickjs: recursion reached "@ + text::signed_decimal(f.recursion_depth as int)
            + " frames before \""@ + f.overflow_error@
            + "\"; the parser and JSON.parse refused "@ + text::decimal(f.json_depth_refused as nat)
            + " levels of nesting the same way"@,
        "quickjs: exhausting a JS_SetMemoryLimit budget — "@ + f.oom_error@,
        "quickjs: "@ + text::signed_decimal(f.leak_delta as int)
            + " bytes of kernel heap outstanding after 20 create/destroy cycles"@,
        "quickjs: a loop given 50 ms was stopped after "@ + text::decimal(
            (f.interrupt_micros / 1_000) as nat,
        ) + " ms with \""@ + f.interrupt_error@ + "\""@,
    ]
}

/// The lines for the log.
pub fn announce(report: &Report, f: &Findings) -> (r: Vec<String>)
    requires
        report@.passed + report@.failed <= usize::MAX,
    ensures
        text::strings(r@) == announced(report@.passed + report@.failed, *f),
{
    let mut a = "quickjs: ".to_owned();
    push_decimal(&mut a, (report.passed + report.failed) as u64);
    a.append(" checks in ");
    push_decimal(&mut a, f.micros / 1_000_000);
    a.append(".");
    push_three_digits(&mut a, (f.micros / 1_000) % 1_000);
    a.append(" s");
    let mut b = "quickjs: a runtime and a full context cost ".to_owned();
    push_decimal(&mut b, f.heap_cost / 1024);
    b.append(" KiB of kernel heap; the engine counts ");
    push_signed(&mut b, f.engine_bytes);
    b.append(" bytes in ");
    push_signed(&mut b, f.engine_blocks);
    b.append(" blocks");
    let mut c = "quickjs: recursion reached ".to_owned();
    push_signed(&mut c, f.recursion_depth);
    c.append(" frames before \"");
    c.append(f.overflow_error.as_str());
    c.append("\"; the parser and JSON.parse refused ");
    push_decimal(&mut c, f.json_depth_refused);
    c.append(" levels of nesting the same way");
    let mut d = "quickjs: exhausting a JS_SetMemoryLimit budget — ".to_owned();
    d.append(f.oom_error.as_str());
    let mut e = "quickjs: ".to_owned();
    push_signed(&mut e, f.leak_delta);
    e.append(" bytes of kernel heap outstanding after 20 create/destroy cycles");
    let mut g = "quickjs: a loop given 50 ms was stopped after ".to_owned();
    push_decimal(&mut g, f.interrupt_micros / 1_000);
    g.append(" ms with \"");
    g.append(f.interrupt_error.as_str());
    g.append("\"");
    let mut v: Vec<String> = Vec::new();
    v.push(a);
    v.push(b);
    v.push(c);
    v.push(d);
    v.push(e);
    v.push(g);
    assert(text::strings(v@) =~= announced(report@.passed + report@.failed, *f));
    v
}

// ── All of it ───────────────────────────────────────────────────────────────

/// What came of the scripts on the first engine, section by section.
pub struct EngineAnswers {
    /// What the engine costs.
    pub bytes: i64,
    pub blocks: i64,
    pub language: Vec<Result<String, String>>,
    pub numbers: Vec<Result<String, String>>,
    pub date: Vec<Result<String, String>>,
    /// The kernel's clock before and after a script's, the script's timestamp
    /// and the kernel's date.
    pub before: i64,
    pub reported: Result<String, String>,
    pub after: i64,
    pub stamp: Result<String, String>,
    pub now: DateTime,
    pub registered: Registered,
    pub natives: Vec<Result<String, String>>,
    pub calling_in: Vec<Result<String, String>>,
    pub jobs_first: Vec<Result<String, String>>,
    pub pending: bool,
    pub ran: Option<usize>,
    pub left: bool,
    pub jobs_chain: Vec<Result<String, String>>,
    pub resumed: bool,
    pub jobs_last: Vec<Result<String, String>>,
    pub built: Result<String, String>,
    pub collected: Collected,
    pub depth: Result<String, String>,
    pub overflow: String,
    pub after_recursion: Vec<Result<String, String>>,
    pub parens: Result<String, String>,
    pub json: Result<String, String>,
    pub after_nesting: Vec<Result<String, String>>,
    pub runaway: Runaway,
}

/// What came of the engines after the first.
pub struct LaterAnswers {
    pub tight: Exhausted,
    pub roomy: Exhausted,
    /// How much of the kernel's heap they kept, and what one more engine says.
    pub leaked: usize,
    pub unaffected: Result<String, String>,
    pub shared: Shared,
    /// Many engines in a row.
    pub worked: bool,
    pub delta: i64,
    pub slots: usize,
}

/// Whether every case of every section was run.
pub open spec fn complete(a: EngineAnswers) -> bool {
    &&& a.language@.len() == language_cases().len()
    &&& a.numbers@.len() == numbers_cases().len()
    &&& a.date@.len() == date_cases().len()
    &&& a.natives@.len() == natives_cases().len()
    &&& a.calling_in@.len() == calling_in_cases().len()
    &&& a.jobs_first@.len() == jobs_first_cases().len()
    &&& a.jobs_chain@.len() == jobs_chain_cases().len()
    &&& a.jobs_last@.len() == jobs_last_cases().len()
    &&& a.after_recursion@.len() == after_recursion_cases().len()
    &&& a.after_nesting@.len() == after_nesting_cases().len()
}

pub open spec fn speech_checked(r: ReportModel, a: EngineAnswers) -> ReportModel {
    let r = cost_checked(r, a.bytes as int, a.blocks as int);
    let r = judged(r, language_cases(), outcomes_view(a.language@));
    let r = judged(r, numbers_cases(), outcomes_view(a.numbers@));
    let r = judged(r, date_cases(), outcomes_view(a.date@));
    let r = clock_checked(r, a.before, text_view(a.reported), a.after, text_view(a.stamp), a.now);
    let r = registered_checked(r, a.registered);
    let r = judged(r, natives_cases(), outcomes_view(a.natives@));
    judged(r, calling_in_cases(), outcomes_view(a.calling_in@))
}

fn check_speech(report: &mut Report, a: &EngineAnswers)
    requires
        old(report)@.wf(),
        old(report)@.passed + old(report)@.failed <= 100,
        complete(*a),
    ensures
        final(report)@ == speech_checked(old(report)@, *a),
        final(report)@.wf(),
        final(report)@.passed + final(report)@.failed <= 300,
{
    cost(report, a.bytes, a.blocks);
    judge(report, &language(), &a.language);
    judge(report, &numbers(), &a.numbers);
    judge(report, &date(), &a.date);
    clock(report, a.before, &a.reported, a.after, &a.stamp, a.now);
    registered(report, a.registered);
    judge(report, &natives(), &a.natives);
    judge(report, &calling_in(), &a.calling_in);
}

pub open spec fn conduct_checked(r: ReportModel, a: EngineAnswers) -> ReportModel {
    let r = judged(r, jobs_first_cases(), outcomes_view(a.jobs_first@));
    let r = drained_checked(r, a.pending, a.ran, a.left);
    let r = judged(r, jobs_chain_cases(), outcomes_view(a.jobs_chain@));
    let r = r.checked("the pump resumes it"@, a.resumed);
    let r = judged(r, jobs_last_cases(), outcomes_view(a.jobs_last@));
    let r = collection_checked(r, text_view(a.built), a.collected);
    let r = recursion_checked(r, text_view(a.depth), a.overflow@);
    let r = judged(r, after_recursion_cases(), outcomes_view(a.after_recursion@));
    let r = nesting_checked(r, text_view(a.parens), text_view(a.json));
    let r = judged(r, after_nesting_cases(), outcomes_view(a.after_nesting@));
    runaway_checked(r, a.runaway)
}

fn check_conduct(report: &mut Report, a: &EngineAnswers)
    requires
        old(report)@.wf(),
        old(report)@.passed + old(report)@.failed <= 300,
        complete(*a),
    ensures
        final(report)@ == conduct_checked(old(report)@, *a),
        final(report)@.wf(),
        final(report)@.passed + final(report)@.failed <= 500,
{
    judge(report, &jobs_first(), &a.jobs_first);
    drained(report, a.pending, a.ran, a.left);
    judge(report, &jobs_chain(), &a.jobs_chain);
    report.check("the pump resumes it", a.resumed);
    judge(report, &jobs_last(), &a.jobs_last);
    collection(report, &a.built, a.collected);
    stack_guard(report, &a.depth, a.overflow.as_str());
    judge(report, &after_recursion(), &a.after_recursion);
    nesting(report, &a.parens, &a.json);
    judge(report, &after_nesting(), &a.after_nesting);
    deadline(report, &a.runaway);
}

pub open spec fn later_checked(r: ReportModel, b: LaterAnswers) -> ReportModel {
    let r = exhaust_checked(exhaust_checked(r, b.tight), b.roomy);
    let r = recovery_checked(r, b.leaked, text_view(b.unaffected));
    leaks_checked(sharing_checked(r, b.shared), b.worked, b.delta, b.slots)
}

/// Everything that is checked, in order. Where no engine can be made there is
/// one failure, and it says why.
pub open spec fn run_checked(
    l: Layout,
    engine: Result<(EngineAnswers, LaterAnswers), Seq<char>>,
) -> ReportModel {
    let r = layout_checked(crate::selftest::clean(), l);
    match engine {
        Err(why) => r.checked(why, false),
        Ok((a, b)) => later_checked(conduct_checked(speech_checked(r, a), a), b),
    }
}

/// The boot-time checks: what is made of the engine's layout and of the
/// scripts that were run, or of why there is no engine.
pub fn run(l: Layout, engine: &Result<(EngineAnswers, LaterAnswers), &'static str>) -> (r: Report)
    requires
        *engine matches Ok((a, b)) ==> complete(a),
    ensures
        r@ == run_checked(
            l,
            match *engine {
                Ok(p) => Ok(p),
                Err(why) => Err(why@),
            },
        ),
        r@.wf(),
{
    let mut report = Report::new();
    layout(&mut report, l);
    match engine {
        Err(why) => {
            report.check(*why, false);
        },
        Ok((a, b)) => {
            check_speech(&mut report, a);
            check_conduct(&mut report, a);
            exhaust(&mut report, &b.tight);
            exhaust(&mut report, &b.roomy);
            out_of_memory(&mut report, b.leaked, &b.unaffected);
            sharing(&mut report, &b.shared);
            leaks(&mut report, b.worked, b.delta, b.slots);
        },
    }
    report
}

/// Without an engine there is exactly one failure beyond those of the layout,
/// rather than one for every check that could not be made.
pub proof fn no_engine_is_one_failure(l: Layout, why: Seq<char>)
    ensures
        run_checked(l, Err(why)) == layout_checked(crate::selftest::clean(), l).checked(why, false),
{
}

} // verus!
