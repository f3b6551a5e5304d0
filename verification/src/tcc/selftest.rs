//! The boot-time checks of the built-in compiler.

use vstd::prelude::*;
use vstd::string::*;

use crate::selftest;
use crate::selftest::{Report, ReportModel};
use crate::text;

verus! {

/// What came of the programs that the checks run: the number each returned,
/// where it compiled.
pub struct Answers {
    pub arithmetic: Option<i32>,
    pub sum: Option<i32>,
    pub structure: Option<i32>,
    pub pointer: Option<i32>,
    pub recursion: Option<i32>,
    /// The number returned and what was printed.
    pub putchar: Option<(i32, String)>,
    /// The complaint about a program with an error in it, if there was one.
    pub syntax: Option<String>,
    pub timed: Option<i32>,
}

/// A program whose function `test` is called, and whether it prints.
pub struct Program {
    pub source: &'static str,
    pub prints: bool,
}

pub open spec fn programs_view(v: Seq<Program>) -> Seq<(Seq<char>, bool)> {
    v.map_values(|p: Program| (p.source@, p.prints))
}

pub open spec fn program_texts() -> Seq<(Seq<char>, bool)> {
    seq![
        (
            "int test(void){ return 6*7+1; }\n"@,
            false,
        ),
        (
            "int test(void){ int s=0; for(int i=1;i<=10;i++) s+=i; return s; }\n"@,
            false,
        ),
        (
            "struct P{int x; int y;}; int test(void){ struct P p; p.x=3; p.y=4; return p.x*p.x+p.y*p.y; }\n"@,
            false,
        ),
        (
            "static int add(int a,int b){return a+b;} int test(void){ int(*f)(int,int)=add; return f(20,22); }\n"@,
            false,
        ),
        (
            "int fib(int n){ return n<2?n:fib(n-1)+fib(n-2); } int test(void){ return fib(10); }\n"@,
            false,
        ),
        (
            "int putchar(int); int test(void){ const char*s=\"Hi\"; for(;*s;s++) putchar(*s); return 2; }\n"@,
            true,
        ),
        (
            "int test(void){ return 1 + ; }\n"@,
            false,
        ),
        (
            "int test(void){ return 123; }\n"@,
            false,
        ),
    ]
}

/// The programs that the checks run, in the order of their [`Answers`].
pub fn programs() -> (r: Vec<Program>)
    ensures
        programs_view(r@) == program_texts(),
{
    let mut v: Vec<Program> = Vec::new();
    v.push(
        Program {
            source: "int test(void){ return 6*7+1; }\n",
            prints: false,
        },
    );
    v.push(
        Program {
            source: "int test(void){ int s=0; for(int i=1;i<=10;i++) s+=i; return s; }\n",
            prints: false,
        },
    );
    v.push(
        Program {
            source: "struct P{int x; int y;}; int test(void){ struct P p; p.x=3; p.y=4; return p.x*p.x+p.y*p.y; }\n",
            prints: false,
        },
    );
    v.push(
        Program {
            source: "static int add(int a,int b){return a+b;} int test(void){ int(*f)(int,int)=add; return f(20,22); }\n",
            prints: false,
        },
    );
    v.push(
        Program {
            source: "int fib(int n){ return n<2?n:fib(n-1)+fib(n-2); } int test(void){ return fib(10); }\n",
            prints: false,
        },
    );
    v.push(
        Program {
            source: "int putchar(int); int test(void){ const char*s=\"Hi\"; for(;*s;s++) putchar(*s); return 2; }\n",
            prints: true,
        },
    );
    v.push(
        Program {
            source: "int test(void){ return 1 + ; }\n",
            prints: false,
        },
    );
    v.push(
        Program {
            source: "int test(void){ return 123; }\n",
            prints: false,
        },
    );
    assert(programs_view(v@) =~= program_texts());
    v
}

pub open spec fn is(r: Option<i32>, n: i32) -> bool {
    r == Some(n)
}

fn equals(r: Option<i32>, n: i32) -> (b: bool)
    ensures
        b == is(r, n),
{
    match r {
        Some(v) => v == n,
        None => false,
    }
}

pub open spec fn printing_checked(r: ReportModel, p: Option<(i32, String)>) -> ReportModel {
    match p {
        Some((v, out)) => r.checked("putchar return"@, v == 2).checked(
            "putchar output"@,
            out@ == "Hi"@,
        ),
        None => r.checked("putchar return"@, false),
    }
}

pub open spec fn syntax_checked(r: ReportModel, e: Option<String>) -> ReportModel {
    match e {
        Some(e) => r.checked("syntax error rejected"@, true).checked(
            "syntax diagnostic nonempty"@,
            e@.len() > 0,
        ),
        None => r.checked("syntax error rejected"@, false),
    }
}

pub open spec fn values_checked(r: ReportModel, a: Answers) -> ReportModel {
    r.checked("arithmetic 6*7+1"@, is(a.arithmetic, 43)).checked(
        "sum 1..10"@,
        is(a.sum, 55),
    ).checked("struct pythag"@, is(a.structure, 25)).checked(
        "function pointer"@,
        is(a.pointer, 42),
    ).checked("fib(10)"@, is(a.recursion, 55))
}

/// What the checks find; without the toolchain on disk the rest is not tried.
pub open spec fn checks(seeded: bool, a: Answers) -> ReportModel {
    let r = selftest::clean().checked("toolchain seed ok"@, seeded);
    if seeded {
        syntax_checked(printing_checked(values_checked(r, a), a.putchar), a.syntax).checked(
            "timed compile ok"@,
            is(a.timed, 123),
        )
    } else {
        r
    }
}

fn check_values(report: &mut Report, a: &Answers)
    requires
        old(report)@.wf(),
        old(report)@.passed + old(report)@.failed <= 10,
    ensures
        final(report)@ == values_checked(old(report)@, *a),
        final(report)@.wf(),
        final(report)@.passed + final(report)@.failed <= 15,
{
    report.check("arithmetic 6*7+1", equals(a.arithmetic, 43));
    report.check("sum 1..10", equals(a.sum, 55));
    report.check("struct pythag", equals(a.structure, 25));
    report.check("function pointer", equals(a.pointer, 42));
    report.check("fib(10)", equals(a.recursion, 55));
}

fn check_printing(report: &mut Report, p: &Option<(i32, String)>)
    requires
        old(report)@.wf(),
        old(report)@.passed + old(report)@.failed <= 15,
    ensures
        final(report)@ == printing_checked(old(report)@, *p),
        final(report)@.wf(),
        final(report)@.passed + final(report)@.failed <= 17,
{
    match p {
        Some((v, out)) => {
            report.check("putchar return", *v == 2);
            report.check("putchar output", text::same(out.as_str(), "Hi"));
        },
        None => report.check("putchar return", false),
    }
}

fn check_syntax(report: &mut Report, e: &Option<String>)
    requires
        old(report)@.wf(),
        old(report)@.passed + old(report)@.failed <= 17,
    ensures
        final(report)@ == syntax_checked(old(report)@, *e),
        final(report)@.wf(),
        final(report)@.passed + final(report)@.failed <= 19,
{
    match e {
        Some(e) => {
            report.check("syntax error rejected", true);
            report.check("syntax diagnostic nonempty", e.as_str().unicode_len() > 0);
        },
        None => report.check("syntax error rejected", false),
    }
}

/// Check the compiler by what its programs did.
pub fn run(seeded: bool, a: &Answers) -> (r: Report)
    ensures
        r@ == checks(seeded, *a),
        r@.wf(),
{
    let mut report = Report::new();
    report.check("toolchain seed ok", seeded);
    if seeded {
        check_values(&mut report, a);
        check_printing(&mut report, &a.putchar);
        check_syntax(&mut report, &a.syntax);
        report.check("timed compile ok", equals(a.timed, 123));
    }
    report
}

/// About how long a number of clock ticks is, in milliseconds.
pub fn millis_of_ticks(from: u64, to: u64) -> (r: u64)
    requires
        (to - from) * 1000 <= u64::MAX,
    ensures
        r == (if to >= from {
            ((to - from) * 1000 / 18) as u64
        } else {
            0
        }),
{
    if to >= from {
        (to - from) * 1000 / 18
    } else {
        0
    }
}

} // verus!
