//! The scripts that the boot-time checks run beside their cases.

use vstd::prelude::*;
use vstd::string::*;

use crate::text;
use crate::text::push_decimal;

verus! {

/// A script, and the name it is evaluated under.
pub struct Script {
    pub source: &'static str,
    pub name: &'static str,
}

pub open spec fn scripts_view(v: Seq<Script>) -> Seq<(Seq<char>, Seq<char>)> {
    v.map_values(|s: Script| (s.source@, s.name@))
}

pub open spec fn calling_texts() -> Seq<(Seq<char>, Seq<char>)> {
    seq![
        (
            "globalThis.echo = function (x) { return x * 2 }; 1"@,
            "call_global"@,
        ),
        (
            "globalThis.count = function () { return arguments.length }; 1"@,
            "call_global"@,
        ),
    ]
}

/// Define the functions that are called with a fraction and with no arguments.
pub fn calling_scripts() -> (r: Vec<Script>)
    ensures
        scripts_view(r@) == calling_texts(),
{
    let mut v: Vec<Script> = Vec::new();
    v.push(
        Script {
            source: "globalThis.echo = function (x) { return x * 2 }; 1",
            name: "call_global",
        },
    );
    v.push(
        Script {
            source: "globalThis.count = function () { return arguments.length }; 1",
            name: "call_global",
        },
    );
    assert(scripts_view(v@) =~= calling_texts());
    v
}

pub open spec fn clock_texts() -> Seq<(Seq<char>, Seq<char>)> {
    seq![
        (
            "Date.now()"@,
            "Date.now"@,
        ),
        (
            "new Date(Date.now()).toISOString()"@,
            "toISOString"@,
        ),
    ]
}

/// Ask for the time, as a number and as a timestamp.
pub fn clock_scripts() -> (r: Vec<Script>)
    ensures
        scripts_view(r@) == clock_texts(),
{
    let mut v: Vec<Script> = Vec::new();
    v.push(
        Script {
            source: "Date.now()",
            name: "Date.now",
        },
    );
    v.push(
        Script {
            source: "new Date(Date.now()).toISOString()",
            name: "toISOString",
        },
    );
    assert(scripts_view(v@) =~= clock_texts());
    v
}

pub open spec fn budget_texts() -> Seq<(Seq<char>, Seq<char>)> {
    seq![
        (
            "globalThis.spun = 0; try { while (true) { spun++ } } catch (e) { 'caught' }"@,
            "runaway"@,
        ),
        (
            "spun > 1000"@,
            "runaway"@,
        ),
        (
            "1 + 1"@,
            "runaway"@,
        ),
        (
            "try { null.x } catch (e) { 'ok' }"@,
            "runaway"@,
        ),
        (
            "let total = 0; for (let i = 0; i < 3e6; i++) total += i; total > 0"@,
            "slow"@,
        ),
    ]
}

/// Run without end under a time limit; then, without one, look how far that got,
/// whether the engine works, whether a throw can be caught, and run for a while.
pub fn budget_scripts() -> (r: Vec<Script>)
    ensures
        scripts_view(r@) == budget_texts(),
{
    let mut v: Vec<Script> = Vec::new();
    v.push(
        Script {
            source: "globalThis.spun = 0; try { while (true) { spun++ } } catch (e) { 'caught' }",
            name: "runaway",
        },
    );
    v.push(
        Script {
            source: "spun > 1000",
            name: "runaway",
        },
    );
    v.push(
        Script {
            source: "1 + 1",
            name: "runaway",
        },
    );
    v.push(
        Script {
            source: "try { null.x } catch (e) { 'ok' }",
            name: "runaway",
        },
    );
    v.push(
        Script {
            source: "let total = 0; for (let i = 0; i < 3e6; i++) total += i; total > 0",
            name: "slow",
        },
    );
    assert(scripts_view(v@) =~= budget_texts());
    v
}

pub open spec fn collector_texts() -> Seq<(Seq<char>, Seq<char>)> {
    seq![
        (
            "globalThis.ring = [];for (let i = 0; i < 2000; i++) { const a = {}, b = { a }; a.b = b; ring.push(a) }ring.length"@,
            "cycles"@,
        ),
        (
            "ring = null; 1"@,
            "cycles"@,
        ),
    ]
}

/// Build many cycles, and then let go of them.
pub fn collector_scripts() -> (r: Vec<Script>)
    ensures
        scripts_view(r@) == collector_texts(),
{
    let mut v: Vec<Script> = Vec::new();
    v.push(
        Script {
            source: "globalThis.ring = [];for (let i = 0; i < 2000; i++) { const a = {}, b = { a }; a.b = b; ring.push(a) }ring.length",
            name: "cycles",
        },
    );
    v.push(
        Script {
            source: "ring = null; 1",
            name: "cycles",
        },
    );
    assert(scripts_view(v@) =~= collector_texts());
    v
}

pub open spec fn recursion_texts() -> Seq<(Seq<char>, Seq<char>)> {
    seq![
        (
            "globalThis.reached = 0; globalThis.caught = '';function down(n) { reached = n; return down(n + 1) }try { down(1) } catch (e) { caught = e.constructor.name + ': ' + e.message }reached"@,
            "recursion"@,
        ),
        (
            "caught"@,
            "recursion"@,
        ),
    ]
}

/// Recurse without end, and say what ended it.
pub fn recursion_scripts() -> (r: Vec<Script>)
    ensures
        scripts_view(r@) == recursion_texts(),
{
    let mut v: Vec<Script> = Vec::new();
    v.push(
        Script {
            source: "globalThis.reached = 0; globalThis.caught = '';function down(n) { reached = n; return down(n + 1) }try { down(1) } catch (e) { caught = e.constructor.name + ': ' + e.message }reached",
            name: "recursion",
        },
    );
    v.push(
        Script {
            source: "caught",
            name: "recursion",
        },
    );
    assert(scripts_view(v@) =~= recursion_texts());
    v
}

pub open spec fn memory_texts() -> Seq<(Seq<char>, Seq<char>)> {
    seq![
        (
            "1 + 1"@,
            "oom"@,
        ),
        (
            "const held = []; for (let i = 0; i < 1e7; i++) held.push({ index: i, pad: 'xxxxxxxx' }); held.length"@,
            "allocate until it hurts"@,
        ),
        (
            "2 ** 10"@,
            "after oom"@,
        ),
    ]
}

/// In an engine with a small budget, run something, and then allocate without
/// end; in a later engine with the usual one, run something again.
pub fn memory_scripts() -> (r: Vec<Script>)
    ensures
        scripts_view(r@) == memory_texts(),
{
    let mut v: Vec<Script> = Vec::new();
    v.push(
        Script {
            source: "1 + 1",
            name: "oom",
        },
    );
    v.push(
        Script {
            source: "const held = []; for (let i = 0; i < 1e7; i++) held.push({ index: i, pad: 'xxxxxxxx' }); held.length",
            name: "allocate until it hurts",
        },
    );
    v.push(
        Script {
            source: "2 ** 10",
            name: "after oom",
        },
    );
    assert(scripts_view(v@) =~= memory_texts());
    v
}

pub open spec fn sharing_texts() -> Seq<(Seq<char>, Seq<char>)> {
    seq![
        (
            "kernelSum(1, 2) + alsoSum(3, 4)"@,
            "sharing"@,
        ),
        (
            "kernelEven(4)"@,
            "sharing"@,
        ),
        (
            "kernelSum(20, 22)"@,
            "sharing"@,
        ),
    ]
}

/// Call the functions that engines share: in each as it is made, in each of them
/// later, and in the last one that is left.
pub fn sharing_scripts() -> (r: Vec<Script>)
    ensures
        scripts_view(r@) == sharing_texts(),
{
    let mut v: Vec<Script> = Vec::new();
    v.push(
        Script {
            source: "kernelSum(1, 2) + alsoSum(3, 4)",
            name: "sharing",
        },
    );
    v.push(
        Script {
            source: "kernelEven(4)",
            name: "sharing",
        },
    );
    v.push(
        Script {
            source: "kernelSum(20, 22)",
            name: "sharing",
        },
    );
    assert(scripts_view(v@) =~= sharing_texts());
    v
}

/// What each of many engines that come and go runs: enough to leave behind what
/// a page would.
pub open spec fn cycle_text(cycle: nat) -> Seq<char> {
    "class C { constructor(n) { this.n = n } double() { return this.n * 2 } }const xs = [...Array(64).keys()].map(i => new C(i).double());JSON.parse(JSON.stringify({ xs })).xs.length + /(\\w+)-(\\d+)/.exec('page-"@
        + text::decimal(cycle) + "')[2]"@
}

pub fn cycle_script(cycle: u64) -> (r: String)
    ensures
        r@ == cycle_text(cycle as nat),
{
    let mut s = "class C { constructor(n) { this.n = n } double() { return this.n * 2 } }const xs = [...Array(64).keys()].map(i => new C(i).double());JSON.parse(JSON.stringify({ xs })).xs.length + /(\\w+)-(\\d+)/.exec('page-".to_owned();
    push_decimal(&mut s, cycle);
    s.append("')[2]");
    s
}

} // verus!
