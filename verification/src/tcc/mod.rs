//! Compiling C with the built-in TinyCC: what is asked of the compiler, and
//! what is made of its answers. The compiler itself is run by the program
//! around this library.

use vstd::prelude::*;
use vstd::string::*;

use crate::text;
use crate::text::{chars_of, find_last_char, same, split_text, starts_with, string_between, strip_prefix};

pub mod selftest;

verus! {

// ── The command line ────────────────────────────────────────────────────────

/// What a `cc` command line asks for.
pub struct Plan {
    pub sources: Vec<String>,
    pub output: String,
    /// Options that are handed to the compiler as they are.
    pub extras: Vec<String>,
}

pub ghost struct PlanModel {
    pub sources: Seq<Seq<char>>,
    pub output: Seq<char>,
    pub extras: Seq<Seq<char>>,
}

impl View for Plan {
    type V = PlanModel;

    open spec fn view(&self) -> PlanModel {
        PlanModel {
            sources: text::strings(self.sources@),
            output: self.output@,
            extras: text::strings(self.extras@),
        }
    }
}

/// What was read of a command line so far.
pub ghost struct Reading {
    pub sources: Seq<Seq<char>>,
    pub output: Option<Seq<char>>,
    pub extras: Seq<Seq<char>>,
}

/// Options whose value is the next argument.
pub open spec fn takes_value(a: Seq<char>) -> bool {
    a == "-I"@ || a == "-D"@ || a == "-L"@ || a == "-l"@ || a == "-include"@
}

/// Arguments read one after the other; `None` where `-o` comes last.
pub open spec fn read(args: Seq<Seq<char>>, r: Reading) -> Option<Reading>
    decreases args.len(),
{
    if args.len() == 0 {
        Some(r)
    } else if args[0] == "-o"@ {
        if args.len() < 2 {
            None
        } else {
            read(args.skip(2), Reading { output: Some(args[1]), ..r })
        }
    } else if text::has_prefix(args[0], "-o"@) {
        read(args.skip(1), Reading { output: Some(args[0].skip("-o"@.len() as int)), ..r })
    } else if text::has_prefix(args[0], "-"@) {
        if takes_value(args[0]) && args.len() > 1 {
            read(args.skip(2), Reading { extras: r.extras.push(args[0]).push(args[1]), ..r })
        } else {
            read(args.skip(1), Reading { extras: r.extras.push(args[0]), ..r })
        }
    } else {
        read(args.skip(1), Reading { sources: r.sources.push(args[0]), ..r })
    }
}

/// The program's path where none is given: beside the source, without its
/// extension.
pub open spec fn default_output(src: Seq<char>) -> Seq<char> {
    let i = text::find_last(src, '.');
    if i >= 0 {
        src.take(i)
    } else {
        src + ".elf"@
    }
}

pub open spec fn planned(args: Seq<Seq<char>>) -> Result<PlanModel, Seq<char>> {
    match read(args, Reading { sources: Seq::empty(), output: None, extras: Seq::empty() }) {
        None => Err("cc: -o needs an argument"@),
        Some(r) => if r.sources.len() == 0 {
            Err("cc: no input files"@)
        } else {
            Ok(
                PlanModel {
                    sources: r.sources,
                    output: match r.output {
                        Some(o) => o,
                        None => default_output(r.sources[0]),
                    },
                    extras: r.extras,
                },
            )
        },
    }
}

proof fn sources_read_are_no_options(args: Seq<Seq<char>>, r: Reading)
    requires
        forall|i: int|
            0 <= i < r.sources.len() ==> !text::has_prefix(#[trigger] r.sources[i], "-"@),
    ensures
        read(args, r) matches Some(q) ==> forall|i: int|
            0 <= i < q.sources.len() ==> !text::has_prefix(#[trigger] q.sources[i], "-"@),
    decreases args.len(),
{
    if args.len() > 0 {
        if args[0] == "-o"@ {
            if args.len() >= 2 {
                sources_read_are_no_options(
                    args.skip(2),
                    Reading { output: Some(args[1]), ..r },
                );
            }
        } else if text::has_prefix(args[0], "-o"@) {
            sources_read_are_no_options(
                args.skip(1),
                Reading { output: Some(args[0].skip("-o"@.len() as int)), ..r },
            );
        } else if text::has_prefix(args[0], "-"@) {
            if args.len() > 1 {
                sources_read_are_no_options(
                    args.skip(2),
                    Reading { extras: r.extras.push(args[0]).push(args[1]), ..r },
                );
            }
            sources_read_are_no_options(
                args.skip(1),
                Reading { extras: r.extras.push(args[0]), ..r },
            );
        } else {
            sources_read_are_no_options(
                args.skip(1),
                Reading { sources: r.sources.push(args[0]), ..r },
            );
        }
    }
}

/// What is compiled is never an option, and there is always something.
pub proof fn sources_are_no_options(args: Seq<Seq<char>>)
    requires
        planned(args) is Ok,
    ensures
        (planned(args)->Ok_0).sources.len() > 0,
        forall|i: int|
            0 <= i < (planned(args)->Ok_0).sources.len() ==> !text::has_prefix(
                #[trigger] (planned(args)->Ok_0).sources[i],
                "-"@,
            ),
{
    sources_read_are_no_options(
        args,
        Reading { sources: Seq::empty(), output: None, extras: Seq::empty() },
    );
}

fn wants_value(a: &str) -> (r: bool)
    ensures
        r == takes_value(a@),
{
    same(a, "-I") || same(a, "-D") || same(a, "-L") || same(a, "-l") || same(a, "-include")
}

pub fn program_path(src: &str) -> (r: String)
    ensures
        r@ == default_output(src@),
{
    let v = chars_of(src);
    let at: usize = find_last_char(v.as_slice(), '.');
    if at > 0 {
        let s = string_between(v.as_slice(), 0, at - 1);
        assert(s@ =~= src@.take(at - 1));
        s
    } else {
        let mut s = src.to_owned();
        s.append(".elf");
        s
    }
}

pub open spec fn failure_view(r: Result<Plan, String>) -> Result<PlanModel, Seq<char>> {
    match r {
        Ok(p) => Ok(p@),
        Err(e) => Err(e@),
    }
}

pub open spec fn option_view(o: Option<String>) -> Option<Seq<char>> {
    match o {
        Some(s) => Some(s@),
        None => None,
    }
}

/// Read a command line, already split: sources, `-o out`, and options for the
/// compiler.
pub fn plan(args: &Vec<String>) -> (r: Result<Plan, String>)
    ensures
        failure_view(r) == planned(text::strings(args@)),
{
    let ghost all = text::strings(args@);
    let mut sources: Vec<String> = Vec::new();
    let mut output: Option<String> = None;
    let mut extras: Vec<String> = Vec::new();
    let n: usize = args.len();
    let mut i: usize = 0;
    let ghost start = Reading { sources: Seq::empty(), output: None, extras: Seq::empty() };
    assert(all.skip(0) =~= all);
    assert(text::strings(sources@) =~= Seq::empty());
    assert(text::strings(extras@) =~= Seq::empty());
    while i < n
        invariant
            n == args@.len(),
            i <= n,
            all == text::strings(args@),
            read(all, start) == read(
                all.skip(i as int),
                Reading {
                    sources: text::strings(sources@),
                    output: option_view(output),
                    extras: text::strings(extras@),
                },
            ),
            start == (Reading { sources: Seq::empty(), output: None, extras: Seq::empty() }),
        decreases n - i,
    {
        let a = args[i].as_str();
        let ghost rest = all.skip(i as int);
        let ghost s0 = text::strings(sources@);
        let ghost e0 = text::strings(extras@);
        assert(rest[0] == a@);
        assert(rest.skip(1) =~= all.skip(i + 1));
        if same(a, "-o") {
            if i + 1 >= n {
                return Err("cc: -o needs an argument".to_owned());
            }
            assert(rest[1] == args@[i + 1]@);
            assert(rest.skip(2) =~= all.skip(i + 2));
            output = Some(args[i + 1].as_str().to_owned());
            i = i + 2;
        } else if let Some(o) = strip_prefix(a, "-o") {
            output = Some(o);
            i = i + 1;
        } else if starts_with(a, "-") {
            extras.push(a.to_owned());
            assert(text::strings(extras@) =~= e0.push(a@));
            if wants_value(a) && i + 1 < n {
                assert(rest[1] == args@[i + 1]@);
                assert(rest.skip(2) =~= all.skip(i + 2));
                extras.push(args[i + 1].as_str().to_owned());
                assert(text::strings(extras@) =~= e0.push(a@).push(rest[1]));
                i = i + 2;
            } else {
                i = i + 1;
            }
        } else {
            sources.push(a.to_owned());
            assert(text::strings(sources@) =~= s0.push(a@));
            i = i + 1;
        }
    }
    assert(all.skip(i as int) =~= Seq::empty());
    assert(text::strings(sources@).len() == sources@.len());
    if sources.len() == 0 {
        return Err("cc: no input files".to_owned());
    }
    assert(text::strings(sources@)[0] == sources@[0]@);
    let out = match output {
        Some(o) => o,
        None => program_path(sources[0].as_str()),
    };
    Ok(Plan { sources, output: out, extras })
}

// ── Calls of the compiler ───────────────────────────────────────────────────

/// A call of the compiler's interface.
pub enum Call<T = String> {
    LibPath(T),
    Options(T),
    SysInclude(T),
    Include(T),
    LibraryPath(T),
    /// A program on disk, or one in memory.
    Executable,
    Memory,
    /// A part of the runtime, and a source of the user's.
    Runtime(T),
    Source(T),
    Link(T),
    /// A function of the kernel that the compiled code may call.
    Symbol(T),
    Compile(T),
    Relocate,
    Find(T),
}

impl View for Call {
    type V = Call<Seq<char>>;

    open spec fn view(&self) -> Call<Seq<char>> {
        match *self {
            Call::LibPath(t) => Call::LibPath(t@),
            Call::Options(t) => Call::Options(t@),
            Call::SysInclude(t) => Call::SysInclude(t@),
            Call::Include(t) => Call::Include(t@),
            Call::LibraryPath(t) => Call::LibraryPath(t@),
            Call::Executable => Call::Executable,
            Call::Memory => Call::Memory,
            Call::Runtime(t) => Call::Runtime(t@),
            Call::Source(t) => Call::Source(t@),
            Call::Link(t) => Call::Link(t@),
            Call::Symbol(t) => Call::Symbol(t@),
            Call::Compile(t) => Call::Compile(t@),
            Call::Relocate => Call::Relocate,
            Call::Find(t) => Call::Find(t@),
        }
    }
}

pub open spec fn calls_view(v: Seq<Call>) -> Seq<Call<Seq<char>>> {
    v.map_values(|c: Call| c@)
}

/// The runtime that every program is linked with.
pub open spec fn runtime_sources() -> Seq<Seq<char>> {
    seq![
        "/disk/lib/crt0.c"@,
        "/disk/lib/syscall.c"@,
        "/disk/lib/os101.c"@,
        "/disk/lib/stdio.c"@,
        "/disk/lib/stdlib.c"@,
        "/disk/lib/string.c"@,
        "/disk/lib/malloc.c"@,
        "/disk/lib/va_list.c"@,
    ]
}

/// The calls for a compilation, in order. A program without the host's
/// library: our runtime is added in its place, before the user's sources.
pub open spec fn calls_for(p: PlanModel) -> Seq<Call<Seq<char>>> {
    seq![Call::LibPath("/disk/lib/tcc"@), Call::Options("-nostdlib"@)] + p.extras.map_values(
        |e: Seq<char>| Call::Options(e),
    ) + seq![
        Call::SysInclude("/disk/lib/tcc/include"@),
        Call::SysInclude("/disk/include"@),
        Call::Include("/disk/include"@),
        Call::LibraryPath("/disk/lib"@),
        Call::Executable,
    ] + runtime_sources().map_values(|s: Seq<char>| Call::Runtime(s)) + p.sources.map_values(
        |s: Seq<char>| Call::Source(s),
    ) + seq![Call::Link(p.output)]
}

fn add_call(out: &mut Vec<Call>, c: Call)
    ensures
        calls_view(final(out)@) == calls_view(old(out)@).push(c@),
{
    let ghost before = out@;
    out.push(c);
    assert(calls_view(out@) =~= calls_view(before).push(c@));
}

fn add_options(out: &mut Vec<Call>, v: &Vec<String>)
    ensures
        calls_view(final(out)@) == calls_view(old(out)@) + text::strings(v@).map_values(
            |e: Seq<char>| Call::Options(e),
        ),
{
    let ghost goal = text::strings(v@).map_values(|e: Seq<char>| Call::Options(e));
    let ghost start = calls_view(out@);
    let mut i: usize = 0;
    assert(start + goal.take(0) =~= start);
    while i < v.len()
        invariant
            i <= v@.len(),
            goal == text::strings(v@).map_values(|e: Seq<char>| Call::Options(e)),
            calls_view(out@) == start + goal.take(i as int),
        decreases v@.len() - i,
    {
        assert(goal[i as int] == Call::Options(v@[i as int]@));
        add_call(out, Call::Options(v[i].as_str().to_owned()));
        assert(calls_view(out@) =~= start + goal.take(i + 1));
        i = i + 1;
    }
    assert(goal.take(i as int) =~= goal);
}

fn add_sources(out: &mut Vec<Call>, v: &Vec<String>)
    ensures
        calls_view(final(out)@) == calls_view(old(out)@) + text::strings(v@).map_values(
            |e: Seq<char>| Call::Source(e),
        ),
{
    let ghost goal = text::strings(v@).map_values(|e: Seq<char>| Call::Source(e));
    let ghost start = calls_view(out@);
    let mut i: usize = 0;
    assert(start + goal.take(0) =~= start);
    while i < v.len()
        invariant
            i <= v@.len(),
            goal == text::strings(v@).map_values(|e: Seq<char>| Call::Source(e)),
            calls_view(out@) == start + goal.take(i as int),
        decreases v@.len() - i,
    {
        assert(goal[i as int] == Call::Source(v@[i as int]@));
        add_call(out, Call::Source(v[i].as_str().to_owned()));
        assert(calls_view(out@) =~= start + goal.take(i + 1));
        i = i + 1;
    }
    assert(goal.take(i as int) =~= goal);
}

fn add_runtime(out: &mut Vec<Call>)
    ensures
        calls_view(final(out)@) == calls_view(old(out)@) + runtime_sources().map_values(
            |e: Seq<char>| Call::Runtime(e),
        ),
{
    let ghost start = calls_view(out@);
    add_call(out, Call::Runtime("/disk/lib/crt0.c".to_owned()));
    add_call(out, Call::Runtime("/disk/lib/syscall.c".to_owned()));
    add_call(out, Call::Runtime("/disk/lib/os101.c".to_owned()));
    add_call(out, Call::Runtime("/disk/lib/stdio.c".to_owned()));
    add_call(out, Call::Runtime("/disk/lib/stdlib.c".to_owned()));
    add_call(out, Call::Runtime("/disk/lib/string.c".to_owned()));
    add_call(out, Call::Runtime("/disk/lib/malloc.c".to_owned()));
    add_call(out, Call::Runtime("/disk/lib/va_list.c".to_owned()));
    assert(calls_view(out@) =~= start + runtime_sources().map_values(
        |e: Seq<char>| Call::Runtime(e),
    ));
}

/// The calls for a compilation, in order.
pub fn compile_calls(p: &Plan) -> (r: Vec<Call>)
    ensures
        calls_view(r@) == calls_for(p@),
{
    let mut out: Vec<Call> = Vec::new();
    assert(calls_view(out@) =~= Seq::empty());
    add_call(&mut out, Call::LibPath("/disk/lib/tcc".to_owned()));
    add_call(&mut out, Call::Options("-nostdlib".to_owned()));
    add_options(&mut out, &p.extras);
    add_call(&mut out, Call::SysInclude("/disk/lib/tcc/include".to_owned()));
    add_call(&mut out, Call::SysInclude("/disk/include".to_owned()));
    add_call(&mut out, Call::Include("/disk/include".to_owned()));
    add_call(&mut out, Call::LibraryPath("/disk/lib".to_owned()));
    add_call(&mut out, Call::Executable);
    add_runtime(&mut out);
    add_sources(&mut out, &p.sources);
    add_call(&mut out, Call::Link(p.output.as_str().to_owned()));
    assert(calls_view(out@) =~= calls_for(p@));
    out
}

/// Whether a compilation ends where this call fails. Paths and options that
/// the compiler does not like are left to the calls that come after.
pub open spec fn must_succeed(c: Call<Seq<char>>) -> bool {
    match c {
        Call::Executable | Call::Memory | Call::Runtime(_) | Call::Source(_) | Call::Link(_)
        | Call::Compile(_) | Call::Relocate | Call::Find(_) => true,
        _ => false,
    }
}

pub fn is_fatal(c: &Call) -> (r: bool)
    ensures
        r == must_succeed(c@),
{
    match c {
        Call::Executable | Call::Memory | Call::Runtime(_) | Call::Source(_) | Call::Link(_)
        | Call::Compile(_) | Call::Relocate | Call::Find(_) => true,
        _ => false,
    }
}

/// A piece of a `cc` command line: where the program goes, written in two ways,
/// an option alone, an option and its value, or something to compile.
pub ghost enum Piece {
    Output(Seq<char>),
    Joined(Seq<char>),
    Flag(Seq<char>),
    Valued(Seq<char>, Seq<char>),
    Source(Seq<char>),
}

impl Piece {
    /// Whether the piece may stand here. An option that takes a value may
    /// stand alone only where nothing follows.
    pub open spec fn fits(self, last: bool) -> bool {
        match self {
            Piece::Output(_) => true,
            Piece::Joined(p) => p.len() > 0,
            Piece::Flag(a) => {
                &&& a.len() > 0 && a[0] == '-'
                &&& a.len() > 1 ==> a[1] != 'o'
                &&& last || (a != "-I"@ && a != "-D"@ && a != "-L"@ && a != "-l"@ && a
                    != "-include"@)
            },
            Piece::Valued(a, _) => a == "-I"@ || a == "-D"@ || a == "-L"@ || a == "-l"@ || a
                == "-include"@,
            Piece::Source(a) => a.len() == 0 || a[0] != '-',
        }
    }

    pub open spec fn arguments(self) -> Seq<Seq<char>> {
        match self {
            Piece::Output(p) => seq!["-o"@, p],
            Piece::Joined(p) => seq!["-o"@ + p],
            Piece::Flag(a) => seq![a],
            Piece::Valued(a, v) => seq![a, v],
            Piece::Source(a) => seq![a],
        }
    }

    /// What of the piece is for the compiler to read.
    pub open spec fn options(self) -> Seq<Seq<char>> {
        match self {
            Piece::Flag(a) => seq![a],
            Piece::Valued(a, v) => seq![a, v],
            _ => Seq::empty(),
        }
    }

    pub open spec fn sources(self) -> Seq<Seq<char>> {
        match self {
            Piece::Source(a) => seq![a],
            _ => Seq::empty(),
        }
    }
}

pub open spec fn fitting(p: Seq<Piece>) -> bool {
    forall|i: int| 0 <= i < p.len() ==> (#[trigger] p[i]).fits(i + 1 == p.len())
}

/// The pieces one after the other.
pub open spec fn arguments_of(p: Seq<Piece>) -> Seq<Seq<char>>
    decreases p.len(),
{
    if p.len() == 0 {
        Seq::empty()
    } else {
        p[0].arguments() + arguments_of(p.skip(1))
    }
}

pub open spec fn options_of(p: Seq<Piece>) -> Seq<Seq<char>>
    decreases p.len(),
{
    if p.len() == 0 {
        Seq::empty()
    } else {
        p[0].options() + options_of(p.skip(1))
    }
}

pub open spec fn sources_of(p: Seq<Piece>) -> Seq<Seq<char>>
    decreases p.len(),
{
    if p.len() == 0 {
        Seq::empty()
    } else {
        p[0].sources() + sources_of(p.skip(1))
    }
}

/// The path that was given last, if one was.
pub open spec fn output_of(p: Seq<Piece>) -> Option<Seq<char>>
    decreases p.len(),
{
    if p.len() == 0 {
        None
    } else {
        match p.last() {
            Piece::Output(o) => Some(o),
            Piece::Joined(o) => Some(o),
            _ => output_of(p.drop_last()),
        }
    }
}

spec fn output_after(p: Seq<Piece>, before: Option<Seq<char>>) -> Option<Seq<char>>
    decreases p.len(),
{
    if p.len() == 0 {
        before
    } else {
        output_after(
            p.skip(1),
            match p[0] {
                Piece::Output(o) => Some(o),
                Piece::Joined(o) => Some(o),
                _ => before,
            },
        )
    }
}

proof fn output_is_the_last(p: Seq<Piece>, before: Option<Seq<char>>)
    ensures
        output_after(p, before) == (match output_of(p) {
            Some(o) => Some(o),
            None => before,
        }),
    decreases p.len(),
{
    if p.len() > 0 {
        let first = match p[0] {
            Piece::Output(o) => Some(o),
            Piece::Joined(o) => Some(o),
            _ => before,
        };
        output_is_the_last(p.skip(1), first);
        first_output(p);
    }
}

proof fn first_output(p: Seq<Piece>)
    requires
        p.len() > 0,
    ensures
        output_of(p) == (match output_of(p.skip(1)) {
            Some(o) => Some(o),
            None => match p[0] {
                Piece::Output(o) => Some(o),
                Piece::Joined(o) => Some(o),
                _ => None,
            },
        }),
    decreases p.len(),
{
    if p.len() == 1 {
        assert(p.drop_last() =~= Seq::empty());
        assert(p.skip(1) =~= Seq::empty());
    } else {
        assert(p.skip(1).last() == p.last());
        assert(p.skip(1).drop_last() =~= p.drop_last().skip(1));
        first_output(p.drop_last());
    }
}

proof fn pieces_are_read(p: Seq<Piece>, tail: Seq<Seq<char>>, r: Reading)
    requires
        forall|i: int|
            0 <= i < p.len() ==> (#[trigger] p[i]).fits(tail.len() == 0 && i + 1 == p.len()),
    ensures
        read(arguments_of(p) + tail, r) == read(
            tail,
            Reading {
                sources: r.sources + sources_of(p),
                output: output_after(p, r.output),
                extras: r.extras + options_of(p),
            },
        ),
    decreases p.len(),
{
    reveal_strlit("-");
    reveal_strlit("-o");
    if p.len() == 0 {
        assert(r.sources + sources_of(p) =~= r.sources);
        assert(r.extras + options_of(p) =~= r.extras);
        assert(arguments_of(p) + tail =~= tail);
    } else {
        let rest = p.skip(1);
        let args = arguments_of(p) + tail;
        let more = arguments_of(rest) + tail;
        assert(p[0].fits(tail.len() == 0 && 1 == p.len()));
        assert forall|i: int| 0 <= i < rest.len() implies (#[trigger] rest[i]).fits(
            tail.len() == 0 && i + 1 == rest.len(),
        ) by {
            assert(p[i + 1].fits(tail.len() == 0 && i + 2 == p.len()));
        }
        if p.len() == 1 {
            assert(rest =~= Seq::empty());
            assert(more =~= tail);
        }
        match p[0] {
            Piece::Output(o) => {
                assert(args.skip(2) =~= more);
                assert(args[0] == "-o"@ && args[1] == o);
                pieces_are_read(rest, tail, Reading { output: Some(o), ..r });
                assert(Seq::<Seq<char>>::empty() + sources_of(rest) =~= sources_of(rest));
                assert(Seq::<Seq<char>>::empty() + options_of(rest) =~= options_of(rest));
            },
            Piece::Joined(o) => {
                assert(args.skip(1) =~= more);
                let a = "-o"@ + o;
                assert(args[0] == a);
                assert(a.len() > 2);
                assert(a.take(2) =~= "-o"@);
                assert(a.skip(2) =~= o);
                pieces_are_read(rest, tail, Reading { output: Some(o), ..r });
                assert(Seq::<Seq<char>>::empty() + sources_of(rest) =~= sources_of(rest));
                assert(Seq::<Seq<char>>::empty() + options_of(rest) =~= options_of(rest));
            },
            Piece::Flag(a) => {
                assert(args.skip(1) =~= more);
                assert(args[0] == a);
                assert(a.take(1) =~= "-"@);
                if a.len() > 1 {
                    assert(a.take(2)[1] == a[1]);
                    assert("-o"@[1] == 'o');
                }
                pieces_are_read(rest, tail, Reading { extras: r.extras.push(a), ..r });
                assert(Seq::<Seq<char>>::empty() + sources_of(rest) =~= sources_of(rest));
                assert(r.extras.push(a) + options_of(rest) =~= r.extras + (seq![a] + options_of(
                    rest,
                )));
            },
            Piece::Valued(a, v) => {
                reveal_strlit("-I");
                reveal_strlit("-D");
                reveal_strlit("-L");
                reveal_strlit("-l");
                reveal_strlit("-include");
                assert(args.skip(2) =~= more);
                assert(args[0] == a && args[1] == v);
                assert(a[0] == '-' && a[1] != 'o' && a.len() >= 2);
                assert(a.take(1) =~= "-"@);
                assert(a.take(2)[1] == a[1]);
                assert("-o"@[1] == 'o');
                pieces_are_read(rest, tail, Reading { extras: r.extras.push(a).push(v), ..r });
                assert(Seq::<Seq<char>>::empty() + sources_of(rest) =~= sources_of(rest));
                assert(r.extras.push(a).push(v) + options_of(rest) =~= r.extras + (seq![a, v]
                    + options_of(rest)));
            },
            Piece::Source(a) => {
                assert(args.skip(1) =~= more);
                assert(args[0] == a);
                if a.len() > 0 {
                    assert(a.take(1)[0] == a[0]);
                    assert("-"@[0] == '-');
                    if a.len() > 1 {
                        assert(a.take(2)[0] == a[0]);
                    }
                }
                assert("-o"@[0] == '-');
                pieces_are_read(rest, tail, Reading { sources: r.sources.push(a), ..r });
                assert(Seq::<Seq<char>>::empty() + options_of(rest) =~= options_of(rest));
                assert(r.sources.push(a) + sources_of(rest) =~= r.sources + (seq![a] + sources_of(
                    rest,
                )));
            },
        }
    }
}

/// Every argument of the command line reaches the compiler. The options other
/// than `-o`, each with its value, are handed over as they were typed and in
/// that order, before anything is compiled; each source is compiled, in order,
/// after the runtime; and the program goes where the last `-o` said.
pub proof fn every_argument_reaches_the_compiler(p: Seq<Piece>)
    requires
        fitting(p),
        sources_of(p).len() > 0,
    ensures
        planned(arguments_of(p)) is Ok,
        ({
            let calls = calls_for(planned(arguments_of(p))->Ok_0);
            let options = options_of(p);
            let sources = sources_of(p);
            let link = calls.len() - 1;
            let first = link - sources.len();
            &&& first > 2 + options.len()
            &&& calls[1] == Call::Options("-nostdlib"@)
            &&& forall|i: int|
                0 <= i < options.len() ==> calls[2 + i] == Call::Options(#[trigger] options[i])
            &&& forall|i: int|
                0 <= i < sources.len() ==> calls[first + i] == Call::Source(#[trigger] sources[i])
            &&& forall|k: int|
                0 <= k < calls.len() ==> match #[trigger] calls[k] {
                    Call::Options(_) => 1 <= k < 2 + options.len(),
                    Call::Runtime(_) => 2 + options.len() <= k < first,
                    Call::Source(_) => first <= k < link,
                    Call::Link(_) => k == link,
                    _ => k < first,
                }
            &&& calls[link] == Call::Link(
                match output_of(p) {
                    Some(o) => o,
                    None => default_output(sources[0]),
                },
            )
        }),
{
    let r = Reading { sources: Seq::empty(), output: None, extras: Seq::empty() };
    pieces_are_read(p, Seq::empty(), r);
    assert(arguments_of(p) + Seq::<Seq<char>>::empty() =~= arguments_of(p));
    output_is_the_last(p, None);
    assert(r.sources + sources_of(p) =~= sources_of(p));
    assert(r.extras + options_of(p) =~= options_of(p));
}

/// Without a source there is nothing to compile.
pub proof fn nothing_to_compile_is_refused(p: Seq<Piece>)
    requires
        fitting(p),
        sources_of(p).len() == 0,
    ensures
        planned(arguments_of(p)) is Err,
{
    let r = Reading { sources: Seq::empty(), output: None, extras: Seq::empty() };
    pieces_are_read(p, Seq::empty(), r);
    assert(arguments_of(p) + Seq::<Seq<char>>::empty() =~= arguments_of(p));
    assert(r.sources + sources_of(p) =~= sources_of(p));
}

/// A `-o` at the end lacks its path.
pub proof fn a_lone_output_option_is_refused(p: Seq<Piece>)
    requires
        forall|i: int| 0 <= i < p.len() ==> (#[trigger] p[i]).fits(false),
    ensures
        planned(arguments_of(p) + seq!["-o"@]) is Err,
{
    let r = Reading { sources: Seq::empty(), output: None, extras: Seq::empty() };
    pieces_are_read(p, seq!["-o"@], r);
}

/// Every command line is made of pieces, but for a `-o` at the end.
pub proof fn command_lines_are_made_of_pieces(args: Seq<Seq<char>>) -> (r: (Seq<Piece>, bool))
    ensures
        fitting(r.0),
        r.1 ==> args == arguments_of(r.0),
        !r.1 ==> args == arguments_of(r.0) + seq!["-o"@] && forall|i: int|
            0 <= i < r.0.len() ==> (#[trigger] r.0[i]).fits(false),
    decreases args.len(),
{
    reveal_strlit("-o");
    if args.len() == 0 {
        (Seq::empty(), true)
    } else if args.len() == 1 && args[0] == "-o"@ {
        assert(args =~= arguments_of(Seq::empty()) + seq!["-o"@]);
        (Seq::empty(), false)
    } else {
        let a = args[0];
        let first = if a == "-o"@ {
            Piece::Output(args[1])
        } else if a.len() > 2 && a[0] == '-' && a[1] == 'o' {
            Piece::Joined(a.skip(2))
        } else if a.len() > 0 && a[0] == '-' {
            if args.len() > 1 && (a == "-I"@ || a == "-D"@ || a == "-L"@ || a == "-l"@ || a
                == "-include"@) {
                Piece::Valued(a, args[1])
            } else {
                Piece::Flag(a)
            }
        } else {
            Piece::Source(a)
        };
        if a.len() == 2 && a[0] == '-' && a[1] == 'o' {
            assert(a =~= "-o"@);
        }
        let n = first.arguments().len() as int;
        let (rest, whole) = command_lines_are_made_of_pieces(args.skip(n));
        let p = seq![first] + rest;
        assert(p.skip(1) =~= rest);
        assert(p[0] == first);
        if first is Joined {
            assert("-o"@ + a.skip(2) =~= a);
        }
        assert(first.arguments() =~= args.take(n));
        assert(args =~= args.take(n) + args.skip(n));
        assert forall|i: int| 0 <= i < p.len() implies (#[trigger] p[i]).fits(
            i + 1 == p.len(),
        ) by {
            if i > 0 {
                assert(p[i] == rest[i - 1]);
            }
        }
        if whole {
            assert(args =~= arguments_of(p));
        } else {
            assert(args =~= arguments_of(p) + seq!["-o"@]);
            assert forall|i: int| 0 <= i < p.len() implies (#[trigger] p[i]).fits(false) by {
                if i > 0 {
                    assert(p[i] == rest[i - 1]);
                }
            }
        }
        (p, whole)
    }
}

// ── Diagnostics ─────────────────────────────────────────────────────────────

/// Most bytes of one message of the compiler.
pub const MESSAGE_CAP: usize = 4097;

pub open spec fn diagnosed(buf: Seq<char>, message: Seq<u8>) -> Seq<char> {
    let m = if message.len() > MESSAGE_CAP {
        message.take(MESSAGE_CAP as int)
    } else {
        message
    };
    if vstd::utf8::valid_utf8(m) {
        (if buf.len() > 0 {
            buf.push('\n')
        } else {
            buf
        }) + vstd::utf8::decode_utf8(m)
    } else {
        buf
    }
}

/// Keep a message of the compiler, on a line of its own.
pub fn add_diagnostic(buf: &mut String, message: &Vec<u8>)
    ensures
        final(buf)@ == diagnosed(old(buf)@, message@),
{
    let n: usize = if message.len() > MESSAGE_CAP { MESSAGE_CAP } else { message.len() };
    let mut kept: Vec<u8> = Vec::new();
    let mut i: usize = 0;
    while i < n
        invariant
            i <= n <= message@.len(),
            kept@ == message@.take(i as int),
        decreases n - i,
    {
        kept.push(message[i]);
        i = i + 1;
        assert(kept@ =~= message@.take(i as int));
    }
    assert(message@.take(message@.len() as int) =~= message@);
    if let Some(s) = text::decode_text(kept.as_slice()) {
        if buf.as_str().unicode_len() > 0 {
            buf.push('\n');
        }
        buf.append(s.as_str());
    }
}

/// The diagnostics, or what to say where there are none.
pub open spec fn or_else(diagnostics: Seq<char>, fallback: Seq<char>) -> Seq<char> {
    if diagnostics.len() == 0 {
        fallback
    } else {
        diagnostics
    }
}

fn diag_or(diagnostics: &str, fallback: &str) -> (r: String)
    ensures
        r@ == or_else(diagnostics@, fallback@),
{
    if diagnostics.unicode_len() == 0 {
        fallback.to_owned()
    } else {
        diagnostics.to_owned()
    }
}

// ── Results ─────────────────────────────────────────────────────────────────

/// The result of a `cc` invocation.
pub struct CompileResult {
    pub ok: bool,
    pub diagnostics: String,
    pub output_path: Option<String>,
}

pub ghost struct ResultModel {
    pub ok: bool,
    pub diagnostics: Seq<char>,
    pub output: Option<Seq<char>>,
}

impl View for CompileResult {
    type V = ResultModel;

    open spec fn view(&self) -> ResultModel {
        ResultModel {
            ok: self.ok,
            diagnostics: self.diagnostics@,
            output: option_view(self.output_path),
        }
    }
}

/// How the calls for a compilation ended.
pub enum Outcome<T = String> {
    /// The compiler could not be set up.
    NoCompiler,
    /// This call failed.
    Failed(Call<T>),
    /// All calls succeeded.
    Finished,
}

impl View for Outcome {
    type V = Outcome<Seq<char>>;

    open spec fn view(&self) -> Outcome<Seq<char>> {
        match *self {
            Outcome::NoCompiler => Outcome::NoCompiler,
            Outcome::Failed(c) => Outcome::Failed(c@),
            Outcome::Finished => Outcome::Finished,
        }
    }
}

/// What is said of a call that failed without a diagnostic.
pub open spec fn complaint(c: Call<Seq<char>>) -> Seq<char> {
    match c {
        Call::Executable => "cc: tcc_set_output_type failed"@,
        Call::Runtime(f) => "cc: failed to add runtime "@ + f,
        Call::Source(f) => "cc: failed to compile "@ + f,
        _ => "cc: link failed"@,
    }
}

pub open spec fn refused(message: Seq<char>) -> ResultModel {
    ResultModel { ok: false, diagnostics: message, output: None }
}

/// What comes of a compilation.
pub open spec fn concluded(
    output: Seq<char>,
    outcome: Outcome<Seq<char>>,
    diagnostics: Seq<char>,
) -> ResultModel {
    match outcome {
        Outcome::NoCompiler => refused("cc: tcc_new failed"@),
        Outcome::Failed(c) => refused(or_else(diagnostics, complaint(c))),
        Outcome::Finished => ResultModel { ok: true, diagnostics, output: Some(output) },
    }
}

fn complain(c: &Call) -> (r: String)
    ensures
        r@ == complaint(c@),
{
    match c {
        Call::Executable => "cc: tcc_set_output_type failed".to_owned(),
        Call::Runtime(f) => {
            let mut s = "cc: failed to add runtime ".to_owned();
            s.append(f.as_str());
            s
        },
        Call::Source(f) => {
            let mut s = "cc: failed to compile ".to_owned();
            s.append(f.as_str());
            s
        },
        _ => "cc: link failed".to_owned(),
    }
}

/// What comes of a compilation: the calls of [`compile_calls`] were made in
/// order, up to the first that had to succeed and did not.
pub fn conclude(output: &str, outcome: &Outcome, diagnostics: &str) -> (r: CompileResult)
    ensures
        r@ == concluded(output@, outcome@, diagnostics@),
{
    match outcome {
        Outcome::NoCompiler => CompileResult {
            ok: false,
            diagnostics: "cc: tcc_new failed".to_owned(),
            output_path: None,
        },
        Outcome::Failed(c) => {
            let fallback = complain(c);
            CompileResult {
                ok: false,
                diagnostics: diag_or(diagnostics, fallback.as_str()),
                output_path: None,
            }
        },
        Outcome::Finished => CompileResult {
            ok: true,
            diagnostics: diagnostics.to_owned(),
            output_path: Some(output.to_owned()),
        },
    }
}

/// A compilation about to be made.
pub struct Job {
    pub output: String,
    pub calls: Vec<Call>,
}

/// What to do for a `cc` command line: the calls to make, or the result where
/// none has to be made.
pub fn compile(args: &Vec<String>) -> (r: Result<Job, CompileResult>)
    ensures
        match planned(text::strings(args@)) {
            Ok(p) => r matches Ok(j) && j.output@ == p.output && calls_view(j.calls@) == calls_for(p),
            Err(e) => r matches Err(c) && c@ == refused(e),
        },
{
    match plan(args) {
        Ok(p) => {
            let calls = compile_calls(&p);
            Ok(Job { output: p.output, calls })
        },
        Err(e) => Err(CompileResult { ok: false, diagnostics: e, output_path: None }),
    }
}

// ── Making the calls ────────────────────────────────────────────────────────

/// What to do next on the way through the calls.
pub enum Turn<T = String> {
    /// Make the call at this place.
    Make(usize),
    /// There is nothing left to do.
    Over(Outcome<T>),
}

impl View for Turn {
    type V = Turn<Seq<char>>;

    open spec fn view(&self) -> Turn<Seq<char>> {
        match *self {
            Turn::Make(i) => Turn::Make(i),
            Turn::Over(o) => Turn::Over(o@),
        }
    }
}

/// The call at a place, or the end behind the last one.
pub open spec fn turn_at(calls: Seq<Call<Seq<char>>>, at: int) -> Turn<Seq<char>> {
    if at < calls.len() {
        Turn::Make(at as usize)
    } else {
        Turn::Over(Outcome::Finished)
    }
}

/// The first turn; `ready` is whether the compiler could be set up.
pub open spec fn first_turn(calls: Seq<Call<Seq<char>>>, ready: bool) -> Turn<Seq<char>> {
    if ready {
        turn_at(calls, 0)
    } else {
        Turn::Over(Outcome::NoCompiler)
    }
}

/// Whether the calls end with this one: it had to succeed and did not.
pub open spec fn ends_it(c: Call<Seq<char>>, ok: bool) -> bool {
    !ok && must_succeed(c)
}

/// The turn after a call.
pub open spec fn turn_after(calls: Seq<Call<Seq<char>>>, at: int, ok: bool) -> Turn<Seq<char>> {
    if ends_it(calls[at], ok) {
        Turn::Over(Outcome::Failed(calls[at]))
    } else {
        turn_at(calls, at + 1)
    }
}

fn copy_call(c: &Call) -> (r: Call)
    ensures
        r@ == c@,
{
    match c {
        Call::LibPath(t) => Call::LibPath(t.as_str().to_owned()),
        Call::Options(t) => Call::Options(t.as_str().to_owned()),
        Call::SysInclude(t) => Call::SysInclude(t.as_str().to_owned()),
        Call::Include(t) => Call::Include(t.as_str().to_owned()),
        Call::LibraryPath(t) => Call::LibraryPath(t.as_str().to_owned()),
        Call::Executable => Call::Executable,
        Call::Memory => Call::Memory,
        Call::Runtime(t) => Call::Runtime(t.as_str().to_owned()),
        Call::Source(t) => Call::Source(t.as_str().to_owned()),
        Call::Link(t) => Call::Link(t.as_str().to_owned()),
        Call::Symbol(t) => Call::Symbol(t.as_str().to_owned()),
        Call::Compile(t) => Call::Compile(t.as_str().to_owned()),
        Call::Relocate => Call::Relocate,
        Call::Find(t) => Call::Find(t.as_str().to_owned()),
    }
}

/// Where the calls begin, if the compiler could be set up.
pub fn first_call(calls: &Vec<Call>, ready: bool) -> (r: Turn)
    ensures
        r@ == first_turn(calls_view(calls@), ready),
{
    if !ready {
        Turn::Over(Outcome::NoCompiler)
    } else if calls.len() > 0 {
        Turn::Make(0)
    } else {
        Turn::Over(Outcome::Finished)
    }
}

/// Where they go on after the call at `at`, which succeeded or not.
pub fn next_call(calls: &Vec<Call>, at: usize, ok: bool) -> (r: Turn)
    requires
        at < calls@.len(),
    ensures
        r@ == turn_after(calls_view(calls@), at as int, ok),
{
    assert(calls_view(calls@)[at as int] == calls@[at as int]@);
    if !ok && is_fatal(&calls[at]) {
        Turn::Over(Outcome::Failed(copy_call(&calls[at])))
    } else if calls.len() - at > 1 {
        Turn::Make(at + 1)
    } else {
        Turn::Over(Outcome::Finished)
    }
}

/// How many calls are made and how it ends, turn after turn from a place on,
/// where the call at `i` is answered with `oks[i]`.
pub open spec fn played(calls: Seq<Call<Seq<char>>>, oks: Seq<bool>, at: int) -> (
    int,
    Outcome<Seq<char>>,
)
    decreases calls.len() - at,
{
    if at < 0 || at >= calls.len() {
        (0, Outcome::Finished)
    } else {
        match turn_after(calls, at, oks[at]) {
            Turn::Over(o) => (1, o),
            Turn::Make(_) => {
                let (n, o) = played(calls, oks, at + 1);
                (n + 1, o)
            },
        }
    }
}

proof fn played_to_the_first(calls: Seq<Call<Seq<char>>>, oks: Seq<bool>, at: int, i: int)
    requires
        0 <= at <= i < calls.len(),
        calls.len() == oks.len(),
        ends_it(calls[i], oks[i]),
        forall|j: int| at <= j < i ==> !ends_it(#[trigger] calls[j], oks[j]),
    ensures
        played(calls, oks, at) == (i - at + 1, Outcome::Failed(calls[i])),
    decreases i - at,
{
    if at < i {
        assert(!ends_it(calls[at], oks[at]));
        played_to_the_first(calls, oks, at + 1, i);
    }
}

/// Compiling stops at the first call that had to succeed and did not, and no
/// call is made after it.
pub proof fn compiling_stops_at_the_first_failure(
    calls: Seq<Call<Seq<char>>>,
    oks: Seq<bool>,
    i: int,
)
    requires
        calls.len() == oks.len(),
        0 <= i < calls.len(),
        ends_it(calls[i], oks[i]),
        forall|j: int| 0 <= j < i ==> !ends_it(#[trigger] calls[j], oks[j]),
    ensures
        played(calls, oks, 0) == (i + 1, Outcome::Failed(calls[i])),
{
    played_to_the_first(calls, oks, 0, i);
}

proof fn played_to_the_end(calls: Seq<Call<Seq<char>>>, oks: Seq<bool>, at: int)
    requires
        0 <= at <= calls.len(),
        calls.len() == oks.len(),
        forall|j: int| at <= j < calls.len() ==> !ends_it(#[trigger] calls[j], oks[j]),
    ensures
        played(calls, oks, at) == (calls.len() - at, Outcome::<Seq<char>>::Finished),
    decreases calls.len() - at,
{
    if at < calls.len() {
        assert(!ends_it(calls[at], oks[at]));
        played_to_the_end(calls, oks, at + 1);
    }
}

/// Where no call that has to succeed fails, all of them are made, in their
/// order.
pub proof fn all_calls_are_made(calls: Seq<Call<Seq<char>>>, oks: Seq<bool>)
    requires
        calls.len() == oks.len(),
        forall|j: int| 0 <= j < calls.len() ==> !ends_it(#[trigger] calls[j], oks[j]),
    ensures
        played(calls, oks, 0) == (calls.len() as int, Outcome::<Seq<char>>::Finished),
{
    played_to_the_end(calls, oks, 0);
}

// ── Evaluating in memory ────────────────────────────────────────────────────

/// Whether a text can be handed to C as it is.
pub open spec fn has_nul(s: Seq<char>) -> bool {
    s.contains('\0')
}

fn holds_nul(s: &str) -> (r: bool)
    ensures
        r == has_nul(s@),
{
    let v = chars_of(s);
    let mut i: usize = 0;
    while i < v.len()
        invariant
            i <= v@.len(),
            v@ == s@,
            forall|j: int| 0 <= j < i ==> v@[j] != '\0',
        decreases v@.len() - i,
    {
        if v[i] == '\0' {
            assert(s@[i as int] == '\0');
            return true;
        }
        i = i + 1;
    }
    false
}

/// The calls for compiling a text in memory and finding a function of it,
/// with `putchar` and `printf` where the text may print.
pub open spec fn eval_calls(source: Seq<char>, entry: Seq<char>, prints: bool) -> Seq<
    Call<Seq<char>>,
> {
    seq![
        Call::LibPath("/disk/lib/tcc"@),
        Call::SysInclude("/disk/lib/tcc/include"@),
        Call::Options("-nostdlib"@),
        Call::Memory,
    ] + (if prints {
        seq![Call::Symbol("putchar"@), Call::Symbol("printf"@)]
    } else {
        Seq::empty()
    }) + (if has_nul(source) {
        Seq::empty()
    } else if has_nul(entry) {
        seq![Call::Compile(source), Call::Relocate]
    } else {
        seq![Call::Compile(source), Call::Relocate, Call::Find(entry)]
    })
}

fn evaluation(source: &str, entry: &str, prints: bool) -> (r: Vec<Call>)
    ensures
        calls_view(r@) == eval_calls(source@, entry@, prints),
{
    let mut out: Vec<Call> = Vec::new();
    assert(calls_view(out@) =~= Seq::empty());
    add_call(&mut out, Call::LibPath("/disk/lib/tcc".to_owned()));
    add_call(&mut out, Call::SysInclude("/disk/lib/tcc/include".to_owned()));
    add_call(&mut out, Call::Options("-nostdlib".to_owned()));
    add_call(&mut out, Call::Memory);
    if prints {
        add_call(&mut out, Call::Symbol("putchar".to_owned()));
        add_call(&mut out, Call::Symbol("printf".to_owned()));
    }
    if !holds_nul(source) {
        add_call(&mut out, Call::Compile(source.to_owned()));
        add_call(&mut out, Call::Relocate);
        if !holds_nul(entry) {
            add_call(&mut out, Call::Find(entry.to_owned()));
        }
    }
    assert(calls_view(out@) =~= eval_calls(source@, entry@, prints));
    out
}

/// The calls to compile a text in memory and find `int entry(void)` in it.
pub fn eval_i32(source: &str, entry: &str) -> (r: Vec<Call>)
    ensures
        calls_view(r@) == eval_calls(source@, entry@, false),
{
    evaluation(source, entry, false)
}

/// As [`eval_i32`], for a text that may print.
pub fn eval_i32_with_printf(source: &str, entry: &str) -> (r: Vec<Call>)
    ensures
        calls_view(r@) == eval_calls(source@, entry@, true),
{
    evaluation(source, entry, true)
}

/// How an evaluation ended.
pub enum Evaluated<T = String> {
    NoCompiler,
    Failed(Call<T>),
    /// All calls were made and no function was looked for.
    Stopped,
    /// The function was found and returned this.
    Value(i32),
}

impl View for Evaluated {
    type V = Evaluated<Seq<char>>;

    open spec fn view(&self) -> Evaluated<Seq<char>> {
        match *self {
            Evaluated::NoCompiler => Evaluated::NoCompiler,
            Evaluated::Failed(c) => Evaluated::Failed(c@),
            Evaluated::Stopped => Evaluated::Stopped,
            Evaluated::Value(v) => Evaluated::Value(v),
        }
    }
}

/// How an evaluation ended whose calls ended so; `value` is what the function
/// returned, where one was found.
pub open spec fn evaluated_of(outcome: Outcome<Seq<char>>, value: Option<i32>) -> Evaluated<
    Seq<char>,
> {
    match outcome {
        Outcome::NoCompiler => Evaluated::NoCompiler,
        Outcome::Failed(c) => Evaluated::Failed(c),
        Outcome::Finished => match value {
            Some(v) => Evaluated::Value(v),
            None => Evaluated::Stopped,
        },
    }
}

pub fn evaluated(outcome: Outcome, value: Option<i32>) -> (r: Evaluated)
    ensures
        r@ == evaluated_of(outcome@, value),
{
    match outcome {
        Outcome::NoCompiler => Evaluated::NoCompiler,
        Outcome::Failed(c) => Evaluated::Failed(c),
        Outcome::Finished => match value {
            Some(v) => Evaluated::Value(v),
            None => Evaluated::Stopped,
        },
    }
}

pub open spec fn eval_concluded(
    source: Seq<char>,
    e: Evaluated<Seq<char>>,
    diagnostics: Seq<char>,
) -> Result<i32, Seq<char>> {
    match e {
        Evaluated::Value(v) => Ok(v),
        Evaluated::NoCompiler => Err("tcc_new failed"@),
        Evaluated::Stopped => Err(
            if has_nul(source) {
                "source NUL"@
            } else {
                "entry NUL"@
            },
        ),
        Evaluated::Failed(c) => Err(
            match c {
                Call::Find(name) => "undefined symbol '"@ + name + "'"@,
                Call::Memory => or_else(diagnostics, "set_output_type failed"@),
                Call::Compile(_) => or_else(diagnostics, "compile failed"@),
                _ => or_else(diagnostics, "relocate failed"@),
            },
        ),
    }
}

/// What comes of an evaluation.
pub fn eval_conclude(source: &str, e: &Evaluated, diagnostics: &str) -> (r: Result<i32, String>)
    ensures
        (match r {
            Ok(v) => Ok(v),
            Err(t) => Err(t@),
        }) == eval_concluded(source@, e@, diagnostics@),
{
    match e {
        Evaluated::Value(v) => Ok(*v),
        Evaluated::NoCompiler => Err("tcc_new failed".to_owned()),
        Evaluated::Stopped => if holds_nul(source) {
            Err("source NUL".to_owned())
        } else {
            Err("entry NUL".to_owned())
        },
        Evaluated::Failed(c) => match c {
            Call::Find(name) => {
                let mut s = "undefined symbol '".to_owned();
                s.append(name.as_str());
                s.append("'");
                Err(s)
            },
            Call::Memory => Err(diag_or(diagnostics, "set_output_type failed")),
            Call::Compile(_) => Err(diag_or(diagnostics, "compile failed")),
            _ => Err(diag_or(diagnostics, "relocate failed")),
        },
    }
}

/// Most bytes that one call of the small `printf` prints.
pub const PRINT_CAP: usize = 2049;

/// How many bytes of a format are printed: up to its end, and no more than
/// the cap.
pub open spec fn print_len(fmt: Seq<u8>) -> nat
    decreases fmt.len(),
{
    if fmt.len() == 0 || fmt[0] == 0 {
        0
    } else {
        1 + print_len(fmt.skip(1))
    }
}

pub open spec fn printed(fmt: Seq<u8>) -> Seq<char> {
    let n = if print_len(fmt) <= PRINT_CAP {
        print_len(fmt)
    } else {
        PRINT_CAP as nat
    };
    Seq::new(n, |i: int| fmt[i] as char)
}

/// What evaluated code prints with `printf`: the format itself, byte by byte.
/// The result is how many bytes that were.
pub fn print_format(out: &mut String, fmt: &Vec<u8>) -> (r: usize)
    ensures
        final(out)@ == old(out)@ + printed(fmt@),
        r == printed(fmt@).len(),
{
    let mut i: usize = 0;
    let ghost whole = print_len(fmt@);
    let ghost start = out@;
    assert(fmt@.skip(0) =~= fmt@);
    assert(out@ =~= start + Seq::new(0, |j: int| fmt@[j] as char));
    while i < fmt.len() && i < PRINT_CAP && fmt[i] != 0
        invariant
            i <= fmt@.len(),
            i <= PRINT_CAP,
            whole == i + print_len(fmt@.skip(i as int)),
            out@ == start + Seq::new(i as nat, |j: int| fmt@[j] as char),
        decreases fmt@.len() - i,
    {
        assert(fmt@.skip(i as int).skip(1) =~= fmt@.skip(i + 1));
        out.push(fmt[i] as char);
        i = i + 1;
        assert(out@ =~= start + Seq::new(i as nat, |j: int| fmt@[j] as char));
    }
    assert(out@ =~= start + printed(fmt@));
    i
}

/// What evaluated code prints with `putchar`; anything but a byte is dropped.
pub fn print_char(out: &mut String, c: i32)
    ensures
        final(out)@ == (if 0 <= c <= 255 {
            old(out)@.push(c as u8 as char)
        } else {
            old(out)@
        }),
{
    if 0 <= c && c <= 255 {
        out.push(c as u8 as char);
    }
}

// ── The toolchain on disk ───────────────────────────────────────────────────

/// The folders of the given parts, each with the one it lies in before it.
pub open spec fn chain(parts: Seq<Seq<char>>, built: Seq<char>) -> Seq<Seq<char>>
    decreases parts.len(),
{
    if parts.len() == 0 {
        Seq::empty()
    } else if parts[0].len() == 0 {
        chain(parts.skip(1), built)
    } else {
        let b = built.push('/') + parts[0];
        seq![b] + chain(parts.skip(1), b)
    }
}

/// The folders that a file needs, outermost first.
pub open spec fn folders_of(path: Seq<char>) -> Seq<Seq<char>> {
    let i = text::find_last(path, '/');
    if i >= 0 {
        chain(text::split(path.take(i), '/'), Seq::empty())
    } else {
        Seq::empty()
    }
}

/// The folders to make before a file of the toolchain is written.
pub fn folders(path: &str) -> (r: Vec<String>)
    ensures
        text::strings(r@) == folders_of(path@),
{
    let mut out: Vec<String> = Vec::new();
    assert(text::strings(out@) =~= Seq::empty());
    let v = chars_of(path);
    let at: usize = find_last_char(v.as_slice(), '/');
    if at == 0 {
        return out;
    }
    let parent = string_between(v.as_slice(), 0, at - 1);
    assert(parent@ =~= path@.take(at - 1));
    let parts = split_text(parent.as_str(), '/');
    let ghost all = text::strings(parts@);
    let mut built = String::new();
    let mut i: usize = 0;
    assert(all.skip(0) =~= all);
    assert(built@ =~= Seq::empty());
    assert(text::strings(out@) + chain(all, built@) =~= chain(all, Seq::empty()));
    while i < parts.len()
        invariant
            i <= parts@.len(),
            all == text::strings(parts@),
            text::strings(out@) + chain(all.skip(i as int), built@) == chain(all, Seq::empty()),
        decreases parts@.len() - i,
    {
        let ghost rest = all.skip(i as int);
        let ghost before = text::strings(out@);
        assert(rest[0] == parts@[i as int]@);
        assert(rest.skip(1) =~= all.skip(i + 1));
        if parts[i].as_str().unicode_len() > 0 {
            built.push('/');
            built.append(parts[i].as_str());
            let ghost b = built@;
            out.push(built.as_str().to_owned());
            proof {
                assert(text::strings(out@) =~= before.push(b));
                assert(before.push(b) + chain(all.skip(i + 1), b) =~= before + (seq![b] + chain(
                    all.skip(i + 1),
                    b,
                )));
            }
        }
        i = i + 1;
    }
    assert(all.skip(i as int) =~= Seq::empty());
    assert(text::strings(out@) =~= chain(all, Seq::empty()));
    out
}

/// The files that a program is compiled with: headers, the runtime's sources
/// and the compiler's own definitions.
pub open spec fn runtime_paths() -> Seq<Seq<char>> {
    seq![
        "/disk/include/stdio.h"@,
        "/disk/include/stdlib.h"@,
        "/disk/include/string.h"@,
        "/disk/include/stddef.h"@,
        "/disk/include/stdint.h"@,
        "/disk/include/stdarg.h"@,
        "/disk/include/stdbool.h"@,
        "/disk/include/errno.h"@,
        "/disk/include/os101.h"@,
        "/disk/lib/crt0.c"@,
        "/disk/lib/syscall.c"@,
        "/disk/lib/os101.c"@,
        "/disk/lib/stdio.c"@,
        "/disk/lib/stdlib.c"@,
        "/disk/lib/string.c"@,
        "/disk/lib/malloc.c"@,
        "/disk/lib/va_list.c"@,
        "/disk/lib/tcc/include/tccdefs.h"@,
    ]
}

/// The files that a program is compiled with.
pub fn runtime_files() -> (r: Vec<String>)
    ensures
        text::strings(r@) == runtime_paths(),
{
    let mut v: Vec<String> = Vec::new();
    v.push("/disk/include/stdio.h".to_owned());
    v.push("/disk/include/stdlib.h".to_owned());
    v.push("/disk/include/string.h".to_owned());
    v.push("/disk/include/stddef.h".to_owned());
    v.push("/disk/include/stdint.h".to_owned());
    v.push("/disk/include/stdarg.h".to_owned());
    v.push("/disk/include/stdbool.h".to_owned());
    v.push("/disk/include/errno.h".to_owned());
    v.push("/disk/include/os101.h".to_owned());
    v.push("/disk/lib/crt0.c".to_owned());
    v.push("/disk/lib/syscall.c".to_owned());
    v.push("/disk/lib/os101.c".to_owned());
    v.push("/disk/lib/stdio.c".to_owned());
    v.push("/disk/lib/stdlib.c".to_owned());
    v.push("/disk/lib/string.c".to_owned());
    v.push("/disk/lib/malloc.c".to_owned());
    v.push("/disk/lib/va_list.c".to_owned());
    v.push("/disk/lib/tcc/include/tccdefs.h".to_owned());
    assert(text::strings(v@) =~= runtime_paths());
    v
}

/// Whether a file of the toolchain belongs on the disk.
pub open spec fn on_disk(path: Seq<char>) -> bool {
    text::has_prefix(path, "/disk/"@)
}

/// What is to be done next to seed the disk; files are named by their number.
pub enum SeedAsk {
    /// Look whether the file can be read.
    Look(usize),
    /// Make these folders, whether or not they are there, and write the file.
    Write(usize, Vec<String>),
    /// All is done: how many files were written, or why one could not be.
    Done(Result<usize, String>),
}

/// What came of it.
pub enum SeedSaid {
    Found(bool),
    /// The file was written, or why not.
    Written(Result<(), String>),
}

#[verifier::ext_equal]
pub ghost enum SeedAskModel {
    Look(usize),
    Write(usize, Seq<Seq<char>>),
    Done(Result<usize, Seq<char>>),
}

#[verifier::ext_equal]
pub ghost enum SeedSaidModel {
    Found(bool),
    Written(Result<(), Seq<char>>),
}

impl View for SeedAsk {
    type V = SeedAskModel;

    open spec fn view(&self) -> SeedAskModel {
        match *self {
            SeedAsk::Look(i) => SeedAskModel::Look(i),
            SeedAsk::Write(i, f) => SeedAskModel::Write(i, text::strings(f@)),
            SeedAsk::Done(Ok(n)) => SeedAskModel::Done(Ok(n)),
            SeedAsk::Done(Err(e)) => SeedAskModel::Done(Err(e@)),
        }
    }
}

impl View for SeedSaid {
    type V = SeedSaidModel;

    open spec fn view(&self) -> SeedSaidModel {
        match *self {
            SeedSaid::Found(b) => SeedSaidModel::Found(b),
            SeedSaid::Written(Ok(_)) => SeedSaidModel::Written(Ok(())),
            SeedSaid::Written(Err(e)) => SeedSaidModel::Written(Err(e@)),
        }
    }
}

/// The toolchain on its way to the disk: the file it has come to, whether that
/// one is to be written, how many were, and what stopped it.
pub struct Seeding {
    paths: Vec<String>,
    at: usize,
    writing: bool,
    written: usize,
    failed: Option<String>,
}

#[verifier::ext_equal]
pub ghost struct SeedingModel {
    pub paths: Seq<Seq<char>>,
    pub at: int,
    pub writing: bool,
    pub written: int,
    pub failed: Option<Seq<char>>,
}

impl View for Seeding {
    type V = SeedingModel;

    closed spec fn view(&self) -> SeedingModel {
        SeedingModel {
            paths: text::strings(self.paths@),
            at: self.at as int,
            writing: self.writing,
            written: self.written as int,
            failed: option_view(self.failed),
        }
    }
}

/// The first file from `i` on that belongs on the disk.
pub open spec fn first_on_disk(paths: Seq<Seq<char>>, i: int) -> int
    decreases paths.len() - i,
{
    if i >= paths.len() || on_disk(paths[i]) {
        i
    } else {
        first_on_disk(paths, i + 1)
    }
}

pub open spec fn seeding_of(paths: Seq<Seq<char>>) -> SeedingModel {
    SeedingModel {
        paths,
        at: first_on_disk(paths, 0),
        writing: false,
        written: 0,
        failed: None,
    }
}

impl SeedingModel {
    pub open spec fn wf(self) -> bool {
        &&& 0 <= self.at <= self.paths.len() <= usize::MAX
        &&& self.at < self.paths.len() ==> on_disk(self.paths[self.at])
        &&& self.writing ==> self.at < self.paths.len()
        &&& 0 <= self.written <= self.at
    }

    pub open spec fn over(self) -> bool {
        self.failed is Some || self.at >= self.paths.len()
    }

    pub open spec fn ask(self) -> SeedAskModel {
        match self.failed {
            Some(e) => SeedAskModel::Done(Err(e)),
            None => if self.at >= self.paths.len() {
                SeedAskModel::Done(Ok(self.written as usize))
            } else if self.writing {
                SeedAskModel::Write(self.at as usize, folders_of(self.paths[self.at]))
            } else {
                SeedAskModel::Look(self.at as usize)
            },
        }
    }

    pub open spec fn onward(self) -> SeedingModel {
        SeedingModel { at: first_on_disk(self.paths, self.at + 1), writing: false, ..self }
    }

    /// After an answer: a file that is there is left alone, the first that
    /// cannot be written ends it, and what was not asked is passed over.
    pub open spec fn after(self, said: SeedSaidModel) -> SeedingModel {
        match (self.ask(), said) {
            (SeedAskModel::Look(_), SeedSaidModel::Found(true)) => self.onward(),
            (SeedAskModel::Look(_), SeedSaidModel::Found(false)) => SeedingModel {
                writing: true,
                ..self
            },
            (SeedAskModel::Write(_, _), SeedSaidModel::Written(Ok(_))) => (SeedingModel {
                written: self.written + 1,
                ..self
            }).onward(),
            (SeedAskModel::Write(_, _), SeedSaidModel::Written(Err(e))) => SeedingModel {
                failed: Some(e),
                ..self
            },
            _ => self,
        }
    }

    /// How many answers are awaited at most.
    pub open spec fn left(self) -> int {
        if self.over() {
            0
        } else if self.writing {
            2 * (self.paths.len() - self.at) - 1
        } else {
            2 * (self.paths.len() - self.at)
        }
    }
}

/// The search for the next file ends at one that belongs on the disk, with
/// none passed over.
pub proof fn first_on_disk_bounds(paths: Seq<Seq<char>>, i: int)
    requires
        i <= paths.len(),
    ensures
        i <= first_on_disk(paths, i) <= paths.len(),
        first_on_disk(paths, i) < paths.len() ==> on_disk(paths[first_on_disk(paths, i)]),
        forall|k: int| i <= k < first_on_disk(paths, i) ==> !on_disk(#[trigger] paths[k]),
    decreases paths.len() - i,
{
    if i < paths.len() && !on_disk(paths[i]) {
        first_on_disk_bounds(paths, i + 1);
    }
}

/// Seed the disk with headers and the runtime that programs are linked with.
/// It can be asked for again at any time: only what is missing is written.
pub fn seed_toolchain() -> (r: Seeding)
    ensures
        r@ == seeding_of(runtime_paths()),
        r@.wf(),
{
    Seeding::new(runtime_files())
}

impl Seeding {
    pub fn new(paths: Vec<String>) -> (r: Seeding)
        ensures
            r@ == seeding_of(text::strings(paths@)),
            r@.wf(),
    {
        let at: usize = next_on_disk(&paths, 0);
        proof {
            first_on_disk_bounds(text::strings(paths@), 0);
            assert(paths@.len() == paths.len());
        }
        Seeding { paths, at, writing: false, written: 0, failed: None }
    }

    pub fn ask(&self) -> (r: SeedAsk)
        requires
            self@.wf(),
        ensures
            r@ == self@.ask(),
    {
        match &self.failed {
            Some(e) => SeedAsk::Done(Err(e.as_str().to_owned())),
            None => if self.at >= self.paths.len() {
                SeedAsk::Done(Ok(self.written))
            } else if self.writing {
                SeedAsk::Write(self.at, folders(self.paths[self.at].as_str()))
            } else {
                SeedAsk::Look(self.at)
            },
        }
    }

    fn onward(&mut self)
        requires
            old(self)@.at < old(self)@.paths.len(),
            0 <= old(self)@.written <= old(self)@.at + 1,
        ensures
            final(self)@ == old(self)@.onward(),
            final(self)@.wf(),
    {
        assert(self.paths@.len() == self.paths.len());
        self.at = next_on_disk(&self.paths, self.at + 1);
        self.writing = false;
        proof {
            first_on_disk_bounds(self@.paths, old(self)@.at + 1);
        }
    }

    /// Something was looked up or written: on to what comes next.
    pub fn answer(&mut self, said: SeedSaid)
        requires
            old(self)@.wf(),
        ensures
            final(self)@ == old(self)@.after(said@),
            final(self)@.wf(),
    {
        if self.failed.is_some() || self.at >= self.paths.len() {
            return;
        }
        match said {
            SeedSaid::Found(there) => {
                if !self.writing {
                    if there {
                        self.onward();
                    } else {
                        self.writing = true;
                    }
                }
            },
            SeedSaid::Written(outcome) => {
                if self.writing {
                    match outcome {
                        Ok(_) => {
                            assert(self.paths@.len() == self.paths.len());
                            self.written = self.written + 1;
                            self.onward();
                        },
                        Err(e) => {
                            self.failed = Some(e);
                        },
                    }
                }
            },
        }
    }
}

fn next_on_disk(paths: &Vec<String>, from: usize) -> (r: usize)
    requires
        from <= paths@.len(),
    ensures
        r == first_on_disk(text::strings(paths@), from as int),
{
    let mut i: usize = from;
    while i < paths.len() && !starts_with(paths[i].as_str(), "/disk/")
        invariant
            from <= i <= paths@.len(),
            first_on_disk(text::strings(paths@), from as int) == first_on_disk(
                text::strings(paths@),
                i as int,
            ),
        decreases paths@.len() - i,
    {
        i = i + 1;
    }
    i
}

/// The seeding carried out on a disk, path by path with the text of each file,
/// where the files of `refused` cannot be written: the disk afterwards, and
/// where the seeding ended.
pub open spec fn seeded(
    s: SeedingModel,
    texts: Seq<Seq<char>>,
    disk: Map<Seq<char>, Seq<char>>,
    refused: Set<Seq<char>>,
    why: Seq<char>,
) -> (Map<Seq<char>, Seq<char>>, SeedingModel)
    decreases s.left(),
{
    if !s.wf() || s.over() {
        (disk, s)
    } else {
        proof {
            first_on_disk_bounds(s.paths, s.at + 1);
        }
        let path = s.paths[s.at];
        if !s.writing {
            seeded(
                s.after(SeedSaidModel::Found(disk.dom().contains(path))),
                texts,
                disk,
                refused,
                why,
            )
        } else if refused.contains(path) {
            (disk, s.after(SeedSaidModel::Written(Err(why))))
        } else {
            seeded(
                s.after(SeedSaidModel::Written(Ok(()))),
                texts,
                disk.insert(path, texts[s.at]),
                refused,
                why,
            )
        }
    }
}

proof fn seeding_from(
    s: SeedingModel,
    texts: Seq<Seq<char>>,
    disk: Map<Seq<char>, Seq<char>>,
    refused: Set<Seq<char>>,
    why: Seq<char>,
)
    requires
        s.wf(),
        s.failed is None,
        s.writing ==> !disk.dom().contains(s.paths[s.at]),
        disk.dom().finite(),
    ensures
        ({
            let (after, end) = seeded(s, texts, disk, refused, why);
            &&& end.over()
            &&& end.wf()
            &&& end.paths == s.paths
            &&& after.dom().finite()
            &&& after.dom().len() == disk.dom().len() + (end.written - s.written)
            &&& forall|p: Seq<char>| #[trigger]
                disk.dom().contains(p) ==> after.dom().contains(p) && after[p] == disk[p]
            &&& forall|p: Seq<char>| #[trigger]
                after.dom().contains(p) && !disk.dom().contains(p) ==> exists|i: int|
                    0 <= i < s.paths.len() && on_disk(p) && p == #[trigger] s.paths[i] && after[p]
                        == texts[i]
            &&& end.failed is None ==> forall|i: int|
                s.at <= i < s.paths.len() && on_disk(#[trigger] s.paths[i]) ==> after.dom().contains(
                    s.paths[i],
                )
        }),
    decreases s.left(),
{
    if !s.over() {
        first_on_disk_bounds(s.paths, s.at + 1);
        let path = s.paths[s.at];
        if !s.writing {
            seeding_from(
                s.after(SeedSaidModel::Found(disk.dom().contains(path))),
                texts,
                disk,
                refused,
                why,
            );
        } else if !refused.contains(path) {
            let next = disk.insert(path, texts[s.at]);
            assert(next.dom() =~= disk.dom().insert(path));
            seeding_from(s.after(SeedSaidModel::Written(Ok(()))), texts, next, refused, why);
            let (after, end) = seeded(s, texts, disk, refused, why);
            assert(next.dom().contains(path));
            assert forall|p: Seq<char>| #[trigger]
                disk.dom().contains(p) implies after.dom().contains(p) && after[p] == disk[p] by {
                assert(next.dom().contains(p));
            }
            assert forall|p: Seq<char>| #[trigger]
                after.dom().contains(p) && !disk.dom().contains(p) implies exists|i: int|
                0 <= i < s.paths.len() && on_disk(p) && p == #[trigger] s.paths[i] && after[p]
                    == texts[i] by {
                if p == path {
                    assert(p == s.paths[s.at]);
                } else {
                    assert(!next.dom().contains(p));
                }
            }
        }
    }
}

proof fn nothing_is_missing(
    s: SeedingModel,
    texts: Seq<Seq<char>>,
    disk: Map<Seq<char>, Seq<char>>,
    refused: Set<Seq<char>>,
    why: Seq<char>,
)
    requires
        s.wf(),
        s.failed is None,
        !s.writing,
        forall|i: int|
            s.at <= i < s.paths.len() && on_disk(#[trigger] s.paths[i]) ==> disk.dom().contains(
                s.paths[i],
            ),
    ensures
        ({
            let (after, end) = seeded(s, texts, disk, refused, why);
            after == disk && end.failed is None && end.over() && end.written == s.written
        }),
    decreases s.left(),
{
    if !s.over() {
        first_on_disk_bounds(s.paths, s.at + 1);
        nothing_is_missing(s.after(SeedSaidModel::Found(true)), texts, disk, refused, why);
    }
}

/// Seeding writes what is missing and nothing else: every file that was there
/// stays as it was, every new one is a file of the toolchain with its own
/// text, and as many are new as were counted. Where it succeeds, every file
/// that belongs on the disk is there.
pub proof fn seeding_fills_the_gaps(
    paths: Seq<Seq<char>>,
    texts: Seq<Seq<char>>,
    disk: Map<Seq<char>, Seq<char>>,
    refused: Set<Seq<char>>,
    why: Seq<char>,
)
    requires
        texts.len() == paths.len() <= usize::MAX,
        disk.dom().finite(),
    ensures
        ({
            let (after, end) = seeded(seeding_of(paths), texts, disk, refused, why);
            &&& end.ask() is Done
            &&& after.dom().len() == disk.dom().len() + end.written
            &&& forall|p: Seq<char>| #[trigger]
                disk.dom().contains(p) ==> after.dom().contains(p) && after[p] == disk[p]
            &&& forall|p: Seq<char>| #[trigger]
                after.dom().contains(p) && !disk.dom().contains(p) ==> exists|i: int|
                    0 <= i < paths.len() && on_disk(p) && p == #[trigger] paths[i] && after[p]
                        == texts[i]
            &&& end.ask() == SeedAskModel::Done(Ok(end.written as usize)) ==> forall|i: int|
                0 <= i < paths.len() && on_disk(#[trigger] paths[i]) ==> after.dom().contains(
                    paths[i],
                )
        }),
{
    first_on_disk_bounds(paths, 0);
    seeding_from(seeding_of(paths), texts, disk, refused, why);
}

/// Seeding is idempotent: after one that succeeded, and as long as nothing is
/// removed, another succeeds without writing anything, even where nothing
/// could be written.
pub proof fn seeding_again_writes_nothing(
    paths: Seq<Seq<char>>,
    texts: Seq<Seq<char>>,
    disk: Map<Seq<char>, Seq<char>>,
    refused: Set<Seq<char>>,
    refused_later: Set<Seq<char>>,
    why: Seq<char>,
)
    requires
        texts.len() == paths.len() <= usize::MAX,
        disk.dom().finite(),
        seeded(seeding_of(paths), texts, disk, refused, why).1.failed is None,
    ensures
        ({
            let after = seeded(seeding_of(paths), texts, disk, refused, why).0;
            let (again, end) = seeded(seeding_of(paths), texts, after, refused_later, why);
            again == after && end.ask() == SeedAskModel::Done(Ok(0))
        }),
{
    first_on_disk_bounds(paths, 0);
    seeding_from(seeding_of(paths), texts, disk, refused, why);
    let after = seeded(seeding_of(paths), texts, disk, refused, why).0;
    nothing_is_missing(seeding_of(paths), texts, after, refused_later, why);
}
/// A program lies beside its source and goes by its name, without the
/// extension; a source without one gives the program one of its own.
pub proof fn programs_are_named_after_their_source(stem: Seq<char>, ext: Seq<char>)
    requires
        !ext.contains('.'),
    ensures
        default_output(stem + seq!['.'] + ext) == stem,
        default_output(ext) == ext + ".elf"@,
{
    let s = stem + seq!['.'] + ext;
    let n = stem.len() as int;
    assert forall|j: int| 0 <= j < ext.len() implies ext[j] != '.' by {
        if ext[j] == '.' {
            assert(ext.contains('.'));
        }
    }
    assert forall|j: int| n < j < s.len() implies s[j] != '.' by {
        assert(s[j] == ext[j - n - 1]);
    }
    assert(s[n] == '.');
    text::find_last_at(s, '.', n);
    assert(s.take(n) =~= stem);
    text::find_last_at(ext, '.', -1);
}

/// Whatever a program is linked with is among the files that the disk is
/// seeded with.
pub proof fn the_runtime_is_on_the_disk(i: int)
    requires
        0 <= i < runtime_sources().len(),
    ensures
        runtime_paths().contains(runtime_sources()[i]),
{
    assert(runtime_sources()[i] == runtime_paths()[9 + i]);
}

/// A compilation succeeds exactly if all of its calls do, and only then there
/// is a program. What the compiler complained of is kept, and
/// where it said nothing, the call that failed is named.
pub proof fn failures_are_explained(
    output: Seq<char>,
    outcome: Outcome<Seq<char>>,
    diagnostics: Seq<char>,
    file: Seq<char>,
)
    ensures
        ({
            let r = concluded(output, outcome, diagnostics);
            &&& r.ok <==> outcome is Finished
            &&& r.output == if r.ok { Some(output) } else { None }
            &&& diagnostics.len() > 0 && !(outcome is NoCompiler) ==> r.diagnostics == diagnostics
            &&& !r.ok ==> r.diagnostics.len() > 0
            &&& diagnostics.len() == 0 && outcome == Outcome::Failed(Call::Source(file))
                ==> text::has_suffix(r.diagnostics, file)
            &&& diagnostics.len() == 0 && outcome == Outcome::Failed(Call::Runtime(file))
                ==> text::has_suffix(r.diagnostics, file)
        }),
{
    reveal_strlit("cc: tcc_new failed");
    reveal_strlit("cc: tcc_set_output_type failed");
    reveal_strlit("cc: failed to add runtime ");
    reveal_strlit("cc: failed to compile ");
    reveal_strlit("cc: link failed");
    let a = "cc: failed to compile "@ + file;
    assert(a.skip(a.len() - file.len()) =~= file);
    let b = "cc: failed to add runtime "@ + file;
    assert(b.skip(b.len() - file.len()) =~= file);
}

/// What a function returned is the value; whatever else happens is an error,
/// and an unknown function is named.
pub proof fn values_come_from_the_function(
    source: Seq<char>,
    outcome: Outcome<Seq<char>>,
    value: Option<i32>,
    diagnostics: Seq<char>,
    v: i32,
    name: Seq<char>,
)
    ensures
        ({
            let r = eval_concluded(source, evaluated_of(outcome, value), diagnostics);
            &&& r == Ok::<i32, Seq<char>>(v) <==> outcome is Finished && value == Some(v)
            &&& outcome == Outcome::Failed(Call::Find(name)) ==> (r matches Err(e) && text::occurs(
                e,
                name,
            ))
            &&& diagnostics.len() > 0 && outcome == Outcome::Failed(Call::Compile(source)) ==> r
                == Err::<i32, Seq<char>>(diagnostics)
        }),
{
    let e = "undefined symbol '"@ + name + "'"@;
    assert(e.skip("undefined symbol '"@.len() as int).take(name.len() as int) =~= name);
}

/// A text is evaluated by compiling it, relocating it, and only then looking
/// for the function.
pub proof fn texts_are_compiled_before_they_are_run(source: Seq<char>, entry: Seq<char>, prints: bool)
    requires
        !source.contains('\0'),
        !entry.contains('\0'),
    ensures
        ({
            let c = eval_calls(source, entry, prints);
            let n = c.len();
            &&& n >= 4
            &&& c[n - 3] == Call::Compile(source)
            &&& c[n - 2] == Call::<Seq<char>>::Relocate
            &&& c[n - 1] == Call::Find(entry)
            &&& c.contains(Call::Symbol("printf"@)) <==> prints
            &&& c.contains(Call::Symbol("putchar"@)) <==> prints
        }),
{
    let c = eval_calls(source, entry, prints);
    if prints {
        assert(c[5] == Call::Symbol("printf"@));
        assert(c[4] == Call::Symbol("putchar"@));
    }
}

/// A format is printed up to its end, as it is.
pub proof fn formats_are_printed_up_to_their_end(a: Seq<u8>, rest: Seq<u8>)
    requires
        forall|i: int| 0 <= i < a.len() ==> #[trigger] a[i] != 0,
        a.len() <= 2049,
    ensures
        printed(a + seq![0u8] + rest).len() == a.len(),
        forall|i: int| 0 <= i < a.len() ==> #[trigger] printed(a + seq![0u8] + rest)[i] as int == a[i],
{
    lengths_stop_at_the_end(a, rest);
    let f = a + seq![0u8] + rest;
    assert forall|i: int| 0 <= i < a.len() implies #[trigger] printed(f)[i] as int == a[i] by {
        assert(f[i] == a[i]);
    }
}

proof fn lengths_stop_at_the_end(a: Seq<u8>, rest: Seq<u8>)
    requires
        forall|i: int| 0 <= i < a.len() ==> #[trigger] a[i] != 0,
    ensures
        print_len(a + seq![0u8] + rest) == a.len(),
    decreases a.len(),
{
    let f = a + seq![0u8] + rest;
    if a.len() == 0 {
        assert(f[0] == 0);
    } else {
        assert(f[0] == a[0]);
        let b = a.skip(1);
        assert forall|i: int| 0 <= i < b.len() implies #[trigger] b[i] != 0 by {
            assert(b[i] == a[i + 1]);
        }
        lengths_stop_at_the_end(b, rest);
        assert(f.skip(1) =~= b + seq![0u8] + rest);
    }
}

/// The folders of a file are made from the outside in, and each lies in the
/// one before it.
pub proof fn folders_are_made_from_the_outside_in(parts: Seq<Seq<char>>, built: Seq<char>, i: int)
    requires
        forall|k: int| 0 <= k < parts.len() ==> (#[trigger] parts[k]).len() > 0,
        0 <= i < parts.len(),
    ensures
        chain(parts, built).len() == parts.len(),
        chain(parts, built)[i] == (if i == 0 {
            built
        } else {
            chain(parts, built)[i - 1]
        }) + seq!['/'] + parts[i],
    decreases parts.len(),
{
    let b = built.push('/') + parts[0];
    let rest = parts.skip(1);
    assert(b =~= built + seq!['/'] + parts[0]);
    assert forall|k: int| 0 <= k < rest.len() implies (#[trigger] rest[k]).len() > 0 by {
        assert(rest[k] == parts[k + 1]);
    }
    if rest.len() > 0 {
        folders_are_made_from_the_outside_in(rest, b, if i > 0 { i - 1 } else { 0 });
        if i > 0 {
            assert(rest[i - 1] == parts[i]);
            assert(chain(parts, built)[i] == chain(rest, b)[i - 1]);
            if i > 1 {
                assert(chain(parts, built)[i - 1] == chain(rest, b)[i - 2]);
            }
        }
    } else {
        assert(chain(rest, b).len() == 0);
    }
}

} // verus!
