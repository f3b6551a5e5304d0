//! Planning compilations and reading their outcome.

use os101::tcc;
use os101::tcc::selftest::{millis_of_ticks, programs, run, Answers};
use os101::tcc::{Call, Evaluated, Outcome, SeedAsk, SeedSaid, Seeding, Turn};

fn args(v: &[&str]) -> Vec<String> {
    v.iter().map(|s| s.to_string()).collect()
}

#[test]
fn arguments_become_a_plan() {
    let p = tcc::plan(&args(&["-o", "/bin/x", "a.c", "-DDEBUG"])).unwrap();
    assert_eq!(p.output, "/bin/x");
    assert_eq!(p.sources, args(&["a.c"]));
    assert!(tcc::plan(&args(&["-o"])).is_err());
    assert!(tcc::plan(&args(&[])).is_err());
    assert_eq!(tcc::program_path("/src/hello.c"), "/src/hello");
}

#[test]
fn compiling_ends_with_the_output() {
    match tcc::compile(&args(&["-o", "/x", "/a.c"])) {
        Ok(job) => {
            assert_eq!(job.output, "/x");
            assert!(job.calls.iter().any(|c| matches!(c, Call::Source(s) if s == "/a.c")));
        }
        Err(_) => panic!("a plan with a source compiles"),
    }
    assert!(tcc::compile(&args(&[])).is_err());
    let done = tcc::conclude("/x", &Outcome::Finished, "");
    assert!(done.ok);
    assert_eq!(done.output_path, Some("/x".to_string()));
    let none = tcc::conclude("/x", &Outcome::NoCompiler, "");
    assert!(!none.ok && none.output_path.is_none());
}

#[test]
fn diagnostics_are_lines() {
    let mut s = String::new();
    tcc::add_diagnostic(&mut s, &b"a.c:1: error".to_vec());
    tcc::add_diagnostic(&mut s, &b"a.c:2: error".to_vec());
    assert!(s.contains("a.c:1: error") && s.contains("a.c:2: error"));
}

#[test]
fn evaluations_give_numbers_or_reasons() {
    assert_eq!(tcc::eval_conclude("s", &Evaluated::Value(7), ""), Ok(7));
    assert!(tcc::eval_conclude("s", &Evaluated::NoCompiler, "").is_err());
    assert!(tcc::eval_conclude("s", &Evaluated::Stopped, "bad").is_err());
}

#[test]
fn printing_reads_up_to_a_zero() {
    let mut out = String::new();
    tcc::print_format(&mut out, &b"hi\0there".to_vec());
    assert_eq!(out, "hi");
    tcc::print_char(&mut out, 33);
    assert_eq!(out, "hi!");
}

/// Seed a disk: how many files were written, or why one could not be.
fn seed(
    mut s: Seeding,
    paths: &[String],
    disk: &mut Vec<String>,
    refused: &str,
) -> Result<usize, String> {
    loop {
        match s.ask() {
            SeedAsk::Look(i) => s.answer(SeedSaid::Found(disk.contains(&paths[i]))),
            SeedAsk::Write(i, folders) => {
                assert_eq!(folders, tcc::folders(&paths[i]));
                if paths[i] == refused {
                    s.answer(SeedSaid::Written(Err("disk full".to_string())));
                } else {
                    assert!(!disk.contains(&paths[i]));
                    disk.push(paths[i].clone());
                    s.answer(SeedSaid::Written(Ok(())));
                }
            }
            SeedAsk::Done(r) => return r,
        }
    }
}

#[test]
fn seeding_fills_the_gaps_again_and_again() {
    let all = tcc::runtime_files();
    assert_eq!(all.len(), 18);
    let mut disk = args(&["/disk/include/stdio.h", "/disk/mine.c"]);
    // A first run that fails half way is taken up by the next.
    let end = seed(tcc::seed_toolchain(), &all, &mut disk, "/disk/lib/crt0.c");
    assert_eq!(end, Err("disk full".to_string()));
    assert_eq!(disk.len(), 2 + 8);
    assert_eq!(seed(tcc::seed_toolchain(), &all, &mut disk, ""), Ok(9));
    assert!(all.iter().all(|p| disk.contains(p)));
    assert_eq!(seed(tcc::seed_toolchain(), &all, &mut disk, ""), Ok(0));
    // What was removed comes back.
    disk.retain(|p| p != "/disk/lib/malloc.c");
    assert_eq!(seed(tcc::seed_toolchain(), &all, &mut disk, ""), Ok(1));
    // Only what belongs on the disk is looked at.
    let other = args(&["/usr/a", "/disk/b", "/usr/c"]);
    assert_eq!(seed(Seeding::new(other.clone()), &other, &mut disk, ""), Ok(1));
    assert!(!disk.contains(&"/usr/a".to_string()));
    assert_eq!(tcc::folders("/a/b/c.h"), args(&["/a", "/a/b"]));
}

#[test]
fn the_compiler_checks_are_judged() {
    let a = Answers {
        arithmetic: None,
        sum: None,
        structure: None,
        pointer: None,
        recursion: None,
        putchar: None,
        syntax: None,
        timed: None,
    };
    let r = run(true, &a);
    assert!(r.failed > 0);
    assert_eq!(millis_of_ticks(9, 27), 1_000);
    assert_eq!(millis_of_ticks(9, 8), 0);
}

#[test]
fn there_are_eight_programs_to_compile() {
    let p = programs();
    assert_eq!(p.len(), 8);
    assert_eq!(p[0].source, "int test(void){ return 6*7+1; }\n");
    assert!(!p[0].prints);
    assert!(p.iter().any(|q| q.prints));
    for q in &p {
        assert!(q.source.contains("test"));
    }
}

/// Make the calls of a list, of which those at `bad` fail: which were made, and
/// how it ended.
fn play(calls: &Vec<Call>, ready: bool, bad: &[usize]) -> (Vec<usize>, Outcome) {
    let mut made = Vec::new();
    let mut turn = tcc::first_call(calls, ready);
    loop {
        match turn {
            Turn::Make(i) => {
                made.push(i);
                turn = tcc::next_call(calls, i, !bad.contains(&i));
            }
            Turn::Over(o) => return (made, o),
        }
    }
}

#[test]
fn compiling_stops_where_a_call_had_to_succeed() {
    let job = match tcc::compile(&args(&["-o", "/x", "/a.c", "/b.c"])) {
        Ok(job) => job,
        Err(_) => panic!("a plan with a source compiles"),
    };
    let n = job.calls.len();
    let (made, end) = play(&job.calls, true, &[]);
    assert_eq!(made, (0..n).collect::<Vec<_>>());
    assert!(matches!(end, Outcome::Finished));
    let (made, end) = play(&job.calls, false, &[]);
    assert!(made.is_empty() && matches!(end, Outcome::NoCompiler));
    let paths: Vec<usize> = (0..n).filter(|i| !tcc::is_fatal(&job.calls[*i])).collect();
    assert!(paths.len() > 3);
    let (made, end) = play(&job.calls, true, &paths);
    assert!(made.len() == n && matches!(end, Outcome::Finished));
    let a = job.calls.iter().position(|c| matches!(c, Call::Source(s) if s == "/a.c")).unwrap();
    let (made, end) = play(&job.calls, true, &[0, a, n - 1]);
    assert_eq!(made, (0..=a).collect::<Vec<_>>());
    let r = tcc::conclude(&job.output, &end, "");
    assert!(!r.ok && r.diagnostics == "cc: failed to compile /a.c");
    assert!(matches!(end, Outcome::Failed(Call::Source(s)) if s == "/a.c"));
}

#[test]
fn evaluations_end_as_their_calls_do() {
    let calls = tcc::eval_i32("int f(void){return 1;}", "f");
    let (made, end) = play(&calls, true, &[]);
    assert_eq!(made.len(), calls.len());
    assert!(matches!(tcc::evaluated(end, Some(1)), Evaluated::Value(1)));
    let (_, end) = play(&calls, true, &[calls.len() - 1]);
    let r = tcc::eval_conclude("s", &tcc::evaluated(end, None), "");
    assert_eq!(r, Err("undefined symbol 'f'".to_string()));
    assert!(matches!(tcc::evaluated(Outcome::NoCompiler, None), Evaluated::NoCompiler));
    assert!(matches!(tcc::evaluated(Outcome::Finished, None), Evaluated::Stopped));
}
