//! The script host: native slots, arguments, time limits and jobs.

use os101::quickjs::{
    answer, check_stack, eval_standalone, registered_natives, standalone_result, take_exception,
    Answer, ArgValue,
    Args, Deadline, Engine, Made, Natives, Numeric, Pump, PumpStep, Thrown, DEFAULT_MEMORY_LIMIT,
    DEFAULT_STACK_SIZE, MAX_JOBS_PER_PUMP, MAX_NATIVES, MAX_STACK_SIZE,
};
use os101::quickjs::{scripts, selftest};
use os101::selftest::Report;

#[test]
fn slots_are_claimed_shared_and_released() {
    let mut n = Natives::new();
    let a = n.claim_slot(100).unwrap();
    let b = n.claim_slot(200).unwrap();
    assert_ne!(a, b);
    assert_eq!(n.claim_slot(100), Some(a));
    assert_eq!(registered_natives(&n), 2);
    assert_eq!(n.dispatch(a as i32), Some(100));
    n.release_slot(a);
    assert_eq!(n.dispatch(a as i32), Some(100));
    n.release_slot(a);
    assert_eq!(n.dispatch(a as i32), None);
    assert_eq!(n.dispatch(-1), None);
    assert_eq!(n.dispatch(10_000), None);
    assert_eq!(registered_natives(&n), 1);
}

#[test]
fn the_table_has_an_end() {
    let mut n = Natives::new();
    for i in 0..MAX_NATIVES {
        assert!(n.claim_slot(i as u64).is_some());
    }
    assert_eq!(n.claim_slot(9_999), None);
}

#[test]
fn closing_an_engine_gives_its_slots_back() {
    let mut n = Natives::new();
    let mut d = Deadline::new();
    let mut e = Engine::new(Made::Ready, &mut d).ok().unwrap();
    assert_eq!((e.stack_size, e.memory_limit), (DEFAULT_STACK_SIZE, DEFAULT_MEMORY_LIMIT));
    let slot = e.register_global(&mut n, "print", 1).unwrap();
    assert!(e.registered(&mut n, slot, true).is_ok());
    let slot = e.register_global(&mut n, "sum", 2).unwrap();
    assert!(e.registered(&mut n, slot, false).is_err());
    assert_eq!(registered_natives(&n), 1);
    e.close(&mut n, &mut d);
    assert_eq!(registered_natives(&n), 0);
}

#[test]
fn engines_can_fail_to_be_made() {
    let mut d = Deadline::new();
    assert!(Engine::new(Made::NoRuntime, &mut d).is_err());
    assert!(Engine::new(Made::NoContext, &mut d).is_err());
    assert!(check_stack(MAX_STACK_SIZE).is_ok());
    assert!(check_stack(MAX_STACK_SIZE + 1).is_err());
    assert!(Engine::with_limits(MAX_STACK_SIZE + 1, 1, Made::Ready, &mut d).is_err());
}

fn arg(text: Option<&str>, number: Numeric) -> ArgValue {
    ArgValue { text: text.map(|s| s.to_string()), number }
}

#[test]
fn arguments_are_read() {
    let a = Args {
        values: vec![
            arg(Some("x"), Numeric::Finite { whole: 3, zero: false }),
            arg(None, Numeric::NotANumber),
            arg(Some(""), Numeric::Thrown),
        ],
    };
    assert_eq!(a.len(), 3);
    assert!(!a.is_empty());
    assert_eq!(a.string(0), Some("x".to_string()));
    assert_eq!(a.string(1), None);
    assert_eq!(a.string(9), None);
    assert_eq!(a.integer(0, -1), 3);
    assert_eq!(a.integer(2, -1), -1);
    assert_eq!(a.integer(9, 5), 5);
    assert!(a.boolean(0));
    assert!(!a.boolean(9));
    // `Boolean(NaN)` is false, `Boolean(Infinity)` is true.
    assert!(!a.boolean(1));
    assert_eq!(a.integer(1, 7), 7);
    let zero = Numeric::Finite { whole: 0, zero: true };
    let more = Args {
        values: vec![
            arg(None, Numeric::Infinite { whole: i64::MAX }),
            arg(None, zero),
            arg(None, Numeric::Finite { whole: 0, zero: false }),
        ],
    };
    assert!(more.boolean(0) && !more.boolean(1) && more.boolean(2));
    assert_eq!(more.integer(0, 7), 7);
}

#[test]
fn time_limits_interrupt() {
    let mut d = Deadline::new();
    assert!(!d.interrupt_poll(u64::MAX - 1));
    let e = Engine::new(Made::Ready, &mut d).ok().unwrap();
    e.set_time_limit(&mut d, 1_000, 500);
    assert!(!d.interrupt_poll(1_400));
    assert!(d.interrupt_poll(1_600));
    e.clear_time_limit(&mut d);
    assert!(!d.interrupt_poll(1_600));
    let mut d = Deadline::new();
    assert!(eval_standalone(Made::Ready, &mut d, 0).is_ok());
    assert!(d.interrupt_poll(5_000_001));
}

#[test]
fn jobs_are_pumped_until_none_is_left() {
    let mut d = Deadline::new();
    let e = Engine::new(Made::Ready, &mut d).ok().unwrap();
    let mut p = Pump::new();
    assert_eq!(e.pump_jobs(&mut p, 1), PumpStep::More);
    assert_eq!(e.pump_jobs(&mut p, 1), PumpStep::More);
    assert_eq!(e.pump_jobs(&mut p, 0), PumpStep::Drained(2));
    let mut p = Pump::new();
    assert_eq!(e.pump_jobs(&mut p, -1), PumpStep::Threw);
    let mut p = Pump { ran: MAX_JOBS_PER_PUMP };
    assert_eq!(e.pump_jobs(&mut p, 1), PumpStep::Stuck);
}

#[test]
fn outcomes_become_text() {
    let mut d = Deadline::new();
    let e = Engine::new(Made::Ready, &mut d).ok().unwrap();
    assert!(e.eval("a\0b", "f").is_err());
    assert!(e.eval("1", "f\0").is_err());
    assert!(e.eval("1", "f").is_ok());
    assert!(e.call_global("f\0").is_err());
    assert!(e.call_global("f").is_ok());
    assert_eq!(answer(Answer::Value(Some("5".to_string()))), Ok("5".to_string()));
    assert!(answer(Answer::Exception(Thrown::Text("boom".to_string()))).is_err());
    assert_eq!(take_exception(Thrown::Text("boom".to_string())), "boom");
    assert_eq!(
        e.eval_settled(Ok("1".to_string()), Err("late".to_string())),
        Err("late".to_string())
    );
    assert_eq!(e.eval_settled(Ok("1".to_string()), Ok(3)), Ok("1".to_string()));
}

#[test]
fn script_checks_are_judged() {
    let cases = selftest::language();
    assert!(!cases.is_empty());
    let outcomes: Vec<Result<String, String>> =
        cases.iter().map(|_| Err("nothing ran".to_string())).collect();
    let mut r = Report::new();
    selftest::judge(&mut r, &cases, &outcomes);
    assert_eq!(r.passed + r.failed, cases.len());
    assert!(r.failed > 0);
    assert_eq!(selftest::deep_parens().len() > 5_000, true);
}

#[test]
fn reports_count_and_remember() {
    let mut r = Report::new();
    r.check("good", true);
    for _ in 0..8 {
        r.check("bad", false);
    }
    assert_eq!((r.passed, r.failed, r.failures.len()), (1, 8, 6));
    assert_eq!(r.failure_summary(), "bad, bad, bad, bad, bad, bad, and 2 more");
    let mut other = Report::new();
    other.check("x", false);
    other.merge(r);
    assert_eq!((other.passed, other.failed), (1, 9));
}

#[test]
fn engines_that_share_functions_share_their_slots() {
    let mut n = Natives::new();
    let mut d = Deadline::new();
    let start = registered_natives(&n);
    let mut engines = Vec::new();
    for _ in 0..8 {
        let mut e = Engine::new(Made::Ready, &mut d).ok().unwrap();
        for f in [1, 2] {
            let slot = e.register_global(&mut n, "f", f).unwrap();
            assert!(e.registered(&mut n, slot, true).is_ok());
        }
        assert_eq!(registered_natives(&n), start + 2);
        engines.push(e);
    }
    for e in engines {
        assert_eq!(registered_natives(&n), start + 2);
        e.close(&mut n, &mut d);
    }
    assert_eq!(registered_natives(&n), start);
}

#[test]
fn a_line_leaves_no_deadline_and_no_function() {
    let mut n = Natives::new();
    let mut d = Deadline::new();
    let mut e = eval_standalone(Made::Ready, &mut d, 100).ok().unwrap();
    assert_ne!(d.at, Deadline::new().at);
    let slot = e.register_global(&mut n, "f", 7).unwrap();
    assert!(e.registered(&mut n, slot, true).is_ok());
    let r = standalone_result(e, Ok("42".to_string()), &mut n, &mut d);
    assert_eq!(r, Ok("42".to_string()));
    assert_eq!(d.at, Deadline::new().at);
    assert_eq!(registered_natives(&n), 0);
    let e = eval_standalone(Made::Ready, &mut d, 200).ok().unwrap();
    let r = standalone_result(e, Err("ReferenceError".to_string()), &mut n, &mut d);
    assert_eq!(r, Err("ReferenceError".to_string()));
    assert_eq!(d.at, Deadline::new().at);
}

#[test]
fn without_an_engine_one_check_fails() {
    let l = selftest::Layout {
        c_size: 16,
        c_align: 8,
        size: 16,
        align: 8,
        payload: selftest::PAYLOAD,
        tag: selftest::TAG,
        agreed: true,
    };
    let r = selftest::run(l, &Err("the engine would not start"));
    assert_eq!(r.failed, 1);
    assert_eq!(r.failures, vec!["the engine would not start"]);
    assert!(r.passed > 0);
}

#[test]
fn scripts_are_written_out() {
    let c = scripts::calling_scripts();
    assert_eq!(c.len(), 2);
    assert_eq!(c[0].source, "globalThis.echo = function (x) { return x * 2 }; 1");
    assert_eq!(c[0].name, "call_global");
    assert_eq!(scripts::clock_scripts()[0].source, "Date.now()");
    assert!(scripts::cycle_script(31).ends_with("exec('page-31')[2]"));
}
