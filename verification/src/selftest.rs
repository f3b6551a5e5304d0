//! Shared bookkeeping for the self-tests that run at boot.
//!
//! Subsystems whose logic is pure — checksums, parsers, layout — exercise
//! themselves at boot and report a single line each.

use vstd::prelude::*;
use vstd::string::*;

use crate::text;
use crate::text::push_decimal;

verus! {

/// How many names of failing checks to keep. One is not enough to debug with,
/// and a suite that fails more than this has something structurally wrong.
pub const MAX_RECORDED: usize = 6;

pub struct Report {
    pub passed: usize,
    pub failed: usize,
    pub failures: Vec<&'static str>,
}

pub ghost struct ReportModel {
    pub passed: nat,
    pub failed: nat,
    pub failures: Seq<Seq<char>>,
}

pub open spec fn names(v: Seq<&'static str>) -> Seq<Seq<char>> {
    v.map_values(|s: &'static str| s@)
}

impl View for Report {
    type V = ReportModel;

    open spec fn view(&self) -> ReportModel {
        ReportModel {
            passed: self.passed as nat,
            failed: self.failed as nat,
            failures: names(self.failures@),
        }
    }
}

/// The first few of a list of names.
pub open spec fn recorded(v: Seq<Seq<char>>) -> Seq<Seq<char>> {
    if v.len() <= MAX_RECORDED {
        v
    } else {
        v.take(MAX_RECORDED as int)
    }
}

impl ReportModel {
    pub open spec fn wf(self) -> bool {
        self.failures.len() == (if self.failed <= MAX_RECORDED {
            self.failed
        } else {
            MAX_RECORDED as nat
        })
    }

    #[verifier::opaque]
    pub open spec fn checked(self, name: Seq<char>, ok: bool) -> ReportModel {
        if ok {
            ReportModel { passed: self.passed + 1, ..self }
        } else {
            ReportModel {
                failed: self.failed + 1,
                failures: recorded(self.failures.push(name)),
                ..self
            }
        }
    }

    pub open spec fn merged(self, other: ReportModel) -> ReportModel {
        ReportModel {
            passed: self.passed + other.passed,
            failed: self.failed + other.failed,
            failures: recorded(self.failures + other.failures),
        }
    }

    /// The names that failed, with a count of any beyond the ones kept.
    pub open spec fn summary(self) -> Seq<char> {
        text::joined(self.failures, ", "@) + (if self.failed > self.failures.len() {
            ", and "@ + text::decimal((self.failed - self.failures.len()) as nat) + " more"@
        } else {
            Seq::empty()
        })
    }
}

pub open spec fn clean() -> ReportModel {
    ReportModel { passed: 0, failed: 0, failures: Seq::empty() }
}

impl Report {
    pub fn new() -> (r: Self)
        ensures
            r@ == clean(),
            r@.wf(),
    {
        let r = Report { passed: 0, failed: 0, failures: Vec::new() };
        assert(r@.failures =~= Seq::empty());
        r
    }

    pub fn check(&mut self, name: &'static str, ok: bool)
        requires
            old(self)@.wf(),
            old(self)@.passed < usize::MAX,
            old(self)@.failed < usize::MAX,
        ensures
            final(self)@ == old(self)@.checked(name@, ok),
            final(self)@.wf(),
            final(self)@.passed + final(self)@.failed == old(self)@.passed + old(self)@.failed + 1,
    {
        proof {
            reveal(ReportModel::checked);
        }
        if ok {
            self.passed = self.passed + 1;
            return;
        }
        self.failed = self.failed + 1;
        let ghost before = self.failures@;
        assert(names(before).len() == before.len());
        if self.failures.len() < MAX_RECORDED {
            self.failures.push(name);
            assert(names(self.failures@) =~= names(before).push(name@));
        } else {
            assert(recorded(names(before).push(name@)) =~= names(before));
        }
    }

    /// Fold another suite's results into this one, so that a module built
    /// from several files reports one line.
    pub fn merge(&mut self, other: Report)
        requires
            old(self)@.wf(),
            other@.wf(),
            old(self)@.passed + other@.passed <= usize::MAX,
            old(self)@.failed + other@.failed <= usize::MAX,
        ensures
            final(self)@ == old(self)@.merged(other@),
            final(self)@.wf(),
    {
        self.passed = self.passed + other.passed;
        self.failed = self.failed + other.failed;
        let ghost first = names(self.failures@);
        let ghost all = names(other.failures@);
        let mut i: usize = 0;
        assert(all.len() == other.failures@.len());
        assert(first.len() == self.failures@.len());
        assert(first + all.take(0) =~= first);
        assert(recorded(first) == first);
        while i < other.failures.len()
            invariant
                i <= other.failures@.len(),
                all == names(other.failures@),
                all.len() == other.failures@.len(),
                first.len() <= MAX_RECORDED,
                names(self.failures@) == recorded(first + all.take(i as int)),
                self.passed == old(self)@.passed + other.passed,
                self.failed == old(self)@.failed + other.failed,
            decreases other.failures@.len() - i,
        {
            let ghost before = self.failures@;
            assert(names(before).len() == before.len());
            assert(first + all.take(i + 1) =~= (first + all.take(i as int)).push(all[i as int]));
            if self.failures.len() < MAX_RECORDED {
                self.failures.push(other.failures[i]);
                assert(names(self.failures@) =~= names(before).push(all[i as int]));
                assert(names(self.failures@) =~= recorded(first + all.take(i + 1)));
            } else {
                assert(names(before) =~= recorded(first + all.take(i + 1)));
            }
            i = i + 1;
        }
        assert(all.take(i as int) =~= all);
    }

    /// The names that failed, comma-separated, with a count of any beyond the
    /// ones kept.
    pub fn failure_summary(&self) -> (r: String)
        requires
            self@.wf(),
        ensures
            r@ == self@.summary(),
    {
        let mut out = String::new();
        let mut i: usize = 0;
        let ghost all = names(self.failures@);
        assert(all.len() == self.failures@.len());
        assert(out@ =~= text::joined(all.take(0), ", "@));
        while i < self.failures.len()
            invariant
                i <= self.failures@.len(),
                all == names(self.failures@),
                all.len() == self.failures@.len(),
                out@ == text::joined(all.take(i as int), ", "@),
            decreases self.failures@.len() - i,
        {
            if i > 0 {
                out.append(", ");
            }
            out.append(self.failures[i]);
            proof {
                assert(all.take(i + 1).drop_last() =~= all.take(i as int));
                assert(all.take(i + 1).last() == self.failures@[i as int]@);
                assert(out@ =~= text::joined(all.take(i + 1), ", "@));
            }
            i = i + 1;
        }
        assert(all.take(i as int) =~= all);
        let hidden: usize = self.failed - self.failures.len();
        if hidden > 0 {
            out.append(", and ");
            push_decimal(&mut out, hidden as u64);
            out.append(" more");
        }
        assert(out@ =~= self@.summary());
        out
    }
}

/// Nothing that was checked is lost: every check is counted once, and merging
/// two suites counts what both of them counted.
pub proof fn every_check_counts(a: ReportModel, b: ReportModel, name: Seq<char>, ok: bool)
    ensures
        a.checked(name, ok).passed + a.checked(name, ok).failed == a.passed + a.failed + 1,
        a.merged(b).passed + a.merged(b).failed == a.passed + a.failed + b.passed + b.failed,
{
    reveal(ReportModel::checked);
}

} // verus!
