//! The host side of the script engine: which functions a script may call, how
//! long it may run, and what is made of its answers. The engine itself is run
//! by the program around this library.
//!
//! # Jobs
//!
//! Promises and `async` functions do not run to completion inside an
//! evaluation. They queue a job, and the queue has to be drained: [`Pump`] says
//! when to stop.
//!
//! # Time
//!
//! An engine has no deadline until one is set. The limit is an absolute
//! instant and not a stopwatch: it has to be set again before each evaluation.

use vstd::multiset::Multiset;
use vstd::prelude::*;
use vstd::string::*;

use crate::text;
use crate::text::chars_of;

pub mod scripts;
pub mod selftest;

verus! {

/// The stack budget an engine is given, in bytes.
pub const DEFAULT_STACK_SIZE: usize = 262_144;

/// The most any engine may ask for: the whole kernel stack is 1 MiB.
pub const MAX_STACK_SIZE: usize = 524_288;

/// The heap budget an engine is given, in bytes.
pub const DEFAULT_MEMORY_LIMIT: usize = 8_388_608;

/// How many native functions may be exposed to scripts at once, across every
/// live engine.
pub const MAX_NATIVES: usize = 192;

/// The number of jobs one drain will run before deciding that the queue is
/// not going to empty.
pub const MAX_JOBS_PER_PUMP: usize = 10_000;

/// How long a line typed at the shell may run.
pub const STANDALONE_BUDGET_MICROS: u64 = 5_000_000;

/// No deadline.
pub const NO_DEADLINE: u64 = 0xffff_ffff_ffff_ffff;

// ── Native functions ────────────────────────────────────────────────────────

/// One exposed function, and how many engines are exposing it. Two engines
/// that register the same function share a slot.
#[derive(Clone, Copy, Debug, PartialEq, Eq, Structural)]
pub struct Slot {
    /// The function, by its address.
    pub function: u64,
    pub users: u64,
}

/// The table of exposed functions: a script knows a function by its slot.
pub struct Natives {
    pub table: Vec<Option<Slot>>,
}

pub type Table = Seq<Option<Slot>>;

impl View for Natives {
    type V = Table;

    open spec fn view(&self) -> Table {
        self.table@
    }
}

/// Every slot in use has a user, and no function is in two slots.
pub open spec fn sound(t: Table) -> bool {
    &&& t.len() == MAX_NATIVES
    &&& forall|i: int| 0 <= i < t.len() ==> (#[trigger] t[i] matches Some(s) ==> s.users >= 1)
    &&& forall|i: int, j: int|
        0 <= i < j < t.len() && #[trigger] t[i] is Some && #[trigger] t[j] is Some ==> (
        t[i]->0).function != (t[j]->0).function
}

/// How many engines use a slot.
pub open spec fn users(t: Table, i: int) -> int {
    match t[i] {
        Some(s) => s.users as int,
        None => 0,
    }
}

/// How many slots are in use.
pub open spec fn in_use(t: Table) -> nat
    decreases t.len(),
{
    if t.len() == 0 {
        0
    } else {
        in_use(t.drop_last()) + (if t.last() is Some {
            1nat
        } else {
            0
        })
    }
}

/// Whether a slot holds this function.
pub open spec fn holds(t: Table, i: int, function: u64) -> bool {
    t[i] matches Some(s) && s.function == function
}

/// The slot for a function: the one that has it already, or else the first
/// free one.
pub open spec fn is_slot_for(t: Table, function: u64, i: int) -> bool {
    &&& 0 <= i < t.len()
    &&& holds(t, i, function) || (t[i] is None && (forall|j: int|
        0 <= j < t.len() ==> !#[trigger] holds(t, j, function)) && (forall|j: int|
        0 <= j < i ==> #[trigger] t[j] is Some))
}

/// The table once one more engine uses the function of slot `i`.
pub open spec fn claimed(t: Table, function: u64, i: int) -> Table {
    t.update(
        i,
        Some(
            Slot {
                function,
                users: (users(t, i) + 1) as u64,
            },
        ),
    )
}

/// The table once one engine less uses slot `i`.
pub open spec fn released(t: Table, i: int) -> Table {
    if 0 <= i < t.len() {
        match t[i] {
            Some(s) if s.users > 1 => t.update(
                i,
                Some(Slot { users: (s.users - 1) as u64, ..s }),
            ),
            _ => t.update(i, None),
        }
    } else {
        t
    }
}

impl Natives {
    pub fn new() -> (r: Self)
        ensures
            r@ == Seq::new(MAX_NATIVES as nat, |i: int| None::<Slot>),
            sound(r@),
    {
        let mut table: Vec<Option<Slot>> = Vec::new();
        let mut i: usize = 0;
        while i < MAX_NATIVES
            invariant
                i <= MAX_NATIVES,
                table@ == Seq::new(i as nat, |j: int| None::<Slot>),
            decreases MAX_NATIVES - i,
        {
            table.push(None);
            i = i + 1;
            assert(table@ =~= Seq::new(i as nat, |j: int| None::<Slot>));
        }
        Natives { table }
    }

    fn find(&self, function: u64) -> (r: Option<usize>)
        ensures
            match r {
                Some(i) => i < self@.len() && holds(self@, i as int, function),
                None => forall|j: int|
                    0 <= j < self@.len() ==> !#[trigger] holds(self@, j, function),
            },
    {
        let mut i: usize = 0;
        while i < self.table.len()
            invariant
                i <= self.table@.len(),
                forall|j: int| 0 <= j < i ==> !#[trigger] holds(self@, j, function),
            decreases self.table@.len() - i,
        {
            if let Some(s) = self.table[i] {
                if s.function == function {
                    assert(holds(self@, i as int, function));
                    return Some(i);
                }
            }
            i = i + 1;
        }
        None
    }

    fn first_free(&self) -> (r: Option<usize>)
        ensures
            match r {
                Some(i) => i < self@.len() && self@[i as int] is None && forall|j: int|
                    0 <= j < i ==> #[trigger] self@[j] is Some,
                None => forall|j: int| 0 <= j < self@.len() ==> #[trigger] self@[j] is Some,
            },
    {
        let mut i: usize = 0;
        while i < self.table.len()
            invariant
                i <= self.table@.len(),
                forall|j: int| 0 <= j < i ==> #[trigger] self@[j] is Some,
            decreases self.table@.len() - i,
        {
            if self.table[i].is_none() {
                return Some(i);
            }
            i = i + 1;
        }
        None
    }

    /// Expose a function. `None` where the table is full.
    pub fn claim_slot(&mut self, function: u64) -> (r: Option<usize>)
        requires
            sound(old(self)@),
            forall|i: int| 0 <= i < old(self)@.len() ==> users(old(self)@, i) < u64::MAX,
        ensures
            match r {
                Some(i) => {
                    &&& is_slot_for(old(self)@, function, i as int)
                    &&& final(self)@ == claimed(old(self)@, function, i as int)
                },
                None => {
                    &&& final(self)@ == old(self)@
                    &&& forall|i: int| !is_slot_for(old(self)@, function, i)
                },
            },
            sound(final(self)@),
    {
        if let Some(i) = self.find(function) {
            if let Some(s) = self.table[i] {
                assert(users(self@, i as int) < u64::MAX);
                self.table[i] = Some(Slot { function, users: s.users + 1 });
            }
            return Some(i);
        }
        if let Some(i) = self.first_free() {
            assert forall|j: int| 0 <= j < self@.len() && j != i && #[trigger] self@[j] is Some implies (
            self@[j]->0).function != function by {
                assert(!holds(self@, j, function));
            }
            self.table[i] = Some(Slot { function, users: 1 });
            return Some(i);
        }
        None
    }

    /// Give a slot back; it is free again once nobody uses it.
    pub fn release_slot(&mut self, slot: usize)
        requires
            sound(old(self)@),
        ensures
            final(self)@ == released(old(self)@, slot as int),
            sound(final(self)@),
    {
        if slot >= self.table.len() {
            return;
        }
        match self.table[slot] {
            Some(s) => {
                if s.users > 1 {
                    self.table[slot] = Some(Slot { function: s.function, users: s.users - 1 });
                } else {
                    self.table[slot] = None;
                }
            },
            None => {
                self.table[slot] = None;
            },
        }
    }

    /// The function that a script's call goes to, if the slot holds one.
    pub fn dispatch(&self, slot: i32) -> (r: Option<u64>)
        ensures
            r == (if 0 <= slot < self@.len() {
                match self@[slot as int] {
                    Some(s) => Some(s.function),
                    None => None,
                }
            } else {
                None
            }),
    {
        if slot < 0 || slot as usize >= self.table.len() {
            return None;
        }
        match self.table[slot as usize] {
            Some(s) => Some(s.function),
            None => None,
        }
    }
}

/// How many slots are in use.
pub fn registered_natives(natives: &Natives) -> (r: usize)
    ensures
        r == in_use(natives@),
{
    let mut n: usize = 0;
    let mut i: usize = 0;
    assert(natives@.take(0) =~= Seq::empty());
    while i < natives.table.len()
        invariant
            i <= natives.table@.len(),
            n <= i,
            n == in_use(natives@.take(i as int)),
        decreases natives.table@.len() - i,
    {
        proof {
            assert(natives@.take(i + 1).drop_last() =~= natives@.take(i as int));
            assert(natives@.take(i + 1).last() == natives@[i as int]);
        }
        if natives.table[i].is_some() {
            n = n + 1;
        }
        i = i + 1;
    }
    assert(natives@.take(i as int) =~= natives@);
    n
}

/// A function that is given back right after it was exposed leaves the table
/// as it was.
pub proof fn releasing_undoes_claiming(t: Table, function: u64, i: int)
    requires
        sound(t),
        is_slot_for(t, function, i),
        users(t, i) < u64::MAX,
    ensures
        released(claimed(t, function, i), i) == t,
{
    assert(released(claimed(t, function, i), i) =~= t);
}

/// Two engines that expose the same function share a slot, and the one that
/// goes first does not take it away from the other.
pub proof fn slots_are_shared(t: Table, function: u64, i: int, j: int)
    requires
        sound(t),
        is_slot_for(t, function, i),
        is_slot_for(claimed(t, function, i), function, j),
        users(t, i) < u64::MAX - 1,
    ensures
        i == j,
        released(claimed(claimed(t, function, i), function, j), j) == claimed(t, function, i),
        holds(released(claimed(claimed(t, function, i), function, j), j), i, function),
{
    let t1 = claimed(t, function, i);
    assert(holds(t1, i, function));
    if i != j {
        assert(holds(t1, j, function));
        assert(t1[j] == t[j]);
        assert(holds(t, j, function));
        if holds(t, i, function) {
            if i < j {
                assert(t[i] is Some && t[j] is Some);
            } else {
                assert(t[j] is Some && t[i] is Some);
            }
        }
    }
    assert(released(claimed(t1, function, j), j) =~= t1);
}

// ── Slots of an engine ──────────────────────────────────────────────────────

/// How often a slot occurs in a list.
pub open spec fn times_in(v: Seq<usize>, i: int) -> nat
    decreases v.len(),
{
    if v.len() == 0 {
        0
    } else {
        times_in(v.skip(1), i) + (if v[0] == i {
            1nat
        } else {
            0
        })
    }
}

/// The table with the slots of a list given back, one after the other.
pub open spec fn all_released(t: Table, v: Seq<usize>) -> Table
    decreases v.len(),
{
    if v.len() == 0 {
        t
    } else {
        all_released(released(t, v[0] as int), v.skip(1))
    }
}

/// The table `now` is what `then` was, with the slots of a list used once
/// more for each time that they occur in it.
pub open spec fn owes(now: Table, then: Table, v: Seq<usize>) -> bool {
    &&& now.len() == then.len()
    &&& forall|i: int|
        0 <= i < then.len() ==> #[trigger] users(now, i) == users(then, i) + times_in(v, i)
    &&& forall|i: int|
        0 <= i < then.len() && #[trigger] then[i] is Some ==> now[i] is Some && (
        now[i]->0).function == (then[i]->0).function
}

/// An engine that is closed leaves no slot behind, and takes none away from
/// the others: the table is as it was before the engine exposed anything.
pub proof fn closing_restores_the_table(now: Table, then: Table, v: Seq<usize>)
    requires
        sound(now),
        sound(then),
        owes(now, then, v),
        forall|k: int| 0 <= k < v.len() ==> (#[trigger] v[k]) < MAX_NATIVES,
    ensures
        all_released(now, v) == then,
    decreases v.len(),
{
    if v.len() == 0 {
        assert forall|i: int| 0 <= i < then.len() implies now[i] == then[i] by {
            assert(users(now, i) == users(then, i) + times_in(v, i));
            if then[i] is Some {
                assert((now[i]->0).function == (then[i]->0).function);
            }
        }
        assert(now =~= then);
    } else {
        let k = v[0] as int;
        let next = released(now, k);
        let rest = v.skip(1);
        assert(users(now, k) == users(then, k) + times_in(v, k));
        assert(times_in(v, k) >= 1);
        assert(now[k] is Some);
        assert forall|i: int| 0 <= i < then.len() implies #[trigger] users(next, i) == users(then, i)
            + times_in(rest, i) by {
            assert(users(now, i) == users(then, i) + times_in(v, i));
        }
        assert forall|i: int| 0 <= i < then.len() && #[trigger] then[i] is Some implies next[i] is Some
            && (next[i]->0).function == (then[i]->0).function by {
            assert(users(then, i) >= 1);
            assert(users(now, i) == users(then, i) + times_in(v, i));
            assert(now[i] is Some && (now[i]->0).function == (then[i]->0).function);
        }
        assert(sound(next)) by {
            assert forall|i: int| 0 <= i < next.len() implies (#[trigger] next[i] matches Some(s)
                ==> s.users >= 1) by {
                assert(now[i] matches Some(s) ==> s.users >= 1);
            }
            assert forall|i: int, j: int|
                0 <= i < j < next.len() && #[trigger] next[i] is Some && #[trigger] next[j] is Some implies (
            next[i]->0).function != (next[j]->0).function by {
                assert(now[i] is Some && now[j] is Some);
            }
        }
        assert forall|j: int| 0 <= j < rest.len() implies (#[trigger] rest[j]) < MAX_NATIVES by {
            assert(rest[j] == v[j + 1]);
        }
        closing_restores_the_table(next, then, rest);
    }
}

/// Exposing one more function adds one more slot to what the engine owes.
pub proof fn claims_are_owed(now: Table, then: Table, v: Seq<usize>, function: u64, i: int)
    requires
        sound(now),
        sound(then),
        owes(now, then, v),
        is_slot_for(now, function, i),
        users(now, i) < u64::MAX,
        0 <= i < MAX_NATIVES,
    ensures
        owes(claimed(now, function, i), then, v.push(i as usize)),
{
    let next = claimed(now, function, i);
    assert forall|k: int| 0 <= k < then.len() implies #[trigger] users(next, k) == users(then, k)
        + times_in(v.push(i as usize), k) by {
        times_in_push(v, i as usize, k);
        assert(users(now, k) == users(then, k) + times_in(v, k));
    }
    assert forall|k: int| 0 <= k < then.len() && #[trigger] then[k] is Some implies next[k] is Some && (
    next[k]->0).function == (then[k]->0).function by {
        assert(now[k] is Some && (now[k]->0).function == (then[k]->0).function);
    }
}

proof fn times_in_push(v: Seq<usize>, x: usize, i: int)
    ensures
        times_in(v.push(x), i) == times_in(v, i) + (if x == i {
            1nat
        } else {
            0
        }),
    decreases v.len(),
{
    if v.len() > 0 {
        assert(v.push(x).skip(1) =~= v.skip(1).push(x));
        times_in_push(v.skip(1), x, i);
    } else {
        assert(v.push(x).skip(1) =~= Seq::empty());
        assert(times_in(v.push(x).skip(1), i) == 0);
    }
}

// ── Counting functions ──────────────────────────────────────────────────────

/// The functions that slots hold.
pub open spec fn functions_of(t: Table) -> Set<u64> {
    Set::new(|f: u64| exists|i: int| 0 <= i < t.len() && #[trigger] holds(t, i, f))
}

/// Whether a table is what the live engines made it: each of the functions
/// that they registered is in a slot, with one user for each time that it was
/// registered, and no slot is in use otherwise.
pub open spec fn serves(t: Table, registered: Multiset<u64>) -> bool {
    &&& sound(t)
    &&& forall|i: int|
        0 <= i < t.len() ==> (#[trigger] t[i] matches Some(s) ==> registered.count(s.function)
            == s.users)
    &&& forall|f: u64| #[trigger]
        registered.count(f) > 0 ==> exists|i: int| 0 <= i < t.len() && #[trigger] holds(t, i, f)
}

proof fn distinct_functions(t: Table)
    requires
        forall|i: int, j: int|
            0 <= i < j < t.len() && #[trigger] t[i] is Some && #[trigger] t[j] is Some ==> (
            t[i]->0).function != (t[j]->0).function,
    ensures
        functions_of(t).finite(),
        functions_of(t).len() == in_use(t),
    decreases t.len(),
{
    if t.len() == 0 {
        assert(functions_of(t) =~= Set::empty());
    } else {
        let u = t.drop_last();
        let n = t.len() - 1;
        assert forall|i: int, j: int|
            0 <= i < j < u.len() && #[trigger] u[i] is Some && #[trigger] u[j] is Some implies (
        u[i]->0).function != (u[j]->0).function by {
            assert(t[i] is Some && t[j] is Some);
        }
        distinct_functions(u);
        match t.last() {
            Some(s) => {
                assert forall|f: u64| #[trigger]
                    functions_of(t).contains(f) == functions_of(u).insert(s.function).contains(f) by {
                    if functions_of(t).contains(f) {
                        let i = choose|i: int| 0 <= i < t.len() && #[trigger] holds(t, i, f);
                        if i < n {
                            assert(holds(u, i, f));
                        }
                    }
                    if functions_of(u).contains(f) {
                        let i = choose|i: int| 0 <= i < u.len() && #[trigger] holds(u, i, f);
                        assert(holds(t, i, f));
                    }
                    if f == s.function {
                        assert(holds(t, n, f));
                    }
                }
                assert(functions_of(t) =~= functions_of(u).insert(s.function));
                if functions_of(u).contains(s.function) {
                    let i = choose|i: int|
                        0 <= i < u.len() && #[trigger] holds(u, i, s.function);
                    assert(t[i] is Some && t[n] is Some);
                }
            },
            None => {
                assert forall|f: u64| #[trigger]
                    functions_of(t).contains(f) == functions_of(u).contains(f) by {
                    if functions_of(t).contains(f) {
                        let i = choose|i: int| 0 <= i < t.len() && #[trigger] holds(t, i, f);
                        assert(holds(u, i, f));
                    }
                    if functions_of(u).contains(f) {
                        let i = choose|i: int| 0 <= i < u.len() && #[trigger] holds(u, i, f);
                        assert(holds(t, i, f));
                    }
                }
                assert(functions_of(t) =~= functions_of(u));
            },
        }
    }
}

/// As many slots are in use as there are different functions on live engines,
/// however many engines or names share one.
pub proof fn slots_count_the_functions(t: Table, registered: Multiset<u64>)
    requires
        serves(t, registered),
    ensures
        in_use(t) == registered.dom().len(),
{
    distinct_functions(t);
    assert forall|f: u64| #[trigger]
        functions_of(t).contains(f) == registered.dom().contains(f) by {
        if functions_of(t).contains(f) {
            let i = choose|i: int| 0 <= i < t.len() && #[trigger] holds(t, i, f);
            assert(t[i] is Some);
        }
        if registered.count(f) > 0 {
            let i = choose|i: int| 0 <= i < t.len() && #[trigger] holds(t, i, f);
            assert(holds(t, i, f));
        }
    }
    assert(functions_of(t) =~= registered.dom());
}

/// The table that there is at first serves no function.
pub proof fn an_empty_table_serves_nobody()
    ensures
        serves(Seq::new(MAX_NATIVES as nat, |i: int| None::<Slot>), Multiset::empty()),
{
}

/// Registering a function once more is counted once more.
pub proof fn registering_is_counted(t: Table, registered: Multiset<u64>, function: u64, i: int)
    requires
        serves(t, registered),
        is_slot_for(t, function, i),
        users(t, i) < u64::MAX,
    ensures
        serves(claimed(t, function, i), registered.insert(function)),
{
    let u = claimed(t, function, i);
    if t[i] is None {
        if registered.count(function) > 0 {
            let k = choose|k: int| 0 <= k < t.len() && #[trigger] holds(t, k, function);
            assert(holds(t, k, function));
        }
    }
    assert forall|k: int| 0 <= k < t.len() && k != i && #[trigger] t[k] is Some implies (
    t[k]->0).function != function by {
        if t[i] is None {
            assert(!holds(t, k, function));
        } else if i < k {
            assert(t[i] is Some && t[k] is Some);
        } else {
            assert(t[k] is Some && t[i] is Some);
        }
    }
    assert forall|k: int| 0 <= k < u.len() implies (#[trigger] u[k] matches Some(s)
        ==> registered.insert(function).count(s.function) == s.users && s.users >= 1) by {
        if k != i {
            assert(u[k] == t[k]);
        }
    }
    assert forall|f: u64| #[trigger] registered.insert(function).count(f) > 0 implies exists|k: int|
        0 <= k < u.len() && #[trigger] holds(u, k, f) by {
        if f == function {
            assert(holds(u, i, f));
        } else {
            let k = choose|k: int| 0 <= k < t.len() && #[trigger] holds(t, k, f);
            assert(k != i);
            assert(holds(u, k, f));
        }
    }
    assert(sound(u)) by {
        assert forall|a: int, b: int|
            0 <= a < b < u.len() && #[trigger] u[a] is Some && #[trigger] u[b] is Some implies (
        u[a]->0).function != (u[b]->0).function by {
            if a != i && b != i {
                assert(t[a] is Some && t[b] is Some);
            } else if a == i {
                assert(t[b] is Some);
            } else {
                assert(t[a] is Some);
            }
        }
    }
}

/// Giving a slot back is counted: the function in it is registered once less.
pub proof fn releasing_is_counted(t: Table, registered: Multiset<u64>, i: int)
    requires
        serves(t, registered),
        0 <= i < t.len(),
        t[i] is Some,
    ensures
        serves(released(t, i), registered.remove((t[i]->0).function)),
{
    let f0 = (t[i]->0).function;
    let u = released(t, i);
    let left = registered.remove(f0);
    assert(registered.count(f0) == (t[i]->0).users);
    assert forall|k: int| 0 <= k < t.len() && k != i && #[trigger] t[k] is Some implies (
    t[k]->0).function != f0 by {
        if i < k {
            assert(t[i] is Some && t[k] is Some);
        } else {
            assert(t[k] is Some && t[i] is Some);
        }
    }
    assert forall|k: int| 0 <= k < u.len() implies (#[trigger] u[k] matches Some(s) ==> left.count(
        s.function,
    ) == s.users && s.users >= 1) by {
        if k != i {
            assert(u[k] == t[k]);
        }
    }
    assert forall|f: u64| #[trigger] left.count(f) > 0 implies exists|k: int|
        0 <= k < u.len() && #[trigger] holds(u, k, f) by {
        if f == f0 {
            assert(registered.count(f0) >= 2);
            assert(holds(u, i, f));
        } else {
            assert(registered.count(f) > 0);
            let k = choose|k: int| 0 <= k < t.len() && #[trigger] holds(t, k, f);
            assert(k != i);
            assert(holds(u, k, f));
        }
    }
    assert(sound(u)) by {
        assert forall|a: int, b: int|
            0 <= a < b < u.len() && #[trigger] u[a] is Some && #[trigger] u[b] is Some implies (
        u[a]->0).function != (u[b]->0).function by {
            assert(t[a] is Some && t[b] is Some);
        }
    }
}

/// The functions in a list of slots, each as often as its slot occurs.
pub open spec fn functions_in(t: Table, v: Seq<usize>) -> Multiset<u64>
    decreases v.len(),
{
    if v.len() == 0 {
        Multiset::empty()
    } else {
        functions_in(t, v.skip(1)).insert((t[v[0] as int]->0).function)
    }
}

/// Closing an engine is counted: the functions that it registered are gone
/// once each, and all others stay.
pub proof fn closing_is_counted(t: Table, others: Multiset<u64>, v: Seq<usize>)
    requires
        serves(t, others.add(functions_in(t, v))),
        forall|k: int| 0 <= k < v.len() ==> (#[trigger] v[k]) < t.len() && t[v[k] as int] is Some,
    ensures
        serves(all_released(t, v), others),
    decreases v.len(),
{
    if v.len() == 0 {
        assert(others.add(functions_in(t, v)) =~= others);
    } else {
        let i = v[0] as int;
        let f = (t[i]->0).function;
        let all = others.add(functions_in(t, v));
        let rest = v.skip(1);
        let u = released(t, i);
        assert(v[0] < t.len() && t[v[0] as int] is Some);
        releasing_is_counted(t, all, i);
        assert(all.remove(f) =~= others.add(functions_in(t, rest)));
        assert forall|k: int| 0 <= k < rest.len() implies (#[trigger] rest[k]) < u.len()
            && u[rest[k] as int] is Some by {
            assert(rest[k] == v[k + 1]);
            if rest[k] == i {
                in_the_list(t, rest, k);
                assert(all.count(f) >= 2);
                assert(all.count(f) == (t[i]->0).users);
            }
        }
        same_functions(t, u, rest);
        closing_is_counted(u, others, rest);
    }
}

proof fn in_the_list(t: Table, v: Seq<usize>, k: int)
    requires
        0 <= k < v.len(),
    ensures
        functions_in(t, v).count((t[v[k] as int]->0).function) >= 1,
    decreases v.len(),
{
    if k > 0 {
        in_the_list(t, v.skip(1), k - 1);
    }
}

proof fn same_functions(t: Table, u: Table, v: Seq<usize>)
    requires
        t.len() == u.len(),
        forall|k: int|
            0 <= k < v.len() ==> (#[trigger] v[k]) < t.len() && u[v[k] as int] is Some && (
            u[v[k] as int]->0).function == (t[v[k] as int]->0).function,
    ensures
        functions_in(t, v) == functions_in(u, v),
    decreases v.len(),
{
    if v.len() > 0 {
        assert(v[0] < t.len());
        assert forall|k: int| 0 <= k < v.skip(1).len() implies (#[trigger] v.skip(1)[k]) < t.len()
            && u[v.skip(1)[k] as int] is Some && (u[v.skip(1)[k] as int]->0).function == (
        t[v.skip(1)[k] as int]->0).function by {
            assert(v.skip(1)[k] == v[k + 1]);
        }
        same_functions(t, u, v.skip(1));
    }
}

// ── Arguments ───────────────────────────────────────────────────────────────

/// A script's value as a number, as far as the host looks at it.
#[derive(Clone, Copy, Debug, PartialEq, Eq, Structural)]
pub enum Numeric {
    /// The conversion threw.
    Thrown,
    /// No number at all.
    NotANumber,
    /// Infinite; as an integer it is the largest or the smallest one.
    Infinite { whole: i64 },
    /// What is left of it without its fraction, and whether it is zero.
    Finite { whole: i64, zero: bool },
}

/// A script's value, by the conversions that a host function asks for.
pub struct ArgValue {
    /// `String(x)`, unless that threw.
    pub text: Option<String>,
    /// `Number(x)`.
    pub number: Numeric,
}

/// The arguments of a call from a script into the host.
pub struct Args {
    pub values: Vec<ArgValue>,
}

pub open spec fn option_view(o: Option<String>) -> Option<Seq<char>> {
    match o {
        Some(s) => Some(s@),
        None => None,
    }
}

impl Args {
    pub fn len(&self) -> (r: usize)
        ensures
            r == self.values@.len(),
    {
        self.values.len()
    }

    pub fn is_empty(&self) -> (r: bool)
        ensures
            r == (self.values@.len() == 0),
    {
        self.values.len() == 0
    }

    /// An argument as a string. `None` if there is no such argument or the
    /// conversion threw.
    pub fn string(&self, index: usize) -> (r: Option<String>)
        ensures
            option_view(r) == (if index < self.values@.len() {
                option_view(self.values@[index as int].text)
            } else {
                None
            }),
    {
        if index >= self.values.len() {
            return None;
        }
        match &self.values[index].text {
            Some(s) => Some(s.as_str().to_owned()),
            None => None,
        }
    }

    /// An argument as a boolean, by `Boolean(x)` on the number it converts to:
    /// zero and what is no number are false, and so is what cannot be
    /// converted; any other number is true.
    pub fn boolean(&self, index: usize) -> (r: bool)
        ensures
            r == (index < self.values@.len() && (match self.values@[index as int].number {
                Numeric::Thrown => false,
                Numeric::NotANumber => false,
                Numeric::Infinite { .. } => true,
                Numeric::Finite { zero, .. } => !zero,
            })),
    {
        if index >= self.values.len() {
            return false;
        }
        match self.values[index].number {
            Numeric::Thrown => false,
            Numeric::NotANumber => false,
            Numeric::Infinite { .. } => true,
            Numeric::Finite { zero, .. } => !zero,
        }
    }

    /// An argument as an integer. Missing, infinite and not a number all read
    /// as `fallback`.
    pub fn integer(&self, index: usize, fallback: i64) -> (r: i64)
        ensures
            r == (if index < self.values@.len() {
                match self.values@[index as int].number {
                    Numeric::Finite { whole, .. } => whole,
                    _ => fallback,
                }
            } else {
                fallback
            }),
    {
        if index >= self.values.len() {
            return fallback;
        }
        match self.values[index].number {
            Numeric::Finite { whole, .. } => whole,
            _ => fallback,
        }
    }
}

// ── The deadline ────────────────────────────────────────────────────────────

/// The instant after which a running script is interrupted.
#[derive(Clone, Copy, Debug, PartialEq, Eq, Structural)]
pub struct Deadline {
    pub at: u64,
}

/// Whether a script that may run until `at` has run too long. A clock that does
/// not run interrupts nothing.
pub open spec fn overdue(at: u64, now: u64) -> bool {
    at != NO_DEADLINE && now != 0 && now > at
}

/// The instant so many microseconds from now, or none where that is past the
/// end of the clock.
pub open spec fn deadline_after(now: u64, micros: u64) -> u64 {
    if now + micros <= u64::MAX {
        (now + micros) as u64
    } else {
        NO_DEADLINE
    }
}

impl Deadline {
    pub fn new() -> (r: Self)
        ensures
            r.at == NO_DEADLINE,
    {
        Deadline { at: NO_DEADLINE }
    }

    fn set(&mut self, now: u64, micros: u64)
        ensures
            final(self).at == deadline_after(now, micros),
    {
        self.at = match now.checked_add(micros) {
            Some(t) => t,
            None => NO_DEADLINE,
        };
    }

    fn clear(&mut self)
        ensures
            final(self).at == NO_DEADLINE,
    {
        self.at = NO_DEADLINE;
    }

    /// Whether the script that is running has outstayed its welcome. The clock
    /// reads zero until it is calibrated, which must not look like a deadline
    /// long passed.
    pub fn interrupt_poll(&self, now: u64) -> (r: bool)
        ensures
            r == (self.at != NO_DEADLINE && now != 0 && now > self.at),
            r == overdue(self.at, now),
    {
        self.at != NO_DEADLINE && now != 0 && now > self.at
    }
}

// ── The engine ──────────────────────────────────────────────────────────────

/// What came of creating an engine's runtime and context.
#[derive(Clone, Copy, Debug, PartialEq, Eq, Structural)]
pub enum Made {
    Ready,
    NoRuntime,
    NoContext,
}

/// The host's record of a live engine.
pub struct Engine {
    pub stack_size: usize,
    pub memory_limit: usize,
    /// The slots of the native table that this engine claimed, given back when
    /// it is closed.
    pub slots: Vec<usize>,
}

/// Why an engine with this stack is refused before anything is created.
pub open spec fn stack_refused(stack_size: usize) -> Option<Seq<char>> {
    if stack_size == 0 {
        Some("a stack size of zero would disable the overflow check"@)
    } else if stack_size > MAX_STACK_SIZE {
        Some("stack size above 512 KiB does not fit the kernel stack"@)
    } else {
        None
    }
}

pub open spec fn engine_refused(stack_size: usize, made: Made) -> Option<Seq<char>> {
    match stack_refused(stack_size) {
        Some(e) => Some(e),
        None => match made {
            Made::Ready => None,
            Made::NoRuntime => Some("JS_NewRuntime failed"@),
            Made::NoContext => Some("JS_NewContext failed"@),
        },
    }
}

/// Whether an engine may have a stack of this size.
pub fn check_stack(stack_size: usize) -> (r: Result<(), &'static str>)
    ensures
        match r {
            Ok(_) => stack_refused(stack_size) is None,
            Err(e) => stack_refused(stack_size) == Some(e@),
        },
{
    if stack_size == 0 {
        return Err("a stack size of zero would disable the overflow check");
    }
    if stack_size > MAX_STACK_SIZE {
        return Err("stack size above 512 KiB does not fit the kernel stack");
    }
    Ok(())
}

impl Engine {
    /// An engine with the default stack budget and memory budget.
    pub fn new(made: Made, deadline: &mut Deadline) -> (r: Result<Engine, &'static str>)
        ensures
            match r {
                Ok(e) => {
                    &&& made == Made::Ready
                    &&& e.stack_size == DEFAULT_STACK_SIZE
                    &&& e.memory_limit == DEFAULT_MEMORY_LIMIT
                    &&& e.slots@.len() == 0
                    &&& final(deadline).at == NO_DEADLINE
                },
                Err(m) => engine_refused(DEFAULT_STACK_SIZE, made) == Some(m@) && *final(deadline)
                    == *old(deadline),
            },
    {
        Self::with_limits(DEFAULT_STACK_SIZE, DEFAULT_MEMORY_LIMIT, made, deadline)
    }

    /// As [`Engine::new`], with an explicit stack and heap budget. A memory
    /// limit of zero means no limit; a stack of zero is refused, for it would
    /// disable the check against running off the kernel's stack.
    pub fn with_limits(
        stack_size: usize,
        memory_limit: usize,
        made: Made,
        deadline: &mut Deadline,
    ) -> (r: Result<Engine, &'static str>)
        ensures
            match r {
                Ok(e) => {
                    &&& engine_refused(stack_size, made) is None
                    &&& e.stack_size == stack_size
                    &&& e.memory_limit == memory_limit
                    &&& e.slots@.len() == 0
                    &&& final(deadline).at == NO_DEADLINE
                },
                Err(m) => engine_refused(stack_size, made) == Some(m@) && *final(deadline) == *old(
                    deadline,
                ),
            },
    {
        if let Err(e) = check_stack(stack_size) {
            return Err(e);
        }
        match made {
            Made::NoRuntime => Err("JS_NewRuntime failed"),
            Made::NoContext => Err("JS_NewContext failed"),
            Made::Ready => {
                deadline.clear();
                Ok(Engine { stack_size, memory_limit, slots: Vec::new() })
            },
        }
    }

    /// Claim a slot for a function that is to be exposed under a name. The
    /// program around this library defines the property next.
    pub fn register_global(&mut self, natives: &mut Natives, name: &str, function: u64) -> (r: Result<
        usize,
        String,
    >)
        requires
            sound(old(natives)@),
            forall|i: int| 0 <= i < old(natives)@.len() ==> users(old(natives)@, i) < u64::MAX,
        ensures
            *final(self) == *old(self),
            sound(final(natives)@),
            match r {
                Ok(i) => {
                    &&& !holds_nul_char(name@)
                    &&& is_slot_for(old(natives)@, function, i as int)
                    &&& final(natives)@ == claimed(old(natives)@, function, i as int)
                },
                Err(e) => {
                    &&& final(natives)@ == old(natives)@
                    &&& if holds_nul_char(name@) {
                        e@ == "the name contains a NUL byte"@
                    } else {
                        e@ == "no free native function slots"@ && forall|i: int|
                            !is_slot_for(old(natives)@, function, i)
                    }
                },
            },
    {
        if holds_nul(name) {
            return Err("the name contains a NUL byte".to_owned());
        }
        match natives.claim_slot(function) {
            Some(i) => Ok(i),
            None => Err("no free native function slots".to_owned()),
        }
    }

    /// The property for a claimed slot was defined, or could not be.
    pub fn registered(&mut self, natives: &mut Natives, slot: usize, defined: bool) -> (r: Result<
        (),
        String,
    >)
        requires
            sound(old(natives)@),
        ensures
            sound(final(natives)@),
            if defined {
                &&& r is Ok
                &&& final(natives)@ == old(natives)@
                &&& final(self).slots@ == old(self).slots@.push(slot)
            } else {
                &&& r matches Err(e) && e@ == "the property could not be defined"@
                &&& final(natives)@ == released(old(natives)@, slot as int)
                &&& final(self).slots@ == old(self).slots@
            },
            final(self).stack_size == old(self).stack_size,
            final(self).memory_limit == old(self).memory_limit,
    {
        if defined {
            self.slots.push(slot);
            Ok(())
        } else {
            natives.release_slot(slot);
            Err("the property could not be defined".to_owned())
        }
    }

    /// Give back what the engine held, once its context is gone. A deadline
    /// that outlived it would interrupt the next engine before it had run an
    /// instruction.
    pub fn close(self, natives: &mut Natives, deadline: &mut Deadline)
        requires
            sound(old(natives)@),
        ensures
            final(natives)@ == all_released(old(natives)@, self.slots@),
            sound(final(natives)@),
            final(deadline).at == NO_DEADLINE,
    {
        let ghost start = natives@;
        let mut i: usize = 0;
        assert(self.slots@.skip(0) =~= self.slots@);
        while i < self.slots.len()
            invariant
                i <= self.slots@.len(),
                sound(natives@),
                all_released(natives@, self.slots@.skip(i as int)) == all_released(
                    start,
                    self.slots@,
                ),
            decreases self.slots@.len() - i,
        {
            assert(self.slots@.skip(i as int).skip(1) =~= self.slots@.skip(i + 1));
            natives.release_slot(self.slots[i]);
            i = i + 1;
        }
        assert(self.slots@.skip(i as int) =~= Seq::empty());
        deadline.clear();
    }
}

// ── Evaluating ──────────────────────────────────────────────────────────────

pub open spec fn holds_nul_char(s: Seq<char>) -> bool {
    s.contains('\0')
}

fn holds_nul(s: &str) -> (r: bool)
    ensures
        r == holds_nul_char(s@),
{
    let v = chars_of(s);
    let mut i: usize = 0;
    while i < v.len()
        invariant
            i <= v@.len(),
            v@ == s@,
            forall|j: int| 0 <= j < i ==> v@[j] != '\0',
        decreases v@.len() - i,
    {
        if v[i] == '\0' {
            assert(s@[i as int] == '\0');
            return true;
        }
        i = i + 1;
    }
    false
}

/// A pending exception of the engine.
pub enum Thrown<T = String> {
    /// The engine failed without setting one.
    Nothing,
    /// Its own conversion to text threw.
    Unprintable,
    Text(T),
}

impl View for Thrown {
    type V = Thrown<Seq<char>>;

    open spec fn view(&self) -> Thrown<Seq<char>> {
        match *self {
            Thrown::Nothing => Thrown::Nothing,
            Thrown::Unprintable => Thrown::Unprintable,
            Thrown::Text(t) => Thrown::Text(t@),
        }
    }
}

/// How an exception is described.
pub open spec fn described(t: Thrown<Seq<char>>) -> Seq<char> {
    match t {
        Thrown::Nothing =>
            "the engine failed without setting an exception, which is what running out of memory looks like"@,
        Thrown::Unprintable => "an exception with no message"@,
        Thrown::Text(s) => s,
    }
}

/// Describe an exception. A failure with none set is what running out of
/// memory leaves behind.
pub fn take_exception(t: Thrown) -> (r: String)
    ensures
        r@ == described(t@),
{
    match t {
        Thrown::Nothing =>
            "the engine failed without setting an exception, which is what running out of memory looks like".to_owned(),
        Thrown::Unprintable => "an exception with no message".to_owned(),
        Thrown::Text(s) => s,
    }
}

/// What the engine answered.
pub enum Answer<T = String> {
    Exception(Thrown<T>),
    /// The value as text, unless its conversion threw.
    Value(Option<T>),
}

impl View for Answer {
    type V = Answer<Seq<char>>;

    open spec fn view(&self) -> Answer<Seq<char>> {
        match *self {
            Answer::Exception(t) => Answer::Exception(t@),
            Answer::Value(v) => Answer::Value(option_view(v)),
        }
    }
}

pub open spec fn result_of(a: Answer<Seq<char>>) -> Result<Seq<char>, Seq<char>> {
    match a {
        Answer::Exception(t) => Err(described(t)),
        Answer::Value(Some(s)) => Ok(s),
        Answer::Value(None) => Err("the result could not be converted to a string"@),
    }
}

pub open spec fn text_view(r: Result<String, String>) -> Result<Seq<char>, Seq<char>> {
    match r {
        Ok(s) => Ok(s@),
        Err(e) => Err(e@),
    }
}

/// The engine's answer to an evaluation or a call: its value as text, or the
/// exception as text.
pub fn answer(a: Answer) -> (r: Result<String, String>)
    ensures
        text_view(r) == result_of(a@),
{
    match a {
        Answer::Exception(t) => Err(take_exception(t)),
        Answer::Value(v) => match v {
            Some(s) => Ok(s),
            None => Err("the result could not be converted to a string".to_owned()),
        },
    }
}

/// A drain of the job queue, and how many jobs it ran.
#[derive(Clone, Copy, Debug, PartialEq, Eq, Structural)]
pub struct Pump {
    pub ran: usize,
}

/// What to do after a job.
#[derive(Clone, Copy, Debug, PartialEq, Eq, Structural)]
pub enum PumpStep {
    /// Run the next one.
    More,
    /// The queue is empty; so many ran.
    Drained(usize),
    /// A job threw; the jobs behind it stay queued.
    Threw,
    /// Jobs that queue each other would run forever.
    Stuck,
}

impl Pump {
    pub fn new() -> (r: Self)
        ensures
            r.ran == 0,
    {
        Pump { ran: 0 }
    }
}

impl Engine {
    /// Stop the engine if it is still running `micros` microseconds from now.
    pub fn set_time_limit(&self, deadline: &mut Deadline, now: u64, micros: u64)
        ensures
            final(deadline).at == deadline_after(now, micros),
    {
        deadline.set(now, micros);
    }

    /// Let it run as long as it likes. What a fresh engine starts with.
    pub fn clear_time_limit(&self, deadline: &mut Deadline)
        ensures
            final(deadline).at == NO_DEADLINE,
    {
        deadline.clear();
    }

    /// Whether a script can be handed to the engine. A zero byte inside it would
    /// make the engine see a shorter program, so it is refused.
    pub fn eval(&self, source: &str, filename: &str) -> (r: Result<(), String>)
        ensures
            match r {
                Ok(_) => !holds_nul_char(source@) && !holds_nul_char(filename@),
                Err(e) => if holds_nul_char(source@) {
                    e@ == "source contains a NUL byte"@
                } else {
                    holds_nul_char(filename@) && e@ == "filename contains a NUL byte"@
                },
            },
    {
        if holds_nul(source) {
            return Err("source contains a NUL byte".to_owned());
        }
        if holds_nul(filename) {
            return Err("filename contains a NUL byte".to_owned());
        }
        Ok(())
    }

    /// Whether a function of a script can be called by this name.
    pub fn call_global(&self, name: &str) -> (r: Result<(), String>)
        ensures
            match r {
                Ok(_) => !holds_nul_char(name@),
                Err(e) => holds_nul_char(name@) && e@ == "the name contains a NUL byte"@,
            },
    {
        if holds_nul(name) {
            return Err("the name contains a NUL byte".to_owned());
        }
        Ok(())
    }

    /// An evaluation followed by a drain of the job queue: the value is the one
    /// that the script itself produced, and either failure is reported.
    pub fn eval_settled(
        &self,
        value: Result<String, String>,
        pumped: Result<usize, String>,
    ) -> (r: Result<String, String>)
        ensures
            text_view(r) == (match value {
                Err(e) => Err(e@),
                Ok(s) => match pumped {
                    Err(e) => Err(e@),
                    Ok(_) => Ok(s@),
                },
            }),
    {
        match value {
            Err(e) => Err(e),
            Ok(s) => match pumped {
                Err(e) => Err(e),
                Ok(_) => Ok(s),
            },
        }
    }

    /// A job was tried: zero says that there was none, a negative number that
    /// it threw.
    pub fn pump_jobs(&self, pump: &mut Pump, status: i32) -> (r: PumpStep)
        requires
            old(pump).ran <= MAX_JOBS_PER_PUMP,
        ensures
            r == (if status == 0 {
                PumpStep::Drained(old(pump).ran)
            } else if status < 0 {
                PumpStep::Threw
            } else if old(pump).ran + 1 > MAX_JOBS_PER_PUMP {
                PumpStep::Stuck
            } else {
                PumpStep::More
            }),
            final(pump).ran == (if status > 0 {
                old(pump).ran + 1
            } else {
                old(pump).ran as int
            }),
            r == PumpStep::More ==> final(pump).ran <= MAX_JOBS_PER_PUMP,
    {
        if status == 0 {
            return PumpStep::Drained(pump.ran);
        }
        if status < 0 {
            return PumpStep::Threw;
        }
        pump.ran = pump.ran + 1;
        if pump.ran > MAX_JOBS_PER_PUMP {
            PumpStep::Stuck
        } else {
            PumpStep::More
        }
    }
}

/// What a drain that did not end well is reported as.
pub fn pump_failure(step: PumpStep, thrown: Thrown) -> (r: Option<String>)
    ensures
        option_view(r) == (match step {
            PumpStep::Threw => Some(described(thrown@)),
            PumpStep::Stuck => Some("the job queue did not drain"@),
            _ => None,
        }),
{
    match step {
        PumpStep::Threw => Some(take_exception(thrown)),
        PumpStep::Stuck => Some("the job queue did not drain".to_owned()),
        _ => None,
    }
}

/// What of one evaluation could reach the next: the table of exposed functions
/// and the deadline. Everything else goes with the engine.
pub ghost struct Host {
    pub natives: Table,
    pub deadline: u64,
}

pub open spec fn host(natives: Table, deadline: u64) -> Host {
    Host { natives, deadline }
}

/// The host once an evaluation in an engine of its own has begun.
pub open spec fn standalone_begun(h: Host, now: u64) -> Host {
    Host { deadline: deadline_after(now, STANDALONE_BUDGET_MICROS), ..h }
}

/// The host once it is over, the engine having claimed these slots.
pub open spec fn standalone_over(h: Host, slots: Seq<usize>) -> Host {
    Host { natives: all_released(h.natives, slots), deadline: NO_DEADLINE }
}

/// The start of an evaluation in an engine of its own, for the shell: the
/// deadline is set before the script runs. Whatever deadline there was before
/// makes no difference.
pub fn eval_standalone(made: Made, deadline: &mut Deadline, now: u64) -> (r: Result<
    Engine,
    &'static str,
>)
    ensures
        match r {
            Ok(e) => {
                &&& made == Made::Ready
                &&& e.stack_size == DEFAULT_STACK_SIZE
                &&& e.memory_limit == DEFAULT_MEMORY_LIMIT
                &&& e.slots@.len() == 0
                &&& final(deadline).at == deadline_after(now, STANDALONE_BUDGET_MICROS)
            },
            Err(m) => engine_refused(DEFAULT_STACK_SIZE, made) == Some(m@) && *final(deadline)
                == *old(deadline),
        },
{
    match Engine::new(made, deadline) {
        Ok(e) => {
            deadline.set(now, STANDALONE_BUDGET_MICROS);
            Ok(e)
        },
        Err(m) => Err(m),
    }
}

/// The end of it, whatever came of the script: the result is the script's, and
/// the engine is gone.
pub fn standalone_result(
    e: Engine,
    outcome: Result<String, String>,
    natives: &mut Natives,
    deadline: &mut Deadline,
) -> (r: Result<String, String>)
    requires
        sound(old(natives)@),
    ensures
        text_view(r) == text_view(outcome),
        host(final(natives)@, final(deadline).at) == standalone_over(
            host(old(natives)@, old(deadline).at),
            e.slots@,
        ),
        sound(final(natives)@),
{
    e.close(natives, deadline);
    outcome
}

/// A standalone evaluation leaves nothing behind for the next: afterwards no
/// deadline is set, the table of functions is as it was before, and the next
/// evaluation begins just as it would have without this one. `earlier` is the host
/// before it, and `during` the host once its script has registered the
/// functions of `slots`.
pub proof fn a_line_leaves_nothing_behind(
    earlier: Host,
    during: Host,
    slots: Seq<usize>,
    now: u64,
    later: u64,
)
    requires
        sound(earlier.natives),
        sound(during.natives),
        during.deadline == standalone_begun(earlier, now).deadline,
        owes(during.natives, earlier.natives, slots),
        forall|k: int| 0 <= k < slots.len() ==> (#[trigger] slots[k]) < MAX_NATIVES,
    ensures
        standalone_over(during, slots) == host(earlier.natives, NO_DEADLINE),
        standalone_begun(standalone_over(during, slots), later) == standalone_begun(earlier, later),
{
    closing_restores_the_table(during.natives, earlier.natives, slots);
}
/// A script has its time, and not a moment more; one without a limit is never
/// interrupted.
pub proof fn scripts_have_their_time(start: u64, micros: u64, later: u64)
    requires
        0 < start <= later,
        start + micros < u64::MAX,
    ensures
        overdue(deadline_after(start, micros), later) <==> later - start > micros,
        !overdue(NO_DEADLINE, later),
        !overdue(deadline_after(later, u64::MAX), later),
{
}

/// What the engine answers comes back as it is, and what went wrong as an
/// error that says why.
pub proof fn answers_come_back(s: Seq<char>, a: Answer<Seq<char>>)
    ensures
        result_of(Answer::Value(Some(s))) == Ok::<Seq<char>, Seq<char>>(s),
        result_of(Answer::Exception(Thrown::Text(s))) == Err::<Seq<char>, Seq<char>>(s),
        result_of(a) is Ok <==> a matches Answer::Value(Some(_)),
        result_of(a) matches Err(e) ==> e.len() > 0 || a == Answer::Exception(Thrown::Text(e)),
{
    reveal_strlit(
        "the engine failed without setting an exception, which is what running out of memory looks like",
    );
    reveal_strlit("an exception with no message");
    reveal_strlit("the result could not be converted to a string");
}

/// An engine is refused exactly if its stack is none or too large, or if it
/// could not be made.
pub proof fn engines_need_a_stack_that_fits(stack_size: usize, made: Made)
    ensures
        engine_refused(stack_size, made) is None <==> 1 <= stack_size <= 512 * 1024 && made is Ready,
{
}

} // verus!
