use vstd::prelude::*;
use vstd::string::StringExecFns;
use crate::fmt::{dec_of, human, human_of, u64_dec};
use crate::planner::{sat_add64, sat_sub64, sat_add, sat_sub, SwapConfig};
use crate::scan::{clamp64, sorted_desc, sum_prefix, sum_sizes, total_size, FileEntry};

verus! {

/// Every file of the tree has been relocated.
pub open spec fn all_done_spec(s: Seq<bool>) -> bool {
    forall|i: int| 0 <= i < s.len() ==> s[i]
}

/// File `i` is still waiting and fits under the given effective free space.
pub open spec fn fit_at(files: Seq<FileEntry>, done: Seq<bool>, cap: u64, i: int) -> bool {
    &&& !done[i]
    &&& files[i].size <= cap
}

/// The first index at or after `i` whose file is waiting and fits. With the
/// scanner's descending order, the first fit is the largest that fits.
pub open spec fn first_fit_from(files: Seq<FileEntry>, done: Seq<bool>, cap: u64, i: int) -> Option<int>
    decreases files.len() - i,
{
    if i < 0 || i >= files.len() {
        None
    } else if fit_at(files, done, cap, i) {
        Some(i)
    } else {
        first_fit_from(files, done, cap, i + 1)
    }
}

/// The first (largest, under descending order) waiting file that fits.
pub open spec fn first_fit(files: Seq<FileEntry>, done: Seq<bool>, cap: u64) -> Option<int> {
    first_fit_from(files, done, cap, 0)
}

pub proof fn lemma_first_fit_some(files: Seq<FileEntry>, done: Seq<bool>, cap: u64, j: int, i: int)
    requires
        0 <= j,
        first_fit_from(files, done, cap, j) == Some(i),
    ensures
        j <= i < files.len(),
        fit_at(files, done, cap, i),
        forall|k: int| j <= k < i ==> !fit_at(files, done, cap, k),
    decreases files.len() - j,
{
    if j < files.len() && !fit_at(files, done, cap, j) {
        lemma_first_fit_some(files, done, cap, j + 1, i);
    }
}

/// Law (largest-fits-first): under the scanner's descending size order, the
/// first waiting file that fits is the largest waiting file that fits —
/// every other candidate that fits is no bigger.
pub proof fn lemma_first_fit_is_largest(files: Seq<FileEntry>, done: Seq<bool>, cap: u64, i: int)
    requires
        sorted_desc(files),
        first_fit(files, done, cap) == Some(i),
    ensures
        forall|k: int| 0 <= k < files.len() && fit_at(files, done, cap, k)
            ==> files[k].size <= files[i].size,
{
    lemma_first_fit_some(files, done, cap, 0, i);
}

/// The spec-level image of an executable index option.
pub open spec fn as_opt_int(r: Option<usize>) -> Option<int> {
    match r {
        Some(i) => Some(i as int),
        None => None,
    }
}

/// True when every file of the tree has been moved.
pub fn all_done(done: &Vec<bool>) -> (r: bool)
    ensures
        r == all_done_spec(done@),
{
    let mut i: usize = 0;
    while i < done.len()
        invariant
            i <= done.len(),
            forall|j: int| 0 <= j < i ==> done@[j],
        decreases done.len() - i,
    {
        if !done[i] {
            return false;
        }
        i = i + 1;
    }
    true
}

/// Free space usable for scheduling: raw free space minus the reserve
/// margin, floored at zero.
pub fn effective_free(free: u64, reserve: u64) -> (r: u64)
    ensures
        r == sat_sub64(free, reserve),
{
    sat_sub(free, reserve)
}

/// Scans the descending-size list and returns the first not-yet-moved file
/// whose size fits under `free_eff` — the largest one that fits right now.
pub fn pick_largest_that_fits(files: &Vec<FileEntry>, done: &Vec<bool>, free_eff: u64) -> (r: Option<usize>)
    requires
        done@.len() == files@.len(),
    ensures
        as_opt_int(r) == first_fit(files@, done@, free_eff),
{
    let mut i: usize = 0;
    while i < files.len()
        invariant
            i <= files.len(),
            done@.len() == files@.len(),
            first_fit(files@, done@, free_eff) == first_fit_from(files@, done@, free_eff, i as int),
        decreases files.len() - i,
    {
        if !done[i] && files[i].size <= free_eff {
            return Some(i);
        }
        i = i + 1;
    }
    None
}

/// What the scheduler should do next, given the current state.
#[derive(Clone, Copy, Debug, PartialEq, Eq, Structural)]
pub enum NextMove {
    /// Both trees fully relocated: the run is complete.
    Finished,
    /// Move file `idx` of tree B to its destination on device C.
    BToC { idx: usize },
    /// Move file `idx` of tree A to its destination on device D.
    AToD { idx: usize },
    /// B is fully moved but some remaining A file fits nowhere: deadlock.
    DeadlockTailA,
    /// Neither side has a waiting file that fits: deadlock.
    DeadlockBoth,
}

/// The greedy, deadlock-aware selection rule. Prefer draining B (its moves
/// free space on device D for A's files); fall back to a fitting A file to
/// unblock B; report which files remain when neither direction can move.
pub open spec fn spec_next_move(
    a: Seq<FileEntry>,
    b: Seq<FileEntry>,
    done_a: Seq<bool>,
    done_b: Seq<bool>,
    free_c: u64,
    free_d: u64,
    reserve: u64,
) -> NextMove {
    if all_done_spec(done_a) && all_done_spec(done_b) {
        NextMove::Finished
    } else {
        match first_fit(b, done_b, sat_sub64(free_c, reserve)) {
            Some(i) => NextMove::BToC { idx: i as usize },
            None => match first_fit(a, done_a, sat_sub64(free_d, reserve)) {
                Some(i) => NextMove::AToD { idx: i as usize },
                None => if all_done_spec(done_b) {
                    NextMove::DeadlockTailA
                } else {
                    NextMove::DeadlockBoth
                },
            },
        }
    }
}

/// One scheduling decision, from the current done-sets and the two
/// free-space readings — simulated in a dry run, probed live in a real run.
pub fn next_move(
    a_files: &Vec<FileEntry>,
    b_files: &Vec<FileEntry>,
    done_a: &Vec<bool>,
    done_b: &Vec<bool>,
    free_c: u64,
    free_d: u64,
    reserve: u64,
) -> (r: NextMove)
    requires
        done_a@.len() == a_files@.len(),
        done_b@.len() == b_files@.len(),
    ensures
        r == spec_next_move(a_files@, b_files@, done_a@, done_b@, free_c, free_d, reserve),
{
    if all_done(done_a) && all_done(done_b) {
        return NextMove::Finished;
    }
    let free_c_eff = effective_free(free_c, reserve);
    match pick_largest_that_fits(b_files, done_b, free_c_eff) {
        Some(i) => NextMove::BToC { idx: i },
        None => {
            let free_d_eff = effective_free(free_d, reserve);
            match pick_largest_that_fits(a_files, done_a, free_d_eff) {
                Some(i) => NextMove::AToD { idx: i },
                None => {
                    if all_done(done_b) {
                        NextMove::DeadlockTailA
                    } else {
                        NextMove::DeadlockBoth
                    }
                },
            }
        },
    }
}

/// Law: a decision to move always names a file that is not yet done and
/// that fits under the effective free space of its target pool — a finished
/// file is never revisited.
pub proof fn lemma_decision_targets_undone(
    a: Seq<FileEntry>,
    b: Seq<FileEntry>,
    done_a: Seq<bool>,
    done_b: Seq<bool>,
    free_c: u64,
    free_d: u64,
    reserve: u64,
)
    requires
        a.len() <= usize::MAX,
        b.len() <= usize::MAX,
    ensures
        spec_next_move(a, b, done_a, done_b, free_c, free_d, reserve) matches NextMove::BToC { idx }
            ==> idx < b.len() && !done_b[idx as int] && b[idx as int].size <= sat_sub64(free_c, reserve),
        spec_next_move(a, b, done_a, done_b, free_c, free_d, reserve) matches NextMove::AToD { idx }
            ==> idx < a.len() && !done_a[idx as int] && a[idx as int].size <= sat_sub64(free_d, reserve),
{
    let m = spec_next_move(a, b, done_a, done_b, free_c, free_d, reserve);
    match m {
        NextMove::BToC { idx } => {
            let cap = sat_sub64(free_c, reserve);
            let ff = first_fit(b, done_b, cap);
            lemma_first_fit_some(b, done_b, cap, 0, ff->Some_0);
            assert(idx as int == ff->Some_0);
        },
        NextMove::AToD { idx } => {
            let cap = sat_sub64(free_d, reserve);
            let ff = first_fit(a, done_a, cap);
            lemma_first_fit_some(a, done_a, cap, 0, ff->Some_0);
            assert(idx as int == ff->Some_0);
        },
        _ => {},
    }
}

/// Law: dry runs and real runs plan alike. The next decision is a function
/// of the file lists, the done-sets, the reserve, and the two free-space
/// readings alone; with identical scans and identical readings, a simulated
/// step and a live step choose the same (file, direction).
pub proof fn lemma_dry_real_same_decision(
    a: Seq<FileEntry>,
    b: Seq<FileEntry>,
    done_a: Seq<bool>,
    done_b: Seq<bool>,
    sim_free_c: u64,
    sim_free_d: u64,
    probed_free_c: u64,
    probed_free_d: u64,
    reserve: u64,
)
    requires
        probed_free_c == sim_free_c,
        probed_free_d == sim_free_d,
    ensures
        spec_next_move(a, b, done_a, done_b, probed_free_c, probed_free_d, reserve)
            == spec_next_move(a, b, done_a, done_b, sim_free_c, sim_free_d, reserve),
{
}

/// How many of the first `n` entries are marked done.
pub open spec fn count_done_prefix(done: Seq<bool>, n: int) -> int
    decreases n,
{
    if n <= 0 {
        0
    } else {
        count_done_prefix(done, n - 1) + if done[n - 1] {
            1int
        } else {
            0int
        }
    }
}

/// How many entries are marked done.
pub open spec fn count_done(done: Seq<bool>) -> int {
    count_done_prefix(done, done.len() as int)
}

/// Total size of the done entries among the first `n`.
pub open spec fn sum_done_prefix(files: Seq<FileEntry>, done: Seq<bool>, n: int) -> int
    decreases n,
{
    if n <= 0 {
        0
    } else {
        sum_done_prefix(files, done, n - 1) + if done[n - 1] {
            files[n - 1].size as int
        } else {
            0int
        }
    }
}

/// Total size of the done entries.
pub open spec fn sum_done(files: Seq<FileEntry>, done: Seq<bool>) -> int {
    sum_done_prefix(files, done, files.len() as int)
}

pub proof fn lemma_count_done_le(done: Seq<bool>, n: int)
    ensures
        0 <= count_done_prefix(done, n) <= n || n < 0,
    decreases n,
{
    if n > 0 {
        lemma_count_done_le(done, n - 1);
    }
}

pub proof fn lemma_count_done_missing(done: Seq<bool>, i: int, n: int)
    requires
        0 <= i < n,
        !done[i],
    ensures
        count_done_prefix(done, n) <= n - 1,
    decreases n,
{
    if n - 1 == i {
        lemma_count_done_le(done, n - 1);
    } else {
        lemma_count_done_missing(done, i, n - 1);
    }
}

pub proof fn lemma_count_done_update(done: Seq<bool>, i: int, n: int)
    requires
        0 <= i < done.len(),
        n <= done.len(),
    ensures
        count_done_prefix(done.update(i, true), n) == count_done_prefix(done, n) + if i < n && !done[i] {
            1int
        } else {
            0int
        },
    decreases n,
{
    if n > 0 {
        lemma_count_done_update(done, i, n - 1);
    }
}

pub proof fn lemma_count_done_zero(done: Seq<bool>, n: int)
    requires
        n <= done.len(),
        forall|k: int| 0 <= k < done.len() ==> !done[k],
    ensures
        count_done_prefix(done, n) == 0,
    decreases n,
{
    if n > 0 {
        lemma_count_done_zero(done, n - 1);
    }
}

pub proof fn lemma_count_done_full(done: Seq<bool>, n: int)
    requires
        n <= done.len(),
        all_done_spec(done),
    ensures
        count_done_prefix(done, n) == if n >= 0 {
            n
        } else {
            0int
        },
    decreases n,
{
    if n > 0 {
        lemma_count_done_full(done, n - 1);
    }
}

pub proof fn lemma_sum_done_nonneg(files: Seq<FileEntry>, done: Seq<bool>, n: int)
    ensures
        sum_done_prefix(files, done, n) >= 0,
    decreases n,
{
    if n > 0 {
        lemma_sum_done_nonneg(files, done, n - 1);
    }
}

pub proof fn lemma_sum_done_update(files: Seq<FileEntry>, done: Seq<bool>, i: int, n: int)
    requires
        0 <= i < done.len(),
        n <= done.len(),
    ensures
        sum_done_prefix(files, done.update(i, true), n) == sum_done_prefix(files, done, n)
            + if i < n && !done[i] {
            files[i].size as int
        } else {
            0int
        },
    decreases n,
{
    if n > 0 {
        lemma_sum_done_update(files, done, i, n - 1);
    }
}

pub proof fn lemma_sum_done_zero(files: Seq<FileEntry>, done: Seq<bool>, n: int)
    requires
        n <= done.len(),
        forall|k: int| 0 <= k < done.len() ==> !done[k],
    ensures
        sum_done_prefix(files, done, n) == 0,
    decreases n,
{
    if n > 0 {
        lemma_sum_done_zero(files, done, n - 1);
    }
}

pub proof fn lemma_sum_done_full(files: Seq<FileEntry>, done: Seq<bool>, n: int)
    requires
        n <= done.len(),
        all_done_spec(done),
    ensures
        sum_done_prefix(files, done, n) == sum_prefix(files, n),
    decreases n,
{
    if n > 0 {
        lemma_sum_done_full(files, done, n - 1);
    }
}

/// The scheduler's run state: the two scanned trees, the per-tree done-sets,
/// the reserve margin, and the cumulative per-direction counters.
#[derive(Clone, Debug)]
pub struct Scheduler {
    pub a_files: Vec<FileEntry>,
    pub b_files: Vec<FileEntry>,
    pub done_a: Vec<bool>,
    pub done_b: Vec<bool>,
    pub reserve: u64,
    pub moved_a_bytes: u64,
    pub moved_b_bytes: u64,
    pub moved_a_files: u64,
    pub moved_b_files: u64,
}

impl Scheduler {
    /// Well-formedness: each tree has a done flag per file, and the counters
    /// are exactly the number and total size of the files marked done.
    pub open spec fn wf(self) -> bool {
        &&& self.done_a@.len() == self.a_files@.len()
        &&& self.done_b@.len() == self.b_files@.len()
        &&& self.moved_a_files == count_done(self.done_a@)
        &&& self.moved_b_files == count_done(self.done_b@)
        &&& self.moved_a_bytes == clamp64(sum_done(self.a_files@, self.done_a@))
        &&& self.moved_b_bytes == clamp64(sum_done(self.b_files@, self.done_b@))
    }

    /// A fresh run: nothing moved yet.
    pub fn new(a_files: Vec<FileEntry>, b_files: Vec<FileEntry>, reserve: u64) -> (s: Scheduler)
        ensures
            s.wf(),
            s.a_files@ == a_files@,
            s.b_files@ == b_files@,
            s.reserve == reserve,
            s.done_a@.len() == a_files@.len(),
            s.done_b@.len() == b_files@.len(),
            forall|i: int| 0 <= i < s.done_a@.len() ==> !s.done_a@[i],
            forall|i: int| 0 <= i < s.done_b@.len() ==> !s.done_b@[i],
            s.moved_a_bytes == 0 && s.moved_b_bytes == 0 && s.moved_a_files == 0 && s.moved_b_files == 0,
    {
        let done_a = falses(a_files.len());
        let done_b = falses(b_files.len());
        proof {
            lemma_count_done_zero(done_a@, done_a@.len() as int);
            lemma_count_done_zero(done_b@, done_b@.len() as int);
            lemma_sum_done_zero(a_files@, done_a@, done_a@.len() as int);
            lemma_sum_done_zero(b_files@, done_b@, done_b@.len() as int);
        }
        Scheduler {
            a_files,
            b_files,
            done_a,
            done_b,
            reserve,
            moved_a_bytes: 0,
            moved_b_bytes: 0,
            moved_a_files: 0,
            moved_b_files: 0,
        }
    }

    /// One scheduling decision from the current state and the given
    /// free-space readings (simulated in a dry run, probed in a real run).
    pub fn decide(&self, free_c: u64, free_d: u64) -> (r: NextMove)
        requires
            self.wf(),
        ensures
            r == spec_next_move(
                self.a_files@,
                self.b_files@,
                self.done_a@,
                self.done_b@,
                free_c,
                free_d,
                self.reserve,
            ),
    {
        next_move(&self.a_files, &self.b_files, &self.done_a, &self.done_b, free_c, free_d, self.reserve)
    }

    /// Records one completed move: marks the file done (monotonically — a
    /// done flag is never cleared) and accumulates the direction's counters.
    pub fn commit(&mut self, m: NextMove)
        requires
            old(self).wf(),
            (m matches NextMove::BToC { idx } ==> idx < old(self).b_files@.len() && !old(self).done_b@[idx as int]),
            (m matches NextMove::AToD { idx } ==> idx < old(self).a_files@.len() && !old(self).done_a@[idx as int]),
            m is BToC || m is AToD,
        ensures
            final(self).wf(),
            final(self).a_files@ == old(self).a_files@,
            final(self).b_files@ == old(self).b_files@,
            final(self).reserve == old(self).reserve,
            (m matches NextMove::BToC { idx } ==> final(self).done_b@ == old(self).done_b@.update(idx as int, true)
                && final(self).done_a@ == old(self).done_a@
                && final(self).moved_b_bytes == sat_add64(old(self).moved_b_bytes, old(self).b_files@[idx as int].size)
                && final(self).moved_b_files == old(self).moved_b_files + 1
                && final(self).moved_a_bytes == old(self).moved_a_bytes
                && final(self).moved_a_files == old(self).moved_a_files),
            (m matches NextMove::AToD { idx } ==> final(self).done_a@ == old(self).done_a@.update(idx as int, true)
                && final(self).done_b@ == old(self).done_b@
                && final(self).moved_a_bytes == sat_add64(old(self).moved_a_bytes, old(self).a_files@[idx as int].size)
                && final(self).moved_a_files == old(self).moved_a_files + 1
                && final(self).moved_b_bytes == old(self).moved_b_bytes
                && final(self).moved_b_files == old(self).moved_b_files),
    {
        match m {
            NextMove::BToC { idx } => {
                let sz = self.b_files[idx].size;
                let len = self.done_b.len();
                proof {
                    let db = self.done_b@;
                    let n = db.len() as int;
                    lemma_count_done_le(db, n);
                    lemma_count_done_missing(db, idx as int, n);
                    lemma_count_done_update(db, idx as int, n);
                    lemma_sum_done_nonneg(self.b_files@, db, n);
                    lemma_sum_done_update(self.b_files@, db, idx as int, n);
                }
                self.done_b[idx] = true;
                self.moved_b_bytes = sat_add(self.moved_b_bytes, sz);
                self.moved_b_files = self.moved_b_files + 1;
            },
            NextMove::AToD { idx } => {
                let sz = self.a_files[idx].size;
                let len = self.done_a.len();
                proof {
                    let da = self.done_a@;
                    let n = da.len() as int;
                    lemma_count_done_le(da, n);
                    lemma_count_done_missing(da, idx as int, n);
                    lemma_count_done_update(da, idx as int, n);
                    lemma_sum_done_nonneg(self.a_files@, da, n);
                    lemma_sum_done_update(self.a_files@, da, idx as int, n);
                }
                self.done_a[idx] = true;
                self.moved_a_bytes = sat_add(self.moved_a_bytes, sz);
                self.moved_a_files = self.moved_a_files + 1;
            },
            _ => {},
        }
    }
}

/// The whole scheduling state of a simulated run, including the two
/// simulated free-space pools.
#[verifier::ext_equal]
pub ghost struct SimState {
    pub a: Seq<FileEntry>,
    pub b: Seq<FileEntry>,
    pub done_a: Seq<bool>,
    pub done_b: Seq<bool>,
    pub free_c: u64,
    pub free_d: u64,
    pub reserve: u64,
    pub moved_a_bytes: u64,
    pub moved_b_bytes: u64,
    pub moved_a_files: u64,
    pub moved_b_files: u64,
}

/// How a simulated run ends.
pub enum SimResult {
    /// Both trees fully relocated; the final counters.
    Completed { moved_a_bytes: u64, moved_b_bytes: u64, moved_a_files: u64, moved_b_files: u64 },
    /// B drained, but a remaining A file fits nowhere on D.
    DeadlockTailA { free_d_eff: u64 },
    /// Neither direction has a waiting file that fits.
    DeadlockBoth { free_c_eff: u64, free_d_eff: u64 },
    /// The step budget ran out (never happens with a budget of one step per
    /// file, since every step retires one file).
    Unbounded,
}

/// The state a fresh simulated run starts from.
pub open spec fn init_sim(a: Seq<FileEntry>, b: Seq<FileEntry>, f_c0: u64, f_d0: u64, reserve: u64) -> SimState {
    SimState {
        a,
        b,
        done_a: Seq::new(a.len(), |i: int| false),
        done_b: Seq::new(b.len(), |i: int| false),
        free_c: f_c0,
        free_d: f_d0,
        reserve,
        moved_a_bytes: 0,
        moved_b_bytes: 0,
        moved_a_files: 0,
        moved_b_files: 0,
    }
}

/// The decision the scheduler takes in this state.
pub open spec fn sim_next(st: SimState) -> NextMove {
    spec_next_move(st.a, st.b, st.done_a, st.done_b, st.free_c, st.free_d, st.reserve)
}

/// The state after moving B file `i` to device C: C loses the file's bytes,
/// D gains them (the file vacated B's source device), and B's counters grow.
pub open spec fn sim_commit_b(st: SimState, i: int) -> SimState {
    SimState {
        done_b: st.done_b.update(i, true),
        free_c: sat_sub64(st.free_c, st.b[i].size),
        free_d: sat_add64(st.free_d, st.b[i].size),
        moved_b_bytes: sat_add64(st.moved_b_bytes, st.b[i].size),
        moved_b_files: sat_add64(st.moved_b_files, 1),
        ..st
    }
}

/// The state after moving A file `i` to device D, symmetrically.
pub open spec fn sim_commit_a(st: SimState, i: int) -> SimState {
    SimState {
        done_a: st.done_a.update(i, true),
        free_d: sat_sub64(st.free_d, st.a[i].size),
        free_c: sat_add64(st.free_c, st.a[i].size),
        moved_a_bytes: sat_add64(st.moved_a_bytes, st.a[i].size),
        moved_a_files: sat_add64(st.moved_a_files, 1),
        ..st
    }
}

/// The outcome of running the greedy schedule to completion from `st`,
/// spending one unit of `fuel` per move.
pub open spec fn sim_run(st: SimState, fuel: nat) -> SimResult
    decreases fuel,
{
    match sim_next(st) {
        NextMove::Finished => SimResult::Completed {
            moved_a_bytes: st.moved_a_bytes,
            moved_b_bytes: st.moved_b_bytes,
            moved_a_files: st.moved_a_files,
            moved_b_files: st.moved_b_files,
        },
        NextMove::DeadlockTailA => SimResult::DeadlockTailA { free_d_eff: sat_sub64(st.free_d, st.reserve) },
        NextMove::DeadlockBoth => SimResult::DeadlockBoth {
            free_c_eff: sat_sub64(st.free_c, st.reserve),
            free_d_eff: sat_sub64(st.free_d, st.reserve),
        },
        NextMove::BToC { idx } => if fuel == 0 {
            SimResult::Unbounded
        } else {
            sim_run(sim_commit_b(st, idx as int), (fuel - 1) as nat)
        },
        NextMove::AToD { idx } => if fuel == 0 {
            SimResult::Unbounded
        } else {
            sim_run(sim_commit_a(st, idx as int), (fuel - 1) as nat)
        },
    }
}

/// Law (conservation): a move never changes the combined raw free space of
/// the two pools, only its distribution — what the target pool loses, the
/// source pool gains — provided the gaining pool does not overflow `u64`.
pub proof fn lemma_move_conserves_free_sum(free_from: u64, free_to: u64, reserve: u64, size: u64)
    requires
        size <= sat_sub64(free_from, reserve),
        free_to + size <= u64::MAX,
    ensures
        sat_sub64(free_from, size) + sat_add64(free_to, size) == free_from + free_to,
{
}

/// Law (conservation, at the simulation step): a simulated move keeps
/// `free_c + free_d` constant, provided the gaining pool does not overflow.
pub proof fn lemma_sim_step_conserves(st: SimState, fuel: nat)
    requires
        st.a.len() <= usize::MAX,
        st.b.len() <= usize::MAX,
        (sim_next(st) matches NextMove::BToC { idx } ==> st.free_d + st.b[idx as int].size <= u64::MAX),
        (sim_next(st) matches NextMove::AToD { idx } ==> st.free_c + st.a[idx as int].size <= u64::MAX),
    ensures
        (sim_next(st) matches NextMove::BToC { idx } ==> sim_commit_b(st, idx as int).free_c
            + sim_commit_b(st, idx as int).free_d == st.free_c + st.free_d),
        (sim_next(st) matches NextMove::AToD { idx } ==> sim_commit_a(st, idx as int).free_c
            + sim_commit_a(st, idx as int).free_d == st.free_c + st.free_d),
{
    lemma_decision_targets_undone(st.a, st.b, st.done_a, st.done_b, st.free_c, st.free_d, st.reserve);
    match sim_next(st) {
        NextMove::BToC { idx } => {
            lemma_move_conserves_free_sum(st.free_c, st.free_d, st.reserve, st.b[idx as int].size);
        },
        NextMove::AToD { idx } => {
            lemma_move_conserves_free_sum(st.free_d, st.free_c, st.reserve, st.a[idx as int].size);
        },
        _ => {},
    }
}

/// Law (monotonicity): a commit only adds to a done-set — every flag set
/// before the move is still set after it, and the moved file's flag becomes
/// set; no flag is ever cleared, so no file is moved twice within a run.
pub proof fn lemma_commit_monotonic(st: SimState, i: int)
    requires
        st.done_a.len() == st.a.len(),
        st.done_b.len() == st.b.len(),
        0 <= i,
    ensures
        i < st.b.len() ==> {
            &&& forall|j: int| 0 <= j < st.done_b.len() && st.done_b[j]
                ==> #[trigger] sim_commit_b(st, i).done_b[j]
            &&& sim_commit_b(st, i).done_b[i]
            &&& sim_commit_b(st, i).done_a == st.done_a
        },
        i < st.a.len() ==> {
            &&& forall|j: int| 0 <= j < st.done_a.len() && st.done_a[j]
                ==> #[trigger] sim_commit_a(st, i).done_a[j]
            &&& sim_commit_a(st, i).done_a[i]
            &&& sim_commit_a(st, i).done_b == st.done_b
        },
{
}

/// A failed run: the greedy order reached a state with no legal next move.
#[derive(Clone, Debug)]
pub enum RunError {
    /// B was fully moved, but some remaining A file fits nowhere on D.
    DeadlockTailA { free_d_eff: u64 },
    /// Neither side has a waiting file that fits its target pool.
    DeadlockBoth { free_c_eff: u64, free_d_eff: u64 },
}

/// The operator-facing deadlock report, with the effective free space of the
/// stuck pools at the point of failure.
pub open spec fn run_error_message_spec(e: RunError) -> Seq<char> {
    match e {
        RunError::DeadlockTailA { free_d_eff } =>
            "DEADLOCK (dry-run): B finished but remaining A file doesn't fit on D. free_D_eff="@
            + human_of(free_d_eff),
        RunError::DeadlockBoth { free_c_eff, free_d_eff } =>
            "DEADLOCK (dry-run): no remaining file fits on either side. free_C_eff="@
            + human_of(free_c_eff) + " free_D_eff="@ + human_of(free_d_eff)
            + "\nTip: free space or use third storage."@,
    }
}

impl RunError {
    /// Renders the deadlock report for display.
    pub fn message(&self) -> (r: String)
        ensures
            r@ == run_error_message_spec(*self),
    {
        match self {
            RunError::DeadlockTailA { free_d_eff } => {
                let mut out = String::from_str(
                    "DEADLOCK (dry-run): B finished but remaining A file doesn't fit on D. free_D_eff=",
                );
                out.append(human(*free_d_eff).as_str());
                out
            },
            RunError::DeadlockBoth { free_c_eff, free_d_eff } => {
                let mut out = String::from_str(
                    "DEADLOCK (dry-run): no remaining file fits on either side. free_C_eff=",
                );
                out.append(human(*free_c_eff).as_str());
                out.append(" free_D_eff=");
                out.append(human(*free_d_eff).as_str());
                out.append("\nTip: free space or use third storage.");
                proof {
                    assert(out@ =~= run_error_message_spec(*self));
                }
                out
            },
        }
    }
}

/// What a run hands back on success: a display summary and the cumulative
/// per-direction counters.
#[derive(Clone, Debug)]
pub struct SwapReport {
    pub summary: String,
    pub moved_a_bytes: u64,
    pub moved_b_bytes: u64,
    pub moved_a_files: u64,
    pub moved_b_files: u64,
}

/// The run summary text: what moved in each direction, against each tree's
/// total.
pub open spec fn report_summary_spec(dry: bool, moved_a_bytes: u64, moved_b_bytes: u64, moved_a_files: u64, moved_b_files: u64, s_a: u64, s_b: u64) -> Seq<char> {
    (if dry {
        "DRY-RUN complete."@
    } else {
        "REAL-RUN complete."@
    }) + "\nMoved B->C: "@ + human_of(moved_b_bytes) + " ("@ + dec_of(moved_b_files as int)
        + " files) / "@ + human_of(s_b) + "\nMoved A->D: "@ + human_of(moved_a_bytes) + " ("@
        + dec_of(moved_a_files as int) + " files) / "@ + human_of(s_a)
}

/// Builds the end-of-run report from the counters and the two tree totals.
pub fn build_report(dry: bool, moved_a_bytes: u64, moved_b_bytes: u64, moved_a_files: u64, moved_b_files: u64, s_a: u64, s_b: u64) -> (r: SwapReport)
    ensures
        r.summary@ == report_summary_spec(dry, moved_a_bytes, moved_b_bytes, moved_a_files, moved_b_files, s_a, s_b),
        r.moved_a_bytes == moved_a_bytes,
        r.moved_b_bytes == moved_b_bytes,
        r.moved_a_files == moved_a_files,
        r.moved_b_files == moved_b_files,
{
    let mut out: String;
    if dry {
        out = String::from_str("DRY-RUN complete.");
    } else {
        out = String::from_str("REAL-RUN complete.");
    }
    out.append("\nMoved B->C: ");
    out.append(human(moved_b_bytes).as_str());
    out.append(" (");
    out.append(u64_dec(moved_b_files).as_str());
    out.append(" files) / ");
    out.append(human(s_b).as_str());
    out.append("\nMoved A->D: ");
    out.append(human(moved_a_bytes).as_str());
    out.append(" (");
    out.append(u64_dec(moved_a_files).as_str());
    out.append(" files) / ");
    out.append(human(s_a).as_str());
    proof {
        assert(out@ =~= report_summary_spec(dry, moved_a_bytes, moved_b_bytes, moved_a_files, moved_b_files, s_a, s_b));
    }
    SwapReport { summary: out, moved_a_bytes, moved_b_bytes, moved_a_files, moved_b_files }
}

/// The scheduler's state during a dry run, seen as a simulation state.
pub open spec fn sched_sim_state(s: Scheduler, free_c: u64, free_d: u64) -> SimState {
    SimState {
        a: s.a_files@,
        b: s.b_files@,
        done_a: s.done_a@,
        done_b: s.done_b@,
        free_c,
        free_d,
        reserve: s.reserve,
        moved_a_bytes: s.moved_a_bytes,
        moved_b_bytes: s.moved_b_bytes,
        moved_a_files: s.moved_a_files,
        moved_b_files: s.moved_b_files,
    }
}

/// What `run_dry` promises: its outcome is exactly the simulated greedy run
/// from the captured scans and readings, and on success everything moved.
pub open spec fn dry_outcome_matches(r: Result<SwapReport, RunError>, a: Seq<FileEntry>, b: Seq<FileEntry>, f_c0: u64, f_d0: u64, reserve: u64) -> bool {
    let outcome = sim_run(init_sim(a, b, f_c0, f_d0, reserve), (a.len() + b.len()) as nat);
    match r {
        Ok(rep) => {
            &&& outcome == (SimResult::Completed {
                moved_a_bytes: rep.moved_a_bytes,
                moved_b_bytes: rep.moved_b_bytes,
                moved_a_files: rep.moved_a_files,
                moved_b_files: rep.moved_b_files,
            })
            &&& rep.moved_a_files == a.len()
            &&& rep.moved_b_files == b.len()
            &&& rep.moved_a_bytes == clamp64(sum_sizes(a))
            &&& rep.moved_b_bytes == clamp64(sum_sizes(b))
            &&& rep.summary@ == report_summary_spec(
                true,
                rep.moved_a_bytes,
                rep.moved_b_bytes,
                rep.moved_a_files,
                rep.moved_b_files,
                clamp64(sum_sizes(a)),
                clamp64(sum_sizes(b)),
            )
        },
        Err(RunError::DeadlockTailA { free_d_eff }) => outcome == (SimResult::DeadlockTailA { free_d_eff }),
        Err(RunError::DeadlockBoth { free_c_eff, free_d_eff }) => outcome == (SimResult::DeadlockBoth {
            free_c_eff,
            free_d_eff,
        }),
    }
}

/// Simulates a whole run in memory: the same decisions, in the same order,
/// as a real run that started from the same scans and free-space readings —
/// only the filesystem effects are missing. Returns the final report, or
/// the deadlock at which the greedy order got stuck.
#[verifier::loop_isolation(false)]
pub fn run_dry(cfg: &SwapConfig, a_files: Vec<FileEntry>, b_files: Vec<FileEntry>, f_c0: u64, f_d0: u64) -> (r: Result<SwapReport, RunError>)
    ensures
        dry_outcome_matches(r, a_files@, b_files@, f_c0, f_d0, cfg.reserve_bytes),
{
    let ghost init = init_sim(a_files@, b_files@, f_c0, f_d0, cfg.reserve_bytes);
    let s_a = total_size(&a_files);
    let s_b = total_size(&b_files);
    let len_a = a_files.len();
    let len_b = b_files.len();
    let mut sched = Scheduler::new(a_files, b_files, cfg.reserve_bytes);
    let mut free_c = f_c0;
    let mut free_d = f_d0;
    let ghost fuel0 = (len_a + len_b) as nat;
    let ghost mut fuel = fuel0;
    proof {
        assert(sched.done_a@ =~= init.done_a);
        assert(sched.done_b@ =~= init.done_b);
        assert(sched_sim_state(sched, free_c, free_d) =~= init);
        lemma_count_done_zero(sched.done_a@, len_a as int);
        lemma_count_done_zero(sched.done_b@, len_b as int);
    }
    loop
        invariant
            sched.wf(),
            sched.a_files@ == init.a,
            sched.b_files@ == init.b,
            sched.reserve == cfg.reserve_bytes,
            init.reserve == cfg.reserve_bytes,
            init.a.len() == len_a,
            init.b.len() == len_b,
            s_a == clamp64(sum_sizes(init.a)),
            s_b == clamp64(sum_sizes(init.b)),
            fuel == (len_a - count_done(sched.done_a@)) + (len_b - count_done(sched.done_b@)),
            sim_run(init, fuel0) == sim_run(sched_sim_state(sched, free_c, free_d), fuel),
            fuel0 == (len_a + len_b) as nat,
        decreases fuel,
    {
        let ghost cur = sched_sim_state(sched, free_c, free_d);
        let m = sched.decide(free_c, free_d);
        proof {
            lemma_decision_targets_undone(
                sched.a_files@,
                sched.b_files@,
                sched.done_a@,
                sched.done_b@,
                free_c,
                free_d,
                sched.reserve,
            );
        }
        match m {
            NextMove::Finished => {
                proof {
                    lemma_count_done_full(sched.done_a@, len_a as int);
                    lemma_count_done_full(sched.done_b@, len_b as int);
                    lemma_sum_done_full(sched.a_files@, sched.done_a@, len_a as int);
                    lemma_sum_done_full(sched.b_files@, sched.done_b@, len_b as int);
                }
                let rep = build_report(
                    true,
                    sched.moved_a_bytes,
                    sched.moved_b_bytes,
                    sched.moved_a_files,
                    sched.moved_b_files,
                    s_a,
                    s_b,
                );
                return Ok(rep);
            },
            NextMove::BToC { idx } => {
                let ghost old_db = sched.done_b@;
                proof {
                    lemma_count_done_le(sched.done_a@, len_a as int);
                    lemma_count_done_missing(old_db, idx as int, len_b as int);
                }
                let sz = sched.b_files[idx].size;
                free_c = sat_sub(free_c, sz);
                free_d = sat_add(free_d, sz);
                sched.commit(m);
                proof {
                    lemma_count_done_update(old_db, idx as int, len_b as int);
                    assert(sched_sim_state(sched, free_c, free_d) =~= sim_commit_b(cur, idx as int));
                    fuel = (fuel - 1) as nat;
                }
            },
            NextMove::AToD { idx } => {
                let ghost old_da = sched.done_a@;
                proof {
                    lemma_count_done_le(sched.done_b@, len_b as int);
                    lemma_count_done_missing(old_da, idx as int, len_a as int);
                }
                let sz = sched.a_files[idx].size;
                free_d = sat_sub(free_d, sz);
                free_c = sat_add(free_c, sz);
                sched.commit(m);
                proof {
                    lemma_count_done_update(old_da, idx as int, len_a as int);
                    assert(sched_sim_state(sched, free_c, free_d) =~= sim_commit_a(cur, idx as int));
                    fuel = (fuel - 1) as nat;
                }
            },
            NextMove::DeadlockTailA => {
                let fde = effective_free(free_d, cfg.reserve_bytes);
                return Err(RunError::DeadlockTailA { free_d_eff: fde });
            },
            NextMove::DeadlockBoth => {
                let fce = effective_free(free_c, cfg.reserve_bytes);
                let fde = effective_free(free_d, cfg.reserve_bytes);
                return Err(RunError::DeadlockBoth { free_c_eff: fce, free_d_eff: fde });
            },
        }
    }
}

fn falses(n: usize) -> (v: Vec<bool>)
    ensures
        v@.len() == n,
        forall|i: int| 0 <= i < n ==> !v@[i],
{
    let mut v: Vec<bool> = Vec::new();
    let mut i: usize = 0;
    while i < n
        invariant
            i <= n,
            v@.len() == i,
            forall|j: int| 0 <= j < i ==> !v@[j],
        decreases n - i,
    {
        v.push(false);
        i = i + 1;
    }
    v
}

} // verus!
