use vstd::prelude::*;
use crate::paths::bytes_eq;

verus! {

/// The default debounce window, in milliseconds.
pub const DEFAULT_DEBOUNCE_MILLIS: u64 = 100;

/// Milliseconds elapsed from `last` to `now`, saturating at zero when
/// `now` is earlier.
pub open spec fn elapsed_millis(last: u64, now: u64) -> u64 {
    if now >= last {
        (now - last) as u64
    } else {
        0
    }
}

/// One ledger entry: a document path and the instant, in caller
/// milliseconds, of its last accepted dispatch.
pub struct LedgerEntry {
    pub path: Vec<u8>,
    pub last_dispatch: u64,
}

spec fn map_of(s: Seq<LedgerEntry>) -> Map<Seq<u8>, u64>
    decreases s.len(),
{
    if s.len() == 0 {
        Map::empty()
    } else {
        map_of(s.drop_last()).insert(s.last().path@, s.last().last_dispatch)
    }
}

spec fn keys_unique(s: Seq<LedgerEntry>) -> bool {
    forall|i: int, j: int| 0 <= i < j < s.len() ==> s[i].path@ != s[j].path@
}

proof fn lemma_keys_unique_drop_last(s: Seq<LedgerEntry>)
    requires
        keys_unique(s),
        s.len() > 0,
    ensures
        keys_unique(s.drop_last()),
{
    assert forall|i: int, j: int| 0 <= i < j < s.drop_last().len() implies s.drop_last()[i].path@
        != s.drop_last()[j].path@ by {
        assert(s[i].path@ != s[j].path@);
    }
}

proof fn lemma_map_of_contains(s: Seq<LedgerEntry>, k: Seq<u8>)
    ensures
        map_of(s).contains_key(k) <==> exists|i: int| 0 <= i < s.len() && s[i].path@ == k,
    decreases s.len(),
{
    if s.len() == 0 {
    } else {
        lemma_map_of_contains(s.drop_last(), k);
        if s.last().path@ == k {
            assert(s[s.len() - 1].path@ == k);
        } else {
            if map_of(s).contains_key(k) {
                let i = choose|i: int| 0 <= i < s.drop_last().len() && s.drop_last()[i].path@ == k;
                assert(s[i].path@ == k);
            }
            if exists|i: int| 0 <= i < s.len() && s[i].path@ == k {
                let i = choose|i: int| 0 <= i < s.len() && s[i].path@ == k;
                assert(i < s.len() - 1);
                assert(s.drop_last()[i].path@ == k);
            }
        }
    }
}

proof fn lemma_map_of_lookup(s: Seq<LedgerEntry>, i: int)
    requires
        keys_unique(s),
        0 <= i < s.len(),
    ensures
        map_of(s).contains_key(s[i].path@),
        map_of(s)[s[i].path@] == s[i].last_dispatch,
    decreases s.len(),
{
    if i == s.len() - 1 {
    } else {
        lemma_keys_unique_drop_last(s);
        lemma_map_of_lookup(s.drop_last(), i);
        assert(s.drop_last()[i] == s[i]);
        assert(s.last().path@ != s[i].path@);
    }
}

proof fn lemma_map_of_update(s: Seq<LedgerEntry>, i: int, e: LedgerEntry)
    requires
        keys_unique(s),
        0 <= i < s.len(),
        e.path@ == s[i].path@,
    ensures
        map_of(s.update(i, e)) == map_of(s).insert(e.path@, e.last_dispatch),
    decreases s.len(),
{
    let t = s.update(i, e);
    if i == s.len() - 1 {
        assert(t.drop_last() =~= s.drop_last());
        assert(t.last() == e);
        assert(map_of(t) =~= map_of(s).insert(e.path@, e.last_dispatch));
    } else {
        lemma_keys_unique_drop_last(s);
        lemma_map_of_update(s.drop_last(), i, e);
        assert(t.drop_last() =~= s.drop_last().update(i, e));
        assert(t.last() == s.last());
        assert(s.last().path@ != e.path@);
        assert(map_of(t) =~= map_of(s).insert(e.path@, e.last_dispatch));
    }
}

proof fn lemma_map_of_push(s: Seq<LedgerEntry>, e: LedgerEntry)
    ensures
        map_of(s.push(e)) == map_of(s).insert(e.path@, e.last_dispatch),
{
    assert(s.push(e).drop_last() =~= s);
    assert(s.push(e).last() == e);
}

/// The shared mapping from document path to the instant of its last
/// accepted dispatch.  An entry appears only after the path's first
/// accepted dispatch and is never removed.  The check-and-update
/// operation takes the ledger exclusively (`&mut self`), so concurrent
/// callers are linearized: each call sees the state the previous call
/// left behind, which is the atomicity the debounce rule needs.
pub struct DebounceLedger {
    entries: Vec<LedgerEntry>,
}

impl View for DebounceLedger {
    type V = Map<Seq<u8>, u64>;

    closed spec fn view(&self) -> Map<Seq<u8>, u64> {
        map_of(self.entries@)
    }
}

impl DebounceLedger {
    /// One entry per path.
    pub closed spec fn wf(&self) -> bool {
        keys_unique(self.entries@)
    }

    /// An empty ledger: no path has been dispatched yet.
    pub fn new() -> (r: Self)
        ensures
            r.wf(),
            r@ == Map::<Seq<u8>, u64>::empty(),
    {
        DebounceLedger { entries: Vec::new() }
    }

    /// The debounce decision as a pure function of the ledger state: a
    /// path is dispatched when it has no recorded dispatch yet, or when
    /// at least `min_interval` milliseconds have elapsed since the one
    /// recorded.
    pub open spec fn decision(m: Map<Seq<u8>, u64>, path: Seq<u8>, now: u64, min_interval: u64) -> bool {
        ||| !m.contains_key(path)
        ||| elapsed_millis(m[path], now) >= min_interval
    }

    /// The atomic check-and-update: returns whether to dispatch, and
    /// records `now` as the path's last dispatch time exactly when it
    /// returns true.  Recording happens before any export runs, so the
    /// dispatch rate is bounded by event arrival, not export duration.
    pub fn should_dispatch(&mut self, path: &Vec<u8>, now: u64, min_interval: u64) -> (r: bool)
        requires
            old(self).wf(),
        ensures
            final(self).wf(),
            r == Self::decision(old(self)@, path@, now, min_interval),
            r ==> final(self)@ == old(self)@.insert(path@, now),
            !r ==> final(self)@ == old(self)@,
    {
        let n = self.entries.len();
        let mut i: usize = 0;
        while i < n
            invariant
                i <= n,
                *self == *old(self),
                n == self.entries@.len(),
                old(self).wf(),
                forall|k: int| 0 <= k < i ==> self.entries@[k].path@ != path@,
            decreases n - i,
        {
            let hit = bytes_eq(&self.entries[i].path, path);
            if hit {
                proof {
                    lemma_map_of_lookup(self.entries@, i as int);
                }
                let last = self.entries[i].last_dispatch;
                let el = if now >= last {
                    now - last
                } else {
                    0
                };
                if el >= min_interval {
                    let e = LedgerEntry { path: path.clone(), last_dispatch: now };
                    let ghost ge = e;
                    self.entries.set(i, e);
                    proof {
                        lemma_map_of_update(old(self).entries@, i as int, ge);
                        assert forall|a: int, b: int|
                            0 <= a < b < self.entries@.len() implies self.entries@[a].path@
                            != self.entries@[b].path@ by {
                            assert(old(self).entries@[a].path@ != old(self).entries@[b].path@);
                        }
                    }
                    return true;
                } else {
                    return false;
                }
            }
            i = i + 1;
        }
        proof {
            lemma_map_of_contains(self.entries@, path@);
        }
        let e = LedgerEntry { path: path.clone(), last_dispatch: now };
        let ghost ge = e;
        self.entries.push(e);
        proof {
            lemma_map_of_push(old(self).entries@, ge);
            assert forall|a: int, b: int| 0 <= a < b < self.entries@.len() implies self.entries@[a].path@
                != self.entries@[b].path@ by {
                if b < self.entries@.len() - 1 {
                    assert(old(self).entries@[a].path@ != old(self).entries@[b].path@);
                } else {
                    assert(old(self).entries@[a].path@ != path@);
                }
            }
        }
        true
    }

    /// Runs the check-and-update once per instant in `times`, in order,
    /// for one path; returns the decision made at each instant.
    pub fn decide_sequence(&mut self, path: &Vec<u8>, times: &Vec<u64>, min_interval: u64) -> (r:
        Vec<bool>)
        requires
            old(self).wf(),
        ensures
            final(self).wf(),
            r@ == run_decisions(old(self)@, path@, times@, min_interval),
    {
        let mut out: Vec<bool> = Vec::new();
        let mut i: usize = 0;
        proof {
            assert(times@.skip(0) =~= times@);
            assert(Seq::<bool>::empty() + run_decisions(old(self)@, path@, times@, min_interval)
                =~= run_decisions(old(self)@, path@, times@, min_interval));
        }
        while i < times.len()
            invariant
                i <= times@.len(),
                self.wf(),
                out@.len() == i,
                run_decisions(old(self)@, path@, times@, min_interval) == out@ + run_decisions(
                    self@,
                    path@,
                    times@.skip(i as int),
                    min_interval,
                ),
            decreases times@.len() - i,
        {
            let ghost pre = self@;
            let ghost preout = out@;
            let b = self.should_dispatch(path, times[i], min_interval);
            out.push(b);
            proof {
                let rest = times@.skip(i as int);
                assert(rest[0] == times@[i as int]);
                assert(rest.drop_first() =~= times@.skip(i as int + 1));
                assert(out@ =~= preout.push(b));
                assert(preout + run_decisions(pre, path@, rest, min_interval) =~= out@
                    + run_decisions(self@, path@, times@.skip(i as int + 1), min_interval));
            }
            i = i + 1;
        }
        proof {
            assert(times@.skip(times@.len() as int) =~= Seq::<u64>::empty());
            assert(out@ + Seq::<bool>::empty() =~= out@);
        }
        out
    }
}

/// The decisions the ledger makes on a sequence of call instants for
/// one path, starting from ledger state `m`.
pub open spec fn run_decisions(m: Map<Seq<u8>, u64>, path: Seq<u8>, times: Seq<u64>, d: u64) -> Seq<
    bool,
>
    decreases times.len(),
{
    if times.len() == 0 {
        Seq::empty()
    } else {
        let r0 = DebounceLedger::decision(m, path, times[0], d);
        let m1 = if r0 {
            m.insert(path, times[0])
        } else {
            m
        };
        seq![r0] + run_decisions(m1, path, times.drop_first(), d)
    }
}

/// The greedy acceptance rule: the first instant is accepted, and each
/// later instant is accepted exactly when it lies `d` or more after the
/// last accepted instant.
pub open spec fn greedy_from(times: Seq<u64>, d: u64, last_accepted: Option<u64>) -> Seq<bool>
    decreases times.len(),
{
    if times.len() == 0 {
        Seq::empty()
    } else {
        let acc = match last_accepted {
            None => true,
            Some(l) => times[0] >= l + d,
        };
        let nl = if acc {
            Some(times[0])
        } else {
            last_accepted
        };
        seq![acc] + greedy_from(times.drop_first(), d, nl)
    }
}

/// The greedy subsequence of accepted instants, starting fresh.
pub open spec fn greedy_decisions(times: Seq<u64>, d: u64) -> Seq<bool> {
    greedy_from(times, d, None)
}

pub open spec fn sorted_increasing(times: Seq<u64>) -> bool {
    forall|i: int, j: int| 0 <= i < j < times.len() ==> times[i] < times[j]
}

proof fn lemma_run_matches_greedy(
    m: Map<Seq<u8>, u64>,
    path: Seq<u8>,
    times: Seq<u64>,
    d: u64,
    last_accepted: Option<u64>,
)
    requires
        sorted_increasing(times),
        m.contains_key(path) <==> last_accepted is Some,
        last_accepted matches Some(l) ==> m[path] == l && (times.len() > 0 ==> l <= times[0]),
    ensures
        run_decisions(m, path, times, d) == greedy_from(times, d, last_accepted),
    decreases times.len(),
{
    if times.len() == 0 {
    } else {
        let r0 = DebounceLedger::decision(m, path, times[0], d);
        let acc = match last_accepted {
            None => true,
            Some(l) => times[0] >= l + d,
        };
        assert(r0 == acc);
        let m1 = if r0 {
            m.insert(path, times[0])
        } else {
            m
        };
        let nl = if acc {
            Some(times[0])
        } else {
            last_accepted
        };
        let rest = times.drop_first();
        assert(sorted_increasing(rest)) by {
            assert forall|i: int, j: int| 0 <= i < j < rest.len() implies rest[i] < rest[j] by {
                assert(times[i + 1] < times[j + 1]);
            }
        }
        assert(rest.len() > 0 ==> rest[0] == times[1] && times[0] < times[1]);
        lemma_run_matches_greedy(m1, path, rest, d, nl);
    }
}

/// Debounce correctness: starting from a ledger with no entry for
/// `path`, a strictly increasing sequence of call instants is accepted
/// exactly on the greedy subsequence in which each accepted instant
/// lies at least `d` milliseconds after the previous accepted one; all
/// other instants are rejected.
pub proof fn lemma_debounce_greedy(path: Seq<u8>, times: Seq<u64>, d: u64)
    requires
        sorted_increasing(times),
    ensures
        run_decisions(Map::empty(), path, times, d) == greedy_decisions(times, d),
{
    lemma_run_matches_greedy(Map::empty(), path, times, d, None);
}

/// The same-path race: with no prior entry for `path`, of two
/// check-and-update calls whose instants lie within the debounce window
/// of each other, the one linearized first is accepted and the other is
/// rejected — exactly one wins, whichever order the two calls take.
pub proof fn lemma_same_path_race(m: Map<Seq<u8>, u64>, path: Seq<u8>, t1: u64, t2: u64, d: u64)
    requires
        !m.contains_key(path),
        elapsed_millis(t1, t2) < d,
        elapsed_millis(t2, t1) < d,
    ensures
        DebounceLedger::decision(m, path, t1, d),
        !DebounceLedger::decision(m.insert(path, t1), path, t2, d),
        DebounceLedger::decision(m, path, t2, d),
        !DebounceLedger::decision(m.insert(path, t2), path, t1, d),
{
}

} // verus!
