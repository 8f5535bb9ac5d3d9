use vstd::prelude::*;
use crate::classify::{accept, accept_spec, EventCategory, PathInfo};
use crate::format::ExportFormat;
use crate::ledger::DebounceLedger;
use crate::paths::is_document_path;

verus! {

/// The two states of the dispatch loop.
#[derive(Clone, Copy, Debug, PartialEq, Eq, Structural)]
pub enum LoopState {
    Watching,
    Stopped,
}

/// How a watch is established on the target path.
#[derive(Clone, Copy, Debug, PartialEq, Eq, Structural)]
pub enum WatchMode {
    RecursiveDirectory,
    SingleFile,
}

/// The startup-time failures, which are fatal before watching begins.
#[derive(Clone, Copy, Debug, PartialEq, Eq, Structural)]
pub enum StartupError {
    PathNotFound,
    UnwatchablePath,
}

/// Decides how to watch the target path.  The caller supplies its
/// filesystem checks as booleans: whether the path exists, is a
/// directory, or is a regular file.  A directory is watched
/// recursively; a regular file with the document extension is watched
/// alone; anything else is a fatal startup error.
pub fn choose_watch_mode(
    path_exists: bool,
    is_dir: bool,
    is_regular_file: bool,
    path: &Vec<u8>,
) -> (r: Result<WatchMode, StartupError>)
    ensures
        !path_exists ==> r == Err::<WatchMode, StartupError>(StartupError::PathNotFound),
        path_exists && is_dir ==> r == Ok::<WatchMode, StartupError>(WatchMode::RecursiveDirectory),
        path_exists && !is_dir && is_regular_file && is_document_path(path@) ==> r == Ok::<
            WatchMode,
            StartupError,
        >(WatchMode::SingleFile),
        path_exists && !is_dir && is_regular_file && !is_document_path(path@) ==> r == Err::<
            WatchMode,
            StartupError,
        >(StartupError::UnwatchablePath),
        path_exists && !is_dir && !is_regular_file ==> r == Err::<WatchMode, StartupError>(
            StartupError::UnwatchablePath,
        ),
{
    if !path_exists {
        Err(StartupError::PathNotFound)
    } else if is_dir {
        Ok(WatchMode::RecursiveDirectory)
    } else if is_regular_file {
        if crate::paths::has_document_extension(path) {
            Ok(WatchMode::SingleFile)
        } else {
            Err(StartupError::UnwatchablePath)
        }
    } else {
        Err(StartupError::UnwatchablePath)
    }
}

/// The paths a notification dispatches, in order: each path that the
/// classifier accepts and that the ledger, threaded through the earlier
/// paths of the same notification, accepts at instant `now`.
pub open spec fn accepted_paths(
    m: Map<Seq<u8>, u64>,
    kind: EventCategory,
    infos: Seq<PathInfo>,
    now: u64,
    d: u64,
) -> Seq<Seq<u8>>
    decreases infos.len(),
{
    if infos.len() == 0 {
        Seq::empty()
    } else {
        let p0 = infos[0];
        let take = accept_spec(kind, p0.is_regular_file, p0.path@) && DebounceLedger::decision(
            m,
            p0.path@,
            now,
            d,
        );
        let m1 = if take {
            m.insert(p0.path@, now)
        } else {
            m
        };
        (if take {
            seq![p0.path@]
        } else {
            Seq::empty()
        }) + accepted_paths(m1, kind, infos.drop_first(), now, d)
    }
}

/// The ledger state after a notification has been handled.
pub open spec fn ledger_after(
    m: Map<Seq<u8>, u64>,
    kind: EventCategory,
    infos: Seq<PathInfo>,
    now: u64,
    d: u64,
) -> Map<Seq<u8>, u64>
    decreases infos.len(),
{
    if infos.len() == 0 {
        m
    } else {
        let p0 = infos[0];
        let take = accept_spec(kind, p0.is_regular_file, p0.path@) && DebounceLedger::decision(
            m,
            p0.path@,
            now,
            d,
        );
        let m1 = if take {
            m.insert(p0.path@, now)
        } else {
            m
        };
        ledger_after(m1, kind, infos.drop_first(), now, d)
    }
}

/// The orchestrator of continuous mode: it owns the debounce ledger and
/// the configuration, consumes one notification at a time, and says
/// which paths to hand to export workers.  It never waits for a worker:
/// its only synchronization point is the ledger's check-and-update.
pub struct Dispatcher {
    /// Watching until the notification stream closes.
    pub state: LoopState,
    /// The target format, chosen once at startup.
    pub format: ExportFormat,
    /// The debounce window in milliseconds.
    pub min_interval: u64,
    /// The shared per-path last-dispatch ledger.
    pub ledger: DebounceLedger,
}

impl Dispatcher {
    pub closed spec fn wf(&self) -> bool {
        self.ledger.wf()
    }

    /// The ledger as a map from path to last accepted dispatch instant.
    pub closed spec fn ledger_view(&self) -> Map<Seq<u8>, u64> {
        self.ledger@
    }

    /// A dispatcher that has just established its watch: watching, with
    /// an empty ledger.
    pub fn new(format: ExportFormat, min_interval: u64) -> (r: Self)
        ensures
            r.wf(),
            r.state == LoopState::Watching,
            r.format == format,
            r.min_interval == min_interval,
            r.ledger_view() == Map::<Seq<u8>, u64>::empty(),
    {
        Dispatcher { state: LoopState::Watching, format, min_interval, ledger: DebounceLedger::new() }
    }

    /// Handles one raw notification: classifies every path it carries,
    /// consults and updates the ledger for the accepted ones, and
    /// returns the paths to export, in notification order.  The caller
    /// spawns one worker per returned path and does not wait for it.
    pub fn handle_notification(&mut self, kind: EventCategory, infos: &Vec<PathInfo>, now: u64) -> (r:
        Vec<Vec<u8>>)
        requires
            old(self).wf(),
        ensures
            final(self).wf(),
            r.deep_view() == accepted_paths(
                old(self).ledger_view(),
                kind,
                infos@,
                now,
                old(self).min_interval,
            ),
            final(self).ledger_view() == ledger_after(
                old(self).ledger_view(),
                kind,
                infos@,
                now,
                old(self).min_interval,
            ),
            final(self).state == old(self).state,
            final(self).format == old(self).format,
            final(self).min_interval == old(self).min_interval,
    {
        let ghost m0 = self.ledger_view();
        let ghost d = self.min_interval;
        let mut out: Vec<Vec<u8>> = Vec::new();
        let mut i: usize = 0;
        proof {
            assert(infos@.skip(0) =~= infos@);
            assert(out.deep_view() + accepted_paths(m0, kind, infos@, now, d) =~~= accepted_paths(
                m0,
                kind,
                infos@,
                now,
                d,
            ));
        }
        while i < infos.len()
            invariant
                i <= infos@.len(),
                self.wf(),
                self.state == old(self).state,
                self.format == old(self).format,
                self.min_interval == old(self).min_interval,
                accepted_paths(m0, kind, infos@, now, d) == out.deep_view() + accepted_paths(
                    self.ledger_view(),
                    kind,
                    infos@.skip(i as int),
                    now,
                    d,
                ),
                ledger_after(m0, kind, infos@, now, d) == ledger_after(
                    self.ledger_view(),
                    kind,
                    infos@.skip(i as int),
                    now,
                    d,
                ),
                m0 == old(self).ledger_view(),
                d == old(self).min_interval,
            decreases infos@.len() - i,
        {
            let ghost pre = self.ledger_view();
            let ghost predv = out.deep_view();
            let info = &infos[i];
            let classified = accept(kind, info.is_regular_file, &info.path);
            let take = if classified {
                self.ledger.should_dispatch(&info.path, now, self.min_interval)
            } else {
                false
            };
            if take {
                out.push(info.path.clone());
            }
            proof {
                let rest = infos@.skip(i as int);
                assert(rest[0] == infos@[i as int]);
                assert(rest.drop_first() =~= infos@.skip(i as int + 1));
                if take {
                    assert(out@.len() == predv.len() + 1);
                    assert(out.deep_view() =~~= predv.push(info.path@));
                }
                assert(predv + accepted_paths(pre, kind, rest, now, d) =~~= out.deep_view()
                    + accepted_paths(self.ledger_view(), kind, infos@.skip(i as int + 1), now, d));
            }
            i = i + 1;
        }
        proof {
            assert(infos@.skip(infos@.len() as int) =~= Seq::<PathInfo>::empty());
            assert(out.deep_view() + Seq::<Seq<u8>>::empty() =~~= out.deep_view());
        }
        out
    }

    /// The same-path race at the dispatch level: two qualifying events
    /// for one path, with no prior entry for it and instants within the
    /// debounce window of each other, produce exactly one dispatched
    /// export between them — the notification handled first dispatches
    /// the path and records its instant, and the other, observing that
    /// record, dispatches nothing.  The ledger is taken exclusively by
    /// each check-and-update, so concurrent calls land in one of the
    /// two orders this covers.
    pub proof fn lemma_concurrent_event_race(
        m: Map<Seq<u8>, u64>,
        kind1: EventCategory,
        kind2: EventCategory,
        info1: PathInfo,
        info2: PathInfo,
        t1: u64,
        t2: u64,
        d: u64,
    )
        requires
            !m.contains_key(info1.path@),
            info2.path@ == info1.path@,
            accept_spec(kind1, info1.is_regular_file, info1.path@),
            accept_spec(kind2, info2.is_regular_file, info2.path@),
            crate::ledger::elapsed_millis(t1, t2) < d,
        ensures
            accepted_paths(m, kind1, seq![info1], t1, d) == seq![info1.path@],
            accepted_paths(ledger_after(m, kind1, seq![info1], t1, d), kind2, seq![info2], t2, d)
                == Seq::<Seq<u8>>::empty(),
    {
        let one = seq![info1];
        let two = seq![info2];
        assert(one.len() == 1 && one[0] == info1);
        assert(two.len() == 1 && two[0] == info2);
        assert(one.drop_first() =~= Seq::<PathInfo>::empty());
        assert(two.drop_first() =~= Seq::<PathInfo>::empty());
        assert(accepted_paths(m.insert(info1.path@, t1), kind1, one.drop_first(), t1, d)
            == Seq::<Seq<u8>>::empty());
        assert(ledger_after(m.insert(info1.path@, t1), kind1, one.drop_first(), t1, d)
            == m.insert(info1.path@, t1));
        assert(accepted_paths(m.insert(info1.path@, t1), kind2, two.drop_first(), t2, d)
            == Seq::<Seq<u8>>::empty());
        assert(DebounceLedger::decision(m, info1.path@, t1, d));
        assert(accepted_paths(m, kind1, one, t1, d) =~~= seq![info1.path@]);
        assert(ledger_after(m, kind1, one, t1, d) == m.insert(info1.path@, t1));
        let m1 = m.insert(info1.path@, t1);
        assert(!DebounceLedger::decision(m1, info2.path@, t2, d));
        assert(accepted_paths(m1, kind2, two, t2, d) =~~= Seq::<Seq<u8>>::empty());
    }

    /// A notification-stream error: the caller logs it; the loop keeps
    /// watching and nothing changes.
    pub fn handle_stream_error(&mut self)
        ensures
            *final(self) == *old(self),
    {
    }

    /// The notification stream closed, which no normal operation
    /// requests: the loop stops.
    pub fn handle_stream_closed(&mut self)
        ensures
            final(self).state == LoopState::Stopped,
            final(self).format == old(self).format,
            final(self).min_interval == old(self).min_interval,
            final(self).ledger_view() == old(self).ledger_view(),
            final(self).wf() == old(self).wf(),
    {
        self.state = LoopState::Stopped;
    }
}

} // verus!
