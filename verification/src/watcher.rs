use vstd::prelude::*;

use crate::compiler::CompilerLockMode;
use crate::text::{contains_spec, contains_text, ends_with, ends_with_spec, strings_view};

verus! {

/// Changes closer together than this (in nanoseconds) are one burst: the
/// later one only moves the burst's end.
pub const BURST_GAP_NS: u64 = 500_000_000;

/// A compile starts only when no change came in this long (in nanoseconds)
/// before the delayed check.
pub const SETTLE_NS: u64 = 800_000_000;

/// How long the worker waits before it checks that the files have settled,
/// in milliseconds.
pub const SETTLE_DELAY_MS: u64 = 1000;

/// A changed path that may call for a recompile: a Rust source or a
/// package manifest, outside build output and git metadata.
pub open spec fn watched_path_spec(p: Seq<char>) -> bool {
    &&& ends_with_spec(p, ".rs"@) || ends_with_spec(p, "package.json"@)
    &&& !contains_spec(p, "/target/"@)
    &&& !contains_spec(p, "/.git/"@)
}

/// Whether a change to `path` may call for a recompile.
pub fn is_watched_path(path: &str) -> (r: bool)
    ensures
        r == watched_path_spec(path@),
{
    (ends_with(path, ".rs") || ends_with(path, "package.json")) && !contains_text(path, "/target/")
        && !contains_text(path, "/.git/")
}

/// Some path of an event may call for a recompile.
pub open spec fn any_watched_spec(paths: Seq<Seq<char>>) -> bool {
    exists|i: int| 0 <= i < paths.len() && watched_path_spec(#[trigger] paths[i])
}

/// Whether any of `paths` may call for a recompile.
pub fn any_watched_path(paths: &Vec<String>) -> (r: bool)
    ensures
        r == any_watched_spec(strings_view(paths@)),
{
    let n = paths.len();
    let mut i: usize = 0;
    while i < n
        invariant
            n == paths@.len(),
            i <= n,
            forall|j: int| 0 <= j < i ==> !watched_path_spec(#[trigger] strings_view(paths@)[j]),
        decreases n - i,
    {
        assert(strings_view(paths@)[i as int] == paths@[i as int]@);
        if is_watched_path(paths[i].as_str()) {
            return true;
        }
        i = i + 1;
    }
    false
}

/// The time from `from` to `to`, nothing when `to` is not later.
pub open spec fn elapsed(from: u64, to: u64) -> nat {
    if to >= from {
        (to - from) as nat
    } else {
        0
    }
}

/// An event is considered at all: the watcher is not locked, the event
/// modified or created something, some path may call for a recompile, and
/// no compile is running.
pub open spec fn event_counts(
    lock: CompilerLockMode,
    modify_or_create: bool,
    paths: Seq<Seq<char>>,
    compiling: bool,
) -> bool {
    &&& lock == CompilerLockMode::Free
    &&& modify_or_create
    &&& any_watched_spec(paths)
    &&& !compiling
}

/// Decides, for each file event, whether to schedule a delayed compile.
/// Times are nanoseconds on one monotonic clock.
pub struct ChangeDebouncer {
    last_change_ns: u64,
}

impl ChangeDebouncer {
    /// A debouncer whose last change is at `now_ns`.
    pub fn new(now_ns: u64) -> (d: Self)
        ensures
            d.last_change() == now_ns,
    {
        ChangeDebouncer { last_change_ns: now_ns }
    }

    /// The time of the last change that counted.
    pub closed spec fn last_change(&self) -> u64 {
        self.last_change_ns
    }

    /// Handles one file event seen at `now_ns`; returns whether a delayed
    /// compile is to be scheduled. An event that counts always becomes the
    /// last change; it schedules only when it is not part of a burst.
    pub fn on_event(
        &mut self,
        lock: CompilerLockMode,
        modify_or_create: bool,
        paths: &Vec<String>,
        compiling: bool,
        now_ns: u64,
    ) -> (schedule: bool)
        ensures
            !event_counts(lock, modify_or_create, strings_view(paths@), compiling) ==> !schedule
                && final(self).last_change() == old(self).last_change(),
            event_counts(lock, modify_or_create, strings_view(paths@), compiling) ==> (schedule, final(self).last_change())
                == debounce(old(self).last_change(), now_ns),
    {
        match lock {
            CompilerLockMode::EditorLock => {
                return false;
            },
            CompilerLockMode::Free => {},
        }
        if !modify_or_create {
            return false;
        }
        if !any_watched_path(paths) {
            return false;
        }
        if compiling {
            return false;
        }
        let since = if now_ns >= self.last_change_ns {
            now_ns - self.last_change_ns
        } else {
            0
        };
        self.last_change_ns = now_ns;
        since >= BURST_GAP_NS
    }

    /// Whether no change has counted for the settle time before `now_ns`,
    /// so that the delayed compile is to go ahead.
    pub fn settled(&self, now_ns: u64) -> (r: bool)
        ensures
            r == settled_at(self.last_change(), now_ns),
    {
        let since = if now_ns >= self.last_change_ns {
            now_ns - self.last_change_ns
        } else {
            0
        };
        since >= SETTLE_NS
    }
}

/// A change that counts, at `now`, after the last one at `last`: whether it
/// schedules a delayed compile (it does unless it is part of a burst), and
/// the new time of the last change.
pub open spec fn debounce(last: u64, now: u64) -> (bool, u64) {
    (elapsed(last, now) >= BURST_GAP_NS, now)
}

/// The delayed check at `now` finds the files settled since the last change
/// at `last`.
pub open spec fn settled_at(last: u64, now: u64) -> bool {
    elapsed(last, now) >= SETTLE_NS
}

/// Of two changes that count and come within the burst gap of each other,
/// the second schedules nothing.
pub proof fn law_burst_schedules_once(last: u64, t1: u64, t2: u64)
    requires
        t1 <= t2,
        t2 - t1 < BURST_GAP_NS,
    ensures
        !debounce(debounce(last, t1).1, t2).0,
{
}

/// A delayed check never finds the files settled while a change that
/// counted is more recent than the settle time, so a burst that goes on
/// keeps postponing the compile.
pub proof fn law_no_compile_during_burst(last: u64, t: u64, check: u64)
    requires
        t <= check,
        check - t < SETTLE_NS,
    ensures
        !settled_at(debounce(last, t).1, check),
{
}

/// An event counts for a recompile exactly when one of its paths is
/// watched, wherever that path stands among them.
pub proof fn law_any_path_counts(paths: Seq<Seq<char>>, i: int)
    requires
        0 <= i < paths.len(),
        watched_path_spec(paths[i]),
    ensures
        any_watched_spec(paths),
{
}

/// No watched path, no recompile; and adding paths to an event never takes
/// a recompile away, whether they come before or after.
pub proof fn law_watched_paths_only_add(paths: Seq<Seq<char>>, more: Seq<Seq<char>>)
    ensures
        (forall|i: int| 0 <= i < paths.len() ==> !watched_path_spec(#[trigger] paths[i])) ==> !any_watched_spec(paths),
        any_watched_spec(paths) ==> any_watched_spec(paths + more),
        any_watched_spec(paths) ==> any_watched_spec(more + paths),
{
    if any_watched_spec(paths) {
        let i = choose|i: int| 0 <= i < paths.len() && watched_path_spec(#[trigger] paths[i]);
        assert((paths + more)[i] == paths[i]);
        assert((more + paths)[more.len() + i] == paths[i]);
    }
}

/// Once the files have settled, they stay settled for every later check
/// with no new change in between.
pub proof fn law_settled_stays_settled(last: u64, now: u64, later: u64)
    requires
        settled_at(last, now),
        now <= later,
    ensures
        settled_at(last, later),
{
}

/// The check is settled exactly when at least the settle time has passed
/// since the last change; in particular the worker's check, made the
/// settle delay after a change with none since, is settled.
pub proof fn law_settled_after_quiet_time(last: u64, now: u64)
    requires
        last <= now,
    ensures
        settled_at(last, now) <==> now - last >= SETTLE_NS,
        now - last >= SETTLE_DELAY_MS * 1_000_000 ==> settled_at(last, now),
{
}

/// A change that schedules a compile would also have scheduled one had it
/// come later.
pub proof fn law_debounce_monotone(last: u64, now: u64, later: u64)
    requires
        debounce(last, now).0,
        now <= later,
    ensures
        debounce(last, later).0,
{
}

} // verus!
