use vstd::prelude::*;

verus! {

/// Whether the file watcher may start compiles on its own.
#[derive(Debug, Clone, Copy, PartialEq, Eq, Structural)]
pub enum CompilerLockMode {
    /// The watcher reacts to file changes.
    Free,
    /// The editor holds the compiler; file changes are ignored.
    EditorLock,
}

/// The engine-wide compiler switches: the watcher lock and a pending
/// request for a recompile. The application keeps one instance of it,
/// shared behind a lock, for the whole process.
#[derive(Debug, Clone, Copy, PartialEq, Eq, Structural)]
pub struct EngineCompilerState {
    pub lock_mode: CompilerLockMode,
    pub request_reload: bool,
}

/// The state with the watcher locked.
pub open spec fn locked(s: EngineCompilerState) -> EngineCompilerState {
    EngineCompilerState { lock_mode: CompilerLockMode::EditorLock, ..s }
}

/// The state with the watcher free.
pub open spec fn unlocked(s: EngineCompilerState) -> EngineCompilerState {
    EngineCompilerState { lock_mode: CompilerLockMode::Free, ..s }
}

/// The state with a recompile requested.
pub open spec fn triggered(s: EngineCompilerState) -> EngineCompilerState {
    EngineCompilerState { request_reload: true, ..s }
}

/// Taking the pending request: whether there was one, and the state
/// without it.
pub open spec fn taken(s: EngineCompilerState) -> (bool, EngineCompilerState) {
    (s.request_reload, EngineCompilerState { request_reload: false, ..s })
}

impl EngineCompilerState {
    /// The state the engine-wide instance starts in: watcher free, nothing
    /// requested.
    pub fn global() -> (s: Self)
        ensures
            s.lock_mode == CompilerLockMode::Free,
            !s.request_reload,
    {
        EngineCompilerState { lock_mode: CompilerLockMode::Free, request_reload: false }
    }

    /// Stops the watcher from starting compiles.
    pub fn lock_watcher(&mut self)
        ensures
            *final(self) == locked(*old(self)),
    {
        self.lock_mode = CompilerLockMode::EditorLock;
    }

    /// Lets the watcher start compiles again.
    pub fn unlock_watcher(&mut self)
        ensures
            *final(self) == unlocked(*old(self)),
    {
        self.lock_mode = CompilerLockMode::Free;
    }

    /// Asks for a recompile at the next frame.
    pub fn trigger_recompile(&mut self)
        ensures
            *final(self) == triggered(*old(self)),
    {
        self.request_reload = true;
    }

    /// Takes the pending recompile request, if any, as a frame does.
    pub fn take_reload_request(&mut self) -> (r: bool)
        ensures
            (r, *final(self)) == taken(*old(self)),
    {
        let r = self.request_reload;
        self.request_reload = false;
        r
    }

    /// Whether the watcher must ignore file changes.
    pub fn watcher_locked(&self) -> (r: bool)
        ensures
            r == (self.lock_mode == CompilerLockMode::EditorLock),
    {
        match self.lock_mode {
            CompilerLockMode::EditorLock => true,
            CompilerLockMode::Free => false,
        }
    }
}

/// Unlocking after locking leaves the watcher free, whatever the state was,
/// and neither touches a pending request.
pub proof fn law_lock_then_unlock(s: EngineCompilerState)
    ensures
        unlocked(locked(s)) == unlocked(s),
        unlocked(locked(s)).lock_mode == CompilerLockMode::Free,
        locked(s).request_reload == s.request_reload,
        unlocked(s).request_reload == s.request_reload,
{
}

/// A requested recompile is handed out exactly once: the first take after a
/// trigger answers yes, the next one no.
pub proof fn law_request_taken_once(s: EngineCompilerState)
    ensures
        taken(triggered(s)).0,
        !taken(taken(triggered(s)).1).0,
        taken(triggered(s)).1.lock_mode == s.lock_mode,
{
}

/// Triggering a recompile does not change the watcher lock, and locking or
/// unlocking does not lose a pending request.
pub proof fn law_lock_and_request_independent(s: EngineCompilerState)
    ensures
        triggered(locked(s)) == locked(triggered(s)),
        triggered(unlocked(s)) == unlocked(triggered(s)),
{
}

/// The state after `k` recompile requests.
pub open spec fn triggered_times(s: EngineCompilerState, k: nat) -> EngineCompilerState
    decreases k,
{
    if k == 0 {
        s
    } else {
        triggered(triggered_times(s, (k - 1) as nat))
    }
}

/// Any number of requests before a frame start at most one compile there:
/// the frame's take answers yes exactly when there was at least one request
/// (or one was already pending), the request is gone afterwards, and the
/// watcher lock is untouched.
pub proof fn law_many_triggers_one_compile(s: EngineCompilerState, k: nat)
    ensures
        taken(triggered_times(s, k)).0 == (k > 0 || s.request_reload),
        !taken(triggered_times(s, k)).1.request_reload,
        !taken(taken(triggered_times(s, k)).1).0,
        taken(triggered_times(s, k)).1.lock_mode == s.lock_mode,
    decreases k,
{
    if k > 0 {
        law_many_triggers_one_compile(s, (k - 1) as nat);
    }
}

} // verus!
