use magic_core::compile::{after_build, after_check, apply_message, CompileGate, CompilerMessage, ToolOutcome};
use magic_core::compiler::{CompilerLockMode, EngineCompilerState};
use magic_core::status::{CompileStatus, CompilerStateManager};

#[test]
fn status_manager_starts_idle() {
    let m = CompilerStateManager::new();
    assert_eq!(m.status, CompileStatus::Idle);
}

#[test]
fn status_manager_setters() {
    let mut m = CompilerStateManager::new();
    m.set_compiling("main.rs", 3);
    assert_eq!(m.status, CompileStatus::Compiling { current_file: "main.rs".to_string(), progress: 3 });
    m.set_error("boom");
    assert_eq!(m.status, CompileStatus::Error("boom".to_string()));
    m.set_success();
    assert_eq!(m.status, CompileStatus::Success);
}

#[test]
fn engine_state_starts_free_without_request() {
    let s = EngineCompilerState::global();
    assert_eq!(s.lock_mode, CompilerLockMode::Free);
    assert!(!s.request_reload);
    assert!(!s.watcher_locked());
}

#[test]
fn lock_then_unlock_frees_watcher_and_keeps_request() {
    let mut s = EngineCompilerState::global();
    s.trigger_recompile();
    s.lock_watcher();
    assert!(s.watcher_locked());
    assert_eq!(s.lock_mode, CompilerLockMode::EditorLock);
    assert!(s.request_reload);
    s.unlock_watcher();
    assert_eq!(s.lock_mode, CompilerLockMode::Free);
    assert!(s.request_reload);
}

#[test]
fn reload_request_is_taken_once() {
    let mut s = EngineCompilerState::global();
    assert!(!s.take_reload_request());
    s.trigger_recompile();
    assert!(s.take_reload_request());
    assert!(!s.take_reload_request());
    assert!(!s.request_reload);
}

#[test]
fn check_outcomes_give_their_reports() {
    assert_eq!(
        after_check(ToolOutcome::Succeeded),
        (CompilerMessage::Indexing("Compiling dynamic module...".to_string(), 1), true)
    );
    assert_eq!(
        after_check(ToolOutcome::Failed),
        (CompilerMessage::CompileError("Cargo check failed.".to_string()), false)
    );
    assert_eq!(
        after_check(ToolOutcome::NotStarted),
        (CompilerMessage::CompileError("Failed to invoke cargo check.".to_string()), false)
    );
}

#[test]
fn build_outcomes_give_their_reports() {
    assert_eq!(after_build(ToolOutcome::Succeeded), CompilerMessage::CompileSuccess);
    assert_eq!(after_build(ToolOutcome::Failed), CompilerMessage::CompileError("Build failed.".to_string()));
    assert_eq!(after_build(ToolOutcome::NotStarted), CompilerMessage::CompileError("Build failed.".to_string()));
}

#[test]
fn messages_update_status_and_ask_for_reload_only_on_success() {
    let mut m = CompilerStateManager::new();
    assert!(!apply_message(&mut m, &CompilerMessage::Indexing("Compiling dynamic module...".to_string(), 1)));
    assert_eq!(
        m.status,
        CompileStatus::Compiling { current_file: "Compiling dynamic module...".to_string(), progress: 1 }
    );
    assert!(apply_message(&mut m, &CompilerMessage::CompileSuccess));
    assert_eq!(m.status, CompileStatus::Success);
    assert!(!apply_message(&mut m, &CompilerMessage::CompileError("Build failed.".to_string())));
    assert_eq!(m.status, CompileStatus::Error("Error".to_string()));
}

#[test]
fn compile_gate_lets_one_compile_run() {
    let mut g = CompileGate::new();
    assert!(!g.busy());
    assert!(g.try_begin());
    assert!(g.busy());
    assert!(!g.try_begin());
    g.finish();
    assert!(!g.busy());
    assert!(g.try_begin());
}

#[test]
fn many_triggers_before_a_frame_start_one_compile() {
    let mut s = EngineCompilerState::global();
    for _ in 0..5 {
        s.trigger_recompile();
    }
    assert!(s.take_reload_request());
    assert!(!s.take_reload_request());
    assert_eq!(s.lock_mode, CompilerLockMode::Free);
}
