use magic_core::compiler::CompilerLockMode;
use magic_core::profiles::{profile_manifest, PackageDirEntry, PackageReloader, ProfileKind};
use magic_core::watcher::{any_watched_path, is_watched_path, ChangeDebouncer};

fn entry(name: &str, is_dir: bool, has_manifest: bool, has_editor: bool, has_runtime: bool) -> PackageDirEntry {
    PackageDirEntry { name: name.to_string(), is_dir, has_manifest, has_editor, has_runtime }
}

#[test]
fn reloader_keeps_its_root() {
    let r = PackageReloader::new("./packages");
    assert_eq!(r.packages_root(), "./packages");
}

#[test]
fn plan_numbers_packages_in_order() {
    let r = PackageReloader::new("packages");
    let entries = vec![
        entry("notes.txt", false, false, false, false),
        entry("alpha", true, true, true, false),
        entry("empty_dir", true, false, true, true),
        entry("beta", true, true, false, true),
        entry("gamma", true, true, true, true),
    ];
    let plan = r.plan_profiles(&entries);
    let got: Vec<(String, usize, bool, bool)> =
        plan.iter().map(|s| (s.package_id.clone(), s.position, s.editor, s.runtime)).collect();
    assert_eq!(
        got,
        vec![
            ("alpha".to_string(), 1, true, false),
            ("beta".to_string(), 2, false, true),
            ("gamma".to_string(), 3, true, true),
        ]
    );
    assert!(r.plan_profiles(&Vec::new()).is_empty());
}

#[test]
fn editor_profile_manifest() {
    let text = profile_manifest(ProfileKind::Editor, "tool", "/home/u/packages/tool/editor");
    assert_eq!(
        text,
        "[package]\nname = \"profile_editor_tool\"\nversion = \"0.1.0\"\nedition = \"2024\"\n\n[dependencies]\ntool_editor = { path = \"/home/u/packages/tool/editor\" }"
    );
}

#[test]
fn engine_profile_manifest_strips_verbatim_marker() {
    let text = profile_manifest(ProfileKind::Engine, "tool", "\\\\?\\C:\\p\\tool\\runtime");
    assert_eq!(
        text,
        "[package]\nname = \"profile_engine_tool\"\nversion = \"0.1.0\"\nedition = \"2024\"\n\n[dependencies]\ntool_runtime = { path = \"C:\\p\\tool\\runtime\" }"
    );
}

#[test]
fn profile_folders() {
    assert_eq!(ProfileKind::Editor.profiles_dir(), "editor/editor_profiles");
    assert_eq!(ProfileKind::Engine.profiles_dir(), "engine/engine_profiles");
    assert_eq!(ProfileKind::Editor.source_dir(), "editor");
    assert_eq!(ProfileKind::Engine.source_dir(), "runtime");
}

#[test]
fn watched_paths() {
    assert!(is_watched_path("/w/packages/a/src/lib.rs"));
    assert!(is_watched_path("/w/packages/a/package.json"));
    assert!(!is_watched_path("/w/packages/a/target/debug/x.rs"));
    assert!(!is_watched_path("/w/.git/hooks/x.rs"));
    assert!(!is_watched_path("/w/packages/a/README.md"));
    assert!(any_watched_path(&vec!["a.txt".to_string(), "b.rs".to_string()]));
    assert!(!any_watched_path(&vec![]));
}

#[test]
fn debouncer_schedules_once_per_burst() {
    let paths = vec!["/w/packages/a/src/lib.rs".to_string()];
    let ms = 1_000_000u64;
    let mut d = ChangeDebouncer::new(0);
    assert!(d.on_event(CompilerLockMode::Free, true, &paths, false, 600 * ms));
    assert!(!d.on_event(CompilerLockMode::Free, true, &paths, false, 900 * ms));
    assert!(!d.on_event(CompilerLockMode::Free, true, &paths, false, 1300 * ms));
    assert!(d.on_event(CompilerLockMode::Free, true, &paths, false, 1800 * ms));
    assert!(!d.settled(2500 * ms));
    assert!(d.settled(2600 * ms));
}

#[test]
fn debouncer_ignores_events_that_do_not_count() {
    let paths = vec!["/w/packages/a/src/lib.rs".to_string()];
    let other = vec!["/w/notes.txt".to_string()];
    let ms = 1_000_000u64;
    let mut d = ChangeDebouncer::new(0);
    assert!(!d.on_event(CompilerLockMode::EditorLock, true, &paths, false, 600 * ms));
    assert!(!d.on_event(CompilerLockMode::Free, false, &paths, false, 700 * ms));
    assert!(!d.on_event(CompilerLockMode::Free, true, &other, false, 800 * ms));
    assert!(!d.on_event(CompilerLockMode::Free, true, &paths, true, 900 * ms));
    assert!(d.settled(900 * ms));
    assert!(d.on_event(CompilerLockMode::Free, true, &paths, false, 1000 * ms));
    assert!(!d.settled(1000 * ms));
}

use magic_core::profiles::{ProfileStep, ProfileSync};
use magic_core::status::{CompileStatus, CompilerStateManager};

#[test]
fn sync_goes_step_by_step_then_reports_success() {
    let mut status = CompilerStateManager::new();
    let plan = vec![
        ProfileStep { package_id: "beta".to_string(), position: 1, editor: true, runtime: true },
        ProfileStep { package_id: "g".to_string(), position: 2, editor: false, runtime: true },
        ProfileStep { package_id: "h".to_string(), position: 3, editor: false, runtime: false },
    ];
    let mut sync = ProfileSync::new(plan);
    assert_eq!(sync.advance(&mut status), Some(("beta".to_string(), vec![ProfileKind::Editor, ProfileKind::Engine])));
    assert_eq!(status.status, CompileStatus::Compiling { current_file: "beta".to_string(), progress: 1 });
    assert_eq!(sync.advance(&mut status), Some(("g".to_string(), vec![ProfileKind::Engine])));
    assert_eq!(sync.advance(&mut status), Some(("h".to_string(), vec![])));
    assert_eq!(status.status, CompileStatus::Compiling { current_file: "h".to_string(), progress: 3 });
    assert_eq!(sync.advance(&mut status), None);
    assert_eq!(status.status, CompileStatus::Success);
    assert_eq!(sync.advance(&mut status), None);
}

#[test]
fn empty_sync_reports_success_at_once() {
    let mut status = CompilerStateManager::new();
    let mut sync = ProfileSync::new(Vec::new());
    assert_eq!(sync.advance(&mut status), None);
    assert_eq!(status.status, CompileStatus::Success);
}
