use magic_core::systems::{EditorSystem, SystemManager};
use std::sync::{Arc, Mutex};

struct Probe {
    id: u32,
    enabled: bool,
    log: Arc<Mutex<Vec<String>>>,
}

impl Probe {
    fn new(id: u32, log: &Arc<Mutex<Vec<String>>>) -> Self {
        Probe { id, enabled: false, log: log.clone() }
    }
}

impl EditorSystem for Probe {
    fn on_enable(&mut self) {
        self.enabled = true;
        self.log.lock().unwrap().push(format!("enable {}", self.id));
    }

    fn on_update(&mut self, _ctx: &eframe::egui::Context, _ui: &mut eframe::egui::Ui) {}

    fn on_disable(&mut self) {
        self.enabled = false;
        self.log.lock().unwrap().push(format!("disable {}", self.id));
    }
}

#[test]
fn systems_are_enabled_on_add_and_disabled_on_reload() {
    let log = Arc::new(Mutex::new(Vec::new()));
    let mut m: SystemManager<Box<dyn EditorSystem>> = SystemManager::new();
    m.add_system(Box::new(Probe::new(1, &log)));
    m.add_system(Box::new(Probe::new(2, &log)));
    assert_eq!(m.systems_mut().len(), 2);
    m.reload_systems();
    assert_eq!(m.systems_mut().len(), 0);
    assert_eq!(*log.lock().unwrap(), vec!["enable 1", "enable 2", "disable 1", "disable 2"]);
}

#[test]
fn disable_all_keeps_systems_and_disables_each() {
    let log = Arc::new(Mutex::new(Vec::new()));
    let mut m = SystemManager::new();
    m.add_system(Probe::new(7, &log));
    m.add_system(Probe::new(8, &log));
    assert!(m.systems_mut().iter().all(|s| s.enabled));
    m.disable_all();
    assert_eq!(m.systems_mut().len(), 2);
    assert!(m.systems_mut().iter().all(|s| !s.enabled));
    assert_eq!(*log.lock().unwrap(), vec!["enable 7", "enable 8", "disable 7", "disable 8"]);
}

#[test]
fn boxed_system_forwards_its_hooks() {
    let log = Arc::new(Mutex::new(Vec::new()));
    let mut b: Box<Probe> = Box::new(Probe::new(3, &log));
    EditorSystem::on_enable(&mut b);
    assert!(b.enabled);
    EditorSystem::on_disable(&mut b);
    assert!(!b.enabled);
    assert_eq!(*log.lock().unwrap(), vec!["enable 3", "disable 3"]);
}

use magic_core::systems::{settle_editor_load, EditorLoad};

#[test]
fn settled_load_adds_created_system() {
    let log = Arc::new(Mutex::new(Vec::new()));
    let mut m = SystemManager::new();
    let r = settle_editor_load(&mut m, "./lib.so", EditorLoad::Created(Probe::new(4, &log)));
    assert_eq!(r, Ok(()));
    assert_eq!(m.systems_mut().len(), 1);
    assert!(m.systems_mut()[0].enabled);
    assert_eq!(*log.lock().unwrap(), vec!["enable 4"]);
}

#[test]
fn failed_loads_report_their_reason_and_add_nothing() {
    let mut m: SystemManager<Probe> = SystemManager::new();
    assert_eq!(
        settle_editor_load(&mut m, "./target/debug/libmagic_editor.so", EditorLoad::FileMissing),
        Err("Library file not found at: ./target/debug/libmagic_editor.so".to_string())
    );
    assert_eq!(
        settle_editor_load(&mut m, "x", EditorLoad::LoadFailed("DlOpen { desc: \"bad\" }".to_string())),
        Err("Failed to load library: DlOpen { desc: \"bad\" }".to_string())
    );
    assert_eq!(
        settle_editor_load(&mut m, "x", EditorLoad::SymbolMissing),
        Err("Could not find 'create_system' symbol in editor library.".to_string())
    );
    assert_eq!(m.systems_mut().len(), 0);
}
