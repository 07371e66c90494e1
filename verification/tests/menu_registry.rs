use magic_core::menu::MenuRegistry;

fn names<C>(r: &MenuRegistry<C>) -> Vec<String> {
    r.menus().iter().map(|m| m.name.clone()).collect()
}

fn labels<C>(r: &MenuRegistry<C>, menu: &str) -> Vec<String> {
    r.menus()
        .iter()
        .find(|m| m.name == menu)
        .map(|m| m.commands.iter().map(|c| c.label.clone()).collect())
        .unwrap_or_default()
}

#[test]
fn new_registry_is_empty() {
    let r: MenuRegistry<u32> = MenuRegistry::new();
    assert!(r.menus().is_empty());
}

#[test]
fn register_creates_menu_and_appends_in_order() {
    let mut r = MenuRegistry::new();
    r.register("File", "Save Scene", 1u32);
    r.register("File", "Exit", 2u32);
    assert_eq!(names(&r), vec!["File".to_string()]);
    assert_eq!(labels(&r, "File"), vec!["Save Scene".to_string(), "Exit".to_string()]);
    let callbacks: Vec<u32> = r.menus()[0].commands.iter().map(|c| c.callback).collect();
    assert_eq!(callbacks, vec![1, 2]);
}

#[test]
fn menus_come_out_in_name_order() {
    let mut r = MenuRegistry::new();
    r.register("View", "Zoom", 0u32);
    r.register("Edit", "Undo", 0u32);
    r.register("File", "Open", 0u32);
    r.register("Edit", "Redo", 0u32);
    r.register("Build", "Run", 0u32);
    r.register("Ed", "Short", 0u32);
    assert_eq!(names(&r), vec!["Build", "Ed", "Edit", "File", "View"]);
    assert_eq!(labels(&r, "Edit"), vec!["Undo".to_string(), "Redo".to_string()]);
}

#[test]
fn name_order_is_by_code_point_like_btreemap() {
    let mut r = MenuRegistry::new();
    let input = ["b", "B", "a", "é", "Z", "", "ab", "aa"];
    for n in input {
        r.register(n, "x", 0u8);
    }
    let mut expected: Vec<String> = input.iter().map(|s| s.to_string()).collect();
    expected.sort();
    assert_eq!(names(&r), expected);
}

#[test]
fn register_order_across_menus_does_not_matter() {
    let mut a = MenuRegistry::new();
    a.register("File", "Open", 1u32);
    a.register("Edit", "Undo", 2u32);
    let mut b = MenuRegistry::new();
    b.register("Edit", "Undo", 2u32);
    b.register("File", "Open", 1u32);
    assert_eq!(names(&a), names(&b));
    assert_eq!(labels(&a, "File"), labels(&b, "File"));
    assert_eq!(labels(&a, "Edit"), labels(&b, "Edit"));
}

#[test]
fn clear_removes_all_menus() {
    let mut r = MenuRegistry::new();
    r.register("File", "Open", 1u32);
    r.register("Edit", "Undo", 2u32);
    r.clear();
    assert!(r.menus().is_empty());
    r.register("Help", "About", 3u32);
    assert_eq!(names(&r), vec!["Help".to_string()]);
    assert_eq!(labels(&r, "Help"), vec!["About".to_string()]);
}

fn total_commands<C>(r: &MenuRegistry<C>) -> usize {
    r.menus().iter().map(|m| m.commands.len()).sum()
}

#[test]
fn commands_counted_since_last_clear_and_no_empty_menus() {
    let mut r = MenuRegistry::new();
    for (menu, label) in [("File", "Open"), ("Edit", "Undo"), ("File", "Save"), ("View", "Zoom")] {
        r.register(menu, label, ());
    }
    assert_eq!(total_commands(&r), 4);
    assert!(r.menus().iter().all(|m| !m.commands.is_empty()));
    r.clear();
    assert_eq!(total_commands(&r), 0);
    r.register("Help", "About", ());
    assert_eq!(total_commands(&r), 1);
}

#[test]
fn reset_replaces_all_menus() {
    let mut r = MenuRegistry::new();
    r.register("Edit", "Undo", 9u32);
    r.reset(vec![
        ("File".to_string(), "Save Scene".to_string(), 1u32),
        ("File".to_string(), "Exit".to_string(), 2u32),
    ]);
    assert_eq!(names(&r), vec!["File".to_string()]);
    assert_eq!(labels(&r, "File"), vec!["Save Scene".to_string(), "Exit".to_string()]);
    r.reset(Vec::new());
    assert!(r.menus().is_empty());
}
