use magic_core::pkg_cli::{
    missing_target_message, package_row, parse_command, parse_init, parse_target, path_components,
    status_tag, sync_summary, target_argument, unknown_command_message, InitError, PackageTarget,
    PkgCommand,
};

fn args(a: &[&str]) -> Vec<String> {
    a.iter().map(|s| s.to_string()).collect()
}

fn init_ok(a: &[&str]) -> (String, String, Vec<PackageTarget>) {
    let r = parse_init(&args(a)).ok().expect("init arguments accepted");
    (r.vendor, r.name, r.targets)
}

#[test]
fn command_dispatch() {
    assert_eq!(parse_command(&args(&[])), PkgCommand::Sync);
    assert_eq!(parse_command(&args(&["sync"])), PkgCommand::Sync);
    assert_eq!(parse_command(&args(&["init", "x"])), PkgCommand::Init);
    assert_eq!(parse_command(&args(&["remove"])), PkgCommand::Remove);
    assert_eq!(parse_command(&args(&["rm"])), PkgCommand::Remove);
    assert_eq!(parse_command(&args(&["enable"])), PkgCommand::Enable);
    assert_eq!(parse_command(&args(&["disable"])), PkgCommand::Disable);
    assert_eq!(parse_command(&args(&["list"])), PkgCommand::List);
    assert_eq!(parse_command(&args(&["help"])), PkgCommand::Help);
    assert_eq!(parse_command(&args(&["--help"])), PkgCommand::Help);
    assert_eq!(parse_command(&args(&["-h"])), PkgCommand::Help);
    assert_eq!(parse_command(&args(&["frob"])), PkgCommand::Unknown("frob".to_string()));
}

#[test]
fn unknown_command_message_text() {
    assert_eq!(unknown_command_message("frob"), "Unknown command 'frob'. Run 'magic_pkg help'.");
}

#[test]
fn init_plain_name_defaults() {
    let (v, n, t) = init_ok(&["my_tool"]);
    assert_eq!(v, "local");
    assert_eq!(n, "my_tool");
    assert_eq!(t, vec![PackageTarget::Editor, PackageTarget::Runtime]);
}

#[test]
fn init_vendor_slash_name() {
    let (v, n, _) = init_ok(&["my_studio/my_tool"]);
    assert_eq!((v.as_str(), n.as_str()), ("my_studio", "my_tool"));
    let (v, n, _) = init_ok(&["a/b/c"]);
    assert_eq!((v.as_str(), n.as_str()), ("b", "c"));
    let (v, n, _) = init_ok(&["studio\\tool"]);
    assert_eq!((v.as_str(), n.as_str()), ("studio", "tool"));
}

#[test]
fn init_packages_folder_is_not_a_vendor() {
    let (v, n, _) = init_ok(&["packages/my_tool"]);
    assert_eq!((v.as_str(), n.as_str()), ("local", "my_tool"));
}

#[test]
fn init_first_name_wins_but_name_flag_overrides() {
    let (_, n, _) = init_ok(&["first", "second"]);
    assert_eq!(n, "first");
    let (_, n, _) = init_ok(&["first", "--name", "flagged"]);
    assert_eq!(n, "flagged");
    let (v, _, _) = init_ok(&["--vendor", "acme", "x/y"]);
    assert_eq!(v, "acme");
}

#[test]
fn init_name_flag_without_value_clears_name() {
    assert_eq!(parse_init(&args(&["tool", "--name"])).err(), Some(InitError::MissingName));
}

#[test]
fn init_targets_in_order() {
    let (_, _, t) = init_ok(&["x", "--runtime"]);
    assert_eq!(t, vec![PackageTarget::Runtime]);
    let (_, _, t) = init_ok(&["--editor", "x", "--runtime", "--editor"]);
    assert_eq!(t, vec![PackageTarget::Editor, PackageTarget::Runtime, PackageTarget::Editor]);
}

#[test]
fn init_path_option() {
    let (v, n, _) = init_ok(&["--path", "./packages/acme/tool"]);
    assert_eq!((v.as_str(), n.as_str()), ("acme", "tool"));
    let (v, n, _) = init_ok(&["--path", "packages/tool/"]);
    assert_eq!((v.as_str(), n.as_str()), ("local", "tool"));
    let (v, n, _) = init_ok(&["--path", "/tool"]);
    assert_eq!((v.as_str(), n.as_str()), ("/", "tool"));
    let (v, n, _) = init_ok(&["--path", "a/../b", "ignored"]);
    assert_eq!((v.as_str(), n.as_str()), ("a", "b"));
}

#[test]
fn init_errors() {
    assert_eq!(parse_init(&args(&[])).err(), Some(InitError::MissingName));
    assert_eq!(parse_init(&args(&["--editor"])).err(), Some(InitError::MissingName));
    assert_eq!(parse_init(&args(&["x", "-q"])).err(), Some(InitError::UnknownOption("-q".to_string())));
    assert_eq!(
        parse_init(&args(&["--bogus", "x"])).err(),
        Some(InitError::UnknownOption("--bogus".to_string()))
    );
}

#[test]
fn init_error_messages() {
    assert_eq!(InitError::UnknownOption("-q".to_string()).message(), "Unknown init option '-q'.");
    assert_eq!(
        InitError::MissingName.message(),
        "Package name is required. Example: magic_pkg init my_tool OR magic_pkg init my_studio/my_tool"
    );
}

#[test]
fn path_components_drop_dots() {
    assert_eq!(path_components("./a//b/./c/"), vec!["a", "b", "c"]);
    assert_eq!(path_components("/x/../y"), vec!["/", "x", "y"]);
    assert_eq!(path_components(""), Vec::<String>::new());
    assert_eq!(path_components(".."), Vec::<String>::new());
}

#[test]
fn targets() {
    assert_eq!(parse_target("acme/tool"), ("acme".to_string(), "tool".to_string()));
    assert_eq!(parse_target("tool"), ("local".to_string(), "tool".to_string()));
    assert_eq!(parse_target("a/b/c"), ("a".to_string(), "b".to_string()));
    assert_eq!(parse_target("/tool"), ("".to_string(), "tool".to_string()));
    assert_eq!(target_argument(&args(&[])), None);
    assert_eq!(target_argument(&args(&["x/y", "z"])), Some(("x".to_string(), "y".to_string())));
}

#[test]
fn missing_target_messages() {
    assert_eq!(
        missing_target_message("remove"),
        "Package target is required. Example: magic_pkg remove local/my_tool"
    );
    assert_eq!(
        missing_target_message("enable"),
        "Package target is required. Example: magic_pkg enable local/my_tool"
    );
}

#[test]
fn list_rows_are_padded() {
    assert_eq!(package_row("PACKAGE", "VERSION", "STATUS"), format!("{:<30} {:<10} {:<10}", "PACKAGE", "VERSION", "STATUS"));
    assert_eq!(
        package_row("local/tool", "0.1.0", status_tag(true)),
        format!("{:<30} {:<10} {:<10}", "local/tool", "0.1.0", "[enabled]")
    );
    let long = "v".repeat(40);
    assert_eq!(
        package_row(&long, "1.2.3-beta.10", status_tag(false)),
        format!("{:<30} {:<10} {:<10}", long, "1.2.3-beta.10", "[disabled]")
    );
}

#[test]
fn sync_summary_text() {
    assert_eq!(
        sync_summary(3, 5, 0),
        "Synchronized 3 enabled packages (5 profiles written, 0 removed)."
    );
    assert_eq!(
        sync_summary(10, 1234, 7),
        "Synchronized 10 enabled packages (1234 profiles written, 7 removed)."
    );
}
