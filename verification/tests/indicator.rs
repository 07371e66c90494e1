use magic_core::indicator::{status_indicator, LabelStyle, Led};
use magic_core::status::CompileStatus;

#[test]
fn idle_indicator() {
    let i = status_indicator(&CompileStatus::Idle);
    assert_eq!(i.led, Led::Gray(100));
    assert_eq!(i.label, "Ready");
    assert_eq!(i.style, LabelStyle::Weak);
    assert_eq!(i.hover, None);
    assert!(!i.animated);
}

#[test]
fn compiling_indicator_shows_progress_and_file() {
    let i = status_indicator(&CompileStatus::Compiling { current_file: "lib.rs".to_string(), progress: 42 });
    assert_eq!(i.led, Led::PulsingBlue);
    assert_eq!(i.label, "[42] Indexing: lib.rs");
    assert_eq!(i.style, LabelStyle::Small);
    assert!(i.animated);
    let j = status_indicator(&CompileStatus::Compiling { current_file: String::new(), progress: 0 });
    assert_eq!(j.label, "[0] Indexing: ");
    let k = status_indicator(&CompileStatus::Compiling { current_file: "x".to_string(), progress: usize::MAX });
    assert_eq!(k.label, format!("[{}] Indexing: x", usize::MAX));
}

#[test]
fn success_indicator() {
    let i = status_indicator(&CompileStatus::Success);
    assert_eq!(i.led, Led::Rgb(50, 200, 50));
    assert_eq!(i.label, "Active");
    assert_eq!(i.style, LabelStyle::Colored(50, 200, 50));
    assert!(!i.animated);
}

#[test]
fn error_indicator_hovers_the_message() {
    let i = status_indicator(&CompileStatus::Error("linker failed".to_string()));
    assert_eq!(i.led, Led::Rgb(220, 50, 50));
    assert_eq!(i.label, "Error");
    assert_eq!(i.style, LabelStyle::Colored(220, 50, 50));
    assert_eq!(i.hover, Some("linker failed".to_string()));
}
