use std::path::MAIN_SEPARATOR;
use video_shell::python::{default_python, venv_python, which_python, Platform, PYTHON_VARIABLE};

fn under(parts: &[&str]) -> String {
    parts.join(&MAIN_SEPARATOR.to_string())
}

#[test]
fn override_variable_is_python() {
    assert_eq!(PYTHON_VARIABLE, "PYTHON");
}

#[test]
fn override_wins_whatever_is_on_disk() {
    for platform in [Platform::Posix, Platform::Windows] {
        for venv_exists in [false, true] {
            let python = which_python("root", Some("/opt/py/bin/python3.12".to_string()), venv_exists, platform);
            assert_eq!(python, "/opt/py/bin/python3.12");
        }
    }
}

#[test]
fn override_is_taken_as_it_is() {
    assert_eq!(which_python("root", Some(String::new()), true, Platform::Posix), "");
    assert_eq!(which_python("root", Some("no such thing".to_string()), false, Platform::Posix), "no such thing");
}

#[test]
fn virtual_environment_is_used_when_it_exists() {
    assert_eq!(which_python("root", None, true, Platform::Posix), under(&["root", "venv", "bin", "python"]));
    assert_eq!(
        which_python("root", None, true, Platform::Windows),
        under(&["root", "venv", "Scripts", "python.exe"])
    );
}

#[test]
fn system_python_is_the_fallback() {
    assert_eq!(which_python("root", None, false, Platform::Posix), "python3");
    assert_eq!(which_python("root", None, false, Platform::Windows), "python");
}

#[test]
fn default_python_by_platform() {
    assert_eq!(default_python(Platform::Posix), "python3");
    assert_eq!(default_python(Platform::Windows), "python");
}

#[test]
fn venv_python_lies_under_the_root() {
    assert_eq!(venv_python("work", Platform::Posix), under(&["work", "venv", "bin", "python"]));
    assert_eq!(venv_python("work", Platform::Windows), under(&["work", "venv", "Scripts", "python.exe"]));
}

#[test]
fn venv_python_under_a_root_that_ends_in_a_separator() {
    assert_eq!(venv_python("work/", Platform::Posix), format!("work/{}", under(&["venv", "bin", "python"])));
}
