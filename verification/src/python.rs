//! Which Python runs the service.
//!
//! An override taken from the environment wins, whatever is on disk. Without
//! one, the interpreter of the virtual environment under the project root is
//! used if it exists. Failing both, the system's Python is named and left
//! for the search path to find. There is always an answer: a wrong one shows
//! when the process is started.

use crate::paths::{join, path_join};
use vstd::prelude::*;

verus! {

/// The kind of system the shell runs on.
#[derive(Clone, Copy, Debug, PartialEq, Eq, Structural)]
pub enum Platform {
    Posix,
    Windows,
}

/// The environment variable that overrides the choice of interpreter.
pub const PYTHON_VARIABLE: &'static str = "PYTHON";

/// Where the interpreter of the virtual environment under `root` lies.
pub open spec fn venv_python_path(root: Seq<char>, platform: Platform) -> Seq<char> {
    match platform {
        Platform::Posix => path_join(path_join(path_join(root, "venv"@), "bin"@), "python"@),
        Platform::Windows => path_join(
            path_join(path_join(root, "venv"@), "Scripts"@),
            "python.exe"@,
        ),
    }
}

/// The command by which the system's Python goes.
pub open spec fn system_python(platform: Platform) -> Seq<char> {
    match platform {
        Platform::Posix => "python3"@,
        Platform::Windows => "python"@,
    }
}

/// The interpreter to use: the override if there is one, else the virtual
/// environment's if it exists, else the system's.
pub open spec fn resolved_python(
    root: Seq<char>,
    python_override: Option<Seq<char>>,
    venv_python_exists: bool,
    platform: Platform,
) -> Seq<char> {
    match python_override {
        Some(python) => python,
        None => if venv_python_exists {
            venv_python_path(root, platform)
        } else {
            system_python(platform)
        },
    }
}

/// What an optional string stands for.
pub open spec fn optional_text(text: Option<String>) -> Option<Seq<char>> {
    match text {
        Some(t) => Some(t@),
        None => None,
    }
}

/// The path of the virtual environment's interpreter under `root`. Whether
/// a file lies there is for the caller to find out.
pub fn venv_python(root: &str, platform: Platform) -> (path: String)
    ensures
        path@ == venv_python_path(root@, platform),
{
    let venv = join(root, "venv");
    match platform {
        Platform::Posix => {
            let bin = join(venv.as_str(), "bin");
            join(bin.as_str(), "python")
        },
        Platform::Windows => {
            let scripts = join(venv.as_str(), "Scripts");
            join(scripts.as_str(), "python.exe")
        },
    }
}

/// The command by which the system's Python goes.
pub fn default_python(platform: Platform) -> (command: String)
    ensures
        command@ == system_python(platform),
{
    match platform {
        Platform::Posix => "python3".to_owned(),
        Platform::Windows => "python".to_owned(),
    }
}

/// Chooses the interpreter. `python_override` is the value of
/// [`PYTHON_VARIABLE`] if it is set, and `venv_python_exists` says whether a
/// file lies at [`venv_python`] of `root`.
pub fn which_python(
    root: &str,
    python_override: Option<String>,
    venv_python_exists: bool,
    platform: Platform,
) -> (python: String)
    ensures
        python@ == resolved_python(
            root@,
            optional_text(python_override),
            venv_python_exists,
            platform,
        ),
{
    match python_override {
        Some(python) => python,
        None => {
            if venv_python_exists {
                venv_python(root, platform)
            } else {
                default_python(platform)
            }
        },
    }
}

} // verus!
