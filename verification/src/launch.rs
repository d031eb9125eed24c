//! Starting the Python service that backs the shell.
//!
//! The service is a script under the project root, run by the chosen
//! interpreter in the root directory, its output discarded and its errors
//! piped. It is started once and never watched: no retry, no health check,
//! no waiting until it is ready. Where the script is missing nothing is
//! started, and the shell goes on without the service.

use crate::paths::{join, parent, path_join, path_parent};
use crate::python::{optional_text, resolved_python, which_python, Platform};
use vstd::pervasive::unreached;
use vstd::prelude::*;

verus! {

/// What becomes of an output stream of the started process.
#[derive(Clone, Copy, Debug, PartialEq, Eq, Structural)]
pub enum Stream {
    /// Whatever is written is thrown away.
    Discarded,
    /// Whatever is written goes into a pipe held by the shell.
    Piped,
}

/// How to start the service: the process to spawn.
#[derive(Debug, PartialEq, Eq)]
pub struct Launch {
    /// The interpreter.
    pub program: String,
    /// The script, the interpreter's one argument.
    pub script: String,
    /// The directory in which the process runs.
    pub working_dir: String,
    pub stdout: Stream,
    pub stderr: Stream,
}

/// What a [`Launch`] stands for.
pub struct LaunchView {
    pub program: Seq<char>,
    pub script: Seq<char>,
    pub working_dir: Seq<char>,
    pub stdout: Stream,
    pub stderr: Stream,
}

impl View for Launch {
    type V = LaunchView;

    open spec fn view(&self) -> LaunchView {
        LaunchView {
            program: self.program@,
            script: self.script@,
            working_dir: self.working_dir@,
            stdout: self.stdout,
            stderr: self.stderr,
        }
    }
}

/// Where the service's script lies under `root`.
pub open spec fn api_main_path(root: Seq<char>) -> Seq<char> {
    path_join(path_join(root, "api"@), "main.py"@)
}

/// The launch of the service under `root` by the interpreter `python`, if
/// its script exists.
pub open spec fn python_api_launch(
    root: Seq<char>,
    api_main_exists: bool,
    python: Seq<char>,
) -> Option<LaunchView> {
    if api_main_exists {
        Some(
            LaunchView {
                program: python,
                script: api_main_path(root),
                working_dir: root,
                stdout: Stream::Discarded,
                stderr: Stream::Piped,
            },
        )
    } else {
        None
    }
}

/// What an optional launch stands for.
pub open spec fn optional_launch(launch: Option<Launch>) -> Option<LaunchView> {
    match launch {
        Some(l) => Some(l@),
        None => None,
    }
}

/// The project root: the directory above the one that holds the shell's
/// manifest. The manifest directory must have a directory above it.
pub fn project_root(manifest_dir: &str) -> (root: String)
    requires
        path_parent(manifest_dir@) is Some,
    ensures
        path_parent(manifest_dir@) == Some(root@),
{
    match parent(manifest_dir) {
        Some(root) => root,
        None => unreached(),
    }
}

/// The project root, where the manifest directory has a directory above it.
pub fn find_project_root(manifest_dir: &str) -> (root: Option<String>)
    ensures
        optional_text(root) == path_parent(manifest_dir@),
{
    match parent(manifest_dir) {
        Some(_) => Some(project_root(manifest_dir)),
        None => None,
    }
}

/// The path of the service's script under `root`. Whether a file lies there
/// is for the caller to find out.
pub fn api_main(root: &str) -> (path: String)
    ensures
        path@ == api_main_path(root@),
{
    let api = join(root, "api");
    join(api.as_str(), "main.py")
}

/// Decides how the service is started, if at all. `api_main_exists` says
/// whether a file lies at [`api_main`] of `root`; the other arguments are
/// those of [`which_python`]. Without the script there is no launch.
pub fn start_python_api(
    root: &str,
    api_main_exists: bool,
    python_override: Option<String>,
    venv_python_exists: bool,
    platform: Platform,
) -> (launch: Option<Launch>)
    ensures
        optional_launch(launch) == python_api_launch(
            root@,
            api_main_exists,
            resolved_python(root@, optional_text(python_override), venv_python_exists, platform),
        ),
{
    if !api_main_exists {
        return None;
    }
    let script = api_main(root);
    let program = which_python(root, python_override, venv_python_exists, platform);
    Some(
        Launch {
            program,
            script,
            working_dir: root.to_owned(),
            stdout: Stream::Discarded,
            stderr: Stream::Piped,
        },
    )
}

} // verus!
