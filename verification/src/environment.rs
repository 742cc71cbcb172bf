//! Where the pipeline lives: the project root, the entry scripts, the
//! interpreter, and what differs from platform to platform.
//!
//! Paths are given as components below the project root; whoever touches
//! the disk joins them and reports back what is there.

use vstd::prelude::*;
use vstd::string::*;
use crate::text::name_views;

verus! {

/// The pipeline's entry script.
pub const DISPATCHER: &'static str = "dispatcher.py";

/// The interpreter that is used where none is found.
pub const SYSTEM_PYTHON: &'static str = "python";

/// The platforms that the library tells apart.
#[derive(Clone, Copy, PartialEq, Eq, Debug, Structural)]
pub enum Platform {
    MacOs,
    Windows,
    Unix,
}

/// The name of the accelerated device on each platform.
pub open spec fn gpu_device(platform: Platform) -> Seq<char> {
    match platform {
        Platform::MacOs => "mps"@,
        _ => "cuda"@,
    }
}

/// The accelerated device to ask the pipeline for.
pub fn default_gpu_device(platform: Platform) -> (device: &'static str)
    ensures
        device@ == gpu_device(platform),
{
    match platform {
        Platform::MacOs => "mps",
        _ => "cuda",
    }
}

/// The program that opens a file or directory with the user's default
/// application.
pub open spec fn opener(platform: Platform) -> Seq<char> {
    match platform {
        Platform::MacOs => "open"@,
        Platform::Windows => "explorer"@,
        Platform::Unix => "xdg-open"@,
    }
}

/// The program that opens a file or directory with the user's default
/// application.
pub fn opener_program(platform: Platform) -> (program: &'static str)
    ensures
        program@ == opener(platform),
{
    match platform {
        Platform::MacOs => "open",
        Platform::Windows => "explorer",
        Platform::Unix => "xdg-open",
    }
}

/// Where a script that ships with the application lies.
pub open spec fn bundled_entry(filename: Seq<char>) -> Seq<Seq<char>> {
    seq!["resources"@, "py"@, filename]
}

/// Where a script lies in a checkout of the project.
pub open spec fn legacy_entry(filename: Seq<char>) -> Seq<Seq<char>> {
    seq![filename]
}

/// The entry script to run: the one that ships with the application if it
/// is there, else the one at the project root.
pub open spec fn python_entry(filename: Seq<char>, bundled_exists: bool) -> Seq<Seq<char>> {
    if bundled_exists {
        bundled_entry(filename)
    } else {
        legacy_entry(filename)
    }
}

/// Where a script that ships with the application lies, below the project
/// root.
pub fn bundled_entry_path(filename: &str) -> (path: Vec<String>)
    ensures
        name_views(path@) == bundled_entry(filename@),
{
    let mut path: Vec<String> = Vec::new();
    path.push("resources".to_owned());
    path.push("py".to_owned());
    path.push(filename.to_owned());
    assert(name_views(path@) =~= bundled_entry(filename@));
    path
}

/// Picks the entry script to run, as a path below the project root.
/// `bundled_exists` tells whether the file at `bundled_entry_path` is there.
pub fn resolve_python_entry(filename: &str, bundled_exists: bool) -> (path: Vec<String>)
    ensures
        name_views(path@) == python_entry(filename@, bundled_exists),
{
    if bundled_exists {
        bundled_entry_path(filename)
    } else {
        let mut path: Vec<String> = Vec::new();
        path.push(filename.to_owned());
        assert(name_views(path@) =~= legacy_entry(filename@));
        path
    }
}

/// What was found in one directory on the way up from the executable.
#[derive(Clone, Copy, PartialEq, Eq, Debug, Structural)]
pub struct AncestorProbe {
    /// The entry script lies directly in the directory.
    pub legacy_found: bool,
    /// The entry script lies where it ships with the application.
    pub bundled_found: bool,
}

/// Whether a directory holds the pipeline's entry script.
pub open spec fn holds_dispatcher(probe: AncestorProbe) -> bool {
    probe.legacy_found || probe.bundled_found
}

/// Finds the project root among the directories from the executable's
/// upwards, nearest first: the first that holds the entry script.
pub fn resolve_project_root(ancestors: &Vec<AncestorProbe>) -> (root: Option<usize>)
    ensures
        match root {
            Some(i) => i < ancestors@.len() && holds_dispatcher(ancestors@[i as int])
                && forall|k: int| 0 <= k < i ==> !holds_dispatcher(#[trigger] ancestors@[k]),
            None => forall|k: int|
                0 <= k < ancestors@.len() ==> !holds_dispatcher(#[trigger] ancestors@[k]),
        },
{
    let mut i: usize = 0;
    while i < ancestors.len()
        invariant
            i <= ancestors.len(),
            forall|k: int| 0 <= k < i ==> !holds_dispatcher(#[trigger] ancestors@[k]),
        decreases ancestors.len() - i,
    {
        if ancestors[i].legacy_found || ancestors[i].bundled_found {
            return Some(i);
        }
        i += 1;
    }
    None
}

/// Where a virtual environment keeps its interpreter, below the
/// environment's directory.
pub open spec fn venv_python(platform: Platform) -> Seq<Seq<char>> {
    match platform {
        Platform::Windows => seq!["Scripts"@, "python.exe"@],
        _ => seq!["bin"@, "python"@],
    }
}

/// The interpreter of the environment that ships with the application
/// (`bundled`) or of the project's own, as a path below the project root.
pub open spec fn venv_path(platform: Platform, bundled: bool) -> Seq<Seq<char>> {
    if bundled {
        seq!["resources"@, ".venv"@] + venv_python(platform)
    } else {
        seq![".venv"@] + venv_python(platform)
    }
}

/// Where an environment's interpreter lies, below the project root.
pub fn venv_python_path(platform: Platform, bundled: bool) -> (path: Vec<String>)
    ensures
        name_views(path@) == venv_path(platform, bundled),
{
    let mut path: Vec<String> = Vec::new();
    if bundled {
        path.push("resources".to_owned());
    }
    path.push(".venv".to_owned());
    match platform {
        Platform::Windows => {
            path.push("Scripts".to_owned());
            path.push("python.exe".to_owned());
        },
        _ => {
            path.push("bin".to_owned());
            path.push("python".to_owned());
        },
    }
    assert(name_views(path@) =~= venv_path(platform, bundled));
    path
}

/// The interpreter to run: the one the environment names if it names one,
/// else the bundled environment's, else the project environment's, else
/// the system's.
pub open spec fn python_bin(
    named: Option<Seq<char>>,
    bundled_venv: Option<Seq<char>>,
    project_venv: Option<Seq<char>>,
) -> Seq<char> {
    match named {
        Some(bin) if bin.len() > 0 => bin,
        _ => match bundled_venv {
            Some(path) => path,
            None => match project_venv {
                Some(path) => path,
                None => SYSTEM_PYTHON@,
            },
        },
    }
}

/// Picks the interpreter. `named` is what the environment variable holds;
/// each of the other two is the path of that environment's interpreter if
/// it is there.
pub fn resolve_python_bin(
    named: &Option<String>,
    bundled_venv: &Option<String>,
    project_venv: &Option<String>,
) -> (bin: String)
    ensures
        bin@ == python_bin(named.deep_view(), bundled_venv.deep_view(), project_venv.deep_view()),
{
    match named {
        Some(value) => {
            if !value.as_str().is_empty() {
                return value.clone();
            }
        },
        None => {},
    }
    match bundled_venv {
        Some(path) => path.clone(),
        None => match project_venv {
            Some(path) => path.clone(),
            None => SYSTEM_PYTHON.to_owned(),
        },
    }
}

} // verus!
