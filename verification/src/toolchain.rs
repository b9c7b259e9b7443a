//! The toolchain executables and the rules by which they are looked up.
use crate::abs_path::AbsPathBuf;
use crate::normalize::normalized;
use crate::utf8::{path_push, path_with_extension, utf8_push};
use vstd::prelude::*;

verus! {

/// An executable of the Rust toolchain.
#[derive(Copy, Clone, Debug, PartialEq, Eq, Structural)]
pub enum Tool {
    /// The package manager, `cargo`.
    Cargo,
    /// The compiler, `rustc`.
    Rustc,
    /// The toolchain installer, `rustup`.
    Rustup,
    /// The formatter, `rustfmt`.
    Rustfmt,
}

/// The file name under which `tool` is looked up.
pub open spec fn tool_name(tool: Tool) -> Seq<char> {
    match tool {
        Tool::Cargo => "cargo"@,
        Tool::Rustc => "rustc"@,
        Tool::Rustup => "rustup"@,
        Tool::Rustfmt => "rustfmt"@,
    }
}

impl Tool {
    /// The executable's file name, such as `cargo` for `Tool::Cargo`.
    pub fn name(self) -> (name: &'static str)
        ensures
            name@ == tool_name(self),
    {
        match self {
            Tool::Cargo => "cargo",
            Tool::Rustc => "rustc",
            Tool::Rustup => "rustup",
            Tool::Rustfmt => "rustfmt",
        }
    }
}

/// A place where an executable is looked up.
#[derive(Copy, Clone, Debug, PartialEq, Eq, Structural)]
pub enum Lookup {
    /// `bin/<name>` under the cargo home directory.
    CargoProxy,
    /// The environment variable named by the executable's name in upper case.
    EnvVar,
    /// `<dir>/<name>` for each directory of `$PATH`.
    SearchPath,
}

impl Tool {
    /// The places that `prefer_proxy` tries, in order: the cargo home, the
    /// environment variable, then `$PATH`.
    pub fn prefer_proxy_lookups() -> (order: Vec<Lookup>)
        ensures
            order@ == seq![Lookup::CargoProxy, Lookup::EnvVar, Lookup::SearchPath],
    {
        vec![Lookup::CargoProxy, Lookup::EnvVar, Lookup::SearchPath]
    }

    /// The places that `path` tries, in order: the environment variable,
    /// `$PATH`, then the cargo home.
    pub fn path_lookups() -> (order: Vec<Lookup>)
        ensures
            order@ == seq![Lookup::EnvVar, Lookup::SearchPath, Lookup::CargoProxy],
    {
        vec![Lookup::EnvVar, Lookup::SearchPath, Lookup::CargoProxy]
    }
}

/// `c` in upper case where it is an ASCII lower-case letter, else `c`.
pub open spec fn ascii_upper(c: char) -> char {
    if 'a' <= c && c <= 'z' {
        ((c as int) - 32) as char
    } else {
        c
    }
}

/// `str::to_ascii_uppercase`, which std documents as mapping `a` to `z` to
/// `A` to `Z` and leaving every other character as it is.
#[verifier::external_body]
fn str_to_ascii_uppercase(s: &str) -> (upper: String)
    ensures
        upper@ == s@.map_values(|c: char| ascii_upper(c)),
{
    s.to_ascii_uppercase()
}

/// The name of the environment variable that may hold the path of
/// `executable_name`: the name in ASCII upper case, such as `CARGO`.
pub fn env_var_name(executable_name: &str) -> (name: String)
    ensures
        name@ == executable_name@.map_values(|c: char| ascii_upper(c)),
{
    str_to_ascii_uppercase(executable_name)
}

/// `bin/<executable_name>` under the cargo home directory `cargo_home`.
pub fn cargo_proxy_path(cargo_home: AbsPathBuf, executable_name: &str) -> (path: AbsPathBuf)
    ensures
        path@ == path_push(path_push(cargo_home@, "bin"@), executable_name@),
{
    let mut path = cargo_home;
    path.push("bin");
    path.push(executable_name);
    path
}

/// The cargo home directory before it is made absolute: `$CARGO_HOME` where
/// it is set, else `.cargo` under the home directory, else none.
pub fn cargo_home_path(cargo_home_var: Option<String>, home_dir: Option<String>) -> (home: Option<
    String,
>)
    ensures
        match cargo_home_var {
            Some(var) => home == Some(var),
            None => match home_dir {
                Some(dir) => home matches Some(h) && h@ == path_push(dir@, ".cargo"@),
                None => home is None,
            },
        },
{
    if let Some(var) = cargo_home_var {
        return Some(var);
    }
    match home_dir {
        Some(dir) => {
            let mut dir = dir;
            utf8_push(&mut dir, ".cargo");
            Some(dir)
        },
        None => None,
    }
}

/// The files that may be the binary `path`, in the order in which they are
/// probed: `path` itself, then, on platforms whose executables have an
/// extension, `path` with that extension.
pub fn binary_candidates(path: AbsPathBuf, exe_extension: &str) -> (candidates: Vec<AbsPathBuf>)
    requires
        !exe_extension@.contains('/'),
    ensures
        candidates.len() == if exe_extension@.len() == 0 { 1int } else { 2int },
        candidates@[0]@ == path@,
        exe_extension@.len() != 0 ==> candidates@[1]@ == path_with_extension(path@, exe_extension@),
{
    let with_extension = if exe_extension.is_empty() {
        None
    } else {
        Some(path.with_extension(exe_extension))
    };
    let mut candidates = Vec::new();
    candidates.push(path);
    if let Some(p) = with_extension {
        candidates.push(p);
    }
    candidates
}

/// The paths at which `$PATH` may hold `exec`: `exec` joined onto each of
/// the directories `dirs`, in order.
pub fn search_path_candidates(dirs: &Vec<AbsPathBuf>, exec: &str) -> (candidates: Vec<
    AbsPathBuf,
>)
    ensures
        candidates.len() == dirs.len(),
        forall|i: int|
            0 <= i < dirs.len() ==> (#[trigger] candidates@[i])@ == normalized(
                path_push(dirs@[i]@, exec@),
            ),
{
    let mut candidates: Vec<AbsPathBuf> = Vec::new();
    let mut i: usize = 0;
    while i < dirs.len()
        invariant
            i <= dirs.len(),
            candidates.len() == i,
            forall|j: int|
                0 <= j < i ==> (#[trigger] candidates@[j])@ == normalized(
                    path_push(dirs@[j]@, exec@),
                ),
        decreases dirs.len() - i,
    {
        candidates.push(dirs[i].join(exec));
        i = i + 1;
    }
    candidates
}

/// What `invoke` does next.
#[derive(Debug)]
pub enum InvokeStep {
    /// A lookup found the executable at this path.
    Found(AbsPathBuf),
    /// Try this lookup next.
    Try(Lookup),
    /// Every lookup failed: use the bare executable name, made absolute.
    BareName,
}

/// The next step of trying `lookups` in order, after the first `tried` of
/// them, where `found` is what the last one tried gave: stop at the first
/// success, else try the next lookup, else fall back to the bare name.
pub fn invoke_next(lookups: &Vec<Lookup>, tried: usize, found: Option<AbsPathBuf>) -> (step:
    InvokeStep)
    requires
        tried <= lookups.len(),
    ensures
        match found {
            Some(p) => step matches InvokeStep::Found(q) && q@ == p@,
            None => if tried < lookups.len() {
                step == InvokeStep::Try(lookups@[tried as int])
            } else {
                step is BareName
            },
        },
{
    match found {
        Some(p) => InvokeStep::Found(p),
        None => if tried < lookups.len() {
            InvokeStep::Try(lookups[tried])
        } else {
            InvokeStep::BareName
        },
    }
}

/// A change that a command makes to its environment.
#[derive(Debug)]
pub enum EnvChange {
    /// Set the variable to the value.
    SetVar(String, String),
    /// Remove the variable.
    RemoveVar(String),
}

/// Whether `change` is what the entry `(key, value)` of the extra
/// environment asks for: set the variable to a value, or remove it.
pub open spec fn env_change_for(change: EnvChange, key: String, value: Option<String>) -> bool {
    match value {
        Some(v) => change matches EnvChange::SetVar(k, w) && k@ == key@ && w@ == v@,
        None => change matches EnvChange::RemoveVar(k) && k@ == key@,
    }
}

/// An entry with a value asks to set its variable to exactly that value:
/// name and value pass through character for character.
pub proof fn law_env_value_passes_through(change: EnvChange, key: String, value: String)
    requires
        env_change_for(change, key, Some(value)),
    ensures
        change matches EnvChange::SetVar(k, w) && k@ == key@ && w@ == value@,
{
}

/// An entry without a value asks to remove its variable, by that name.
pub proof fn law_env_none_removes(change: EnvChange, key: String)
    requires
        env_change_for(change, key, None),
    ensures
        change matches EnvChange::RemoveVar(k) && k@ == key@,
{
}

/// The environment changes of a toolchain command, in the order in which
/// they are made: first `RUSTUP_AUTO_INSTALL` is set to `0`, so that rustup
/// installs no toolchain on its own, then each entry of `extra_env` is set,
/// or removed where its value is `None`.
pub fn command_env(extra_env: &Vec<(String, Option<String>)>) -> (changes: Vec<EnvChange>)
    ensures
        changes.len() == extra_env.len() + 1,
        changes@[0] matches EnvChange::SetVar(k, v) && k@ == "RUSTUP_AUTO_INSTALL"@ && v@ == "0"@,
        forall|i: int|
            0 <= i < extra_env.len() ==> env_change_for(
                #[trigger] changes@[i + 1],
                extra_env@[i].0,
                extra_env@[i].1,
            ),
        forall|i: int|
            #![trigger changes@[i + 1]]
            0 <= i < extra_env.len() ==> match extra_env@[i].1 {
                Some(v) => changes@[i + 1] matches EnvChange::SetVar(k, w) && k@
                    == extra_env@[i].0@ && w@ == v@,
                None => changes@[i + 1] matches EnvChange::RemoveVar(k) && k@ == extra_env@[i].0@,
            },
{
    let mut changes = Vec::new();
    changes.push(EnvChange::SetVar("RUSTUP_AUTO_INSTALL".to_owned(), "0".to_owned()));
    let mut i: usize = 0;
    while i < extra_env.len()
        invariant
            i <= extra_env.len(),
            changes.len() == i + 1,
            changes@[0] matches EnvChange::SetVar(k, v) && k@ == "RUSTUP_AUTO_INSTALL"@ && v@
                == "0"@,
            forall|j: int|
                0 <= j < i ==> env_change_for(
                    #[trigger] changes@[j + 1],
                    extra_env@[j].0,
                    extra_env@[j].1,
                ),
        decreases extra_env.len() - i,
    {
        let (key, value) = &extra_env[i];
        let change = match value {
            Some(v) => EnvChange::SetVar(key.clone(), v.clone()),
            None => EnvChange::RemoveVar(key.clone()),
        };
        changes.push(change);
        i = i + 1;
    }
    changes
}

} // verus!
