//! The platform the engine resolves for: operating system name, path
//! separators, and pointer width.
//!
//! The engine itself is platform-agnostic; callers name the target platform
//! explicitly, so every code path can be exercised on any host.
use vstd::prelude::*;

verus! {

/// A target operating system.
#[derive(Clone, Copy, Debug, PartialEq, Eq, Structural)]
pub enum Os {
    Windows,
    Macos,
    Linux,
}

/// The OS name as version manifests spell it in rules and natives maps.
pub open spec fn os_key_spec(os: Os) -> Seq<char> {
    match os {
        Os::Windows => "windows"@,
        Os::Macos => "osx"@,
        Os::Linux => "linux"@,
    }
}

/// The OS name as a string slice.
pub fn os_key_str(os: Os) -> (r: &'static str)
    ensures
        r@ == os_key_spec(os),
{
    match os {
        Os::Windows => "windows",
        Os::Macos => "osx",
        Os::Linux => "linux",
    }
}

/// The OS name as version manifests spell it.
pub fn get_current_os(os: Os) -> (r: String)
    ensures
        r@ == os_key_spec(os),
{
    os_key_str(os).to_owned()
}

/// The separator between classpath entries on `os`.
pub open spec fn classpath_sep_spec(os: Os) -> Seq<char> {
    if os is Windows {
        ";"@
    } else {
        ":"@
    }
}

/// The separator between classpath entries.
pub fn classpath_separator(os: Os) -> (r: &'static str)
    ensures
        r@ == classpath_sep_spec(os),
{
    if let Os::Windows = os {
        ";"
    } else {
        ":"
    }
}

/// The separator between path components on `os`.
pub open spec fn path_sep_spec(os: Os) -> Seq<char> {
    if os is Windows {
        "\\"@
    } else {
        "/"@
    }
}

/// The separator between path components.
pub fn path_separator(os: Os) -> (r: &'static str)
    ensures
        r@ == path_sep_spec(os),
{
    if let Os::Windows = os {
        "\\"
    } else {
        "/"
    }
}

/// The path separator as a single character.
pub open spec fn path_sep_char_spec(os: Os) -> char {
    if os is Windows {
        '\\'
    } else {
        '/'
    }
}

/// The path separator character.
pub fn path_sep_char(os: Os) -> (r: char)
    ensures
        r == path_sep_char_spec(os),
{
    if let Os::Windows = os {
        '\\'
    } else {
        '/'
    }
}

/// `base` and `leaf` joined with the platform's path separator.
pub open spec fn path_join_spec(base: Seq<char>, leaf: Seq<char>, os: Os) -> Seq<char> {
    base + path_sep_spec(os) + leaf
}

/// Joins one more component onto a path.
pub fn path_join(base: &String, leaf: &str, os: Os) -> (r: String)
    ensures
        r@ == path_join_spec(base@, leaf@, os),
{
    let mut r = base.clone();
    r.append(path_separator(os));
    r.append(leaf);
    r
}

} // verus!
