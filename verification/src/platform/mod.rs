//! The per-operating-system tables: key codes, modifier groups and secret handling.
//! Both tables are always compiled; the caller picks one with [`Platform`].
pub mod macos;
pub mod windows;

use vstd::prelude::*;

verus! {

/// The operating system whose key codes and secret store are in use.
#[derive(Clone, Copy, Debug, PartialEq, Eq, Structural)]
pub enum Platform {
    Windows,
    MacOs,
}

/// Modifier groups of the given platform (see [`windows::modifier_codes`] and
/// [`macos::modifier_codes`]).
pub open spec fn modifier_codes_on(p: Platform, name: Seq<char>) -> Option<Seq<u32>> {
    match p {
        Platform::Windows => windows::modifier_codes(name),
        Platform::MacOs => macos::modifier_codes(name),
    }
}

/// Key codes of the given platform.
pub open spec fn key_code_on(p: Platform, name: Seq<char>) -> u32 {
    match p {
        Platform::Windows => windows::key_code(name),
        Platform::MacOs => macos::key_code(name),
    }
}

/// The group of key codes that `name` stands for on platform `p`, if it is a modifier.
pub fn modifier_group_on(p: Platform, name: &str) -> (r: Option<Vec<u32>>)
    ensures
        match r {
            Some(v) => modifier_codes_on(p, name@) == Some(v@),
            None => modifier_codes_on(p, name@) is None,
        },
{
    match p {
        Platform::Windows => windows::modifier_group(name),
        Platform::MacOs => macos::modifier_group(name),
    }
}

/// The key code that `name` stands for on platform `p`.
pub fn key_from_name_on(p: Platform, name: &str) -> (r: u32)
    ensures
        r == key_code_on(p, name@),
{
    match p {
        Platform::Windows => windows::key_from_name(name),
        Platform::MacOs => macos::key_from_name(name),
    }
}

} // verus!
