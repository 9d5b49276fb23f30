//! Packages of the NixOS system configuration.

pub mod install;
pub mod list;
pub mod rebuild;
pub mod remove;
pub mod update;

use vstd::prelude::*;

verus! {

/// The program that raises privileges for the helper.
#[derive(Debug, Clone, Copy)]
pub enum AuthMethod<'a> {
    Pkexec,
    Sudo,
    Custom(&'a str),
}

impl<'a> AuthMethod<'a> {
    /// The name of the program, as plain text.
    pub open spec fn name(self) -> Seq<char> {
        match self {
            AuthMethod::Pkexec => "pkexec"@,
            AuthMethod::Sudo => "sudo"@,
            AuthMethod::Custom(cmd) => cmd@,
        }
    }

    /// The name of the program.
    pub fn program(&self) -> (p: &'a str)
        ensures
            p@ == self.name(),
    {
        match self {
            AuthMethod::Pkexec => "pkexec",
            AuthMethod::Sudo => "sudo",
            AuthMethod::Custom(cmd) => cmd,
        }
    }
}

} // verus!
