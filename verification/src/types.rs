//! The closed sets of build targets, platforms and configurations, and the
//! exact spellings the engine's own tools expect for each.

use vstd::prelude::*;

verus! {

/// A value with a fixed spelling understood by the engine's command line.
pub trait AsUnrealStr {
    /// The spelling, as a mathematical character sequence.
    spec fn ue_spec(&self) -> Seq<char>;

    fn as_ue(&self) -> (r: &'static str)
        ensures
            r@ == self.ue_spec(),
    ;
}

#[derive(Copy, Clone, Debug, PartialEq, Eq, Structural)]
pub enum Target {
    Editor,
    Client,
    Server,
}

impl AsUnrealStr for Target {
    open spec fn ue_spec(&self) -> Seq<char> {
        match self {
            Target::Editor => "editor"@,
            Target::Client => "client"@,
            Target::Server => "server"@,
        }
    }

    fn as_ue(&self) -> (r: &'static str) {
        match self {
            Target::Editor => "editor",
            Target::Client => "client",
            Target::Server => "server",
        }
    }
}

#[derive(Copy, Clone, Debug, PartialEq, Eq, Structural)]
pub enum Platform {
    Windows,
    PS4,
    Switch,
    XboxOne,
    Linux,
}

impl AsUnrealStr for Platform {
    open spec fn ue_spec(&self) -> Seq<char> {
        match self {
            Platform::Windows => "Win64"@,
            Platform::PS4 => "PS4"@,
            Platform::Switch => "Switch"@,
            Platform::XboxOne => "XboxOne"@,
            Platform::Linux => "Linux"@,
        }
    }

    fn as_ue(&self) -> (r: &'static str) {
        match self {
            Platform::Windows => "Win64",
            Platform::PS4 => "PS4",
            Platform::Switch => "Switch",
            Platform::XboxOne => "XboxOne",
            Platform::Linux => "Linux",
        }
    }
}

#[derive(Copy, Clone, Debug, PartialEq, Eq, Structural)]
pub enum Configuration {
    DebugGame,
    Development,
    Test,
    Shipping,
}

impl AsUnrealStr for Configuration {
    open spec fn ue_spec(&self) -> Seq<char> {
        match self {
            Configuration::DebugGame => "DebugGame"@,
            Configuration::Development => "Development"@,
            Configuration::Test => "Test"@,
            Configuration::Shipping => "Shipping"@,
        }
    }

    fn as_ue(&self) -> (r: &'static str) {
        match self {
            Configuration::DebugGame => "DebugGame",
            Configuration::Development => "Development",
            Configuration::Test => "Test",
            Configuration::Shipping => "Shipping",
        }
    }
}

} // verus!
