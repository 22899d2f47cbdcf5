//! The configuration-facing command surface.

use vstd::prelude::*;

use crate::config::{Configure, SaveToDisk};
use crate::release::ReleaseBinary;

verus! {

/// The plugin that contributes the configuration commands.
#[derive(Copy, Clone, Debug)]
pub struct Cli;

/// The configuration commands.
#[derive(Clone, Debug)]
pub enum Commands {
    InitCfg(SaveToDisk),
    Cfg(Configure),
    Ship(ReleaseBinary),
}

} // verus!
