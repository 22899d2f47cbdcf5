//! The engine-facing command surface.

use vstd::prelude::*;

use crate::compile::{Compile, FixupBinaries};
use crate::cook::Cook;
use crate::localization::Localization;
use crate::pisep::RunPisep;
use crate::project_files::UpdateProjectFiles;
use crate::run_editor::RunEditor;

verus! {

/// The plugin that contributes the engine commands.
#[derive(Copy, Clone, Debug)]
pub struct Unreal;

/// The engine commands.
#[derive(Clone, Debug)]
pub enum Commands {
    GenProjectFiles(UpdateProjectFiles),
    FixupBinaries(FixupBinaries),
    Compile(Compile),
    Cook(Cook),
    Editor(RunEditor),
    Pisep(RunPisep),
    Loc(Localization),
}

} // verus!
