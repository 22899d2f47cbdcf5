//! Generating the project files (e.g. the `.sln`).

use vstd::prelude::*;

use crate::config::Config;
use crate::paths::path_join;
use crate::process::ProcessInvocation;

verus! {

/// Generate the project files.
#[derive(Clone, Debug)]
pub struct UpdateProjectFiles;

impl UpdateProjectFiles {
    /// The single invocation the operation resolves to: the engine's
    /// generator batch file, run in the project root with no arguments.
    pub fn invocation(&self, config: &Config) -> (r: ProcessInvocation)
        ensures
            r.program@ == path_join(
                config.engine_path@,
                "Build/BatchFiles/GenerateProjectFiles.bat"@,
            ),
            r.working_dir == Some(config.project_root),
            r.args@.len() == 0,
    {
        let batch = crate::paths::join(
            config.engine_path.as_str(),
            "Build/BatchFiles/GenerateProjectFiles.bat",
        );
        ProcessInvocation::new(batch, Some(config.project_root.clone()))
    }
}

} // verus!
